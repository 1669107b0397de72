use vstd::prelude::*;

verus! {

/// The permission level that a role carries.
#[derive(Clone, Copy, Debug, PartialEq, Eq, Structural)]
pub enum RolePermissions {
    Read,
    Write,
    Admin,
    NoAccess,
}

/// Whether a role holding `level` may perform an operation that requires
/// `required`: `Admin` satisfies every requirement, any other level only itself.
pub open spec fn level_satisfies(level: RolePermissions, required: RolePermissions) -> bool {
    level == RolePermissions::Admin || level == required
}

impl RolePermissions {
    /// Executable form of [`level_satisfies`].
    pub fn satisfies(self, required: RolePermissions) -> (r: bool)
        ensures
            r == level_satisfies(self, required),
    {
        match self {
            RolePermissions::Admin => true,
            _ => self == required,
        }
    }
}

/// A permission level as storage holds it: one of `read`, `write`, `admin`
/// and `none`.
#[derive(Clone, Debug, PartialEq)]
pub struct PermissionString(pub String);

/// The stored text of each level.
pub open spec fn permission_chars(level: RolePermissions) -> Seq<char> {
    match level {
        RolePermissions::Read => "read"@,
        RolePermissions::Write => "write"@,
        RolePermissions::Admin => "admin"@,
        RolePermissions::NoAccess => "none"@,
    }
}

/// The level that a stored text names; any other text names none.
pub open spec fn permission_from_chars(s: Seq<char>) -> Option<RolePermissions> {
    if s == "read"@ {
        Some(RolePermissions::Read)
    } else if s == "write"@ {
        Some(RolePermissions::Write)
    } else if s == "admin"@ {
        Some(RolePermissions::Admin)
    } else if s == "none"@ {
        Some(RolePermissions::NoAccess)
    } else {
        None
    }
}

impl PermissionString {
    /// The stored form of `perm`.
    pub fn from_permission(perm: RolePermissions) -> (r: PermissionString)
        ensures
            r.0@ == permission_chars(perm),
    {
        match perm {
            RolePermissions::Read => PermissionString("read".to_owned()),
            RolePermissions::Write => PermissionString("write".to_owned()),
            RolePermissions::Admin => PermissionString("admin".to_owned()),
            RolePermissions::NoAccess => PermissionString("none".to_owned()),
        }
    }

    /// The level this stored text names; `None` for a text that names no
    /// level, which is never read as some default level.
    pub fn as_permission(&self) -> (r: Option<RolePermissions>)
        ensures
            r == permission_from_chars(self.0@),
    {
        if self.0 == "read".to_owned() {
            Some(RolePermissions::Read)
        } else if self.0 == "write".to_owned() {
            Some(RolePermissions::Write)
        } else if self.0 == "admin".to_owned() {
            Some(RolePermissions::Admin)
        } else if self.0 == "none".to_owned() {
            Some(RolePermissions::NoAccess)
        } else {
            None
        }
    }
}

/// Reading back the stored form of a level gives that level.
pub proof fn lemma_permission_round_trip(level: RolePermissions)
    ensures
        permission_from_chars(permission_chars(level)) == Some(level),
{
    reveal_strlit("read");
    reveal_strlit("write");
    reveal_strlit("admin");
    reveal_strlit("none");
    assert("write"@ != "read"@) by { assert("write"@.len() != "read"@.len()); }
    assert("admin"@ != "read"@) by { assert("admin"@.len() != "read"@.len()); }
    assert("admin"@ != "write"@) by { assert("admin"@[0] != "write"@[0]); }
    assert("none"@ != "read"@) by { assert("none"@[0] != "read"@[0]); }
    assert("none"@ != "write"@) by { assert("none"@.len() != "write"@.len()); }
    assert("none"@ != "admin"@) by { assert("none"@.len() != "admin"@.len()); }
}

} // verus!
