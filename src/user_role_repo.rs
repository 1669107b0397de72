use vstd::prelude::*;

use crate::errors::{DatabaseError, RoleError};
use crate::models::{owned_opt, NewUserRole, Timestamp, UserRole, UserRoleView};
use crate::permissions::{permission_from_chars, PermissionString, RolePermissions};

verus! {

/// The views of a sequence of roles.
pub open spec fn role_views(v: Seq<UserRole>) -> Seq<UserRoleView> {
    v.map_values(|r: UserRole| r@)
}

/// Position of the role with identifier `id`, searching from the newest row.
pub open spec fn role_index(rows: Seq<UserRoleView>, id: i32) -> Option<int>
    decreases rows.len(),
{
    if rows.len() == 0 {
        None
    } else if rows.last().role_id == id {
        Some(rows.len() - 1)
    } else {
        role_index(rows.drop_last(), id)
    }
}

/// The stored role with identifier `id`, if any.
pub open spec fn role_with_id(rows: Seq<UserRoleView>, id: i32) -> Option<UserRoleView> {
    match role_index(rows, id) {
        Some(i) => Some(rows[i]),
        None => None,
    }
}

/// The permission level of role `id`: absent when there is no such role or
/// its stored level names none; a role with no stored level holds `NoAccess`.
pub open spec fn resolved_level(rows: Seq<UserRoleView>, id: i32) -> Option<RolePermissions> {
    match role_with_id(rows, id) {
        Some(role) => match role.permissions {
            Some(p) => permission_from_chars(p),
            None => Some(RolePermissions::NoAccess),
        },
        None => None,
    }
}

/// Identifiers are positive, below `next` and increase with the position.
pub open spec fn role_rows_wf(rows: Seq<UserRoleView>, next: int) -> bool {
    &&& 1 <= next <= i32::MAX + 1
    &&& forall|i: int| 0 <= i < rows.len() ==> 0 < #[trigger] rows[i].role_id < next
    &&& forall|i: int, j: int|
        0 <= i < j < rows.len() ==> #[trigger] rows[i].role_id < #[trigger] rows[j].role_id
}

/// The role that a successful insertion stores.
pub open spec fn new_role_row(id: i32, item: NewUserRole, now: Timestamp) -> UserRoleView {
    UserRoleView {
        role_id: id,
        user_id: item.user_id,
        name: item.name@,
        description: crate::models::opt_str_chars(item.description),
        permissions: crate::models::opt_str_chars(item.permissions),
        created_at: Some(now),
        updated_at: Some(now),
    }
}

pub proof fn lemma_role_index(rows: Seq<UserRoleView>, id: i32)
    ensures
        match role_index(rows, id) {
            Some(i) => 0 <= i < rows.len() && rows[i].role_id == id,
            None => forall|k: int| 0 <= k < rows.len() ==> #[trigger] rows[k].role_id != id,
        },
    decreases rows.len(),
{
    if rows.len() > 0 && rows.last().role_id != id {
        let rest = rows.drop_last();
        lemma_role_index(rest, id);
        assert(role_index(rows, id) == role_index(rest, id));
        if role_index(rows, id) is None {
            assert forall|k: int| 0 <= k < rows.len() implies #[trigger] rows[k].role_id != id by {
                if k < rows.len() - 1 {
                    assert(rows[k] == rest[k]);
                    assert(rest[k].role_id != id);
                }
            }
        }
    }
}

/// The store of user roles.
pub struct UserRoleRepo {
    rows: Vec<UserRole>,
    next_id: i64,
}

impl View for UserRoleRepo {
    type V = Seq<UserRoleView>;

    closed spec fn view(&self) -> Seq<UserRoleView> {
        role_views(self.rows@)
    }
}

impl UserRoleRepo {
    /// The identifier that the next insertion receives.
    pub closed spec fn next_id(&self) -> int {
        self.next_id as int
    }

    pub open spec fn wf(&self) -> bool {
        role_rows_wf(self@, self.next_id())
    }

    /// An empty store; identifiers start at 1.
    pub fn new() -> (r: UserRoleRepo)
        ensures
            r.wf(),
            r@ == Seq::<UserRoleView>::empty(),
            r.next_id() == 1,
    {
        let r = UserRoleRepo { rows: Vec::new(), next_id: 1 };
        assert(r@ =~= Seq::<UserRoleView>::empty());
        r
    }

    fn index_of_id(&self, id: i32) -> (r: Option<usize>)
        ensures
            match r {
                Some(i) => role_index(self@, id) == Some(i as int),
                None => role_index(self@, id) is None,
            },
    {
        let mut i: usize = self.rows.len();
        assert(self@.subrange(0, i as int) =~= self@);
        while i > 0
            invariant
                i <= self.rows.len(),
                self@.len() == self.rows@.len(),
                role_index(self@, id) == role_index(self@.subrange(0, i as int), id),
            decreases i,
        {
            assert(self@[i - 1] == self.rows@[i - 1]@);
            if self.rows[i - 1].role_id == id {
                return Some(i - 1);
            }
            assert(self@.subrange(0, i as int).drop_last() =~= self@.subrange(0, i - 1));
            i -= 1;
        }
        None
    }

    /// Stores a new role with a fresh identifier and both timestamps set to
    /// `now`, and returns the identifier. Fails, changing nothing, when no
    /// identifier is left.
    pub fn insert(&mut self, item: NewUserRole, now: Timestamp) -> (r: Result<i32, DatabaseError>)
        requires
            old(self).wf(),
        ensures
            final(self).wf(),
            match r {
                Ok(id) => {
                    &&& old(self).next_id() <= i32::MAX
                    &&& id == old(self).next_id()
                    &&& final(self)@ == old(self)@.push(new_role_row(id, item, now))
                    &&& final(self).next_id() == old(self).next_id() + 1
                },
                Err(_) => {
                    &&& old(self).next_id() > i32::MAX
                    &&& final(self)@ == old(self)@
                    &&& final(self).next_id() == old(self).next_id()
                },
            },
    {
        if self.next_id > i32::MAX as i64 {
            return Err(DatabaseError);
        }
        let id = self.next_id as i32;
        let permissions = match item.permissions {
            Some(p) => Some(PermissionString(p.to_owned())),
            None => None,
        };
        let row = UserRole {
            role_id: id,
            user_id: item.user_id,
            name: item.name.to_owned(),
            description: owned_opt(item.description),
            permissions,
            created_at: Some(now),
            updated_at: Some(now),
        };
        let ghost before = self@;
        self.rows.push(row);
        self.next_id = self.next_id + 1;
        assert(self@ =~= before.push(row@));
        Ok(id)
    }

    /// The role with identifier `id`; absence is no error.
    pub fn get_by_id(&self, id: i32) -> (r: Result<Option<UserRole>, DatabaseError>)
        ensures
            match r {
                Ok(Some(role)) => role_with_id(self@, id) == Some(role@),
                Ok(None) => role_with_id(self@, id) is None,
                Err(_) => false,
            },
    {
        match self.index_of_id(id) {
            Some(i) => {
                proof { lemma_role_index(self@, id); }
                assert(self@[i as int] == self.rows@[i as int]@);
                let role = &self.rows[i];
                let permissions = match &role.permissions {
                    Some(p) => Some(PermissionString(p.0.clone())),
                    None => None,
                };
                Ok(
                    Some(
                        UserRole {
                            role_id: role.role_id,
                            user_id: role.user_id,
                            name: role.name.clone(),
                            description: crate::models::copy_opt(&role.description),
                            permissions,
                            created_at: role.created_at,
                            updated_at: role.updated_at,
                        },
                    ),
                )
            },
            None => Ok(None),
        }
    }

    /// The users holding a role named `name`, in stored order.
    pub fn user_ids_with_name(&self, name: &str) -> (r: Vec<i32>)
        ensures
            r@ == crate::order_repo::users_with_role(self@, name@),
    {
        let key = name.to_owned();
        let mut out: Vec<i32> = Vec::new();
        let mut i: usize = 0;
        while i < self.rows.len()
            invariant
                i <= self.rows.len(),
                key@ == name@,
                out@ == crate::order_repo::users_with_role(self@.subrange(0, i as int), name@),
            decreases self.rows.len() - i,
        {
            assert(self@.subrange(0, i + 1).drop_last() =~= self@.subrange(0, i as int));
            assert(self@.subrange(0, i + 1).last() == self.rows@[i as int]@);
            if self.rows[i].name == key {
                out.push(self.rows[i].user_id);
            }
            i += 1;
        }
        assert(self@.subrange(0, i as int) =~= self@);
        out
    }

    /// The permission level of role `id`. A missing role, and one whose stored
    /// level names no level, is `RoleNotFound`.
    pub fn resolve(&self, id: i32) -> (r: Result<RolePermissions, RoleError>)
        ensures
            match r {
                Ok(level) => resolved_level(self@, id) == Some(level),
                Err(e) => resolved_level(self@, id) is None && e == RoleError::RoleNotFound,
            },
    {
        match self.index_of_id(id) {
            Some(i) => {
                proof { lemma_role_index(self@, id); }
                assert(self@[i as int] == self.rows@[i as int]@);
                match &self.rows[i].permissions {
                    Some(p) => match p.as_permission() {
                        Some(level) => Ok(level),
                        None => Err(RoleError::RoleNotFound),
                    },
                    None => Ok(RolePermissions::NoAccess),
                }
            },
            None => Err(RoleError::RoleNotFound),
        }
    }
}

impl Default for UserRoleRepo {
    fn default() -> (r: UserRoleRepo)
        ensures
            r.wf(),
            r@ == Seq::<UserRoleView>::empty(),
            r.next_id() == 1,
    {
        UserRoleRepo::new()
    }
}

} // verus!
