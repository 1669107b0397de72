use vstd::prelude::*;

use crate::errors::ProductCategoryServiceError;
use crate::models::UserRoleView;
use crate::permissions::{level_satisfies, RolePermissions};
use crate::user_role_repo::{resolved_level, UserRoleRepo};

verus! {

/// Whether a resolved level (absent for a role that could not be resolved)
/// satisfies `required`.
pub open spec fn level_grants(level: Option<RolePermissions>, required: RolePermissions) -> bool {
    match level {
        Some(l) => level_satisfies(l, required),
        None => false,
    }
}

/// Whether some level in `levels` satisfies `required`.
pub open spec fn grants(levels: Seq<Option<RolePermissions>>, required: RolePermissions) -> bool {
    exists|i: int| 0 <= i < levels.len() && #[trigger] level_grants(levels[i], required)
}

/// The resolved levels of the caller's roles, in the caller's order.
pub open spec fn role_levels(rows: Seq<UserRoleView>, roles: Seq<i32>) -> Seq<
    Option<RolePermissions>,
> {
    roles.map_values(|id: i32| resolved_level(rows, id))
}

/// Whether a caller holding `roles` may perform an operation requiring
/// `required`, given the stored roles `rows`.
pub open spec fn roles_grant(rows: Seq<UserRoleView>, roles: Seq<i32>, required: RolePermissions) -> bool {
    grants(role_levels(rows, roles), required)
}

/// Resolves each of the caller's roles; a role that is missing, or whose
/// stored level names none, gives `None` and does not stop the others.
pub fn resolve_levels(repo: &UserRoleRepo, roles: &Vec<i32>) -> (r: Vec<Option<RolePermissions>>)
    ensures
        r@ == role_levels(repo@, roles@),
{
    let mut out: Vec<Option<RolePermissions>> = Vec::new();
    let mut i: usize = 0;
    while i < roles.len()
        invariant
            i <= roles.len(),
            out@ == role_levels(repo@, roles@).subrange(0, i as int),
        decreases roles.len() - i,
    {
        let level = match repo.resolve(roles[i]) {
            Ok(level) => Some(level),
            Err(_) => None,
        };
        out.push(level);
        assert(out@ =~= role_levels(repo@, roles@).subrange(0, i + 1));
        i += 1;
    }
    assert(role_levels(repo@, roles@).subrange(0, i as int) =~= role_levels(repo@, roles@));
    out
}

/// Authorization: grants as soon as one level satisfies `required`, and denies
/// with `PermissionDenied` when none does, an empty set included.
pub fn authorize(levels: &Vec<Option<RolePermissions>>, required: RolePermissions) -> (r: Result<
    (),
    ProductCategoryServiceError,
>)
    ensures
        r is Ok <==> grants(levels@, required),
        r is Err ==> r == Err::<(), ProductCategoryServiceError>(
            ProductCategoryServiceError::PermissionDenied,
        ),
{
    let mut i: usize = 0;
    while i < levels.len()
        invariant
            i <= levels.len(),
            forall|k: int| 0 <= k < i ==> !#[trigger] level_grants(levels@[k], required),
        decreases levels.len() - i,
    {
        match levels[i] {
            Some(level) => {
                if level.satisfies(required) {
                    assert(level_grants(levels@[i as int], required));
                    return Ok(());
                }
            },
            None => {},
        }
        i += 1;
    }
    Err(ProductCategoryServiceError::PermissionDenied)
}

/// A role that cannot be resolved, wherever it stands in the caller's roles,
/// changes no authorization decision.
pub proof fn lemma_unresolved_role_skipped(
    rows: Seq<UserRoleView>,
    roles: Seq<i32>,
    k: int,
    id: i32,
    required: RolePermissions,
)
    requires
        resolved_level(rows, id) is None,
        0 <= k <= roles.len(),
    ensures
        roles_grant(rows, roles.insert(k, id), required) == roles_grant(rows, roles, required),
{
    let before = role_levels(rows, roles);
    let after = role_levels(rows, roles.insert(k, id));
    assert(after.len() == before.len() + 1);
    if roles_grant(rows, roles, required) {
        let i = choose|i: int| 0 <= i < before.len() && #[trigger] level_grants(before[i], required);
        let j = if i < k { i } else { i + 1 };
        assert(after[j] == before[i]);
    }
    if roles_grant(rows, roles.insert(k, id), required) {
        let j = choose|j: int| 0 <= j < after.len() && #[trigger] level_grants(after[j], required);
        assert(j != k);
        let i = if j < k { j } else { j - 1 };
        assert(after[j] == before[i]);
    }
}

/// A caller holding some role whose level is `Admin`, or equals the required
/// level, is granted access whatever else it holds; one holding no such role
/// is denied.
pub proof fn lemma_grant_iff_sufficient_role(
    rows: Seq<UserRoleView>,
    roles: Seq<i32>,
    required: RolePermissions,
)
    ensures
        roles_grant(rows, roles, required) <==> exists|i: int|
            0 <= i < roles.len() && (#[trigger] resolved_level(rows, roles[i]) == Some(
                RolePermissions::Admin,
            ) || resolved_level(rows, roles[i]) == Some(required)),
{
    let levels = role_levels(rows, roles);
    if roles_grant(rows, roles, required) {
        let i = choose|i: int| 0 <= i < levels.len() && #[trigger] level_grants(levels[i], required);
        assert(levels[i] == resolved_level(rows, roles[i]));
    }
    if exists|i: int|
        0 <= i < roles.len() && (#[trigger] resolved_level(rows, roles[i]) == Some(
            RolePermissions::Admin,
        ) || resolved_level(rows, roles[i]) == Some(required)) {
        let i = choose|i: int|
            0 <= i < roles.len() && (#[trigger] resolved_level(rows, roles[i]) == Some(
                RolePermissions::Admin,
            ) || resolved_level(rows, roles[i]) == Some(required));
        assert(level_grants(levels[i], required));
    }
}

} // verus!
