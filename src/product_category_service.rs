use vstd::prelude::*;

use crate::authorization::{authorize, resolve_levels, roles_grant};
use crate::category_repo::{
    category_insert_allowed, category_named, category_rows_deleted, category_rows_updated,
    category_update_conflicts, new_category_row, CategoryRepo,
};
use crate::errors::ProductCategoryServiceError;
use crate::models::{
    opt_str_chars, CategoryResponse, CategoryResponseView, CategoryView, NewCategory,
    NewProductCategory, Timestamp, UpdateCategory, category_response, redacted,
};
use crate::permissions::RolePermissions;
use crate::product_category_repo::{
    link_index, link_rows_deleted, new_link_row, ProductCategoryRepo,
};
use crate::product_repo::{product_named, ProductRepo};
use crate::user_role_repo::UserRoleRepo;

verus! {

/// The listing of `rows` as a caller sees it: complete for an administrator,
/// with identifiers and timestamps withheld for anyone else.
pub open spec fn category_listing(rows: Seq<CategoryView>, admin: bool) -> Seq<
    CategoryResponseView,
> {
    rows.map_values(
        |c: CategoryView|
            if admin {
                category_response(c)
            } else {
                redacted(category_response(c))
            },
    )
}

/// A listing for a caller who is no administrator withholds every
/// identifier and timestamp; one for an administrator gives them all.
pub proof fn lemma_listing_redaction(rows: Seq<CategoryView>, admin: bool)
    ensures
        category_listing(rows, admin).len() == rows.len(),
        forall|i: int|
            0 <= i < rows.len() ==> {
                let v = #[trigger] category_listing(rows, admin)[i];
                &&& v.name == rows[i].name
                &&& v.description == rows[i].description
                &&& !admin ==> v.category_id is None && v.created_at is None && v.updated_at
                    is None
                &&& admin ==> v.category_id == Some(rows[i].category_id) && v.created_at
                    == rows[i].created_at && v.updated_at == rows[i].updated_at
            },
{
}

/// The views of a sequence of responses.
pub open spec fn response_views(v: Seq<CategoryResponse>) -> Seq<CategoryResponseView> {
    v.map_values(|r: CategoryResponse| r@)
}

/// The outcome of linking a product to a category, both named.
pub open spec fn link_outcome(
    svc: ProductCategoryService,
    roles: Seq<i32>,
    category_name: Seq<char>,
    product_name: Seq<char>,
    adding: bool,
) -> Result<(), ProductCategoryServiceError> {
    if !svc.may(roles, RolePermissions::Write) {
        Err(ProductCategoryServiceError::PermissionDenied)
    } else {
        match product_named(svc.products@, product_name) {
            None => Err(ProductCategoryServiceError::ProductNotFound),
            Some(p) => match category_named(svc.categories@, category_name) {
                None => Err(ProductCategoryServiceError::CategoryNotFound),
                Some(c) => if adding && link_index(svc.links@, (p.product_id, c.category_id)) is Some {
                    Err(ProductCategoryServiceError::DatabaseError)
                } else {
                    Ok(())
                },
            },
        }
    }
}

/// The key of the link between the named product and category, when both
/// exist.
pub open spec fn named_link_key(
    svc: ProductCategoryService,
    category_name: Seq<char>,
    product_name: Seq<char>,
) -> (i32, i32) {
    (
        product_named(svc.products@, product_name)->Some_0.product_id,
        category_named(svc.categories@, category_name)->Some_0.category_id,
    )
}

/// The catalog operations, each gated by the caller's roles, over the stores
/// they read and write.
pub struct ProductCategoryService {
    pub roles: UserRoleRepo,
    pub products: ProductRepo,
    pub categories: CategoryRepo,
    pub links: ProductCategoryRepo,
}

impl ProductCategoryService {
    pub open spec fn wf(&self) -> bool {
        &&& self.roles.wf()
        &&& self.products.wf()
        &&& self.categories.wf()
        &&& self.links.wf()
    }

    /// Whether a caller holding `roles` may perform an operation requiring
    /// `required`.
    pub open spec fn may(&self, roles: Seq<i32>, required: RolePermissions) -> bool {
        roles_grant(self.roles@, roles, required)
    }

    /// A service over empty stores.
    pub fn new() -> (r: ProductCategoryService)
        ensures
            r.wf(),
            r.roles@.len() == 0,
            r.products@.len() == 0,
            r.categories@.len() == 0,
            r.links@.len() == 0,
            r.roles.next_id() == 1,
            r.products.next_id() == 1,
            r.categories.next_id() == 1,
    {
        ProductCategoryService {
            roles: UserRoleRepo::new(),
            products: ProductRepo::new(),
            categories: CategoryRepo::new(),
            links: ProductCategoryRepo::new(),
        }
    }

    /// Decides authorization over the caller's roles.
    fn has_permission(&self, roles: &Vec<i32>, required: RolePermissions) -> (r: bool)
        ensures
            r == self.may(roles@, required),
    {
        let levels = resolve_levels(&self.roles, roles);
        authorize(&levels, required).is_ok()
    }

    /// Lists every category for a caller allowed to read. Callers who are not
    /// administrators get each identifier and timestamp withheld.
    pub fn get_categories(&self, roles: &Vec<i32>) -> (r: Result<
        Option<Vec<CategoryResponse>>,
        ProductCategoryServiceError,
    >)
        ensures
            match r {
                Err(e) => !self.may(roles@, RolePermissions::Read) && e
                    == ProductCategoryServiceError::PermissionDenied,
                Ok(None) => self.may(roles@, RolePermissions::Read) && self.categories@.len() == 0,
                Ok(Some(v)) => {
                    &&& self.may(roles@, RolePermissions::Read)
                    &&& self.categories@.len() > 0
                    &&& response_views(v@) == category_listing(
                        self.categories@,
                        self.may(roles@, RolePermissions::Admin),
                    )
                },
            },
    {
        if !self.has_permission(roles, RolePermissions::Read) {
            return Err(ProductCategoryServiceError::PermissionDenied);
        }
        let is_admin = self.has_permission(roles, RolePermissions::Admin);
        let categories = match self.categories.get_all() {
            Ok(c) => c,
            Err(_) => return Err(ProductCategoryServiceError::DatabaseError),
        };
        let categories = match categories {
            Some(c) => c,
            None => return Ok(None),
        };
        let ghost expected = category_listing(self.categories@, is_admin);
        let mut out: Vec<CategoryResponse> = Vec::new();
        let mut i: usize = 0;
        while i < categories.len()
            invariant
                i <= categories.len(),
                crate::category_repo::category_views(categories@) == self.categories@,
                expected == category_listing(self.categories@, is_admin),
                out@.len() == i,
                forall|k: int| 0 <= k < i ==> #[trigger] out@[k]@ == expected[k],
            decreases categories.len() - i,
        {
            let mut response = CategoryResponse::from_category(&categories[i]);
            if !is_admin {
                response.redact();
            }
            assert(categories@[i as int]@ == self.categories@[i as int]);
            out.push(response);
            i += 1;
        }
        assert(response_views(out@) =~= expected);
        Ok(Some(out))
    }

    /// Creates a category for a caller allowed to write and returns its new
    /// identifier, obtained from the insertion itself.
    pub fn add_category(
        &mut self,
        roles: &Vec<i32>,
        name: &str,
        description: Option<&str>,
        now: Timestamp,
    ) -> (r: Result<i32, ProductCategoryServiceError>)
        requires
            old(self).wf(),
        ensures
            final(self).wf(),
            final(self).roles == old(self).roles,
            final(self).products == old(self).products,
            final(self).links == old(self).links,
            match r {
                Ok(id) => {
                    &&& old(self).may(roles@, RolePermissions::Write)
                    &&& category_insert_allowed(
                        old(self).categories@,
                        old(self).categories.next_id(),
                        name@,
                    )
                    &&& id == old(self).categories.next_id()
                    &&& final(self).categories@ == old(self).categories@.push(
                        new_category_row(id, name@, opt_str_chars(description), now),
                    )
                },
                Err(ProductCategoryServiceError::PermissionDenied) => {
                    &&& !old(self).may(roles@, RolePermissions::Write)
                    &&& final(self).categories == old(self).categories
                },
                Err(ProductCategoryServiceError::DatabaseError) => {
                    &&& old(self).may(roles@, RolePermissions::Write)
                    &&& !category_insert_allowed(
                        old(self).categories@,
                        old(self).categories.next_id(),
                        name@,
                    )
                    &&& final(self).categories@ == old(self).categories@
                },
                Err(_) => false,
            },
    {
        if !self.has_permission(roles, RolePermissions::Write) {
            return Err(ProductCategoryServiceError::PermissionDenied);
        }
        let new_category = NewCategory { name, description };
        match self.categories.insert(new_category, now) {
            Ok(id) => Ok(id),
            Err(_) => Err(ProductCategoryServiceError::DatabaseError),
        }
    }

    /// Applies the present fields to category `category_id` for a caller
    /// allowed to write.
    pub fn edit_category(
        &mut self,
        roles: &Vec<i32>,
        category_id: i32,
        name: Option<&str>,
        description: Option<&str>,
        now: Timestamp,
    ) -> (r: Result<(), ProductCategoryServiceError>)
        requires
            old(self).wf(),
        ensures
            final(self).wf(),
            final(self).roles == old(self).roles,
            final(self).products == old(self).products,
            final(self).links == old(self).links,
            match r {
                Ok(()) => {
                    &&& old(self).may(roles@, RolePermissions::Write)
                    &&& !category_update_conflicts(
                        old(self).categories@,
                        category_id,
                        opt_str_chars(name),
                    )
                    &&& final(self).categories@ == category_rows_updated(
                        old(self).categories@,
                        category_id,
                        opt_str_chars(name),
                        opt_str_chars(description),
                        now,
                    )
                },
                Err(ProductCategoryServiceError::PermissionDenied) => {
                    &&& !old(self).may(roles@, RolePermissions::Write)
                    &&& final(self).categories == old(self).categories
                },
                Err(ProductCategoryServiceError::DatabaseError) => {
                    &&& old(self).may(roles@, RolePermissions::Write)
                    &&& category_update_conflicts(
                        old(self).categories@,
                        category_id,
                        opt_str_chars(name),
                    )
                    &&& final(self).categories@ == old(self).categories@
                },
                Err(_) => false,
            },
    {
        if !self.has_permission(roles, RolePermissions::Write) {
            return Err(ProductCategoryServiceError::PermissionDenied);
        }
        let updated_category = UpdateCategory { name, description };
        match self.categories.update(category_id, updated_category, now) {
            Ok(()) => Ok(()),
            Err(_) => Err(ProductCategoryServiceError::DatabaseError),
        }
    }

    /// Deletes category `category_id` for a caller allowed to write. Links to
    /// it are left in place.
    pub fn delete_category(&mut self, roles: &Vec<i32>, category_id: i32) -> (r: Result<
        (),
        ProductCategoryServiceError,
    >)
        requires
            old(self).wf(),
        ensures
            final(self).wf(),
            final(self).roles == old(self).roles,
            final(self).products == old(self).products,
            final(self).links == old(self).links,
            match r {
                Ok(()) => {
                    &&& old(self).may(roles@, RolePermissions::Write)
                    &&& final(self).categories@ == category_rows_deleted(
                        old(self).categories@,
                        category_id,
                    )
                },
                Err(e) => {
                    &&& !old(self).may(roles@, RolePermissions::Write)
                    &&& e == ProductCategoryServiceError::PermissionDenied
                    &&& final(self).categories == old(self).categories
                },
            },
    {
        if !self.has_permission(roles, RolePermissions::Write) {
            return Err(ProductCategoryServiceError::PermissionDenied);
        }
        match self.categories.delete(category_id) {
            Ok(()) => Ok(()),
            Err(_) => Err(ProductCategoryServiceError::DatabaseError),
        }
    }

    /// Links the product named `product_name` to the category named
    /// `category_name`, for a caller allowed to write. The product is looked
    /// up first, then the category; the first one missing decides the error.
    pub fn add_product_to_category(
        &mut self,
        roles: &Vec<i32>,
        category_name: &str,
        product_name: &str,
        now: Timestamp,
    ) -> (r: Result<(), ProductCategoryServiceError>)
        requires
            old(self).wf(),
        ensures
            final(self).wf(),
            final(self).roles == old(self).roles,
            final(self).products == old(self).products,
            final(self).categories == old(self).categories,
            r == link_outcome(*old(self), roles@, category_name@, product_name@, true),
            r is Ok ==> final(self).links@ == old(self).links@.push(
                new_link_row(named_link_key(*old(self), category_name@, product_name@), now),
            ),
            r is Err ==> final(self).links@ == old(self).links@,
    {
        if !self.has_permission(roles, RolePermissions::Write) {
            return Err(ProductCategoryServiceError::PermissionDenied);
        }
        let product = match self.products.get_by_name(product_name) {
            Ok(Some(p)) => p,
            Ok(None) => return Err(ProductCategoryServiceError::ProductNotFound),
            Err(_) => return Err(ProductCategoryServiceError::DatabaseError),
        };
        let category = match self.categories.get_by_name(category_name) {
            Ok(Some(c)) => c,
            Ok(None) => return Err(ProductCategoryServiceError::CategoryNotFound),
            Err(_) => return Err(ProductCategoryServiceError::DatabaseError),
        };
        let new_product_category = NewProductCategory {
            product_id: &product.product_id,
            category_id: &category.category_id,
        };
        match self.links.add(new_product_category, now) {
            Ok(()) => Ok(()),
            Err(_) => Err(ProductCategoryServiceError::DatabaseError),
        }
    }

    /// Removes the link between the product named `product_name` and the
    /// category named `category_name`, for a caller allowed to write. The
    /// lookups go as for [`ProductCategoryService::add_product_to_category`];
    /// a missing link is no error.
    pub fn remove_product_from_category(
        &mut self,
        roles: &Vec<i32>,
        category_name: &str,
        product_name: &str,
    ) -> (r: Result<(), ProductCategoryServiceError>)
        requires
            old(self).wf(),
        ensures
            final(self).wf(),
            final(self).roles == old(self).roles,
            final(self).products == old(self).products,
            final(self).categories == old(self).categories,
            r == link_outcome(*old(self), roles@, category_name@, product_name@, false),
            r is Ok ==> final(self).links@ == link_rows_deleted(
                old(self).links@,
                named_link_key(*old(self), category_name@, product_name@),
            ),
            r is Err ==> final(self).links == old(self).links,
    {
        if !self.has_permission(roles, RolePermissions::Write) {
            return Err(ProductCategoryServiceError::PermissionDenied);
        }
        let product = match self.products.get_by_name(product_name) {
            Ok(Some(p)) => p,
            Ok(None) => return Err(ProductCategoryServiceError::ProductNotFound),
            Err(_) => return Err(ProductCategoryServiceError::DatabaseError),
        };
        let category = match self.categories.get_by_name(category_name) {
            Ok(Some(c)) => c,
            Ok(None) => return Err(ProductCategoryServiceError::CategoryNotFound),
            Err(_) => return Err(ProductCategoryServiceError::DatabaseError),
        };
        match self.links.delete((product.product_id, category.category_id)) {
            Ok(()) => Ok(()),
            Err(_) => Err(ProductCategoryServiceError::DatabaseError),
        }
    }
}

impl Default for ProductCategoryService {
    fn default() -> (r: ProductCategoryService)
        ensures
            r.wf(),
            r.roles@.len() == 0,
            r.products@.len() == 0,
            r.categories@.len() == 0,
            r.links@.len() == 0,
    {
        ProductCategoryService::new()
    }
}

} // verus!
