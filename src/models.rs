use vstd::prelude::*;

use crate::permissions::PermissionString;

verus! {

/// A point in time, in whole seconds since the Unix epoch (UTC).
#[derive(Clone, Copy, Debug, PartialEq, Eq, Structural)]
pub struct Timestamp {
    pub secs: i64,
}

/// The characters of an optional string.
pub open spec fn opt_chars(o: Option<String>) -> Option<Seq<char>> {
    match o {
        Some(s) => Some(s@),
        None => None,
    }
}

/// The characters of an optional string slice.
pub open spec fn opt_str_chars(o: Option<&str>) -> Option<Seq<char>> {
    match o {
        Some(s) => Some(s@),
        None => None,
    }
}

/// An owned copy of an optional string slice.
pub fn owned_opt(o: Option<&str>) -> (r: Option<String>)
    ensures
        opt_chars(r) == opt_str_chars(o),
{
    match o {
        Some(s) => Some(s.to_owned()),
        None => None,
    }
}

/// A copy of an optional string.
pub fn copy_opt(o: &Option<String>) -> (r: Option<String>)
    ensures
        opt_chars(r) == opt_chars(*o),
{
    match o {
        Some(s) => Some(s.clone()),
        None => None,
    }
}

/// A stored category.
#[derive(Clone, Debug, PartialEq)]
pub struct Category {
    pub category_id: i32,
    pub name: String,
    pub description: Option<String>,
    pub created_at: Option<Timestamp>,
    pub updated_at: Option<Timestamp>,
}

/// What a category holds, with its strings as character sequences.
pub ghost struct CategoryView {
    pub category_id: i32,
    pub name: Seq<char>,
    pub description: Option<Seq<char>>,
    pub created_at: Option<Timestamp>,
    pub updated_at: Option<Timestamp>,
}

impl View for Category {
    type V = CategoryView;

    open spec fn view(&self) -> CategoryView {
        CategoryView {
            category_id: self.category_id,
            name: self.name@,
            description: opt_chars(self.description),
            created_at: self.created_at,
            updated_at: self.updated_at,
        }
    }
}

impl Category {
    /// A field-by-field copy.
    pub fn duplicate(&self) -> (r: Category)
        ensures
            r@ == self@,
    {
        Category {
            category_id: self.category_id,
            name: self.name.clone(),
            description: copy_opt(&self.description),
            created_at: self.created_at,
            updated_at: self.updated_at,
        }
    }
}

/// The fields a caller gives to create a category.
#[derive(Debug, PartialEq)]
pub struct NewCategory<'a> {
    pub name: &'a str,
    pub description: Option<&'a str>,
}

/// A partial change to a category: each present field replaces the stored one.
#[derive(Debug, PartialEq)]
pub struct UpdateCategory<'a> {
    pub name: Option<&'a str>,
    pub description: Option<&'a str>,
}

/// A category as shown to a caller; identifier and timestamps may be withheld.
#[derive(Clone, Debug, PartialEq)]
pub struct CategoryResponse {
    pub category_id: Option<i32>,
    pub name: String,
    pub description: Option<String>,
    pub created_at: Option<Timestamp>,
    pub updated_at: Option<Timestamp>,
}

pub ghost struct CategoryResponseView {
    pub category_id: Option<i32>,
    pub name: Seq<char>,
    pub description: Option<Seq<char>>,
    pub created_at: Option<Timestamp>,
    pub updated_at: Option<Timestamp>,
}

impl View for CategoryResponse {
    type V = CategoryResponseView;

    open spec fn view(&self) -> CategoryResponseView {
        CategoryResponseView {
            category_id: self.category_id,
            name: self.name@,
            description: opt_chars(self.description),
            created_at: self.created_at,
            updated_at: self.updated_at,
        }
    }
}

/// The full response for a stored category.
pub open spec fn category_response(c: CategoryView) -> CategoryResponseView {
    CategoryResponseView {
        category_id: Some(c.category_id),
        name: c.name,
        description: c.description,
        created_at: c.created_at,
        updated_at: c.updated_at,
    }
}

/// A response with its identifier and timestamps withheld.
pub open spec fn redacted(r: CategoryResponseView) -> CategoryResponseView {
    CategoryResponseView { category_id: None, created_at: None, updated_at: None, ..r }
}

impl CategoryResponse {
    /// The full response for `c`.
    pub fn from_category(c: &Category) -> (r: CategoryResponse)
        ensures
            r@ == category_response(c@),
    {
        CategoryResponse {
            category_id: Some(c.category_id),
            name: c.name.clone(),
            description: copy_opt(&c.description),
            created_at: c.created_at,
            updated_at: c.updated_at,
        }
    }

    /// Withholds the identifier and the timestamps.
    pub fn redact(&mut self)
        ensures
            final(self)@ == redacted(old(self)@),
    {
        self.category_id = None;
        self.created_at = None;
        self.updated_at = None;
    }
}

/// A stored product. The price is kept in hundredths of the currency unit.
#[derive(Clone, Debug, PartialEq)]
pub struct Product {
    pub product_id: i32,
    pub name: String,
    pub product_image_uri: Option<String>,
    pub description: Option<String>,
    pub price_cents: i64,
    pub created_at: Option<Timestamp>,
    pub updated_at: Option<Timestamp>,
}

pub ghost struct ProductView {
    pub product_id: i32,
    pub name: Seq<char>,
    pub product_image_uri: Option<Seq<char>>,
    pub description: Option<Seq<char>>,
    pub price_cents: i64,
    pub created_at: Option<Timestamp>,
    pub updated_at: Option<Timestamp>,
}

impl View for Product {
    type V = ProductView;

    open spec fn view(&self) -> ProductView {
        ProductView {
            product_id: self.product_id,
            name: self.name@,
            product_image_uri: opt_chars(self.product_image_uri),
            description: opt_chars(self.description),
            price_cents: self.price_cents,
            created_at: self.created_at,
            updated_at: self.updated_at,
        }
    }
}

impl Product {
    /// A field-by-field copy.
    pub fn duplicate(&self) -> (r: Product)
        ensures
            r@ == self@,
    {
        Product {
            product_id: self.product_id,
            name: self.name.clone(),
            product_image_uri: copy_opt(&self.product_image_uri),
            description: copy_opt(&self.description),
            price_cents: self.price_cents,
            created_at: self.created_at,
            updated_at: self.updated_at,
        }
    }
}

/// The fields a caller gives to create a product.
#[derive(Debug, PartialEq)]
pub struct NewProduct<'a> {
    pub name: &'a str,
    pub product_image_uri: Option<&'a str>,
    pub description: Option<&'a str>,
    pub price_cents: i64,
}

/// A partial change to a product: each present field replaces the stored one.
#[derive(Debug, PartialEq)]
pub struct UpdateProduct<'a> {
    pub name: Option<&'a str>,
    pub product_image_uri: Option<&'a str>,
    pub description: Option<&'a str>,
    pub price_cents: Option<i64>,
}

/// A stored link between a product and a category.
#[derive(Clone, Copy, Debug, PartialEq, Eq, Structural)]
pub struct ProductCategory {
    pub product_id: i32,
    pub category_id: i32,
    pub created_at: Option<Timestamp>,
    pub updated_at: Option<Timestamp>,
}

/// The key pair of a new link.
#[derive(Debug, PartialEq)]
pub struct NewProductCategory<'a> {
    pub product_id: &'a i32,
    pub category_id: &'a i32,
}

/// A partial change to a link's key pair.
#[derive(Debug, PartialEq)]
pub struct UpdateProductCategory<'a> {
    pub product_id: Option<&'a i32>,
    pub category_id: Option<&'a i32>,
}

/// A stored role of a user.
#[derive(Clone, Debug, PartialEq)]
pub struct UserRole {
    pub role_id: i32,
    pub user_id: i32,
    pub name: String,
    pub description: Option<String>,
    pub permissions: Option<PermissionString>,
    pub created_at: Option<Timestamp>,
    pub updated_at: Option<Timestamp>,
}

/// The characters of an optional stored permission level.
pub open spec fn opt_permission_chars(o: Option<PermissionString>) -> Option<Seq<char>> {
    match o {
        Some(p) => Some(p.0@),
        None => None,
    }
}

pub ghost struct UserRoleView {
    pub role_id: i32,
    pub user_id: i32,
    pub name: Seq<char>,
    pub description: Option<Seq<char>>,
    pub permissions: Option<Seq<char>>,
    pub created_at: Option<Timestamp>,
    pub updated_at: Option<Timestamp>,
}

impl View for UserRole {
    type V = UserRoleView;

    open spec fn view(&self) -> UserRoleView {
        UserRoleView {
            role_id: self.role_id,
            user_id: self.user_id,
            name: self.name@,
            description: opt_chars(self.description),
            permissions: opt_permission_chars(self.permissions),
            created_at: self.created_at,
            updated_at: self.updated_at,
        }
    }
}

/// The fields a caller gives to create a role.
#[derive(Debug, PartialEq)]
pub struct NewUserRole<'a> {
    pub user_id: i32,
    pub name: &'a str,
    pub description: Option<&'a str>,
    pub permissions: Option<&'a str>,
}

/// A stored user.
#[derive(Clone, Debug, PartialEq)]
pub struct User {
    pub user_id: i32,
    pub username: String,
    pub password_hash: String,
    pub created_at: Option<Timestamp>,
    pub updated_at: Option<Timestamp>,
}

pub ghost struct UserView {
    pub user_id: i32,
    pub username: Seq<char>,
    pub password_hash: Seq<char>,
    pub created_at: Option<Timestamp>,
    pub updated_at: Option<Timestamp>,
}

impl View for User {
    type V = UserView;

    open spec fn view(&self) -> UserView {
        UserView {
            user_id: self.user_id,
            username: self.username@,
            password_hash: self.password_hash@,
            created_at: self.created_at,
            updated_at: self.updated_at,
        }
    }
}

impl User {
    /// A field-by-field copy.
    pub fn duplicate(&self) -> (r: User)
        ensures
            r@ == self@,
    {
        User {
            user_id: self.user_id,
            username: self.username.clone(),
            password_hash: self.password_hash.clone(),
            created_at: self.created_at,
            updated_at: self.updated_at,
        }
    }
}

/// The fields a caller gives to create a user.
#[derive(Debug, PartialEq)]
pub struct NewUser<'a> {
    pub username: &'a str,
    pub password_hash: &'a str,
}

impl<'a> NewUser<'a> {
    /// The fields of a registration; its password field is expected to hold
    /// the hash by then.
    pub fn from_dto(user_dto: &'a NewUserDTO) -> (r: NewUser<'a>)
        ensures
            r.username@ == user_dto.username@,
            r.password_hash@ == user_dto.password@,
    {
        NewUser { username: user_dto.username.as_str(), password_hash: user_dto.password.as_str() }
    }
}

/// A stored order of a user.
#[derive(Clone, Debug, PartialEq)]
pub struct Order {
    pub order_id: i32,
    pub user_id: i32,
    pub status: String,
    pub created_at: Option<Timestamp>,
    pub updated_at: Option<Timestamp>,
}

pub ghost struct OrderView {
    pub order_id: i32,
    pub user_id: i32,
    pub status: Seq<char>,
    pub created_at: Option<Timestamp>,
    pub updated_at: Option<Timestamp>,
}

impl View for Order {
    type V = OrderView;

    open spec fn view(&self) -> OrderView {
        OrderView {
            order_id: self.order_id,
            user_id: self.user_id,
            status: self.status@,
            created_at: self.created_at,
            updated_at: self.updated_at,
        }
    }
}

impl Order {
    /// A field-by-field copy.
    pub fn duplicate(&self) -> (r: Order)
        ensures
            r@ == self@,
    {
        Order {
            order_id: self.order_id,
            user_id: self.user_id,
            status: self.status.clone(),
            created_at: self.created_at,
            updated_at: self.updated_at,
        }
    }
}

/// The fields a caller gives to create an order.
#[derive(Clone, Debug, PartialEq)]
pub struct NewOrder {
    pub user_id: i32,
    pub status: String,
}

/// A partial change to an order: each present field replaces the stored one.
#[derive(Debug, PartialEq)]
pub struct UpdateOrder<'a> {
    pub user_id: Option<i32>,
    pub status: Option<&'a str>,
}

/// A role as exchanged with clients.
#[derive(Clone, Debug, PartialEq)]
pub struct RoleDTO {
    pub name: String,
    pub description: Option<String>,
    pub permissions: Vec<String>,
    pub created_at: Option<String>,
    pub updated_at: Option<String>,
}

/// A user as exchanged with clients.
#[derive(Clone, Debug, PartialEq)]
pub struct UserDTO {
    pub username: String,
    pub role: RoleDTO,
    pub created_at: Option<String>,
    pub updated_at: Option<String>,
}

/// The fields a client sends to register.
#[derive(Clone, Debug, PartialEq)]
pub struct NewUserDTO {
    pub username: String,
    pub password: String,
}

} // verus!
