//! A role-authorized catalog backend: entity stores for categories, products,
//! their links, users, user roles and orders; a permission resolver; an
//! authorization check over a caller's roles; the catalog operations built on
//! them; and password hashing.
use vstd::prelude::*;

pub mod auth_service;
pub mod authorization;
pub mod category_repo;
pub mod errors;
pub mod models;
pub mod order_repo;
pub mod permissions;
pub mod product_category_repo;
pub mod product_category_service;
pub mod product_repo;
pub mod user_repo;
pub mod user_role_repo;

verus! {

} // verus!
