use arrow_server::authorization::{authorize, resolve_levels};
use arrow_server::errors::ProductCategoryServiceError;
use arrow_server::models::{NewCategory, NewProduct, NewUserRole, Timestamp};
use arrow_server::permissions::RolePermissions;
use arrow_server::product_category_service::ProductCategoryService;

fn at(secs: i64) -> Timestamp {
    Timestamp { secs }
}

fn role(svc: &mut ProductCategoryService, permissions: Option<&str>) -> i32 {
    svc.roles
        .insert(NewUserRole { user_id: 1, name: "role", description: None, permissions }, at(0))
        .expect("role")
}

fn product(svc: &mut ProductCategoryService, name: &str) -> i32 {
    svc.products
        .insert(NewProduct { name, product_image_uri: None, description: None, price_cents: 100 }, at(0))
        .expect("product")
}

#[test]
fn gate_grants_iff_some_level_suffices() {
    let read = Some(RolePermissions::Read);
    let write = Some(RolePermissions::Write);
    let admin = Some(RolePermissions::Admin);
    let none = Some(RolePermissions::NoAccess);
    let denied = Err(ProductCategoryServiceError::PermissionDenied);
    assert_eq!(authorize(&vec![], RolePermissions::Read), denied);
    assert_eq!(authorize(&vec![read], RolePermissions::Read), Ok(()));
    assert_eq!(authorize(&vec![read], RolePermissions::Write), denied);
    assert_eq!(authorize(&vec![read, write], RolePermissions::Write), Ok(()));
    assert_eq!(authorize(&vec![write, read], RolePermissions::Write), Ok(()));
    assert_eq!(authorize(&vec![admin], RolePermissions::Write), Ok(()));
    assert_eq!(authorize(&vec![admin], RolePermissions::Read), Ok(()));
    assert_eq!(authorize(&vec![write], RolePermissions::Admin), denied);
    assert_eq!(authorize(&vec![none, None], RolePermissions::Read), denied);
}

#[test]
fn unknown_role_is_skipped() {
    let mut svc = ProductCategoryService::new();
    let writer = role(&mut svc, Some("write"));
    let levels = resolve_levels(&svc.roles, &vec![77, writer]);
    assert_eq!(levels, vec![None, Some(RolePermissions::Write)]);
    assert_eq!(authorize(&levels, RolePermissions::Write), Ok(()));
    assert_eq!(svc.add_category(&vec![77, writer], "Soups", None, at(1)), Ok(1));
    assert_eq!(
        svc.add_category(&vec![77], "Stews", None, at(1)),
        Err(ProductCategoryServiceError::PermissionDenied)
    );
}

#[test]
fn unreadable_stored_level_grants_nothing() {
    let mut svc = ProductCategoryService::new();
    let odd = role(&mut svc, Some("superuser"));
    let bare = role(&mut svc, None);
    assert_eq!(
        resolve_levels(&svc.roles, &vec![odd, bare]),
        vec![None, Some(RolePermissions::NoAccess)]
    );
    assert_eq!(svc.get_categories(&vec![odd, bare]), Err(ProductCategoryServiceError::PermissionDenied));
}

#[test]
fn read_role_cannot_create_but_adding_write_role_can() {
    let mut svc = ProductCategoryService::new();
    let reader = role(&mut svc, Some("read"));
    let writer = role(&mut svc, Some("write"));
    assert_eq!((reader, writer), (1, 2));
    assert_eq!(
        svc.add_category(&vec![reader], "Desserts", Some("Sweet"), at(1)),
        Err(ProductCategoryServiceError::PermissionDenied)
    );
    assert_eq!(svc.categories.get_all(), Ok(None));
    let id = svc.add_category(&vec![reader, writer], "Desserts", Some("Sweet"), at(1)).unwrap();
    let stored = svc.categories.get_by_id(id).unwrap().unwrap();
    assert_eq!(stored.name, "Desserts");
    assert_eq!(stored.description, Some("Sweet".to_string()));
}

#[test]
fn duplicate_category_is_database_error() {
    let mut svc = ProductCategoryService::new();
    let admin = role(&mut svc, Some("admin"));
    assert_eq!(svc.add_category(&vec![admin], "Mains", None, at(1)), Ok(1));
    assert_eq!(
        svc.add_category(&vec![admin], "Mains", None, at(2)),
        Err(ProductCategoryServiceError::DatabaseError)
    );
}

#[test]
fn listing_is_redacted_unless_admin() {
    let mut svc = ProductCategoryService::new();
    let reader = role(&mut svc, Some("read"));
    let admin = role(&mut svc, Some("admin"));
    let writer = role(&mut svc, Some("write"));
    assert_eq!(svc.get_categories(&vec![reader]), Ok(None));
    svc.categories.add(NewCategory { name: "Sides", description: Some("Small") }, at(3)).unwrap();

    let seen = svc.get_categories(&vec![reader]).unwrap().unwrap();
    assert_eq!(seen.len(), 1);
    assert_eq!(seen[0].category_id, None);
    assert_eq!(seen[0].created_at, None);
    assert_eq!(seen[0].updated_at, None);
    assert_eq!(seen[0].name, "Sides");
    assert_eq!(seen[0].description, Some("Small".to_string()));

    let full = svc.get_categories(&vec![reader, admin]).unwrap().unwrap();
    assert_eq!(full[0].category_id, Some(1));
    assert_eq!(full[0].created_at, Some(at(3)));
    assert_eq!(full[0].updated_at, Some(at(3)));

    assert_eq!(svc.get_categories(&vec![writer]), Err(ProductCategoryServiceError::PermissionDenied));
}

#[test]
fn edit_and_delete_category() {
    let mut svc = ProductCategoryService::new();
    let writer = role(&mut svc, Some("write"));
    let reader = role(&mut svc, Some("read"));
    let id = svc.add_category(&vec![writer], "A", Some("B"), at(1)).unwrap();
    assert_eq!(
        svc.edit_category(&vec![reader], id, Some("C"), None, at(2)),
        Err(ProductCategoryServiceError::PermissionDenied)
    );
    assert_eq!(svc.edit_category(&vec![writer], id, Some("C"), None, at(2)), Ok(()));
    let c = svc.categories.get_by_id(id).unwrap().unwrap();
    assert_eq!(c.name, "C");
    assert_eq!(c.description, Some("B".to_string()));
    assert_eq!(
        svc.delete_category(&vec![reader], id),
        Err(ProductCategoryServiceError::PermissionDenied)
    );
    assert_eq!(svc.delete_category(&vec![writer], id), Ok(()));
    assert_eq!(svc.delete_category(&vec![writer], id), Ok(()));
    assert_eq!(svc.categories.get_by_id(id), Ok(None));
}

#[test]
fn assigning_missing_product_creates_no_link() {
    let mut svc = ProductCategoryService::new();
    let writer = role(&mut svc, Some("write"));
    svc.add_category(&vec![writer], "Drinks", None, at(1)).unwrap();
    assert_eq!(
        svc.add_product_to_category(&vec![writer], "Drinks", "Lemonade", at(2)),
        Err(ProductCategoryServiceError::ProductNotFound)
    );
    assert_eq!(svc.links.get_all(), Ok(None));
}

#[test]
fn assignment_checks_product_before_category() {
    let mut svc = ProductCategoryService::new();
    let writer = role(&mut svc, Some("write"));
    assert_eq!(
        svc.add_product_to_category(&vec![writer], "Nowhere", "Nothing", at(2)),
        Err(ProductCategoryServiceError::ProductNotFound)
    );
    product(&mut svc, "Lemonade");
    assert_eq!(
        svc.add_product_to_category(&vec![writer], "Nowhere", "Lemonade", at(2)),
        Err(ProductCategoryServiceError::CategoryNotFound)
    );
    assert_eq!(
        svc.remove_product_from_category(&vec![writer], "Nowhere", "Lemonade"),
        Err(ProductCategoryServiceError::CategoryNotFound)
    );
    assert_eq!(svc.links.get_all(), Ok(None));
}

#[test]
fn assign_and_remove_product() {
    let mut svc = ProductCategoryService::new();
    let writer = role(&mut svc, Some("write"));
    let reader = role(&mut svc, Some("read"));
    let pid = product(&mut svc, "Lemonade");
    let cid = svc.add_category(&vec![writer], "Drinks", None, at(1)).unwrap();
    assert_eq!(
        svc.add_product_to_category(&vec![reader], "Drinks", "Lemonade", at(2)),
        Err(ProductCategoryServiceError::PermissionDenied)
    );
    assert_eq!(svc.add_product_to_category(&vec![writer], "Drinks", "Lemonade", at(2)), Ok(()));
    let link = svc.links.get_by_id((pid, cid)).unwrap().unwrap();
    assert_eq!(link.created_at, Some(at(2)));
    assert_eq!(
        svc.add_product_to_category(&vec![writer], "Drinks", "Lemonade", at(3)),
        Err(ProductCategoryServiceError::DatabaseError)
    );
    let listed = svc.links.get_products_by_category_id(&svc.products, cid).unwrap().unwrap();
    assert_eq!(listed[0].name, "Lemonade");
    assert_eq!(
        svc.remove_product_from_category(&vec![reader], "Drinks", "Lemonade"),
        Err(ProductCategoryServiceError::PermissionDenied)
    );
    assert_eq!(svc.remove_product_from_category(&vec![writer], "Drinks", "Lemonade"), Ok(()));
    assert_eq!(svc.links.get_all(), Ok(None));
    assert_eq!(svc.remove_product_from_category(&vec![writer], "Drinks", "Lemonade"), Ok(()));
}

#[test]
fn deleting_category_keeps_its_links() {
    let mut svc = ProductCategoryService::new();
    let writer = role(&mut svc, Some("write"));
    let pid = product(&mut svc, "Bread");
    let cid = svc.add_category(&vec![writer], "Bakery", None, at(1)).unwrap();
    svc.add_product_to_category(&vec![writer], "Bakery", "Bread", at(2)).unwrap();
    svc.delete_category(&vec![writer], cid).unwrap();
    assert!(svc.links.get_by_id((pid, cid)).unwrap().is_some());
}
