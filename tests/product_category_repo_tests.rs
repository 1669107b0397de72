use arrow_server::category_repo::CategoryRepo;
use arrow_server::models::{
    NewCategory, NewProduct, NewProductCategory, Timestamp, UpdateProductCategory,
};
use arrow_server::product_category_repo::ProductCategoryRepo;
use arrow_server::product_repo::ProductRepo;

fn now() -> Timestamp {
    Timestamp { secs: 1_700_000_000 }
}

#[test]
fn test_product_category_repo_crud() {
    let mut product_repo = ProductRepo::new();
    let mut category_repo = CategoryRepo::new();
    let mut product_category_repo = ProductCategoryRepo::new();

    // 1. Setup: Create Product and Category
    let product_name = "ProductCategory Test Product";
    let new_product = NewProduct {
        name: product_name,
        description: Some("Test Description"),
        price_cents: 1050,
        product_image_uri: None,
    };
    product_repo.add(new_product, now()).expect("Failed to add product");
    let product = product_repo
        .get_by_name(product_name)
        .expect("Failed to get product")
        .expect("Product not found");

    let category_name = "ProductCategory Test Category";
    let new_category = NewCategory { name: category_name, description: Some("Test Description") };
    category_repo.add(new_category, now()).expect("Failed to add category");
    let category = category_repo
        .get_by_name(category_name)
        .expect("Failed to get category")
        .expect("Category not found");

    // 2. Create ProductCategory
    let new_product_category = NewProductCategory {
        product_id: &product.product_id,
        category_id: &category.category_id,
    };
    let add_result = product_category_repo.add(new_product_category, now());
    assert!(add_result.is_ok(), "Failed to add product category");

    // 3. Read (Get by ID)
    let product_category = product_category_repo
        .get_by_id((product.product_id, category.category_id))
        .expect("Failed to get product category by ID")
        .expect("Product category not found");
    assert_eq!(product_category.product_id, product.product_id);
    assert_eq!(product_category.category_id, category.category_id);

    // 4. Read (Get All)
    let all_links = product_category_repo.get_all().expect("Failed to get all");
    assert!(all_links.is_some());
    let all_links = all_links.unwrap();
    assert!(all_links
        .iter()
        .any(|pc| pc.product_id == product.product_id && pc.category_id == category.category_id));

    // 5. Delete
    let delete_result = product_category_repo.delete((product.product_id, category.category_id));
    assert!(delete_result.is_ok(), "Failed to delete product category");

    // 6. Verify Delete
    let deleted_link = product_category_repo
        .get_by_id((product.product_id, category.category_id))
        .expect("Failed to get after delete");
    assert!(deleted_link.is_none(), "Product category should be deleted");

    // Cleanup
    product_repo.delete(product.product_id).expect("Failed to delete product");
    category_repo.delete(category.category_id).expect("Failed to delete category");
}

#[test]
fn duplicate_link_is_rejected() {
    let mut links = ProductCategoryRepo::new();
    assert!(links.add(NewProductCategory { product_id: &1, category_id: &2 }, now()).is_ok());
    assert!(links.add(NewProductCategory { product_id: &1, category_id: &2 }, now()).is_err());
    assert!(links.add(NewProductCategory { product_id: &2, category_id: &1 }, now()).is_ok());
    assert_eq!(links.get_all().unwrap().unwrap().len(), 2);
}

#[test]
fn link_update_moves_key_unless_taken() {
    let mut links = ProductCategoryRepo::new();
    links.add(NewProductCategory { product_id: &1, category_id: &1 }, now()).unwrap();
    links.add(NewProductCategory { product_id: &1, category_id: &2 }, now()).unwrap();
    let later = Timestamp { secs: 1_700_000_100 };
    let taken = UpdateProductCategory { product_id: None, category_id: Some(&2) };
    assert!(links.update((1, 1), taken, later).is_err());
    let free = UpdateProductCategory { product_id: Some(&3), category_id: None };
    assert_eq!(links.update((1, 1), free, later), Ok(()));
    let moved = links.get_by_id((3, 1)).unwrap().unwrap();
    assert_eq!(moved.created_at, Some(now()));
    assert_eq!(moved.updated_at, Some(later));
    assert_eq!(links.get_by_id((1, 1)), Ok(None));
}

#[test]
fn products_by_category_follow_links() {
    let mut products = ProductRepo::new();
    let mut links = ProductCategoryRepo::new();
    let tea = products
        .insert(NewProduct { name: "Tea", product_image_uri: None, description: None, price_cents: 300 }, now())
        .unwrap();
    let cake = products
        .insert(NewProduct { name: "Cake", product_image_uri: None, description: None, price_cents: 450 }, now())
        .unwrap();
    assert_eq!(links.get_products_by_category_id(&products, 7), Ok(None));
    links.add(NewProductCategory { product_id: &cake, category_id: &7 }, now()).unwrap();
    links.add(NewProductCategory { product_id: &tea, category_id: &8 }, now()).unwrap();
    links.add(NewProductCategory { product_id: &tea, category_id: &7 }, now()).unwrap();
    links.add(NewProductCategory { product_id: &99, category_id: &7 }, now()).unwrap();
    let found = links.get_products_by_category_id(&products, 7).unwrap().unwrap();
    let names: Vec<&str> = found.iter().map(|p| p.name.as_str()).collect();
    assert_eq!(names, vec!["Cake", "Tea"]);
}
