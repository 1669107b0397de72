use arrow_server::models::{NewProduct, Timestamp, UpdateProduct};
use arrow_server::product_repo::ProductRepo;

fn now() -> Timestamp {
    Timestamp { secs: 1_700_000_000 }
}

#[test]
fn test_create_product() {
    let mut repo = ProductRepo::new();

    let new_product = NewProduct {
        name: "Burger",
        product_image_uri: Some("/images/burger.jpg"),
        description: Some("Delicious beef burger"),
        price_cents: 999,
    };

    repo.add(new_product, now()).expect("Failed to add product");

    let product = repo
        .get_by_name("Burger")
        .expect("Failed to get product")
        .expect("Product not found");

    assert_eq!(product.name, "Burger");
    assert_eq!(product.product_image_uri, Some("/images/burger.jpg".to_string()));
    assert_eq!(product.description, Some("Delicious beef burger".to_string()));
    assert_eq!(product.price_cents, 999);
}

#[test]
fn test_get_all_products_empty() {
    let repo = ProductRepo::new();

    let products = repo.get_all().expect("Failed to get all products");

    assert_eq!(products, None, "Expected no products in the database");
}

#[test]
fn test_get_product_by_id() {
    let mut repo = ProductRepo::new();

    let new_product = NewProduct {
        name: "Pizza",
        product_image_uri: None,
        description: Some("Cheesy pizza"),
        price_cents: 1250,
    };

    repo.add(new_product, now()).expect("Failed to add product");

    let product = repo
        .get_by_name("Pizza")
        .expect("Failed to get product")
        .expect("Product not found");

    let fetched_product = repo
        .get_by_id(product.product_id)
        .expect("Failed to get by id")
        .expect("Product not found by id");

    assert_eq!(fetched_product.name, "Pizza");
    assert_eq!(fetched_product.product_id, product.product_id);
}

#[test]
fn test_get_product_by_id_not_found() {
    let repo = ProductRepo::new();

    let result = repo.get_by_id(99999).expect("Query failed");

    assert!(result.is_none(), "Expected None for non-existent product");
}

#[test]
fn test_get_product_by_name() {
    let mut repo = ProductRepo::new();

    let new_product = NewProduct {
        name: "Salad",
        product_image_uri: Some("/images/salad.png"),
        description: Some("Fresh garden salad"),
        price_cents: 725,
    };

    repo.add(new_product, now()).expect("Failed to add product");

    let fetched_product = repo
        .get_by_name("Salad")
        .expect("Failed to get by name")
        .expect("Product not found by name");

    assert_eq!(fetched_product.name, "Salad");
    assert_eq!(fetched_product.price_cents, 725);
}

#[test]
fn test_get_product_by_name_not_found() {
    let repo = ProductRepo::new();

    let result = repo.get_by_name("NonExistentProduct").expect("Query failed");

    assert!(result.is_none(), "Expected None for non-existent product name");
}

#[test]
fn test_update_product() {
    let mut repo = ProductRepo::new();

    let new_product = NewProduct {
        name: "OldProduct",
        product_image_uri: Some("/old.jpg"),
        description: Some("Old description"),
        price_cents: 500,
    };

    repo.add(new_product, now()).expect("Failed to add product");

    let product = repo
        .get_by_name("OldProduct")
        .expect("Failed to get product")
        .expect("Product not found");

    let update_form = UpdateProduct {
        name: Some("NewProduct"),
        product_image_uri: Some("/new.jpg"),
        description: Some("New description"),
        price_cents: Some(1000),
    };

    repo.update(product.product_id, update_form, now()).expect("Failed to update product");

    let updated_product = repo
        .get_by_id(product.product_id)
        .expect("Failed to get product")
        .expect("Product not found");

    assert_eq!(updated_product.name, "NewProduct");
    assert_eq!(updated_product.product_image_uri, Some("/new.jpg".to_string()));
    assert_eq!(updated_product.description, Some("New description".to_string()));
    assert_eq!(updated_product.price_cents, 1000);
}

#[test]
fn test_update_product_partial() {
    let mut repo = ProductRepo::new();

    let new_product = NewProduct {
        name: "PartialProduct",
        product_image_uri: Some("/keep.jpg"),
        description: Some("Keep this description"),
        price_cents: 1500,
    };

    repo.add(new_product, now()).expect("Failed to add product");

    let product = repo
        .get_by_name("PartialProduct")
        .expect("Failed to get product")
        .expect("Product not found");

    let update_form = UpdateProduct {
        name: Some("UpdatedPartialProduct"),
        product_image_uri: None,
        description: None,
        price_cents: None,
    };

    repo.update(product.product_id, update_form, now()).expect("Failed to update product");

    let updated_product = repo
        .get_by_id(product.product_id)
        .expect("Failed to get product")
        .expect("Product not found");

    assert_eq!(updated_product.name, "UpdatedPartialProduct");
    assert_eq!(
        updated_product.product_image_uri,
        Some("/keep.jpg".to_string()),
        "Image URI should remain unchanged"
    );
    assert_eq!(
        updated_product.description,
        Some("Keep this description".to_string()),
        "Description should remain unchanged"
    );
    assert_eq!(updated_product.price_cents, 1500, "Price should remain unchanged");
}

#[test]
fn test_delete_product() {
    let mut repo = ProductRepo::new();

    let new_product = NewProduct {
        name: "DeleteProduct",
        product_image_uri: None,
        description: None,
        price_cents: 100,
    };

    repo.add(new_product, now()).expect("Failed to add product");

    let product = repo
        .get_by_name("DeleteProduct")
        .expect("Failed to get product")
        .expect("Product not found");

    repo.delete(product.product_id).expect("Failed to delete product");

    let deleted_product = repo.get_by_id(product.product_id).expect("Query failed");

    assert!(deleted_product.is_none(), "Product should be deleted");
}

#[test]
fn test_get_all_with_products() {
    let mut repo = ProductRepo::new();

    repo.add(
        NewProduct { name: "Product1", product_image_uri: None, description: None, price_cents: 500 },
        now(),
    )
    .expect("Failed to add product1");

    repo.add(
        NewProduct {
            name: "Product2",
            product_image_uri: Some("/img2.jpg"),
            description: Some("Second product"),
            price_cents: 850,
        },
        now(),
    )
    .expect("Failed to add product2");

    let products = repo
        .get_all()
        .expect("Failed to get all products")
        .expect("Expected products");

    assert_eq!(products.len(), 2);

    let product_names: Vec<&str> = products.iter().map(|p| p.name.as_str()).collect();
    assert!(product_names.contains(&"Product1"));
    assert!(product_names.contains(&"Product2"));
}

#[test]
fn test_product_with_decimal_precision() {
    let mut repo = ProductRepo::new();

    let new_product = NewProduct {
        name: "PrecisionProduct",
        product_image_uri: None,
        description: None,
        price_cents: 12345,
    };

    repo.add(new_product, now()).expect("Failed to add product");

    let product = repo
        .get_by_name("PrecisionProduct")
        .expect("Failed to get product")
        .expect("Product not found");

    assert_eq!(product.price_cents, 12345);
}

#[test]
fn product_names_are_unique() {
    let mut repo = ProductRepo::new();
    let item = || NewProduct { name: "Twin", product_image_uri: None, description: None, price_cents: 1 };
    assert_eq!(repo.insert(item(), now()), Ok(1));
    assert!(repo.insert(item(), now()).is_err());
    assert_eq!(repo.get_all().unwrap().unwrap().len(), 1);
}
