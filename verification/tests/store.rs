use shop_backend::models::{pair_line_items, BundleProduct, Decimal, Product, ProductBundle};
use shop_backend::product_repository::ProductRepositoryImpl;
use shop_backend::product_service::ProductServiceImpl;
use shop_backend::AppError;

fn product(name: &str, cents: i64) -> Product {
    Product {
        id: 0,
        name: name.to_string(),
        description: None,
        price: Decimal::new(cents, 2),
    }
}

fn bundle_fields(name: &str, discount: i64) -> ProductBundle {
    ProductBundle {
        id: 0,
        name: name.to_string(),
        description: None,
        discount_percentage: Decimal::new(discount, 0),
    }
}

fn item(product_id: i32, quantity: i32) -> BundleProduct {
    BundleProduct {
        bundle_id: 0,
        product_id,
        quantity,
    }
}

#[test]
fn create_and_get_product() {
    let mut repo = ProductRepositoryImpl::new();
    let p1 = repo.create_product(product("apple", 150)).unwrap();
    let p2 = repo.create_product(product("pear", 200)).unwrap();
    assert_eq!(p1.id, 1);
    assert_eq!(p2.id, 2);

    let got = repo.get_product(1).unwrap();
    assert_eq!(got.name, "apple");
    assert_eq!(got.price, Decimal::new(150, 2));

    let all = repo.get_all_products();
    assert_eq!(all.len(), 2);
    assert_eq!(all[0].id, 1);
    assert_eq!(all[1].id, 2);
}

#[test]
fn get_product_not_found() {
    let repo = ProductRepositoryImpl::new();
    assert_eq!(repo.get_product(7), Err(AppError::NotFound));
}

#[test]
fn update_product_replaces_fields() {
    let mut repo = ProductRepositoryImpl::new();
    repo.create_product(product("apple", 150)).unwrap();
    let updated = repo
        .update_product(Product {
            id: 1,
            name: "green apple".to_string(),
            description: Some("tart".to_string()),
            price: Decimal::new(175, 2),
        })
        .unwrap();
    assert_eq!(updated.name, "green apple");

    let got = repo.get_product(1).unwrap();
    assert_eq!(got.name, "green apple");
    assert_eq!(got.description, Some("tart".to_string()));
    assert_eq!(got.price, Decimal::new(175, 2));
}

#[test]
fn update_product_not_found() {
    let mut repo = ProductRepositoryImpl::new();
    assert_eq!(repo.update_product(product("ghost", 1)), Err(AppError::NotFound));
}

#[test]
fn delete_product_twice_is_idempotent() {
    let mut repo = ProductRepositoryImpl::new();
    repo.create_product(product("apple", 150)).unwrap();
    assert_eq!(repo.delete_product(1), Ok(()));
    assert_eq!(repo.delete_product(1), Ok(()));
    assert_eq!(repo.get_all_products().len(), 0);
}

#[test]
fn delete_product_referenced_by_bundle_fails() {
    let mut repo = ProductRepositoryImpl::new();
    repo.create_product(product("apple", 150)).unwrap();
    repo.create_bundle(bundle_fields("solo", 0), vec![item(1, 1)]).unwrap();

    let r = repo.delete_product(1);
    assert!(matches!(r, Err(AppError::StorageFailure(_))));
    assert_eq!(repo.get_product(1).unwrap().name, "apple");
}

#[test]
fn create_bundle_assigns_id_and_rows() {
    let mut repo = ProductRepositoryImpl::new();
    repo.create_product(product("apple", 150)).unwrap();
    repo.create_product(product("pear", 200)).unwrap();

    let b = repo
        .create_bundle(bundle_fields("duo", 5), vec![item(1, 2), item(2, 1)])
        .unwrap();
    assert_eq!(b.id, 1);
    assert_eq!(b.name, "duo");
    assert_eq!(b.discount_percentage, Decimal::new(5, 0));

    let got = repo.get_bundle(1).unwrap();
    assert_eq!(got.name, "duo");

    let pairs = repo.get_bundle_products(1);
    assert_eq!(pairs.len(), 2);
    assert_eq!(pairs[0].0.id, 1);
    assert_eq!(pairs[0].1, 2);
    assert_eq!(pairs[1].0.id, 2);
    assert_eq!(pairs[1].1, 1);
}

#[test]
fn create_bundle_with_duplicate_product_is_atomic() {
    let mut repo = ProductRepositoryImpl::new();
    repo.create_product(product("apple", 150)).unwrap();

    let r = repo.create_bundle(bundle_fields("dup", 0), vec![item(1, 2), item(1, 3)]);
    assert!(matches!(r, Err(AppError::StorageFailure(_))));
    // nothing of the attempt persists: no bundle row, no association row
    assert_eq!(repo.get_all_bundles().len(), 0);
    assert_eq!(repo.get_bundle_products(1).len(), 0);
    // and the id was not burned: the next create still gets id 1
    let b = repo.create_bundle(bundle_fields("ok", 0), vec![item(1, 2)]).unwrap();
    assert_eq!(b.id, 1);
}

#[test]
fn create_bundle_with_missing_product_is_atomic() {
    let mut repo = ProductRepositoryImpl::new();
    repo.create_product(product("apple", 150)).unwrap();

    let r = repo.create_bundle(bundle_fields("bad", 0), vec![item(1, 1), item(99, 1)]);
    assert!(matches!(r, Err(AppError::StorageFailure(_))));
    assert_eq!(repo.get_all_bundles().len(), 0);
    assert_eq!(repo.get_bundle_products(1).len(), 0);
}

#[test]
fn create_bundle_with_no_line_items() {
    let mut repo = ProductRepositoryImpl::new();
    let b = repo.create_bundle(bundle_fields("empty", 0), vec![]).unwrap();
    assert_eq!(b.id, 1);
    assert_eq!(repo.get_bundle_products(1).len(), 0);
    // an existing bundle with no items reads as empty, same as an absent one:
    // callers tell the two apart with get_bundle
    assert!(repo.get_bundle(1).is_ok());
    assert_eq!(repo.get_bundle(2), Err(AppError::NotFound));
}

#[test]
fn update_bundle_replaces_line_items_wholesale() {
    let mut repo = ProductRepositoryImpl::new();
    repo.create_product(product("apple", 150)).unwrap();
    repo.create_product(product("pear", 200)).unwrap();
    repo.create_product(product("plum", 300)).unwrap();
    repo.create_bundle(bundle_fields("duo", 5), vec![item(1, 2), item(2, 1)]).unwrap();

    let updated = repo
        .update_bundle(
            ProductBundle {
                id: 1,
                name: "trio".to_string(),
                description: None,
                discount_percentage: Decimal::new(7, 0),
            },
            vec![item(3, 5)],
        )
        .unwrap();
    assert_eq!(updated.name, "trio");

    // the stored association set is exactly the new list: no residue of the
    // old one
    let pairs = repo.get_bundle_products(1);
    assert_eq!(pairs.len(), 1);
    assert_eq!(pairs[0].0.id, 3);
    assert_eq!(pairs[0].1, 5);

    let got = repo.get_bundle(1).unwrap();
    assert_eq!(got.name, "trio");
    assert_eq!(got.discount_percentage, Decimal::new(7, 0));
}

#[test]
fn update_bundle_not_found() {
    let mut repo = ProductRepositoryImpl::new();
    let r = repo.update_bundle(bundle_fields("ghost", 0), vec![]);
    assert_eq!(r, Err(AppError::NotFound));
}

#[test]
fn update_bundle_with_bad_items_aborts_whole_update() {
    let mut repo = ProductRepositoryImpl::new();
    repo.create_product(product("apple", 150)).unwrap();
    repo.create_bundle(bundle_fields("duo", 5), vec![item(1, 2)]).unwrap();

    let r = repo.update_bundle(
        ProductBundle {
            id: 1,
            name: "renamed".to_string(),
            description: None,
            discount_percentage: Decimal::new(9, 0),
        },
        vec![item(99, 1)],
    );
    assert!(matches!(r, Err(AppError::StorageFailure(_))));

    // neither the field update nor the association replacement applied
    let got = repo.get_bundle(1).unwrap();
    assert_eq!(got.name, "duo");
    let pairs = repo.get_bundle_products(1);
    assert_eq!(pairs.len(), 1);
    assert_eq!(pairs[0].0.id, 1);
    assert_eq!(pairs[0].1, 2);
}

#[test]
fn delete_bundle_cascades_to_associations_only() {
    let mut repo = ProductRepositoryImpl::new();
    repo.create_product(product("apple", 150)).unwrap();
    repo.create_product(product("pear", 200)).unwrap();
    repo.create_bundle(bundle_fields("duo", 5), vec![item(1, 2), item(2, 1)]).unwrap();

    assert_eq!(repo.delete_bundle(1), Ok(()));
    assert_eq!(repo.get_bundle(1), Err(AppError::NotFound));
    assert_eq!(repo.get_bundle_products(1).len(), 0);
    // the referenced product rows are untouched
    assert_eq!(repo.get_all_products().len(), 2);
    assert_eq!(repo.get_product(1).unwrap().name, "apple");
    assert_eq!(repo.get_product(2).unwrap().name, "pear");
}

#[test]
fn delete_bundle_absent_is_ok() {
    let mut repo = ProductRepositoryImpl::new();
    assert_eq!(repo.delete_bundle(12), Ok(()));
}

#[test]
fn read_composition_uses_current_product_rows() {
    let mut repo = ProductRepositoryImpl::new();
    repo.create_product(product("apple", 150)).unwrap();
    repo.create_bundle(bundle_fields("solo", 0), vec![item(1, 4)]).unwrap();

    repo.update_product(Product {
        id: 1,
        name: "golden apple".to_string(),
        description: None,
        price: Decimal::new(999, 2),
    })
    .unwrap();

    let pairs = repo.get_bundle_products(1);
    assert_eq!(pairs.len(), 1);
    assert_eq!(pairs[0].0.name, "golden apple");
    assert_eq!(pairs[0].0.price, Decimal::new(999, 2));
    assert_eq!(pairs[0].1, 4);
}

#[test]
fn starter_pack_scenario() {
    let mut repo = ProductRepositoryImpl::new();
    repo.create_product(product("widget", 100)).unwrap();
    repo.create_product(product("gadget", 250)).unwrap();
    repo.create_product(product("gizmo", 400)).unwrap();

    let b = repo
        .create_bundle(
            ProductBundle {
                id: 0,
                name: "Starter Pack".to_string(),
                description: None,
                discount_percentage: Decimal::new(10, 0),
            },
            vec![item(1, 2), item(2, 1)],
        )
        .unwrap();
    let n = b.id;
    assert_eq!(n, 1);

    let pairs = repo.get_bundle_products(n);
    assert_eq!(pairs.len(), 2);
    assert_eq!((pairs[0].0.id, pairs[0].1), (1, 2));
    assert_eq!((pairs[1].0.id, pairs[1].1), (2, 1));

    repo.update_bundle(
        ProductBundle {
            id: n,
            name: "Starter Pack".to_string(),
            description: None,
            discount_percentage: Decimal::new(10, 0),
        },
        vec![item(3, 5)],
    )
    .unwrap();

    let pairs = repo.get_bundle_products(n);
    assert_eq!(pairs.len(), 1);
    assert_eq!((pairs[0].0.id, pairs[0].1), (3, 5));
}

#[test]
fn service_delegates_to_repository() {
    let mut service = ProductServiceImpl::new(ProductRepositoryImpl::new());
    let p = service.create_product(product("apple", 150)).unwrap();
    assert_eq!(p.id, 1);
    service.create_bundle(bundle_fields("solo", 0), vec![item(1, 3)]).unwrap();
    assert_eq!(service.get_all_bundles().len(), 1);
    let pairs = service.get_bundle_products(1);
    assert_eq!(pairs.len(), 1);
    assert_eq!(pairs[0].1, 3);
    assert_eq!(service.get_bundle(9), Err(AppError::NotFound));
    service.delete_bundle(1).unwrap();
    service.delete_product(1).unwrap();
    assert_eq!(service.get_all_products().len(), 0);
}

#[test]
fn update_bundle_leaves_other_bundles_alone() {
    let mut repo = ProductRepositoryImpl::new();
    repo.create_product(product("apple", 150)).unwrap();
    repo.create_product(product("pear", 200)).unwrap();
    repo.create_bundle(bundle_fields("first", 0), vec![item(1, 1), item(2, 2)]).unwrap();
    repo.create_bundle(bundle_fields("second", 0), vec![item(1, 7)]).unwrap();

    repo.update_bundle(
        ProductBundle {
            id: 2,
            name: "second, revised".to_string(),
            description: None,
            discount_percentage: Decimal::new(1, 0),
        },
        vec![item(2, 9)],
    )
    .unwrap();

    // the first bundle's association set is untouched
    let pairs = repo.get_bundle_products(1);
    assert_eq!(pairs.len(), 2);
    assert_eq!((pairs[0].0.id, pairs[0].1), (1, 1));
    assert_eq!((pairs[1].0.id, pairs[1].1), (2, 2));
    // the second's is exactly the new list
    let pairs = repo.get_bundle_products(2);
    assert_eq!(pairs.len(), 1);
    assert_eq!((pairs[0].0.id, pairs[0].1), (2, 9));
}

#[test]
fn delete_bundle_leaves_other_bundles_alone() {
    let mut repo = ProductRepositoryImpl::new();
    repo.create_product(product("apple", 150)).unwrap();
    repo.create_bundle(bundle_fields("first", 0), vec![item(1, 1)]).unwrap();
    repo.create_bundle(bundle_fields("second", 0), vec![item(1, 2)]).unwrap();

    repo.delete_bundle(1).unwrap();

    assert_eq!(repo.get_bundle(1), Err(AppError::NotFound));
    let second = repo.get_bundle(2).unwrap();
    assert_eq!(second.name, "second");
    let pairs = repo.get_bundle_products(2);
    assert_eq!(pairs.len(), 1);
    assert_eq!((pairs[0].0.id, pairs[0].1), (1, 2));
}

#[test]
fn pair_line_items_zips_form_fields() {
    let items = pair_line_items(&vec![1, 2, 3], &vec![5, 6], 9);
    assert_eq!(items.len(), 2);
    assert_eq!(
        items[0],
        BundleProduct {
            bundle_id: 9,
            product_id: 1,
            quantity: 5
        }
    );
    assert_eq!(
        items[1],
        BundleProduct {
            bundle_id: 9,
            product_id: 2,
            quantity: 6
        }
    );
}
