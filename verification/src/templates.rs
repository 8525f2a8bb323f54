//! The view models handed to the page renderer: plain records pairing each
//! page with the data it shows.  Rendering itself happens at the
//! application edge.

use vstd::prelude::*;

use crate::models::{Product, ProductBundle, User};

verus! {

/// The user list page.
pub struct UsersTemplate {
    pub users: Vec<User>,
}

/// The registration form page.
pub struct RegisterTemplate {}

/// The login form page.
pub struct LoginTemplate {}

/// The product list page.
pub struct ProductListTemplate {
    pub products: Vec<Product>,
}

/// One product's detail page.
pub struct ProductDetailTemplate {
    pub product: Product,
}

/// The product form page: empty for a new product, filled for an edit.
pub struct ProductFormTemplate {
    pub product: Option<Product>,
    pub action: String,
}

/// The bundle list page.
pub struct BundleListTemplate {
    pub bundles: Vec<ProductBundle>,
}

/// One bundle's detail page, with its joined `(product, quantity)` pairs.
pub struct BundleDetailTemplate {
    pub bundle: ProductBundle,
    pub products: Vec<(Product, i32)>,
}

/// The bundle form page: the bundle under edit (if any), every product to
/// choose from, and the currently selected `(product, quantity)` pairs.
pub struct BundleFormTemplate {
    pub bundle: Option<ProductBundle>,
    pub all_products: Vec<Product>,
    pub selected_products: Vec<(Product, i32)>,
    pub action: String,
}

} // verus!
