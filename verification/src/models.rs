//! Plain data records: products, bundles, bundle line items, users, and the
//! request/response shapes of the authentication flows.

use vstd::prelude::*;

verus! {

/// An exact fixed-point decimal: the value `mantissa * 10^(-scale)`.
///
/// Monetary amounts and discount percentages are stored in this form so that
/// they never suffer binary floating-point rounding drift.
#[derive(Clone, Copy, Debug, PartialEq, Eq, Structural)]
pub struct Decimal {
    pub mantissa: i64,
    pub scale: u32,
}

impl Decimal {
    pub fn new(mantissa: i64, scale: u32) -> (r: Decimal)
        ensures
            r == (Decimal { mantissa, scale }),
    {
        Decimal { mantissa, scale }
    }
}

/// A product row: `id` is the generated primary key.
#[derive(Debug, PartialEq, Eq)]
pub struct Product {
    pub id: i32,
    pub name: String,
    pub description: Option<String>,
    pub price: Decimal,
}

impl Clone for Product {
    fn clone(&self) -> (r: Self)
        ensures
            r == *self,
    {
        Product {
            id: self.id,
            name: self.name.clone(),
            description: self.description.clone(),
            price: self.price,
        }
    }
}

/// A bundle row: a named, discounted grouping of products.
#[derive(Debug, PartialEq, Eq)]
pub struct ProductBundle {
    pub id: i32,
    pub name: String,
    pub description: Option<String>,
    pub discount_percentage: Decimal,
}

impl Clone for ProductBundle {
    fn clone(&self) -> (r: Self)
        ensures
            r == *self,
    {
        ProductBundle {
            id: self.id,
            name: self.name.clone(),
            description: self.description.clone(),
            discount_percentage: self.discount_percentage,
        }
    }
}

/// One line item: membership of a product in a bundle, with a quantity.
/// At most one row may exist per `(bundle_id, product_id)` pair.
#[derive(Clone, Copy, Debug, PartialEq, Eq, Structural)]
pub struct BundleProduct {
    pub bundle_id: i32,
    pub product_id: i32,
    pub quantity: i32,
}

/// A registered user.
#[derive(Debug, PartialEq, Eq)]
pub struct User {
    pub id: i32,
    pub username: String,
    pub email: String,
    pub password_hash: String,
}

impl Clone for User {
    fn clone(&self) -> (r: Self)
        ensures
            r == *self,
    {
        User {
            id: self.id,
            username: self.username.clone(),
            email: self.email.clone(),
            password_hash: self.password_hash.clone(),
        }
    }
}

/// The fields of a registration request.
#[derive(Debug, PartialEq, Eq)]
pub struct RegisterRequest {
    pub username: String,
    pub email: String,
    pub password: String,
}

/// The fields of a password login request.
#[derive(Debug, PartialEq, Eq)]
pub struct LoginRequest {
    pub username: String,
    pub password: String,
}

/// A successful authentication: the signed token handed to the caller.
#[derive(Debug, PartialEq, Eq)]
pub struct AuthResponse {
    pub token: String,
}

/// The query parameters of the authorization-code callback.
#[derive(Debug, PartialEq, Eq)]
pub struct OAuthCallback {
    pub code: String,
    pub state: String,
}

/// A signature login request: the signed message and its signature.
#[derive(Debug, PartialEq, Eq)]
pub struct SiweRequest {
    pub message: String,
    pub signature: String,
}

/// The fields of a submitted bundle form: the bundle's own fields and two
/// parallel lists pairing the i-th chosen product with the i-th quantity.
#[derive(Debug, PartialEq, Eq)]
pub struct BundleForm {
    pub bundle: ProductBundle,
    pub product_ids: Vec<i32>,
    pub quantities: Vec<i32>,
}

/// Pair the parallel form fields of a bundle form into line items for
/// `bundle_id`: the i-th product id with the i-th quantity.  A surplus of
/// either list is dropped, as zipping two lists does.
#[verifier::loop_isolation(false)]
pub fn pair_line_items(product_ids: &Vec<i32>, quantities: &Vec<i32>, bundle_id: i32) -> (r: Vec<
    BundleProduct,
>)
    ensures
        r@.len() == if product_ids@.len() <= quantities@.len() {
            product_ids@.len()
        } else {
            quantities@.len()
        },
        forall|i: int| 0 <= i < r@.len()
            ==> r@[i] == (BundleProduct {
                bundle_id: bundle_id,
                product_id: product_ids@[i],
                quantity: quantities@[i],
            }),
{
    let n = if product_ids.len() <= quantities.len() {
        product_ids.len()
    } else {
        quantities.len()
    };
    let mut out: Vec<BundleProduct> = Vec::new();
    let mut i: usize = 0;
    while i < n
        invariant
            i <= n,
            n <= product_ids@.len() && n <= quantities@.len(),
            out@.len() == i,
            forall|k: int| 0 <= k < i
                ==> out@[k] == (BundleProduct {
                    bundle_id: bundle_id,
                    product_id: product_ids@[k],
                    quantity: quantities@[k],
                }),
        decreases n - i,
    {
        out.push(BundleProduct {
            bundle_id,
            product_id: product_ids[i],
            quantity: quantities[i],
        });
        i = i + 1;
    }
    out
}

} // verus!
