//! The persistence gateway for products and bundles.
//!
//! [`ProductRepositoryImpl`] holds the three relations of the schema —
//! products, bundles and the bundle/product association rows — and exposes
//! the atomic operations over them.  Every mutating bundle operation behaves
//! as one transaction: on any failure the store is left exactly as it was.

use vstd::prelude::*;
use vstd::pervasive::VecAdditionalExecFns;

use crate::error::AppError;
use crate::models::{BundleProduct, Product, ProductBundle};

verus! {

// ---------------------------------------------------------------------------
// Spec layer: the relational invariants and the derived views.
// ---------------------------------------------------------------------------

/// Primary-key uniqueness of the product relation.
pub open spec fn product_ids_unique(s: Seq<Product>) -> bool {
    forall|i: int, j: int| 0 <= i < j < s.len()
        ==> (#[trigger] s[i]).id != (#[trigger] s[j]).id
}

/// Primary-key uniqueness of the bundle relation.
pub open spec fn bundle_ids_unique(s: Seq<ProductBundle>) -> bool {
    forall|i: int, j: int| 0 <= i < j < s.len()
        ==> (#[trigger] s[i]).id != (#[trigger] s[j]).id
}

/// Composite uniqueness: at most one row per `(bundle_id, product_id)` pair.
pub open spec fn assoc_pairs_unique(s: Seq<BundleProduct>) -> bool {
    forall|i: int, j: int| 0 <= i < j < s.len()
        ==> !((#[trigger] s[i]).bundle_id == (#[trigger] s[j]).bundle_id
            && s[i].product_id == s[j].product_id)
}

pub open spec fn product_exists(s: Seq<Product>, id: i32) -> bool {
    exists|i: int| 0 <= i < s.len() && (#[trigger] s[i]).id == id
}

pub open spec fn bundle_exists(s: Seq<ProductBundle>, id: i32) -> bool {
    exists|i: int| 0 <= i < s.len() && (#[trigger] s[i]).id == id
}

/// The unique product row carrying `id` (meaningful when such a row exists
/// and product ids are unique).
pub open spec fn product_row(s: Seq<Product>, id: i32) -> Product {
    choose|p: Product| s.contains(p) && p.id == id
}

/// Does some association row reference product `product_id`?
pub open spec fn product_referenced(s: Seq<BundleProduct>, product_id: i32) -> bool {
    exists|i: int| 0 <= i < s.len() && (#[trigger] s[i]).product_id == product_id
}

/// The association rows of bundle `bundle_id`, in storage order.
pub open spec fn assocs_for(s: Seq<BundleProduct>, bundle_id: i32) -> Seq<BundleProduct> {
    s.filter(|bp: BundleProduct| bp.bundle_id == bundle_id)
}

/// The association rows of every bundle but `bundle_id`, in storage order.
pub open spec fn assocs_without(s: Seq<BundleProduct>, bundle_id: i32) -> Seq<BundleProduct> {
    s.filter(|bp: BundleProduct| bp.bundle_id != bundle_id)
}

/// The input line items with their `bundle_id` column rewritten to
/// `bundle_id` (an insert never trusts the caller's bundle id).
pub open spec fn retagged(items: Seq<BundleProduct>, bundle_id: i32) -> Seq<BundleProduct> {
    items.map(
        |i: int, bp: BundleProduct|
            BundleProduct { bundle_id: bundle_id, product_id: bp.product_id, quantity: bp.quantity },
    )
}

/// No two line items of one request name the same product.
pub open spec fn line_item_products_distinct(items: Seq<BundleProduct>) -> bool {
    forall|i: int, j: int| 0 <= i < j < items.len()
        ==> (#[trigger] items[i]).product_id != (#[trigger] items[j]).product_id
}

/// Every line item names an existing product (the foreign-key targets).
pub open spec fn line_item_products_exist(products: Seq<Product>, items: Seq<BundleProduct>) -> bool {
    forall|i: int| 0 <= i < items.len()
        ==> product_exists(products, (#[trigger] items[i]).product_id)
}

/// The read-side join: one `(product row, quantity)` pair per association row.
pub open spec fn joined(products: Seq<Product>, assocs: Seq<BundleProduct>) -> Seq<(Product, i32)> {
    assocs.map(|i: int, bp: BundleProduct| (product_row(products, bp.product_id), bp.quantity))
}

// ---------------------------------------------------------------------------
// Lemmas about the spec layer.
// ---------------------------------------------------------------------------

/// One step of building a filtered sequence element by element.
proof fn lemma_filter_take_step<A>(s: Seq<A>, i: int, pred: spec_fn(A) -> bool)
    requires
        0 <= i < s.len(),
    ensures
        pred(s[i]) ==> s.take(i + 1).filter(pred) == s.take(i).filter(pred).push(s[i]),
        !pred(s[i]) ==> s.take(i + 1).filter(pred) == s.take(i).filter(pred),
{
    reveal(Seq::filter);
    assert(s.take(i + 1).drop_last() =~= s.take(i));
    assert(s.take(i + 1).last() == s[i]);
}

/// Filtering keeps rows of the original sequence only.
proof fn lemma_filter_is_subset<A>(s: Seq<A>, pred: spec_fn(A) -> bool)
    ensures
        forall|i: int| 0 <= i < s.filter(pred).len()
            ==> s.contains(#[trigger] s.filter(pred)[i]) && pred(s.filter(pred)[i]),
    decreases s.len(),
{
    reveal(Seq::filter);
    if s.len() > 0 {
        lemma_filter_is_subset(s.drop_last(), pred);
        assert forall|i: int| 0 <= i < s.filter(pred).len() implies
            s.contains(#[trigger] s.filter(pred)[i]) && pred(s.filter(pred)[i]) by {
            let rest = s.drop_last().filter(pred);
            if i < rest.len() {
                assert(s.drop_last().contains(rest[i]));
                let k = choose|k: int| 0 <= k < s.drop_last().len() && s.drop_last()[k] == rest[i];
                assert(s[k] == rest[i]);
            } else {
                assert(s.filter(pred)[i] == s.last());
                assert(s[s.len() - 1] == s.last());
            }
        }
    }
}

/// A row that satisfies the predicate appears in the filtered sequence.
proof fn lemma_filter_mem<A>(s: Seq<A>, m: int, pred: spec_fn(A) -> bool)
    requires
        0 <= m < s.len(),
        pred(s[m]),
    ensures
        s.filter(pred).contains(s[m]),
    decreases s.len(),
{
    reveal(Seq::filter);
    if m == s.len() - 1 {
        assert(s.filter(pred).last() == s[m]);
        assert(s.filter(pred).contains(s.filter(pred).last()));
    } else {
        lemma_filter_mem(s.drop_last(), m, pred);
        let rest = s.drop_last().filter(pred);
        let k = choose|k: int| 0 <= k < rest.len() && rest[k] == s.drop_last()[m];
        assert(s.filter(pred)[k] == s[m]);
    }
}

/// A filter that keeps every row is the identity.
proof fn lemma_filter_all_true<A>(s: Seq<A>, pred: spec_fn(A) -> bool)
    requires
        forall|i: int| 0 <= i < s.len() ==> pred(#[trigger] s[i]),
    ensures
        s.filter(pred) == s,
    decreases s.len(),
{
    reveal(Seq::filter);
    if s.len() > 0 {
        lemma_filter_all_true(s.drop_last(), pred);
        assert(s.drop_last().push(s.last()) =~= s);
    }
}

/// A filter that keeps no row yields the empty sequence.
proof fn lemma_filter_all_false<A>(s: Seq<A>, pred: spec_fn(A) -> bool)
    requires
        forall|i: int| 0 <= i < s.len() ==> !pred(#[trigger] s[i]),
    ensures
        s.filter(pred) == Seq::<A>::empty(),
    decreases s.len(),
{
    reveal(Seq::filter);
    if s.len() > 0 {
        lemma_filter_all_false(s.drop_last(), pred);
    }
}

/// Filtering a product relation with unique ids leaves the ids unique.
proof fn lemma_filter_products_unique(s: Seq<Product>, pred: spec_fn(Product) -> bool)
    requires
        product_ids_unique(s),
    ensures
        product_ids_unique(s.filter(pred)),
{
    lemma_filter_is_subset(s, pred);
    let out = s.filter(pred);
    assert forall|i: int, j: int| 0 <= i < j < out.len() implies
        (#[trigger] out[i]).id != (#[trigger] out[j]).id by {
        lemma_filter_index_increasing(s, pred, i, j);
    }
}

/// Filtering a bundle relation with unique ids leaves the ids unique.
proof fn lemma_filter_bundles_unique(s: Seq<ProductBundle>, pred: spec_fn(ProductBundle) -> bool)
    requires
        bundle_ids_unique(s),
    ensures
        bundle_ids_unique(s.filter(pred)),
{
    let out = s.filter(pred);
    assert forall|i: int, j: int| 0 <= i < j < out.len() implies
        (#[trigger] out[i]).id != (#[trigger] out[j]).id by {
        lemma_filter_index_increasing(s, pred, i, j);
    }
}

/// Filtering an association relation with unique pairs leaves them unique.
proof fn lemma_filter_assocs_unique(s: Seq<BundleProduct>, pred: spec_fn(BundleProduct) -> bool)
    requires
        assoc_pairs_unique(s),
    ensures
        assoc_pairs_unique(s.filter(pred)),
{
    let out = s.filter(pred);
    assert forall|i: int, j: int| 0 <= i < j < out.len() implies
        !((#[trigger] out[i]).bundle_id == (#[trigger] out[j]).bundle_id
            && out[i].product_id == out[j].product_id) by {
        lemma_filter_index_increasing(s, pred, i, j);
    }
}

/// Two positions of a filtered sequence come from two distinct positions of
/// the original, in the same order.
proof fn lemma_filter_index_increasing<A>(s: Seq<A>, pred: spec_fn(A) -> bool, i: int, j: int)
    requires
        0 <= i < j < s.filter(pred).len(),
    ensures
        exists|a: int, b: int|
            0 <= a < b < s.len() && s[a] == s.filter(pred)[i] && s[b] == s.filter(pred)[j],
    decreases s.len(),
{
    reveal(Seq::filter);
    let out = s.filter(pred);
    let rest = s.drop_last().filter(pred);
    if pred(s.last()) && j == out.len() - 1 {
        // out[j] is s.last(); out[i] comes from the front part
        lemma_filter_is_subset(s.drop_last(), pred);
        assert(s.drop_last().contains(rest[i]));
        let a = choose|a: int| 0 <= a < s.drop_last().len() && s.drop_last()[a] == rest[i];
        assert(s[a] == out[i]);
        assert(s[s.len() - 1] == out[j]);
        assert(0 <= a < s.len() - 1 < s.len());
    } else {
        // both come from s.drop_last()
        lemma_filter_index_increasing(s.drop_last(), pred, i, j);
        let (a, b) = choose|a: int, b: int|
            0 <= a < b < s.drop_last().len() && s.drop_last()[a] == rest[i]
                && s.drop_last()[b] == rest[j];
        assert(s[a] == out[i] && s[b] == out[j]);
    }
}

/// With unique product ids, a contained row with id `p.id` is *the* row of
/// that id.
proof fn lemma_product_row_is(s: Seq<Product>, p: Product)
    requires
        product_ids_unique(s),
        s.contains(p),
    ensures
        product_row(s, p.id) == p,
{
    assert(s.contains(p) && p.id == p.id);
    let q = product_row(s, p.id);
    assert(s.contains(q) && q.id == p.id);
    let i = choose|i: int| 0 <= i < s.len() && s[i] == p;
    let j = choose|j: int| 0 <= j < s.len() && s[j] == q;
    if i != j {
        assert(s[i].id != s[j].id);
    }
}

// ---------------------------------------------------------------------------
// The store.
// ---------------------------------------------------------------------------

/// The relational store behind the product and bundle operations.
///
/// `next_product_id` and `next_bundle_id` play the role of the generated
/// primary-key sequences: every stored id is strictly below the matching
/// counter, so the counter's value is always fresh.
pub struct ProductRepositoryImpl {
    pub products: Vec<Product>,
    pub bundles: Vec<ProductBundle>,
    pub bundle_products: Vec<BundleProduct>,
    pub next_product_id: i32,
    pub next_bundle_id: i32,
}

impl ProductRepositoryImpl {
    /// Well-formedness: primary keys unique and below their generators, the
    /// composite key of the association relation unique, and both foreign
    /// keys of every association row satisfied.
    pub open spec fn wf(self) -> bool {
        &&& 1 <= self.next_product_id
        &&& 1 <= self.next_bundle_id
        &&& product_ids_unique(self.products@)
        &&& bundle_ids_unique(self.bundles@)
        &&& assoc_pairs_unique(self.bundle_products@)
        &&& forall|i: int| 0 <= i < self.products@.len()
            ==> 1 <= (#[trigger] self.products@[i]).id < self.next_product_id
        &&& forall|i: int| 0 <= i < self.bundles@.len()
            ==> 1 <= (#[trigger] self.bundles@[i]).id < self.next_bundle_id
        &&& forall|i: int| 0 <= i < self.bundle_products@.len()
            ==> bundle_exists(self.bundles@, (#[trigger] self.bundle_products@[i]).bundle_id)
                && product_exists(self.products@, self.bundle_products@[i].product_id)
    }

    /// An empty store.
    pub fn new() -> (r: Self)
        ensures
            r.wf(),
            r.products@ == Seq::<Product>::empty(),
            r.bundles@ == Seq::<ProductBundle>::empty(),
            r.bundle_products@ == Seq::<BundleProduct>::empty(),
            r.next_product_id == 1,
            r.next_bundle_id == 1,
    {
        ProductRepositoryImpl {
            products: Vec::new(),
            bundles: Vec::new(),
            bundle_products: Vec::new(),
            next_product_id: 1,
            next_bundle_id: 1,
        }
    }

    /// Every product row, in storage order.
    #[verifier::loop_isolation(false)]
    pub fn get_all_products(&self) -> (r: Vec<Product>)
        ensures
            r@ == self.products@,
    {
        let mut out: Vec<Product> = Vec::new();
        let mut i: usize = 0;
        while i < self.products.len()
            invariant
                i <= self.products.len(),
                out@ == self.products@.take(i as int),
            decreases self.products.len() - i,
        {
            out.push(self.products[i].clone());
            assert(self.products@.take(i + 1) =~= self.products@.take(i as int).push(
                self.products@[i as int],
            ));
            i = i + 1;
        }
        assert(self.products@.take(self.products@.len() as int) =~= self.products@);
        out
    }

    /// The product with id `id`; `NotFound` exactly when no row carries it.
    #[verifier::loop_isolation(false)]
    pub fn get_product(&self, id: i32) -> (r: Result<Product, AppError>)
        ensures
            r is Ok <==> product_exists(self.products@, id),
            r matches Ok(p) ==> self.products@.contains(p) && p.id == id,
            r matches Err(e) ==> e == AppError::NotFound,
    {
        let mut i: usize = 0;
        while i < self.products.len()
            invariant
                i <= self.products.len(),
                forall|k: int| 0 <= k < i ==> (#[trigger] self.products@[k]).id != id,
            decreases self.products.len() - i,
        {
            if self.products[i].id == id {
                let p = self.products[i].clone();
                assert(self.products@.contains(self.products@[i as int]));
                return Ok(p);
            }
            i = i + 1;
        }
        Err(AppError::NotFound)
    }

    /// Insert a product row under a freshly generated id and return it.
    /// The caller's `id` field is ignored, as a generated key column ignores
    /// an inserted value.
    pub fn create_product(&mut self, product: Product) -> (r: Result<Product, AppError>)
        requires
            old(self).wf(),
            old(self).next_product_id < i32::MAX,
        ensures
            final(self).wf(),
            r is Ok,
            r matches Ok(p) ==> {
                &&& p == (Product {
                    id: old(self).next_product_id,
                    name: product.name,
                    description: product.description,
                    price: product.price,
                })
                &&& final(self).products@ == old(self).products@.push(p)
            },
            final(self).bundles@ == old(self).bundles@,
            final(self).bundle_products@ == old(self).bundle_products@,
            final(self).next_product_id == old(self).next_product_id + 1,
            final(self).next_bundle_id == old(self).next_bundle_id,
    {
        let id = self.next_product_id;
        let created = Product {
            id,
            name: product.name,
            description: product.description,
            price: product.price,
        };
        let ret = created.clone();
        self.products.push(created);
        self.next_product_id = self.next_product_id + 1;
        proof {
            assert forall|i: int| 0 <= i < self.bundle_products@.len() implies
                bundle_exists(self.bundles@, (#[trigger] self.bundle_products@[i]).bundle_id)
                    && product_exists(self.products@, self.bundle_products@[i].product_id) by {
                let pid = self.bundle_products@[i].product_id;
                assert(product_exists(old(self).products@, pid));
                let k = choose|k: int|
                    0 <= k < old(self).products@.len()
                        && (#[trigger] old(self).products@[k]).id == pid;
                assert(self.products@[k].id == pid);
            }
        }
        Ok(ret)
    }

    /// Overwrite the product row whose id is `product.id` with the given
    /// fields; `NotFound` exactly when no row carries that id.
    #[verifier::loop_isolation(false)]
    pub fn update_product(&mut self, product: Product) -> (r: Result<Product, AppError>)
        requires
            old(self).wf(),
        ensures
            final(self).wf(),
            r is Ok <==> product_exists(old(self).products@, product.id),
            r matches Ok(p) ==> {
                &&& p == product
                &&& exists|i: int|
                    0 <= i < old(self).products@.len()
                        && (#[trigger] old(self).products@[i]).id == product.id
                        && final(self).products@ == old(self).products@.update(i, product)
            },
            r matches Err(e) ==> e == AppError::NotFound
                && final(self).products@ == old(self).products@,
            final(self).bundles@ == old(self).bundles@,
            final(self).bundle_products@ == old(self).bundle_products@,
            final(self).next_product_id == old(self).next_product_id,
            final(self).next_bundle_id == old(self).next_bundle_id,
    {
        let mut i: usize = 0;
        while i < self.products.len()
            invariant
                i <= self.products.len(),
                forall|k: int| 0 <= k < i ==> (#[trigger] self.products@[k]).id != product.id,
                *self == *old(self),
            decreases self.products.len() - i,
        {
            if self.products[i].id == product.id {
                let stored = product.clone();
                let ghost idx = i as int;
                self.products.set(i, stored);
                proof {
                    assert(self.products@ == old(self).products@.update(idx, product));
                    assert forall|k: int| 0 <= k < self.bundle_products@.len() implies
                        bundle_exists(self.bundles@, (#[trigger] self.bundle_products@[k]).bundle_id)
                            && product_exists(self.products@, self.bundle_products@[k].product_id)
                        by {
                        let pid = self.bundle_products@[k].product_id;
                        assert(product_exists(old(self).products@, pid));
                        let m = choose|m: int|
                            0 <= m < old(self).products@.len()
                                && (#[trigger] old(self).products@[m]).id == pid;
                        assert(self.products@[m].id == pid);
                    }
                }
                return Ok(product);
            }
            i = i + 1;
        }
        Err(AppError::NotFound)
    }

    /// Delete the product row with id `id`.
    ///
    /// A no-op when the id is absent (so the delete is idempotent).  The
    /// foreign key from association rows is enforced with no referential
    /// action: deleting a product that some bundle still references is a
    /// constraint violation and fails, leaving the store untouched.
    #[verifier::loop_isolation(false)]
    pub fn delete_product(&mut self, id: i32) -> (r: Result<(), AppError>)
        requires
            old(self).wf(),
        ensures
            final(self).wf(),
            r is Ok <==> !product_referenced(old(self).bundle_products@, id),
            r is Ok ==> final(self).products@ == old(self).products@.filter(
                |p: Product| p.id != id,
            ),
            r matches Err(e) ==> e matches AppError::StorageFailure(_)
                && final(self).products@ == old(self).products@,
            final(self).bundles@ == old(self).bundles@,
            final(self).bundle_products@ == old(self).bundle_products@,
            final(self).next_product_id == old(self).next_product_id,
            final(self).next_bundle_id == old(self).next_bundle_id,
    {
        let mut i: usize = 0;
        while i < self.bundle_products.len()
            invariant
                i <= self.bundle_products.len(),
                forall|k: int| 0 <= k < i
                    ==> (#[trigger] self.bundle_products@[k]).product_id != id,
                *self == *old(self),
            decreases self.bundle_products.len() - i,
        {
            if self.bundle_products[i].product_id == id {
                return Err(AppError::StorageFailure(
                    "foreign key violation: product is referenced by a bundle".to_owned(),
                ));
            }
            i = i + 1;
        }

        let ghost pred = |p: Product| p.id != id;
        let mut kept: Vec<Product> = Vec::new();
        let mut j: usize = 0;
        while j < self.products.len()
            invariant
                j <= self.products.len(),
                kept@ == self.products@.take(j as int).filter(pred),
                *self == *old(self),
            decreases self.products.len() - j,
        {
            proof {
                lemma_filter_take_step(self.products@, j as int, pred);
            }
            if self.products[j].id != id {
                kept.push(self.products[j].clone());
            }
            j = j + 1;
        }
        proof {
            assert(self.products@.take(self.products@.len() as int) =~= self.products@);
            lemma_filter_products_unique(self.products@, pred);
            lemma_filter_is_subset(self.products@, pred);
        }
        self.products = kept;
        proof {
            assert forall|k: int| 0 <= k < self.products@.len() implies
                1 <= (#[trigger] self.products@[k]).id < self.next_product_id by {
                let s = old(self).products@;
                assert(s.contains(self.products@[k]));
                let m = choose|m: int| 0 <= m < s.len() && s[m] == self.products@[k];
            }
            assert forall|k: int| 0 <= k < self.bundle_products@.len() implies
                bundle_exists(self.bundles@, (#[trigger] self.bundle_products@[k]).bundle_id)
                    && product_exists(self.products@, self.bundle_products@[k].product_id) by {
                let pid = self.bundle_products@[k].product_id;
                assert(pid != id);
                assert(product_exists(old(self).products@, pid));
                let m = choose|m: int|
                    0 <= m < old(self).products@.len()
                        && (#[trigger] old(self).products@[m]).id == pid;
                let s = old(self).products@;
                assert(pred(s[m]));
                lemma_filter_mem(s, m, pred);
                let w = choose|w: int|
                    0 <= w < s.filter(pred).len() && s.filter(pred)[w] == s[m];
                assert(self.products@[w].id == pid);
            }
        }
        Ok(())
    }

    /// Every bundle row, in storage order.
    #[verifier::loop_isolation(false)]
    pub fn get_all_bundles(&self) -> (r: Vec<ProductBundle>)
        ensures
            r@ == self.bundles@,
    {
        let mut out: Vec<ProductBundle> = Vec::new();
        let mut i: usize = 0;
        while i < self.bundles.len()
            invariant
                i <= self.bundles.len(),
                out@ == self.bundles@.take(i as int),
            decreases self.bundles.len() - i,
        {
            out.push(self.bundles[i].clone());
            assert(self.bundles@.take(i + 1) =~= self.bundles@.take(i as int).push(
                self.bundles@[i as int],
            ));
            i = i + 1;
        }
        assert(self.bundles@.take(self.bundles@.len() as int) =~= self.bundles@);
        out
    }

    /// The bundle with id `id`; `NotFound` exactly when no row carries it.
    /// An absent id is never answered with a default or empty bundle.
    #[verifier::loop_isolation(false)]
    pub fn get_bundle(&self, id: i32) -> (r: Result<ProductBundle, AppError>)
        ensures
            r is Ok <==> bundle_exists(self.bundles@, id),
            r matches Ok(b) ==> self.bundles@.contains(b) && b.id == id,
            r matches Err(e) ==> e == AppError::NotFound,
    {
        match self.find_bundle_index(id) {
            Some(i) => {
                let b = self.bundles[i].clone();
                assert(self.bundles@.contains(self.bundles@[i as int]));
                Ok(b)
            },
            None => Err(AppError::NotFound),
        }
    }

    /// The position of the bundle row carrying `id`, if any.
    #[verifier::loop_isolation(false)]
    fn find_bundle_index(&self, id: i32) -> (r: Option<usize>)
        ensures
            r matches Some(i) ==> i < self.bundles@.len() && self.bundles@[i as int].id == id,
            r is Some <==> bundle_exists(self.bundles@, id),
    {
        let mut i: usize = 0;
        while i < self.bundles.len()
            invariant
                i <= self.bundles.len(),
                forall|k: int| 0 <= k < i ==> (#[trigger] self.bundles@[k]).id != id,
            decreases self.bundles.len() - i,
        {
            if self.bundles[i].id == id {
                return Some(i);
            }
            i = i + 1;
        }
        None
    }

    /// The product row carrying `id`, if any.
    #[verifier::loop_isolation(false)]
    fn find_product(&self, id: i32) -> (r: Option<Product>)
        ensures
            r matches Some(p) ==> self.products@.contains(p) && p.id == id,
            r is Some <==> product_exists(self.products@, id),
    {
        let mut i: usize = 0;
        while i < self.products.len()
            invariant
                i <= self.products.len(),
                forall|k: int| 0 <= k < i ==> (#[trigger] self.products@[k]).id != id,
            decreases self.products.len() - i,
        {
            if self.products[i].id == id {
                let p = self.products[i].clone();
                assert(self.products@.contains(self.products@[i as int]));
                return Some(p);
            }
            i = i + 1;
        }
        None
    }

    /// Do the given line items satisfy the association constraints: no two
    /// items for the same product, and every product id an existing row?
    #[verifier::loop_isolation(false)]
    fn line_items_valid(&self, products: &Vec<BundleProduct>) -> (r: bool)
        ensures
            r == (line_item_products_distinct(products@)
                && line_item_products_exist(self.products@, products@)),
    {
        let mut i: usize = 0;
        while i < products.len()
            invariant
                i <= products.len(),
                forall|a: int, b: int| 0 <= a < b < i
                    ==> (#[trigger] products@[a]).product_id
                        != (#[trigger] products@[b]).product_id,
                forall|a: int| 0 <= a < i
                    ==> product_exists(self.products@, (#[trigger] products@[a]).product_id),
            decreases products.len() - i,
        {
            let mut k: usize = 0;
            while k < i
                invariant
                    k <= i <= products.len(),
                    forall|a: int| 0 <= a < k
                        ==> (#[trigger] products@[a]).product_id
                            != products@[i as int].product_id,
                decreases i - k,
            {
                if products[k].product_id == products[i].product_id {
                    return false;
                }
                k = k + 1;
            }
            if self.find_product(products[i].product_id).is_none() {
                return false;
            }
            i = i + 1;
        }
        true
    }

    /// Insert a bundle row under a freshly generated id together with one
    /// association row per line item, as one transaction: if any line item
    /// violates a constraint (a duplicate product id in the input, or a
    /// product id with no product row), nothing of the attempt persists.
    #[verifier::loop_isolation(false)]
    pub fn create_bundle(&mut self, bundle: ProductBundle, products: Vec<BundleProduct>) -> (r:
        Result<ProductBundle, AppError>)
        requires
            old(self).wf(),
            old(self).next_bundle_id < i32::MAX,
        ensures
            final(self).wf(),
            r is Ok <==> line_item_products_distinct(products@)
                && line_item_products_exist(old(self).products@, products@),
            r matches Ok(b) ==> {
                &&& b == (ProductBundle {
                    id: old(self).next_bundle_id,
                    name: bundle.name,
                    description: bundle.description,
                    discount_percentage: bundle.discount_percentage,
                })
                &&& final(self).bundles@ == old(self).bundles@.push(b)
                &&& final(self).bundle_products@ == old(self).bundle_products@ + retagged(
                    products@,
                    old(self).next_bundle_id,
                )
                &&& assocs_for(final(self).bundle_products@, old(self).next_bundle_id) == retagged(
                    products@,
                    old(self).next_bundle_id,
                )
                &&& final(self).next_bundle_id == old(self).next_bundle_id + 1
            },
            r is Err ==> *final(self) == *old(self),
            r matches Err(e) ==> e matches AppError::StorageFailure(_),
            final(self).products@ == old(self).products@,
            final(self).next_product_id == old(self).next_product_id,
    {
        if !self.line_items_valid(&products) {
            return Err(AppError::StorageFailure(
                "constraint violation: bad line items for bundle insert".to_owned(),
            ));
        }

        let id = self.next_bundle_id;
        let created = ProductBundle {
            id,
            name: bundle.name,
            description: bundle.description,
            discount_percentage: bundle.discount_percentage,
        };
        let ret = created.clone();
        let ghost gb = ret;
        self.bundles.push(created);
        self.next_bundle_id = self.next_bundle_id + 1;

        let mut i: usize = 0;
        while i < products.len()
            invariant
                i <= products.len(),
                self.products@ == old(self).products@,
                self.bundles@ == old(self).bundles@.push(gb),
                self.next_product_id == old(self).next_product_id,
                self.next_bundle_id == old(self).next_bundle_id + 1,
                self.bundle_products@ == old(self).bundle_products@ + retagged(
                    products@.take(i as int),
                    id,
                ),
            decreases products.len() - i,
        {
            let item = BundleProduct {
                bundle_id: id,
                product_id: products[i].product_id,
                quantity: products[i].quantity,
            };
            self.bundle_products.push(item);
            proof {
                assert(retagged(products@.take(i + 1), id) =~= retagged(
                    products@.take(i as int),
                    id,
                ).push(item));
                assert(old(self).bundle_products@ + retagged(products@.take(i + 1), id) =~= (
                old(self).bundle_products@ + retagged(products@.take(i as int), id)).push(item));
            }
            i = i + 1;
        }
        proof {
            assert(products@.take(products@.len() as int) =~= products@);
            self.lemma_create_bundle_wf(*old(self), gb, products@);
            assert forall|k: int| 0 <= k < old(self).bundle_products@.len() implies
                (#[trigger] old(self).bundle_products@[k]).bundle_id != gb.id by {
                let bid = old(self).bundle_products@[k].bundle_id;
                assert(bundle_exists(old(self).bundles@, bid));
                let m = choose|m: int|
                    0 <= m < old(self).bundles@.len()
                        && (#[trigger] old(self).bundles@[m]).id == bid;
            }
            lemma_replace_semantics(old(self).bundle_products@, products@, gb.id);
        }
        Ok(ret)
    }

    /// Well-formedness is restored after a bundle insert.
    proof fn lemma_create_bundle_wf(
        self,
        pre: Self,
        gb: ProductBundle,
        items: Seq<BundleProduct>,
    )
        requires
            pre.wf(),
            pre.next_bundle_id < i32::MAX,
            gb.id == pre.next_bundle_id,
            line_item_products_distinct(items),
            line_item_products_exist(pre.products@, items),
            self.products@ == pre.products@,
            self.bundles@ == pre.bundles@.push(gb),
            self.next_product_id == pre.next_product_id,
            self.next_bundle_id == pre.next_bundle_id + 1,
            self.bundle_products@ == pre.bundle_products@ + retagged(items, gb.id),
        ensures
            self.wf(),
    {
        let n = pre.bundle_products@.len() as int;
        let all = self.bundle_products@;

        // every old association row names a bundle id strictly below gb.id
        assert forall|k: int| 0 <= k < n implies
            (#[trigger] pre.bundle_products@[k]).bundle_id < gb.id by {
            let bid = pre.bundle_products@[k].bundle_id;
            assert(bundle_exists(pre.bundles@, bid));
            let m = choose|m: int|
                0 <= m < pre.bundles@.len() && (#[trigger] pre.bundles@[m]).id == bid;
        }

        assert(assoc_pairs_unique(all)) by {
            assert forall|i: int, j: int| 0 <= i < j < all.len() implies
                !((#[trigger] all[i]).bundle_id == (#[trigger] all[j]).bundle_id
                    && all[i].product_id == all[j].product_id) by {
                if i < n && j >= n {
                    assert(all[i].bundle_id < gb.id);
                    assert(all[j].bundle_id == gb.id);
                } else if i >= n {
                    assert(all[i].product_id == items[i - n].product_id);
                    assert(all[j].product_id == items[j - n].product_id);
                }
            }
        }

        assert forall|k: int| 0 <= k < all.len() implies
            bundle_exists(self.bundles@, (#[trigger] all[k]).bundle_id)
                && product_exists(self.products@, all[k].product_id) by {
            if k < n {
                let bid = pre.bundle_products@[k].bundle_id;
                assert(bundle_exists(pre.bundles@, bid));
                let m = choose|m: int|
                    0 <= m < pre.bundles@.len() && (#[trigger] pre.bundles@[m]).id == bid;
                assert(self.bundles@[m].id == bid);
                assert(product_exists(pre.products@, pre.bundle_products@[k].product_id));
            } else {
                assert(all[k].bundle_id == gb.id);
                assert(self.bundles@[self.bundles@.len() - 1].id == gb.id);
                assert(product_exists(pre.products@, (#[trigger] items[k - n]).product_id));
            }
        }
    }

    /// Replace the fields of the bundle row carrying `bundle.id` and replace
    /// its association set wholesale with the given line items, as one
    /// transaction.  `NotFound` when no bundle row matches; a constraint
    /// violation among the line items aborts the whole update: neither the
    /// field update nor any association change persists.
    #[verifier::loop_isolation(false)]
    pub fn update_bundle(&mut self, bundle: ProductBundle, products: Vec<BundleProduct>) -> (r:
        Result<ProductBundle, AppError>)
        requires
            old(self).wf(),
        ensures
            final(self).wf(),
            r is Ok <==> bundle_exists(old(self).bundles@, bundle.id)
                && line_item_products_distinct(products@)
                && line_item_products_exist(old(self).products@, products@),
            !bundle_exists(old(self).bundles@, bundle.id)
                ==> (r matches Err(e) && e == AppError::NotFound),
            r is Err ==> *final(self) == *old(self),
            r matches Err(e) ==> e == AppError::NotFound || e matches AppError::StorageFailure(_),
            r matches Ok(b) ==> {
                &&& b == bundle
                &&& exists|i: int|
                    0 <= i < old(self).bundles@.len()
                        && (#[trigger] old(self).bundles@[i]).id == bundle.id
                        && final(self).bundles@ == old(self).bundles@.update(i, bundle)
                &&& final(self).bundle_products@ == assocs_without(
                    old(self).bundle_products@,
                    bundle.id,
                ) + retagged(products@, bundle.id)
                &&& assocs_for(final(self).bundle_products@, bundle.id) == retagged(
                    products@,
                    bundle.id,
                )
            },
            final(self).products@ == old(self).products@,
            final(self).next_product_id == old(self).next_product_id,
            final(self).next_bundle_id == old(self).next_bundle_id,
    {
        let idx = match self.find_bundle_index(bundle.id) {
            Some(i) => i,
            None => {
                return Err(AppError::NotFound);
            },
        };
        if !self.line_items_valid(&products) {
            return Err(AppError::StorageFailure(
                "constraint violation: bad line items for bundle update".to_owned(),
            ));
        }

        let id = bundle.id;
        let stored = bundle.clone();
        let ghost gidx = idx as int;
        self.bundles.set(idx, stored);

        // delete every association row of this bundle ...
        let ghost pred = |bp: BundleProduct| bp.bundle_id != id;
        let mut kept: Vec<BundleProduct> = Vec::new();
        let mut j: usize = 0;
        while j < self.bundle_products.len()
            invariant
                j <= self.bundle_products.len(),
                kept@ == self.bundle_products@.take(j as int).filter(pred),
                self.bundle_products@ == old(self).bundle_products@,
            decreases self.bundle_products.len() - j,
        {
            proof {
                lemma_filter_take_step(self.bundle_products@, j as int, pred);
            }
            if self.bundle_products[j].bundle_id != id {
                let row = self.bundle_products[j];
                kept.push(row);
            }
            j = j + 1;
        }
        assert(self.bundle_products@.take(self.bundle_products@.len() as int)
            =~= self.bundle_products@);
        assert(kept@ == assocs_without(old(self).bundle_products@, id));

        // ... then insert the new ones
        let ghost without = kept@;
        let mut i: usize = 0;
        while i < products.len()
            invariant
                i <= products.len(),
                kept@ == without + retagged(products@.take(i as int), id),
            decreases products.len() - i,
        {
            let item = BundleProduct {
                bundle_id: id,
                product_id: products[i].product_id,
                quantity: products[i].quantity,
            };
            kept.push(item);
            proof {
                assert(retagged(products@.take(i + 1), id) =~= retagged(
                    products@.take(i as int),
                    id,
                ).push(item));
                assert(without + retagged(products@.take(i + 1), id) =~= (without + retagged(
                    products@.take(i as int),
                    id,
                )).push(item));
            }
            i = i + 1;
        }
        assert(products@.take(products@.len() as int) =~= products@);
        self.bundle_products = kept;

        proof {
            self.lemma_update_bundle_wf(*old(self), bundle, gidx, products@);
            lemma_replace_semantics(without, products@, id);
        }
        Ok(bundle)
    }

    /// Well-formedness is restored after a wholesale bundle update.
    proof fn lemma_update_bundle_wf(
        self,
        pre: Self,
        bundle: ProductBundle,
        idx: int,
        items: Seq<BundleProduct>,
    )
        requires
            pre.wf(),
            0 <= idx < pre.bundles@.len(),
            pre.bundles@[idx].id == bundle.id,
            line_item_products_distinct(items),
            line_item_products_exist(pre.products@, items),
            self.products@ == pre.products@,
            self.bundles@ == pre.bundles@.update(idx, bundle),
            self.next_product_id == pre.next_product_id,
            self.next_bundle_id == pre.next_bundle_id,
            self.bundle_products@ == assocs_without(pre.bundle_products@, bundle.id) + retagged(
                items,
                bundle.id,
            ),
        ensures
            self.wf(),
    {
        let id = bundle.id;
        let pred = |bp: BundleProduct| bp.bundle_id != id;
        let without = pre.bundle_products@.filter(pred);
        let n = without.len() as int;
        let all = self.bundle_products@;

        // the update leaves the set of bundle ids unchanged
        assert(bundle_ids_unique(self.bundles@)) by {
            assert forall|a: int, b: int| 0 <= a < b < self.bundles@.len() implies
                (#[trigger] self.bundles@[a]).id != (#[trigger] self.bundles@[b]).id by {
                assert(pre.bundles@[a].id != pre.bundles@[b].id);
            }
        }

        lemma_filter_assocs_unique(pre.bundle_products@, pred);
        lemma_filter_is_subset(pre.bundle_products@, pred);

        assert(assoc_pairs_unique(all)) by {
            assert forall|a: int, b: int| 0 <= a < b < all.len() implies
                !((#[trigger] all[a]).bundle_id == (#[trigger] all[b]).bundle_id
                    && all[a].product_id == all[b].product_id) by {
                if a < n && b >= n {
                    assert(all[a].bundle_id != id);
                    assert(all[b].bundle_id == id);
                } else if a >= n {
                    assert(all[a].product_id == items[a - n].product_id);
                    assert(all[b].product_id == items[b - n].product_id);
                }
            }
        }

        assert forall|k: int| 0 <= k < all.len() implies
            bundle_exists(self.bundles@, (#[trigger] all[k]).bundle_id)
                && product_exists(self.products@, all[k].product_id) by {
            if k < n {
                let row = without[k];
                assert(pre.bundle_products@.contains(row));
                let m = choose|m: int|
                    0 <= m < pre.bundle_products@.len() && pre.bundle_products@[m] == row;
                assert(bundle_exists(pre.bundles@, row.bundle_id));
                assert(product_exists(pre.products@, row.product_id));
                let w = choose|w: int|
                    0 <= w < pre.bundles@.len() && (#[trigger] pre.bundles@[w]).id
                        == row.bundle_id;
                assert(self.bundles@[w].id == row.bundle_id);
            } else {
                assert(all[k].bundle_id == id);
                assert(self.bundles@[idx].id == id);
                assert(product_exists(pre.products@, (#[trigger] items[k - n]).product_id));
            }
        }
    }

    /// Delete the bundle row carrying `id` together with all of its
    /// association rows, as one transaction (associations first, honouring
    /// the foreign-key ordering).  A no-op when the id is absent.  Product
    /// rows are never touched.
    #[verifier::loop_isolation(false)]
    pub fn delete_bundle(&mut self, id: i32) -> (r: Result<(), AppError>)
        requires
            old(self).wf(),
        ensures
            final(self).wf(),
            r is Ok,
            final(self).bundle_products@ == assocs_without(old(self).bundle_products@, id),
            assocs_for(final(self).bundle_products@, id) == Seq::<BundleProduct>::empty(),
            final(self).bundles@ == old(self).bundles@.filter(|b: ProductBundle| b.id != id),
            final(self).products@ == old(self).products@,
            final(self).next_product_id == old(self).next_product_id,
            final(self).next_bundle_id == old(self).next_bundle_id,
    {
        // delete the association rows first (foreign-key ordering), ...
        let ghost apred = |bp: BundleProduct| bp.bundle_id != id;
        let mut kept_assocs: Vec<BundleProduct> = Vec::new();
        let mut i: usize = 0;
        while i < self.bundle_products.len()
            invariant
                i <= self.bundle_products.len(),
                kept_assocs@ == self.bundle_products@.take(i as int).filter(apred),
                *self == *old(self),
            decreases self.bundle_products.len() - i,
        {
            proof {
                lemma_filter_take_step(self.bundle_products@, i as int, apred);
            }
            if self.bundle_products[i].bundle_id != id {
                let row = self.bundle_products[i];
                kept_assocs.push(row);
            }
            i = i + 1;
        }
        assert(self.bundle_products@.take(self.bundle_products@.len() as int)
            =~= self.bundle_products@);

        // ... then the bundle row itself
        let ghost bpred = |b: ProductBundle| b.id != id;
        let mut kept_bundles: Vec<ProductBundle> = Vec::new();
        let mut j: usize = 0;
        while j < self.bundles.len()
            invariant
                j <= self.bundles.len(),
                kept_bundles@ == self.bundles@.take(j as int).filter(bpred),
                *self == *old(self),
            decreases self.bundles.len() - j,
        {
            proof {
                lemma_filter_take_step(self.bundles@, j as int, bpred);
            }
            if self.bundles[j].id != id {
                kept_bundles.push(self.bundles[j].clone());
            }
            j = j + 1;
        }
        assert(self.bundles@.take(self.bundles@.len() as int) =~= self.bundles@);

        self.bundle_products = kept_assocs;
        self.bundles = kept_bundles;

        proof {
            lemma_filter_assocs_unique(old(self).bundle_products@, apred);
            lemma_filter_bundles_unique(old(self).bundles@, bpred);
            lemma_filter_is_subset(old(self).bundle_products@, apred);
            lemma_filter_is_subset(old(self).bundles@, bpred);

            assert(assocs_for(self.bundle_products@, id) == Seq::<BundleProduct>::empty()) by {
                lemma_filter_all_false(
                    self.bundle_products@,
                    |bp: BundleProduct| bp.bundle_id == id,
                );
            }

            assert forall|k: int| 0 <= k < self.bundles@.len() implies
                1 <= (#[trigger] self.bundles@[k]).id < self.next_bundle_id by {
                let s = old(self).bundles@;
                assert(s.contains(self.bundles@[k]));
                let m = choose|m: int| 0 <= m < s.len() && s[m] == self.bundles@[k];
            }

            assert forall|k: int| 0 <= k < self.bundle_products@.len() implies
                bundle_exists(self.bundles@, (#[trigger] self.bundle_products@[k]).bundle_id)
                    && product_exists(self.products@, self.bundle_products@[k].product_id) by {
                let row = self.bundle_products@[k];
                assert(old(self).bundle_products@.contains(row));
                assert(row.bundle_id != id);
                assert(bundle_exists(old(self).bundles@, row.bundle_id));
                assert(product_exists(old(self).products@, row.product_id));
                let m = choose|m: int|
                    0 <= m < old(self).bundles@.len()
                        && (#[trigger] old(self).bundles@[m]).id == row.bundle_id;
                lemma_filter_mem(old(self).bundles@, m, bpred);
                let w = choose|w: int|
                    0 <= w < old(self).bundles@.filter(bpred).len()
                        && old(self).bundles@.filter(bpred)[w] == old(self).bundles@[m];
                assert(self.bundles@[w].id == row.bundle_id);
            }
        }
        Ok(())
    }

    /// The read-side join for one bundle: one `(product row, quantity)` pair
    /// per association row of `bundle_id`, in storage order, the product
    /// fields taken from the current product rows.  Empty when the bundle
    /// has no line items or does not exist.
    #[verifier::loop_isolation(false)]
    pub fn get_bundle_products(&self, bundle_id: i32) -> (r: Vec<(Product, i32)>)
        requires
            self.wf(),
        ensures
            r@ == joined(self.products@, assocs_for(self.bundle_products@, bundle_id)),
            r@.len() == assocs_for(self.bundle_products@, bundle_id).len(),
            forall|i: int| 0 <= i < r@.len() ==> {
                let bp = assocs_for(self.bundle_products@, bundle_id)[i];
                (#[trigger] r@[i]).1 == bp.quantity && r@[i].0.id == bp.product_id
                    && self.products@.contains(r@[i].0)
            },
    {
        let ghost pred = |bp: BundleProduct| bp.bundle_id == bundle_id;
        let mut out: Vec<(Product, i32)> = Vec::new();
        let mut i: usize = 0;
        while i < self.bundle_products.len()
            invariant
                i <= self.bundle_products.len(),
                out@ == joined(self.products@, self.bundle_products@.take(i as int).filter(pred)),
            decreases self.bundle_products.len() - i,
        {
            proof {
                lemma_filter_take_step(self.bundle_products@, i as int, pred);
            }
            let row = self.bundle_products[i];
            if row.bundle_id == bundle_id {
                match self.find_product(row.product_id) {
                    Some(p) => {
                        proof {
                            lemma_product_row_is(self.products@, p);
                            assert(joined(
                                self.products@,
                                self.bundle_products@.take(i as int).filter(pred).push(row),
                            ) =~= joined(
                                self.products@,
                                self.bundle_products@.take(i as int).filter(pred),
                            ).push((product_row(self.products@, row.product_id), row.quantity)));
                        }
                        out.push((p, row.quantity));
                    },
                    None => {
                        proof {
                            assert(product_exists(self.products@, row.product_id));
                            assert(false);
                        }
                    },
                }
            }
            i = i + 1;
        }
        proof {
            assert(self.bundle_products@.take(self.bundle_products@.len() as int)
                =~= self.bundle_products@);
            lemma_filter_is_subset(self.bundle_products@, pred);
            let assocs = assocs_for(self.bundle_products@, bundle_id);
            assert forall|k: int| 0 <= k < out@.len() implies {
                let bp = assocs[k];
                (#[trigger] out@[k]).1 == bp.quantity && out@[k].0.id == bp.product_id
                    && self.products@.contains(out@[k].0)
            } by {
                let bp = assocs[k];
                assert(self.bundle_products@.contains(bp));
                let m = choose|m: int|
                    0 <= m < self.bundle_products@.len() && self.bundle_products@[m] == bp;
                assert(product_exists(self.products@, bp.product_id));
                let w = choose|w: int|
                    0 <= w < self.products@.len()
                        && (#[trigger] self.products@[w]).id == bp.product_id;
                assert(self.products@.contains(self.products@[w]));
                assert(out@[k].0 == product_row(self.products@, bp.product_id));
                assert(self.products@.contains(product_row(self.products@, bp.product_id))
                    && product_row(self.products@, bp.product_id).id == bp.product_id);
            }
        }
        out
    }
}

/// Deleting a product is idempotent: a first delete of `id` that succeeded
/// (which it does exactly when no association row references `id`) leaves a
/// store in which a second delete of the same id succeeds again — the
/// association rows were not touched — and removes nothing further.
pub proof fn delete_product_idempotent(
    products: Seq<Product>,
    assocs: Seq<BundleProduct>,
    id: i32,
)
    requires
        !product_referenced(assocs, id),
    ensures
        !product_referenced(assocs, id),
        ({
            let keep = |p: Product| p.id != id;
            products.filter(keep).filter(keep) == products.filter(keep)
        }),
{
    let keep = |p: Product| p.id != id;
    lemma_filter_is_subset(products, keep);
    lemma_filter_all_true(products.filter(keep), keep);
}

/// After a wholesale replacement, the association rows of the bundle are
/// exactly the retagged input line items: filtering the concatenation of
/// the foreign rows and the new rows for the bundle id keeps just the new
/// rows.
proof fn lemma_replace_semantics(without: Seq<BundleProduct>, items: Seq<BundleProduct>, id: i32)
    requires
        forall|k: int| 0 <= k < without.len()
            ==> (#[trigger] without[k]).bundle_id != id,
    ensures
        assocs_for(without + retagged(items, id), id) == retagged(items, id),
{
    let pred = |bp: BundleProduct| bp.bundle_id == id;
    Seq::filter_distributes_over_add(without, retagged(items, id), pred);
    lemma_filter_all_false(without, pred);
    lemma_filter_all_true(retagged(items, id), pred);
    assert(Seq::<BundleProduct>::empty() + retagged(items, id) =~= retagged(items, id));
}

} // verus!
