//! The product service: the caller-facing contract over the persistence
//! gateway, one concrete implementation per backing store.

use vstd::prelude::*;

use crate::error::AppError;
use crate::models::{BundleProduct, Product, ProductBundle};
use crate::product_repository::{
    assocs_for, assocs_without, bundle_exists, joined, line_item_products_distinct,
    line_item_products_exist, product_exists, product_referenced, retagged,
    ProductRepositoryImpl,
};

verus! {

/// A service facade over [`ProductRepositoryImpl`]: every operation
/// delegates to the repository and keeps its contract.
pub struct ProductServiceImpl {
    pub product_repository: ProductRepositoryImpl,
}

impl ProductServiceImpl {
    pub fn new(product_repository: ProductRepositoryImpl) -> (r: Self)
        ensures
            r.product_repository == product_repository,
    {
        ProductServiceImpl { product_repository }
    }

    /// Every product row, in storage order.
    pub fn get_all_products(&self) -> (r: Vec<Product>)
        ensures
            r@ == self.product_repository.products@,
    {
        self.product_repository.get_all_products()
    }

    /// The product with id `id`; `NotFound` exactly when no row carries it.
    pub fn get_product(&self, id: i32) -> (r: Result<Product, AppError>)
        ensures
            r is Ok <==> product_exists(self.product_repository.products@, id),
            r matches Ok(p) ==> self.product_repository.products@.contains(p) && p.id == id,
            r matches Err(e) ==> e == AppError::NotFound,
    {
        self.product_repository.get_product(id)
    }

    /// Insert a product row under a freshly generated id and return it.
    pub fn create_product(&mut self, product: Product) -> (r: Result<Product, AppError>)
        requires
            old(self).product_repository.wf(),
            old(self).product_repository.next_product_id < i32::MAX,
        ensures
            final(self).product_repository.wf(),
            r is Ok,
            r matches Ok(p) ==> {
                &&& p == (Product {
                    id: old(self).product_repository.next_product_id,
                    name: product.name,
                    description: product.description,
                    price: product.price,
                })
                &&& final(self).product_repository.products@
                    == old(self).product_repository.products@.push(p)
            },
            final(self).product_repository.bundles@ == old(self).product_repository.bundles@,
            final(self).product_repository.bundle_products@
                == old(self).product_repository.bundle_products@,
    {
        self.product_repository.create_product(product)
    }

    /// Overwrite the product row whose id is `product.id`; `NotFound`
    /// exactly when no row carries that id.
    pub fn update_product(&mut self, product: Product) -> (r: Result<Product, AppError>)
        requires
            old(self).product_repository.wf(),
        ensures
            final(self).product_repository.wf(),
            r is Ok <==> product_exists(old(self).product_repository.products@, product.id),
            r matches Ok(p) ==> {
                &&& p == product
                &&& exists|i: int|
                    0 <= i < old(self).product_repository.products@.len()
                        && (#[trigger] old(self).product_repository.products@[i]).id == product.id
                        && final(self).product_repository.products@
                            == old(self).product_repository.products@.update(i, product)
            },
            r matches Err(e) ==> e == AppError::NotFound && final(self).product_repository.products@
                == old(self).product_repository.products@,
            final(self).product_repository.bundles@ == old(self).product_repository.bundles@,
            final(self).product_repository.bundle_products@
                == old(self).product_repository.bundle_products@,
    {
        self.product_repository.update_product(product)
    }

    /// Delete the product row with id `id`; a no-op when absent, a
    /// constraint violation while a bundle still references the product.
    pub fn delete_product(&mut self, id: i32) -> (r: Result<(), AppError>)
        requires
            old(self).product_repository.wf(),
        ensures
            final(self).product_repository.wf(),
            r is Ok <==> !product_referenced(old(self).product_repository.bundle_products@, id),
            r is Ok ==> final(self).product_repository.products@
                == old(self).product_repository.products@.filter(|p: Product| p.id != id),
            r matches Err(e) ==> e is StorageFailure && final(self).product_repository.products@
                == old(self).product_repository.products@,
            final(self).product_repository.bundles@ == old(self).product_repository.bundles@,
            final(self).product_repository.bundle_products@
                == old(self).product_repository.bundle_products@,
    {
        self.product_repository.delete_product(id)
    }

    /// Every bundle row, in storage order.
    pub fn get_all_bundles(&self) -> (r: Vec<ProductBundle>)
        ensures
            r@ == self.product_repository.bundles@,
    {
        self.product_repository.get_all_bundles()
    }

    /// The bundle with id `id`; `NotFound` exactly when no row carries it.
    pub fn get_bundle(&self, id: i32) -> (r: Result<ProductBundle, AppError>)
        ensures
            r is Ok <==> bundle_exists(self.product_repository.bundles@, id),
            r matches Ok(b) ==> self.product_repository.bundles@.contains(b) && b.id == id,
            r matches Err(e) ==> e == AppError::NotFound,
    {
        self.product_repository.get_bundle(id)
    }

    /// Insert a bundle with its line items as one transaction: on any
    /// constraint violation nothing of the attempt persists.
    pub fn create_bundle(&mut self, bundle: ProductBundle, products: Vec<BundleProduct>) -> (r:
        Result<ProductBundle, AppError>)
        requires
            old(self).product_repository.wf(),
            old(self).product_repository.next_bundle_id < i32::MAX,
        ensures
            final(self).product_repository.wf(),
            r is Ok <==> line_item_products_distinct(products@) && line_item_products_exist(
                old(self).product_repository.products@,
                products@,
            ),
            r matches Ok(b) ==> {
                &&& b == (ProductBundle {
                    id: old(self).product_repository.next_bundle_id,
                    name: bundle.name,
                    description: bundle.description,
                    discount_percentage: bundle.discount_percentage,
                })
                &&& final(self).product_repository.bundles@
                    == old(self).product_repository.bundles@.push(b)
                &&& final(self).product_repository.bundle_products@
                    == old(self).product_repository.bundle_products@ + retagged(
                    products@,
                    old(self).product_repository.next_bundle_id,
                )
                &&& assocs_for(
                    final(self).product_repository.bundle_products@,
                    old(self).product_repository.next_bundle_id,
                ) == retagged(products@, old(self).product_repository.next_bundle_id)
            },
            r is Err ==> final(self).product_repository == old(self).product_repository,
            r matches Err(e) ==> e is StorageFailure,
            final(self).product_repository.products@ == old(self).product_repository.products@,
    {
        self.product_repository.create_bundle(bundle, products)
    }

    /// Replace the bundle row's fields and its association set wholesale,
    /// as one transaction.
    pub fn update_bundle(&mut self, bundle: ProductBundle, products: Vec<BundleProduct>) -> (r:
        Result<ProductBundle, AppError>)
        requires
            old(self).product_repository.wf(),
        ensures
            final(self).product_repository.wf(),
            r is Ok <==> bundle_exists(old(self).product_repository.bundles@, bundle.id)
                && line_item_products_distinct(products@) && line_item_products_exist(
                old(self).product_repository.products@,
                products@,
            ),
            !bundle_exists(old(self).product_repository.bundles@, bundle.id)
                ==> (r matches Err(e) && e == AppError::NotFound),
            r is Err ==> final(self).product_repository == old(self).product_repository,
            r matches Ok(b) ==> {
                &&& b == bundle
                &&& final(self).product_repository.bundle_products@ == assocs_without(
                    old(self).product_repository.bundle_products@,
                    bundle.id,
                ) + retagged(products@, bundle.id)
                &&& assocs_for(final(self).product_repository.bundle_products@, bundle.id)
                    == retagged(products@, bundle.id)
            },
            final(self).product_repository.products@ == old(self).product_repository.products@,
    {
        self.product_repository.update_bundle(bundle, products)
    }

    /// Delete a bundle and all of its association rows, as one transaction;
    /// product rows are never touched.
    pub fn delete_bundle(&mut self, id: i32) -> (r: Result<(), AppError>)
        requires
            old(self).product_repository.wf(),
        ensures
            final(self).product_repository.wf(),
            r is Ok,
            final(self).product_repository.bundle_products@ == assocs_without(
                old(self).product_repository.bundle_products@,
                id,
            ),
            assocs_for(final(self).product_repository.bundle_products@, id)
                == Seq::<BundleProduct>::empty(),
            final(self).product_repository.bundles@
                == old(self).product_repository.bundles@.filter(|b: ProductBundle| b.id != id),
            final(self).product_repository.products@ == old(self).product_repository.products@,
    {
        self.product_repository.delete_bundle(id)
    }

    /// The read-side join for one bundle: one `(product row, quantity)`
    /// pair per association row of `bundle_id`, in storage order.
    pub fn get_bundle_products(&self, bundle_id: i32) -> (r: Vec<(Product, i32)>)
        requires
            self.product_repository.wf(),
        ensures
            r@ == joined(
                self.product_repository.products@,
                assocs_for(self.product_repository.bundle_products@, bundle_id),
            ),
            r@.len() == assocs_for(self.product_repository.bundle_products@, bundle_id).len(),
    {
        self.product_repository.get_bundle_products(bundle_id)
    }
}

} // verus!
