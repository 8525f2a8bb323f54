//! Administration backend for a small shop: products, discounted product
//! bundles, users, and the authentication services around them.
//!
//! The heart of the crate is the persistence gateway
//! ([`ProductRepositoryImpl`](product_repository::ProductRepositoryImpl)):
//! an atomic store of products, bundles and bundle line items whose
//! create/update/delete operations are proved all-or-nothing, whose
//! wholesale bundle updates are proved exact replacements, and whose
//! bundle deletes are proved to cascade to the association rows.

pub mod auth_service;
pub mod config;
pub mod error;
pub mod models;
pub mod product_repository;
pub mod product_service;
pub mod siwe_service;
pub mod templates;
pub mod user_repository;
pub mod user_service;

pub use config::AppConfig;
pub use error::AppError;
pub use models::{
    AuthResponse, BundleProduct, Decimal, LoginRequest, OAuthCallback, Product, ProductBundle,
    RegisterRequest, SiweRequest, User,
};
