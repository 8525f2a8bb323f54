//! The application configuration record.  Reading it from the process
//! environment is the application edge's job; the record itself is plain
//! data.

use vstd::prelude::*;

verus! {

/// Everything the application needs at startup.
#[derive(Debug)]
pub struct AppConfig {
    pub database_url: String,
    pub server_addr: String,
    pub jwt_secret: String,
    pub oauth_client_id: String,
    pub oauth_client_secret: String,
    pub oauth_auth_url: String,
    pub oauth_token_url: String,
    pub oauth_redirect_url: String,
}

} // verus!
