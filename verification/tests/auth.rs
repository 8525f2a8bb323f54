use shop_backend::auth_service::AuthServiceImpl;
use shop_backend::models::{LoginRequest, RegisterRequest};
use shop_backend::siwe_service::SiweServiceImpl;
use shop_backend::user_repository::UserRepositoryImpl;
use shop_backend::AppError;

fn register_request(username: &str, password: &str) -> RegisterRequest {
    RegisterRequest {
        username: username.to_string(),
        email: format!("{}@example.com", username),
        password: password.to_string(),
    }
}

fn login_request(username: &str, password: &str) -> LoginRequest {
    LoginRequest {
        username: username.to_string(),
        password: password.to_string(),
    }
}

#[test]
fn register_then_login_roundtrip() {
    let mut auth = AuthServiceImpl::new(UserRepositoryImpl::new(), "sekrit".to_string());
    let reg = auth.register(register_request("alice", "hunter2")).unwrap();
    assert!(!reg.token.is_empty());

    let ok = auth.login(login_request("alice", "hunter2")).unwrap();
    assert!(!ok.token.is_empty());

    let bad = auth.login(login_request("alice", "wrong-password"));
    assert_eq!(bad, Err(AppError::Unauthorized));
}

#[test]
fn login_unknown_user_is_not_found() {
    let auth = AuthServiceImpl::new(UserRepositoryImpl::new(), "sekrit".to_string());
    assert_eq!(
        auth.login(login_request("nobody", "whatever")),
        Err(AppError::NotFound)
    );
}

#[test]
fn register_duplicate_username_fails() {
    let mut auth = AuthServiceImpl::new(UserRepositoryImpl::new(), "sekrit".to_string());
    auth.register(register_request("alice", "hunter2")).unwrap();
    let r = auth.register(register_request("alice", "other"));
    assert!(matches!(r, Err(AppError::StorageFailure(_))));
    assert_eq!(auth.user_repository.get_all_users().len(), 1);
}

#[test]
fn issued_token_carries_the_user_id() {
    let mut auth = AuthServiceImpl::new(UserRepositoryImpl::new(), "sekrit".to_string());
    let reg = auth.register(register_request("alice", "hunter2")).unwrap();

    let decoded = jsonwebtoken::decode::<serde_json::Value>(
        &reg.token,
        &jsonwebtoken::DecodingKey::from_secret("sekrit".as_bytes()),
        &jsonwebtoken::Validation::new(jsonwebtoken::Algorithm::HS256),
    )
    .expect("the token must verify under the signing secret");
    assert_eq!(decoded.claims.get("sub").and_then(|v| v.as_i64()), Some(1));
    assert!(decoded.claims.get("exp").and_then(|v| v.as_u64()).is_some());
}

#[test]
fn login_with_malformed_stored_hash_is_internal_error() {
    let mut users = UserRepositoryImpl::new();
    users
        .create_user("mallory", "mallory@example.com", "not-a-bcrypt-hash")
        .unwrap();
    let auth = AuthServiceImpl::new(users, "sekrit".to_string());
    assert_eq!(
        auth.login(login_request("mallory", "anything")),
        Err(AppError::InternalServerError)
    );
}

#[test]
fn user_store_roundtrip() {
    let mut users = UserRepositoryImpl::new();
    let u = users.create_user("alice", "alice@example.com", "h1").unwrap();
    assert_eq!(u.id, 1);
    let v = users.create_user("bob", "bob@example.com", "h2").unwrap();
    assert_eq!(v.id, 2);

    let got = users.get_user_by_username("bob").unwrap();
    assert_eq!(got.email, "bob@example.com");
    assert_eq!(got.password_hash, "h2");

    assert_eq!(users.get_user_by_username("carol"), Err(AppError::NotFound));

    let dup = users.create_user("alice", "a2@example.com", "h3");
    assert!(matches!(dup, Err(AppError::StorageFailure(_))));

    let all = users.get_all_users();
    assert_eq!(all.len(), 2);
    assert_eq!(all[0].username, "alice");
    assert_eq!(all[1].username, "bob");
}

#[test]
fn signature_login_outcomes() {
    let siwe = SiweServiceImpl::new();
    let address = vec![0xabu8; 20];

    let r = siwe.verification_outcome(None, true, true);
    assert_eq!(r, Err(AppError::BadRequest("Invalid message".to_string())));

    let r = siwe.verification_outcome(Some(address.clone()), false, true);
    assert_eq!(r, Err(AppError::BadRequest("Invalid signature".to_string())));

    let r = siwe.verification_outcome(Some(address.clone()), true, false);
    assert_eq!(r, Err(AppError::Unauthorized));

    let r = siwe.verification_outcome(Some(address.clone()), true, true);
    assert_eq!(r, Ok(address));
}

#[test]
fn error_status_codes_and_messages() {
    assert_eq!(AppError::InternalServerError.status_code(), 500);
    assert_eq!(AppError::BadRequest("x".to_string()).status_code(), 400);
    assert_eq!(AppError::Unauthorized.status_code(), 401);
    assert_eq!(AppError::NotFound.status_code(), 404);
    assert_eq!(AppError::StorageFailure("x".to_string()).status_code(), 500);

    assert_eq!(AppError::InternalServerError.message(), "Internal server error");
    assert_eq!(AppError::Unauthorized.message(), "Unauthorized");
    assert_eq!(AppError::NotFound.message(), "Not found");
    assert_eq!(AppError::BadRequest("bad field".to_string()).message(), "bad field");
    assert_eq!(AppError::StorageFailure("row gone".to_string()).message(), "row gone");
}
