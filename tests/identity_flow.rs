use microshop::error::ApiError;
use microshop::identity::{hash_password, validate_payload, verify_password, SignUser, UserDirectory};

fn creds(email: &str, password: &str) -> SignUser {
    SignUser { email: email.to_string(), password: password.to_string() }
}

#[test]
fn validation_of_credentials() {
    assert!(validate_payload(&creds("alice@example.com", "hunter2")).is_ok());
    assert_eq!(validate_payload(&creds("alice.example.com", "hunter2")).unwrap_err(), ApiError::BadRequest);
    assert_eq!(validate_payload(&creds("", "hunter2")).unwrap_err(), ApiError::BadRequest);
    assert_eq!(validate_payload(&creds("alice@example.com", "12345")).unwrap_err(), ApiError::BadRequest);
    assert!(validate_payload(&creds("alice@example.com", "123456")).is_ok());
}

#[test]
fn password_hash_round_trip() {
    let h = hash_password("hunter2").unwrap();
    assert_ne!(h, "hunter2");
    assert!(verify_password("hunter2", &h));
    assert!(!verify_password("hunter3", &h));
    assert!(!verify_password("hunter2", "not a hash"));
}

#[test]
fn signup_then_signin_gives_same_user() {
    let mut d = UserDirectory::new();
    let uid = d.sign_up(&creds("alice@example.com", "hunter2"), 0xA1, 0).unwrap();
    assert_eq!(uid, 0xA1);
    assert_eq!(d.sign_in(&creds("alice@example.com", "hunter2")).unwrap(), 0xA1);
    assert_eq!(d.users[0].user_email, "alice@example.com");
    assert_ne!(d.users[0].password_hash, "hunter2");
}

#[test]
fn second_signup_with_same_email_is_duplicate() {
    let mut d = UserDirectory::new();
    assert!(d.sign_up(&creds("bob@example.com", "password"), 1, 0).is_ok());
    assert_eq!(d.sign_up(&creds("bob@example.com", "password"), 2, 0).unwrap_err(), ApiError::DuplicateUserEmail);
    assert_eq!(d.users.iter().filter(|u| u.user_email == "bob@example.com").count(), 1);
}

#[test]
fn signin_failures_look_the_same() {
    let mut d = UserDirectory::new();
    d.sign_up(&creds("carol@example.com", "secret1"), 3, 0).unwrap();
    assert_eq!(d.sign_in(&creds("carol@example.com", "secret2")).unwrap_err(), ApiError::WrongCredentials);
    assert_eq!(d.sign_in(&creds("dave@example.com", "secret1")).unwrap_err(), ApiError::WrongCredentials);
    assert_eq!(d.sign_in(&creds("carol", "secret1")).unwrap_err(), ApiError::BadRequest);
}

#[test]
fn register_refuses_taken_email() {
    let mut d = UserDirectory::new();
    assert!(d.register("e@x.io", "h".to_string(), 1, 5).is_ok());
    assert_eq!(d.register("e@x.io", "h2".to_string(), 2, 6).unwrap_err(), ApiError::DuplicateUserEmail);
    assert_eq!(d.users.len(), 1);
    assert_eq!(d.find_by_email("e@x.io"), Some(0));
    assert_eq!(d.find_by_email("f@x.io"), None);
}
