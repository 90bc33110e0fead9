use argon2::password_hash::SaltString;
use argon2::PasswordHasher;
use sellorama::errors::MyError;
use sellorama::objects::S3Credentials;
use sellorama::user::{extract_session_header, is_valid_email, validate_password, validate_signup, CreateUserForm};

fn form(email: &str, password: &str) -> CreateUserForm {
    CreateUserForm { username: "test_user".to_string(), email_id: email.to_string(), password: password.to_string() }
}

#[test]
fn session_header_reads_uuid() {
    assert_eq!(
        extract_session_header(Some("550e8400-e29b-41d4-a716-446655440000")),
        Ok(0x550e8400e29b41d4a716446655440000)
    );
    assert_eq!(extract_session_header(Some("not-a-session")), Err(MyError::UnauthorizedError));
    assert_eq!(extract_session_header(None), Err(MyError::UnauthorizedError));
}

#[test]
fn signup_accepts_valid_form() {
    assert!(validate_signup(&form("test@testing.com", "test_pass")).is_ok());
}

#[test]
fn signup_refuses_short_password() {
    let err = validate_signup(&form("test@testing.com", "12345")).unwrap_err();
    assert_eq!(err.detail, "Password must be atleast 6 characters long");
    // Six bytes, even in fewer characters, are enough.
    assert!(validate_signup(&form("test@testing.com", "ééé")).is_ok());
}

#[test]
fn signup_refuses_bad_email() {
    let err = validate_signup(&form("not-an-email", "test_pass")).unwrap_err();
    assert_eq!(err.detail, "Invalid Email Id");
    // The password is checked first.
    let err = validate_signup(&form("not-an-email", "short")).unwrap_err();
    assert_eq!(err.detail, "Password must be atleast 6 characters long");
}

#[test]
fn email_pattern() {
    assert!(is_valid_email("a.b+c@mail.example.org"));
    assert!(!is_valid_email("User@Example.com"));
    assert!(!is_valid_email("@example.com"));
    assert!(!is_valid_email("plain"));
}

#[test]
fn password_checks_against_hash() {
    let salt = SaltString::from_b64("c29tZXNhbHQxMjM0NTY3OA").unwrap();
    let hash = argon2::Argon2::default().hash_password(b"test_pass", &salt).unwrap().to_string();
    assert_eq!(validate_password(&"test_pass".to_string(), hash.clone()), Ok(()));
    assert_eq!(validate_password(&"test_notpass".to_string(), hash), Err(()));
    assert_eq!(validate_password(&"test_pass".to_string(), String::new()), Err(()));
    assert_eq!(validate_password(&"test_pass".to_string(), "garbage".to_string()), Err(()));
}

#[test]
fn credentials_keep_their_fields() {
    let c = S3Credentials::new("key".to_string(), "SECRET-REDACTED".to_string(), None, None, "http://localhost:9000".to_string());
    assert_eq!(c.access_key, "key");
    assert_eq!(c.secret_access_key, "SECRET-REDACTED");
    assert_eq!(c.session_token, None);
    assert_eq!(c.expires_after, None);
    assert_eq!(c.endpoint_url, "http://localhost:9000");
}

#[test]
fn signup_decision_from_plain_values() {
    assert_eq!(
        sellorama::user::signup_check(5, true).unwrap_err().detail,
        "Password must be atleast 6 characters long"
    );
    assert_eq!(sellorama::user::signup_check(6, false).unwrap_err().detail, "Invalid Email Id");
    assert!(sellorama::user::signup_check(6, true).is_ok());
}
