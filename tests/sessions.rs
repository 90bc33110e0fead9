use argon2::password_hash::SaltString;
use argon2::PasswordHasher;
use sellorama::accounts::Accounts;
use sellorama::errors::MyError;
use sellorama::user::{CreateUserForm, Session, UserLogin, UserWithSession};

const DAY: i64 = 86400;

fn hash_of(password: &str) -> String {
    let salt = SaltString::from_b64("c29tZXNhbHQxMjM0NTY3OA").unwrap();
    argon2::Argon2::default().hash_password(password.as_bytes(), &salt).unwrap().to_string()
}

fn signup_form(username: &str, email: &str, password: &str) -> CreateUserForm {
    CreateUserForm { username: username.to_string(), email_id: email.to_string(), password: password.to_string() }
}

fn login(username: &str, password: &str) -> UserLogin {
    UserLogin { username: username.to_string(), password: password.to_string() }
}

fn custom(code: u16, detail: &str) -> MyError {
    MyError::CustomError((code, detail.to_string()))
}

fn registered() -> Accounts {
    let mut a = Accounts::new();
    let r = a.signup(signup_form("test_user", "test@testing.com", "test_pass"), hash_of("test_pass"), 1, 10, 1000);
    assert_eq!(r, Ok(Session { session_id: 10 }));
    a
}

#[test]
fn signup_opens_a_day_long_session() {
    let a = registered();
    assert_eq!(a.check_session_validity(10, 1000), Some(UserWithSession { session_id: 10, user_id: 1 }));
    assert_eq!(a.check_session_validity(10, 1000 + DAY - 1), Some(UserWithSession { session_id: 10, user_id: 1 }));
    assert_eq!(a.check_session_validity(10, 1000 + DAY), None);
    assert_eq!(a.check_session_validity(11, 1000), None);
}

#[test]
fn signup_refuses_taken_name_or_email() {
    let mut a = registered();
    let r = a.signup(signup_form("test_user", "other@testing.com", "test_pass"), hash_of("x"), 2, 20, 1000);
    assert_eq!(r, Err(custom(409, "user or email_id exists")));
    let r = a.signup(signup_form("other", "test@testing.com", "test_pass"), hash_of("x"), 2, 20, 1000);
    assert_eq!(r, Err(custom(409, "user or email_id exists")));
    assert_eq!(a.check_session_validity(20, 1000), None);
}

#[test]
fn signup_refuses_unprocessable_form() {
    let mut a = Accounts::new();
    let r = a.signup(signup_form("u", "u@testing.com", "short"), hash_of("short"), 1, 10, 0);
    assert_eq!(r, Err(custom(422, "Password must be atleast 6 characters long")));
    let r = a.signup(signup_form("u", "not-an-email", "long_enough"), hash_of("x"), 1, 10, 0);
    assert_eq!(r, Err(custom(422, "Invalid Email Id")));
    assert_eq!(a.check_session_validity(10, 0), None);
}

#[test]
fn signup_refuses_taken_ids() {
    let mut a = registered();
    let r = a.signup(signup_form("second", "second@testing.com", "test_pass"), hash_of("x"), 1, 20, 0);
    assert_eq!(r, Err(MyError::InternalServerError));
    let r = a.signup(signup_form("second", "second@testing.com", "test_pass"), hash_of("x"), 2, 10, 0);
    assert_eq!(r, Err(MyError::InternalServerError));
}

#[test]
fn login_with_right_and_wrong_password() {
    let mut a = registered();
    assert_eq!(a.user_login(&login("test_user", "test_pass"), 11, 2000), Ok(Session { session_id: 11 }));
    assert_eq!(a.check_session_validity(11, 2000), Some(UserWithSession { session_id: 11, user_id: 1 }));
    assert_eq!(a.user_login(&login("test_user", "test_notpass"), 12, 2000), Err(custom(401, "Wrong username or password")));
    assert_eq!(a.user_login(&login("nobody", "test_pass"), 12, 2000), Err(custom(401, "Invalid Username or password")));
    assert_eq!(a.user_login(&login("test_user", "test_pass"), 11, 2000), Err(custom(500, "Error Creating Session")));
}

#[test]
fn login_sweeps_expired_sessions() {
    let mut a = registered();
    assert!(a.user_login(&login("test_user", "test_pass"), 12, 1000 + DAY + 1).is_ok());
    // The expired session 10 is gone, so its id can be opened again.
    assert_eq!(a.user_login(&login("test_user", "test_pass"), 10, 1000 + DAY + 2), Ok(Session { session_id: 10 }));
}

#[test]
fn logout_ends_session() {
    let mut a = registered();
    a.invalidate_session(10);
    assert_eq!(a.check_session_validity(10, 1000), None);
}

#[test]
fn sweeping_keeps_live_sessions() {
    let mut a = registered();
    a.invalidate_dangling_sessions(1000 + DAY);
    assert_eq!(a.check_session_validity(10, 1000), Some(UserWithSession { session_id: 10, user_id: 1 }));
    a.invalidate_dangling_sessions(1000 + DAY + 1);
    assert_eq!(a.check_session_validity(10, 1000), None);
}
