use argon2::PasswordVerifier;
use vstd::prelude::*;
use vstd::utf8::encode_utf8;

use crate::errors::MyError;
use crate::ids::{parse_uuid, uuid_parsed};
use crate::item::{pagination_text, push_pagination};
use crate::text::{bool_text, push_bool};

verus! {

/// Credentials offered at login.
#[derive(Debug, PartialEq, Eq)]
pub struct UserLogin {
    pub username: String,
    pub password: String,
}

/// A sign-up request.
#[derive(Debug, PartialEq, Eq)]
pub struct CreateUserForm {
    pub username: String,
    pub email_id: String,
    pub password: String,
}

/// A plain message body.
#[derive(Debug, PartialEq, Eq)]
pub struct GeneralResponse {
    pub detail: String,
}

/// A delivery address.
#[derive(Debug, PartialEq, Eq)]
pub struct Address {
    pub address_line_1: String,
    pub address_line_2: Option<String>,
    pub city: String,
    pub country: String,
    pub pincode: String,
}

/// Names a delivery address.
#[derive(Clone, Copy, Debug, PartialEq, Eq)]
pub struct AddressId {
    pub address_id: u128,
}

/// Names a user.
#[derive(Clone, Copy, Debug, PartialEq, Eq)]
pub struct UserId {
    pub user_id: u128,
}

/// Names a session.
#[derive(Clone, Copy, Debug, PartialEq, Eq)]
pub struct Session {
    pub session_id: u128,
}

/// A live session and the user it identifies.
#[derive(Clone, Copy, Debug, PartialEq, Eq)]
pub struct UserWithSession {
    pub session_id: u128,
    pub user_id: u128,
}

/// A request for one page of the caller's own order lines.
#[derive(Clone, Copy, Debug, PartialEq, Eq)]
pub struct MyOrderQuery {
    pub page_no: Option<u32>,
    pub take: Option<u32>,
    /// Dispatch status of the lines; not dispatched where absent.
    pub dispatched: Option<bool>,
}

/// The shortest password accepted at sign-up, in bytes.
pub const MIN_PASSWORD_BYTES: usize = 6;

/// The pattern an e-mail address must match at sign-up.
pub const EMAIL_PATTERN: &'static str = "^([a-z0-9_+]([a-z0-9_+.]*[a-z0-9_+])?)@([a-z0-9]+([\\-\\.]{1}[a-z0-9]+)*\\.[a-z]{2,6})";

/// Whether the regular expression `pattern` compiles and matches somewhere
/// in `text`; nothing where it does not compile.
pub uninterp spec fn regex_match(pattern: Seq<char>, text: Seq<char>) -> Option<bool>;

/// Whether `password` verifies against the PHC-format Argon2 hash `phc`;
/// false where `phc` is not a well-formed hash.
pub uninterp spec fn argon2_accepts(password: Seq<char>, phc: Seq<char>) -> bool;

/// Relies on `regex::Regex::new` and `regex::Regex::is_match`.
#[verifier::external_body]
fn regex_is_match(pattern: &str, text: &str) -> (r: Option<bool>)
    ensures
        r == regex_match(pattern@, text@),
{
    match regex::Regex::new(pattern) {
        Ok(re) => Some(re.is_match(text)),
        Err(_) => None,
    }
}

/// Relies on `argon2::PasswordHash::new` and `PasswordVerifier::verify_password`
/// of `argon2::Argon2::default()`; an empty hash string never parses.
#[verifier::external_body]
fn argon2_verify(password: &str, phc: &str) -> (r: bool)
    ensures
        r == argon2_accepts(password@, phc@),
        phc@.len() == 0 ==> !r,
{
    match argon2::PasswordHash::new(phc) {
        Ok(hash) => argon2::Argon2::default().verify_password(password.as_bytes(), &hash).is_ok(),
        Err(_) => false,
    }
}

/// The e-mail address is acceptable at sign-up.
pub open spec fn email_ok(email: Seq<char>) -> bool {
    regex_match(EMAIL_PATTERN@, email) == Some(true)
}

/// Whether `email` is acceptable at sign-up.
pub fn is_valid_email(email: &str) -> (r: bool)
    ensures
        r == email_ok(email@),
{
    match regex_is_match(EMAIL_PATTERN, email) {
        Some(m) => m,
        None => false,
    }
}

/// What sign-up answers to a form that it refuses, given the byte length of
/// its password and whether its e-mail address matches the pattern: a short
/// password first, then a malformed address; nothing for a form it accepts.
pub open spec fn signup_refusal(password_bytes: nat, email_matches: bool) -> Option<Seq<char>> {
    if password_bytes < MIN_PASSWORD_BYTES {
        Some("Password must be atleast 6 characters long"@)
    } else if !email_matches {
        Some("Invalid Email Id"@)
    } else {
        None
    }
}

/// Decides a sign-up form from the byte length of its password and whether
/// its e-mail address matches the pattern.
pub fn signup_check(password_bytes: usize, email_matches: bool) -> (r: Result<(), GeneralResponse>)
    ensures
        match signup_refusal(password_bytes as nat, email_matches) {
            None => r is Ok,
            Some(msg) => r matches Err(g) && g.detail@ == msg,
        },
{
    if password_bytes < MIN_PASSWORD_BYTES {
        return Err(GeneralResponse { detail: String::from_str("Password must be atleast 6 characters long") });
    }
    if !email_matches {
        return Err(GeneralResponse { detail: String::from_str("Invalid Email Id") });
    }
    Ok(())
}

/// Checks a sign-up form before any account is made: `Err` carries the
/// message of an unprocessable form.
pub fn validate_signup(form: &CreateUserForm) -> (r: Result<(), GeneralResponse>)
    ensures
        match signup_refusal(encode_utf8(form.password@).len(), email_ok(form.email_id@)) {
            None => r is Ok,
            Some(msg) => r matches Err(g) && g.detail@ == msg,
        },
{
    let bytes = form.password.as_str().as_bytes();
    signup_check(bytes.len(), is_valid_email(form.email_id.as_str()))
}

/// Checks `password` against the stored Argon2 hash.
pub fn validate_password(password: &String, hashed_password: String) -> (r: Result<(), ()>)
    ensures
        r is Ok <==> argon2_accepts(password@, hashed_password@),
{
    if argon2_verify(password.as_str(), hashed_password.as_str()) {
        Ok(())
    } else {
        Err(())
    }
}

/// The session named by the `session_id` header: `UnauthorizedError` where
/// the header is missing or names no UUID.
pub fn extract_session_header(header: Option<&str>) -> (r: Result<u128, MyError>)
    ensures
        r == match header {
            None => Err(MyError::UnauthorizedError),
            Some(h) => match uuid_parsed(h@) {
                Some(id) => Ok(id),
                None => Err(MyError::UnauthorizedError),
            },
        },
{
    match header {
        None => Err(MyError::UnauthorizedError),
        Some(h) => match parse_uuid(h) {
            Some(id) => Ok(id),
            None => Err(MyError::UnauthorizedError),
        },
    }
}

/// The query that fetches one page of the caller's own order lines, the
/// caller being bound as `$1`.
pub open spec fn my_orders_query_text(p: MyOrderQuery) -> Seq<char> {
    let d = match p.dispatched {
        Some(b) => b,
        None => false,
    };
    "SELECT t1.\"order_id\",t1.\"item_id\",t1.\"quantity\",t2.\"order_date\",t2.\"address_id\",t2.\"dispatched\" FROM \n        (SELECT * from \"order_items\" ) as t1 \n        INNER JOIN\n        (SELECT * FROM \"order\" WHERE \"user_id\" = $1 ) as t2\n        ON t1.\"order_id\" = t2.\"order_id\"\n        WHERE \"dispatched\" = "@
        + bool_text(d) + " ORDER BY t2.\"order_date\" DESC "@ + pagination_text(p.take, p.page_no)
        + ";"@
}

/// The query for the page of the caller's order lines that `pagination`
/// asks for.
pub fn paginate_orders(pagination: MyOrderQuery) -> (r: String)
    ensures
        r@ == my_orders_query_text(pagination),
{
    let d = match pagination.dispatched {
        Some(b) => b,
        None => false,
    };
    let mut q = String::from_str(
        "SELECT t1.\"order_id\",t1.\"item_id\",t1.\"quantity\",t2.\"order_date\",t2.\"address_id\",t2.\"dispatched\" FROM \n        (SELECT * from \"order_items\" ) as t1 \n        INNER JOIN\n        (SELECT * FROM \"order\" WHERE \"user_id\" = $1 ) as t2\n        ON t1.\"order_id\" = t2.\"order_id\"\n        WHERE \"dispatched\" = ",
    );
    push_bool(&mut q, d);
    q.append(" ORDER BY t2.\"order_date\" DESC ");
    push_pagination(&mut q, pagination.take, pagination.page_no);
    q.append(";");
    assert(q@ =~= my_orders_query_text(pagination));
    q
}

} // verus!
