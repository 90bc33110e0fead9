use vstd::prelude::*;

verus! {

/// The failures that an operation of the service can report.
#[derive(Debug, PartialEq, Eq)]
pub enum MyError {
    NotFound,
    InternalServerError,
    ConflictError,
    UnauthorizedError,
    UnproccessableEntityError,
    BadRequest,
    /// An ownership rule forbids the operation (self-purchase, dispatching
    /// an item that another user owns).
    Forbidden,
    CustomError((u16, String)),
}

/// The body that accompanies an error status.
#[derive(Debug, PartialEq, Eq)]
pub struct ErrorResponse {
    pub detail: String,
}

/// The status code that `e` is reported with.
pub open spec fn status_of(e: MyError) -> u16 {
    match e {
        MyError::NotFound => 404,
        MyError::BadRequest => 400,
        MyError::ConflictError => 409,
        MyError::InternalServerError => 500,
        MyError::UnauthorizedError => 401,
        MyError::UnproccessableEntityError => 422,
        MyError::Forbidden => 403,
        MyError::CustomError((code, _)) => code,
    }
}

/// The human-readable detail that `e` is reported with.
pub open spec fn detail_of(e: MyError) -> Seq<char> {
    match e {
        MyError::NotFound => "Not Found"@,
        MyError::BadRequest => "Bad Request"@,
        MyError::ConflictError => "Conflict Error"@,
        MyError::InternalServerError => "Internal Server Error"@,
        MyError::UnauthorizedError => "User Is Not Authorized"@,
        MyError::UnproccessableEntityError => "Unproccessable Entity"@,
        MyError::Forbidden => "Forbidden"@,
        MyError::CustomError((_, text)) => text@,
    }
}

impl MyError {
    /// Splits the error into its status code and response body.
    pub fn into_parts(self) -> (r: (u16, ErrorResponse))
        ensures
            r.0 == status_of(self),
            r.1.detail@ == detail_of(self),
    {
        match self {
            MyError::NotFound => (404, ErrorResponse { detail: String::from_str("Not Found") }),
            MyError::BadRequest => (400, ErrorResponse { detail: String::from_str("Bad Request") }),
            MyError::ConflictError => (
                409,
                ErrorResponse { detail: String::from_str("Conflict Error") },
            ),
            MyError::InternalServerError => (
                500,
                ErrorResponse { detail: String::from_str("Internal Server Error") },
            ),
            MyError::UnauthorizedError => (
                401,
                ErrorResponse { detail: String::from_str("User Is Not Authorized") },
            ),
            MyError::UnproccessableEntityError => (
                422,
                ErrorResponse { detail: String::from_str("Unproccessable Entity") },
            ),
            MyError::Forbidden => (403, ErrorResponse { detail: String::from_str("Forbidden") }),
            MyError::CustomError((code, text)) => (code, ErrorResponse { detail: text }),
        }
    }
}

} // verus!
