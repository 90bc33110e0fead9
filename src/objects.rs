use vstd::prelude::*;

verus! {

#[verifier::external_type_specification]
#[verifier::external_body]
pub struct ExSystemTime(std::time::SystemTime);

/// What is needed to reach an S3-compatible object store.
pub struct S3Credentials {
    pub access_key: String,
    pub secret_access_key: String,
    pub session_token: Option<String>,
    pub expires_after: Option<std::time::SystemTime>,
    pub endpoint_url: String,
}

impl S3Credentials {
    /// Gathers the credentials.
    pub fn new(
        access_key: String,
        secret_access_key: String,
        session_token: Option<String>,
        expires_after: Option<std::time::SystemTime>,
        endpoint_url: String,
    ) -> (r: Self)
        ensures
            r.access_key == access_key,
            r.secret_access_key == secret_access_key,
            r.session_token == session_token,
            r.expires_after == expires_after,
            r.endpoint_url == endpoint_url,
    {
        S3Credentials { access_key, secret_access_key, session_token, expires_after, endpoint_url }
    }
}

} // verus!
