use vstd::prelude::*;

verus! {

/// Failure of a call the client made to the backend or to the provider.
#[derive(Debug)]
pub enum Error {
    /// The request failed, or was answered with a status other than 200.
    Request(Option<u16>, String),
    /// The answer had an unexpected shape.
    Deserialization,
}

/// Body of the backend's login call.
pub struct LoginParams {
    pub access_token: String,
}

/// The backend's answer to a login call.
pub struct LoginResponse {
    pub token: String,
}

/// Body of a capture call.
pub struct SendEventsParams {
    pub uri: String,
    pub is_write: bool,
    pub language: Option<String>,
    pub line_number: Option<i32>,
    pub cursor_pos: Option<i32>,
}

/// The provider's answer to a device-code request.
pub struct CreateUserCodesResponse {
    pub device_code: String,
    pub user_code: String,
    pub verification_uri: String,
    /// Seconds the device code stays valid.
    pub expires_in: i64,
    /// Seconds to wait between two polls.
    pub interval: u64,
}

/// The provider's answer to one poll of the device flow.
pub enum GetUserAuthorizedResponse {
    Success { access_token: String },
    Error { error: String },
}

/// What a capture call's HTTP status and body amount to.
pub fn capture_outcome(status: u16, body: String) -> (r: Result<(), Error>)
    ensures
        status == 200 <==> r is Ok,
        r matches Err(Error::Request(s, b)) ==> s == Some(status) && b@ == body@,
        !(r matches Err(Error::Deserialization)),
{
    if status == 200 {
        Ok(())
    } else {
        Err(Error::Request(Some(status), body))
    }
}

} // verus!
