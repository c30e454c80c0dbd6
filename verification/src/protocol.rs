//! Transport-level errors and session extraction of the WebSocket protocol.

use vstd::prelude::*;

use crate::errors::{service_error_code, service_error_message, ServiceError, ServiceErrorModel};
use crate::text::{char_vec, trim, trim_bounds};
use crate::types::Session;

verus! {

/// Errors of one protocol request.
#[derive(Debug)]
pub enum ProtocolError {
    BadRequest(String),
    Service(ServiceError),
}

pub enum ProtocolErrorModel {
    BadRequest(Seq<char>),
    Service(ServiceErrorModel),
}

impl View for ProtocolError {
    type V = ProtocolErrorModel;

    open spec fn view(&self) -> ProtocolErrorModel {
        match self {
            ProtocolError::BadRequest(m) => ProtocolErrorModel::BadRequest(m@),
            ProtocolError::Service(e) => ProtocolErrorModel::Service(e@),
        }
    }
}

impl ProtocolError {
    pub fn bad_request(message: String) -> (r: Self)
        ensures
            r@ == ProtocolErrorModel::BadRequest(message@),
    {
        ProtocolError::BadRequest(message)
    }

    /// Stable code for the error payload.
    pub fn code(&self) -> (r: String)
        ensures
            r@ == match self@ {
                ProtocolErrorModel::BadRequest(_) => "BadRequest"@,
                ProtocolErrorModel::Service(e) => service_error_code(e),
            },
    {
        match self {
            ProtocolError::BadRequest(_) => "BadRequest".to_owned(),
            ProtocolError::Service(err) => err.code(),
        }
    }

    /// Message for the error payload.
    pub fn message(&self) -> (r: String)
        ensures
            r@ == match self@ {
                ProtocolErrorModel::BadRequest(m) => m,
                ProtocolErrorModel::Service(e) => service_error_message(e),
            },
    {
        match self {
            ProtocolError::BadRequest(m) => m.clone(),
            ProtocolError::Service(err) => err.message(),
        }
    }
}

/// The session of a request: its token, unless missing or blank.
pub fn session_from(token: Option<String>) -> (r: Result<Session, ProtocolError>)
    ensures
        match token {
            Some(t) if trim(t@).len() > 0 => r matches Ok(s) && s.token@ == t@,
            _ => r matches Err(e) && e@ == ProtocolErrorModel::Service(ServiceErrorModel::InvalidSession),
        },
{
    match token {
        Some(t) => {
            let v = char_vec(t.as_str());
            let (lo, hi) = trim_bounds(&v);
            if lo < hi {
                Ok(Session::new(t))
            } else {
                Err(ProtocolError::Service(ServiceError::InvalidSession))
            }
        },
        None => Err(ProtocolError::Service(ServiceError::InvalidSession)),
    }
}

/// A service error is a protocol error.
impl From<ServiceError> for ProtocolError {
    fn from(e: ServiceError) -> (r: ProtocolError) {
        ProtocolError::Service(e)
    }
}

impl vstd::std_specs::convert::FromSpecImpl<ServiceError> for ProtocolError {
    open spec fn obeys_from_spec() -> bool {
        true
    }

    open spec fn from_spec(e: ServiceError) -> ProtocolError {
        ProtocolError::Service(e)
    }
}

} // verus!
