use vstd::prelude::*;

verus! {

/// The error taxonomy of the library.
///
/// `Cast` reports malformed or unrecognized wire bytes or JSON shape, or a
/// value that cannot be converted to the requested type. `Request` carries a
/// non-success status code and message verbatim from the server. `Generic`
/// reports misuse of the API, such as closing a session twice.
#[derive(Debug, Clone, PartialEq)]
pub enum GremlinError {
    Cast(String),
    Request(i16, String),
    Generic(String),
}

pub type GremlinResult<T> = Result<T, GremlinError>;

} // verus!
