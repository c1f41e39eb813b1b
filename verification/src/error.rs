//! Error kinds surfaced by the registry and its modules.

use vstd::prelude::*;

verus! {

/// Every failure the registry core or a transport layer can report.
///
/// Construction-time errors (`MissingCredential`, `DuplicateModuleName`) are
/// fatal to building a usable registry. Per-call errors leave the registry
/// and all modules in their prior valid state. `TransportError`, `HttpError`
/// and `Cancelled` are reported by the embedding application's transport
/// layer; only `TransportError` is worth retrying.
#[derive(Clone, Copy, Debug, PartialEq, Eq, Structural)]
pub enum ApiError {
    /// The base URL or the API key was empty at registry construction.
    MissingCredential,
    /// Two module configurations in the catalog share a name.
    DuplicateModuleName,
    /// No module with the requested name exists in the registry.
    ModuleNotFound,
    /// The parameter name is not among the module's declared parameters.
    UnknownParameter,
    /// The request could not be carried out (connection, timeout, TLS).
    TransportError,
    /// The remote answered with the contained non-success status code.
    HttpError(u16),
    /// The caller cancelled the request before it completed.
    Cancelled,
}

/// The description text for each error kind.
pub open spec fn description_of(e: ApiError) -> Seq<char> {
    match e {
        ApiError::MissingCredential => "base URL or API key is missing"@,
        ApiError::DuplicateModuleName => "duplicate module name in catalog"@,
        ApiError::ModuleNotFound => "no module with that name"@,
        ApiError::UnknownParameter => "no declared parameter with that name"@,
        ApiError::TransportError => "transport failure"@,
        ApiError::HttpError(_) => "non-success HTTP status"@,
        ApiError::Cancelled => "request cancelled"@,
    }
}

impl ApiError {
    /// A short human-readable description of the error.
    pub fn describe(&self) -> (r: &'static str)
        ensures
            r@ == description_of(*self),
            r@.len() > 0,
    {
        proof {
            reveal_strlit("base URL or API key is missing");
            reveal_strlit("duplicate module name in catalog");
            reveal_strlit("no module with that name");
            reveal_strlit("no declared parameter with that name");
            reveal_strlit("transport failure");
            reveal_strlit("non-success HTTP status");
            reveal_strlit("request cancelled");
        }
        match self {
            ApiError::MissingCredential => "base URL or API key is missing",
            ApiError::DuplicateModuleName => "duplicate module name in catalog",
            ApiError::ModuleNotFound => "no module with that name",
            ApiError::UnknownParameter => "no declared parameter with that name",
            ApiError::TransportError => "transport failure",
            ApiError::HttpError(_) => "non-success HTTP status",
            ApiError::Cancelled => "request cancelled",
        }
    }
}

} // verus!
