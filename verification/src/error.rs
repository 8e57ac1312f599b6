//! The failure categories that the library and every frontend share.

use vstd::prelude::*;

use crate::json::{Json, JsonView};
use crate::text::same;

verus! {

/// Coarse failure categories.
#[derive(Debug, Clone, Copy, PartialEq, Eq, Structural)]
pub enum ApiErrorKind {
    /// Invalid or missing configuration.
    Config,
    /// Another turn is already executing on this session.
    Busy,
    /// The provider rejected the credentials.
    Unauthorized,
    /// The provider limited the rate of requests.
    RateLimited,
    /// The provider does not know what was asked for.
    NotFound,
    /// Access to a local resource was refused.
    Forbidden,
    /// The connection failed.
    Network,
    /// The provider's response violated the protocol.
    Protocol,
    /// Any other failure on the provider's side.
    Provider,
    /// The turn was aborted.
    Aborted,
    /// An internal invariant was violated.
    Internal,
}

/// The identifier of a category.
pub open spec fn kind_name(k: ApiErrorKind) -> Seq<char> {
    match k {
        ApiErrorKind::Config => "config"@,
        ApiErrorKind::Busy => "busy"@,
        ApiErrorKind::Unauthorized => "unauthorized"@,
        ApiErrorKind::RateLimited => "rate_limited"@,
        ApiErrorKind::NotFound => "not_found"@,
        ApiErrorKind::Forbidden => "forbidden"@,
        ApiErrorKind::Network => "network"@,
        ApiErrorKind::Protocol => "protocol"@,
        ApiErrorKind::Provider => "provider"@,
        ApiErrorKind::Aborted => "aborted"@,
        ApiErrorKind::Internal => "internal"@,
    }
}

/// The category that an identifier stands for.
pub open spec fn kind_named(s: Seq<char>) -> Option<ApiErrorKind> {
    if s == "config"@ {
        Some(ApiErrorKind::Config)
    } else if s == "busy"@ {
        Some(ApiErrorKind::Busy)
    } else if s == "unauthorized"@ {
        Some(ApiErrorKind::Unauthorized)
    } else if s == "rate_limited"@ {
        Some(ApiErrorKind::RateLimited)
    } else if s == "not_found"@ {
        Some(ApiErrorKind::NotFound)
    } else if s == "forbidden"@ {
        Some(ApiErrorKind::Forbidden)
    } else if s == "network"@ {
        Some(ApiErrorKind::Network)
    } else if s == "protocol"@ {
        Some(ApiErrorKind::Protocol)
    } else if s == "provider"@ {
        Some(ApiErrorKind::Provider)
    } else if s == "aborted"@ {
        Some(ApiErrorKind::Aborted)
    } else if s == "internal"@ {
        Some(ApiErrorKind::Internal)
    } else {
        None
    }
}

/// Every category is found again under its identifier.
pub proof fn kind_names_are_distinct(k: ApiErrorKind)
    ensures
        kind_named(kind_name(k)) == Some(k),
{
    reveal_strlit("config");
    reveal_strlit("busy");
    reveal_strlit("unauthorized");
    reveal_strlit("rate_limited");
    reveal_strlit("not_found");
    reveal_strlit("forbidden");
    reveal_strlit("network");
    reveal_strlit("protocol");
    reveal_strlit("provider");
    reveal_strlit("aborted");
    reveal_strlit("internal");
    assert("config"@.len() == 6);
    assert("busy"@.len() == 4);
    assert("unauthorized"@.len() == 12);
    assert("rate_limited"@.len() == 12);
    assert("not_found"@.len() == 9);
    assert("forbidden"@.len() == 9);
    assert("network"@.len() == 7);
    assert("protocol"@.len() == 8);
    assert("provider"@.len() == 8);
    assert("aborted"@.len() == 7);
    assert("internal"@.len() == 8);
    assert("unauthorized"@[0] != "rate_limited"@[0]);
    assert("not_found"@[0] != "forbidden"@[0]);
    assert("network"@[0] != "aborted"@[0]);
    assert("protocol"@[3] != "provider"@[3]);
    assert("protocol"@[0] != "internal"@[0]);
    assert("provider"@[0] != "internal"@[0]);
}

impl ApiErrorKind {
    /// Stable identifier, the same as on the wire.
    pub fn as_str(self) -> (r: &'static str)
        ensures
            r@ == kind_name(self),
    {
        match self {
            ApiErrorKind::Config => "config",
            ApiErrorKind::Busy => "busy",
            ApiErrorKind::Unauthorized => "unauthorized",
            ApiErrorKind::RateLimited => "rate_limited",
            ApiErrorKind::NotFound => "not_found",
            ApiErrorKind::Forbidden => "forbidden",
            ApiErrorKind::Network => "network",
            ApiErrorKind::Protocol => "protocol",
            ApiErrorKind::Provider => "provider",
            ApiErrorKind::Aborted => "aborted",
            ApiErrorKind::Internal => "internal",
        }
    }

    /// The category that an identifier stands for.
    pub fn named(s: &str) -> (r: Option<ApiErrorKind>)
        ensures
            r == kind_named(s@),
    {
        if same(s, "config") {
            Some(ApiErrorKind::Config)
        } else if same(s, "busy") {
            Some(ApiErrorKind::Busy)
        } else if same(s, "unauthorized") {
            Some(ApiErrorKind::Unauthorized)
        } else if same(s, "rate_limited") {
            Some(ApiErrorKind::RateLimited)
        } else if same(s, "not_found") {
            Some(ApiErrorKind::NotFound)
        } else if same(s, "forbidden") {
            Some(ApiErrorKind::Forbidden)
        } else if same(s, "network") {
            Some(ApiErrorKind::Network)
        } else if same(s, "protocol") {
            Some(ApiErrorKind::Protocol)
        } else if same(s, "provider") {
            Some(ApiErrorKind::Provider)
        } else if same(s, "aborted") {
            Some(ApiErrorKind::Aborted)
        } else if same(s, "internal") {
            Some(ApiErrorKind::Internal)
        } else {
            None
        }
    }

    /// The category as a JSON value.
    pub fn to_json(self) -> (r: Json)
        ensures
            r@ == JsonView::Str(kind_name(self)),
    {
        Json::of_str(self.as_str())
    }
}

/// A categorized error with a human-readable message.
#[derive(Debug, PartialEq, Eq)]
pub struct ApiError {
    pub kind: ApiErrorKind,
    pub message: String,
}

/// The content of an [`ApiError`].
#[verifier::ext_equal]
pub struct ApiErrorView {
    pub kind: ApiErrorKind,
    pub message: Seq<char>,
}

impl View for ApiError {
    type V = ApiErrorView;

    open spec fn view(&self) -> ApiErrorView {
        ApiErrorView { kind: self.kind, message: self.message@ }
    }
}

/// The error of a category with a message.
pub open spec fn failure(kind: ApiErrorKind, message: Seq<char>) -> ApiErrorView {
    ApiErrorView { kind: kind, message: message }
}

impl Clone for ApiError {
    fn clone(&self) -> (r: Self)
        ensures
            r@ == self@,
    {
        ApiError { kind: self.kind, message: self.message.clone() }
    }
}

impl ApiError {
    /// An error of the category `kind`.
    pub fn new(kind: ApiErrorKind, message: &str) -> (r: ApiError)
        ensures
            r@ == failure(kind, message@),
    {
        ApiError { kind, message: message.to_owned() }
    }

    /// A configuration error.
    pub fn config(message: &str) -> (r: ApiError)
        ensures
            r@ == failure(ApiErrorKind::Config, message@),
    {
        ApiError::new(ApiErrorKind::Config, message)
    }

    /// An internal error.
    pub fn internal(message: &str) -> (r: ApiError)
        ensures
            r@ == failure(ApiErrorKind::Internal, message@),
    {
        ApiError::new(ApiErrorKind::Internal, message)
    }

    /// The error as one line: its category and its message.
    pub fn to_text(&self) -> (r: String)
        ensures
            r@ == kind_name(self.kind) + ": "@ + self.message@,
    {
        let mut out = self.kind.as_str().to_owned();
        out.append(": ");
        out.append(self.message.as_str());
        out
    }
}

/// The content of an error that may be there.
pub open spec fn error_of(r: Result<(), ApiError>) -> Option<ApiErrorView> {
    match r {
        Ok(_) => None,
        Err(e) => Some(e@),
    }
}

} // verus!
