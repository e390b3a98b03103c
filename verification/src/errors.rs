//! Error classification and the external error envelope.  Every failure is
//! classified once, at the point of detection, and mapped to a wire code, an
//! HTTP status and a retry hint.

use vstd::prelude::*;

verus! {

use vstd::string::StringExecFns;

#[derive(Clone, Copy, Debug, PartialEq, Eq, Structural)]
pub enum ErrorCode {
    AliasUnknown,
    UnsupportedSchema,
    InvalidApproval,
    InvalidRequest,
    PolicyDeny,
    BudgetExceeded,
    CatalogUnavailable,
    UpstreamUnavailable,
    PlanningFailed,
    InternalError,
}

/// The wire name of an error code.
pub open spec fn code_str_spec(code: ErrorCode) -> Seq<char> {
    match code {
        ErrorCode::AliasUnknown => "ALIAS_UNKNOWN"@,
        ErrorCode::UnsupportedSchema => "UNSUPPORTED_SCHEMA"@,
        ErrorCode::InvalidApproval => "INVALID_APPROVAL"@,
        ErrorCode::InvalidRequest => "INVALID_REQUEST"@,
        ErrorCode::PolicyDeny => "POLICY_DENY"@,
        ErrorCode::BudgetExceeded => "BUDGET_EXCEEDED"@,
        ErrorCode::CatalogUnavailable => "CATALOG_UNAVAILABLE"@,
        ErrorCode::UpstreamUnavailable => "UPSTREAM_UNAVAILABLE"@,
        ErrorCode::PlanningFailed => "PLANNING_FAILED"@,
        ErrorCode::InternalError => "INTERNAL_ERROR"@,
    }
}

/// The HTTP status an error code maps to.
pub open spec fn status_spec(code: ErrorCode) -> u16 {
    match code {
        ErrorCode::AliasUnknown => 404u16,
        ErrorCode::UnsupportedSchema => 409u16,
        ErrorCode::InvalidApproval => 403u16,
        ErrorCode::InvalidRequest => 400u16,
        ErrorCode::PolicyDeny => 409u16,
        ErrorCode::BudgetExceeded => 402u16,
        ErrorCode::CatalogUnavailable => 503u16,
        ErrorCode::UpstreamUnavailable => 502u16,
        ErrorCode::PlanningFailed => 500u16,
        ErrorCode::InternalError => 500u16,
    }
}

/// The retry hint an error code carries, in milliseconds.
pub open spec fn retry_hint_spec(code: ErrorCode) -> u64 {
    match code {
        ErrorCode::AliasUnknown => 0u64,
        ErrorCode::UnsupportedSchema => 0u64,
        ErrorCode::InvalidApproval => 0u64,
        ErrorCode::InvalidRequest => 0u64,
        ErrorCode::PolicyDeny => 0u64,
        ErrorCode::BudgetExceeded => 120000u64,
        ErrorCode::CatalogUnavailable => 60000u64,
        ErrorCode::UpstreamUnavailable => 60000u64,
        ErrorCode::PlanningFailed => 60000u64,
        ErrorCode::InternalError => 60000u64,
    }
}

impl ErrorCode {
    pub fn as_str(&self) -> (r: &'static str)
        ensures
            r@ == code_str_spec(*self),
    {
        match self {
            ErrorCode::AliasUnknown => "ALIAS_UNKNOWN",
            ErrorCode::UnsupportedSchema => "UNSUPPORTED_SCHEMA",
            ErrorCode::InvalidApproval => "INVALID_APPROVAL",
            ErrorCode::InvalidRequest => "INVALID_REQUEST",
            ErrorCode::PolicyDeny => "POLICY_DENY",
            ErrorCode::BudgetExceeded => "BUDGET_EXCEEDED",
            ErrorCode::CatalogUnavailable => "CATALOG_UNAVAILABLE",
            ErrorCode::UpstreamUnavailable => "UPSTREAM_UNAVAILABLE",
            ErrorCode::PlanningFailed => "PLANNING_FAILED",
            ErrorCode::InternalError => "INTERNAL_ERROR",
        }
    }

    pub fn status(&self) -> (r: u16)
        ensures
            r == status_spec(*self),
    {
        match self {
            ErrorCode::AliasUnknown => 404,
            ErrorCode::UnsupportedSchema => 409,
            ErrorCode::InvalidApproval => 403,
            ErrorCode::InvalidRequest => 400,
            ErrorCode::PolicyDeny => 409,
            ErrorCode::BudgetExceeded => 402,
            ErrorCode::CatalogUnavailable => 503,
            ErrorCode::UpstreamUnavailable => 502,
            ErrorCode::PlanningFailed => 500,
            ErrorCode::InternalError => 500,
        }
    }

    pub fn retry_hint_ms(&self) -> (r: u64)
        ensures
            r == retry_hint_spec(*self),
    {
        match self {
            ErrorCode::AliasUnknown => 0,
            ErrorCode::UnsupportedSchema => 0,
            ErrorCode::InvalidApproval => 0,
            ErrorCode::InvalidRequest => 0,
            ErrorCode::PolicyDeny => 0,
            ErrorCode::BudgetExceeded => 120000,
            ErrorCode::CatalogUnavailable => 60000,
            ErrorCode::UpstreamUnavailable => 60000,
            ErrorCode::PlanningFailed => 60000,
            ErrorCode::InternalError => 60000,
        }
    }
}

#[derive(Clone, Debug)]
pub struct ErrorContext {
    pub request_id: Option<String>,
    pub policy_rev: Option<String>,
}

impl Default for ErrorContext {
    fn default() -> (r: Self)
        ensures
            r.request_id is None,
            r.policy_rev is None,
    {
        ErrorContext { request_id: None, policy_rev: None }
    }
}

#[derive(Clone, Debug)]
pub enum RouterError {
    UnknownModel(String),
    UnknownAlias(String),
    UnsupportedSchema { provided: String, supported: Vec<String> },
    InvalidApproval(String),
    InvalidRequest(String),
    PolicyDeny(String),
    BudgetExceeded(String),
    CatalogUnavailable(String),
    UpstreamUnavailable(String),
    Planning(String),
}

/// The code an error is classified under.
pub open spec fn code_of(err: RouterError) -> ErrorCode {
    match err {
        RouterError::UnknownAlias(_) => ErrorCode::AliasUnknown,
        RouterError::UnsupportedSchema { .. } => ErrorCode::UnsupportedSchema,
        RouterError::InvalidApproval(_) => ErrorCode::InvalidApproval,
        RouterError::InvalidRequest(_) => ErrorCode::InvalidRequest,
        RouterError::PolicyDeny(_) => ErrorCode::PolicyDeny,
        RouterError::BudgetExceeded(_) => ErrorCode::BudgetExceeded,
        RouterError::CatalogUnavailable(_) => ErrorCode::CatalogUnavailable,
        RouterError::UpstreamUnavailable(_) => ErrorCode::UpstreamUnavailable,
        RouterError::Planning(_) => ErrorCode::PlanningFailed,
        RouterError::UnknownModel(_) => ErrorCode::InternalError,
    }
}

/// Human-readable description of an error: a fixed phrase for the class,
/// followed by the detail it was raised with.
pub open spec fn message_spec(err: RouterError) -> Seq<char> {
    match err {
        RouterError::UnknownModel(d) => "catalog missing model: "@ + d@,
        RouterError::UnknownAlias(d) => "alias not registered: "@ + d@,
        RouterError::UnsupportedSchema { provided, .. } => "schema version unsupported: "@
            + provided@,
        RouterError::InvalidApproval(d) => "invalid approval token: "@ + d@,
        RouterError::InvalidRequest(d) => "invalid request: "@ + d@,
        RouterError::PolicyDeny(d) => "policy denied: "@ + d@,
        RouterError::BudgetExceeded(d) => "budget exceeded: "@ + d@,
        RouterError::CatalogUnavailable(d) => "catalog unavailable: "@ + d@,
        RouterError::UpstreamUnavailable(d) => "upstream unavailable: "@ + d@,
        RouterError::Planning(d) => "routing failed: "@ + d@,
    }
}

impl RouterError {
    pub fn code(&self) -> (r: ErrorCode)
        ensures
            r == code_of(*self),
    {
        match self {
            RouterError::UnknownAlias(_) => ErrorCode::AliasUnknown,
            RouterError::UnsupportedSchema { .. } => ErrorCode::UnsupportedSchema,
            RouterError::InvalidApproval(_) => ErrorCode::InvalidApproval,
            RouterError::InvalidRequest(_) => ErrorCode::InvalidRequest,
            RouterError::PolicyDeny(_) => ErrorCode::PolicyDeny,
            RouterError::BudgetExceeded(_) => ErrorCode::BudgetExceeded,
            RouterError::CatalogUnavailable(_) => ErrorCode::CatalogUnavailable,
            RouterError::UpstreamUnavailable(_) => ErrorCode::UpstreamUnavailable,
            RouterError::Planning(_) => ErrorCode::PlanningFailed,
            RouterError::UnknownModel(_) => ErrorCode::InternalError,
        }
    }

    pub fn retry_hint_ms(&self) -> (r: u64)
        ensures
            r == retry_hint_spec(code_of(*self)),
    {
        self.code().retry_hint_ms()
    }

    pub fn supported_versions(&self) -> (r: Option<&Vec<String>>)
        ensures
            match *self {
                RouterError::UnsupportedSchema { supported, .. } => r matches Some(v) && *v
                    == supported,
                _ => r is None,
            },
    {
        match self {
            RouterError::UnsupportedSchema { supported, .. } => Some(supported),
            _ => None,
        }
    }

    /// The error's description, as carried in the envelope's `message` field.
    pub fn message(&self) -> (r: String)
        ensures
            r@ == message_spec(*self),
    {
        match self {
            RouterError::UnknownModel(d) => String::from_str("catalog missing model: ").concat(
                d.as_str(),
            ),
            RouterError::UnknownAlias(d) => String::from_str("alias not registered: ").concat(
                d.as_str(),
            ),
            RouterError::UnsupportedSchema { provided, .. } => String::from_str(
                "schema version unsupported: ",
            ).concat(provided.as_str()),
            RouterError::InvalidApproval(d) => String::from_str("invalid approval token: ").concat(
                d.as_str(),
            ),
            RouterError::InvalidRequest(d) => String::from_str("invalid request: ").concat(
                d.as_str(),
            ),
            RouterError::PolicyDeny(d) => String::from_str("policy denied: ").concat(d.as_str()),
            RouterError::BudgetExceeded(d) => String::from_str("budget exceeded: ").concat(
                d.as_str(),
            ),
            RouterError::CatalogUnavailable(d) => String::from_str("catalog unavailable: ").concat(
                d.as_str(),
            ),
            RouterError::UpstreamUnavailable(d) => String::from_str(
                "upstream unavailable: ",
            ).concat(d.as_str()),
            RouterError::Planning(d) => String::from_str("routing failed: ").concat(d.as_str()),
        }
    }
}

/// Copy a vector of strings, preserving its contents.
pub fn dup_strings(v: &Vec<String>) -> (r: Vec<String>)
    ensures
        r@ == v@,
{
    let mut out: Vec<String> = Vec::new();
    let mut i: usize = 0;
    while i < v.len()
        invariant
            i <= v@.len(),
            out@ =~= v@.subrange(0, i as int),
        decreases v@.len() - i,
    {
        out.push(v[i].clone());
        i = i + 1;
    }
    proof {
        assert(v@.subrange(0, v@.len() as int) =~= v@);
    }
    out
}

/// An error joined with the request context it is reported under.
#[derive(Clone, Debug)]
pub struct ApiError {
    pub inner: RouterError,
    pub context: ErrorContext,
}

impl ApiError {
    pub fn new(inner: RouterError) -> (r: Self)
        ensures
            r.inner == inner,
            r.context.request_id is None,
            r.context.policy_rev is None,
    {
        ApiError { inner, context: ErrorContext { request_id: None, policy_rev: None } }
    }

    pub fn with_context(inner: RouterError, context: ErrorContext) -> (r: Self)
        ensures
            r.inner == inner,
            r.context == context,
    {
        ApiError { inner, context }
    }

    pub fn context(self, ctx: ErrorContext) -> (r: Self)
        ensures
            r.inner == self.inner,
            r.context == ctx,
    {
        ApiError { inner: self.inner, context: ctx }
    }

    pub fn status_code(&self) -> (r: u16)
        ensures
            r == status_spec(code_of(self.inner)),
    {
        self.inner.code().status()
    }
}

/// Attach request id and policy revision to an error.
pub fn with_context(err: RouterError, request_id: Option<String>, policy_rev: Option<String>) -> (r:
    ApiError)
    ensures
        r.inner == err,
        r.context.request_id == request_id,
        r.context.policy_rev == policy_rev,
{
    ApiError::with_context(err, ErrorContext { request_id, policy_rev })
}

/// The JSON error envelope, one shape for every error response.
#[derive(Clone, Debug)]
pub struct ErrorBody {
    pub schema_version: String,
    pub code: String,
    pub message: String,
    pub request_id: String,
    pub policy_rev: String,
    pub retry_hint_ms: u64,
    pub supported: Option<Vec<String>>,
}

/// Build the error envelope for an error in its context: the code's wire name,
/// the message, the request id and policy revision (or "unknown"), the code's
/// retry hint, and the supported schemas for schema errors.
pub fn error_body(err: &ApiError) -> (r: ErrorBody)
    ensures
        r.schema_version@ == "1.1"@,
        r.code@ == code_str_spec(code_of(err.inner)),
        r.message@ == message_spec(err.inner),
        r.request_id@ == match err.context.request_id {
            Some(id) => id@,
            None => "unknown"@,
        },
        r.policy_rev@ == match err.context.policy_rev {
            Some(rev) => rev@,
            None => "unknown"@,
        },
        r.retry_hint_ms == retry_hint_spec(code_of(err.inner)),
        match err.inner {
            RouterError::UnsupportedSchema { supported, .. } => r.supported matches Some(v) && v@
                == supported@,
            _ => r.supported is None,
        },
{
    let request_id = match &err.context.request_id {
        Some(id) => id.clone(),
        None => String::from_str("unknown"),
    };
    let policy_rev = match &err.context.policy_rev {
        Some(rev) => rev.clone(),
        None => String::from_str("unknown"),
    };
    let supported = match &err.inner {
        RouterError::UnsupportedSchema { supported, .. } => Some(dup_strings(supported)),
        _ => None,
    };
    ErrorBody {
        schema_version: String::from_str("1.1"),
        code: String::from_str(err.inner.code().as_str()),
        message: err.inner.message(),
        request_id,
        policy_rev,
        retry_hint_ms: err.inner.retry_hint_ms(),
        supported,
    }
}

} // verus!
