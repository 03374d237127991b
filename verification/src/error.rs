//! Errors of the use cases, with the stable codes that callers rely on.

use vstd::prelude::*;

use crate::domain::Permission;
use crate::text::{concat2, concat4};

verus! {

/// Why an authorization was refused.
#[derive(Debug)]
pub enum AuthzError {
    Forbidden { permission: Permission, reason: String },
    ScopeDenied { database: String, environment: String },
    ApprovalDenied { reason: String },
}

/// Why a caller could not be authenticated.
#[derive(Debug)]
pub enum AuthError {
    MissingToken,
    InvalidToken,
    TokenExpired,
    TokenRevoked,
    UserSuspended,
    OidcNotConfigured,
    OidcVerificationFailed(String),
    Internal(String),
    UserLimitReached,
    NoRolesResolved,
    InsufficientScope,
}

/// What a use case answers when it does not succeed.
#[derive(Debug)]
pub enum AppError {
    Forbidden(AuthzError),
    Auth(AuthError),
    NotFound(String),
    Conflict(String),
    Gone(String),
    Validation(String),
    PlanLimit(String),
    PayloadTooLarge(String),
    RateLimited(String),
    Internal(String),
}

/// A refusal with its texts as sequences of characters.
pub ghost enum AuthzView {
    Forbidden { permission: Permission, reason: Seq<char> },
    ScopeDenied { database: Seq<char>, environment: Seq<char> },
    ApprovalDenied { reason: Seq<char> },
}

impl View for AuthzError {
    type V = AuthzView;

    open spec fn view(&self) -> AuthzView {
        match self {
            AuthzError::Forbidden { permission, reason } => AuthzView::Forbidden {
                permission: *permission,
                reason: reason@,
            },
            AuthzError::ScopeDenied { database, environment } => AuthzView::ScopeDenied {
                database: database@,
                environment: environment@,
            },
            AuthzError::ApprovalDenied { reason } => AuthzView::ApprovalDenied { reason: reason@ },
        }
    }
}

/// An error with its message as a sequence of characters.
pub ghost enum ErrorView {
    Forbidden(AuthzView),
    Auth(AuthError),
    NotFound(Seq<char>),
    Conflict(Seq<char>),
    Gone(Seq<char>),
    Validation(Seq<char>),
    PlanLimit(Seq<char>),
    PayloadTooLarge(Seq<char>),
    RateLimited(Seq<char>),
    Internal(Seq<char>),
}

impl View for AppError {
    type V = ErrorView;

    open spec fn view(&self) -> ErrorView {
        match self {
            AppError::Forbidden(e) => ErrorView::Forbidden(e@),
            AppError::Auth(e) => ErrorView::Auth(*e),
            AppError::NotFound(m) => ErrorView::NotFound(m@),
            AppError::Conflict(m) => ErrorView::Conflict(m@),
            AppError::Gone(m) => ErrorView::Gone(m@),
            AppError::Validation(m) => ErrorView::Validation(m@),
            AppError::PlanLimit(m) => ErrorView::PlanLimit(m@),
            AppError::PayloadTooLarge(m) => ErrorView::PayloadTooLarge(m@),
            AppError::RateLimited(m) => ErrorView::RateLimited(m@),
            AppError::Internal(m) => ErrorView::Internal(m@),
        }
    }
}

impl AuthError {
    /// The stable code of the error.
    pub open spec fn code_text(self) -> Seq<char> {
        match self {
            AuthError::MissingToken => "auth.missing_token"@,
            AuthError::InvalidToken => "auth.invalid_token"@,
            AuthError::TokenExpired => "auth.token_expired"@,
            AuthError::TokenRevoked => "auth.token_revoked"@,
            AuthError::UserSuspended => "auth.user_suspended"@,
            AuthError::OidcNotConfigured => "auth.oidc_not_configured"@,
            AuthError::OidcVerificationFailed(_) => "auth.oidc_failed"@,
            AuthError::Internal(_) => "internal_error"@,
            AuthError::UserLimitReached => "policy.limit_exceeded"@,
            AuthError::NoRolesResolved => "auth.no_roles_resolved"@,
            AuthError::InsufficientScope => "auth.insufficient_scope"@,
        }
    }

    /// The stable code of the error.
    pub fn code(&self) -> (r: &'static str)
        ensures
            r@ == self.code_text(),
    {
        match self {
            AuthError::MissingToken => "auth.missing_token",
            AuthError::InvalidToken => "auth.invalid_token",
            AuthError::TokenExpired => "auth.token_expired",
            AuthError::TokenRevoked => "auth.token_revoked",
            AuthError::UserSuspended => "auth.user_suspended",
            AuthError::OidcNotConfigured => "auth.oidc_not_configured",
            AuthError::OidcVerificationFailed(_) => "auth.oidc_failed",
            AuthError::Internal(_) => "internal_error",
            AuthError::UserLimitReached => "policy.limit_exceeded",
            AuthError::NoRolesResolved => "auth.no_roles_resolved",
            AuthError::InsufficientScope => "auth.insufficient_scope",
        }
    }

    /// The message shown to a reader.
    pub open spec fn message_text(self) -> Seq<char> {
        match self {
            AuthError::MissingToken => "missing authorization header"@,
            AuthError::InvalidToken => "invalid token"@,
            AuthError::TokenExpired => "token expired"@,
            AuthError::TokenRevoked => "token revoked"@,
            AuthError::UserSuspended => "user suspended"@,
            AuthError::OidcNotConfigured => "OIDC not configured"@,
            AuthError::OidcVerificationFailed(m) => "OIDC verification failed: "@ + m@,
            AuthError::Internal(m) => "internal: "@ + m@,
            AuthError::UserLimitReached => "user limit reached"@,
            AuthError::NoRolesResolved => "no roles resolved for subject"@,
            AuthError::InsufficientScope => "scope ceiling blocks all resolved roles"@,
        }
    }

    /// The message shown to a reader.
    pub fn message(&self) -> (r: String)
        ensures
            r@ == self.message_text(),
    {
        match self {
            AuthError::MissingToken => "missing authorization header".to_string(),
            AuthError::InvalidToken => "invalid token".to_string(),
            AuthError::TokenExpired => "token expired".to_string(),
            AuthError::TokenRevoked => "token revoked".to_string(),
            AuthError::UserSuspended => "user suspended".to_string(),
            AuthError::OidcNotConfigured => "OIDC not configured".to_string(),
            AuthError::OidcVerificationFailed(m) => concat2(
                "OIDC verification failed: ",
                m.as_str(),
            ),
            AuthError::Internal(m) => concat2("internal: ", m.as_str()),
            AuthError::UserLimitReached => "user limit reached".to_string(),
            AuthError::NoRolesResolved => "no roles resolved for subject".to_string(),
            AuthError::InsufficientScope => "scope ceiling blocks all resolved roles".to_string(),
        }
    }
}

impl AuthzError {
    /// The message shown to a reader; `permission` is the name of the refused
    /// permission where there is one.
    pub open spec fn message_text(self, permission: Seq<char>) -> Seq<char> {
        match self {
            AuthzError::Forbidden { reason, .. } => "permission denied: "@ + permission + " — "@
                + reason@,
            AuthzError::ScopeDenied { database, environment } => "scope denied: "@ + database@
                + ":"@ + environment@,
            AuthzError::ApprovalDenied { reason } => "approval denied: "@ + reason@,
        }
    }

    /// The message shown to a reader; `permission` is the name of the refused
    /// permission where there is one.
    pub fn message(&self, permission: &str) -> (r: String)
        ensures
            r@ == self.message_text(permission@),
    {
        match self {
            AuthzError::Forbidden { reason, .. } => concat4(
                "permission denied: ",
                permission,
                " — ",
                reason.as_str(),
            ),
            AuthzError::ScopeDenied { database, environment } => concat4(
                "scope denied: ",
                database.as_str(),
                ":",
                environment.as_str(),
            ),
            AuthzError::ApprovalDenied { reason } => concat2("approval denied: ", reason.as_str()),
        }
    }
}

impl AppError {
    /// The stable code of the error.
    pub open spec fn code_text(self) -> Seq<char> {
        match self {
            AppError::Forbidden(_) => "forbidden"@,
            AppError::Auth(e) => e.code_text(),
            AppError::NotFound(_) => "request.not_found"@,
            AppError::Conflict(_) => "request.conflict"@,
            AppError::Gone(_) => "request.gone"@,
            AppError::Validation(_) => "validation.failed"@,
            AppError::PlanLimit(_) => "policy.limit_exceeded"@,
            AppError::PayloadTooLarge(_) => "payload.too_large"@,
            AppError::RateLimited(_) => "preflight.rate_limited"@,
            AppError::Internal(_) => "internal_error"@,
        }
    }

    /// The stable code of the error.
    pub fn code(&self) -> (r: &'static str)
        ensures
            r@ == self.code_text(),
    {
        match self {
            AppError::Forbidden(_) => "forbidden",
            AppError::Auth(e) => e.code(),
            AppError::NotFound(_) => "request.not_found",
            AppError::Conflict(_) => "request.conflict",
            AppError::Gone(_) => "request.gone",
            AppError::Validation(_) => "validation.failed",
            AppError::PlanLimit(_) => "policy.limit_exceeded",
            AppError::PayloadTooLarge(_) => "payload.too_large",
            AppError::RateLimited(_) => "preflight.rate_limited",
            AppError::Internal(_) => "internal_error",
        }
    }

    /// The message shown to a reader; `permission` names the refused permission
    /// of a `Forbidden` error.
    pub open spec fn message_text(self, permission: Seq<char>) -> Seq<char> {
        match self {
            AppError::Forbidden(e) => "forbidden: "@ + e.message_text(permission),
            AppError::Auth(e) => "authentication failed: "@ + e.message_text(),
            AppError::NotFound(m) => "not found: "@ + m@,
            AppError::Conflict(m) => "conflict: "@ + m@,
            AppError::Gone(m) => "gone: "@ + m@,
            AppError::Validation(m) => "validation: "@ + m@,
            AppError::PlanLimit(m) => "plan limit: "@ + m@,
            AppError::PayloadTooLarge(m) => "payload too large: "@ + m@,
            AppError::RateLimited(m) => "rate limited: "@ + m@,
            AppError::Internal(m) => "internal: "@ + m@,
        }
    }

    /// The message shown to a reader; `permission` names the refused permission
    /// of a `Forbidden` error.
    pub fn message(&self, permission: &str) -> (r: String)
        ensures
            r@ == self.message_text(permission@),
    {
        match self {
            AppError::Forbidden(e) => concat2("forbidden: ", e.message(permission).as_str()),
            AppError::Auth(e) => concat2("authentication failed: ", e.message().as_str()),
            AppError::NotFound(m) => concat2("not found: ", m.as_str()),
            AppError::Conflict(m) => concat2("conflict: ", m.as_str()),
            AppError::Gone(m) => concat2("gone: ", m.as_str()),
            AppError::Validation(m) => concat2("validation: ", m.as_str()),
            AppError::PlanLimit(m) => concat2("plan limit: ", m.as_str()),
            AppError::PayloadTooLarge(m) => concat2("payload too large: ", m.as_str()),
            AppError::RateLimited(m) => concat2("rate limited: ", m.as_str()),
            AppError::Internal(m) => concat2("internal: ", m.as_str()),
        }
    }
}

/// Errors go by their codes.
pub proof fn errors_go_by_their_codes(e: AppError, r: &'static str)
    requires
        call_ensures(AppError::code, (&e,), r),
    ensures
        e is Forbidden ==> r@ == "forbidden"@,
        e is NotFound ==> r@ == "request.not_found"@,
        e is Conflict ==> r@ == "request.conflict"@,
        e is Gone ==> r@ == "request.gone"@,
        e is Validation ==> r@ == "validation.failed"@,
        e is PlanLimit ==> r@ == "policy.limit_exceeded"@,
        e is PayloadTooLarge ==> r@ == "payload.too_large"@,
        e is RateLimited ==> r@ == "preflight.rate_limited"@,
        e is Internal ==> r@ == "internal_error"@,
        e matches AppError::Auth(a) ==> r@ == a.code_text(),
{
}

/// Failed authentications go by their codes.
pub proof fn failed_authentications_go_by_their_codes(e: AuthError, r: &'static str)
    requires
        call_ensures(AuthError::code, (&e,), r),
    ensures
        e is MissingToken ==> r@ == "auth.missing_token"@,
        e is InvalidToken ==> r@ == "auth.invalid_token"@,
        e is TokenExpired ==> r@ == "auth.token_expired"@,
        e is TokenRevoked ==> r@ == "auth.token_revoked"@,
        e is UserSuspended ==> r@ == "auth.user_suspended"@,
        e is OidcNotConfigured ==> r@ == "auth.oidc_not_configured"@,
        e is OidcVerificationFailed ==> r@ == "auth.oidc_failed"@,
        e is Internal ==> r@ == "internal_error"@,
        e is UserLimitReached ==> r@ == "policy.limit_exceeded"@,
        e is NoRolesResolved ==> r@ == "auth.no_roles_resolved"@,
        e is InsufficientScope ==> r@ == "auth.insufficient_scope"@,
{
}

/// Messages say the kind of error and then what is the matter.
pub proof fn messages_say_what_is_the_matter(e: AppError, permission: &str, r: String)
    requires
        call_ensures(AppError::message, (&e, permission), r),
    ensures
        e matches AppError::NotFound(m) ==> r@ == "not found: "@ + m@,
        e matches AppError::Conflict(m) ==> r@ == "conflict: "@ + m@,
        e matches AppError::Gone(m) ==> r@ == "gone: "@ + m@,
        e matches AppError::Validation(m) ==> r@ == "validation: "@ + m@,
        e matches AppError::PlanLimit(m) ==> r@ == "plan limit: "@ + m@,
        e matches AppError::PayloadTooLarge(m) ==> r@ == "payload too large: "@ + m@,
        e matches AppError::RateLimited(m) ==> r@ == "rate limited: "@ + m@,
        e matches AppError::Internal(m) ==> r@ == "internal: "@ + m@,
        e matches AppError::Forbidden(AuthzError::Forbidden { reason, .. }) ==> r@
            == "forbidden: "@ + ("permission denied: "@ + permission@ + " — "@ + reason@),
        e matches AppError::Forbidden(AuthzError::ScopeDenied { database, environment }) ==> r@
            == "forbidden: "@ + ("scope denied: "@ + database@ + ":"@ + environment@),
        e matches AppError::Forbidden(AuthzError::ApprovalDenied { reason }) ==> r@
            == "forbidden: "@ + ("approval denied: "@ + reason@),
{
}

/// Failed authentications say what failed.
pub proof fn failed_authentications_say_what_failed(e: AuthError, r: String)
    requires
        call_ensures(AuthError::message, (&e,), r),
    ensures
        e is MissingToken ==> r@ == "missing authorization header"@,
        e is InvalidToken ==> r@ == "invalid token"@,
        e is TokenExpired ==> r@ == "token expired"@,
        e is TokenRevoked ==> r@ == "token revoked"@,
        e is UserSuspended ==> r@ == "user suspended"@,
        e is OidcNotConfigured ==> r@ == "OIDC not configured"@,
        e matches AuthError::OidcVerificationFailed(m) ==> r@ == "OIDC verification failed: "@ + m@,
        e matches AuthError::Internal(m) ==> r@ == "internal: "@ + m@,
        e is UserLimitReached ==> r@ == "user limit reached"@,
        e is NoRolesResolved ==> r@ == "no roles resolved for subject"@,
        e is InsufficientScope ==> r@ == "scope ceiling blocks all resolved roles"@,
{
}

} // verus!
