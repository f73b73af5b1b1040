//! Stable errors returned by the Coordinator boundary.
use vstd::prelude::*;

use crate::identity::AttachmentId;

verus! {

/// Stable public error categories.
#[derive(Debug, Clone, Copy, PartialEq, Eq, Structural)]
pub enum ErrorCategory {
    /// Input failed shape or semantic validation.
    InvalidInput,
    /// Session capability is absent or invalid.
    Unauthenticated,
    /// Authenticated actor lacks authority.
    Forbidden,
    /// Requested durable value does not exist.
    NotFound,
    /// Durable identity or idempotency conflict.
    Conflict,
    /// Command is invalid for the current lifecycle state.
    InvalidState,
    /// Selected Harness is offline.
    TargetOffline,
    /// Public or native version is unsupported.
    UnsupportedVersion,
    /// Repository is blocked by a Hold or lease.
    RepositoryBlocked,
    /// Native acceptance is ambiguous.
    DeliveryUnknown,
    /// Durable storage failed.
    StorageFailure,
    /// Harness Adapter failed.
    AdapterFailure,
    /// Herdr control failed.
    HerdrFailure,
}

/// Stable error returned by the Coordinator boundary.
#[derive(Debug)]
pub struct CoordinatorError {
    /// Stable machine-readable category.
    pub category: ErrorCategory,
    /// Concise diagnostic message.
    pub message: String,
    /// Optional immutable evidence Attachment.
    pub evidence: Option<AttachmentId>,
}

/// What a [`CoordinatorError`] says.
pub struct Refusal {
    pub category: ErrorCategory,
    pub message: Seq<char>,
    pub evidence: Option<AttachmentId>,
}

/// A refusal without evidence.
pub open spec fn refusal(category: ErrorCategory, message: Seq<char>) -> Refusal {
    Refusal { category, message, evidence: None }
}

impl View for CoordinatorError {
    type V = Refusal;

    open spec fn view(&self) -> Refusal {
        Refusal { category: self.category, message: self.message@, evidence: self.evidence }
    }
}

impl CoordinatorError {
    /// An error without evidence.
    pub fn new(category: ErrorCategory, message: String) -> (r: CoordinatorError)
        ensures
            r@ == refusal(category, message@),
    {
        CoordinatorError { category, message, evidence: None }
    }

    /// A failure of the durable storage.
    pub fn storage(message: String) -> (r: CoordinatorError)
        ensures
            r@ == refusal(ErrorCategory::StorageFailure, message@),
    {
        CoordinatorError::new(ErrorCategory::StorageFailure, message)
    }
}

/// An error with a fixed message.
pub fn refuse(category: ErrorCategory, message: &str) -> (r: CoordinatorError)
    ensures
        r@ == refusal(category, message@),
{
    CoordinatorError::new(category, message.to_owned())
}

/// View of a result whose error is a [`CoordinatorError`].
pub open spec fn outcome<T>(r: Result<T, CoordinatorError>) -> Result<T, Refusal> {
    match r {
        Ok(v) => Ok(v),
        Err(e) => Err(e@),
    }
}

} // verus!
