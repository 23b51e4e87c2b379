//! How a request is refused.

use crate::model::GenerationMismatch;
use crate::text;
use vstd::prelude::*;
use vstd::string::*;

verus! {

/// The HTTP status that a request is refused with.
#[derive(Debug, Clone, Copy, PartialEq, Eq, Structural)]
pub enum Status {
    BadRequest,
    Conflict,
}

/// A refusal, as the client sees it.
#[derive(Debug)]
pub struct ApiError {
    pub error: String,
    pub status: Status,
}

/// The mathematical content of an [`ApiError`].
#[verifier::ext_equal]
pub struct ApiErrorView {
    pub error: Seq<char>,
    pub status: Status,
}

impl DeepView for ApiError {
    type V = ApiErrorView;

    open spec fn deep_view(&self) -> ApiErrorView {
        ApiErrorView { error: self.error@, status: self.status }
    }
}

/// Why an upload comes to nothing.
#[derive(Debug)]
pub enum UploadFailure {
    /// The request is refused.
    Refused(ApiError),
    /// Something that the upload relies on failed, with this message.
    Broken(String),
}

/// The mathematical content of an [`UploadFailure`].
#[verifier::ext_equal]
pub enum UploadFailureView {
    Refused(ApiErrorView),
    Broken(Seq<char>),
}

impl DeepView for UploadFailure {
    type V = UploadFailureView;

    open spec fn deep_view(&self) -> UploadFailureView {
        match *self {
            UploadFailure::Refused(error) => UploadFailureView::Refused(error.deep_view()),
            UploadFailure::Broken(message) => UploadFailureView::Broken(message@),
        }
    }
}

/// The failure of a request that is refused as a bad one.
pub open spec fn refused_as_bad(message: Seq<char>) -> UploadFailureView {
    UploadFailureView::Refused(ApiErrorView { error: message, status: Status::BadRequest })
}

/// The failure of a request that is refused for what the room is at.
pub open spec fn refused_as_conflict(message: Seq<char>) -> UploadFailureView {
    UploadFailureView::Refused(ApiErrorView { error: message, status: Status::Conflict })
}

/// Refuses a request as a bad one.
pub fn bad_request(message: String) -> (r: ApiError)
    ensures
        r.deep_view() == (ApiErrorView { error: message@, status: Status::BadRequest }),
{
    ApiError { error: message, status: Status::BadRequest }
}

impl GenerationMismatch {
    /// The mismatches, one per line.
    pub fn to_text(&self) -> (r: String)
        ensures
            r@ == text::joined(self.0.deep_view(), "\n"@),
    {
        text::join(&self.0, "\n")
    }
}

} // verus!
