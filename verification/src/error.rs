//! The errors the knowledge base answers a request with.
use vstd::prelude::*;

verus! {

/// An error answer: a malformed request (with its message), a missing or
/// deleted document, or a failure of the store.
#[derive(Debug, PartialEq, Eq)]
pub enum ApiError {
    BadRequest(String),
    NotFound,
    Internal(String),
}

/// The mathematical value of an [`ApiError`].
pub enum ApiErrorView {
    BadRequest(Seq<char>),
    NotFound,
    Internal(Seq<char>),
}

impl View for ApiError {
    type V = ApiErrorView;

    open spec fn view(&self) -> ApiErrorView {
        match self {
            ApiError::BadRequest(m) => ApiErrorView::BadRequest(m@),
            ApiError::NotFound => ApiErrorView::NotFound,
            ApiError::Internal(m) => ApiErrorView::Internal(m@),
        }
    }
}

impl ApiError {
    /// The HTTP status code of the answer: 400, 404 or 500.
    pub fn status_code(&self) -> (res: u16)
        ensures
            res == match self@ {
                ApiErrorView::BadRequest(_) => 400u16,
                ApiErrorView::NotFound => 404u16,
                ApiErrorView::Internal(_) => 500u16,
            },
    {
        match self {
            ApiError::BadRequest(_) => 400,
            ApiError::NotFound => 404,
            ApiError::Internal(_) => 500,
        }
    }
}

/// A failed store lookup becomes "not found" when the record is missing and
/// an internal error otherwise.
pub fn store_error(record_missing: bool, message: String) -> (res: ApiError)
    ensures
        record_missing ==> res@ == ApiErrorView::NotFound,
        !record_missing ==> res@ == ApiErrorView::Internal(message@),
{
    if record_missing {
        ApiError::NotFound
    } else {
        ApiError::Internal(message)
    }
}

} // verus!
