//! What a request can be refused with.
use vstd::prelude::*;

use crate::board::BoardError;

verus! {

/// Why a request was refused.
#[derive(Debug, PartialEq, Eq)]
pub enum ApiError {
    BadRequest(String),
    Conflict(String),
    Forbidden(String),
    BadGateway(String),
    Board(BoardError),
}

/// What an [`ApiError`] says.
#[verifier::ext_equal]
pub enum ApiErrorModel {
    BadRequest(Seq<char>),
    Conflict(Seq<char>),
    Forbidden(Seq<char>),
    BadGateway(Seq<char>),
    Board(BoardError),
}

impl View for ApiError {
    type V = ApiErrorModel;

    open spec fn view(&self) -> ApiErrorModel {
        match self {
            ApiError::BadRequest(m) => ApiErrorModel::BadRequest(m@),
            ApiError::Conflict(m) => ApiErrorModel::Conflict(m@),
            ApiError::Forbidden(m) => ApiErrorModel::Forbidden(m@),
            ApiError::BadGateway(m) => ApiErrorModel::BadGateway(m@),
            ApiError::Board(e) => ApiErrorModel::Board(*e),
        }
    }
}

} // verus!
