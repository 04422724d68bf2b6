//! What can go wrong with Linear.
use vstd::prelude::*;

use crate::text;

verus! {

/// An error of the Linear API.
#[derive(Debug, PartialEq, Eq)]
pub enum LinearError {
    /// The token is missing or wrong, or lacks permission.
    AuthFailed(String),
    /// Too many requests.
    RateLimited,
    /// What was asked for does not exist.
    NotFound(String),
    /// A request that Linear turned down for another reason.
    Api(String),
    /// The request did not get through.
    Http(String),
    /// The answer is not what it should be.
    Malformed(String),
    /// No account is configured under the key.
    UnknownAccount(String),
}

/// What a [`LinearError`] says.
#[verifier::ext_equal]
pub enum LinearErrorModel {
    AuthFailed(Seq<char>),
    RateLimited,
    NotFound(Seq<char>),
    Api(Seq<char>),
    Http(Seq<char>),
    Malformed(Seq<char>),
    UnknownAccount(Seq<char>),
}

impl View for LinearError {
    type V = LinearErrorModel;

    open spec fn view(&self) -> LinearErrorModel {
        match self {
            LinearError::AuthFailed(m) => LinearErrorModel::AuthFailed(m@),
            LinearError::RateLimited => LinearErrorModel::RateLimited,
            LinearError::NotFound(m) => LinearErrorModel::NotFound(m@),
            LinearError::Api(m) => LinearErrorModel::Api(m@),
            LinearError::Http(m) => LinearErrorModel::Http(m@),
            LinearError::Malformed(m) => LinearErrorModel::Malformed(m@),
            LinearError::UnknownAccount(m) => LinearErrorModel::UnknownAccount(m@),
        }
    }
}

impl LinearErrorModel {
    /// Whether trying again may help: only where there were too many requests, or
    /// where the request did not get through.
    pub open spec fn transient(self) -> bool {
        self is RateLimited || self is Http
    }

    /// The error in words.
    pub open spec fn words(self) -> Seq<char> {
        match self {
            LinearErrorModel::AuthFailed(m) => "Linear authentication failed: "@ + m,
            LinearErrorModel::RateLimited => "Linear rate limited"@,
            LinearErrorModel::NotFound(m) => "Linear entity not found: "@ + m,
            LinearErrorModel::Api(m) => "Linear API error: "@ + m,
            LinearErrorModel::Http(m) => "Linear request failed: "@ + m,
            LinearErrorModel::Malformed(m) => "Linear response malformed: "@ + m,
            LinearErrorModel::UnknownAccount(m) => "unknown Linear account key: "@ + m,
        }
    }
}

impl LinearError {
    /// Whether trying again may help.
    pub fn should_retry(&self) -> (r: bool)
        ensures
            r == self@.transient(),
    {
        match self {
            LinearError::RateLimited => true,
            LinearError::Http(_) => true,
            _ => false,
        }
    }

    /// The error in words.
    pub fn to_string(&self) -> (r: String)
        ensures
            r@ == self@.words(),
    {
        match self {
            LinearError::AuthFailed(m) => text::join("Linear authentication failed: ", m.as_str()),
            LinearError::RateLimited => "Linear rate limited".to_owned(),
            LinearError::NotFound(m) => text::join("Linear entity not found: ", m.as_str()),
            LinearError::Api(m) => text::join("Linear API error: ", m.as_str()),
            LinearError::Http(m) => text::join("Linear request failed: ", m.as_str()),
            LinearError::Malformed(m) => text::join("Linear response malformed: ", m.as_str()),
            LinearError::UnknownAccount(m) => text::join(
                "unknown Linear account key: ",
                m.as_str(),
            ),
        }
    }
}

} // verus!
