//! How a provider call fails, with the user-facing message of each case.

use vstd::prelude::*;
use vstd::string::StringExecFns;

verus! {

/// A provider call's classified failure.
#[derive(Debug, Clone)]
pub enum ProviderError {
    /// The request never completed (network or HTTP-level failure).
    RequestFailed(String),
    /// The response body did not decode.
    ParseError(String),
    /// The provider itself reported a failure; its own words are kept.
    ProviderMsgError(String),
    /// The requested date is outside the window the provider returned.
    DateIsOutOfRange(String),
    /// An otherwise valid payload held no usable day.
    ConvertionError(String, String),
}

pub type ProviderResult<T> = Result<T, ProviderError>;

impl ProviderError {
    pub open spec fn spec_message(self) -> Seq<char> {
        match self {
            ProviderError::RequestFailed(s) => "request failed: "@ + s@,
            ProviderError::ParseError(s) => "failed to parse response: "@ + s@,
            ProviderError::ProviderMsgError(s) => "failed with msg from provider: "@ + s@,
            ProviderError::DateIsOutOfRange(s) => "provided error is out of range for provider: "@
                + s@,
            ProviderError::ConvertionError(p, e) => "failed to convert to common format response from provider: "@
                + p@ + ", e: "@ + e@,
        }
    }

    /// The user-facing message.
    pub fn message(&self) -> (r: String)
        ensures
            r@ == self.spec_message(),
    {
        match self {
            ProviderError::RequestFailed(s) => {
                let mut m = String::from_str("request failed: ");
                m.append(s.as_str());
                m
            },
            ProviderError::ParseError(s) => {
                let mut m = String::from_str("failed to parse response: ");
                m.append(s.as_str());
                m
            },
            ProviderError::ProviderMsgError(s) => {
                let mut m = String::from_str("failed with msg from provider: ");
                m.append(s.as_str());
                m
            },
            ProviderError::DateIsOutOfRange(s) => {
                let mut m = String::from_str("provided error is out of range for provider: ");
                m.append(s.as_str());
                m
            },
            ProviderError::ConvertionError(p, e) => {
                let mut m = String::from_str(
                    "failed to convert to common format response from provider: ",
                );
                m.append(p.as_str());
                m.append(", e: ");
                m.append(e.as_str());
                m
            },
        }
    }
}

} // verus!
