//! How a request fails: over a malformed identifier, over a provider, or for
//! a reason of its own.

use vstd::prelude::*;
use vstd::string::*;

use crate::provider::{ProviderError, ProviderErrorModel};
use crate::uri::{UriError, UriErrorModel};

verus! {

/// Why a request failed.
#[derive(Clone, Debug, PartialEq, Eq)]
pub enum Failure {
    Uri(UriError),
    Provider(ProviderError),
    Refused(String),
}

/// A failure as plain values.
pub enum FailureModel {
    Uri(UriErrorModel),
    Provider(ProviderErrorModel),
    Refused(Seq<char>),
}

impl View for Failure {
    type V = FailureModel;

    open spec fn view(&self) -> FailureModel {
        match *self {
            Failure::Uri(error) => FailureModel::Uri(error@),
            Failure::Provider(error) => FailureModel::Provider(error@),
            Failure::Refused(message) => FailureModel::Refused(message@),
        }
    }
}

/// The failure of an input that no provider would take.
pub open spec fn bad_input(field: Seq<char>, message: Seq<char>) -> FailureModel {
    FailureModel::Provider(ProviderErrorModel::InvalidInput { field, message })
}

/// The failure of something that a provider does not offer.
pub open spec fn not_offered(operation: Seq<char>) -> FailureModel {
    FailureModel::Provider(ProviderErrorModel::Unsupported { operation })
}

impl Failure {
    pub fn invalid_input(field: &str, message: &str) -> (r: Self)
        ensures
            r@ == bad_input(field@, message@),
    {
        Failure::Provider(ProviderError::invalid_input(field, message))
    }

    pub fn refused(message: &str) -> (r: Self)
        ensures
            r@ == FailureModel::Refused(message@),
    {
        Failure::Refused(message.to_owned())
    }

    /// The sentence that the failure is shown as.
    pub fn message(&self) -> (r: String)
        ensures
            r@ == match self@ {
                FailureModel::Uri(error) => error.sentence(),
                FailureModel::Provider(error) => error.sentence(),
                FailureModel::Refused(message) => message,
            },
    {
        match self {
            Failure::Uri(error) => error.message(),
            Failure::Provider(error) => error.message(),
            Failure::Refused(message) => message.clone(),
        }
    }
}

} // verus!
