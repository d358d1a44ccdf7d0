//! What can be wrong with an object of the cluster.
use vstd::prelude::*;
use crate::model::Model;

verus! {

/// Why an object of the cluster cannot be handled.
#[derive(Debug, PartialEq, Eq)]
pub enum ControllerError {
    InvalidPayload(String),
}

/// What a [`ControllerError`] holds.
#[verifier::ext_equal]
pub enum ControllerErrorView {
    InvalidPayload(Seq<char>),
}

impl DeepView for ControllerError {
    type V = ControllerErrorView;

    open spec fn deep_view(&self) -> ControllerErrorView {
        match self {
            ControllerError::InvalidPayload(x0) => ControllerErrorView::InvalidPayload(x0.deep_view()),
        }
    }
}

impl Model for ControllerError {
    fn dup(&self) -> (r: Self) {
        match self {
            ControllerError::InvalidPayload(x0) => ControllerError::InvalidPayload(x0.dup()),
        }
    }

    fn same(&self, other: &Self) -> (r: bool) {
        match (self, other) {
            (ControllerError::InvalidPayload(x0), ControllerError::InvalidPayload(x0_)) => x0.same(x0_),
        }
    }
}

} // verus!
