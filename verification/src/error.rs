//! The closed set of failure kinds surfaced by this subsystem. Only
//! `Serialization` is raised by the proof-of-knowledge-of-equality
//! protocol; the remaining kinds are shared with sibling protocols.

use vstd::prelude::*;
use ark_serialize::SerializationError;

verus! {

#[derive(Debug)]
pub enum SchnorrError {
    ExpectedSameSizeSequences(usize, usize),
    IndexOutOfBounds(usize, usize),
    InvalidResponse,
    Serialization(SerializationError),
    ValueMustNotBeEqual,
    InvalidProofOfEquality,
}

impl From<SerializationError> for SchnorrError {
    fn from(e: SerializationError) -> (r: Self) {
        SchnorrError::Serialization(e)
    }
}

impl vstd::std_specs::convert::FromSpecImpl<SerializationError> for SchnorrError {
    open spec fn obeys_from_spec() -> bool {
        true
    }

    open spec fn from_spec(e: SerializationError) -> Self {
        SchnorrError::Serialization(e)
    }
}

} // verus!
