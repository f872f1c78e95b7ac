//! Why a document could not be rendered.

use vstd::prelude::*;

verus! {

/// An error of the operating system, as `std::io` reports it. The library
/// only carries such a value.
#[verifier::external_type_specification]
#[verifier::external_body]
pub struct ExIoError(std::io::Error);

#[derive(Debug)]
pub enum Errcode {
    /// The text, or the tree made of it, is not one that can be rendered:
    /// the message says why.
    ParsingError(String),
    /// Reading the text or writing its rendering failed.
    IoError(std::io::Error),
}

impl From<std::io::Error> for Errcode {
    fn from(value: std::io::Error) -> (err: Errcode) {
        Errcode::IoError(value)
    }
}

impl vstd::std_specs::convert::FromSpecImpl<std::io::Error> for Errcode {
    open spec fn obeys_from_spec() -> bool {
        true
    }

    open spec fn from_spec(value: std::io::Error) -> Errcode {
        Errcode::IoError(value)
    }
}

} // verus!
