//! Identity and session-lifecycle library: credential validation, peppered
//! password hashing, signed-token issuance, and a refresh-token rotation
//! protocol with reuse detection over an exactly specified session store.
#![allow(unused_imports)]
use vstd::prelude::*;

pub mod auth;
pub mod config;
pub mod urls;
pub mod utils;

verus! {

/// A request body that can check its own shape.
pub trait Validate {
    /// What it means for the body to be well-formed.
    spec fn valid(&self) -> bool;

    /// Executable shape check, exact with respect to `valid`.
    fn validate(&self) -> (r: bool)
        ensures
            r == self.valid(),
    ;
}

} // verus!
