//! What the router keeps for as long as it runs.

use vstd::prelude::*;

verus! {

/// The client of a backend, by the kind of the backend.
#[derive(Debug)]
pub enum BackendTypes<O, T> {
    OpenAI(O),
    Triton(T),
}

} // verus!
