//! The error type shared by every fallible operation.

use vstd::prelude::*;

verus! {

/// The single error that the fallible operations report.
///
/// It deliberately carries no detail: which input made a cryptographic
/// operation fail is not revealed to the caller.
#[derive(Clone, Copy, Debug, PartialEq, Eq, Structural)]
pub struct Unspecified;

} // verus!
