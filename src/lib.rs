//! A completion-based I/O driver core: operations are submitted by reference
//! with a caller-chosen token, and each accepted one is reported exactly once.
use vstd::prelude::*;

pub mod buf;
pub mod driver;
pub mod laws;
pub mod op;

verus! {

} // verus!
