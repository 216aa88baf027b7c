//! Pixel-format negotiation and rendering-context lifecycle over an EGL-style
//! native function table.
use vstd::prelude::*;

pub mod types;
pub mod egl;
pub mod context;
pub mod laws;
pub mod software;

verus! {

} // verus!
