//! Names of the debug overlay's shapes.

use vstd::prelude::*;

verus! {

/// A shape the debug overlay can draw.
#[derive(Clone, Copy, Debug, PartialEq, Eq, Structural, Hash)]
pub enum ModelName {
    Cube,
    Line,
}

} // verus!
