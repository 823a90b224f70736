//! The window in which the document is shown.

use vstd::prelude::*;

verus! {

/// The extent of the window in which the document is shown.
#[derive(Clone, Copy, Debug, PartialEq, Eq, Structural)]
pub struct Size {
    pub width: u16,
    pub height: u16,
}

} // verus!
