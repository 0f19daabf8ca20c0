use vstd::prelude::*;

verus! {

/// A key press, as far as the simulation tells keys apart.
#[derive(Clone, Copy, Debug, PartialEq, Eq, Structural)]
pub enum KeyPress {
    Space,
    Other,
}

/// The line announced when the space key is pressed.
pub const SPACE_NOTICE: &'static str = "Space pressed!";

} // verus!
