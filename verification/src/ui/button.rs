use vstd::prelude::*;

verus! {

/// What a button does when pressed.
#[derive(PartialEq, Eq, Structural, Clone, Copy, Debug)]
pub enum ButtonType {
    Close,
    Open,
}

} // verus!
