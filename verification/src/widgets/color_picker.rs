//! The styles of the color picker.
use vstd::prelude::*;

verus! {

#[derive(Debug, Clone, Copy, PartialEq, Eq, Structural)]
pub enum PickerStyle {
    Regular,
}

impl Default for PickerStyle {
    fn default() -> (s: PickerStyle)
        ensures
            s == PickerStyle::Regular,
    {
        PickerStyle::Regular
    }
}

} // verus!
