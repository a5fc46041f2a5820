//! What the text box reports of an event, and its styles.
use vstd::prelude::*;

verus! {

/// What a text box did with an event.
#[derive(Debug, Clone, Copy, PartialEq, Eq, Structural)]
pub enum TextBoxStatus {
    Ignored,
    Captured,
    ContentChanged,
}

#[derive(Debug, Clone, Copy, PartialEq, Eq, Structural)]
pub enum TextBoxStyle {
    Regular,
}

impl Default for TextBoxStyle {
    fn default() -> (s: TextBoxStyle)
        ensures
            s == TextBoxStyle::Regular,
    {
        TextBoxStyle::Regular
    }
}

} // verus!
