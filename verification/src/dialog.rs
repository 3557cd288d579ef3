//! What the buttons of a message box mean.
use vstd::prelude::*;

verus! {

pub const IDOK: i32 = 1;

pub const IDYES: i32 = 6;

pub const IDNO: i32 = 7;

/// The answer to a question with three ways out.
#[derive(Debug, Clone, Copy, PartialEq, Eq, Structural)]
pub enum Answer {
    Yes,
    No,
    Cancel,
}

/// Whether the button of a box with "OK" and "Cancel" means consent.
pub fn confirm(button: i32) -> (r: bool)
    ensures
        r == (button == IDOK),
{
    button == IDOK
}

/// The answer that the button of a box with "Yes", "No" and "Cancel" stands for; closing the box
/// is to cancel.
pub fn ask(button: i32) -> (r: Answer)
    ensures
        r == if button == IDYES {
            Answer::Yes
        } else if button == IDNO {
            Answer::No
        } else {
            Answer::Cancel
        },
{
    if button == IDYES {
        Answer::Yes
    } else if button == IDNO {
        Answer::No
    } else {
        Answer::Cancel
    }
}

} // verus!
