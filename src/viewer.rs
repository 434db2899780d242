//! The display loop's decision: redraw the window while it is open and the
//! exit key is not held, close it otherwise.
use vstd::prelude::*;

verus! {

/// What the display loop does next.
#[derive(Debug, Clone, Copy, PartialEq, Eq, Structural)]
pub enum ViewerAction {
    /// Hand the pixel buffer to the window again and poll once more.
    Redraw,
    /// Leave the loop.
    Close,
}

/// The action after one poll of the window.
pub fn next_action(window_open: bool, exit_key_down: bool) -> (r: ViewerAction)
    ensures
        r == (if window_open && !exit_key_down {
            ViewerAction::Redraw
        } else {
            ViewerAction::Close
        }),
{
    if window_open && !exit_key_down {
        ViewerAction::Redraw
    } else {
        ViewerAction::Close
    }
}

} // verus!
