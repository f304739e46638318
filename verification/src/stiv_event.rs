//! What happened since the last frame was drawn.
use vstd::prelude::*;

verus! {

#[derive(Clone, Copy, Debug, PartialEq, Eq, Structural)]
pub enum StivEvent {
    NoEvent,
    TermResize,
    ZoomIn,
    ZoomOut,
    ToggleMode,
}

} // verus!
