use vstd::prelude::*;

verus! {

/// The kinds of failure a session reports; none carries more detail.
#[derive(Debug, Clone, Copy, PartialEq, Eq, Structural)]
pub enum SessionError {
    PtyOpenFailed,
    SpawnFailed,
    WriteFailed,
    ReadFailed,
    ResizeFailed,
}

} // verus!
