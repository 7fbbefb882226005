use vstd::prelude::*;

verus! {

/// The image that the viewer loads ahead of the current one.
#[derive(Clone, Debug, Default)]
pub struct PreloadState {
    pub next_path: Option<String>,
}

} // verus!
