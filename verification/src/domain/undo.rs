use vstd::prelude::*;

use super::actions::{ActionConfig, DecisionState};

verus! {

/// How to reverse what an applied action did to the filesystem.
#[derive(Clone, Debug)]
pub enum UndoAction {
    Move { from: String, to: String },
    Rename { from: String, to: String },
    Trash { original: String, trashed: String },
    Metadata { path: String, key: String, previous: Option<String> },
}

/// What a decision replaced, so that it can be restored.
#[derive(Clone, Debug)]
pub struct UndoEntry {
    pub image_id: u64,
    pub previous_decision: DecisionState,
    pub previous_queue: Option<ActionConfig>,
    pub previous_cursor: usize,
    pub undo_action: Option<UndoAction>,
}

} // verus!
