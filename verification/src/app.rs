use vstd::prelude::*;

use crate::domain::actions::{ActionConfig, ActionMapping};
use crate::domain::sorting::{SortDirection, SortKey, SortMode};

verus! {

/// How a session starts: the directory, queue mode, whether deletion is for
/// good, the actions of the two sides and the sort mode.
#[derive(Clone, Debug)]
pub struct AppConfig {
    pub initial_path: Option<String>,
    pub queue_mode: bool,
    pub destructive_delete: bool,
    pub action_mapping: ActionMapping,
    pub sort_mode: SortMode,
}

impl Default for AppConfig {
    /// No directory, queue mode on, deletion to the trash, left moves to
    /// `trash`, right moves to `keep`, file-system order.
    fn default() -> (res: Self)
        ensures
            res.initial_path is None,
            res.queue_mode,
            !res.destructive_delete,
            res.action_mapping.left matches ActionConfig::Move { target } && target@ == "trash"@,
            res.action_mapping.right matches ActionConfig::Move { target } && target@ == "keep"@,
            res.sort_mode == (SortMode { key: SortKey::Filesystem, direction: SortDirection::Asc }),
    {
        AppConfig {
            initial_path: None,
            queue_mode: true,
            destructive_delete: false,
            action_mapping: ActionMapping {
                left: ActionConfig::Move { target: String::from_str("trash") },
                right: ActionConfig::Move { target: String::from_str("keep") },
            },
            sort_mode: SortMode { key: SortKey::Filesystem, direction: SortDirection::Asc },
        }
    }
}

} // verus!
