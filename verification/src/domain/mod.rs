pub mod actions;
pub mod preload;
pub mod properties;
pub mod sorting;
pub mod state;
pub mod undo;

pub use actions::{ActionConfig, ActionMapping, DecisionSide, DecisionState};
pub use sorting::{SortDirection, SortKey, SortMode};
pub use state::{App, AppMode, AppState, ImageEntry, ImageMeta, ModalView, NavEntryKind};
