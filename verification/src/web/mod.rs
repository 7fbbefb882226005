//! The web interface: what each panel of the page shows (`view`), the markup
//! and the page updates (`render`), and what each command of the page does to
//! the session (`commands`). Serving, streaming and file work run outside the
//! library.

pub mod commands;
pub mod images;
pub mod render;
pub mod view;

pub use view::{AppView, ImageStackProjection, QueueItem, SidebarItem, StackCard};
