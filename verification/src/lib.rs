pub mod app;
pub mod domain;
pub mod fs;
pub mod linux_tauri_support;
pub mod paths;
pub mod text;
pub mod web;
