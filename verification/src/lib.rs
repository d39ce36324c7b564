//! Wallpaper collection manager: the catalog, selection and scheduling rules,
//! stated over plain strings and proved.

pub mod catalog;
pub mod commands;
pub mod config;
pub mod cycle;
pub mod paths;
pub mod prompt;
pub mod selector;
pub mod sync;
pub mod text;
pub mod version;
