//! The commands: what each one decides, given what was typed and what was
//! found on the machine.

pub mod clean;
pub mod cycle;
pub mod fetch;
pub mod list;
pub mod set;
pub mod uninstall;
pub mod update;
