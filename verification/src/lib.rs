//! Verified core of a shell colorscheme switcher.
//!
//! The library holds the logic of the tool: deciding which source of theme
//! scripts is authoritative, deriving the catalog of theme names from file
//! names, performing the guarded state transition from the previous theme to
//! a newly requested one, and ordering the hook scripts that propagate a
//! switch to other programs.  Everything that touches the file system or
//! spawns a process is expressed as an explicit action handed to an
//! unverified driver, which reports the result back as an event.

pub mod bootstrap;
pub mod catalog;
pub mod errors;
pub mod hooks;
pub mod init;
pub mod source;
pub mod store;
pub mod switcher;
pub mod theme;
