//! Curates an arcade-emulator ROM collection: machine records extracted from a
//! machine-definition database are classified into operational categories
//! (working, not working, BIOS, system), corrected by a dependency-propagation
//! pass over parent and disk-image relations, and the result drives a copy
//! planner and a run report.
//!
//! The crate is verified with Verus. File-system and process concerns (reading
//! the database, copying files, rendering the report document) live outside the
//! library; it works on plain values handed in by its caller.

pub mod args;
pub mod category;
pub mod config;
pub mod planner;
pub mod report;
pub mod roms;
pub mod service;
pub mod strmap;
pub mod text;
