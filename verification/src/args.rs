//! Startup arguments for the command-line front end, and the textual
//! validation of the flag values. Where an argument names a file or a
//! directory, whether it exists is the front end's concern.

use vstd::prelude::*;
use crate::text::{lower, lower_spec};

verus! {

/// Stores startup program arguments.
#[derive(Debug, PartialEq, Eq)]
pub struct Args {
    /// Path to the machine database file.
    pub mame_xml_path: String,
    /// Path to the category support file.
    pub catver_path: String,
    /// Where the original collection is; may be more than one directory.
    pub source_path: Vec<String>,
    /// Where the entries are copied to.
    pub destination_path: String,
    /// Where the run report is written, in markdown format.
    pub report_path: String,
    /// If true, not-working disk-bearing entries are not copied.
    pub ignore_not_working_chd: bool,
    /// If true, nothing is copied but the report is still produced; needs
    /// `report_path` set.
    pub simulation: bool,
    /// Only process entries whose name orders at or after this value.
    pub subset_start: String,
    /// Only process entries whose name orders at or before this value.
    pub subset_end: String,
    /// If true, show a progress bar.
    pub progress: bool,
}

impl Default for Args {
    /// The arguments with every path empty and every flag off.
    fn default() -> (r: Args)
        ensures
            r.mame_xml_path@.len() == 0,
            r.catver_path@.len() == 0,
            r.source_path@.len() == 0,
            r.destination_path@.len() == 0,
            r.report_path@.len() == 0,
            !r.ignore_not_working_chd,
            !r.simulation,
            r.subset_start@.len() == 0,
            r.subset_end@.len() == 0,
            !r.progress,
    {
        Args {
            mame_xml_path: String::new(),
            catver_path: String::new(),
            source_path: Vec::new(),
            destination_path: String::new(),
            report_path: String::new(),
            ignore_not_working_chd: false,
            simulation: false,
            subset_start: String::new(),
            subset_end: String::new(),
            progress: false,
        }
    }
}

impl Args {
    pub fn new() -> (r: Args)
        ensures
            r.mame_xml_path@.len() == 0,
            r.catver_path@.len() == 0,
            r.source_path@.len() == 0,
            r.destination_path@.len() == 0,
            r.report_path@.len() == 0,
            !r.ignore_not_working_chd,
            !r.simulation,
            r.subset_start@.len() == 0,
            r.subset_end@.len() == 0,
            !r.progress,
    {
        Args::default()
    }
}

/// Reads a case-insensitive boolean flag value: exactly `true` or `false`.
pub open spec fn bool_flag_of(v: Seq<char>) -> Option<bool> {
    if lower_spec(v) == lower_spec("true"@) {
        Some(true)
    } else if lower_spec(v) == lower_spec("false"@) {
        Some(false)
    } else {
        None
    }
}

fn parse_bool_flag(value: &str) -> (r: Option<bool>)
    ensures
        r == bool_flag_of(value@),
{
    if crate::text::eq_ignore_case(value, "true") {
        Some(true)
    } else if crate::text::eq_ignore_case(value, "false") {
        Some(false)
    } else {
        None
    }
}

pub fn validate_ignore_not_working_chd(value: &str) -> (r: Result<bool, &'static str>)
    ensures
        match r {
            Ok(b) => bool_flag_of(value@) == Some(b),
            Err(e) => bool_flag_of(value@) is None && e@
                == "Invalid value for ignore_not_working_chd. (true|false)"@,
        },
{
    match parse_bool_flag(value) {
        Some(b) => Ok(b),
        None => Err("Invalid value for ignore_not_working_chd. (true|false)"),
    }
}

pub fn validate_simulation(value: &str) -> (r: Result<bool, &'static str>)
    ensures
        match r {
            Ok(b) => bool_flag_of(value@) == Some(b),
            Err(e) => bool_flag_of(value@) is None && e@
                == "Invalid value for simulation. (true|false)"@,
        },
{
    match parse_bool_flag(value) {
        Some(b) => Ok(b),
        None => Err("Invalid value for simulation. (true|false)"),
    }
}

pub fn validate_progress(value: &str) -> (r: Result<bool, &'static str>)
    ensures
        match r {
            Ok(b) => bool_flag_of(value@) == Some(b),
            Err(e) => bool_flag_of(value@) is None && e@
                == "Invalid value for progress. (true|false)"@,
        },
{
    match parse_bool_flag(value) {
        Some(b) => Ok(b),
        None => Err("Invalid value for progress. (true|false)"),
    }
}

/// A subset bound is accepted as given, case-folded.
pub fn validate_subset(value: &str) -> (r: Result<String, &'static str>)
    ensures
        r matches Ok(s) && s@ == lower_spec(value@),
{
    Ok(lower(value))
}

} // verus!
