//! The selection and copy planner: decides for each directory entry whether
//! it matches a classified machine, whether it is copied at all, and which
//! destination bucket it belongs to. The file-system walk and the copying
//! itself are the caller's concern.

use vstd::prelude::*;
use crate::config::{Config, ConfigV, DestinationFolders, DestinationFoldersV};
use crate::roms::{Rom, RomCategory, Roms, RomV};
use crate::text::{lower, lower_spec};

verus! {

/// A machine is disk-bearing when it has at least one disk image.
pub open spec fn rom_is_chd(r: RomV) -> bool {
    r.data.chd.len() > 0
}

/// Whether an entry is copied: everything is, unless the run ignores
/// not-working disk-bearing entries and this entry is one.
pub open spec fn should_move_spec(r: RomV, c: ConfigV) -> bool {
    if !c.ignore_not_working_chd {
        true
    } else if rom_is_chd(r) && r.category != RomCategory::Working {
        false
    } else {
        true
    }
}

/// The destination bucket of a classified machine: working or other, each
/// split by whether the machine is disk-bearing.
pub open spec fn destination_folder_spec(r: RomV, f: DestinationFoldersV) -> Seq<char> {
    if r.category == RomCategory::Working {
        if rom_is_chd(r) {
            f.chd_working
        } else {
            f.working
        }
    } else {
        if rom_is_chd(r) {
            f.chd_other
        } else {
            f.other
        }
    }
}

/// Pure planner decisions over the classified collection.
pub trait RomsExt {
    /// Both a source and a destination must be configured before any entry
    /// is planned.
    fn check_paths(config: &Config) -> (r: Result<bool, &'static str>)
        ensures
            match r {
                Ok(_) => config@.source_path.len() > 0 && config@.destination_path.len() > 0,
                Err(e) => (config@.source_path.len() == 0 && e@ == "Missing roms source path."@)
                    || (config@.source_path.len() > 0 && config@.destination_path.len() == 0 && e@
                    == "Missing roms destination path."@),
            },
    ;

    fn get_destination_folder(rom: &Rom, destination_folders: &DestinationFolders) -> (r: String)
        ensures
            r@ == destination_folder_spec(rom@, destination_folders@),
    ;

    fn should_move(rom: &Rom, config: &Config) -> (r: bool)
        ensures
            r == should_move_spec(rom@, config@),
    ;
}

impl RomsExt for Roms {
    fn check_paths(config: &Config) -> (r: Result<bool, &'static str>) {
        if config.source_path.len() == 0 {
            return Err("Missing roms source path.");
        }
        if config.destination_path.as_str().unicode_len() == 0 {
            return Err("Missing roms destination path.");
        }
        Ok(true)
    }

    fn get_destination_folder(rom: &Rom, destination_folders: &DestinationFolders) -> (r: String) {
        let is_chd = rom.data.chd.len() > 0;
        if rom.category == RomCategory::Working {
            if is_chd {
                destination_folders.chd_working.clone()
            } else {
                destination_folders.working.clone()
            }
        } else {
            if is_chd {
                destination_folders.chd_other.clone()
            } else {
                destination_folders.other.clone()
            }
        }
    }

    fn should_move(rom: &Rom, config: &Config) -> (r: bool) {
        if !config.ignore_not_working_chd {
            return true;
        }
        let is_chd = rom.data.chd.len() > 0;
        if is_chd && rom.category != RomCategory::Working {
            return false;
        }
        true
    }
}

/// The planner's decision for one directory entry.
#[derive(Debug)]
pub enum EntryPlan {
    /// No machine matches the entry's key; the entry is recorded as ignored.
    Unmatched,
    /// A machine matches but the entry is not copied.
    Skip { working: bool, is_chd: bool },
    /// The entry is copied into `destination`.
    Copy { destination: String, working: bool, is_chd: bool },
}

/// Mathematical value of an `EntryPlan`.
pub enum EntryPlanV {
    Unmatched,
    Skip { working: bool, is_chd: bool },
    Copy { destination: Seq<char>, working: bool, is_chd: bool },
}

impl View for EntryPlan {
    type V = EntryPlanV;

    open spec fn view(&self) -> EntryPlanV {
        match self {
            EntryPlan::Unmatched => EntryPlanV::Unmatched,
            EntryPlan::Skip { working, is_chd } => EntryPlanV::Skip {
                working: *working,
                is_chd: *is_chd,
            },
            EntryPlan::Copy { destination, working, is_chd } => EntryPlanV::Copy {
                destination: destination@,
                working: *working,
                is_chd: *is_chd,
            },
        }
    }
}

/// The decision for a directory entry: its lookup key is the case-folded
/// file stem; a matching machine is copied into its bucket unless the
/// configuration skips it.
pub open spec fn plan_entry_spec(
    m: Map<Seq<char>, RomV>,
    stem: Seq<char>,
    c: ConfigV,
    f: DestinationFoldersV,
) -> EntryPlanV {
    let key = lower_spec(stem);
    if !m.contains_key(key) {
        EntryPlanV::Unmatched
    } else {
        let r = m[key];
        if should_move_spec(r, c) {
            EntryPlanV::Copy {
                destination: destination_folder_spec(r, f),
                working: r.category == RomCategory::Working,
                is_chd: rom_is_chd(r),
            }
        } else {
            EntryPlanV::Skip { working: r.category == RomCategory::Working, is_chd: rom_is_chd(r) }
        }
    }
}

/// Plans one directory entry against the classified collection.
pub fn plan_entry(
    roms: &Roms,
    file_stem: &str,
    config: &Config,
    folders: &DestinationFolders,
) -> (r: EntryPlan)
    ensures
        r@ == plan_entry_spec(roms@, file_stem@, config@, folders@),
{
    let key = lower(file_stem);
    match roms.get(key.as_str()) {
        None => EntryPlan::Unmatched,
        Some(rom) => {
            let working = rom.category == RomCategory::Working;
            let is_chd = rom.data.chd.len() > 0;
            if <Roms as RomsExt>::should_move(rom, config) {
                EntryPlan::Copy {
                    destination: <Roms as RomsExt>::get_destination_folder(rom, folders),
                    working,
                    is_chd,
                }
            } else {
                EntryPlan::Skip { working, is_chd }
            }
        },
    }
}

} // verus!
