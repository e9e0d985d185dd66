//! The machine-record data model: per-machine facts extracted from the
//! machine database, the operational categories, and the static rule tables
//! (curated demote/promote override lists, excluded category labels).

use vstd::prelude::*;
use crate::strmap::StrMap;
use crate::text::{contains_spec, contains_substr, lower_spec, lowered_eq, str_eq};

verus! {

/// The extracted records, keyed by machine id, before classification.
pub type UnfilteredRoms = StrMap<RomData>;

/// The classified collection, keyed by machine id.
pub type Roms = StrMap<Rom>;

/// The category reference table: machine id to category label.
pub type CategoryTable = StrMap<String>;

/// Reported emulation quality of a driver or of the overall emulation.
#[derive(Clone, Copy, PartialEq, Eq, Structural, Debug)]
pub enum Status {
    Imperfect,
    Preliminary,
    Good,
}

/// The status pair of a machine: driver quality and emulation quality.
#[derive(Clone, Copy, PartialEq, Eq, Structural, Debug)]
pub struct RomStatus {
    pub driver: Status,
    pub emulation: Status,
}

/// Dump quality of a disk image; an unrecognized or missing value defaults to
/// `NoStatus`.
#[derive(Clone, Copy, PartialEq, Eq, Structural, Debug)]
pub enum ChdStatus {
    NoStatus,
    NoDump,
    BadDump,
}

/// Reported quality of one emulated feature.
#[derive(Clone, Copy, PartialEq, Eq, Structural, Debug)]
pub enum FeatureStatus {
    Imperfect,
    Unemulated,
}

/// The operational category a machine is classified into.
#[derive(Clone, Copy, PartialEq, Eq, Structural, Debug)]
pub enum RomCategory {
    Working,
    NotWorking,
    Bios,
    /// Devices and machines in system/computer-like categories.
    System,
}

/// One disk image entry of a machine.
#[derive(Debug)]
pub struct Chd {
    pub name: String,
    pub status: ChdStatus,
}

/// Mathematical value of a `Chd`.
pub struct ChdV {
    pub name: Seq<char>,
    pub status: ChdStatus,
}

impl View for Chd {
    type V = ChdV;

    open spec fn view(&self) -> ChdV {
        ChdV { name: self.name@, status: self.status }
    }
}

/// One feature entry of a machine, in document order.
#[derive(Debug)]
pub struct Feature {
    pub typ: String,
    pub status: FeatureStatus,
}

/// Mathematical value of a `Feature`.
pub struct FeatureV {
    pub typ: Seq<char>,
    pub status: FeatureStatus,
}

impl View for Feature {
    type V = FeatureV;

    open spec fn view(&self) -> FeatureV {
        FeatureV { typ: self.typ@, status: self.status }
    }
}

pub open spec fn view_opt_str(o: Option<String>) -> Option<Seq<char>> {
    match o {
        Some(s) => Some(s@),
        None => None,
    }
}

/// Immutable per-machine facts, as extracted from the machine database.
#[derive(Debug)]
pub struct RomData {
    /// Both halves present or the whole pair absent; an absent pair means the
    /// machine is unscored, not failing.
    pub status: Option<RomStatus>,
    pub is_bios: bool,
    pub is_system: bool,
    pub is_mechanical: bool,
    pub features: Vec<Feature>,
    pub clone_of: Option<String>,
    pub rom_of: Option<String>,
    pub chd: Vec<Chd>,
    /// Category label resolved from the category table; empty if absent.
    pub category: String,
}

/// Mathematical value of a `RomData`.
pub struct RomDataV {
    pub status: Option<RomStatus>,
    pub is_bios: bool,
    pub is_system: bool,
    pub is_mechanical: bool,
    pub features: Seq<FeatureV>,
    pub clone_of: Option<Seq<char>>,
    pub rom_of: Option<Seq<char>>,
    pub chd: Seq<ChdV>,
    pub category: Seq<char>,
}

impl View for RomData {
    type V = RomDataV;

    open spec fn view(&self) -> RomDataV {
        RomDataV {
            status: self.status,
            is_bios: self.is_bios,
            is_system: self.is_system,
            is_mechanical: self.is_mechanical,
            features: self.features@.map_values(|f: Feature| f@),
            clone_of: view_opt_str(self.clone_of),
            rom_of: view_opt_str(self.rom_of),
            chd: self.chd@.map_values(|c: Chd| c@),
            category: self.category@,
        }
    }
}

/// A machine together with its classification.
#[derive(Debug)]
pub struct Rom {
    pub data: RomData,
    pub category: RomCategory,
}

/// Mathematical value of a `Rom`.
pub struct RomV {
    pub data: RomDataV,
    pub category: RomCategory,
}

impl View for Rom {
    type V = RomV;

    open spec fn view(&self) -> RomV {
        RomV { data: self.data@, category: self.category }
    }
}

/// Wraps a record into its classified form.
pub trait RomDataExt: Sized {
    spec fn record_view(&self) -> RomDataV;

    fn to_working_rom(self) -> (r: Rom)
        ensures
            r@.data == self.record_view(),
            r@.category == RomCategory::Working,
    ;

    fn to_not_working_rom(self) -> (r: Rom)
        ensures
            r@.data == self.record_view(),
            r@.category == RomCategory::NotWorking,
    ;

    fn to_bios_rom(self) -> (r: Rom)
        ensures
            r@.data == self.record_view(),
            r@.category == RomCategory::Bios,
    ;

    fn to_system_rom(self) -> (r: Rom)
        ensures
            r@.data == self.record_view(),
            r@.category == RomCategory::System,
    ;
}

impl RomDataExt for RomData {
    open spec fn record_view(&self) -> RomDataV {
        self@
    }

    fn to_working_rom(self) -> (r: Rom) {
        Rom { data: self, category: RomCategory::Working }
    }

    fn to_not_working_rom(self) -> (r: Rom) {
        Rom { data: self, category: RomCategory::NotWorking }
    }

    fn to_bios_rom(self) -> (r: Rom) {
        Rom { data: self, category: RomCategory::Bios }
    }

    fn to_system_rom(self) -> (r: Rom) {
        Rom { data: self, category: RomCategory::System }
    }
}

/// The Demote List: ids that manual QA found not working even though the
/// automatic rules would accept them.
pub open spec fn in_demote_list(id: Seq<char>) -> bool {
    id == "mrchalgr"@ || id == "gamefgtr"@ || id == "pjoyn50"@ || id == "pjoys30"@
        || id == "pjoys60"@ || id == "quizard_10"@ || id == "sy888b"@
}

pub fn demote_list_contains(id: &str) -> (r: bool)
    ensures
        r == in_demote_list(id@),
{
    str_eq(id, "mrchalgr") || str_eq(id, "gamefgtr") || str_eq(id, "pjoyn50") || str_eq(
        id,
        "pjoys30",
    ) || str_eq(id, "pjoys60") || str_eq(id, "quizard_10") || str_eq(id, "sy888b")
}

/// The Promote List: ids whose machines work despite several imperfect
/// audiovisual features.
pub open spec fn in_promote_list(id: Seq<char>) -> bool {
    id == "venom"@
}

pub fn promote_list_contains(id: &str) -> (r: bool)
    ensures
        r == in_promote_list(id@),
{
    str_eq(id, "venom")
}

/// Excluded category labels: a category label that contains one of these
/// marks the machine as a system, never a game.
pub open spec fn excluded_category_spec(label: Seq<char>) -> bool {
    contains_spec(label, "System"@) || contains_spec(label, "Computer"@) || contains_spec(
        label,
        "Handheld"@,
    ) || contains_spec(label, "Board Game"@) || contains_spec(label, "Game Console"@)
        || contains_spec(label, "Calculator"@) || contains_spec(
        label,
        "Misc. / Credit Card Terminal"@,
    ) || contains_spec(label, "Misc. / Clock"@) || contains_spec(label, "Misc. / Educational"@)
        || contains_spec(label, "Misc. / Toy Robot"@) || contains_spec(
        label,
        "Misc. / Electronic"@,
    ) || contains_spec(label, "Misc. / Speech"@) || contains_spec(label, "Misc. / VTR Control"@)
        || contains_spec(label, "Music / Keyboard"@) || contains_spec(label, "Music / Audio"@)
        || contains_spec(label, "Music / Drum"@) || contains_spec(label, "Music / Instruments"@)
        || contains_spec(label, "Music / Karaoke"@) || contains_spec(label, "Music / Sequencer"@)
        || contains_spec(label, "Music / Synthesizer"@) || contains_spec(label, "Music / Tone"@)
        || contains_spec(label, "Watch / LCD Game"@) || contains_spec(label, "Tabletop"@)
        || contains_spec(label, "Utilities"@)
}

pub fn is_excluded_category(label: &str) -> (r: bool)
    ensures
        r == excluded_category_spec(label@),
{
    contains_substr(label, "System") || contains_substr(label, "Computer") || contains_substr(
        label,
        "Handheld",
    ) || contains_substr(label, "Board Game") || contains_substr(label, "Game Console")
        || contains_substr(label, "Calculator") || contains_substr(
        label,
        "Misc. / Credit Card Terminal",
    ) || contains_substr(label, "Misc. / Clock") || contains_substr(label, "Misc. / Educational")
        || contains_substr(label, "Misc. / Toy Robot") || contains_substr(
        label,
        "Misc. / Electronic",
    ) || contains_substr(label, "Misc. / Speech") || contains_substr(label, "Misc. / VTR Control")
        || contains_substr(label, "Music / Keyboard") || contains_substr(label, "Music / Audio")
        || contains_substr(label, "Music / Drum") || contains_substr(label, "Music / Instruments")
        || contains_substr(label, "Music / Karaoke") || contains_substr(
        label,
        "Music / Sequencer",
    ) || contains_substr(label, "Music / Synthesizer") || contains_substr(label, "Music / Tone")
        || contains_substr(label, "Watch / LCD Game") || contains_substr(label, "Tabletop")
        || contains_substr(label, "Utilities")
}

/// Case-insensitive reading of a status attribute value.
pub open spec fn status_of_str(s: Seq<char>) -> Option<Status> {
    if lower_spec(s) == "imperfect"@ {
        Some(Status::Imperfect)
    } else if lower_spec(s) == "preliminary"@ {
        Some(Status::Preliminary)
    } else if lower_spec(s) == "good"@ {
        Some(Status::Good)
    } else {
        None
    }
}

pub fn status_from_str(s: &str) -> (r: Option<Status>)
    ensures
        r == status_of_str(s@),
{
    if lowered_eq(s, "imperfect") {
        Some(Status::Imperfect)
    } else if lowered_eq(s, "preliminary") {
        Some(Status::Preliminary)
    } else if lowered_eq(s, "good") {
        Some(Status::Good)
    } else {
        None
    }
}

/// Case-insensitive reading of a disk status attribute value.
pub open spec fn chd_status_of_str(s: Seq<char>) -> Option<ChdStatus> {
    if lower_spec(s) == "nostatus"@ {
        Some(ChdStatus::NoStatus)
    } else if lower_spec(s) == "nodump"@ {
        Some(ChdStatus::NoDump)
    } else if lower_spec(s) == "baddump"@ {
        Some(ChdStatus::BadDump)
    } else {
        None
    }
}

pub fn chd_status_from_str(s: &str) -> (r: Option<ChdStatus>)
    ensures
        r == chd_status_of_str(s@),
{
    if lowered_eq(s, "nostatus") {
        Some(ChdStatus::NoStatus)
    } else if lowered_eq(s, "nodump") {
        Some(ChdStatus::NoDump)
    } else if lowered_eq(s, "baddump") {
        Some(ChdStatus::BadDump)
    } else {
        None
    }
}

/// Case-insensitive reading of a feature status attribute value.
pub open spec fn feature_status_of_str(s: Seq<char>) -> Option<FeatureStatus> {
    if lower_spec(s) == "imperfect"@ {
        Some(FeatureStatus::Imperfect)
    } else if lower_spec(s) == "unemulated"@ {
        Some(FeatureStatus::Unemulated)
    } else {
        None
    }
}

/// An empty attribute value is recognized by no status reader.
pub proof fn lemma_empty_not_status()
    ensures
        status_of_str(Seq::empty()) is None,
        chd_status_of_str(Seq::empty()) is None,
        feature_status_of_str(Seq::empty()) is None,
{
    reveal_strlit("imperfect");
    reveal_strlit("preliminary");
    reveal_strlit("good");
    reveal_strlit("nostatus");
    reveal_strlit("nodump");
    reveal_strlit("baddump");
    reveal_strlit("unemulated");
    assert(lower_spec(Seq::empty()).len() == 0);
}

pub fn feature_status_from_str(s: &str) -> (r: Option<FeatureStatus>)
    ensures
        r == feature_status_of_str(s@),
{
    if lowered_eq(s, "imperfect") {
        Some(FeatureStatus::Imperfect)
    } else if lowered_eq(s, "unemulated") {
        Some(FeatureStatus::Unemulated)
    } else {
        None
    }
}

} // verus!
