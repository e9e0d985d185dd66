//! Record extraction and classification: turns the machine entries of the
//! parsed database into typed records keyed by machine id, assigns each
//! machine an operational category, and demotes machines that depend on a
//! broken ancestor or a defective disk image.

use vstd::prelude::*;
use crate::roms::{
    chd_status_of_str, chd_status_from_str, demote_list_contains, excluded_category_spec,
    feature_status_of_str, feature_status_from_str, in_demote_list, in_promote_list,
    is_excluded_category, promote_list_contains, status_of_str, status_from_str, CategoryTable,
    Chd, ChdStatus, ChdV, Feature, FeatureStatus, FeatureV, Rom, RomCategory, RomData, RomDataExt,
    RomDataV, Roms, RomStatus, RomV, Status, UnfilteredRoms, view_opt_str,
};
use crate::text::{names_of, str_eq, vec_contains_str};

verus! {

/// One `driver` child of a machine element: its `status` and `emulation`
/// attributes, when present.
#[derive(Debug)]
pub struct DriverEntry {
    pub status: Option<String>,
    pub emulation: Option<String>,
}

pub struct DriverEntryV {
    pub status: Option<Seq<char>>,
    pub emulation: Option<Seq<char>>,
}

impl View for DriverEntry {
    type V = DriverEntryV;

    open spec fn view(&self) -> DriverEntryV {
        DriverEntryV { status: view_opt_str(self.status), emulation: view_opt_str(self.emulation) }
    }
}

/// One `feature` child of a machine element: its `type` attribute and its
/// `status` or `overall` attribute, when present.
#[derive(Debug)]
pub struct FeatureEntry {
    pub typ: Option<String>,
    pub status: Option<String>,
    pub overall: Option<String>,
}

pub struct FeatureEntryV {
    pub typ: Option<Seq<char>>,
    pub status: Option<Seq<char>>,
    pub overall: Option<Seq<char>>,
}

impl View for FeatureEntry {
    type V = FeatureEntryV;

    open spec fn view(&self) -> FeatureEntryV {
        FeatureEntryV {
            typ: view_opt_str(self.typ),
            status: view_opt_str(self.status),
            overall: view_opt_str(self.overall),
        }
    }
}

/// One `disk` child of a machine element: its `name` and `status` attributes,
/// when present.
#[derive(Debug)]
pub struct DiskEntry {
    pub name: Option<String>,
    pub status: Option<String>,
}

pub struct DiskEntryV {
    pub name: Option<Seq<char>>,
    pub status: Option<Seq<char>>,
}

impl View for DiskEntry {
    type V = DiskEntryV;

    open spec fn view(&self) -> DiskEntryV {
        DiskEntryV { name: view_opt_str(self.name), status: view_opt_str(self.status) }
    }
}

/// One `machine` element of the database document, reduced to the attributes
/// and child elements that extraction reads.
#[derive(Debug)]
pub struct MachineEntry {
    pub name: Option<String>,
    pub isbios: Option<String>,
    pub isdevice: Option<String>,
    pub ismechanical: Option<String>,
    pub cloneof: Option<String>,
    pub romof: Option<String>,
    pub drivers: Vec<DriverEntry>,
    pub features: Vec<FeatureEntry>,
    pub disks: Vec<DiskEntry>,
    /// Whether the element has at least one `device` child.
    pub has_device: bool,
}

pub struct MachineEntryV {
    pub name: Option<Seq<char>>,
    pub isbios: Option<Seq<char>>,
    pub isdevice: Option<Seq<char>>,
    pub ismechanical: Option<Seq<char>>,
    pub cloneof: Option<Seq<char>>,
    pub romof: Option<Seq<char>>,
    pub drivers: Seq<DriverEntryV>,
    pub features: Seq<FeatureEntryV>,
    pub disks: Seq<DiskEntryV>,
    pub has_device: bool,
}

impl View for MachineEntry {
    type V = MachineEntryV;

    open spec fn view(&self) -> MachineEntryV {
        MachineEntryV {
            name: view_opt_str(self.name),
            isbios: view_opt_str(self.isbios),
            isdevice: view_opt_str(self.isdevice),
            ismechanical: view_opt_str(self.ismechanical),
            cloneof: view_opt_str(self.cloneof),
            romof: view_opt_str(self.romof),
            drivers: self.drivers@.map_values(|d: DriverEntry| d@),
            features: self.features@.map_values(|f: FeatureEntry| f@),
            disks: self.disks@.map_values(|d: DiskEntry| d@),
            has_device: self.has_device,
        }
    }
}

/// A boolean attribute is set exactly when its value is the string `yes`.
pub open spec fn attr_is_yes(o: Option<Seq<char>>) -> bool {
    match o {
        Some(v) => v == "yes"@,
        None => false,
    }
}

fn attr_yes(o: &Option<String>) -> (r: bool)
    ensures
        r == attr_is_yes(view_opt_str(*o)),
{
    match o {
        Some(v) => str_eq(v.as_str(), "yes"),
        None => false,
    }
}

pub fn is_bios(m: &MachineEntry) -> (r: bool)
    ensures
        r == attr_is_yes(m@.isbios),
{
    attr_yes(&m.isbios)
}

pub fn is_device(m: &MachineEntry) -> (r: bool)
    ensures
        r == attr_is_yes(m@.isdevice),
{
    attr_yes(&m.isdevice)
}

/// The driver status attribute in effect: the last `status` value given by a
/// `driver` child, or empty when none gives one.
pub open spec fn eff_driver_status(ds: Seq<DriverEntryV>) -> Seq<char>
    decreases ds.len(),
{
    if ds.len() == 0 {
        Seq::empty()
    } else {
        match ds.last().status {
            Some(v) => v,
            None => eff_driver_status(ds.drop_last()),
        }
    }
}

/// The emulation status attribute in effect, as for `eff_driver_status`.
pub open spec fn eff_emulation_status(ds: Seq<DriverEntryV>) -> Seq<char>
    decreases ds.len(),
{
    if ds.len() == 0 {
        Seq::empty()
    } else {
        match ds.last().emulation {
            Some(v) => v,
            None => eff_emulation_status(ds.drop_last()),
        }
    }
}

/// The status pair of a machine: present only when both halves are reported
/// and recognized; otherwise the machine is unscored.
pub open spec fn spec_extract_status(ds: Seq<DriverEntryV>) -> Option<RomStatus> {
    let d = eff_driver_status(ds);
    let e = eff_emulation_status(ds);
    if d.len() == 0 || e.len() == 0 {
        None
    } else {
        match (status_of_str(d), status_of_str(e)) {
            (Some(a), Some(b)) => Some(RomStatus { driver: a, emulation: b }),
            _ => None,
        }
    }
}

pub fn extract_status(m: &MachineEntry) -> (r: Option<RomStatus>)
    ensures
        r == spec_extract_status(m@.drivers),
{
    let n = m.drivers.len();
    let mut driver_attr: Option<&String> = None;
    let mut emu_attr: Option<&String> = None;
    let mut i: usize = 0;
    proof {
        assert(m@.drivers.take(0) =~= Seq::<DriverEntryV>::empty());
    }
    while i < n
        invariant
            n == m.drivers@.len(),
            m@.drivers == m.drivers@.map_values(|d: DriverEntry| d@),
            i <= n,
            match driver_attr {
                Some(s) => s@ == eff_driver_status(m@.drivers.take(i as int)),
                None => eff_driver_status(m@.drivers.take(i as int)) == Seq::<char>::empty(),
            },
            match emu_attr {
                Some(s) => s@ == eff_emulation_status(m@.drivers.take(i as int)),
                None => eff_emulation_status(m@.drivers.take(i as int)) == Seq::<char>::empty(),
            },
        decreases n - i,
    {
        proof {
            assert(m@.drivers.take(i + 1).drop_last() =~= m@.drivers.take(i as int));
            assert(m@.drivers.take(i + 1).last() == m@.drivers[i as int]);
        }
        match &m.drivers[i].status {
            Some(s) => {
                driver_attr = Some(s);
            },
            None => {},
        }
        match &m.drivers[i].emulation {
            Some(s) => {
                emu_attr = Some(s);
            },
            None => {},
        }
        i += 1;
    }
    proof {
        assert(m@.drivers.take(n as int) =~= m@.drivers);
    }
    let ds = match driver_attr {
        Some(s) => s,
        None => {
            return None;
        },
    };
    let es = match emu_attr {
        Some(s) => s,
        None => {
            return None;
        },
    };
    if ds.as_str().unicode_len() == 0 || es.as_str().unicode_len() == 0 {
        return None;
    }
    match (status_from_str(ds.as_str()), status_from_str(es.as_str())) {
        (Some(a), Some(b)) => Some(RomStatus { driver: a, emulation: b }),
        _ => None,
    }
}

/// The status attribute in effect for a feature: `status` wins over
/// `overall`; empty when neither is present.
pub open spec fn eff_feature_attr(e: FeatureEntryV) -> Seq<char> {
    match e.status {
        Some(v) => v,
        None => match e.overall {
            Some(v) => v,
            None => Seq::empty(),
        },
    }
}

/// The typed feature of one feature entry; a missing type degrades to the
/// empty string and a missing or unrecognized status to `Unemulated`.
pub open spec fn feature_of_entry(e: FeatureEntryV) -> FeatureV {
    FeatureV {
        typ: match e.typ {
            Some(t) => t,
            None => Seq::empty(),
        },
        status: match feature_status_of_str(eff_feature_attr(e)) {
            Some(s) => s,
            None => FeatureStatus::Unemulated,
        },
    }
}

pub open spec fn spec_extract_features(fs: Seq<FeatureEntryV>) -> Seq<FeatureV> {
    fs.map_values(|e: FeatureEntryV| feature_of_entry(e))
}

pub fn extract_features(m: &MachineEntry) -> (r: Vec<Feature>)
    ensures
        r@.map_values(|f: Feature| f@) == spec_extract_features(m@.features),
{
    let n = m.features.len();
    let mut out: Vec<Feature> = Vec::new();
    let mut i: usize = 0;
    proof {
        assert(out@.map_values(|f: Feature| f@) =~= spec_extract_features(
            m@.features.take(0),
        ));
    }
    while i < n
        invariant
            n == m.features@.len(),
            m@.features == m.features@.map_values(|f: FeatureEntry| f@),
            i <= n,
            out@.map_values(|f: Feature| f@) == spec_extract_features(m@.features.take(i as int)),
        decreases n - i,
    {
        let e = &m.features[i];
        let typ = match &e.typ {
            Some(t) => t.clone(),
            None => String::new(),
        };
        let attr: Option<&String> = match &e.status {
            Some(s) => Some(s),
            None => match &e.overall {
                Some(o) => Some(o),
                None => None,
            },
        };
        let status = match attr {
            Some(a) => match feature_status_from_str(a.as_str()) {
                Some(st) => st,
                None => FeatureStatus::Unemulated,
            },
            None => FeatureStatus::Unemulated,
        };
        let f = Feature { typ, status };
        proof {
            crate::roms::lemma_empty_not_status();
            assert(f@ == feature_of_entry(m@.features[i as int]));
            assert(out@.push(f).map_values(|x: Feature| x@) =~= out@.map_values(
                |x: Feature| x@,
            ).push(f@));
            assert(m@.features.take(i + 1).drop_last() =~= m@.features.take(i as int));
            assert(spec_extract_features(m@.features.take(i + 1)) =~= spec_extract_features(
                m@.features.take(i as int),
            ).push(feature_of_entry(m@.features[i as int])));
        }
        out.push(f);
        i += 1;
    }
    proof {
        assert(m@.features.take(n as int) =~= m@.features);
    }
    out
}

/// The typed disk of one disk entry; a missing name degrades to the empty
/// string and a missing or unrecognized status to `NoStatus`.
pub open spec fn chd_of_entry(e: DiskEntryV) -> ChdV {
    ChdV {
        name: match e.name {
            Some(t) => t,
            None => Seq::empty(),
        },
        status: match chd_status_of_str(
            match e.status {
                Some(v) => v,
                None => Seq::empty(),
            },
        ) {
            Some(s) => s,
            None => ChdStatus::NoStatus,
        },
    }
}

pub open spec fn spec_extract_chd(ds: Seq<DiskEntryV>) -> Seq<ChdV> {
    ds.map_values(|e: DiskEntryV| chd_of_entry(e))
}

pub fn extract_chd(m: &MachineEntry) -> (r: Vec<Chd>)
    ensures
        r@.map_values(|c: Chd| c@) == spec_extract_chd(m@.disks),
{
    let n = m.disks.len();
    let mut out: Vec<Chd> = Vec::new();
    let mut i: usize = 0;
    proof {
        assert(out@.map_values(|c: Chd| c@) =~= spec_extract_chd(m@.disks.take(0)));
    }
    while i < n
        invariant
            n == m.disks@.len(),
            m@.disks == m.disks@.map_values(|d: DiskEntry| d@),
            i <= n,
            out@.map_values(|c: Chd| c@) == spec_extract_chd(m@.disks.take(i as int)),
        decreases n - i,
    {
        let e = &m.disks[i];
        let name = match &e.name {
            Some(t) => t.clone(),
            None => String::new(),
        };
        let status = match &e.status {
            Some(v) => match chd_status_from_str(v.as_str()) {
                Some(st) => st,
                None => ChdStatus::NoStatus,
            },
            None => ChdStatus::NoStatus,
        };
        let c = Chd { name, status };
        proof {
            crate::roms::lemma_empty_not_status();
            assert(c@ == chd_of_entry(m@.disks[i as int]));
            assert(out@.push(c).map_values(|x: Chd| x@) =~= out@.map_values(|x: Chd| x@).push(c@));
            assert(m@.disks.take(i + 1).drop_last() =~= m@.disks.take(i as int));
            assert(spec_extract_chd(m@.disks.take(i + 1)) =~= spec_extract_chd(
                m@.disks.take(i as int),
            ).push(chd_of_entry(m@.disks[i as int])));
        }
        out.push(c);
        i += 1;
    }
    proof {
        assert(m@.disks.take(n as int) =~= m@.disks);
    }
    out
}

/// A machine is a system when it is a device, when its category label is an
/// excluded one, or — with no category label resolved — when it has a device
/// child and no disk child.
pub open spec fn spec_is_system(
    m: MachineEntryV,
    name: Seq<char>,
    cats: Map<Seq<char>, Seq<char>>,
) -> bool {
    if attr_is_yes(m.isdevice) {
        true
    } else if cats.contains_key(name) {
        excluded_category_spec(cats[name])
    } else {
        m.has_device && m.disks.len() == 0
    }
}

pub fn is_system(m: &MachineEntry, name: &str, categories: &CategoryTable) -> (r: bool)
    ensures
        r == spec_is_system(m@, name@, categories@),
{
    if is_device(m) {
        return true;
    }
    match categories.get(name) {
        Some(label) => is_excluded_category(label.as_str()),
        None => m.has_device && m.disks.len() == 0,
    }
}

/// The category label a machine resolves to: looked up by id, empty when the
/// table has no entry.
pub open spec fn spec_category_label(name: Seq<char>, cats: Map<Seq<char>, Seq<char>>) -> Seq<
    char,
> {
    if cats.contains_key(name) {
        cats[name]
    } else {
        Seq::empty()
    }
}

/// The record extracted for one machine entry.
pub open spec fn spec_rom_data(
    m: MachineEntryV,
    name: Seq<char>,
    cats: Map<Seq<char>, Seq<char>>,
) -> RomDataV {
    RomDataV {
        status: spec_extract_status(m.drivers),
        is_bios: attr_is_yes(m.isbios),
        is_system: spec_is_system(m, name, cats),
        is_mechanical: attr_is_yes(m.ismechanical),
        features: spec_extract_features(m.features),
        clone_of: m.cloneof,
        rom_of: m.romof,
        chd: spec_extract_chd(m.disks),
        category: spec_category_label(name, cats),
    }
}

/// Every machine entry carries an identifier.
pub open spec fn all_named(ms: Seq<MachineEntry>) -> bool {
    forall|i: int| 0 <= i < ms.len() ==> (#[trigger] ms[i])@.name is Some
}

/// The mapping extracted from a machine entry sequence; a later entry with
/// the same id overrides an earlier one.
pub open spec fn spec_parse(ms: Seq<MachineEntry>, cats: Map<Seq<char>, Seq<char>>) -> Map<
    Seq<char>,
    RomDataV,
>
    decreases ms.len(),
{
    if ms.len() == 0 {
        Map::empty()
    } else {
        match ms.last()@.name {
            Some(n) => spec_parse(ms.drop_last(), cats).insert(
                n,
                spec_rom_data(ms.last()@, n, cats),
            ),
            None => spec_parse(ms.drop_last(), cats),
        }
    }
}

fn clone_opt(o: &Option<String>) -> (r: Option<String>)
    ensures
        view_opt_str(r) == view_opt_str(*o),
{
    match o {
        Some(s) => Some(s.clone()),
        None => None,
    }
}

/// Extracts one record per machine entry. Fails — rejecting the whole input —
/// exactly when some entry carries no identifier.
pub fn parse(machines: &Vec<MachineEntry>, categories: &CategoryTable) -> (r: Result<
    UnfilteredRoms,
    &'static str,
>)
    ensures
        match r {
            Ok(u) => all_named(machines@) && u@ == spec_parse(machines@, categories@),
            Err(e) => !all_named(machines@) && e@
                == "Machine with no name!!! Probably something wrong with file, aborting..."@,
        },
{
    let n = machines.len();
    let mut roms = UnfilteredRoms::new();
    let mut i: usize = 0;
    while i < n
        invariant
            n == machines@.len(),
            i <= n,
            all_named(machines@.take(i as int)),
            roms@ == spec_parse(machines@.take(i as int), categories@),
        decreases n - i,
    {
        let m = &machines[i];
        let name = match &m.name {
            Some(nm) => nm.clone(),
            None => {
                proof {
                    assert(machines@[i as int]@.name is None);
                }
                return Err("Machine with no name!!! Probably something wrong with file, aborting...");
            },
        };
        let status = extract_status(m);
        let is_bios_flag = is_bios(m);
        let is_system_flag = is_system(m, name.as_str(), categories);
        let is_mechanical = attr_yes(&m.ismechanical);
        let clone_of = clone_opt(&m.cloneof);
        let rom_of = clone_opt(&m.romof);
        let features = extract_features(m);
        let chd = extract_chd(m);
        let category = match categories.get(name.as_str()) {
            Some(v) => v.clone(),
            None => String::new(),
        };
        let data = RomData {
            status,
            is_bios: is_bios_flag,
            is_system: is_system_flag,
            is_mechanical,
            features,
            clone_of,
            rom_of,
            chd,
            category,
        };
        proof {
            assert(data@ == spec_rom_data(m@, name@, categories@));
            assert(machines@.take(i + 1).drop_last() =~= machines@.take(i as int));
            assert(machines@.take(i + 1).last() == machines@[i as int]);
        }
        roms.insert(name, data);
        i += 1;
    }
    proof {
        assert(machines@.take(n as int) =~= machines@);
    }
    Ok(roms)
}

/// A feature counts against the machine when its kind is audiovisual.
pub open spec fn is_av_feature(f: FeatureV) -> bool {
    f.typ == "sound"@ || f.typ == "graphics"@
}

/// How many features are audiovisual.
pub open spec fn av_count(fs: Seq<FeatureV>) -> nat
    decreases fs.len(),
{
    if fs.len() == 0 {
        0
    } else {
        av_count(fs.drop_last()) + if is_av_feature(fs.last()) {
            1nat
        } else {
            0
        }
    }
}

/// The feature rule: more than one audiovisual feature forces a machine to
/// `NotWorking`, unless its id is on the Promote List.
pub open spec fn feature_flag(id: Seq<char>, fs: Seq<FeatureV>) -> bool {
    !in_promote_list(id) && av_count(fs) > 1
}

/// Does the feature list disqualify this machine?
pub fn check_features_status(name: &str, features: &Vec<Feature>) -> (r: bool)
    ensures
        r == feature_flag(name@, features@.map_values(|f: Feature| f@)),
{
    if promote_list_contains(name) {
        return false;
    }
    let ghost fs = features@.map_values(|f: Feature| f@);
    let n = features.len();
    let mut invalid: usize = 0;
    let mut i: usize = 0;
    proof {
        assert(fs.take(0) =~= Seq::<FeatureV>::empty());
    }
    while i < n
        invariant
            n == features@.len(),
            fs == features@.map_values(|f: Feature| f@),
            i <= n,
            invalid <= i,
            invalid == av_count(fs.take(i as int)),
        decreases n - i,
    {
        proof {
            assert(fs.take(i + 1).drop_last() =~= fs.take(i as int));
            assert(fs.take(i + 1).last() == fs[i as int]);
        }
        let f = &features[i];
        if str_eq(f.typ.as_str(), "sound") || str_eq(f.typ.as_str(), "graphics") {
            invalid += 1;
        }
        i += 1;
    }
    proof {
        assert(fs.take(n as int) =~= fs);
    }
    invalid > 1
}

/// The initial category of a machine, from its own record alone: BIOS wins,
/// then system; a mechanical machine, a preliminary driver, a Demote List id
/// or the feature rule force `NotWorking`; otherwise good or imperfect
/// emulation means `Working`. A machine without a status pair is treated
/// defensively as not working.
pub open spec fn initial_category(id: Seq<char>, d: RomDataV) -> RomCategory {
    if d.is_bios {
        RomCategory::Bios
    } else if d.is_system {
        RomCategory::System
    } else {
        match d.status {
            None => RomCategory::NotWorking,
            Some(st) => if d.is_mechanical || st.driver == Status::Preliminary || in_demote_list(
                id,
            ) || feature_flag(id, d.features) {
                RomCategory::NotWorking
            } else if st.emulation == Status::Good || st.emulation == Status::Imperfect {
                RomCategory::Working
            } else {
                RomCategory::NotWorking
            },
        }
    }
}

/// The collection as classified by the engine, before dependency resolution.
pub open spec fn initial_roms(m: Map<Seq<char>, RomDataV>) -> Map<Seq<char>, RomV> {
    Map::new(
        |id: Seq<char>| m.contains_key(id),
        |id: Seq<char>| RomV { data: m[id], category: initial_category(id, m[id]) },
    )
}

/// Does some disk image of this machine have a defective dump?
pub open spec fn bad_disk(chd: Seq<ChdV>) -> bool {
    exists|i: int|
        0 <= i < chd.len() && ((#[trigger] chd[i]).status == ChdStatus::BadDump || chd[i].status
            == ChdStatus::NoDump)
}

pub fn has_bad_disk(chd: &Vec<Chd>) -> (r: bool)
    ensures
        r == bad_disk(chd@.map_values(|c: Chd| c@)),
{
    let ghost cs = chd@.map_values(|c: Chd| c@);
    let n = chd.len();
    let mut i: usize = 0;
    while i < n
        invariant
            n == chd@.len(),
            cs == chd@.map_values(|c: Chd| c@),
            i <= n,
            forall|j: int|
                0 <= j < i ==> (#[trigger] cs[j]).status != ChdStatus::BadDump && cs[j].status
                    != ChdStatus::NoDump,
        decreases n - i,
    {
        let st = chd[i].status;
        if st == ChdStatus::BadDump || st == ChdStatus::NoDump {
            proof {
                assert(cs[i as int].status == st);
            }
            return true;
        }
        i += 1;
    }
    false
}

/// Does walking the ancestor chain from `id` demote a dependent machine?
/// A missing ancestor is no evidence of breakage; a system or not-working
/// ancestor demotes; a BIOS ancestor demotes only when its own status pair
/// reports a preliminary half; a working ancestor passes the question on to
/// its own parent. The fuel bounds the walk over possibly cyclic data.
pub open spec fn ancestor_demotes(m: Map<Seq<char>, RomV>, id: Seq<char>, fuel: nat) -> bool
    decreases fuel,
{
    if fuel == 0 {
        false
    } else if !m.contains_key(id) {
        false
    } else {
        match m[id].category {
            RomCategory::NotWorking => true,
            RomCategory::System => true,
            RomCategory::Bios => match m[id].data.status {
                Some(st) => st.driver == Status::Preliminary || st.emulation == Status::Preliminary,
                None => false,
            },
            RomCategory::Working => match m[id].data.rom_of {
                Some(p) => ancestor_demotes(m, p, (fuel - 1) as nat),
                None => false,
            },
        }
    }
}

/// Is a working machine demoted by the dependency pass? A machine with a
/// distinct parent reference asks the ancestor walk; otherwise any defective
/// disk image demotes it.
pub open spec fn marked_for_demotion(m: Map<Seq<char>, RomV>, id: Seq<char>) -> bool {
    m.contains_key(id) && m[id].category == RomCategory::Working && {
        let d = m[id].data;
        match d.rom_of {
            Some(p) => if !(d.clone_of is Some && d.rom_of == d.clone_of) {
                ancestor_demotes(m, p, m.dom().len() + 1)
            } else {
                bad_disk(d.chd)
            },
            None => bad_disk(d.chd),
        }
    }
}

/// The category a machine ends with after classification and dependency
/// resolution.
pub open spec fn final_category(m: Map<Seq<char>, RomDataV>, id: Seq<char>) -> RomCategory {
    if marked_for_demotion(initial_roms(m), id) {
        RomCategory::NotWorking
    } else {
        initial_category(id, m[id])
    }
}

/// The fully classified collection of a record mapping.
pub open spec fn categorized(m: Map<Seq<char>, RomDataV>) -> Map<Seq<char>, RomV> {
    Map::new(
        |id: Seq<char>| m.contains_key(id),
        |id: Seq<char>| RomV { data: m[id], category: final_category(m, id) },
    )
}

/// Resolves the ancestor walk for one parent reference against the full
/// collection.
pub fn should_demote_rom(rom_of: &str, roms: &Roms) -> (r: bool)
    ensures
        r == ancestor_demotes(roms@, rom_of@, roms@.dom().len() + 1),
{
    let ghost m = roms@;
    let n = roms.len();
    let mut cur = String::from_str(rom_of);
    let mut remaining = n;
    loop
        invariant
            m == roms@,
            n == m.dom().len(),
            remaining <= n,
            ancestor_demotes(m, rom_of@, (n + 1) as nat) == ancestor_demotes(
                m,
                cur@,
                (remaining + 1) as nat,
            ),
        decreases remaining,
    {
        match roms.get(cur.as_str()) {
            None => {
                return false;
            },
            Some(rom) => {
                match rom.category {
                    RomCategory::NotWorking => {
                        return true;
                    },
                    RomCategory::System => {
                        return true;
                    },
                    RomCategory::Bios => {
                        match rom.data.status {
                            Some(st) => {
                                return st.driver == Status::Preliminary || st.emulation
                                    == Status::Preliminary;
                            },
                            None => {
                                return false;
                            },
                        }
                    },
                    RomCategory::Working => {
                        match &rom.data.rom_of {
                            Some(p) => {
                                if remaining == 0 {
                                    proof {
                                        assert(m[cur@].data.rom_of == Some(p@));
                                        assert(ancestor_demotes(m, p@, 0nat) == false);
                                        assert(ancestor_demotes(m, cur@, 1nat) == false);
                                    }
                                    return false;
                                }
                                let next = p.clone();
                                cur = next;
                                remaining -= 1;
                            },
                            None => {
                                return false;
                            },
                        }
                    },
                }
            },
        }
    }
}

/// A good machine may depend on a broken machine or a defective disk image;
/// this pass lists the working machines that must be reclassified as not
/// working.
pub fn check_roms_dependency(roms: &Roms) -> (r: Vec<String>)
    ensures
        forall|id: Seq<char>|
            #[trigger] names_of(r@).contains(id) <==> marked_for_demotion(roms@, id),
{
    let n = roms.len();
    let ghost m = roms@;
    let ghost keys = roms.keys();
    let mut out: Vec<String> = Vec::new();
    let mut i: usize = 0;
    while i < n
        invariant
            m == roms@,
            keys == roms.keys(),
            n == keys.len(),
            keys.no_duplicates(),
            forall|k: Seq<char>| keys.contains(k) <==> m.contains_key(k),
            i <= n,
            forall|id: Seq<char>|
                #[trigger] names_of(out@).contains(id) <==> exists|j: int|
                    0 <= j < i && keys[j] == id && marked_for_demotion(m, id),
        decreases n - i,
    {
        let (name, rom) = roms.entry_at(i);
        let mut mark = false;
        if rom.category == RomCategory::Working {
            match &rom.data.rom_of {
                Some(p) => {
                    let distinct = match &rom.data.clone_of {
                        Some(c) => !str_eq(p.as_str(), c.as_str()),
                        None => true,
                    };
                    if distinct {
                        mark = should_demote_rom(p.as_str(), roms);
                    } else {
                        mark = has_bad_disk(&rom.data.chd);
                    }
                },
                None => {
                    mark = has_bad_disk(&rom.data.chd);
                },
            }
        }
        proof {
            assert(mark == marked_for_demotion(m, keys[i as int]));
        }
        let ghost old_out = out@;
        if mark {
            let owned = name.clone();
            proof {
                assert(names_of(out@.push(owned)) =~= names_of(out@).push(owned@));
            }
            out.push(owned);
        }
        proof {
            assert forall|id: Seq<char>| #[trigger]
                names_of(out@).contains(id) implies exists|j: int|
                0 <= j < i + 1 && keys[j] == id && marked_for_demotion(m, id) by {
                if names_of(old_out).contains(id) {
                    let j = choose|j: int|
                        0 <= j < i && keys[j] == id && marked_for_demotion(m, id);
                    assert(0 <= j < i + 1 && keys[j] == id && marked_for_demotion(m, id));
                } else {
                    let idx = choose|idx: int|
                        0 <= idx < names_of(out@).len() && names_of(out@)[idx] == id;
                    assert(mark);
                    assert(idx == names_of(out@).len() - 1);
                    assert(id == keys[i as int]);
                    assert(0 <= i < i + 1 && keys[i as int] == id && marked_for_demotion(m, id));
                }
            }
            assert forall|id: Seq<char>|
                (exists|j: int| 0 <= j < i + 1 && keys[j] == id && marked_for_demotion(m, id))
                    implies #[trigger] names_of(out@).contains(id) by {
                let j = choose|j: int|
                    0 <= j < i + 1 && keys[j] == id && marked_for_demotion(m, id);
                if j < i {
                    assert(names_of(old_out).contains(id));
                    let idx = choose|idx: int|
                        0 <= idx < names_of(old_out).len() && names_of(old_out)[idx] == id;
                    assert(names_of(out@)[idx] == id);
                } else {
                    assert(mark);
                    assert(names_of(out@).last() == id);
                }
            }
        }
        i += 1;
    }
    proof {
        assert forall|id: Seq<char>|
            #[trigger] names_of(out@).contains(id) <==> marked_for_demotion(m, id) by {
            if marked_for_demotion(m, id) {
                assert(m.contains_key(id));
                assert(keys.contains(id));
                let j = choose|j: int| 0 <= j < keys.len() && keys[j] == id;
                assert(0 <= j < n && keys[j] == id && marked_for_demotion(m, id));
            }
        }
    }
    out
}

/// Classifies every extracted record into exactly one category and applies
/// the dependency pass.
pub trait UnfilteredRomsExt: Sized {
    spec fn records(&self) -> Map<Seq<char>, RomDataV>;

    fn categorize_roms(self) -> (r: Result<Roms, &'static str>)
        ensures
            r matches Ok(roms) && roms@ == categorized(self.records()),
    ;
}

impl UnfilteredRomsExt for UnfilteredRoms {
    open spec fn records(&self) -> Map<Seq<char>, RomDataV> {
        self@
    }

    fn categorize_roms(self) -> (r: Result<Roms, &'static str>) {
        let mut source = self;
        let ghost m0 = source@;
        let mut init = Roms::new();
        loop
            invariant
                forall|k: Seq<char>| #[trigger]
                    source@.contains_key(k) ==> m0.contains_key(k) && source@[k] == m0[k],
                forall|k: Seq<char>| #[trigger]
                    init@.contains_key(k) <==> (m0.contains_key(k) && !source@.contains_key(k)),
                forall|k: Seq<char>| #[trigger]
                    init@.contains_key(k) ==> init@[k] == (RomV {
                        data: m0[k],
                        category: initial_category(k, m0[k]),
                    }),
            ensures
                init@ == initial_roms(m0),
            decreases source@.dom().len(),
        {
            match source.pop() {
                None => {
                    proof {
                        assert forall|k: Seq<char>|
                            initial_roms(m0).contains_key(k) implies init@.contains_key(k) by {
                            assert(!source@.contains_key(k));
                        }
                        assert(init@ =~= initial_roms(m0));
                    }
                    break ;
                },
                Some((name, data)) => {
                    let ghost id = name@;
                    let rom: Rom = if data.is_bios {
                        data.to_bios_rom()
                    } else if data.is_system {
                        data.to_system_rom()
                    } else {
                        match data.status {
                            None => data.to_not_working_rom(),
                            Some(st) => {
                                let flag = check_features_status(name.as_str(), &data.features);
                                if data.is_mechanical || st.driver == Status::Preliminary
                                    || demote_list_contains(name.as_str()) || flag {
                                    data.to_not_working_rom()
                                } else if st.emulation == Status::Good || st.emulation
                                    == Status::Imperfect {
                                    data.to_working_rom()
                                } else {
                                    data.to_not_working_rom()
                                }
                            },
                        }
                    };
                    proof {
                        assert(rom@ == RomV {
                            data: m0[id],
                            category: initial_category(id, m0[id]),
                        });
                    }
                    init.insert(name, rom);
                },
            }
        }
        let to_demote = check_roms_dependency(&init);
        let ghost im = init@;
        proof {
            assert(im == initial_roms(m0));
        }
        let mut out = Roms::new();
        loop
            invariant
                forall|id: Seq<char>|
                    #[trigger] names_of(to_demote@).contains(id) <==> marked_for_demotion(im, id),
                forall|k: Seq<char>| #[trigger]
                    init@.contains_key(k) ==> im.contains_key(k) && init@[k] == im[k],
                forall|k: Seq<char>| #[trigger]
                    out@.contains_key(k) <==> (im.contains_key(k) && !init@.contains_key(k)),
                forall|k: Seq<char>| #[trigger]
                    out@.contains_key(k) ==> out@[k] == (RomV {
                        data: im[k].data,
                        category: if marked_for_demotion(im, k) {
                            RomCategory::NotWorking
                        } else {
                            im[k].category
                        },
                    }),
            ensures
                forall|k: Seq<char>| #[trigger]
                    out@.contains_key(k) <==> im.contains_key(k),
                forall|k: Seq<char>| #[trigger]
                    out@.contains_key(k) ==> out@[k] == (RomV {
                        data: im[k].data,
                        category: if marked_for_demotion(im, k) {
                            RomCategory::NotWorking
                        } else {
                            im[k].category
                        },
                    }),
            decreases init@.dom().len(),
        {
            match init.pop() {
                None => {
                    break ;
                },
                Some((name, rom)) => {
                    let demote = vec_contains_str(&to_demote, name.as_str());
                    let newrom = if demote {
                        Rom { data: rom.data, category: RomCategory::NotWorking }
                    } else {
                        rom
                    };
                    out.insert(name, newrom);
                },
            }
        }
        proof {
            assert forall|k: Seq<char>|
                categorized(m0).contains_key(k) implies out@.contains_key(k) by {}
            assert(out@ =~= categorized(m0));
        }
        Ok(out)
    }
}

/// Totality: classification yields exactly one classified machine per input
/// record — the same ids, no more and no fewer, each with its record carried
/// over unchanged.
pub proof fn lemma_categorize_total(m: Map<Seq<char>, RomDataV>)
    ensures
        categorized(m).dom() == m.dom(),
        forall|id: Seq<char>| m.contains_key(id) ==> #[trigger] categorized(m)[id].data == m[id],
{
    assert(categorized(m).dom() =~= m.dom());
}

/// Precedence: a record flagged BIOS is classified `Bios` whatever its other
/// fields hold, and stays so through dependency resolution.
pub proof fn lemma_bios_precedence(m: Map<Seq<char>, RomDataV>, id: Seq<char>)
    requires
        m.contains_key(id),
        m[id].is_bios,
    ensures
        categorized(m)[id].category == RomCategory::Bios,
{
    assert(initial_category(id, m[id]) == RomCategory::Bios);
    assert(!marked_for_demotion(initial_roms(m), id));
}

/// Demote List override: a plain machine on the Demote List is classified
/// `NotWorking` even with a good status pair and no features at all.
pub proof fn lemma_demote_list_override(m: Map<Seq<char>, RomDataV>, id: Seq<char>)
    requires
        m.contains_key(id),
        in_demote_list(id),
        !m[id].is_bios,
        !m[id].is_system,
        m[id].status == Some(RomStatus { driver: Status::Good, emulation: Status::Good }),
        m[id].features.len() == 0,
    ensures
        categorized(m)[id].category == RomCategory::NotWorking,
{
    assert(initial_category(id, m[id]) == RomCategory::NotWorking);
    assert(!marked_for_demotion(initial_roms(m), id));
}

/// Promote List bypass: a machine on the Promote List with three imperfect
/// sound features and a good status pair is still classified `Working` by the
/// engine — the feature-count rule is suppressed, the other rules still
/// apply.
pub proof fn lemma_promote_list_bypass(id: Seq<char>, d: RomDataV)
    requires
        in_promote_list(id),
        !d.is_bios,
        !d.is_system,
        !d.is_mechanical,
        d.status == Some(RomStatus { driver: Status::Good, emulation: Status::Good }),
        d.features.len() == 3,
        forall|i: int|
            0 <= i < 3 ==> (#[trigger] d.features[i]).typ == "sound"@ && d.features[i].status
                == FeatureStatus::Imperfect,
    ensures
        initial_category(id, d) == RomCategory::Working,
{
    reveal_strlit("venom");
    reveal_strlit("mrchalgr");
    reveal_strlit("gamefgtr");
    reveal_strlit("pjoyn50");
    reveal_strlit("pjoys30");
    reveal_strlit("pjoys60");
    reveal_strlit("quizard_10");
    reveal_strlit("sy888b");
    assert("venom"@.len() == 5);
    assert("mrchalgr"@.len() == 8);
    assert("gamefgtr"@.len() == 8);
    assert("pjoyn50"@.len() == 7);
    assert("pjoys30"@.len() == 7);
    assert("pjoys60"@.len() == 7);
    assert("quizard_10"@.len() == 10);
    assert("sy888b"@.len() == 6);
    assert(!in_demote_list(id));
    assert(!feature_flag(id, d.features));
}

/// Dependency demotion by disk: a working machine with no parent reference
/// but a bad-dump disk image ends classified `NotWorking`.
pub proof fn lemma_disk_demotion(m: Map<Seq<char>, RomDataV>, id: Seq<char>)
    requires
        m.contains_key(id),
        initial_category(id, m[id]) == RomCategory::Working,
        m[id].rom_of is None,
        exists|i: int|
            0 <= i < m[id].chd.len() && (#[trigger] m[id].chd[i]).status == ChdStatus::BadDump,
    ensures
        categorized(m)[id].category == RomCategory::NotWorking,
{
    let init = initial_roms(m);
    assert(init[id].category == RomCategory::Working);
    assert(bad_disk(init[id].data.chd));
    assert(marked_for_demotion(init, id));
}

/// Dependency demotion by ancestor: a working machine whose distinct parent
/// reference resolves to a machine classified `NotWorking` ends classified
/// `NotWorking` itself.
pub proof fn lemma_ancestor_demotion(m: Map<Seq<char>, RomDataV>, id: Seq<char>, parent: Seq<char>)
    requires
        m.contains_key(id),
        initial_category(id, m[id]) == RomCategory::Working,
        m[id].rom_of == Some(parent),
        m[id].clone_of != Some(parent),
        m.contains_key(parent),
        initial_category(parent, m[parent]) == RomCategory::NotWorking,
    ensures
        categorized(m)[id].category == RomCategory::NotWorking,
{
    let init = initial_roms(m);
    assert(init[parent].category == RomCategory::NotWorking);
    assert(ancestor_demotes(init, parent, init.dom().len() + 1));
    assert(marked_for_demotion(init, id));
}

/// No false demotion from a clone-only relation: a working machine whose
/// parent reference equals its clone reference is not demoted for its
/// target's sake — even a not-working target — as long as it carries no
/// defective disk of its own.
pub proof fn lemma_clone_only_not_demoted(
    m: Map<Seq<char>, RomDataV>,
    id: Seq<char>,
    parent: Seq<char>,
)
    requires
        m.contains_key(id),
        initial_category(id, m[id]) == RomCategory::Working,
        m[id].rom_of == Some(parent),
        m[id].clone_of == Some(parent),
        m.contains_key(parent),
        initial_category(parent, m[parent]) == RomCategory::NotWorking,
        forall|i: int|
            0 <= i < m[id].chd.len() ==> (#[trigger] m[id].chd[i]).status == ChdStatus::NoStatus,
    ensures
        categorized(m)[id].category == RomCategory::Working,
{
    let init = initial_roms(m);
    assert(!bad_disk(init[id].data.chd));
    assert(!marked_for_demotion(init, id));
}

} // verus!

