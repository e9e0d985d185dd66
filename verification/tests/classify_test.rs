use roms_curator::roms::{
    Chd, ChdStatus, Feature, FeatureStatus, Rom, RomCategory, RomData, RomStatus, Roms, Status,
    UnfilteredRoms,
};
use roms_curator::service::UnfilteredRomsExt;

fn record(
    status: Option<RomStatus>,
    is_bios: bool,
    is_system: bool,
    is_mechanical: bool,
    features: Vec<Feature>,
    clone_of: Option<String>,
    rom_of: Option<String>,
    chd: Vec<Chd>,
) -> RomData {
    RomData {
        status,
        is_bios,
        is_system,
        is_mechanical,
        features,
        clone_of,
        rom_of,
        chd,
        category: String::new(),
    }
}

fn good_good() -> Option<RomStatus> {
    Some(RomStatus { driver: Status::Good, emulation: Status::Good })
}

fn sound_feature(status: FeatureStatus) -> Feature {
    Feature { typ: "sound".to_string(), status }
}

fn categorize(records: Vec<(&str, RomData)>) -> Roms {
    let mut unfiltered = UnfilteredRoms::new();
    for (name, data) in records {
        unfiltered.insert(name.to_string(), data);
    }
    unfiltered.categorize_roms().unwrap()
}

fn category_of(roms: &Roms, name: &str) -> RomCategory {
    roms.get(name).unwrap().category
}

#[test]
fn bios_always_wins() {
    // every other field pushed towards a different category
    let data = record(
        Some(RomStatus { driver: Status::Preliminary, emulation: Status::Preliminary }),
        true,
        true,
        true,
        vec![sound_feature(FeatureStatus::Unemulated), sound_feature(FeatureStatus::Unemulated)],
        Some("other".to_string()),
        Some("other".to_string()),
        vec![Chd { name: "d".to_string(), status: ChdStatus::BadDump }],
    );
    let roms = categorize(vec![("aristmk6", data)]);
    assert_eq!(category_of(&roms, "aristmk6"), RomCategory::Bios);
}

#[test]
fn system_wins_over_status() {
    let data = record(good_good(), false, true, false, Vec::new(), None, None, Vec::new());
    let roms = categorize(vec![("a24play", data)]);
    assert_eq!(category_of(&roms, "a24play"), RomCategory::System);
}

#[test]
fn demote_list_forces_not_working() {
    // good status pair, zero features: the Demote List still wins
    let data = record(good_good(), false, false, false, Vec::new(), None, None, Vec::new());
    let roms = categorize(vec![("mrchalgr", data)]);
    assert_eq!(category_of(&roms, "mrchalgr"), RomCategory::NotWorking);
}

#[test]
fn promote_list_bypasses_feature_rule() {
    let features = vec![
        sound_feature(FeatureStatus::Imperfect),
        sound_feature(FeatureStatus::Imperfect),
        sound_feature(FeatureStatus::Imperfect),
    ];
    let data = record(good_good(), false, false, false, features, None, None, Vec::new());
    let roms = categorize(vec![("venom", data)]);
    assert_eq!(category_of(&roms, "venom"), RomCategory::Working);
}

#[test]
fn promote_list_does_not_bypass_other_rules() {
    // mechanical still forces NotWorking, even for a Promote List id
    let data = record(good_good(), false, false, true, Vec::new(), None, None, Vec::new());
    let roms = categorize(vec![("venom", data)]);
    assert_eq!(category_of(&roms, "venom"), RomCategory::NotWorking);
}

#[test]
fn single_audiovisual_feature_keeps_working() {
    let data = record(
        Some(RomStatus { driver: Status::Imperfect, emulation: Status::Good }),
        false,
        false,
        false,
        vec![sound_feature(FeatureStatus::Imperfect)],
        None,
        None,
        Vec::new(),
    );
    let roms = categorize(vec![("solo", data)]);
    assert_eq!(category_of(&roms, "solo"), RomCategory::Working);
}

#[test]
fn two_audiovisual_features_force_not_working() {
    let features = vec![
        sound_feature(FeatureStatus::Imperfect),
        Feature { typ: "graphics".to_string(), status: FeatureStatus::Imperfect },
    ];
    let data = record(
        Some(RomStatus { driver: Status::Imperfect, emulation: Status::Good }),
        false,
        false,
        false,
        features,
        None,
        None,
        Vec::new(),
    );
    let roms = categorize(vec![("duo", data)]);
    assert_eq!(category_of(&roms, "duo"), RomCategory::NotWorking);
}

#[test]
fn preliminary_driver_forces_not_working() {
    let data = record(
        Some(RomStatus { driver: Status::Preliminary, emulation: Status::Good }),
        false,
        false,
        false,
        Vec::new(),
        None,
        None,
        Vec::new(),
    );
    let roms = categorize(vec![("prelim", data)]);
    assert_eq!(category_of(&roms, "prelim"), RomCategory::NotWorking);
}

#[test]
fn missing_status_is_treated_as_not_working() {
    let data = record(None, false, false, false, Vec::new(), None, None, Vec::new());
    let roms = categorize(vec![("unscored", data)]);
    assert_eq!(category_of(&roms, "unscored"), RomCategory::NotWorking);
}

#[test]
fn bad_disk_demotes_working_machine() {
    let data = record(
        good_good(),
        false,
        false,
        false,
        Vec::new(),
        None,
        None,
        vec![Chd { name: "img".to_string(), status: ChdStatus::BadDump }],
    );
    let roms = categorize(vec![("diskgame", data)]);
    assert_eq!(category_of(&roms, "diskgame"), RomCategory::NotWorking);
}

#[test]
fn nodump_disk_demotes_working_machine() {
    let data = record(
        good_good(),
        false,
        false,
        false,
        Vec::new(),
        None,
        None,
        vec![Chd { name: "img".to_string(), status: ChdStatus::NoDump }],
    );
    let roms = categorize(vec![("nodump", data)]);
    assert_eq!(category_of(&roms, "nodump"), RomCategory::NotWorking);
}

#[test]
fn clean_disk_keeps_working_machine() {
    let data = record(
        good_good(),
        false,
        false,
        false,
        Vec::new(),
        None,
        None,
        vec![Chd { name: "img".to_string(), status: ChdStatus::NoStatus }],
    );
    let roms = categorize(vec![("area51", data)]);
    assert_eq!(category_of(&roms, "area51"), RomCategory::Working);
}

#[test]
fn broken_parent_demotes_working_machine() {
    let parent = record(
        Some(RomStatus { driver: Status::Preliminary, emulation: Status::Preliminary }),
        false,
        false,
        false,
        Vec::new(),
        None,
        None,
        Vec::new(),
    );
    let child = record(
        good_good(),
        false,
        false,
        false,
        Vec::new(),
        None,
        Some("parent".to_string()),
        Vec::new(),
    );
    let roms = categorize(vec![("parent", parent), ("child", child)]);
    assert_eq!(category_of(&roms, "parent"), RomCategory::NotWorking);
    assert_eq!(category_of(&roms, "child"), RomCategory::NotWorking);
}

#[test]
fn clone_only_relation_does_not_demote() {
    let parent = record(
        Some(RomStatus { driver: Status::Preliminary, emulation: Status::Preliminary }),
        false,
        false,
        false,
        Vec::new(),
        None,
        None,
        Vec::new(),
    );
    let clone = record(
        good_good(),
        false,
        false,
        false,
        Vec::new(),
        Some("parent".to_string()),
        Some("parent".to_string()),
        Vec::new(),
    );
    let roms = categorize(vec![("parent", parent), ("clone", clone)]);
    assert_eq!(category_of(&roms, "clone"), RomCategory::Working);
}

#[test]
fn clone_only_relation_still_demoted_by_own_bad_disk() {
    let parent = record(
        Some(RomStatus { driver: Status::Preliminary, emulation: Status::Preliminary }),
        false,
        false,
        false,
        Vec::new(),
        None,
        None,
        Vec::new(),
    );
    let clone = record(
        good_good(),
        false,
        false,
        false,
        Vec::new(),
        Some("parent".to_string()),
        Some("parent".to_string()),
        vec![Chd { name: "img".to_string(), status: ChdStatus::BadDump }],
    );
    let roms = categorize(vec![("parent", parent), ("clone", clone)]);
    assert_eq!(category_of(&roms, "clone"), RomCategory::NotWorking);
}

#[test]
fn working_ancestor_chain_propagates_demotion() {
    // grandparent broken, parent working and pointing at it, child working:
    // the walk through the working parent demotes the child too
    let grandparent = record(
        Some(RomStatus { driver: Status::Preliminary, emulation: Status::Preliminary }),
        false,
        false,
        false,
        Vec::new(),
        None,
        None,
        Vec::new(),
    );
    let parent = record(
        good_good(),
        false,
        false,
        false,
        Vec::new(),
        None,
        Some("grand".to_string()),
        Vec::new(),
    );
    let child = record(
        good_good(),
        false,
        false,
        false,
        Vec::new(),
        None,
        Some("mid".to_string()),
        Vec::new(),
    );
    let roms = categorize(vec![("grand", grandparent), ("mid", parent), ("child", child)]);
    assert_eq!(category_of(&roms, "grand"), RomCategory::NotWorking);
    assert_eq!(category_of(&roms, "mid"), RomCategory::NotWorking);
    assert_eq!(category_of(&roms, "child"), RomCategory::NotWorking);
}

#[test]
fn unknown_ancestor_is_no_evidence() {
    let child = record(
        good_good(),
        false,
        false,
        false,
        Vec::new(),
        None,
        Some("missing".to_string()),
        Vec::new(),
    );
    let roms = categorize(vec![("orphan", child)]);
    assert_eq!(category_of(&roms, "orphan"), RomCategory::Working);
}

#[test]
fn bios_ancestor_demotes_only_when_preliminary() {
    let good_bios = record(good_good(), true, false, false, Vec::new(), None, None, Vec::new());
    let bad_bios = record(
        Some(RomStatus { driver: Status::Preliminary, emulation: Status::Good }),
        true,
        false,
        false,
        Vec::new(),
        None,
        None,
        Vec::new(),
    );
    let child_of_good = record(
        good_good(),
        false,
        false,
        false,
        Vec::new(),
        None,
        Some("goodbios".to_string()),
        Vec::new(),
    );
    let child_of_bad = record(
        good_good(),
        false,
        false,
        false,
        Vec::new(),
        None,
        Some("badbios".to_string()),
        Vec::new(),
    );
    let roms = categorize(vec![
        ("goodbios", good_bios),
        ("badbios", bad_bios),
        ("luckychild", child_of_good),
        ("sadchild", child_of_bad),
    ]);
    assert_eq!(category_of(&roms, "luckychild"), RomCategory::Working);
    assert_eq!(category_of(&roms, "sadchild"), RomCategory::NotWorking);
}

#[test]
fn end_to_end_feature_rule_flip() {
    // one sound feature, driver imperfect, emulation good: Working
    let one = record(
        Some(RomStatus { driver: Status::Imperfect, emulation: Status::Good }),
        false,
        false,
        false,
        vec![sound_feature(FeatureStatus::Imperfect)],
        None,
        None,
        Vec::new(),
    );
    // the same record with a second, graphics, feature: NotWorking
    let two = record(
        Some(RomStatus { driver: Status::Imperfect, emulation: Status::Good }),
        false,
        false,
        false,
        vec![
            sound_feature(FeatureStatus::Imperfect),
            Feature { typ: "graphics".to_string(), status: FeatureStatus::Imperfect },
        ],
        None,
        None,
        Vec::new(),
    );
    let roms = categorize(vec![("first", one), ("second", two)]);
    assert_eq!(category_of(&roms, "first"), RomCategory::Working);
    assert_eq!(category_of(&roms, "second"), RomCategory::NotWorking);
}

#[test]
fn categorize_is_total_over_records() {
    let a = record(good_good(), false, false, false, Vec::new(), None, None, Vec::new());
    let b = record(None, false, true, false, Vec::new(), None, None, Vec::new());
    let c = record(good_good(), true, false, false, Vec::new(), None, None, Vec::new());
    let roms = categorize(vec![("a", a), ("b", b), ("c", c)]);
    assert_eq!(roms.len(), 3);
    assert!(roms.contains_key("a"));
    assert!(roms.contains_key("b"));
    assert!(roms.contains_key("c"));
    assert!(!roms.contains_key("d"));
}

#[test]
fn categorize_empty_collection_is_empty() {
    let roms = categorize(Vec::new());
    assert_eq!(roms.len(), 0);
    assert!(roms.is_empty());
}

#[test]
fn record_data_is_carried_over_unchanged() {
    let data = record(
        good_good(),
        false,
        false,
        false,
        vec![sound_feature(FeatureStatus::Imperfect)],
        Some("elevator".to_string()),
        Some("elevator".to_string()),
        Vec::new(),
    );
    let roms = categorize(vec![("elevatora", data)]);
    let rom: &Rom = roms.get("elevatora").unwrap();
    assert_eq!(rom.data.status, good_good());
    assert_eq!(rom.data.clone_of, Some("elevator".to_string()));
    assert_eq!(rom.data.rom_of, Some("elevator".to_string()));
    assert_eq!(rom.data.features.len(), 1);
    assert_eq!(rom.data.features[0].typ, "sound");
}
