use roms_curator::category::build_category_list;
use roms_curator::roms::{
    chd_status_from_str, feature_status_from_str, status_from_str, CategoryTable, ChdStatus,
    FeatureStatus, RomCategory, Status, UnfilteredRoms,
};
use roms_curator::service::{
    parse, DiskEntry, DriverEntry, FeatureEntry, MachineEntry, UnfilteredRomsExt,
};

fn machine(name: Option<&str>) -> MachineEntry {
    MachineEntry {
        name: name.map(|s| s.to_string()),
        isbios: None,
        isdevice: None,
        ismechanical: None,
        cloneof: None,
        romof: None,
        drivers: Vec::new(),
        features: Vec::new(),
        disks: Vec::new(),
        has_device: false,
    }
}

fn driver(status: Option<&str>, emulation: Option<&str>) -> DriverEntry {
    DriverEntry {
        status: status.map(|s| s.to_string()),
        emulation: emulation.map(|s| s.to_string()),
    }
}

fn empty_table() -> CategoryTable {
    build_category_list("")
}

#[test]
fn parse_fails_on_machine_without_name() {
    let machines = vec![machine(Some("ok")), machine(None)];
    let result = parse(&machines, &empty_table());
    assert!(matches!(
        result,
        Err("Machine with no name!!! Probably something wrong with file, aborting...")
    ));
}

#[test]
fn parse_reads_attributes_and_children() {
    let mut m = machine(Some("robocop"));
    m.ismechanical = Some("no".to_string());
    m.cloneof = Some("robocopa".to_string());
    m.romof = Some("robocopa".to_string());
    m.drivers = vec![driver(Some("imperfect"), Some("good"))];
    m.features = vec![FeatureEntry {
        typ: Some("sound".to_string()),
        status: Some("imperfect".to_string()),
        overall: None,
    }];
    m.disks = vec![DiskEntry { name: Some("disk1".to_string()), status: Some("nodump".to_string()) }];

    let roms = parse(&vec![m], &empty_table()).unwrap();
    let data = roms.get("robocop").unwrap();
    assert_eq!(
        data.status,
        Some(roms_curator::roms::RomStatus { driver: Status::Imperfect, emulation: Status::Good })
    );
    assert!(!data.is_bios);
    assert!(!data.is_system);
    assert!(!data.is_mechanical);
    assert_eq!(data.clone_of, Some("robocopa".to_string()));
    assert_eq!(data.rom_of, Some("robocopa".to_string()));
    assert_eq!(data.features.len(), 1);
    assert_eq!(data.features[0].typ, "sound");
    assert_eq!(data.features[0].status, FeatureStatus::Imperfect);
    assert_eq!(data.chd.len(), 1);
    assert_eq!(data.chd[0].name, "disk1");
    assert_eq!(data.chd[0].status, ChdStatus::NoDump);
    assert_eq!(data.category, "");
}

#[test]
fn parse_half_status_pair_is_unscored() {
    let mut m = machine(Some("halfstatus"));
    m.drivers = vec![driver(Some("good"), None)];
    let roms = parse(&vec![m], &empty_table()).unwrap();
    assert_eq!(roms.get("halfstatus").unwrap().status, None);
}

#[test]
fn parse_unrecognized_disk_status_defaults() {
    let mut m = machine(Some("gooddisk"));
    m.disks = vec![DiskEntry { name: Some("img".to_string()), status: Some("good".to_string()) }];
    let roms = parse(&vec![m], &empty_table()).unwrap();
    assert_eq!(roms.get("gooddisk").unwrap().chd[0].status, ChdStatus::NoStatus);
}

#[test]
fn parse_is_bios_and_device_attributes() {
    let mut bios = machine(Some("bios1"));
    bios.isbios = Some("yes".to_string());
    let mut device = machine(Some("dev1"));
    device.isdevice = Some("yes".to_string());
    let mut neither = machine(Some("plain"));
    neither.isbios = Some("no".to_string());

    let roms = parse(&vec![bios, device, neither], &empty_table()).unwrap();
    assert!(roms.get("bios1").unwrap().is_bios);
    assert!(roms.get("dev1").unwrap().is_system);
    assert!(!roms.get("plain").unwrap().is_bios);
    assert!(!roms.get("plain").unwrap().is_system);
}

#[test]
fn parse_system_from_excluded_category() {
    let table = build_category_list("aristmk6=System / BIOS\npacman=Maze / Shooter\n");
    let mut sys = machine(Some("aristmk6"));
    sys.drivers = vec![driver(Some("good"), Some("good"))];
    let mut game = machine(Some("pacman"));
    game.drivers = vec![driver(Some("good"), Some("good"))];

    let roms = parse(&vec![sys, game], &table).unwrap();
    assert!(roms.get("aristmk6").unwrap().is_system);
    assert_eq!(roms.get("aristmk6").unwrap().category, "System / BIOS");
    assert!(!roms.get("pacman").unwrap().is_system);
    assert_eq!(roms.get("pacman").unwrap().category, "Maze / Shooter");
}

#[test]
fn parse_system_fallback_by_device_child() {
    // no category resolved: a device child and no disk marks a system
    let mut with_device = machine(Some("sv801"));
    with_device.has_device = true;
    let mut with_device_and_disk = machine(Some("diskster"));
    with_device_and_disk.has_device = true;
    with_device_and_disk.disks = vec![DiskEntry { name: None, status: None }];

    let roms = parse(&vec![with_device, with_device_and_disk], &empty_table()).unwrap();
    assert!(roms.get("sv801").unwrap().is_system);
    assert!(!roms.get("diskster").unwrap().is_system);
}

#[test]
fn parse_last_machine_with_same_name_wins() {
    let mut first = machine(Some("twin"));
    first.ismechanical = Some("yes".to_string());
    let second = machine(Some("twin"));

    let roms = parse(&vec![first, second], &empty_table()).unwrap();
    assert_eq!(roms.len(), 1);
    assert!(!roms.get("twin").unwrap().is_mechanical);
}

#[test]
fn parsed_collection_classifies_like_the_sample() {
    let table = build_category_list(
        "005=Maze / Shooter Small\nrobocop=Platform / Shooter Scrolling\naristmk6=System / BIOS\na24play=System / Device\nas_acp=Slot Machine / Reels\n",
    );

    let mut m005 = machine(Some("005"));
    m005.drivers = vec![driver(Some("imperfect"), Some("good"))];
    m005.features = vec![FeatureEntry {
        typ: Some("sound".to_string()),
        status: Some("imperfect".to_string()),
        overall: None,
    }];

    let mut aristmk6 = machine(Some("aristmk6"));
    aristmk6.isbios = Some("yes".to_string());
    aristmk6.drivers = vec![driver(Some("preliminary"), Some("preliminary"))];

    let mut a24play = machine(Some("a24play"));
    a24play.isdevice = Some("yes".to_string());

    let mut as_acp = machine(Some("as_acp"));
    as_acp.ismechanical = Some("yes".to_string());
    as_acp.drivers = vec![driver(Some("preliminary"), Some("preliminary"))];

    let mut area51 = machine(Some("area51"));
    area51.drivers = vec![driver(Some("good"), Some("good"))];
    area51.disks = vec![DiskEntry { name: Some("area51".to_string()), status: None }];

    let machines = vec![m005, aristmk6, a24play, as_acp, area51];
    let unfiltered: UnfilteredRoms = parse(&machines, &table).unwrap();
    let roms = unfiltered.categorize_roms().unwrap();

    assert_eq!(roms.get("005").unwrap().category, RomCategory::Working);
    assert_eq!(roms.get("aristmk6").unwrap().category, RomCategory::Bios);
    assert_eq!(roms.get("a24play").unwrap().category, RomCategory::System);
    assert_eq!(roms.get("as_acp").unwrap().category, RomCategory::NotWorking);
    assert_eq!(roms.get("area51").unwrap().category, RomCategory::Working);
}

#[test]
fn category_list_reads_pairs_and_stops_at_marker() {
    let contents = "005=Maze / Shooter Small\n\nrobocop=Platform / Shooter Scrolling\r\nbroken-line\n=NoKey\nnovalue=\n[VerAdded]\nghost=Should Not Appear\n";
    let table = build_category_list(contents);
    assert_eq!(table.len(), 2);
    assert_eq!(table.get("005"), Some(&"Maze / Shooter Small".to_string()));
    assert_eq!(table.get("robocop"), Some(&"Platform / Shooter Scrolling".to_string()));
    assert_eq!(table.get("ghost"), None);
    assert_eq!(table.get("broken-line"), None);
}

#[test]
fn category_list_last_entry_wins_on_repeated_key() {
    let table = build_category_list("pac=First\npac=Second\n");
    assert_eq!(table.len(), 1);
    assert_eq!(table.get("pac"), Some(&"Second".to_string()));
}

#[test]
fn status_readers_are_case_insensitive() {
    assert_eq!(status_from_str("Good"), Some(Status::Good));
    assert_eq!(status_from_str("IMPERFECT"), Some(Status::Imperfect));
    assert_eq!(status_from_str("preliminary"), Some(Status::Preliminary));
    assert_eq!(status_from_str("unknown"), None);
    assert_eq!(chd_status_from_str("BadDump"), Some(ChdStatus::BadDump));
    assert_eq!(chd_status_from_str("nodump"), Some(ChdStatus::NoDump));
    assert_eq!(chd_status_from_str(""), None);
    assert_eq!(feature_status_from_str("Unemulated"), Some(FeatureStatus::Unemulated));
    assert_eq!(feature_status_from_str("imperfect"), Some(FeatureStatus::Imperfect));
}
