use roms_curator::report::{Report, ReportDetailEntry};

fn entry(name: &str, moved: bool, is_chd: bool) -> ReportDetailEntry {
    ReportDetailEntry { rom_name: name.to_string(), moved, is_chd }
}

#[test]
fn empty_report_has_zero_counts_and_empty_sections() {
    let report = Report::new();
    let summary = report.build_summary();
    assert_eq!(summary.moved_to_working_folder, 0);
    assert_eq!(summary.moved_to_working_folder_chd, 0);
    assert_eq!(summary.moved_to_other_folder, 0);
    assert_eq!(summary.moved_to_other_folder_chd, 0);
    assert_eq!(summary.roms_failed_to_move, 0);
    assert!(Report::entries_with_moved(&report.roms_working, true).is_empty());
    assert!(Report::entries_with_moved(&report.roms_working, false).is_empty());
    assert!(Report::entries_with_moved(&report.roms_other, true).is_empty());
    assert!(Report::entries_with_moved(&report.roms_other, false).is_empty());
}

#[test]
fn summary_counts_follow_the_recorded_outcomes() {
    let mut report = Report::new();
    report.add_rom_working(entry("a", true, false));
    report.add_rom_working(entry("b", true, true));
    report.add_rom_working(entry("c", false, true));
    report.add_rom_other(entry("d", true, true));
    report.add_rom_other(entry("e", false, false));
    report.total_working(3);
    report.total_other(2);
    report.all_ok(false);

    let summary = report.build_summary();
    assert_eq!(summary.moved_to_working_folder, 2);
    assert_eq!(summary.moved_to_working_folder_chd, 1);
    assert_eq!(summary.moved_to_other_folder, 1);
    assert_eq!(summary.moved_to_other_folder_chd, 1);
    assert_eq!(summary.roms_failed_to_move, 2);
}

#[test]
fn detail_sections_partition_entries_by_outcome() {
    let mut report = Report::new();
    report.add_rom_working(entry("ok1", true, false));
    report.add_rom_working(entry("fail1", false, true));
    report.add_rom_working(entry("ok2", true, true));

    let moved = Report::entries_with_moved(&report.roms_working, true);
    let failed = Report::entries_with_moved(&report.roms_working, false);
    assert_eq!(moved.len(), 2);
    assert_eq!(moved[0].rom_name, "ok1");
    assert_eq!(moved[1].rom_name, "ok2");
    assert_eq!(failed.len(), 1);
    assert_eq!(failed[0].rom_name, "fail1");
}

#[test]
fn build_copies_the_accumulated_report() {
    let mut report = Report::new();
    report.source_dir("roms/".to_string());
    report.destination_dir("out/".to_string());
    report.add_rom_working(entry("a", true, false));
    report.all_ok(true);

    let built = report.build();
    assert_eq!(built.source_dir, "roms/");
    assert_eq!(built.destination_dir, "out/");
    assert_eq!(built.roms_working.len(), 1);
    assert_eq!(built.roms_working[0].rom_name, "a");
    assert!(built.all_ok);
}
