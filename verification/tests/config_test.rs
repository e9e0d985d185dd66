use roms_curator::config::Config;

#[test]
fn should_validate_missing_mame_xml_path() {
    let result = Config::new().build(vec!["roms-curator".to_string()]);

    assert!(matches!(result, Err("Missing mame_xml_path.")));

    let args = vec![
        "roms-curator".to_string(),
        "--mame_xml_path=some-invalid-path".to_string(),
    ];

    let result = Config::new().build(args);

    assert!(matches!(result, Err("File needs to be a XML file, for ex, mame.xml.")));
}

#[test]
fn should_validate_missing_catver_path() {
    let args = vec![
        "roms-curator".to_string(),
        "--mame_xml_path=some-valid-path.xml".to_string(),
    ];

    let result = Config::new().build(args);

    assert!(matches!(result, Err("Missing catver_path.")));

    let args = vec![
        "roms-curator".to_string(),
        "--mame_xml_path=some-valid-path.xml".to_string(),
        "--catver_path=some-invalid-path".to_string(),
    ];

    let result = Config::new().build(args);

    assert!(matches!(result, Err("File needs to be a ini file, for ex, catver.ini.")));
}

#[test]
fn should_set_defaults() {
    let args = vec![
        "roms-curator".to_string(),
        "--mame_xml_path=some-valid-path.xml".to_string(),
        "--catver_path=some-valid-path.ini".to_string(),
        "--source_path=/".to_string(),
        "--destination_path=./".to_string(),
    ];

    let result = Config::new().build(args);

    let _config = Config {
        mame_xml_path: "self.mame_xml_path".to_string(),
        catver_path: "some-valid-path.ini".to_string(),
        source_path: vec!["/".to_string()],
        destination_path: "/".to_string(),
        report_path: "".to_string(),
        ignore_not_working_chd: false,
        simulate: false,
    };

    assert!(matches!(result, Ok(_config)));
}

#[test]
fn should_parse_source_paths() {
    let args = vec![
        "roms-curator".to_string(),
        "--mame_xml_path=some-valid-path.xml".to_string(),
        "--catver_path=some-valid-path.ini".to_string(),
        "--source_path=./,target/,target".to_string(),
        "--destination_path=/".to_string(),
    ];

    let result = Config::new().build(args);

    let _config = Config {
        mame_xml_path: "some-valid-path.xml".to_string(),
        catver_path: "some-valid-path.ini".to_string(),
        source_path: vec!["./".to_string(), "target/".to_string(), "target".to_string()],
        destination_path: "/".to_string(),
        report_path: "".to_string(),
        ignore_not_working_chd: false,
        simulate: false,
    };

    assert_eq!(result.unwrap(), _config);
}

#[test]
fn source_path_and_destination_path_cannot_be_equal() {
    let args = vec![
        "roms-curator".to_string(),
        "--mame_xml_path=some-valid-path.xml".to_string(),
        "--catver_path=some-valid-path.ini".to_string(),
        "--source_path=target/".to_string(),
        "--destination_path=target/".to_string(),
    ];

    let result = Config::new().build(args);

    assert!(matches!(result, Err("SOURCE_PATH and DESTINATION_PATH cannot be the same.")));
}

#[test]
fn simulation_mode_needs_report_path() {
    let args = vec![
        "roms-curator".to_string(),
        "--mame_xml_path=some-valid-path.xml".to_string(),
        "--catver_path=some-valid-path.ini".to_string(),
        "--source_path=target/".to_string(),
        "--destination_path=/".to_string(),
        "--simulate=true".to_string(),
    ];

    let result = Config::new().build(args);

    assert!(matches!(result, Err("Simulation mode needs REPORT_PATH location.")));
}

#[test]
fn should_support_windows_paths() {
    let args = vec![
        "roms-curator".to_string(),
        "--mame_xml_path=C:\\Users\\Ellie\\Desktop\\roms-curator\\mame-roms.xml".to_string(),
        "--catver_path=C:\\Users\\Ellie\\Desktop\\roms-curator\\catver.ini".to_string(),
        "--source_path=target\\tests\\roms\\MAME 0.244 ROMs (merged),target\\tests\\roms\\MAME 0.243 CHDs (merged)".to_string(),
        "--destination_path=target\\tests\\roms\\roms-curated".to_string(),
        "--report_path=target\\tests\\roms\\report.md".to_string(),
        "--simulate=true".to_string(),
    ];

    let result = Config::new().build(args);

    let fs_sp = '/';

    let _config = Config {
        mame_xml_path: format!("{}{}{}{}{}{}{}{}{}{}{}", "C:", fs_sp, "Users", fs_sp, "Ellie", fs_sp, "Desktop", fs_sp, "roms-curator", fs_sp, "mame-roms.xml"),
        catver_path: format!("{}{}{}{}{}{}{}{}{}{}{}", "C:", fs_sp, "Users", fs_sp, "Ellie", fs_sp, "Desktop", fs_sp, "roms-curator", fs_sp, "catver.ini"),
        source_path: vec![
            format!("{}{}{}{}{}{}{}", "target", fs_sp, "tests", fs_sp, "roms", fs_sp, "MAME 0.244 ROMs (merged)"),
            format!("{}{}{}{}{}{}{}", "target", fs_sp, "tests", fs_sp, "roms", fs_sp, "MAME 0.243 CHDs (merged)"),
        ],
        destination_path: format!("{}{}{}{}{}{}{}", "target", fs_sp, "tests", fs_sp, "roms", fs_sp, "roms-curated"),
        report_path: format!("{}{}{}{}{}{}{}", "target", fs_sp, "tests", fs_sp, "roms", fs_sp, "report.md"),
        ignore_not_working_chd: false,
        simulate: true,
    };

    assert_eq!(result.unwrap(), _config);
}

#[test]
fn config_rejects_malformed_arguments() {
    let result = Config::new().build(vec![
        "roms-curator".to_string(),
        "--mame_xml_path".to_string(),
    ]);
    assert!(matches!(result, Err("Invalid argument")));

    let result = Config::new().build(vec![
        "roms-curator".to_string(),
        "--no_such_option=1".to_string(),
    ]);
    assert!(matches!(result, Err("Argument not recognized")));

    let result = Config::new().build(vec![
        "roms-curator".to_string(),
        "--mame_xml_path= ".to_string(),
    ]);
    assert!(matches!(result, Err("Value cannot be empty.")));

    let result = Config::new().build(vec![
        "roms-curator".to_string(),
        "--mame_xml_path=a.xml".to_string(),
        "--catver_path=b.ini".to_string(),
        "--source_path=src/".to_string(),
        "--destination_path=dst/".to_string(),
        "--report_path=report.txt".to_string(),
    ]);
    assert!(matches!(result, Err("Report file should have the extension .md")));
}

#[test]
fn config_accepts_windows_separators_and_flags() {
    let args = vec![
        "roms-curator".to_string(),
        "--mame_xml_path=mame\\data\\listing.xml".to_string(),
        "--catver_path=mame\\catver.ini".to_string(),
        "--source_path=roms\\a,roms\\b".to_string(),
        "--destination_path=out\\curated".to_string(),
        "--report_path=out\\report.md".to_string(),
        "--ignore_not_working_chd=TRUE".to_string(),
        "--simulate=True".to_string(),
    ];

    let config = Config::new().build(args).unwrap();

    assert_eq!(config.mame_xml_path, "mame/data/listing.xml");
    assert_eq!(config.catver_path, "mame/catver.ini");
    assert_eq!(config.source_path, vec!["roms/a".to_string(), "roms/b".to_string()]);
    assert_eq!(config.destination_path, "out/curated");
    assert_eq!(config.report_path, "out/report.md");
    assert!(config.ignore_not_working_chd);
    assert!(config.simulate);
}
