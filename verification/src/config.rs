//! Program configuration: the run's settings, built and validated from
//! `key=value` argument strings. File-system checks (whether a path exists or
//! can be created) are the caller's concern; this module holds the textual
//! validation rules.

use vstd::prelude::*;
use crate::text::{
    ends_with_spec, ends_with_str, eq_ignore_case, lower, lower_spec, names_of, sanitize_path,
    sanitize_spec, split_char, split_spec, str_eq, trim_spec, trim_str,
};

verus! {

/// The run's settings.
#[derive(Debug, PartialEq, Eq)]
pub struct Config {
    pub mame_xml_path: String,
    pub catver_path: String,
    pub source_path: Vec<String>,
    pub destination_path: String,
    pub report_path: String,
    /// When set, disk-bearing entries whose machine is not working are not
    /// copied.
    pub ignore_not_working_chd: bool,
    /// When set, every decision is made but nothing is written; needs
    /// `report_path` set.
    pub simulate: bool,
}

/// Mathematical value of a `Config`.
pub struct ConfigV {
    pub mame_xml_path: Seq<char>,
    pub catver_path: Seq<char>,
    pub source_path: Seq<Seq<char>>,
    pub destination_path: Seq<char>,
    pub report_path: Seq<char>,
    pub ignore_not_working_chd: bool,
    pub simulate: bool,
}

impl View for Config {
    type V = ConfigV;

    open spec fn view(&self) -> ConfigV {
        ConfigV {
            mame_xml_path: self.mame_xml_path@,
            catver_path: self.catver_path@,
            source_path: names_of(self.source_path@),
            destination_path: self.destination_path@,
            report_path: self.report_path@,
            ignore_not_working_chd: self.ignore_not_working_chd,
            simulate: self.simulate,
        }
    }
}

/// The configuration with every path empty and every flag off.
pub open spec fn empty_config() -> ConfigV {
    ConfigV {
        mame_xml_path: Seq::empty(),
        catver_path: Seq::empty(),
        source_path: Seq::empty(),
        destination_path: Seq::empty(),
        report_path: Seq::empty(),
        ignore_not_working_chd: false,
        simulate: false,
    }
}

/// The destination folders a run sorts entries into, one per bucket.
#[derive(Debug)]
pub struct DestinationFolders {
    pub working: String,
    pub other: String,
    pub chd_working: String,
    pub chd_other: String,
}

/// Mathematical value of a `DestinationFolders`.
pub struct DestinationFoldersV {
    pub working: Seq<char>,
    pub other: Seq<char>,
    pub chd_working: Seq<char>,
    pub chd_other: Seq<char>,
}

impl View for DestinationFolders {
    type V = DestinationFoldersV;

    open spec fn view(&self) -> DestinationFoldersV {
        DestinationFoldersV {
            working: self.working@,
            other: self.other@,
            chd_working: self.chd_working@,
            chd_other: self.chd_other@,
        }
    }
}

/// Is this a recognized option name (already trimmed and lower-cased)?
pub open spec fn param_known(p: Seq<char>) -> bool {
    p == "--mame_xml_path"@ || p == "--catver_path"@ || p == "--source_path"@
        || p == "--destination_path"@ || p == "--report_path"@ || p == "--simulate"@
        || p == "--ignore_not_working_chd"@ || p == "--subset_start"@ || p == "--subset_end"@
}

/// What processing one argument does to the configuration.
pub enum ArgStep {
    /// The help flag stops processing.
    Help,
    /// The argument is rejected with this message.
    Fail(Seq<char>),
    /// The argument yields the next configuration.
    Next(ConfigV),
}

/// Processing of a single `key=value` argument.
pub open spec fn step_arg(c: ConfigV, arg: Seq<char>) -> ArgStep {
    if lower_spec(arg) == lower_spec("--help"@) {
        ArgStep::Help
    } else {
        let fields = split_spec(arg, '=');
        if fields.len() != 2 {
            ArgStep::Fail("Invalid argument"@)
        } else {
            let param = lower_spec(trim_spec(fields[0]));
            let value = trim_spec(fields[1]);
            if !param_known(param) {
                ArgStep::Fail("Argument not recognized"@)
            } else if value.len() == 0 {
                ArgStep::Fail("Value cannot be empty."@)
            } else if param == "--mame_xml_path"@ {
                if !ends_with_spec(value, ".xml"@) {
                    ArgStep::Fail("File needs to be a XML file, for ex, mame.xml."@)
                } else {
                    ArgStep::Next(ConfigV { mame_xml_path: sanitize_spec(value), ..c })
                }
            } else if param == "--catver_path"@ {
                if !ends_with_spec(value, ".ini"@) {
                    ArgStep::Fail("File needs to be a ini file, for ex, catver.ini."@)
                } else {
                    ArgStep::Next(ConfigV { catver_path: sanitize_spec(value), ..c })
                }
            } else if param == "--source_path"@ {
                ArgStep::Next(
                    ConfigV {
                        source_path: split_spec(value, ',').map_values(
                            |p: Seq<char>| sanitize_spec(p),
                        ),
                        ..c
                    },
                )
            } else if param == "--destination_path"@ {
                ArgStep::Next(ConfigV { destination_path: sanitize_spec(value), ..c })
            } else if param == "--report_path"@ {
                if !ends_with_spec(value, ".md"@) {
                    ArgStep::Fail("Report file should have the extension .md"@)
                } else {
                    ArgStep::Next(ConfigV { report_path: sanitize_spec(value), ..c })
                }
            } else if param == "--ignore_not_working_chd"@ {
                ArgStep::Next(
                    ConfigV { ignore_not_working_chd: lower_spec(value) == lower_spec("true"@), ..c },
                )
            } else if param == "--simulate"@ {
                ArgStep::Next(ConfigV { simulate: lower_spec(value) == lower_spec("true"@), ..c })
            } else {
                // subset bounds are recognized but not part of the
                // configuration this library models
                ArgStep::Next(c)
            }
        }
    }
}

/// The outcome of the argument loop.
pub enum LoopOut {
    /// All arguments processed; the flag records whether help stopped it.
    Done(ConfigV, bool),
    /// Processing stopped at a rejected argument.
    Fail(Seq<char>),
}

/// Folds `step_arg` over the arguments from position `i` on.
pub open spec fn build_loop(c: ConfigV, args: Seq<Seq<char>>, i: int) -> LoopOut
    decreases args.len() - i,
{
    if i < 0 || i >= args.len() {
        LoopOut::Done(c, false)
    } else {
        match step_arg(c, args[i]) {
            ArgStep::Help => LoopOut::Done(c, true),
            ArgStep::Fail(e) => LoopOut::Fail(e),
            ArgStep::Next(c2) => build_loop(c2, args, i + 1),
        }
    }
}

/// The first missing mandatory setting, if any; checked only when help was
/// not requested.
pub open spec fn mandatory_err(c: ConfigV) -> Option<Seq<char>> {
    if c.mame_xml_path.len() == 0 {
        Some("Missing mame_xml_path."@)
    } else if c.catver_path.len() == 0 {
        Some("Missing catver_path."@)
    } else if c.source_path.len() == 0 {
        Some("Missing source_path."@)
    } else if c.destination_path.len() == 0 {
        Some("Missing destination_path."@)
    } else if exists|i: int|
        0 <= i < c.source_path.len() && #[trigger] lower_spec(c.source_path[i]) == lower_spec(
            c.destination_path,
        ) {
        Some("SOURCE_PATH and DESTINATION_PATH cannot be the same."@)
    } else if c.simulate && c.report_path.len() == 0 {
        Some("Simulation mode needs REPORT_PATH location."@)
    } else {
        None
    }
}

/// The final outcome of building a configuration from arguments.
pub enum BuildOutcome {
    Accept(ConfigV),
    Reject(Seq<char>),
}

/// Building from arguments: the first argument is the program name and is
/// skipped; help short-circuits the mandatory checks.
pub open spec fn spec_build(c0: ConfigV, args: Seq<Seq<char>>) -> BuildOutcome {
    match build_loop(c0, args, 1) {
        LoopOut::Fail(e) => BuildOutcome::Reject(e),
        LoopOut::Done(c, help) => if help {
            BuildOutcome::Accept(c)
        } else {
            match mandatory_err(c) {
                Some(e) => BuildOutcome::Reject(e),
                None => BuildOutcome::Accept(c),
            }
        },
    }
}

impl Default for Config {
    /// The empty configuration.
    fn default() -> (r: Config)
        ensures
            r@ == empty_config(),
    {
        let r = Config {
            mame_xml_path: String::new(),
            catver_path: String::new(),
            source_path: Vec::new(),
            destination_path: String::new(),
            report_path: String::new(),
            ignore_not_working_chd: false,
            simulate: false,
        };
        proof {
            assert(r@.source_path =~= Seq::<Seq<char>>::empty());
        }
        r
    }
}

impl Config {
    pub fn new() -> (r: Config)
        ensures
            r@ == empty_config(),
    {
        Config::default()
    }

    /// Is this a recognized option name (already trimmed and lower-cased)?
    pub fn check_param(param: &str) -> (r: bool)
        ensures
            r == param_known(param@),
    {
        str_eq(param, "--mame_xml_path") || str_eq(param, "--catver_path") || str_eq(
            param,
            "--source_path",
        ) || str_eq(param, "--destination_path") || str_eq(param, "--report_path") || str_eq(
            param,
            "--simulate",
        ) || str_eq(param, "--ignore_not_working_chd") || str_eq(param, "--subset_start")
            || str_eq(param, "--subset_end")
    }

    /// Checks that every mandatory setting is present, that no source path
    /// equals the destination, and that simulation has a report path; help
    /// skips all of it.
    pub fn check_mandatory_arguments(config: &Config, help: bool) -> (r: Result<
        bool,
        &'static str,
    >)
        ensures
            match r {
                Ok(_) => help || mandatory_err(config@) is None,
                Err(e) => !help && mandatory_err(config@) == Some(e@),
            },
    {
        if help {
            return Ok(true);
        }
        if config.mame_xml_path.as_str().unicode_len() == 0 {
            return Err("Missing mame_xml_path.");
        }
        if config.catver_path.as_str().unicode_len() == 0 {
            return Err("Missing catver_path.");
        }
        if config.source_path.len() == 0 {
            proof {
                assert(config@.source_path.len() == 0);
            }
            return Err("Missing source_path.");
        }
        if config.destination_path.as_str().unicode_len() == 0 {
            return Err("Missing destination_path.");
        }
        let n = config.source_path.len();
        let mut i: usize = 0;
        while i < n
            invariant
                !help,
                n == config.source_path@.len(),
                i <= n,
                config@.mame_xml_path.len() != 0,
                config@.catver_path.len() != 0,
                config@.source_path.len() != 0,
                config@.destination_path.len() != 0,
                forall|j: int|
                    0 <= j < i ==> #[trigger] lower_spec(names_of(config.source_path@)[j])
                        != lower_spec(config.destination_path@),
            decreases n - i,
        {
            if eq_ignore_case(
                config.source_path[i].as_str(),
                config.destination_path.as_str(),
            ) {
                proof {
                    let cv = config@;
                    let ii = i as int;
                    assert(cv.source_path[ii] == names_of(config.source_path@)[ii]);
                    assert(0 <= ii < cv.source_path.len() && lower_spec(cv.source_path[ii])
                        == lower_spec(cv.destination_path));
                    assert(exists|j: int|
                        0 <= j < cv.source_path.len() && #[trigger] lower_spec(cv.source_path[j])
                            == lower_spec(cv.destination_path));
                    assert(mandatory_err(config@) == Some(
                        "SOURCE_PATH and DESTINATION_PATH cannot be the same."@,
                    ));
                }
                return Err("SOURCE_PATH and DESTINATION_PATH cannot be the same.");
            }
            i += 1;
        }
        if config.simulate && config.report_path.as_str().unicode_len() == 0 {
            return Err("Simulation mode needs REPORT_PATH location.");
        }
        Ok(true)
    }

    /// Builds the configuration from the argument strings; the first is the
    /// program name. Textual validation only: whether the named files and
    /// directories exist is checked by the caller against the file system.
    pub fn build(self, args: Vec<String>) -> (r: Result<Config, &'static str>)
        ensures
            match r {
                Ok(c) => spec_build(self@, names_of(args@)) == BuildOutcome::Accept(c@),
                Err(e) => spec_build(self@, names_of(args@)) == BuildOutcome::Reject(e@),
            },
    {
        let ghost argsv = names_of(args@);
        let ghost c0 = self@;
        let mut cfg = self;
        let n = args.len();
        let mut help = false;
        let mut i: usize = 1;
        while i < n && !help
            invariant_except_break
                !help,
            invariant
                c0 == self@,
                argsv == names_of(args@),
                n == args@.len(),
                1 <= i,
                i <= n || n <= 1,
                build_loop(c0, argsv, 1) == build_loop(cfg@, argsv, i as int),
            ensures
                argsv == names_of(args@),
                n == args@.len(),
                if help {
                    build_loop(c0, argsv, 1) == LoopOut::Done(cfg@, true)
                } else {
                    build_loop(c0, argsv, 1) == build_loop(cfg@, argsv, i as int) && i >= n
                },
            decreases n - i,
        {
            let arg = &args[i];
            proof {
                assert(argsv[i as int] == arg@);
            }
            if eq_ignore_case(arg.as_str(), "--help") {
                proof {
                    assert(step_arg(cfg@, argsv[i as int]) == ArgStep::Help);
                    assert(build_loop(cfg@, argsv, i as int) == LoopOut::Done(cfg@, true));
                }
                help = true;
                break ;
            }
            let fields = split_char(arg.as_str(), '=');
            if fields.len() != 2 {
                proof {
                    assert(split_spec(arg@, '=').len() != 2);
                    assert(step_arg(cfg@, argsv[i as int]) == ArgStep::Fail("Invalid argument"@));
                    assert(build_loop(cfg@, argsv, i as int) == LoopOut::Fail("Invalid argument"@));
                    assert(spec_build(c0, argsv) == BuildOutcome::Reject("Invalid argument"@));
                }
                return Err("Invalid argument");
            }
            proof {
                assert(fields@.map_values(|t: String| t@).len() == 2);
            }
            let param = lower(trim_str(fields[0].as_str()));
            let value = trim_str(fields[1].as_str());
            proof {
                assert(fields@.map_values(|t: String| t@)[0] == fields@[0]@);
                assert(fields@.map_values(|t: String| t@)[1] == fields@[1]@);
            }
            if !Self::check_param(param.as_str()) {
                proof {
                    assert(step_arg(cfg@, argsv[i as int]) == ArgStep::Fail(
                        "Argument not recognized"@,
                    ));
                    assert(build_loop(cfg@, argsv, i as int) == LoopOut::Fail(
                        "Argument not recognized"@,
                    ));
                    assert(spec_build(c0, argsv) == BuildOutcome::Reject("Argument not recognized"@));
                }
                return Err("Argument not recognized");
            }
            if value.unicode_len() == 0 {
                proof {
                    assert(step_arg(cfg@, argsv[i as int]) == ArgStep::Fail(
                        "Value cannot be empty."@,
                    ));
                    assert(build_loop(cfg@, argsv, i as int) == LoopOut::Fail(
                        "Value cannot be empty."@,
                    ));
                    assert(spec_build(c0, argsv) == BuildOutcome::Reject("Value cannot be empty."@));
                }
                return Err("Value cannot be empty.");
            }
            let ghost pre = cfg@;
            if str_eq(param.as_str(), "--mame_xml_path") {
                if !ends_with_str(value, ".xml") {
                    proof {
                        assert(step_arg(cfg@, argsv[i as int]) == ArgStep::Fail("File needs to be a XML file, for ex, mame.xml."@));
                        assert(build_loop(cfg@, argsv, i as int) == LoopOut::Fail("File needs to be a XML file, for ex, mame.xml."@));
                        assert(spec_build(c0, argsv) == BuildOutcome::Reject("File needs to be a XML file, for ex, mame.xml."@));
                    }
                    return Err("File needs to be a XML file, for ex, mame.xml.");
                }
                cfg.mame_xml_path = sanitize_path(value);
            } else if str_eq(param.as_str(), "--catver_path") {
                if !ends_with_str(value, ".ini") {
                    proof {
                        assert(step_arg(cfg@, argsv[i as int]) == ArgStep::Fail("File needs to be a ini file, for ex, catver.ini."@));
                        assert(build_loop(cfg@, argsv, i as int) == LoopOut::Fail("File needs to be a ini file, for ex, catver.ini."@));
                        assert(spec_build(c0, argsv) == BuildOutcome::Reject("File needs to be a ini file, for ex, catver.ini."@));
                    }
                    return Err("File needs to be a ini file, for ex, catver.ini.");
                }
                cfg.catver_path = sanitize_path(value);
            } else if str_eq(param.as_str(), "--source_path") {
                let parts = split_char(value, ',');
                let m = parts.len();
                let mut sanitized: Vec<String> = Vec::new();
                let mut j: usize = 0;
                while j < m
                    invariant
                        m == parts@.len(),
                        j <= m,
                        names_of(sanitized@) == names_of(parts@).take(j as int).map_values(
                            |p: Seq<char>| sanitize_spec(p),
                        ),
                    decreases m - j,
                {
                    let p = sanitize_path(parts[j].as_str());
                    proof {
                        assert(names_of(sanitized@.push(p)) =~= names_of(sanitized@).push(p@));
                        assert(names_of(parts@).take(j + 1).map_values(
                            |q: Seq<char>| sanitize_spec(q),
                        ) =~= names_of(parts@).take(j as int).map_values(
                            |q: Seq<char>| sanitize_spec(q),
                        ).push(sanitize_spec(names_of(parts@)[j as int])));
                    }
                    sanitized.push(p);
                    j += 1;
                }
                proof {
                    assert(names_of(parts@).take(m as int) =~= names_of(parts@));
                }
                cfg.source_path = sanitized;
            } else if str_eq(param.as_str(), "--destination_path") {
                cfg.destination_path = sanitize_path(value);
            } else if str_eq(param.as_str(), "--report_path") {
                if !ends_with_str(value, ".md") {
                    proof {
                        assert(step_arg(cfg@, argsv[i as int]) == ArgStep::Fail("Report file should have the extension .md"@));
                        assert(build_loop(cfg@, argsv, i as int) == LoopOut::Fail("Report file should have the extension .md"@));
                        assert(spec_build(c0, argsv) == BuildOutcome::Reject("Report file should have the extension .md"@));
                    }
                    return Err("Report file should have the extension .md");
                }
                cfg.report_path = sanitize_path(value);
            } else if str_eq(param.as_str(), "--ignore_not_working_chd") {
                cfg.ignore_not_working_chd = eq_ignore_case(value, "true");
            } else if str_eq(param.as_str(), "--simulate") {
                cfg.simulate = eq_ignore_case(value, "true");
            } else {
                // --subset_start and --subset_end are recognized but carry no
                // configuration here
            }
            proof {
                assert(step_arg(pre, argsv[i as int]) == ArgStep::Next(cfg@));
            }
            i += 1;
        }
        if help {
            proof {
                assert(spec_build(c0, argsv) == BuildOutcome::Accept(cfg@));
            }
            return Ok(cfg);
        }
        proof {
            assert(build_loop(cfg@, argsv, i as int) == LoopOut::Done(cfg@, false));
            assert(build_loop(c0, argsv, 1) == LoopOut::Done(cfg@, false));
        }
        match Self::check_mandatory_arguments(&cfg, help) {
            Ok(_) => {
                proof {
                    assert(spec_build(c0, argsv) == BuildOutcome::Accept(cfg@));
                }
                Ok(cfg)
            },
            Err(e) => {
                proof {
                    assert(spec_build(c0, argsv) == BuildOutcome::Reject(e@));
                }
                Err(e)
            },
        }
    }
}

} // verus!
