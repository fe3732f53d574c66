//! Runtime configuration, parsed from command-line arguments.

use vstd::prelude::*;

verus! {

/// How kefirdrop should behave for this run.
#[derive(Clone, Debug)]
pub struct Config {
    /// Use the built-in synthetic audio source instead of capturing real audio.
    pub synthetic: bool,
    /// Explicit capture device (PipeWire/PulseAudio source name). When `None`,
    /// the default sink's `.monitor` is auto-detected.
    pub device: Option<String>,
    /// Cap the frame rate to the display refresh (FIFO present mode).
    pub vsync: bool,
    /// Directory containing `shaders/` and `presets/`.
    pub assets_dir: String,
    /// Name of the preset to start on. When `None`, the first preset in
    /// cycling order is used.
    pub start_preset: Option<String>,
}

/// A [`Config`] with every text taken by its characters.
pub struct ConfigModel {
    pub synthetic: bool,
    pub device: Option<Seq<char>>,
    pub vsync: bool,
    pub assets_dir: Seq<char>,
    pub start_preset: Option<Seq<char>>,
}

/// The characters of an optional text.
pub open spec fn text_of(o: Option<String>) -> Option<Seq<char>> {
    match o {
        Some(s) => Some(s@),
        None => None,
    }
}

impl View for Config {
    type V = ConfigModel;

    open spec fn view(&self) -> ConfigModel {
        ConfigModel {
            synthetic: self.synthetic,
            device: text_of(self.device),
            vsync: self.vsync,
            assets_dir: self.assets_dir@,
            start_preset: text_of(self.start_preset),
        }
    }
}

/// What the command line asks for.
pub enum CliAction {
    /// Run with this configuration.
    Run(Config),
    /// Print the usage text and exit.
    Help,
    /// An argument that is not understood; exit after saying so.
    UnknownArgument(String),
}

/// A [`CliAction`] with every text taken by its characters.
pub enum CliOutcome {
    Run(ConfigModel),
    Help,
    UnknownArgument(Seq<char>),
}

impl View for CliAction {
    type V = CliOutcome;

    open spec fn view(&self) -> CliOutcome {
        match self {
            CliAction::Run(c) => CliOutcome::Run(c@),
            CliAction::Help => CliOutcome::Help,
            CliAction::UnknownArgument(a) => CliOutcome::UnknownArgument(a@),
        }
    }
}

/// The configuration used when no argument changes it.
pub open spec fn default_model(assets_dir: Seq<char>) -> ConfigModel {
    ConfigModel {
        synthetic: false,
        device: None,
        vsync: true,
        assets_dir,
        start_preset: None,
    }
}

/// The outcome of reading `args` from position `i` on, starting from `cfg`.
/// A flag that takes a value consumes the next argument whatever it looks
/// like; `--device` and `--preset` at the very end clear their setting, while
/// `--assets` at the very end leaves the directory as it was.
pub open spec fn parse_from(args: Seq<Seq<char>>, i: nat, cfg: ConfigModel) -> CliOutcome
    decreases args.len() - i,
{
    if i >= args.len() {
        CliOutcome::Run(cfg)
    } else {
        let arg = args[i as int];
        let value: Option<Seq<char>> = if i + 1 < args.len() {
            Some(args[(i + 1) as int])
        } else {
            None
        };
        let after_value: nat = if i + 1 < args.len() {
            i + 2
        } else {
            args.len()
        };
        if arg == "--synthetic"@ {
            parse_from(args, i + 1, ConfigModel { synthetic: true, ..cfg })
        } else if arg == "--no-vsync"@ {
            parse_from(args, i + 1, ConfigModel { vsync: false, ..cfg })
        } else if arg == "--device"@ {
            parse_from(args, after_value, ConfigModel { device: value, ..cfg })
        } else if arg == "--preset"@ {
            parse_from(args, after_value, ConfigModel { start_preset: value, ..cfg })
        } else if arg == "--assets"@ {
            match value {
                Some(dir) => parse_from(args, after_value, ConfigModel { assets_dir: dir, ..cfg }),
                None => parse_from(args, after_value, cfg),
            }
        } else if arg == "-h"@ || arg == "--help"@ {
            CliOutcome::Help
        } else {
            CliOutcome::UnknownArgument(arg)
        }
    }
}

/// The outcome of a whole command line; `args[0]` is the program's name.
pub open spec fn parse_args(args: Seq<Seq<char>>, default_assets_dir: Seq<char>) -> CliOutcome {
    parse_from(args, 1, default_model(default_assets_dir))
}

/// The characters of each argument.
pub open spec fn texts(args: Seq<String>) -> Seq<Seq<char>> {
    args.map_values(|a: String| a@)
}

/// Whether `arg` is exactly `flag`.
fn is_flag(arg: &String, flag: &str) -> (r: bool)
    ensures
        r == (arg@ == flag@),
{
    *arg == String::from_str(flag)
}

/// The next argument after position `i`, if there is one.
fn value_after(args: &Vec<String>, i: usize) -> (value: Option<String>)
    requires
        i < args.len(),
    ensures
        text_of(value) == (if i + 1 < args@.len() {
            Some(texts(args@)[i + 1])
        } else {
            None::<Seq<char>>
        }),
{
    if i + 1 < args.len() {
        Some(args[i + 1].clone())
    } else {
        None
    }
}

/// The outcome with vsync switched off in the configuration it runs with.
pub open spec fn with_vsync_off(o: CliOutcome) -> CliOutcome {
    match o {
        CliOutcome::Run(c) => CliOutcome::Run(ConfigModel { vsync: false, ..c }),
        other => other,
    }
}

/// The outcome with the synthetic source switched on in the configuration it
/// runs with.
pub open spec fn with_synthetic_on(o: CliOutcome) -> CliOutcome {
    match o {
        CliOutcome::Run(c) => CliOutcome::Run(ConfigModel { synthetic: true, ..c }),
        other => other,
    }
}

/// The outcome with the capture device replaced.
pub open spec fn with_device(o: CliOutcome, device: Option<Seq<char>>) -> CliOutcome {
    match o {
        CliOutcome::Run(c) => CliOutcome::Run(ConfigModel { device, ..c }),
        other => other,
    }
}

/// The outcome with the start preset replaced.
pub open spec fn with_start_preset(o: CliOutcome, start_preset: Option<Seq<char>>) -> CliOutcome {
    match o {
        CliOutcome::Run(c) => CliOutcome::Run(ConfigModel { start_preset, ..c }),
        other => other,
    }
}

/// The outcome with the assets directory replaced.
pub open spec fn with_assets_dir(o: CliOutcome, assets_dir: Seq<char>) -> CliOutcome {
    match o {
        CliOutcome::Run(c) => CliOutcome::Run(ConfigModel { assets_dir, ..c }),
        other => other,
    }
}

/// No argument switches vsync back on: starting with vsync off ends with the
/// same outcome as starting with it on and switching it off at the end.
proof fn lemma_vsync_off_commutes(args: Seq<Seq<char>>, i: nat, cfg: ConfigModel)
    ensures
        parse_from(args, i, ConfigModel { vsync: false, ..cfg }) == with_vsync_off(
            parse_from(args, i, cfg),
        ),
    decreases args.len() - i,
{
    if i < args.len() {
        let arg = args[i as int];
        let value: Option<Seq<char>> = if i + 1 < args.len() {
            Some(args[(i + 1) as int])
        } else {
            None
        };
        let after_value: nat = if i + 1 < args.len() {
            i + 2
        } else {
            args.len()
        };
        if arg == "--synthetic"@ {
            lemma_vsync_off_commutes(args, i + 1, ConfigModel { synthetic: true, ..cfg });
        } else if arg == "--no-vsync"@ {
            lemma_vsync_off_commutes(args, i + 1, ConfigModel { vsync: false, ..cfg });
        } else if arg == "--device"@ {
            lemma_vsync_off_commutes(args, after_value, ConfigModel { device: value, ..cfg });
        } else if arg == "--preset"@ {
            lemma_vsync_off_commutes(args, after_value, ConfigModel { start_preset: value, ..cfg });
        } else if arg == "--assets"@ {
            match value {
                Some(dir) => {
                    lemma_vsync_off_commutes(args, after_value, ConfigModel { assets_dir: dir, ..cfg });
                },
                None => {
                    lemma_vsync_off_commutes(args, after_value, cfg);
                },
            }
        }
    }
}

/// No argument switches the synthetic source back off.
proof fn lemma_synthetic_on_commutes(args: Seq<Seq<char>>, i: nat, cfg: ConfigModel)
    ensures
        parse_from(args, i, ConfigModel { synthetic: true, ..cfg }) == with_synthetic_on(
            parse_from(args, i, cfg),
        ),
    decreases args.len() - i,
{
    if i < args.len() {
        let arg = args[i as int];
        let value: Option<Seq<char>> = if i + 1 < args.len() {
            Some(args[(i + 1) as int])
        } else {
            None
        };
        let after_value: nat = if i + 1 < args.len() {
            i + 2
        } else {
            args.len()
        };
        if arg == "--synthetic"@ {
            lemma_synthetic_on_commutes(args, i + 1, ConfigModel { synthetic: true, ..cfg });
        } else if arg == "--no-vsync"@ {
            lemma_synthetic_on_commutes(args, i + 1, ConfigModel { vsync: false, ..cfg });
        } else if arg == "--device"@ {
            lemma_synthetic_on_commutes(args, after_value, ConfigModel { device: value, ..cfg });
        } else if arg == "--preset"@ {
            lemma_synthetic_on_commutes(args, after_value, ConfigModel { start_preset: value, ..cfg });
        } else if arg == "--assets"@ {
            match value {
                Some(dir) => {
                    lemma_synthetic_on_commutes(args, after_value, ConfigModel { assets_dir: dir, ..cfg });
                },
                None => {
                    lemma_synthetic_on_commutes(args, after_value, cfg);
                },
            }
        }
    }
}

/// Without a later `--device`, the device a run starts with is the one it
/// ends with, and nothing else depends on it.
proof fn lemma_device_commutes(
    args: Seq<Seq<char>>,
    i: nat,
    cfg: ConfigModel,
    device: Option<Seq<char>>,
)
    requires
        forall|k: int| i <= k < args.len() ==> args[k] != "--device"@,
    ensures
        parse_from(args, i, ConfigModel { device, ..cfg }) == with_device(
            parse_from(args, i, cfg),
            device,
        ),
    decreases args.len() - i,
{
    if i < args.len() {
        let arg = args[i as int];
        let value: Option<Seq<char>> = if i + 1 < args.len() {
            Some(args[(i + 1) as int])
        } else {
            None
        };
        let after_value: nat = if i + 1 < args.len() {
            i + 2
        } else {
            args.len()
        };
        if arg == "--synthetic"@ {
            lemma_device_commutes(args, i + 1, ConfigModel { synthetic: true, ..cfg }, device);
        } else if arg == "--no-vsync"@ {
            lemma_device_commutes(args, i + 1, ConfigModel { vsync: false, ..cfg }, device);
        } else if arg == "--device"@ {
            assert(false);
        } else if arg == "--preset"@ {
            lemma_device_commutes(args, after_value, ConfigModel { start_preset: value, ..cfg }, device);
        } else if arg == "--assets"@ {
            match value {
                Some(dir) => {
                    lemma_device_commutes(args, after_value, ConfigModel { assets_dir: dir, ..cfg }, device);
                },
                None => {
                    lemma_device_commutes(args, after_value, cfg, device);
                },
            }
        }
    }
}

/// Without a later `--preset`, the start preset a run starts with is the one
/// it ends with, and nothing else depends on it.
proof fn lemma_start_preset_commutes(
    args: Seq<Seq<char>>,
    i: nat,
    cfg: ConfigModel,
    start_preset: Option<Seq<char>>,
)
    requires
        forall|k: int| i <= k < args.len() ==> args[k] != "--preset"@,
    ensures
        parse_from(args, i, ConfigModel { start_preset, ..cfg }) == with_start_preset(
            parse_from(args, i, cfg),
            start_preset,
        ),
    decreases args.len() - i,
{
    if i < args.len() {
        let arg = args[i as int];
        let value: Option<Seq<char>> = if i + 1 < args.len() {
            Some(args[(i + 1) as int])
        } else {
            None
        };
        let after_value: nat = if i + 1 < args.len() {
            i + 2
        } else {
            args.len()
        };
        if arg == "--synthetic"@ {
            lemma_start_preset_commutes(args, i + 1, ConfigModel { synthetic: true, ..cfg }, start_preset);
        } else if arg == "--no-vsync"@ {
            lemma_start_preset_commutes(args, i + 1, ConfigModel { vsync: false, ..cfg }, start_preset);
        } else if arg == "--device"@ {
            lemma_start_preset_commutes(args, after_value, ConfigModel { device: value, ..cfg }, start_preset);
        } else if arg == "--preset"@ {
            assert(false);
        } else if arg == "--assets"@ {
            match value {
                Some(dir) => {
                    lemma_start_preset_commutes(args, after_value, ConfigModel { assets_dir: dir, ..cfg }, start_preset);
                },
                None => {
                    lemma_start_preset_commutes(args, after_value, cfg, start_preset);
                },
            }
        }
    }
}

/// Without a later `--assets`, the assets directory a run starts with is the
/// one it ends with, and nothing else depends on it.
proof fn lemma_assets_dir_commutes(
    args: Seq<Seq<char>>,
    i: nat,
    cfg: ConfigModel,
    assets_dir: Seq<char>,
)
    requires
        forall|k: int| i <= k < args.len() ==> args[k] != "--assets"@,
    ensures
        parse_from(args, i, ConfigModel { assets_dir, ..cfg }) == with_assets_dir(
            parse_from(args, i, cfg),
            assets_dir,
        ),
    decreases args.len() - i,
{
    if i < args.len() {
        let arg = args[i as int];
        let value: Option<Seq<char>> = if i + 1 < args.len() {
            Some(args[(i + 1) as int])
        } else {
            None
        };
        let after_value: nat = if i + 1 < args.len() {
            i + 2
        } else {
            args.len()
        };
        if arg == "--synthetic"@ {
            lemma_assets_dir_commutes(args, i + 1, ConfigModel { synthetic: true, ..cfg }, assets_dir);
        } else if arg == "--no-vsync"@ {
            lemma_assets_dir_commutes(args, i + 1, ConfigModel { vsync: false, ..cfg }, assets_dir);
        } else if arg == "--device"@ {
            lemma_assets_dir_commutes(args, after_value, ConfigModel { device: value, ..cfg }, assets_dir);
        } else if arg == "--preset"@ {
            lemma_assets_dir_commutes(args, after_value, ConfigModel { start_preset: value, ..cfg }, assets_dir);
        } else if arg == "--assets"@ {
            assert(false);
        }
    }
}

/// The flags are seven different texts.
proof fn lemma_flags_distinct()
    ensures
        "--synthetic"@ != "--no-vsync"@,
        "--synthetic"@ != "--device"@,
        "--synthetic"@ != "--preset"@,
        "--synthetic"@ != "--assets"@,
        "--synthetic"@ != "-h"@,
        "--synthetic"@ != "--help"@,
        "--no-vsync"@ != "--device"@,
        "--no-vsync"@ != "--preset"@,
        "--no-vsync"@ != "--assets"@,
        "--no-vsync"@ != "-h"@,
        "--no-vsync"@ != "--help"@,
        "--device"@ != "--preset"@,
        "--device"@ != "--assets"@,
        "--device"@ != "-h"@,
        "--device"@ != "--help"@,
        "--preset"@ != "--assets"@,
        "--preset"@ != "-h"@,
        "--preset"@ != "--help"@,
        "--assets"@ != "-h"@,
        "--assets"@ != "--help"@,
        "-h"@ != "--help"@,
{
    reveal_strlit("--synthetic");
    reveal_strlit("--no-vsync");
    reveal_strlit("--device");
    reveal_strlit("--preset");
    reveal_strlit("--assets");
    reveal_strlit("-h");
    reveal_strlit("--help");
    assert("--synthetic"@.len() == 11);
    assert("--no-vsync"@.len() == 10);
    assert("--device"@.len() == 8);
    assert("--preset"@.len() == 8);
    assert("--assets"@.len() == 8);
    assert("-h"@.len() == 2);
    assert("--help"@.len() == 6);
    assert("--device"@[2] != "--preset"@[2]);
    assert("--device"@[2] != "--assets"@[2]);
    assert("--preset"@[2] != "--assets"@[2]);
}

/// `--no-vsync` switches vsync off and changes nothing else: the outcome is
/// that of the remaining arguments with vsync off.
pub proof fn lemma_no_vsync_flag(args: Seq<Seq<char>>, i: nat, cfg: ConfigModel)
    requires
        i < args.len(),
        args[i as int] == "--no-vsync"@,
    ensures
        parse_from(args, i, cfg) == with_vsync_off(parse_from(args, i + 1, cfg)),
{
    lemma_flags_distinct();
    lemma_vsync_off_commutes(args, i + 1, cfg);
}

/// `--synthetic` switches the synthetic source on and changes nothing else:
/// the outcome is that of the remaining arguments with the synthetic source.
pub proof fn lemma_synthetic_flag(args: Seq<Seq<char>>, i: nat, cfg: ConfigModel)
    requires
        i < args.len(),
        args[i as int] == "--synthetic"@,
    ensures
        parse_from(args, i, cfg) == with_synthetic_on(parse_from(args, i + 1, cfg)),
{
    lemma_flags_distinct();
    lemma_synthetic_on_commutes(args, i + 1, cfg);
}

/// `--device NAME` with no later `--device` captures from `NAME` and changes
/// nothing else: the outcome is that of the arguments after `NAME` with the
/// device set to `NAME`.
pub proof fn lemma_device_flag(args: Seq<Seq<char>>, i: nat, cfg: ConfigModel)
    requires
        i + 1 < args.len(),
        args[i as int] == "--device"@,
        forall|k: int| i + 2 <= k < args.len() ==> args[k] != "--device"@,
    ensures
        parse_from(args, i, cfg) == with_device(
            parse_from(args, i + 2, cfg),
            Some(args[(i + 1) as int]),
        ),
{
    lemma_flags_distinct();
    lemma_device_commutes(args, i + 2, cfg, Some(args[(i + 1) as int]));
}

/// `--preset NAME` with no later `--preset` starts on `NAME` and changes
/// nothing else.
pub proof fn lemma_preset_flag(args: Seq<Seq<char>>, i: nat, cfg: ConfigModel)
    requires
        i + 1 < args.len(),
        args[i as int] == "--preset"@,
        forall|k: int| i + 2 <= k < args.len() ==> args[k] != "--preset"@,
    ensures
        parse_from(args, i, cfg) == with_start_preset(
            parse_from(args, i + 2, cfg),
            Some(args[(i + 1) as int]),
        ),
{
    lemma_flags_distinct();
    lemma_start_preset_commutes(args, i + 2, cfg, Some(args[(i + 1) as int]));
}

/// `--assets DIR` with no later `--assets` uses `DIR` and changes nothing
/// else.
pub proof fn lemma_assets_flag(args: Seq<Seq<char>>, i: nat, cfg: ConfigModel)
    requires
        i + 1 < args.len(),
        args[i as int] == "--assets"@,
        forall|k: int| i + 2 <= k < args.len() ==> args[k] != "--assets"@,
    ensures
        parse_from(args, i, cfg) == with_assets_dir(parse_from(args, i + 2, cfg), args[(i + 1) as int]),
{
    lemma_flags_distinct();
    lemma_assets_dir_commutes(args, i + 2, cfg, args[(i + 1) as int]);
}

/// A value flag at the very end has no value: `--device` and `--preset` then
/// clear their setting and `--assets` leaves the directory as it was; the run
/// goes ahead with everything else unchanged.
pub proof fn lemma_value_flag_at_end(args: Seq<Seq<char>>, cfg: ConfigModel)
    requires
        args.len() > 0,
    ensures
        args.last() == "--device"@ ==> parse_from(args, (args.len() - 1) as nat, cfg)
            == CliOutcome::Run(ConfigModel { device: None, ..cfg }),
        args.last() == "--preset"@ ==> parse_from(args, (args.len() - 1) as nat, cfg)
            == CliOutcome::Run(ConfigModel { start_preset: None, ..cfg }),
        args.last() == "--assets"@ ==> parse_from(args, (args.len() - 1) as nat, cfg)
            == CliOutcome::Run(cfg),
{
    lemma_flags_distinct();
    let n = args.len();
    assert(args[(n - 1) as int] == args.last());
    assert(parse_from(args, n, ConfigModel { device: None, ..cfg }) == CliOutcome::Run(
        ConfigModel { device: None, ..cfg },
    ));
    assert(parse_from(args, n, ConfigModel { start_preset: None, ..cfg }) == CliOutcome::Run(
        ConfigModel { start_preset: None, ..cfg },
    ));
    assert(parse_from(args, n, cfg) == CliOutcome::Run(cfg));
}

/// A command line with only the program's name runs with the synthetic
/// source off, vsync on, no device, no start preset and the default assets
/// directory.
pub proof fn lemma_no_arguments(program: Seq<char>, default_assets_dir: Seq<char>)
    ensures
        parse_args(seq![program], default_assets_dir) == CliOutcome::Run(
            ConfigModel {
                synthetic: false,
                device: None,
                vsync: true,
                assets_dir: default_assets_dir,
                start_preset: None,
            },
        ),
{
}

/// `-h` and `--help` ask for help whatever follows them, and anything that
/// is not a known flag is reported as unknown; neither runs.
pub proof fn lemma_help_and_unknown(args: Seq<Seq<char>>, i: nat, cfg: ConfigModel)
    requires
        i < args.len(),
    ensures
        (args[i as int] == "-h"@ || args[i as int] == "--help"@) ==> parse_from(args, i, cfg)
            == CliOutcome::Help,
        (args[i as int] != "--synthetic"@ && args[i as int] != "--no-vsync"@ && args[i as int]
            != "--device"@ && args[i as int] != "--preset"@ && args[i as int] != "--assets"@
            && args[i as int] != "-h"@ && args[i as int] != "--help"@) ==> parse_from(args, i, cfg)
            == CliOutcome::UnknownArgument(args[i as int]),
{
    lemma_flags_distinct();
}

impl Config {
    /// The configuration for a run without arguments, using `assets_dir` as
    /// the assets directory.
    pub fn new(assets_dir: String) -> (cfg: Config)
        ensures
            cfg@ == default_model(assets_dir@),
    {
        Config { synthetic: false, device: None, vsync: true, assets_dir, start_preset: None }
    }

    /// Read the command line `args` (the program's name first). Flags:
    /// `--synthetic`, `--no-vsync`, `--device <NAME>`, `--preset <NAME>`,
    /// `--assets <DIR>`, `-h`/`--help`; anything else is an unknown argument.
    /// `default_assets_dir` is the assets directory when `--assets` is absent.
    pub fn from_args(args: &Vec<String>, default_assets_dir: String) -> (action: CliAction)
        ensures
            action@ == parse_args(texts(args@), default_assets_dir@),
    {
        let ghost all = texts(args@);
        let mut cfg = Config::new(default_assets_dir);
        let mut i: usize = 1;
        while i < args.len()
            invariant
                1 <= i,
                all == texts(args@),
                parse_args(all, default_assets_dir@) == parse_from(all, i as nat, cfg@),
            decreases args.len() - i,
        {
            let arg = &args[i];
            assert(all[i as int] == arg@);
            if is_flag(arg, "--synthetic") {
                cfg.synthetic = true;
                i = i + 1;
            } else if is_flag(arg, "--no-vsync") {
                cfg.vsync = false;
                i = i + 1;
            } else if is_flag(arg, "--device") {
                cfg.device = value_after(args, i);
                i = if i + 1 < args.len() { i + 2 } else { args.len() };
            } else if is_flag(arg, "--preset") {
                cfg.start_preset = value_after(args, i);
                i = if i + 1 < args.len() { i + 2 } else { args.len() };
            } else if is_flag(arg, "--assets") {
                match value_after(args, i) {
                    Some(dir) => {
                        cfg.assets_dir = dir;
                    },
                    None => {},
                }
                i = if i + 1 < args.len() { i + 2 } else { args.len() };
            } else if is_flag(arg, "-h") || is_flag(arg, "--help") {
                return CliAction::Help;
            } else {
                return CliAction::UnknownArgument(arg.clone());
            }
        }
        CliAction::Run(cfg)
    }
}

} // verus!
