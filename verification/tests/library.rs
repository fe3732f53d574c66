use kefirdrop::audio::{
    align_newest, band_bins, default_sink_monitor, explicit_device, push_window, spectrum_bins,
    xorshift32, AudioConfig, FFT_SIZE, NOISE_SEED, NUM_BINS, SAMPLE_RATE,
};
use kefirdrop::config::{CliAction, Config};
use kefirdrop::control::{
    choose_format, choose_present_mode, react, shader_changed, surface_extent, surface_recovery,
    Key, PresentMode, Reaction, SurfaceFault, SurfaceRecovery, WindowInput,
};
use kefirdrop::preset::{
    collect_presets, name_precedes, sort_by_name, start_index, step_index, Preset, PresetError,
    PresetSpec,
};
use kefirdrop::render::{pack_spectrum, FeedbackTargets, SPECTRUM_VEC4S};
use kefirdrop::shader::{assemble, FS_MAIN, PRESET_MARKER};
use kefirdrop::text::trim;

fn args(list: &[&str]) -> Vec<String> {
    list.iter().map(|s| s.to_string()).collect()
}

fn run(list: &[&str]) -> Config {
    match Config::from_args(&args(list), "assets".to_string()) {
        CliAction::Run(cfg) => cfg,
        CliAction::Help => panic!("unexpected help"),
        CliAction::UnknownArgument(a) => panic!("unexpected unknown argument {a}"),
    }
}

fn preset(name: &str, shader: &str) -> Preset {
    Preset {
        spec: PresetSpec {
            name: name.to_string(),
            shader: shader.to_string(),
            description: String::new(),
        },
        shader_path: format!("assets/{shader}"),
    }
}

fn names(presets: &[Preset]) -> Vec<String> {
    presets.iter().map(|p| p.spec.name.clone()).collect()
}

// ---- shader assembly ----

#[test]
fn assemble_places_body_between_prelude_and_entry_point() {
    let source = assemble("PRELUDE", "fn render(uv: vec2<f32>) -> vec4<f32> { return vec4<f32>(1.0); }");
    let expected = format!(
        "PRELUDE\n// ---- preset ----\nfn render(uv: vec2<f32>) -> vec4<f32> {{ return vec4<f32>(1.0); }}\n{}",
        FS_MAIN
    );
    assert_eq!(source, expected);
    assert!(source.starts_with("PRELUDE"));
    assert!(source.ends_with("return render(in.uv);\n}\n"));
    let render_at = source.find("fn render").unwrap();
    let main_at = source.find("fn fs_main").unwrap();
    assert!(render_at < main_at, "render must be defined before fs_main");
}

#[test]
fn assemble_with_empty_parts() {
    let source = assemble("", "");
    assert_eq!(source, format!("{PRESET_MARKER}\n{FS_MAIN}"));
}

// ---- configuration ----

#[test]
fn no_arguments_give_defaults() {
    let cfg = run(&["kefirdrop"]);
    assert!(!cfg.synthetic);
    assert!(cfg.vsync);
    assert_eq!(cfg.device, None);
    assert_eq!(cfg.start_preset, None);
    assert_eq!(cfg.assets_dir, "assets");
}

#[test]
fn empty_command_line_gives_defaults() {
    let cfg = run(&[]);
    assert!(!cfg.synthetic && cfg.vsync);
}

#[test]
fn flags_set_their_options() {
    let cfg = run(&[
        "kefirdrop",
        "--synthetic",
        "--no-vsync",
        "--device",
        "alsa_output.monitor",
        "--preset",
        "Plasma",
        "--assets",
        "/usr/share/kefirdrop",
    ]);
    assert!(cfg.synthetic);
    assert!(!cfg.vsync);
    assert_eq!(cfg.device.as_deref(), Some("alsa_output.monitor"));
    assert_eq!(cfg.start_preset.as_deref(), Some("Plasma"));
    assert_eq!(cfg.assets_dir, "/usr/share/kefirdrop");
}

#[test]
fn value_flag_takes_next_argument_verbatim() {
    let cfg = run(&["kefirdrop", "--device", "--synthetic"]);
    assert_eq!(cfg.device.as_deref(), Some("--synthetic"));
    assert!(!cfg.synthetic);
}

#[test]
fn trailing_device_flag_clears_device() {
    let cfg = run(&["kefirdrop", "--device", "a", "--device"]);
    assert_eq!(cfg.device, None);
}

#[test]
fn trailing_preset_flag_clears_preset() {
    let cfg = run(&["kefirdrop", "--preset", "Plasma", "--preset"]);
    assert_eq!(cfg.start_preset, None);
}

#[test]
fn trailing_assets_flag_keeps_directory() {
    let cfg = run(&["kefirdrop", "--assets", "x", "--assets"]);
    assert_eq!(cfg.assets_dir, "x");
}

#[test]
fn later_flag_wins() {
    let cfg = run(&["kefirdrop", "--preset", "A", "--preset", "B"]);
    assert_eq!(cfg.start_preset.as_deref(), Some("B"));
}

#[test]
fn help_flags_ask_for_help() {
    for flag in ["-h", "--help"] {
        match Config::from_args(&args(&["kefirdrop", "--synthetic", flag, "--bogus"]), "a".into()) {
            CliAction::Help => {}
            _ => panic!("{flag} should ask for help"),
        }
    }
}

#[test]
fn unknown_argument_is_reported() {
    match Config::from_args(&args(&["kefirdrop", "--synthetic", "--fullscreen", "-h"]), "a".into()) {
        CliAction::UnknownArgument(a) => assert_eq!(a, "--fullscreen"),
        _ => panic!("expected an unknown argument"),
    }
}

#[test]
fn config_new_is_default_run() {
    let cfg = Config::new("dir".to_string());
    assert!(!cfg.synthetic && cfg.vsync && cfg.device.is_none() && cfg.start_preset.is_none());
    assert_eq!(cfg.assets_dir, "dir");
}

// ---- presets ----

#[test]
fn presets_are_sorted_by_name() {
    let found = vec![
        preset("Tunnel", "t.wgsl"),
        preset("Plasma", "p.wgsl"),
        preset("Aurora", "a.wgsl"),
        preset("Plasma Deep", "pd.wgsl"),
    ];
    let sorted = collect_presets(found).unwrap();
    assert_eq!(names(&sorted), vec!["Aurora", "Plasma", "Plasma Deep", "Tunnel"]);
    assert_eq!(sorted[0].spec.shader, "a.wgsl");
    assert_eq!(sorted[3].shader_path, "assets/t.wgsl");
}

#[test]
fn names_order_by_code_point() {
    let sorted = sort_by_name(vec![
        preset("b", "1"),
        preset("a", "2"),
        preset("B", "3"),
        preset("é", "4"),
        preset("", "5"),
    ]);
    assert_eq!(names(&sorted), vec!["", "B", "a", "b", "é"]);
    assert!(name_precedes(&"Plasma".to_string(), &"Plasma Deep".to_string()));
    assert!(!name_precedes(&"Plasma".to_string(), &"Plasma".to_string()));
    assert!(name_precedes(&"Z".to_string(), &"a".to_string()));
}

#[test]
fn equal_names_keep_both_presets() {
    let sorted = sort_by_name(vec![preset("x", "1"), preset("a", "2"), preset("x", "3")]);
    assert_eq!(names(&sorted), vec!["a", "x", "x"]);
    let mut shaders: Vec<String> = sorted.iter().map(|p| p.spec.shader.clone()).collect();
    shaders.sort();
    assert_eq!(shaders, vec!["1", "2", "3"]);
}

#[test]
fn empty_catalogue_is_an_error() {
    assert_eq!(collect_presets(Vec::new()).err(), Some(PresetError::NoPresets));
}

#[test]
fn start_preset_is_found_by_name() {
    let presets = sort_by_name(vec![preset("A", "a"), preset("B", "b"), preset("C", "c")]);
    assert_eq!(start_index(&presets, &Some("C".to_string())), 2);
    assert_eq!(start_index(&presets, &Some("B".to_string())), 1);
    assert_eq!(start_index(&presets, &Some("nope".to_string())), 0);
    assert_eq!(start_index(&presets, &None), 0);
    assert_eq!(start_index(&Vec::new(), &Some("A".to_string())), 0);
}

#[test]
fn start_preset_picks_first_match() {
    let presets = vec![preset("A", "a"), preset("B", "b1"), preset("B", "b2")];
    assert_eq!(start_index(&presets, &Some("B".to_string())), 1);
}

#[test]
fn cycling_wraps_at_both_ends() {
    assert_eq!(step_index(0, 1, 3), 1);
    assert_eq!(step_index(2, 1, 3), 0);
    assert_eq!(step_index(0, -1, 3), 2);
    assert_eq!(step_index(1, -1, 3), 0);
    assert_eq!(step_index(0, -7, 3), 2);
    assert_eq!(step_index(1, 8, 3), 0);
    assert_eq!(step_index(0, 1, 1), 0);
    assert_eq!(step_index(0, -1, 1), 0);
}

#[test]
fn next_then_previous_returns_to_start() {
    for n in 1..6usize {
        for i in 0..n {
            assert_eq!(step_index(step_index(i, 1, n), -1, n), i);
        }
    }
}

// ---- audio ----

#[test]
fn audio_config_default() {
    let cfg = AudioConfig::default();
    assert!(!cfg.synthetic);
    assert!(cfg.device.is_none());
    assert_eq!(cfg.sample_rate, 44_100);
    assert_eq!(SAMPLE_RATE, 44_100);
    assert_eq!(NUM_BINS % 4, 0);
    assert_eq!(FFT_SIZE, 2048);
}

#[test]
fn configured_device_comes_first() {
    let d = explicit_device(&Some("cfg".to_string()), &Some("env".to_string()));
    assert_eq!(d.as_deref(), Some("cfg"));
}

#[test]
fn environment_device_is_trimmed() {
    let d = explicit_device(&None, &Some("  sink.monitor \n".to_string()));
    assert_eq!(d.as_deref(), Some("sink.monitor"));
}

#[test]
fn blank_environment_device_is_ignored() {
    assert_eq!(explicit_device(&None, &Some(" \t ".to_string())), None);
    assert_eq!(explicit_device(&None, &None), None);
}

#[test]
fn default_sink_monitor_appends_suffix() {
    assert_eq!(
        default_sink_monitor("alsa_output.pci-0000_00_1f.3.analog-stereo\n").as_deref(),
        Some("alsa_output.pci-0000_00_1f.3.analog-stereo.monitor")
    );
    assert_eq!(default_sink_monitor("  \n"), None);
    assert_eq!(default_sink_monitor(""), None);
}

#[test]
fn window_keeps_most_recent_samples() {
    let mut w = vec![1, 2, 3, 4];
    push_window(&mut w, &[5, 6]);
    assert_eq!(w, vec![3, 4, 5, 6]);
    push_window(&mut w, &[7, 8, 9, 10, 11]);
    assert_eq!(w, vec![8, 9, 10, 11]);
    push_window(&mut w, &[]);
    assert_eq!(w, vec![8, 9, 10, 11]);
    push_window(&mut w, &[12, 13, 14, 15]);
    assert_eq!(w, vec![12, 13, 14, 15]);
}

#[test]
fn window_pushes_compose() {
    let mut a = vec![0u32; 5];
    push_window(&mut a, &[1, 2, 3]);
    push_window(&mut a, &[4, 5, 6, 7]);
    let mut b = vec![0u32; 5];
    push_window(&mut b, &[1, 2, 3, 4, 5, 6, 7]);
    assert_eq!(a, b);
}

#[test]
fn empty_window_stays_empty() {
    let mut w: Vec<f32> = Vec::new();
    push_window(&mut w, &[1.0, 2.0]);
    assert!(w.is_empty());
}

#[test]
fn analysis_frame_is_newest_aligned() {
    assert_eq!(align_newest(&[1, 2, 3], 5, 0), vec![0, 0, 1, 2, 3]);
    assert_eq!(align_newest(&[1, 2, 3, 4, 5, 6], 4, 0), vec![3, 4, 5, 6]);
    assert_eq!(align_newest::<i32>(&[], 3, 9), vec![9, 9, 9]);
    assert_eq!(align_newest(&[1.5f32, 2.5], 2, 0.0), vec![1.5, 2.5]);
}

#[test]
fn band_bins_skip_dc_and_stay_nonempty() {
    assert_eq!(band_bins(0, 6), (1, 6));
    assert_eq!(band_bins(6, 92), (6, 92));
    assert_eq!(band_bins(92, 2000), (92, 1024));
    assert_eq!(band_bins(5, 5), (5, 6));
    assert_eq!(band_bins(1500, 2000), (1500, 1501));
}

#[test]
fn spectrum_bins_are_widened_then_cut() {
    assert_eq!(spectrum_bins(1, 1, 1024), (1, 2));
    assert_eq!(spectrum_bins(10, 12, 1024), (10, 12));
    assert_eq!(spectrum_bins(900, 1100, 1024), (900, 1024));
    assert_eq!(spectrum_bins(1024, 1024, 1024), (1024, 1024));
}

#[test]
fn noise_generator_steps() {
    let a = xorshift32(NOISE_SEED);
    assert_eq!(a, 0x8798_5aa5);
    assert_eq!(xorshift32(a), 0x155b_24a3);
    assert_eq!(xorshift32(0), 0);
    let mut x = 1u32;
    for _ in 0..10_000 {
        x = xorshift32(x);
        assert_ne!(x, 0);
    }
}

// ---- text ----

#[test]
fn trim_removes_unicode_whitespace() {
    assert_eq!(trim("  a b \t\n"), "a b");
    assert_eq!(trim("\u{3000}\u{00A0}x\u{2029}"), "x");
    assert_eq!(trim("\u{200B}x"), "\u{200B}x");
    assert_eq!(trim(""), "");
    assert_eq!(trim(" \u{85} "), "");
}

// ---- window events and the surface ----

#[test]
fn keys_match_the_documented_bindings() {
    let key = |k: Key| react(&WindowInput::KeyPressed(k));
    assert_eq!(key(Key::ArrowRight), Reaction::SwitchPreset(1));
    assert_eq!(key(Key::ArrowLeft), Reaction::SwitchPreset(-1));
    assert_eq!(key(Key::Escape), Reaction::Exit);
    let ch = |c: &str| key(Key::Character(c.to_string()));
    assert_eq!(ch("n"), Reaction::SwitchPreset(1));
    assert_eq!(ch("N"), Reaction::SwitchPreset(1));
    assert_eq!(ch("p"), Reaction::SwitchPreset(-1));
    assert_eq!(ch("P"), Reaction::SwitchPreset(-1));
    assert_eq!(ch("r"), Reaction::ReloadPreset);
    assert_eq!(ch("R"), Reaction::ReloadPreset);
    assert_eq!(ch("q"), Reaction::Exit);
    assert_eq!(ch("Q"), Reaction::Exit);
    assert_eq!(ch("x"), Reaction::Ignore);
    assert_eq!(ch("nn"), Reaction::Ignore);
    assert_eq!(key(Key::Other), Reaction::Ignore);
}

#[test]
fn window_events_map_to_reactions() {
    assert_eq!(react(&WindowInput::CloseRequested), Reaction::Exit);
    assert_eq!(react(&WindowInput::RedrawRequested), Reaction::Redraw);
    assert_eq!(react(&WindowInput::Other), Reaction::Ignore);
    assert_eq!(
        react(&WindowInput::Resized { width: 0, height: 720 }),
        Reaction::Resize { width: 1, height: 720 }
    );
    assert_eq!(
        react(&WindowInput::Resized { width: 1280, height: 0 }),
        Reaction::Resize { width: 1280, height: 1 }
    );
}

#[test]
fn surface_extent_is_at_least_one_pixel() {
    assert_eq!(surface_extent(0, 0), (1, 1));
    assert_eq!(surface_extent(1920, 1080), (1920, 1080));
}

#[test]
fn vsync_uses_fifo() {
    let modes = vec![PresentMode::Mailbox, PresentMode::Fifo];
    assert_eq!(choose_present_mode(true, &modes), PresentMode::Fifo);
}

#[test]
fn no_vsync_prefers_first_uncapped_mode() {
    let modes = vec![PresentMode::Fifo, PresentMode::Immediate, PresentMode::Mailbox];
    assert_eq!(choose_present_mode(false, &modes), PresentMode::Immediate);
    let modes = vec![PresentMode::FifoRelaxed, PresentMode::Mailbox];
    assert_eq!(choose_present_mode(false, &modes), PresentMode::Mailbox);
    let modes = vec![PresentMode::FifoRelaxed, PresentMode::AutoNoVsync];
    assert_eq!(choose_present_mode(false, &modes), PresentMode::Fifo);
    assert_eq!(choose_present_mode(false, &Vec::new()), PresentMode::Fifo);
}

#[test]
fn first_srgb_format_is_chosen() {
    assert_eq!(choose_format(&vec![false, true, true]), 1);
    assert_eq!(choose_format(&vec![false, false]), 0);
    assert_eq!(choose_format(&vec![true]), 0);
}

#[test]
fn surface_faults_are_recovered() {
    assert_eq!(surface_recovery(SurfaceFault::Lost), SurfaceRecovery::Reconfigure);
    assert_eq!(surface_recovery(SurfaceFault::Outdated), SurfaceRecovery::Reconfigure);
    assert_eq!(surface_recovery(SurfaceFault::OutOfMemory), SurfaceRecovery::ReportOutOfMemory);
    assert_eq!(surface_recovery(SurfaceFault::Timeout), SurfaceRecovery::Warn);
    assert_eq!(surface_recovery(SurfaceFault::Other), SurfaceRecovery::Warn);
}

#[test]
fn shader_reload_needs_a_later_time() {
    assert!(shader_changed(Some(10), Some(5)));
    assert!(!shader_changed(Some(5), Some(5)));
    assert!(!shader_changed(Some(4), Some(5)));
    assert!(!shader_changed(None, Some(5)));
    assert!(!shader_changed(Some(5), None));
    assert!(shader_changed(Some(0), Some(-3)));
}

// ---- rendering ----

#[test]
fn feedback_targets_ping_pong() {
    let mut t = FeedbackTargets::new(640, 480);
    assert_eq!(t.frame_indices(), (0, 1));
    t.swap();
    assert_eq!(t.frame_indices(), (1, 0));
    t.swap();
    assert_eq!(t.frame_indices(), (0, 1));
}

#[test]
fn feedback_targets_resize() {
    let mut t = FeedbackTargets::new(640, 480);
    t.swap();
    assert!(!t.resize(640, 480));
    assert_eq!(t.frame_indices(), (1, 0));
    assert!(!t.resize(0, 480));
    assert!(!t.resize(800, 0));
    assert_eq!((t.width(), t.height()), (640, 480));
    assert!(t.resize(800, 600));
    assert_eq!((t.width(), t.height()), (800, 600));
    assert_eq!(t.frame_indices(), (0, 1));
    assert!(t.resize(800, 601));
}

#[test]
fn spectrum_is_packed_four_per_vector() {
    let spectrum: Vec<u32> = (0..NUM_BINS as u32).collect();
    let packed = pack_spectrum(&spectrum);
    assert_eq!(packed.len(), SPECTRUM_VEC4S);
    assert_eq!(packed[0], [0, 1, 2, 3]);
    assert_eq!(packed[15], [60, 61, 62, 63]);
    for (i, v) in spectrum.iter().enumerate() {
        assert_eq!(packed[i / 4][i % 4], *v);
    }
    assert!(pack_spectrum::<f32>(&[]).is_empty());
}
