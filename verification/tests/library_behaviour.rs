use game_op::assets::{AssetStager, StageKind};
use game_op::cache::{backup_path, cache_candidates, plan_redirection, RedirectPlan};
use game_op::cli::value_after;
use game_op::gpu::{
    is_gpu_card_name, parse_gpu_names, parse_sysfs_u32, recommendation_for, GpuInfo, GpuVendor,
};
use game_op::mesh::{compact_obj_positions, is_obj_file, obj_vertex_fields, MeshReducer, MeshPolicy, MeshReport};
use game_op::optimizer::{CommandSpec, Optimizer, SessionAction, SessionConfig};
use game_op::path::with_extension_of;
use game_op::platform::{default_vrchat_target, vrchat_target_for, Platform};
use game_op::process::{
    filter_processes, matches_target, parse_csv_line, parse_ps, process_from_cmdline, GameProcess,
    ProcessWatcher,
};
use game_op::profile::ProfileDefaults;
use game_op::refresh::{asset_action, is_up_to_date, AssetAction};
use game_op::session::{initial_watch_state, watch_step, WatchAction, WatchEvent, WatchState};
use game_op::text::{parse_u32, push_decimal, IntErrorKind};
use game_op::texture::{
    contains_any, is_texture_file, max_size_for_texture, TexturePolicy, TextureReducer, TextureReport,
};
use game_op::unity_bundle::{inspect_header, is_probable_bundle};
use game_op::vrchat::{
    analyze_cache, analyze_cache_checked, estimate_texture_mb, recommendation_lines, VrchatAssetReport,
};
use game_op::watch::{route_path, AssetRoute};

fn chars(s: &str) -> Vec<char> {
    s.chars().collect()
}

fn strings(v: &[&str]) -> Vec<String> {
    v.iter().map(|s| s.to_string()).collect()
}

// ------------------------------------------------------------ numbers

#[test]
fn parses_decimal_like_std() {
    assert_eq!(parse_u32(&chars("0")), Ok(0));
    assert_eq!(parse_u32(&chars("+42")), Ok(42));
    assert_eq!(parse_u32(&chars("4294967295")), Ok(u32::MAX));
    assert_eq!(parse_u32(&chars("")), Err(IntErrorKind::Empty));
    assert_eq!(parse_u32(&chars("+")), Err(IntErrorKind::InvalidDigit));
    assert_eq!(parse_u32(&chars("-1")), Err(IntErrorKind::InvalidDigit));
    assert_eq!(parse_u32(&chars("12a")), Err(IntErrorKind::InvalidDigit));
    assert_eq!(parse_u32(&chars("4294967296")), Err(IntErrorKind::PosOverflow));
    assert_eq!(parse_u32(&chars("99999999999x")), Err(IntErrorKind::PosOverflow));
    for s in ["0", "+7", "123", "4294967295", "", "+", "-", "x9", "99999999999"] {
        let expected = s.parse::<u32>().map_err(|e| e.to_string());
        let got = parse_u32(&chars(s)).map_err(|k| k.message());
        assert_eq!(got, expected, "input {s:?}");
    }
}

#[test]
fn decimal_roundtrip_on_samples() {
    for n in [0u64, 7, 10, 99, 1234, 4294967295] {
        let mut out = Vec::new();
        push_decimal(&mut out, n);
        assert_eq!(out.iter().collect::<String>(), n.to_string());
        assert_eq!(parse_u32(&out), Ok(n as u32));
    }
}

// ------------------------------------------------------------ GPUs

#[test]
fn classifies_gpu_vendors_line_by_line() {
    let gpus = parse_gpu_names(
        "  NVIDIA GeForce RTX 3060 \r\n\n AMD Radeon RX 580\nApple M1\nVirtio GPU\nIntel UHD 620",
    );
    let views: Vec<(GpuVendor, &str)> = gpus.iter().map(|g| (g.vendor, g.name.as_str())).collect();
    assert_eq!(
        views,
        vec![
            (GpuVendor::Nvidia, "NVIDIA GeForce RTX 3060"),
            (GpuVendor::Amd, "AMD Radeon RX 580"),
            (GpuVendor::Apple, "Apple M1"),
            (GpuVendor::Unknown, "Virtio GPU"),
            (GpuVendor::Intel, "Intel UHD 620"),
        ]
    );
    assert!(parse_gpu_names("").is_empty());
    assert!(parse_gpu_names("\n  \n").is_empty());
}

#[test]
fn gives_gpu_advice_by_adapter() {
    let intel = vec![GpuInfo { vendor: GpuVendor::Intel, name: "Intel Iris Xe".to_string() }];
    assert!(recommendation_for(&intel).starts_with("Intel integrated GPU detected"));
    let other = vec![GpuInfo { vendor: GpuVendor::Nvidia, name: "GTX 1050".to_string() }];
    assert!(recommendation_for(&other).starts_with("No low-end Intel iGPU profile detected"));
    let hd = vec![GpuInfo { vendor: GpuVendor::Unknown, name: "HD GRAPHICS 620".to_string() }];
    assert!(recommendation_for(&hd).starts_with("Intel HD Graphics 620 detected"));
    assert!(recommendation_for(&[]).starts_with("No low-end"));
}

#[test]
fn reads_sysfs_frequencies_and_card_names() {
    assert_eq!(parse_sysfs_u32(" 1100\n"), Some(1100));
    assert_eq!(parse_sysfs_u32("abc"), None);
    assert_eq!(parse_sysfs_u32(""), None);
    assert!(is_gpu_card_name("card0"));
    assert!(!is_gpu_card_name("card0-HDMI-A-1"));
    assert!(!is_gpu_card_name("renderD128"));
}

// ------------------------------------------------------------ processes

#[test]
fn reports_ps_parse_errors() {
    assert_eq!(parse_ps("  12 a\n oops b\n").unwrap_err(), "invalid digit found in string");
    assert_eq!(
        parse_ps("99999999999 big\n").unwrap_err(),
        "number too large to fit in target type"
    );
    let ok = parse_ps("\n   \n7\n8   spaced  name \n").unwrap();
    assert_eq!(ok.len(), 2);
    assert_eq!((ok[0].pid, ok[0].name.as_str()), (7, ""));
    assert_eq!((ok[1].pid, ok[1].name.as_str()), (8, "spaced  name"));
}

#[test]
fn splits_tasklist_csv_fields() {
    assert_eq!(parse_csv_line("\"a\",\"b c\",\"\""), strings(&["a", "b c\","]));
    for line in ["\"x\",\"1\"", "\"\"\"", "a\",\"\",\"b", "\",\""] {
        let expected: Vec<String> =
            line.trim_matches('"').split("\",\"").map(|v| v.to_string()).collect();
        assert_eq!(parse_csv_line(line), expected, "{line}");
    }
    assert_eq!(parse_csv_line(""), strings(&[""]));
    assert_eq!(parse_csv_line("plain"), strings(&["plain"]));
}

#[test]
fn finds_the_game_and_skips_helpers() {
    let watcher = ProcessWatcher::new("VRChat.exe".to_string());
    let list = vec![
        GameProcess { pid: 1, name: "steam-launch-wrapper -- VRChat.exe".to_string() },
        GameProcess { pid: 2, name: "Z:\\games\\VRChat\\start_protected_game.exe".to_string() },
        GameProcess { pid: 3, name: "C:\\Games\\VRChat\\VRChat.exe".to_string() },
        GameProcess { pid: 4, name: "/opt/VRChat.exe".to_string() },
    ];
    let found = watcher.find(&list).unwrap();
    assert_eq!(found.pid, 3);
    assert!(watcher.is_running(&list, 4));
    assert!(!watcher.is_running(&list, 5));
    assert!(ProcessWatcher::new("VRChat".to_string()).find(&list[..2]).is_none());
    assert!(matches_target("/usr/bin/vrchat", "VRChat.exe"));
    assert!(matches_target("VRCHAT.EXE", "vrchat.exe"));
    assert!(!matches_target("crash-reporter VRChat", "VRChat"));
    assert!(!matches_target("/usr/bin/mitmdump", "mitmdump"));
}

#[test]
fn filters_own_and_defunct_processes() {
    let list = vec![
        GameProcess { pid: 10, name: "a".to_string() },
        GameProcess { pid: 11, name: "[b] <defunct>".to_string() },
        GameProcess { pid: 12, name: "c".to_string() },
    ];
    let kept: Vec<u32> = filter_processes(list.clone(), 12, true).iter().map(|p| p.pid).collect();
    assert_eq!(kept, vec![10]);
    let kept: Vec<u32> = filter_processes(list, 99, false).iter().map(|p| p.pid).collect();
    assert_eq!(kept, vec![10, 11, 12]);
}

#[test]
fn reads_proc_cmdlines() {
    let p = process_from_cmdline(5, 1, b"/usr/bin/VRChat\0--flag\0").unwrap();
    assert_eq!((p.pid, p.name.as_str()), (5, "/usr/bin/VRChat --flag"));
    assert!(process_from_cmdline(1, 1, b"x").is_none());
    assert!(process_from_cmdline(5, 1, b"").is_none());
    assert!(process_from_cmdline(5, 1, b"\xff\xfe").is_none());
    assert!(process_from_cmdline(5, 1, b"zombie <defunct>").is_none());
}

// ------------------------------------------------------------ paths and routing

#[test]
fn routes_by_extension_ignoring_case() {
    assert_eq!(route_path("dir/Face.PNG"), AssetRoute::Texture);
    assert_eq!(route_path("x.webp"), AssetRoute::Texture);
    assert_eq!(route_path("x.tar.OBJ"), AssetRoute::Mesh);
    assert_eq!(route_path("Resources.ASSETS"), AssetRoute::UnityBundle);
    assert_eq!(route_path(".png"), AssetRoute::Passthrough);
    assert_eq!(route_path("noext"), AssetRoute::Passthrough);
    assert_eq!(route_path("dir.png/"), AssetRoute::Texture);
    assert_eq!(route_path("dir/.."), AssetRoute::Passthrough);
}

#[test]
fn every_bundle_route_is_a_probable_bundle() {
    for p in ["a.bundle", "b.VRCA", "c.vrcw", "d.assets", "e.resource", "f.txt", "__DATA", "x/__data"] {
        if route_path(p) == AssetRoute::UnityBundle {
            assert!(is_probable_bundle(p), "{p}");
        }
    }
    assert!(is_probable_bundle("cache/abc/__data"));
    assert!(!is_probable_bundle("cache/abc/data"));
}

#[test]
fn replaces_extensions_like_path() {
    for (p, e) in [
        ("/tmp/cache", "game-op-optimized"),
        ("/tmp/cache.d/", "x"),
        ("a/b.tar.gz", "zip"),
        (".bashrc", "bak"),
        ("a/b.txt", ""),
        ("/", "x"),
        ("a/..", "x"),
        ("a/.", "x"),
    ] {
        let expected = std::path::Path::new(p).with_extension(e);
        assert_eq!(with_extension_of(p, e), expected.to_str().unwrap(), "{p} {e}");
    }
}

#[test]
fn value_follows_flag() {
    let args = strings(&["game-op", "--profile", "vrchat-performance", "--target"]);
    assert_eq!(value_after(&args, "--profile"), Some("vrchat-performance".to_string()));
    assert_eq!(value_after(&args, "--target"), None);
    assert_eq!(value_after(&args, "--missing"), None);
    assert_eq!(value_after(&[], "--x"), None);
}

// ------------------------------------------------------------ textures

#[test]
fn texture_budgets_follow_class_and_preset() {
    let mask = max_size_for_texture("metal_mask.png", 1000, "balanced");
    let plain = max_size_for_texture("world.png", 1000, "balanced");
    let detail = max_size_for_texture("hair_normal.png", 1000, "balanced");
    assert!(mask <= plain && plain <= detail);
    assert_eq!((mask, plain, detail), (375, 750, 938));
    assert_eq!(max_size_for_texture("x.png", 100, "performance"), 256);
    assert_eq!(max_size_for_texture("Body.PNG", 1024, "ultra-safe"), 1920);
    assert_eq!(max_size_for_texture("ui_icon.png", 1024, "unknown"), 1024);
    assert_eq!(max_size_for_texture("face.png", u32::MAX, "ultra-safe"), u32::MAX);
    assert!(contains_any("avatar_face", &["eye", "face"]));
    assert!(!contains_any("avatar", &[]));
}

#[test]
fn recognises_textures_by_extension_or_magic() {
    assert!(is_texture_file("a.JPG", &[]));
    assert!(is_texture_file("blob", b"\x89PNG\r\n\x1a\n\0\0\0\0"));
    assert!(is_texture_file("blob", b"\xff\xd8\xff\xe0\0\0\0\0\0\0\0\0"));
    assert!(is_texture_file("blob", b"RIFF\0\0\0\0WEBP"));
    assert!(!is_texture_file("blob", b"\x89PNG"));
    assert!(!is_texture_file("blob", b"RIFF\0\0\0\0WAVE"));
}

#[test]
fn plans_texture_resizes() {
    let reducer = TextureReducer::new(TexturePolicy {
        cache_dir: Some("/tmp/cache".to_string()),
        output_dir: None,
        max_texture_size: 512,
        quality_preset: "high-quality-low-end".to_string(),
        dry_run: false,
        verbose: false,
    });
    let plan = reducer.plan("avatar.png", 2048, 1024);
    assert_eq!(plan.max_size, 512);
    assert!(plan.needs_resize);
    assert!(!reducer.plan("avatar.png", 512, 100).needs_resize);
    let img = image::DynamicImage::new_rgba8(300, 700);
    let plan = reducer.plan_image("metal_mask.png", &img);
    assert_eq!((plan.width, plan.height, plan.max_size, plan.needs_resize), (300, 700, 256, true));
    assert!(reducer.has_cache_dir());
    assert_eq!(reducer.output_root(), Some("/tmp/cache.game-op-optimized".to_string()));
}

#[test]
fn texture_report_counts_each_file_once() {
    let mut r = TextureReport::default();
    r.record_scanned(true);
    r.record_scanned(true);
    r.record_scanned(false);
    let mut worker = TextureReport::default();
    worker.record_outcome(Some(true));
    worker.record_outcome(None);
    r.absorb(&worker);
    assert_eq!((r.scanned, r.optimized, r.copied, r.skipped), (3, 1, 0, 2));
    assert_eq!(r.optimized + r.copied + r.skipped, r.scanned);
}

// ------------------------------------------------------------ meshes

fn quantize(val: &str) -> String {
    if let Ok(f) = val.parse::<f32>() {
        let formatted = format!("{:.4}", f);
        formatted.trim_end_matches('0').trim_end_matches('.').to_string()
    } else {
        val.to_string()
    }
}

fn compact(source: &str) -> String {
    let q: Vec<Vec<String>> = obj_vertex_fields(source)
        .iter()
        .map(|f| f.iter().map(|t| quantize(t)).collect())
        .collect();
    compact_obj_positions(source, &q)
}

#[test]
fn renumbers_face_references_to_the_same_coordinates() {
    let source = "o m\r\nv 1 2 3\r\nv 0 0 0\r\n  # note\r\nv 1.00001 2 3\r\nvt 0 1\r\nf 3/1/1 2//4 9 x/1\r\n\r\n";
    let out = compact(source);
    assert_eq!(out, "v 1 2 3\nv 0 0 0\no m\nvt 0 1\nf 1/1/1 2//4 9 x/1\n");
    assert!(MeshReducer::shrinks(source, &out));
    assert!(!MeshReducer::shrinks("v 1 2 3\n", "v 1 2 3\n"));
}

#[test]
fn compacting_an_empty_mesh_gives_one_newline() {
    assert_eq!(compact(""), "\n");
    assert_eq!(compact("# only a comment"), "\n");
    assert_eq!(compact("f"), "f\n");
}

#[test]
fn mesh_helpers() {
    assert!(is_obj_file("MODEL.OBJ"));
    assert!(!is_obj_file("model.objx"));
    let reducer = MeshReducer::new(MeshPolicy {
        cache_dir: Some("/c/cache/".to_string()),
        output_dir: None,
        dry_run: true,
        verbose: false,
    });
    assert_eq!(reducer.output_root(), Some("/c/cache.game-op-mesh-optimized".to_string()));
    let mut r = MeshReport::default();
    r.record_scanned(false);
    r.record_scanned(true);
    r.record_outcome(Some(false));
    assert_eq!((r.scanned, r.optimized, r.copied, r.skipped), (2, 0, 1, 1));
}

// ------------------------------------------------------------ bundles and caches

#[test]
fn unity_header_edge_cases() {
    assert!(inspect_header("p", b"UnityFS\0tes").is_none());
    assert!(inspect_header("p", b"UnityWeb\0\0\0\0\x0d5.6\0").is_none());
    assert!(inspect_header("p", b"UnityRaw\0\0\0\0\x0d5.6\0").is_none());
    let info = inspect_header("p", b"UnityFS\0\0\0\0\x0d2019-bad\0").unwrap();
    assert_eq!(info.signature, "UnityFS");
    assert_eq!(info.path, "p");
    assert!(!info.supported_for_rewrite);
    let long = [b"UnityFS\0\0\0\0\x0d".to_vec(), vec![b'1'; 116]].concat();
    assert_eq!(inspect_header("p", &long).unwrap().signature, "UnityFS");
    let shorter = [b"UnityFS\0\0\0\0\x0d".to_vec(), vec![b'1'; 100]].concat();
    assert_eq!(
        inspect_header("p", &shorter).unwrap().signature,
        format!("UnityFS - Unity {}", "1".repeat(100))
    );
}

#[test]
fn cache_census_counts_every_file_once() {
    let files = strings(&["a/x.PNG", "a/y.jpeg", "b/m.obj", "c/__data", "c/w.vrca", "d/readme.txt"]);
    let r = analyze_cache(&files, 1024);
    assert_eq!((r.textures, r.meshes, r.probable_bundles, r.passthrough), (2, 1, 2, 1));
    assert_eq!(r.textures + r.meshes + r.probable_bundles + r.passthrough, files.len());
    assert_eq!(r.estimated_texture_megabytes, 8);
    assert_eq!(estimate_texture_mb(100), 1);
    assert_eq!(estimate_texture_mb(2048), 16);
}

#[test]
fn describes_cache_reports() {
    let r = VrchatAssetReport {
        textures: 200,
        meshes: 3,
        probable_bundles: 1,
        passthrough: 0,
        estimated_texture_megabytes: 800,
    };
    let lines = recommendation_lines(&r);
    assert_eq!(lines.len(), 3);
    assert_eq!(
        lines[0],
        "VRChat asset report: textures=200, meshes=3, probable_bundles=1, passthrough=0, estimated_texture_budget=800MiB"
    );
    assert!(lines[2].contains("768"));
    assert_eq!(recommendation_lines(&VrchatAssetReport::default()).len(), 1);
}

#[test]
fn lists_cache_locations() {
    let w = cache_candidates(Platform::Windows, "C:\\Users\\me");
    assert_eq!(w, strings(&["C:\\Users\\me\\AppData\\LocalLow\\VRChat\\VRChat\\Cache-WindowsPlayer"]));
    let l = cache_candidates(Platform::Linux, "/home/me");
    assert_eq!(l.len(), 4);
    assert!(l[0].starts_with("/home/me/.steam/steam/steamapps/compatdata/438100"));
    assert!(l[3].starts_with("/run/media/mmcblk0p1"));
    assert_eq!(backup_path("/x/Cache"), "/x/Cache.game-op-original");
}

#[test]
fn stages_by_extension() {
    let stager = AssetStager::new("out".to_string());
    assert_eq!(stager.asset_output(), "out");
    let (kind, out) = stager.plan_stage("cache/Avatar.PNG");
    assert_eq!((kind, out.as_str()), (StageKind::Texture, "out/Avatar.PNG"));
    assert_eq!(stager.plan_stage("m.fbx").0, StageKind::Mesh);
    assert_eq!(stager.plan_stage("voice.ogg").0, StageKind::Passthrough);
    let (_, root) = AssetStager::new("out/".to_string()).plan_stage("x.dds");
    assert_eq!(root, "out/x.dds");
}

// ------------------------------------------------------------ profiles and session

#[test]
fn profiles_give_their_defaults() {
    let perf = ProfileDefaults::from_name_for(Some("vrchat-performance"), true);
    assert_eq!(perf.target.as_deref(), Some("VRChat.exe"));
    assert_eq!((perf.quality_preset.as_str(), perf.max_texture_size, perf.live_asset_pass_seconds), ("performance", 768, 10));
    let none = ProfileDefaults::from_name_for(None, false);
    assert_eq!(none.target.as_deref(), Some("VRChat"));
    assert_eq!(none.live_asset_pass_seconds, 15);
    let other = ProfileDefaults::from_name(Some("custom"));
    assert_eq!(other.target, None);
    assert_eq!((other.quality_preset.as_str(), other.max_texture_size, other.live_asset_pass_seconds), ("high-quality-low-end", 1024, 30));
    assert!(["VRChat", "VRChat.exe"].contains(&default_vrchat_target()));
    assert_eq!(vrchat_target_for(false), "VRChat");
}

fn view(c: &CommandSpec) -> (String, Vec<String>) {
    (c.program.clone(), c.args.clone())
}

#[test]
fn session_actions_and_revert_order() {
    let mut optimizer = Optimizer::new(SessionConfig {
        target_process: "TestGame".to_string(),
        dry_run: true,
        set_process_priority: true,
        enable_power_mode: true,
        apply_gpu_profile: false,
        enable_driver_upscaling: true,
    });
    let process = GameProcess { pid: 99999, name: "TestGame".to_string() };
    let actions = optimizer.apply(&process, Platform::Linux, "");
    assert_eq!(actions.len(), 3);
    match &actions[0] {
        SessionAction::Run { command, undo, required } => {
            assert_eq!(command.program, "sh");
            assert!(command.args[1].contains("-g performance"));
            assert!(undo.as_ref().unwrap().args[1].contains("-g powersave"));
            assert!(*required);
        }
        other => panic!("unexpected {other:?}"),
    }
    match &actions[1] {
        SessionAction::Run { command, undo, required } => {
            assert_eq!(view(command), ("renice".to_string(), strings(&["-n", "-5", "-p", "99999"])));
            assert!(undo.is_none() && !*required);
        }
        other => panic!("unexpected {other:?}"),
    }
    assert!(matches!(actions[2], SessionAction::DriverUpscaling));
    let win = Optimizer::priority_command(Platform::Windows, 42);
    assert_eq!(view(&win), ("powershell".to_string(), strings(&["-NoProfile", "-Command", "(Get-Process -Id 42).PriorityClass='High'"])));
    let (on, off) = Optimizer::power_mode_commands(Platform::MacOs);
    assert_eq!(view(&on), ("pmset".to_string(), strings(&["-a", "lowpowermode", "0"])));
    assert_eq!(view(&off), ("pmset".to_string(), strings(&["-a", "lowpowermode", "1"])));

    optimizer.push_revert(CommandSpec::new("first", &[]));
    optimizer.push_revert(CommandSpec::new("second", &["x"]));
    assert_eq!(optimizer.pending_reverts(), 2);
    assert_eq!(optimizer.pop_revert().unwrap().program, "second");
    assert_eq!(optimizer.pop_revert().unwrap().program, "first");
    assert!(optimizer.pop_revert().is_none());
    assert!(optimizer.config().dry_run);
}

#[test]
fn queries_adapters_per_platform() {
    let w = game_op::gpu::gpu_query_command(Platform::Windows);
    assert_eq!(w.program, "powershell");
    assert_eq!(w.args[2], "Get-CimInstance Win32_VideoController | Select-Object -ExpandProperty Name");
    let l = game_op::gpu::gpu_query_command(Platform::Linux);
    assert_eq!(l.program, "sh");
    assert!(l.args[1].starts_with("(command -v lspci >/dev/null && lspci"));
    assert!(l.args[1].ends_with("|| true"));
}

#[test]
fn splits_lines_like_str_lines() {
    for source in ["o m\r", "a\r\r\nb", "\r\n\rx", "x\n\r", "a\n\nb\n", "s 1\r\n"] {
        let expected: Vec<&str> = source
            .lines()
            .filter(|l| !l.trim().is_empty() && !l.trim_start().starts_with('#'))
            .collect();
        assert_eq!(compact(source), expected.join("\n") + "\n", "{source:?}");
    }
}

#[test]
fn splits_fields_on_unicode_white_space() {
    let rest = "1\u{a0}2\u{2003}3\u{85}4\u{3000}\u{1680}5 \t6\u{200b}7";
    let fields = obj_vertex_fields(&format!("v {rest}\n"));
    let expected: Vec<String> = rest.split_whitespace().map(|s| s.to_string()).collect();
    assert_eq!(fields, vec![expected]);
    let p = parse_ps("42\u{3000}  name here ").unwrap();
    assert_eq!((p[0].pid, p[0].name.as_str()), (42, "name here"));
}

fn live_config() -> SessionConfig {
    SessionConfig {
        target_process: "TestGame".to_string(),
        dry_run: false,
        set_process_priority: true,
        enable_power_mode: true,
        apply_gpu_profile: true,
        enable_driver_upscaling: true,
    }
}

#[test]
fn records_outcomes_of_a_live_session() {
    let process = GameProcess { pid: 7, name: "TestGame".to_string() };
    let mut optimizer = Optimizer::new(live_config());
    let actions = optimizer.apply(&process, Platform::Linux, "schedutil\n");
    assert_eq!(actions.len(), 4);
    assert!(matches!(actions[2], SessionAction::GpuProfile { pin_clock: true }));
    let mut results = Vec::new();
    for action in actions {
        results.push(optimizer.record_outcome(action, true));
    }
    assert!(results.iter().all(|r| r.is_ok()));
    assert_eq!(optimizer.pending_reverts(), 1);
    let undo = optimizer.pop_revert().unwrap();
    assert_eq!(undo.program, "sh");
    assert_eq!(
        undo.args[1],
        "command -v cpupower >/dev/null && cpupower frequency-set -g schedutil || true"
    );
    assert!(optimizer.pop_revert().is_none());
}

#[test]
fn undo_restores_the_governor_read_before() {
    let c = Optimizer::power_restore_command(Platform::Linux, "  ondemand\n");
    assert_eq!(view(&c), ("sh".to_string(), strings(&["-c", "command -v cpupower >/dev/null && cpupower frequency-set -g ondemand || true"])));
    let fallback = Optimizer::power_restore_command(Platform::Linux, "bad; rm -rf /");
    assert!(fallback.args[1].contains("-g powersave"));
    assert!(Optimizer::power_restore_command(Platform::Linux, "").args[1].contains("-g powersave"));
    let win = Optimizer::power_restore_command(Platform::Windows, "performance");
    assert_eq!(view(&win), ("powercfg".to_string(), strings(&["/setactive", "SCHEME_BALANCED"])));
}

#[test]
fn failed_steps_fail_the_session_only_when_required() {
    let process = GameProcess { pid: 7, name: "TestGame".to_string() };
    let mut optimizer = Optimizer::new(live_config());
    let actions = optimizer.apply(&process, Platform::Windows, "");
    let mut results = Vec::new();
    for action in actions {
        results.push(optimizer.record_outcome(action, false));
    }
    assert_eq!(results, vec![Err(()), Ok(()), Ok(()), Ok(())]);
    assert_eq!(optimizer.pending_reverts(), 0);
    assert_eq!(optimizer.revert_outcome(false), Err(()));
    assert_eq!(optimizer.revert_outcome(true), Ok(()));
}

#[test]
fn dry_run_leaves_the_gpu_clock_alone() {
    let process = GameProcess { pid: 7, name: "TestGame".to_string() };
    let mut config = live_config();
    config.dry_run = true;
    let optimizer = Optimizer::new(config);
    let actions = optimizer.apply(&process, Platform::Linux, "");
    assert!(matches!(actions[2], SessionAction::GpuProfile { pin_clock: false }));
    assert_eq!(optimizer.revert_outcome(false), Ok(()));
}

#[test]
fn advice_ignores_adapter_order() {
    let a = GpuInfo { vendor: GpuVendor::Nvidia, name: "GTX 1050".to_string() };
    let b = GpuInfo { vendor: GpuVendor::Intel, name: "Intel HD Graphics 620".to_string() };
    let c = GpuInfo { vendor: GpuVendor::Amd, name: "Radeon".to_string() };
    let one = recommendation_for(&[a.clone(), b.clone(), c.clone()]);
    let two = recommendation_for(&[c, b, a]);
    assert_eq!(one, two);
    assert!(one.starts_with("Intel HD Graphics 620 detected"));
}

#[test]
fn checked_census_refuses_only_overflowing_estimates() {
    let files = strings(&["/c/a.png", "/c/b.obj", "/c/notes.txt"]);
    let r = analyze_cache_checked(&files, 1024).unwrap();
    assert_eq!((r.textures, r.meshes, r.passthrough, r.estimated_texture_megabytes), (1, 1, 1, 4));
    assert!(analyze_cache_checked(&files, u32::MAX).is_none());
    let no_textures = strings(&["/c/b.obj", "/c/notes.txt"]);
    let r = analyze_cache_checked(&no_textures, 0x7fff_ffff).unwrap();
    assert_eq!(r.estimated_texture_megabytes, 0);
    assert!(analyze_cache_checked(&files, 0x7fff_ffff).is_some());
    assert!(analyze_cache_checked(&files, 0x8000_0000).is_none());
    assert_eq!(analyze_cache_checked(&no_textures, u32::MAX).unwrap().meshes, 1);
}

#[test]
fn plans_cache_redirection() {
    assert_eq!(plan_redirection(false, false, true, false), RedirectPlan::CacheMissing);
    assert_eq!(
        plan_redirection(true, false, false, true),
        RedirectPlan::AlreadyRedirected { create_output: true }
    );
    assert_eq!(
        plan_redirection(true, false, true, false),
        RedirectPlan::Redirect { create_output: false, back_up: true }
    );
    assert_eq!(
        plan_redirection(false, true, false, false),
        RedirectPlan::Redirect { create_output: true, back_up: false }
    );
}

#[test]
fn watch_loop_follows_its_options() {
    let p = GameProcess { pid: 4, name: "VRChat".to_string() };
    let s = initial_watch_state(true, false);
    assert_eq!(s, WatchState { once: true, has_started: false, spawned: false });
    let (s, a) = watch_step(s, WatchEvent::NotFound);
    assert!(matches!(a, WatchAction::Sleep(2)));
    let (s, a) = watch_step(s, WatchEvent::ScanFailed);
    assert!(matches!(a, WatchAction::Sleep(5)));
    assert!(!s.has_started);
    let (s, a) = watch_step(s, WatchEvent::Found(p.clone()));
    assert!(matches!(a, WatchAction::Track(ref q) if q.pid == 4 && q.name == "VRChat"));
    assert!(s.has_started);
    assert!(matches!(watch_step(s, WatchEvent::SessionEnded).1, WatchAction::Exit));
    assert!(matches!(watch_step(s, WatchEvent::NotFound).1, WatchAction::Exit));
    assert!(matches!(watch_step(s, WatchEvent::ScanFailed).1, WatchAction::Exit));

    let plain = initial_watch_state(false, false);
    let (plain, a) = watch_step(plain, WatchEvent::Found(p.clone()));
    assert!(matches!(a, WatchAction::Track(_)));
    assert!(matches!(watch_step(plain, WatchEvent::SessionEnded).1, WatchAction::Poll));
    assert!(matches!(watch_step(plain, WatchEvent::NotFound).1, WatchAction::Sleep(2)));

    let launched = initial_watch_state(false, true);
    let (launched, a) = watch_step(launched, WatchEvent::SpawnedAlive(p));
    assert!(matches!(a, WatchAction::Track(_)));
    assert!(matches!(watch_step(launched, WatchEvent::SessionEnded).1, WatchAction::Exit));
    assert!(matches!(watch_step(launched, WatchEvent::SpawnedExited).1, WatchAction::Exit));
}

#[test]
fn asset_actions_follow_dry_run_and_freshness() {
    assert!(is_up_to_date(true, false));
    assert!(!is_up_to_date(true, true));
    assert!(!is_up_to_date(false, false));
    assert_eq!(asset_action(true, true, false), AssetAction::Report { changes: true });
    assert_eq!(asset_action(true, false, true), AssetAction::Report { changes: false });
    assert_eq!(asset_action(false, true, true), AssetAction::Rewrite);
    assert_eq!(asset_action(false, false, false), AssetAction::Copy);
    assert_eq!(asset_action(false, false, true), AssetAction::Keep);
    assert!(asset_action(true, true, false).counts_as_optimized());
    assert!(!asset_action(false, false, false).counts_as_optimized());
    let reducer = MeshReducer::new(MeshPolicy { cache_dir: None, output_dir: None, dry_run: false, verbose: false });
    assert_eq!(reducer.mesh_action(true, false), AssetAction::Rewrite);
}

#[test]
fn decodes_and_plans_texture_bytes() {
    let img = image::DynamicImage::new_rgba8(300, 700);
    let mut bytes = Vec::new();
    img.write_to(&mut std::io::Cursor::new(&mut bytes), image::ImageFormat::Png).unwrap();
    let reducer = TextureReducer::new(TexturePolicy {
        cache_dir: Some("/tmp/cache".to_string()),
        output_dir: None,
        max_texture_size: 512,
        quality_preset: "high-quality-low-end".to_string(),
        dry_run: true,
        verbose: false,
    });
    let (decoded, plan) = reducer.plan_texture("metal_mask.png", &bytes).unwrap();
    assert_eq!(image::GenericImageView::dimensions(&decoded), (300, 700));
    assert_eq!((plan.width, plan.height, plan.max_size, plan.needs_resize), (300, 700, 256, true));
    assert_eq!(reducer.texture_action(&plan, false), AssetAction::Report { changes: true });
    assert!(reducer.plan_texture("metal_mask.png", b"not an image at all").is_err());
}

#[test]
fn compacting_twice_changes_nothing_more() {
    let src = "v 1 2 3\nv 4 5 6\nv 1 2 3\nf 1 2 3\n";
    let once = compact_obj_positions(src, &obj_vertex_fields(src));
    let twice = compact_obj_positions(&once, &obj_vertex_fields(&once));
    assert_eq!(once, twice);
    assert!(once.len() < src.len());
}
