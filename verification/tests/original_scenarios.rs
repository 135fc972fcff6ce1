use game_op::gpu::{parse_gpu_names, recommendation_for, GpuVendor};
use game_op::mesh::{compact_obj_positions, obj_vertex_fields};
use game_op::optimizer::{Optimizer, SessionAction, SessionConfig};
use game_op::platform::Platform;
use game_op::process::GameProcess;
use game_op::process::{parse_ps, parse_tasklist};
use game_op::profile::ProfileDefaults;
use game_op::texture::max_size_for_texture;
use game_op::unity_bundle::inspect_header;
use game_op::vrchat::analyze_cache;
use game_op::watch::{route_path, AssetRoute};

/// Four-decimal quantization of one OBJ coordinate, as the mesh pass applies it.
fn quantize_coordinate(val: &str) -> String {
    if let Ok(f) = val.parse::<f32>() {
        let formatted = format!("{:.4}", f);
        formatted.trim_end_matches('0').trim_end_matches('.').to_string()
    } else {
        val.to_string()
    }
}

fn compact(source: &str) -> String {
    let quantized: Vec<Vec<String>> = obj_vertex_fields(source)
        .iter()
        .map(|fields| fields.iter().map(|f| quantize_coordinate(f)).collect())
        .collect();
    compact_obj_positions(source, &quantized)
}

#[test]
fn detects_intel_hd_620() {
    let gpus = parse_gpu_names("Intel(R) HD Graphics 620\n");
    assert_eq!(gpus[0].vendor, GpuVendor::Intel);
    assert!(recommendation_for(&gpus).contains("1024"));
}

#[test]
fn compacts_duplicate_obj_positions_without_changing_faces() {
    let source = "# comment\nv 0.000001 0.0 0.0\nv 1.0 0.0 0.0\nv 0.0 0.0 0.0\nf 1 2 3\n";
    let optimized = compact(source);
    assert!(optimized.contains("v 0 0 0\nv 1 0 0"));
    assert!(optimized.contains("f 1 2 1"));
    assert!(!optimized.contains("# comment"));
}

#[test]
fn parses_linux_ps_output() {
    let output = "  1234 VRChat.exe --verbose\n  5678 /usr/bin/bash\n";
    let processes = parse_ps(output).unwrap();
    assert_eq!(processes.len(), 2);
    assert_eq!(processes[0].pid, 1234);
    assert_eq!(processes[0].name, "VRChat.exe --verbose");
    assert_eq!(processes[1].pid, 5678);
    assert_eq!(processes[1].name, "/usr/bin/bash");
}

#[test]
fn parses_windows_tasklist_csv() {
    let output = "\"System Idle Process\",\"0\",\"Services\",\"0\",\"24 K\"\n\"VRChat.exe\",\"1234\",\"Console\",\"1\",\"2,048,128 K\"\n";
    let processes = parse_tasklist(output).unwrap();
    assert_eq!(processes.len(), 2);
    assert_eq!(processes[0].pid, 0);
    assert_eq!(processes[0].name, "System Idle Process");
    assert_eq!(processes[1].pid, 1234);
    assert_eq!(processes[1].name, "VRChat.exe");
}

#[test]
fn vrchat_hq_low_end_profile_sets_quality_defaults() {
    let profile = ProfileDefaults::from_name(Some("vrchat-hq-low-end"));
    assert_eq!(profile.quality_preset, "high-quality-low-end");
    assert_eq!(profile.max_texture_size, 1024);
    assert_eq!(profile.live_asset_pass_seconds, 15);
}

#[test]
fn applies_quality_preset_by_texture_class() {
    assert_eq!(
        max_size_for_texture("avatar_face.png", 1024, "high-quality-low-end"),
        1280
    );
    assert_eq!(
        max_size_for_texture("metal_mask.png", 1024, "high-quality-low-end"),
        512
    );
    assert_eq!(max_size_for_texture("world.png", 1024, "performance"), 512);
}

#[test]
fn routes_asset_paths_for_live_watchers() {
    assert_eq!(route_path("avatar_face.png"), AssetRoute::Texture);
    assert_eq!(route_path("avatar.obj"), AssetRoute::Mesh);
    assert_eq!(route_path("world.vrcw"), AssetRoute::UnityBundle);
    assert_eq!(route_path("voice.ogg"), AssetRoute::Passthrough);
}

#[test]
fn identifies_unityfs_header() {
    let info = inspect_header("/tmp/bundle", b"UnityFS\0test").unwrap();
    assert_eq!(info.signature, "UnityFS");
}

#[test]
fn extracts_unity_version() {
    let data = b"UnityFS\0\0\0\0\x0d2022.3.22f1\0SomeBinary".to_vec();
    let info = inspect_header("/tmp/bundle-ver", &data).unwrap();
    assert_eq!(info.signature, "UnityFS - Unity 2022.3.22f1");
}

#[test]
fn reports_vrchat_like_cache_mix() {
    let files = vec![
        "/tmp/vrchat-report/avatar.png".to_string(),
        "/tmp/vrchat-report/avatar.obj".to_string(),
        "/tmp/vrchat-report/world.vrcw".to_string(),
    ];
    let report = analyze_cache(&files, 1024);
    assert_eq!(report.textures, 1);
    assert_eq!(report.meshes, 1);
    assert_eq!(report.probable_bundles, 1);
}

#[test]
fn optimizer_respects_dry_run_and_collects_revert_commands() {
    for platform in [Platform::Windows, Platform::MacOs, Platform::Linux] {
        let mut optimizer = Optimizer::new(SessionConfig {
            target_process: "TestGame".to_string(),
            dry_run: true,
            set_process_priority: true,
            enable_power_mode: true,
            apply_gpu_profile: true,
            enable_driver_upscaling: true,
        });

        let process = GameProcess {
            pid: 99999,
            name: "TestGame".to_string(),
        };

        // Applying on dry-run should succeed without running commands
        let mut applied = Ok(());
        for action in optimizer.apply(&process, platform, "") {
            assert!(!matches!(action, SessionAction::GpuProfile { pin_clock: true }));
            if applied.is_ok() {
                applied = optimizer.record_outcome(action, false);
            }
        }
        assert!(applied.is_ok());

        // In dry-run, power scheme revert command should still be collected
        assert!(optimizer.pending_reverts() > 0);

        // Reverting on dry-run should succeed and empty the revert stack
        let mut reverted = Ok(());
        while let Some(_command) = optimizer.pop_revert() {
            if reverted.is_ok() {
                reverted = optimizer.revert_outcome(false);
            }
        }
        assert!(reverted.is_ok());
        assert_eq!(optimizer.pending_reverts(), 0);
    }
}
