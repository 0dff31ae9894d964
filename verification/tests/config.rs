use bevy_game::client_config::{
    AntialiasingMode, ClientConfig, ConfigError as ClientError, GpuPriority, GraphicsBackend,
    LogLevel, PathsConfig, PresentModeConfig, QualityLevel, QualityPreset, WindowModeConfig,
};
use bevy_game::console::LogSeverity;
use bevy_game::input::{
    button_names, key_names, keycode_name, mousebutton_name, KeyCode, MouseButton,
};
use bevy_game::log_filter::LightyearUdpNoiseFilter;
use bevy_game::server_config::{
    path_candidates, resolve_default_config_path, resolve_path_relative_to_exe, AuthMode,
    ConfigError as ServerError, ServerConfig, DEFAULT_CONFIG_FILE,
};
use bevy_game::startup::{
    clamp_client_id, frame_limit, fresh_client_id, panic_report, present_mode, starting_client_id,
    window_mode,
    AppState, FrameLimit, MonitorSelection, PresentMode, WindowMode,
};

#[test]
fn server_defaults() {
    let c = ServerConfig::defaults(true);
    assert_eq!(c.server.name, "bevy_game dedicated server");
    assert_eq!(c.server.description, "A FiveM-style modular Bevy multiplayer server.");
    assert_eq!(c.server.tags, vec!["dev".to_string()]);
    assert!(c.server.icon.is_none() && !c.server.public);
    assert_eq!(c.gameplay.max_players, 32);
    assert_eq!(c.gameplay.queue_max, 0);
    assert_eq!(c.gameplay.idle_kick_sec, 600);
    assert_eq!(c.net.udp_bind, "0.0.0.0:5000");
    assert_eq!(c.net.http_bind, "0.0.0.0:8081");
    assert_eq!(c.net.http_public_url, "http://127.0.0.1:8081");
    assert_eq!(f64::from_bits(c.net.tick_hz.bits), 60.0);
    assert_eq!(c.net.protocol_id, 0x6265_7679_5f67_616d);
    assert_eq!(c.net.connection_timeout_sec, 15);
    assert_eq!(c.resources.root, "resources");
    assert!(c.resources.hot_reload);
    assert_eq!(c.resources.watcher_debounce_ms, 150);
    assert_eq!(c.handshake.ready_timeout_sec, 30);
    assert_eq!(c.handshake.connect_timeout_sec, 10);
    assert_eq!(c.handshake.max_file_size_mb, 64);
    assert_eq!(c.auth.mode, AuthMode::Open);
    assert!(!c.auth.require_auth);
    assert_eq!(c.logging.filter, "wgpu=warn,naga=warn");
    assert!(c.admin.bind.is_none() && c.admin.token.is_none());
    assert_eq!(c.database.pool_size, 8);
    assert!(!c.dev.auto_acknowledge_clients && c.dev.profile_first_n_frames == 0);
    assert!(!ServerConfig::defaults(false).resources.hot_reload);
}

#[test]
fn tick_rate_falls_back_to_sixty() {
    let mut net = ServerConfig::defaults(false).net;
    for (given, expected) in [(30.0f64, 30.0f64), (0.0, 60.0), (-1.0, 60.0)] {
        net.tick_hz = bevy_game::scalar::wide(given.to_bits());
        assert_eq!(f64::from_bits(net.effective_tick_hz().bits), expected);
    }
}

#[test]
fn server_settings_survive_a_failed_load() {
    let mut loaded = ServerConfig::defaults(false);
    loaded.server.name = "mine".to_string();
    assert_eq!(ServerConfig::load_or_default(Ok(loaded), false).server.name, "mine");
    let missing = ServerError::Io {
        path: "server.toml".to_string(),
        not_found: true,
        source: "gone".to_string(),
    };
    let broken = ServerError::Toml { path: "server.toml".to_string(), source: "bad".to_string() };
    for e in [missing, broken] {
        let c = ServerConfig::load_or_default(Err(e), false);
        assert_eq!(c.server.name, "bevy_game dedicated server");
    }
}

#[test]
fn private_keys_have_thirty_two_bytes() {
    let mut c = ServerConfig::defaults(false);
    assert!(matches!(c.load_private_key("", Ok(vec![1; 32])), Ok(None)));
    c.net.private_key_path = Some("secrets/netcode.key".to_string());
    let bytes: Vec<u8> = (0..32).collect();
    match c.load_private_key("/srv/secrets/netcode.key", Ok(bytes.clone())) {
        Ok(Some(key)) => assert_eq!(key.to_vec(), bytes),
        other => panic!("{:?}", other),
    }
    match c.load_private_key("/srv/secrets/netcode.key", Ok(vec![0; 31])) {
        Err(ServerError::KeyLength { path, actual }) => {
            assert_eq!(path, "/srv/secrets/netcode.key");
            assert_eq!(actual, 31);
        }
        other => panic!("{:?}", other),
    }
    let gone = ServerError::Io { path: "k".to_string(), not_found: true, source: "x".to_string() };
    assert!(matches!(c.load_private_key("k", Err(gone)), Err(ServerError::Io { .. })));
}

fn dir(path: &str) -> Option<String> {
    Some(path.to_string())
}

#[test]
fn configured_paths_lead_somewhere() {
    let exe = dir("/p/target/debug");
    let cwd = dir("/cwd");
    assert_eq!(path_candidates("x", &exe, &cwd), vec!["/p/target/debug/x", "/cwd/x"]);
    assert_eq!(
        path_candidates("resources", &exe, &None),
        vec!["/p/target/debug/resources", "/p/resources"]
    );
    assert_eq!(path_candidates("resources", &dir("/"), &None), vec!["/resources"]);
    let lead = |rel: &str, absolute: bool, there: &[bool]| {
        resolve_path_relative_to_exe(rel, absolute, &exe, &cwd, &there.to_vec())
    };
    assert_eq!(lead("/abs", true, &[true]), "/abs");
    assert_eq!(lead("x", false, &[true, true]), "/p/target/debug/x");
    assert_eq!(lead("x", false, &[false, true]), "/cwd/x");
    assert_eq!(lead("resources", false, &[false, false, true]), "/p/resources");
    assert_eq!(lead("resources/", false, &[false, false, true]), "/p/resources");
    assert_eq!(lead("x", false, &[false, false, true]), "x");
}

#[test]
fn settings_file_stands_beside_the_program_first() {
    let (exe, cwd) = (dir("/exe"), dir("/cwd"));
    let lead = |there: Vec<bool>| resolve_default_config_path(&exe, &cwd, &there);
    assert_eq!(lead(vec![true, true]), "/exe/server.toml");
    assert_eq!(lead(vec![false, true]), "/cwd/server.toml");
    assert_eq!(lead(vec![false, false]), DEFAULT_CONFIG_FILE);
    assert_eq!(resolve_default_config_path(&None, &None, &vec![]), DEFAULT_CONFIG_FILE);
}

#[test]
fn client_defaults() {
    let c = ClientConfig::defaults(true);
    let x = |s: bevy_game::scalar::Scalar| f32::from_bits(s.bits);
    assert_eq!(c.player.name, "Player");
    assert_eq!(c.player.saved_client_id, 0);
    assert_eq!(c.network.default_server, "127.0.0.1:5000");
    assert_eq!(c.network.local_bind, "0.0.0.0:0");
    assert_eq!(c.network.download_concurrency, 4);
    assert_eq!(c.network.handshake_timeout_sec, 30);
    assert_eq!(c.graphics.backend, GraphicsBackend::Auto);
    assert_eq!(c.graphics.gpu_priority, GpuPriority::HighPerformance);
    assert_eq!((c.graphics.resolution_width, c.graphics.resolution_height), (1280, 720));
    assert_eq!(c.graphics.window_title, "bevy_game");
    let q = &c.graphics.quality;
    assert_eq!(q.preset, QualityPreset::High);
    assert_eq!(x(q.shadow_distance), 80.0);
    assert_eq!(q.anisotropic_filter, 8);
    assert_eq!(q.antialiasing, AntialiasingMode::Taa);
    assert_eq!(q.volumetric_lighting, QualityLevel::Medium);
    assert_eq!(x(q.foliage_density), 1.0);
    assert_eq!(x(q.lod_bias), 0.0);
    assert_eq!(x(c.audio.music_volume), 0.6);
    assert_eq!(x(c.audio.ambient_volume), 0.8);
    assert_eq!(x(c.audio.ui_volume), 0.7);
    assert_eq!(c.ui.language, "auto");
    assert_eq!(x(c.ui.font_size), 16.0);
    assert_eq!(x(c.ui.hud_opacity), 0.9);
    assert_eq!(x(c.ui.subtitle_size), 18.0);
    assert_eq!(x(c.ui.chat_size), 14.0);
    assert_eq!(c.ui.crosshair_color, [255, 255, 255, 200]);
    assert_eq!(x(c.input.mouse_sensitivity_aim), 0.7);
    assert_eq!(x(c.input.gamepad_deadzone), 0.15);
    assert_eq!(keycode_name(&c.input.keys.move_forward), "w");
    assert_eq!(mousebutton_name(&c.input.mouse.attack_primary), "left");
    assert!(c.server_history.favorites.is_empty());
    assert_eq!(c.advanced.log_level, LogLevel::Info);
    assert!(c.advanced.developer_console_enabled && c.advanced.preload_resources);
    assert!(!ClientConfig::defaults(false).advanced.developer_console_enabled);
}

#[test]
fn client_settings_are_written_only_where_they_were_missing() {
    let io = |not_found: bool| ClientError::Io {
        path: "client.toml".to_string(),
        not_found,
        source: "x".to_string(),
    };
    let mut mine = ClientConfig::defaults(false);
    mine.player.name = "me".to_string();
    let (kept, written) = ClientConfig::load_or_create(Ok(mine), false);
    assert_eq!((kept.player.name.as_str(), written), ("me", false));
    let (fresh, written) = ClientConfig::load_or_create(Err(io(true)), false);
    assert_eq!((fresh.player.name.as_str(), written), ("Player", true));
    let (_, written) = ClientConfig::load_or_create(Err(io(false)), false);
    assert!(!written);
    let toml = ClientError::Toml { path: "client.toml".to_string(), source: "x".to_string() };
    let (_, written) = ClientConfig::load_or_create(Err(toml), false);
    assert!(!written);
}

#[test]
fn client_settings_have_a_place() {
    let s = |x: &str| Some(x.to_string());
    assert_eq!(ClientConfig::resolve_path(s("a.toml"), s("b"), s("/c")).unwrap(), "a.toml");
    assert_eq!(ClientConfig::resolve_path(None, s("b"), s("/c")).unwrap(), "b");
    assert_eq!(
        ClientConfig::resolve_path(None, s(""), s("/c")).unwrap(),
        "/c/bevy_game/client.toml"
    );
    assert!(matches!(ClientConfig::resolve_path(None, s(""), None), Err(ClientError::NoConfigDir)));
    assert_eq!(ClientConfig::file_text("# head\n", "a = 1\n"), "# head\na = 1\n");
}

#[test]
fn caches_and_logs_have_places() {
    let mut p = PathsConfig::default();
    assert_eq!(
        p.resolve_cache_dir(Some("/home/u/.cache".to_string())),
        "/home/u/.cache/bevy_game/cache/resources"
    );
    assert_eq!(p.resolve_cache_dir(None), "cache/resources");
    assert_eq!(p.resolve_log_dir(Some("/etc/bevy_game".to_string())), "/etc/bevy_game/logs");
    assert_eq!(p.resolve_log_dir(None), "logs");
    p.cache_dir = Some("c".to_string());
    p.log_dir = Some("l".to_string());
    assert_eq!(p.resolve_cache_dir(Some("/x".to_string())), "c");
    assert_eq!(p.resolve_log_dir(Some("/x".to_string())), "l");
}

#[test]
fn client_ids_fit_scripts() {
    for id in [0u64, 1, 77, u64::MAX, 1 << 63, (1 << 63) + 9] {
        let c = clamp_client_id(id);
        assert!(c <= i64::MAX as u64);
        assert!(c > 0 || id == 0);
        assert_eq!(clamp_client_id(c), c);
    }
    assert_eq!(clamp_client_id((1 << 63) + 9), 9);
    assert_eq!(clamp_client_id(1 << 63), 1);
    assert_eq!(fresh_client_id(2, 5), 2_000_011);
    assert_eq!(starting_client_id(77, 123, 456), 77);
    assert_eq!(starting_client_id(0, 123, 456), clamp_client_id(fresh_client_id(123, 456)));
}

#[test]
fn panics_are_reported_in_full() {
    assert_eq!(
        panic_report("main", Some("a.rs:1:2"), "boom", "0: f"),
        "[host_client] PANIC thread='main' location=a.rs:1:2\nmessage: boom\nbacktrace:\n0: f\n"
    );
    assert!(panic_report("main", None, "boom", "").contains("location=<unknown>\n"));
}

#[test]
fn windows_are_shown_as_configured() {
    assert_eq!(window_mode(WindowModeConfig::Windowed, 3), WindowMode::Windowed);
    assert_eq!(
        window_mode(WindowModeConfig::BorderlessFullscreen, 0),
        WindowMode::BorderlessFullscreen(MonitorSelection::Primary)
    );
    assert_eq!(
        window_mode(WindowModeConfig::Fullscreen, 2),
        WindowMode::Fullscreen(MonitorSelection::Index(2))
    );
    assert_eq!(present_mode(PresentModeConfig::Auto), PresentMode::AutoVsync);
    assert_eq!(present_mode(PresentModeConfig::Mailbox), PresentMode::Mailbox);
    assert_eq!(frame_limit(0), FrameLimit::Auto);
    assert_eq!(frame_limit(144), FrameLimit::Cap(144));
    assert_eq!(AppState::default(), AppState::Lobby);
}

#[test]
fn keys_and_buttons_have_names() {
    assert_eq!(keycode_name(&KeyCode::KeyA), "a");
    assert_eq!(keycode_name(&KeyCode::Digit7), "7");
    assert_eq!(keycode_name(&KeyCode::Space), "space");
    assert_eq!(mousebutton_name(&MouseButton::Middle), "middle");
    assert_eq!(key_names(&vec![KeyCode::KeyZ, KeyCode::F12]).len(), 2);
    assert_eq!(button_names(&vec![MouseButton::Left]), vec!["left".to_string()]);
}

#[test]
fn log_levels_have_severities() {
    assert_eq!(LogLevel::Trace.to_bevy(), LogSeverity::Trace);
    assert_eq!(LogLevel::Debug.to_bevy(), LogSeverity::Debug);
    assert_eq!(LogLevel::Info.to_bevy(), LogSeverity::Info);
    assert_eq!(LogLevel::Warn.to_bevy(), LogSeverity::Warn);
    assert_eq!(LogLevel::Error.to_bevy(), LogSeverity::Error);
    let c = ServerConfig::defaults(false);
    assert_eq!(c.logging.level.to_bevy(), LogSeverity::Info);
}

#[test]
fn transport_noise_is_dropped() {
    let filter = LightyearUdpNoiseFilter;
    assert!(filter.enabled(false, "lightyear_udp::server"));
    assert!(filter.enabled(true, "bevy_render"));
    assert!(!filter.enabled(true, "lightyear_udp::server"));
}
