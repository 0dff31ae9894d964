//! `client.toml`: the settings of the client and what follows from them.

use vstd::prelude::*;

use crate::console::LogSeverity;
use crate::input::{KeyCode, MouseButton};
use crate::paths::{join_path, joined_path};
use crate::scalar::{scalar, Scalar, ONE, ZERO};

verus! {

pub const APP_DIR_NAME: &'static str = "bevy_game";

pub const CONFIG_FILE_NAME: &'static str = "client.toml";

/// 0.15, 0.6, 0.7, 0.8, 0.9, 14, 16, 18 and 80, as bit patterns.
pub const PARTS_15: u32 = 0x3e19_999a;

pub const PARTS_60: u32 = 0x3f19_999a;

pub const PARTS_70: u32 = 0x3f33_3333;

pub const PARTS_80: u32 = 0x3f4c_cccd;

pub const PARTS_90: u32 = 0x3f66_6666;

pub const FOURTEEN: u32 = 0x4160_0000;

pub const SIXTEEN: u32 = 0x4180_0000;

pub const EIGHTEEN: u32 = 0x4190_0000;

pub const EIGHTY: u32 = 0x42a0_0000;

/// The settings of the client, one field for each section of the file.
#[derive(Clone, Debug)]
pub struct ClientConfig {
    pub player: PlayerConfig,
    pub network: NetworkConfig,
    pub graphics: GraphicsConfig,
    pub audio: AudioConfig,
    pub ui: UiConfig,
    pub input: InputConfig,
    pub paths: PathsConfig,
    pub server_history: ServerHistoryConfig,
    pub advanced: AdvancedConfig,
}

#[derive(Clone, Debug)]
pub struct PlayerConfig {
    pub name: String,
    /// Stable client id; 0 asks for a fresh one at each start.
    pub saved_client_id: u64,
    pub avatar: Option<String>,
}

#[derive(Clone, Debug)]
pub struct NetworkConfig {
    pub default_server: String,
    pub local_bind: String,
    pub download_concurrency: u32,
    pub strict_https: bool,
    pub handshake_timeout_sec: u64,
}

#[derive(Clone, Debug)]
pub struct GraphicsConfig {
    pub backend: GraphicsBackend,
    pub window_mode: WindowModeConfig,
    /// Monitor of the fullscreen modes; 0 is the primary one.
    pub monitor_index: u32,
    pub resolution_width: u32,
    pub resolution_height: u32,
    pub present_mode: PresentModeConfig,
    pub fps_cap: u32,
    pub hdr: bool,
    pub gpu_priority: GpuPriority,
    pub window_title: String,
    pub quality: GraphicsQuality,
}

#[derive(Clone, Copy, PartialEq, Eq, Structural, Debug)]
pub enum GraphicsBackend {
    /// The system picks.
    Auto,
    Vulkan,
    Dx12,
    Metal,
    Gl,
    BrowserWebgpu,
}

#[derive(Clone, Copy, PartialEq, Eq, Structural, Debug)]
pub enum WindowModeConfig {
    Windowed,
    BorderlessFullscreen,
    Fullscreen,
}

#[derive(Clone, Copy, PartialEq, Eq, Structural, Debug)]
pub enum PresentModeConfig {
    Auto,
    Fifo,
    Mailbox,
    Immediate,
}

#[derive(Clone, Copy, PartialEq, Eq, Structural, Debug)]
pub enum GpuPriority {
    HighPerformance,
    LowPower,
}

#[derive(Clone, Copy, PartialEq, Eq, Structural, Debug)]
pub struct GraphicsQuality {
    pub preset: QualityPreset,
    pub shadow_quality: QualityLevel,
    pub shadow_distance: Scalar,
    pub texture_quality: QualityLevel,
    pub anisotropic_filter: u32,
    pub antialiasing: AntialiasingMode,
    pub bloom: bool,
    pub motion_blur: bool,
    pub chromatic_aberration: bool,
    pub film_grain: bool,
    pub vignette: bool,
    pub depth_of_field: bool,
    pub ssao: bool,
    pub ssr: bool,
    pub volumetric_lighting: QualityLevel,
    pub particles_quality: QualityLevel,
    pub foliage_density: Scalar,
    pub water_quality: QualityLevel,
    pub view_distance: Scalar,
    pub lod_bias: Scalar,
    pub lod_max_level: u32,
}

#[derive(Clone, Copy, PartialEq, Eq, Structural, Debug)]
pub enum QualityPreset {
    Low,
    Medium,
    High,
    Ultra,
    Custom,
}

#[derive(Clone, Copy, PartialEq, Eq, Structural, Debug)]
pub enum QualityLevel {
    Off,
    Low,
    Medium,
    High,
    Ultra,
}

#[derive(Clone, Copy, PartialEq, Eq, Structural, Debug)]
pub enum AntialiasingMode {
    Off,
    Fxaa,
    Smaa,
    Taa,
    Msaa2,
    Msaa4,
    Msaa8,
}

#[derive(Clone, Debug)]
pub struct AudioConfig {
    pub master_volume: Scalar,
    pub music_volume: Scalar,
    pub sfx_volume: Scalar,
    pub voice_volume: Scalar,
    pub ambient_volume: Scalar,
    pub ui_volume: Scalar,
    pub output_device: Option<String>,
    pub spatial_audio: bool,
    pub mute_on_focus_lost: bool,
}

#[derive(Clone, Debug)]
pub struct UiConfig {
    pub language: String,
    pub ui_scale: Scalar,
    pub font_size: Scalar,
    pub hud_opacity: Scalar,
    pub show_fps: bool,
    pub show_ping: bool,
    pub show_minimap: bool,
    pub show_subtitles: bool,
    pub subtitle_size: Scalar,
    pub chat_size: Scalar,
    pub crosshair_enabled: bool,
    /// Red, green, blue and opacity.
    pub crosshair_color: [u8; 4],
}

#[derive(Clone, Debug)]
pub struct InputConfig {
    pub mouse_sensitivity: Scalar,
    pub mouse_sensitivity_aim: Scalar,
    pub mouse_smoothing: Scalar,
    pub invert_y: bool,
    pub raw_mouse_input: bool,
    pub mouse_acceleration: bool,
    pub gamepad_enabled: bool,
    pub gamepad_deadzone: Scalar,
    pub gamepad_vibration: bool,
    pub keys: Keybindings,
    pub mouse: MouseBindings,
}

/// Which key does what.
#[derive(Clone, Debug)]
pub struct Keybindings {
    pub move_forward: KeyCode,
    pub move_backward: KeyCode,
    pub move_left: KeyCode,
    pub move_right: KeyCode,
    pub jump: KeyCode,
    pub crouch: KeyCode,
    pub prone: KeyCode,
    pub sprint: KeyCode,
    pub walk: KeyCode,
    pub reload: KeyCode,
    pub melee: KeyCode,
    pub throw_grenade: KeyCode,
    pub sheathe_weapon: KeyCode,
    pub use_item: KeyCode,
    pub aim: KeyCode,
    pub weapon_1: KeyCode,
    pub weapon_2: KeyCode,
    pub weapon_3: KeyCode,
    pub weapon_4: KeyCode,
    pub weapon_5: KeyCode,
    pub weapon_6: KeyCode,
    pub weapon_7: KeyCode,
    pub weapon_8: KeyCode,
    pub weapon_9: KeyCode,
    pub interact: KeyCode,
    pub inventory: KeyCode,
    pub map: KeyCode,
    pub character: KeyCode,
    pub journal: KeyCode,
    pub chat: KeyCode,
    pub voice_chat: KeyCode,
    pub scoreboard: KeyCode,
    pub options_menu: KeyCode,
    pub toggle_camera: KeyCode,
    pub zoom_toggle: KeyCode,
    pub toggle_hud: KeyCode,
    pub screenshot: KeyCode,
    pub push_to_talk: KeyCode,
    pub developer_console: KeyCode,
}

#[derive(Clone, Debug)]
pub struct MouseBindings {
    pub attack_primary: MouseButton,
    pub attack_secondary: MouseButton,
    pub middle_click: MouseButton,
}

#[derive(Clone, Debug)]
pub struct PathsConfig {
    pub cache_dir: Option<String>,
    pub screenshot_dir: Option<String>,
    pub savegame_dir: Option<String>,
    pub mod_dir: Option<String>,
    pub log_dir: Option<String>,
}

#[derive(Clone, Debug)]
pub struct ServerHistoryConfig {
    pub last_used_username: Option<String>,
    pub recent_servers: Vec<ServerEntry>,
    pub favorites: Vec<ServerEntry>,
}

#[derive(Clone, Debug)]
pub struct ServerEntry {
    pub address: String,
    pub label: Option<String>,
    pub last_connected: Option<String>,
}

#[derive(Clone, Debug)]
pub struct AdvancedConfig {
    pub log_level: LogLevel,
    pub log_filter: String,
    pub show_debug_overlay: bool,
    pub show_collision_meshes: bool,
    pub profile_overlay: bool,
    pub network_stats_overlay: bool,
    pub developer_console_enabled: bool,
    pub preload_resources: bool,
    pub gpu_validation: bool,
}

#[derive(Clone, Copy, PartialEq, Eq, Structural, Debug)]
pub enum LogLevel {
    Trace,
    Debug,
    Info,
    Warn,
    Error,
}

/// What can be wrong with the settings.
#[derive(Clone, Debug)]
pub enum ConfigError {
    /// The system names no directory for settings.
    NoConfigDir,
    /// The file could not be read or written.
    Io { path: String, not_found: bool, source: String },
    /// The file does not hold settings.
    Toml { path: String, source: String },
    /// The settings could not be put into text.
    Serialize(String),
}

impl Default for GraphicsBackend {
    fn default() -> (r: Self)
        ensures
            r == GraphicsBackend::Auto,
    {
        GraphicsBackend::Auto
    }
}

impl Default for WindowModeConfig {
    fn default() -> (r: Self)
        ensures
            r == WindowModeConfig::Windowed,
    {
        WindowModeConfig::Windowed
    }
}

impl Default for PresentModeConfig {
    fn default() -> (r: Self)
        ensures
            r == PresentModeConfig::Auto,
    {
        PresentModeConfig::Auto
    }
}

impl Default for GpuPriority {
    fn default() -> (r: Self)
        ensures
            r == GpuPriority::HighPerformance,
    {
        GpuPriority::HighPerformance
    }
}

impl Default for QualityPreset {
    fn default() -> (r: Self)
        ensures
            r == QualityPreset::High,
    {
        QualityPreset::High
    }
}

impl Default for QualityLevel {
    fn default() -> (r: Self)
        ensures
            r == QualityLevel::High,
    {
        QualityLevel::High
    }
}

impl Default for AntialiasingMode {
    fn default() -> (r: Self)
        ensures
            r == AntialiasingMode::Taa,
    {
        AntialiasingMode::Taa
    }
}

impl Default for LogLevel {
    fn default() -> (r: Self)
        ensures
            r == LogLevel::Info,
    {
        LogLevel::Info
    }
}

impl LogLevel {
    /// The severity from which on the engine writes events.
    pub fn to_bevy(self) -> (r: LogSeverity)
        ensures
            r == match self {
                LogLevel::Trace => LogSeverity::Trace,
                LogLevel::Debug => LogSeverity::Debug,
                LogLevel::Info => LogSeverity::Info,
                LogLevel::Warn => LogSeverity::Warn,
                LogLevel::Error => LogSeverity::Error,
            },
    {
        match self {
            LogLevel::Trace => LogSeverity::Trace,
            LogLevel::Debug => LogSeverity::Debug,
            LogLevel::Info => LogSeverity::Info,
            LogLevel::Warn => LogSeverity::Warn,
            LogLevel::Error => LogSeverity::Error,
        }
    }
}

impl PlayerConfig {
    /// What the section holds where the file says nothing.
    pub open spec fn is_default(self) -> bool {
        &&& self.name@ == "Player"@
        &&& self.saved_client_id == 0
        &&& self.avatar is None
    }
}

impl Default for PlayerConfig {
    fn default() -> (r: Self)
        ensures
            r.is_default(),
    {
        PlayerConfig {
            name: "Player".to_string(),
            saved_client_id: 0,
            avatar: None,
        }
    }
}

impl NetworkConfig {
    /// What the section holds where the file says nothing.
    pub open spec fn is_default(self) -> bool {
        &&& self.default_server@ == "127.0.0.1:5000"@
        &&& self.local_bind@ == "0.0.0.0:0"@
        &&& self.download_concurrency == 4
        &&& !self.strict_https
        &&& self.handshake_timeout_sec == 30
    }
}

impl Default for NetworkConfig {
    fn default() -> (r: Self)
        ensures
            r.is_default(),
    {
        NetworkConfig {
            default_server: "127.0.0.1:5000".to_string(),
            local_bind: "0.0.0.0:0".to_string(),
            download_concurrency: 4,
            strict_https: false,
            handshake_timeout_sec: 30,
        }
    }
}

impl GraphicsQuality {
    /// What the section holds where the file says nothing.
    pub open spec fn is_default(self) -> bool {
        &&& self.preset == QualityPreset::High
        &&& self.shadow_quality == QualityLevel::High
        &&& self.shadow_distance == scalar(EIGHTY)
        &&& self.texture_quality == QualityLevel::High
        &&& self.anisotropic_filter == 8
        &&& self.antialiasing == AntialiasingMode::Taa
        &&& self.bloom
        &&& !self.motion_blur
        &&& !self.chromatic_aberration
        &&& !self.film_grain
        &&& self.vignette
        &&& !self.depth_of_field
        &&& self.ssao
        &&& !self.ssr
        &&& self.volumetric_lighting == QualityLevel::Medium
        &&& self.particles_quality == QualityLevel::High
        &&& self.foliage_density == scalar(ONE)
        &&& self.water_quality == QualityLevel::High
        &&& self.view_distance == scalar(ONE)
        &&& self.lod_bias == scalar(ZERO)
        &&& self.lod_max_level == 0
    }
}

impl Default for GraphicsQuality {
    fn default() -> (r: Self)
        ensures
            r.is_default(),
    {
        GraphicsQuality {
            preset: QualityPreset::High,
            shadow_quality: QualityLevel::High,
            shadow_distance: scalar(EIGHTY),
            texture_quality: QualityLevel::High,
            anisotropic_filter: 8,
            antialiasing: AntialiasingMode::Taa,
            bloom: true,
            motion_blur: false,
            chromatic_aberration: false,
            film_grain: false,
            vignette: true,
            depth_of_field: false,
            ssao: true,
            ssr: false,
            volumetric_lighting: QualityLevel::Medium,
            particles_quality: QualityLevel::High,
            foliage_density: scalar(ONE),
            water_quality: QualityLevel::High,
            view_distance: scalar(ONE),
            lod_bias: scalar(ZERO),
            lod_max_level: 0,
        }
    }
}

impl GraphicsConfig {
    /// What the section holds where the file says nothing.
    pub open spec fn is_default(self) -> bool {
        &&& self.backend == GraphicsBackend::Auto
        &&& self.window_mode == WindowModeConfig::Windowed
        &&& self.monitor_index == 0
        &&& self.resolution_width == 1280
        &&& self.resolution_height == 720
        &&& self.present_mode == PresentModeConfig::Auto
        &&& self.fps_cap == 0
        &&& !self.hdr
        &&& self.gpu_priority == GpuPriority::HighPerformance
        &&& self.window_title@ == "bevy_game"@
        &&& self.quality.is_default()
    }
}

impl Default for GraphicsConfig {
    fn default() -> (r: Self)
        ensures
            r.is_default(),
    {
        GraphicsConfig {
            backend: GraphicsBackend::Auto,
            window_mode: WindowModeConfig::Windowed,
            monitor_index: 0,
            resolution_width: 1280,
            resolution_height: 720,
            present_mode: PresentModeConfig::Auto,
            fps_cap: 0,
            hdr: false,
            gpu_priority: GpuPriority::HighPerformance,
            window_title: "bevy_game".to_string(),
            quality: GraphicsQuality::default(),
        }
    }
}

impl AudioConfig {
    /// What the section holds where the file says nothing.
    pub open spec fn is_default(self) -> bool {
        &&& self.master_volume == scalar(ONE)
        &&& self.music_volume == scalar(PARTS_60)
        &&& self.sfx_volume == scalar(ONE)
        &&& self.voice_volume == scalar(ONE)
        &&& self.ambient_volume == scalar(PARTS_80)
        &&& self.ui_volume == scalar(PARTS_70)
        &&& self.output_device is None
        &&& self.spatial_audio
        &&& self.mute_on_focus_lost
    }
}

impl Default for AudioConfig {
    fn default() -> (r: Self)
        ensures
            r.is_default(),
    {
        AudioConfig {
            master_volume: scalar(ONE),
            music_volume: scalar(PARTS_60),
            sfx_volume: scalar(ONE),
            voice_volume: scalar(ONE),
            ambient_volume: scalar(PARTS_80),
            ui_volume: scalar(PARTS_70),
            output_device: None,
            spatial_audio: true,
            mute_on_focus_lost: true,
        }
    }
}

impl UiConfig {
    /// What the section holds where the file says nothing.
    pub open spec fn is_default(self) -> bool {
        &&& self.language@ == "auto"@
        &&& self.ui_scale == scalar(ONE)
        &&& self.font_size == scalar(SIXTEEN)
        &&& self.hud_opacity == scalar(PARTS_90)
        &&& !self.show_fps
        &&& !self.show_ping
        &&& self.show_minimap
        &&& self.show_subtitles
        &&& self.subtitle_size == scalar(EIGHTEEN)
        &&& self.chat_size == scalar(FOURTEEN)
        &&& self.crosshair_enabled
        &&& self.crosshair_color@ == seq![255u8, 255u8, 255u8, 200u8]
    }
}

impl Default for UiConfig {
    fn default() -> (r: Self)
        ensures
            r.is_default(),
    {
        let r = UiConfig {
            language: "auto".to_string(),
            ui_scale: scalar(ONE),
            font_size: scalar(SIXTEEN),
            hud_opacity: scalar(PARTS_90),
            show_fps: false,
            show_ping: false,
            show_minimap: true,
            show_subtitles: true,
            subtitle_size: scalar(EIGHTEEN),
            chat_size: scalar(FOURTEEN),
            crosshair_enabled: true,
            crosshair_color: [255, 255, 255, 200],
        };
        assert(r.crosshair_color@ =~= seq![255u8, 255u8, 255u8, 200u8]);
        r
    }
}

impl Keybindings {
    /// What the section holds where the file says nothing.
    pub open spec fn is_default(self) -> bool {
        &&& self.move_forward is KeyW
        &&& self.move_backward is KeyS
        &&& self.move_left is KeyA
        &&& self.move_right is KeyD
        &&& self.jump is Space
        &&& self.crouch is ControlLeft
        &&& self.prone is KeyZ
        &&& self.sprint is ShiftLeft
        &&& self.walk is AltLeft
        &&& self.reload is KeyR
        &&& self.melee is KeyF
        &&& self.throw_grenade is KeyG
        &&& self.sheathe_weapon is KeyX
        &&& self.use_item is KeyQ
        &&& self.aim is KeyT
        &&& self.weapon_1 is Digit1
        &&& self.weapon_2 is Digit2
        &&& self.weapon_3 is Digit3
        &&& self.weapon_4 is Digit4
        &&& self.weapon_5 is Digit5
        &&& self.weapon_6 is Digit6
        &&& self.weapon_7 is Digit7
        &&& self.weapon_8 is Digit8
        &&& self.weapon_9 is Digit9
        &&& self.interact is KeyE
        &&& self.inventory is KeyI
        &&& self.map is KeyM
        &&& self.character is KeyC
        &&& self.journal is KeyJ
        &&& self.chat is Enter
        &&& self.voice_chat is KeyV
        &&& self.scoreboard is Tab
        &&& self.options_menu is Escape
        &&& self.toggle_camera is F5
        &&& self.zoom_toggle is KeyZ
        &&& self.toggle_hud is KeyH
        &&& self.screenshot is F12
        &&& self.push_to_talk is KeyB
        &&& self.developer_console is Backquote
    }
}

impl Default for Keybindings {
    fn default() -> (r: Self)
        ensures
            r.is_default(),
    {
        Keybindings {
            move_forward: KeyCode::KeyW,
            move_backward: KeyCode::KeyS,
            move_left: KeyCode::KeyA,
            move_right: KeyCode::KeyD,
            jump: KeyCode::Space,
            crouch: KeyCode::ControlLeft,
            prone: KeyCode::KeyZ,
            sprint: KeyCode::ShiftLeft,
            walk: KeyCode::AltLeft,
            reload: KeyCode::KeyR,
            melee: KeyCode::KeyF,
            throw_grenade: KeyCode::KeyG,
            sheathe_weapon: KeyCode::KeyX,
            use_item: KeyCode::KeyQ,
            aim: KeyCode::KeyT,
            weapon_1: KeyCode::Digit1,
            weapon_2: KeyCode::Digit2,
            weapon_3: KeyCode::Digit3,
            weapon_4: KeyCode::Digit4,
            weapon_5: KeyCode::Digit5,
            weapon_6: KeyCode::Digit6,
            weapon_7: KeyCode::Digit7,
            weapon_8: KeyCode::Digit8,
            weapon_9: KeyCode::Digit9,
            interact: KeyCode::KeyE,
            inventory: KeyCode::KeyI,
            map: KeyCode::KeyM,
            character: KeyCode::KeyC,
            journal: KeyCode::KeyJ,
            chat: KeyCode::Enter,
            voice_chat: KeyCode::KeyV,
            scoreboard: KeyCode::Tab,
            options_menu: KeyCode::Escape,
            toggle_camera: KeyCode::F5,
            zoom_toggle: KeyCode::KeyZ,
            toggle_hud: KeyCode::KeyH,
            screenshot: KeyCode::F12,
            push_to_talk: KeyCode::KeyB,
            developer_console: KeyCode::Backquote,
        }
    }
}

impl MouseBindings {
    /// What the section holds where the file says nothing.
    pub open spec fn is_default(self) -> bool {
        &&& self.attack_primary is Left
        &&& self.attack_secondary is Right
        &&& self.middle_click is Middle
    }
}

impl Default for MouseBindings {
    fn default() -> (r: Self)
        ensures
            r.is_default(),
    {
        MouseBindings {
            attack_primary: MouseButton::Left,
            attack_secondary: MouseButton::Right,
            middle_click: MouseButton::Middle,
        }
    }
}

impl InputConfig {
    /// What the section holds where the file says nothing.
    pub open spec fn is_default(self) -> bool {
        &&& self.mouse_sensitivity == scalar(ONE)
        &&& self.mouse_sensitivity_aim == scalar(PARTS_70)
        &&& self.mouse_smoothing == scalar(ZERO)
        &&& !self.invert_y
        &&& self.raw_mouse_input
        &&& !self.mouse_acceleration
        &&& self.gamepad_enabled
        &&& self.gamepad_deadzone == scalar(PARTS_15)
        &&& self.gamepad_vibration
        &&& self.keys.is_default()
        &&& self.mouse.is_default()
    }
}

impl Default for InputConfig {
    fn default() -> (r: Self)
        ensures
            r.is_default(),
    {
        InputConfig {
            mouse_sensitivity: scalar(ONE),
            mouse_sensitivity_aim: scalar(PARTS_70),
            mouse_smoothing: scalar(ZERO),
            invert_y: false,
            raw_mouse_input: true,
            mouse_acceleration: false,
            gamepad_enabled: true,
            gamepad_deadzone: scalar(PARTS_15),
            gamepad_vibration: true,
            keys: Keybindings::default(),
            mouse: MouseBindings::default(),
        }
    }
}

impl PathsConfig {
    /// What the section holds where the file says nothing.
    pub open spec fn is_default(self) -> bool {
        &&& self.cache_dir is None
        &&& self.screenshot_dir is None
        &&& self.savegame_dir is None
        &&& self.mod_dir is None
        &&& self.log_dir is None
    }
}

impl Default for PathsConfig {
    fn default() -> (r: Self)
        ensures
            r.is_default(),
    {
        PathsConfig {
            cache_dir: None,
            screenshot_dir: None,
            savegame_dir: None,
            mod_dir: None,
            log_dir: None,
        }
    }
}

impl ServerHistoryConfig {
    /// What the section holds where the file says nothing.
    pub open spec fn is_default(self) -> bool {
        &&& self.last_used_username is None
        &&& self.recent_servers@.len() == 0
        &&& self.favorites@.len() == 0
    }
}

impl Default for ServerHistoryConfig {
    fn default() -> (r: Self)
        ensures
            r.is_default(),
    {
        ServerHistoryConfig {
            last_used_username: None,
            recent_servers: Vec::new(),
            favorites: Vec::new(),
        }
    }
}

impl AdvancedConfig {
    /// What the section holds where the file says nothing; the developer
    /// console is there in development builds.
    pub open spec fn is_default(self, development: bool) -> bool {
        &&& self.log_level == LogLevel::Info
        &&& self.log_filter@ == "wgpu=warn,naga=warn"@
        &&& !self.show_debug_overlay
        &&& !self.show_collision_meshes
        &&& !self.profile_overlay
        &&& !self.network_stats_overlay
        &&& self.developer_console_enabled == development
        &&& self.preload_resources
        &&& !self.gpu_validation
    }

    pub fn defaults(development: bool) -> (r: Self)
        ensures
            r.is_default(development),
    {
        AdvancedConfig {
            log_level: LogLevel::Info,
            log_filter: "wgpu=warn,naga=warn".to_string(),
            show_debug_overlay: false,
            show_collision_meshes: false,
            profile_overlay: false,
            network_stats_overlay: false,
            developer_console_enabled: development,
            preload_resources: true,
            gpu_validation: false,
        }
    }
}

/// The configuration file below a directory for settings.
pub open spec fn config_file_in(dir: Seq<char>) -> Seq<char> {
    joined_path(joined_path(dir, APP_DIR_NAME@), CONFIG_FILE_NAME@)
}

impl ClientConfig {
    /// Every section holds its defaults.
    pub open spec fn is_default(self, development: bool) -> bool {
        &&& self.player.is_default()
        &&& self.network.is_default()
        &&& self.graphics.is_default()
        &&& self.audio.is_default()
        &&& self.ui.is_default()
        &&& self.input.is_default()
        &&& self.paths.is_default()
        &&& self.server_history.is_default()
        &&& self.advanced.is_default(development)
    }

    /// The settings of a client without a settings file.
    pub fn defaults(development: bool) -> (r: Self)
        ensures
            r.is_default(development),
    {
        ClientConfig {
            player: PlayerConfig::default(),
            network: NetworkConfig::default(),
            graphics: GraphicsConfig::default(),
            audio: AudioConfig::default(),
            ui: UiConfig::default(),
            input: InputConfig::default(),
            paths: PathsConfig::default(),
            server_history: ServerHistoryConfig::default(),
            advanced: AdvancedConfig::defaults(development),
        }
    }

    /// Where the settings file is: the first argument of the program, else the
    /// override of the environment unless it is empty, else the system's
    /// directory for settings.
    pub fn resolve_path(
        argument: Option<String>,
        override_path: Option<String>,
        config_dir: Option<String>,
    ) -> (r: Result<String, ConfigError>)
        ensures
            match (argument, override_path, config_dir) {
                (Some(a), _, _) => r matches Ok(p) && p@ == a@,
                (None, Some(o), _) if o@.len() > 0 => r matches Ok(p) && p@ == o@,
                (None, _, Some(dir)) => r matches Ok(p) && p@ == config_file_in(dir@),
                (None, _, None) => r matches Err(ConfigError::NoConfigDir),
            },
    {
        if let Some(a) = argument {
            return Ok(a);
        }
        if let Some(o) = override_path {
            if !o.as_str().is_empty() {
                return Ok(o);
            }
        }
        match config_dir {
            Some(dir) => {
                let app_dir = join_path(dir.as_str(), APP_DIR_NAME);
                Ok(join_path(app_dir.as_str(), CONFIG_FILE_NAME))
            },
            None => Err(ConfigError::NoConfigDir),
        }
    }

    /// The settings to run with, and whether they are to be written to the
    /// settings file: that is done where the file is not there yet.
    pub fn load_or_create(
        loaded: Result<ClientConfig, ConfigError>,
        development: bool,
    ) -> (r: (Self, bool))
        ensures
            match loaded {
                Ok(cfg) => r.0 == cfg && !r.1,
                Err(e) => r.0.is_default(development) && r.1 == (e matches ConfigError::Io {
                    not_found: true,
                    ..
                }),
            },
    {
        match loaded {
            Ok(cfg) => (cfg, false),
            Err(ConfigError::Io { path: _, not_found, source: _ }) => {
                (ClientConfig::defaults(development), not_found)
            },
            Err(_) => (ClientConfig::defaults(development), false),
        }
    }

    /// The text of a settings file: a heading, then the settings.
    pub fn file_text(heading: &str, body: &str) -> (r: String)
        ensures
            r@ == heading@ + body@,
    {
        let mut full = heading.to_string();
        full.append(body);
        full
    }
}

impl PathsConfig {
    /// Where downloads are kept: the configured directory, else one below the
    /// system's directory for caches, else one below the working directory.
    pub open spec fn cache_root(self, platform: Option<String>) -> Seq<char> {
        match (self.cache_dir, platform) {
            (Some(dir), _) => dir@,
            (None, Some(base)) => joined_path(
                joined_path(joined_path(base@, APP_DIR_NAME@), "cache"@),
                "resources"@,
            ),
            (None, None) => "cache/resources"@,
        }
    }

    pub fn resolve_cache_dir(&self, platform: Option<String>) -> (r: String)
        ensures
            r@ == self.cache_root(platform),
    {
        if let Some(dir) = &self.cache_dir {
            return dir.clone();
        }
        match platform {
            Some(base) => {
                let app_dir = join_path(base.as_str(), APP_DIR_NAME);
                let cache = join_path(app_dir.as_str(), "cache");
                join_path(cache.as_str(), "resources")
            },
            None => "cache/resources".to_string(),
        }
    }

    /// Where logs go: the configured directory, else `logs` beside the settings
    /// file, else `logs` in the working directory.
    pub fn resolve_log_dir(&self, config_parent: Option<String>) -> (r: String)
        ensures
            r@ == match (self.log_dir, config_parent) {
                (Some(dir), _) => dir@,
                (None, Some(parent)) => joined_path(parent@, "logs"@),
                (None, None) => "logs"@,
            },
    {
        if let Some(dir) = &self.log_dir {
            return dir.clone();
        }
        match config_parent {
            Some(parent) => join_path(parent.as_str(), "logs"),
            None => "logs".to_string(),
        }
    }
}

/// A client without a settings file: who plays, where it connects to, its window of
/// 1280 by 720 and how the world is drawn.
pub proof fn law_client_defaults(development: bool, r: ClientConfig)
    requires
        call_ensures(ClientConfig::defaults, (development,), r),
    ensures
        r.player.name@ == "Player"@,
        r.player.saved_client_id == 0,
        r.player.avatar is None,
        r.network.default_server@ == "127.0.0.1:5000"@,
        r.network.local_bind@ == "0.0.0.0:0"@,
        r.network.download_concurrency == 4,
        !r.network.strict_https,
        r.network.handshake_timeout_sec == 30,
        r.graphics.backend is Auto,
        r.graphics.window_mode is Windowed,
        r.graphics.monitor_index == 0,
        r.graphics.resolution_width == 1280,
        r.graphics.resolution_height == 720,
        r.graphics.present_mode is Auto,
        r.graphics.fps_cap == 0,
        !r.graphics.hdr,
        r.graphics.gpu_priority is HighPerformance,
        r.graphics.window_title@ == "bevy_game"@,
        r.graphics.quality.preset is High,
        r.graphics.quality.shadow_quality is High,
        r.graphics.quality.shadow_distance == scalar(0x42a0_0000),
        r.graphics.quality.texture_quality is High,
        r.graphics.quality.anisotropic_filter == 8,
        r.graphics.quality.antialiasing is Taa,
        r.graphics.quality.bloom,
        !r.graphics.quality.motion_blur,
        !r.graphics.quality.chromatic_aberration,
        !r.graphics.quality.film_grain,
        r.graphics.quality.vignette,
        !r.graphics.quality.depth_of_field,
        r.graphics.quality.ssao,
        !r.graphics.quality.ssr,
        r.graphics.quality.volumetric_lighting is Medium,
        r.graphics.quality.particles_quality is High,
        r.graphics.quality.foliage_density == scalar(0x3f80_0000),
        r.graphics.quality.water_quality is High,
        r.graphics.quality.view_distance == scalar(0x3f80_0000),
        r.graphics.quality.lod_bias == scalar(0),
        r.graphics.quality.lod_max_level == 0,
{
}

/// Its volumes, full but for music, ambience and the interface, what the screen
/// shows, and where things are kept.
pub proof fn law_client_default_looks(development: bool, r: ClientConfig)
    requires
        call_ensures(ClientConfig::defaults, (development,), r),
    ensures
        r.audio.master_volume == scalar(0x3f80_0000),
        r.audio.music_volume == scalar(0x3f19_999a),
        r.audio.sfx_volume == scalar(0x3f80_0000),
        r.audio.voice_volume == scalar(0x3f80_0000),
        r.audio.ambient_volume == scalar(0x3f4c_cccd),
        r.audio.ui_volume == scalar(0x3f33_3333),
        r.audio.output_device is None,
        r.audio.spatial_audio,
        r.audio.mute_on_focus_lost,
        r.ui.language@ == "auto"@,
        r.ui.ui_scale == scalar(0x3f80_0000),
        r.ui.font_size == scalar(0x4180_0000),
        r.ui.hud_opacity == scalar(0x3f66_6666),
        !r.ui.show_fps,
        !r.ui.show_ping,
        r.ui.show_minimap,
        r.ui.show_subtitles,
        r.ui.subtitle_size == scalar(0x4190_0000),
        r.ui.chat_size == scalar(0x4160_0000),
        r.ui.crosshair_enabled,
        r.ui.crosshair_color@ == seq![255u8, 255u8, 255u8, 200u8],
        r.paths.cache_dir is None,
        r.paths.screenshot_dir is None,
        r.paths.savegame_dir is None,
        r.paths.mod_dir is None,
        r.paths.log_dir is None,
        r.server_history.last_used_username is None,
        r.server_history.recent_servers@.len() == 0,
        r.server_history.favorites@.len() == 0,
        r.advanced.log_level is Info,
        r.advanced.log_filter@ == "wgpu=warn,naga=warn"@,
        !r.advanced.show_debug_overlay,
        !r.advanced.show_collision_meshes,
        !r.advanced.profile_overlay,
        !r.advanced.network_stats_overlay,
        r.advanced.developer_console_enabled == development,
        r.advanced.preload_resources,
        !r.advanced.gpu_validation,
{
}

/// Its mouse, its gamepad and its keys.
pub proof fn law_client_default_keys(development: bool, r: ClientConfig)
    requires
        call_ensures(ClientConfig::defaults, (development,), r),
    ensures
        r.input.mouse_sensitivity == scalar(0x3f80_0000),
        r.input.mouse_sensitivity_aim == scalar(0x3f33_3333),
        r.input.mouse_smoothing == scalar(0),
        !r.input.invert_y,
        r.input.raw_mouse_input,
        !r.input.mouse_acceleration,
        r.input.gamepad_enabled,
        r.input.gamepad_deadzone == scalar(0x3e19_999a),
        r.input.gamepad_vibration,
        r.input.keys.move_forward is KeyW,
        r.input.keys.move_backward is KeyS,
        r.input.keys.move_left is KeyA,
        r.input.keys.move_right is KeyD,
        r.input.keys.jump is Space,
        r.input.keys.crouch is ControlLeft,
        r.input.keys.prone is KeyZ,
        r.input.keys.sprint is ShiftLeft,
        r.input.keys.walk is AltLeft,
        r.input.keys.reload is KeyR,
        r.input.keys.melee is KeyF,
        r.input.keys.throw_grenade is KeyG,
        r.input.keys.sheathe_weapon is KeyX,
        r.input.keys.use_item is KeyQ,
        r.input.keys.aim is KeyT,
        r.input.keys.weapon_1 is Digit1,
        r.input.keys.weapon_2 is Digit2,
        r.input.keys.weapon_3 is Digit3,
        r.input.keys.weapon_4 is Digit4,
        r.input.keys.weapon_5 is Digit5,
        r.input.keys.weapon_6 is Digit6,
        r.input.keys.weapon_7 is Digit7,
        r.input.keys.weapon_8 is Digit8,
        r.input.keys.weapon_9 is Digit9,
        r.input.keys.interact is KeyE,
        r.input.keys.inventory is KeyI,
        r.input.keys.map is KeyM,
        r.input.keys.character is KeyC,
        r.input.keys.journal is KeyJ,
        r.input.keys.chat is Enter,
        r.input.keys.voice_chat is KeyV,
        r.input.keys.scoreboard is Tab,
        r.input.keys.options_menu is Escape,
        r.input.keys.toggle_camera is F5,
        r.input.keys.zoom_toggle is KeyZ,
        r.input.keys.toggle_hud is KeyH,
        r.input.keys.screenshot is F12,
        r.input.keys.push_to_talk is KeyB,
        r.input.keys.developer_console is Backquote,
        r.input.mouse.attack_primary is Left,
        r.input.mouse.attack_secondary is Right,
        r.input.mouse.middle_click is Middle,
{
}

/// The settings file: the argument before the environment before the system's
/// directory, and none without any of them. An empty override counts for nothing.
pub proof fn law_settings_path(
    argument: Option<String>,
    over: Option<String>,
    dir: Option<String>,
    r: Result<String, ConfigError>,
)
    requires
        call_ensures(ClientConfig::resolve_path, (argument, over, dir), r),
    ensures
        argument is Some ==> r is Ok && r->Ok_0@ == argument->0@,
        argument is None && over is Some && over->0@.len() > 0 ==> r is Ok && r->Ok_0@ == over->0@,
        argument is None && (over is None || over->0@.len() == 0) && dir is Some ==> r is Ok
            && r->Ok_0@ == joined_path(joined_path(dir->0@, "bevy_game"@), "client.toml"@),
        argument is None && (over is None || over->0@.len() == 0) && dir is None ==> (
        r matches Err(e) && e is NoConfigDir),
{
}

/// Loaded settings are used and not written back. Where there is no file the
/// defaults are used and written; where it could not be read otherwise they are
/// used, and the file is left alone.
pub proof fn law_settings_created(
    loaded: Result<ClientConfig, ConfigError>,
    development: bool,
    r: (ClientConfig, bool),
)
    requires
        call_ensures(ClientConfig::load_or_create, (loaded, development), r),
    ensures
        loaded matches Ok(cfg) ==> r.0 == cfg && !r.1,
        loaded is Err ==> r.0.graphics.resolution_width == 1280 && r.0.input.keys.jump is Space
            && r.0.advanced.developer_console_enabled == development,
        loaded matches Err(ConfigError::Io { not_found, .. }) ==> r.1 == not_found,
        loaded matches Err(e) ==> (!(e is Io) ==> !r.1),
{
}

/// A settings file is its heading and then its body.
pub proof fn law_settings_text(heading: &str, body: &str, r: String)
    requires
        call_ensures(ClientConfig::file_text, (heading, body), r),
    ensures
        r@.len() == heading@.len() + body@.len(),
        r@.take(heading@.len() as int) == heading@,
        r@.skip(heading@.len() as int) == body@,
{
    assert((heading@ + body@).take(heading@.len() as int) =~= heading@);
    assert((heading@ + body@).skip(heading@.len() as int) =~= body@);
}

/// Downloads and logs go where the settings say; else downloads go below the
/// system's caches and logs beside the settings, and without those below the
/// working directory.
pub proof fn law_client_directories(
    paths: &PathsConfig,
    platform: Option<String>,
    parent: Option<String>,
    cache: String,
    logs: String,
)
    requires
        call_ensures(PathsConfig::resolve_cache_dir, (paths, platform), cache),
        call_ensures(PathsConfig::resolve_log_dir, (paths, parent), logs),
    ensures
        paths.cache_dir is Some ==> cache@ == paths.cache_dir->0@,
        paths.cache_dir is None && platform is Some ==> cache@ == joined_path(
            joined_path(joined_path(platform->0@, "bevy_game"@), "cache"@),
            "resources"@,
        ),
        paths.cache_dir is None && platform is None ==> cache@ == "cache/resources"@,
        paths.log_dir is Some ==> logs@ == paths.log_dir->0@,
        paths.log_dir is None && parent is Some ==> logs@ == joined_path(parent->0@, "logs"@),
        paths.log_dir is None && parent is None ==> logs@ == "logs"@,
{
}

} // verus!
