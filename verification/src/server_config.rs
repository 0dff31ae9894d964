//! `server.toml`: the settings of the server and what follows from them.

use vstd::prelude::*;

use crate::console::LogSeverity;
use crate::names::views;
use crate::path_lists::{is_same_path, same_path};
use crate::paths::{join_path, joined_path, lemma_steps_of_name, parent, parent_of, steps};
use crate::scalar::{wide, Wide};
use crate::streaming::text_of;

verus! {

/// Name of the settings file. It is looked for next to the program first, then
/// in the working directory.
pub const DEFAULT_CONFIG_FILE: &'static str = "server.toml";

/// Bit pattern of 60.
pub const SIXTY_HZ: u64 = 0x404e_0000_0000_0000;

/// The settings of the server, one field for each section of the file.
#[derive(Clone, Debug)]
pub struct ServerConfig {
    pub server: ServerInfo,
    pub gameplay: GameplayConfig,
    pub net: NetConfig,
    pub resources: ResourcesConfig,
    pub handshake: HandshakeConfig,
    pub auth: AuthConfig,
    pub logging: LoggingConfig,
    pub admin: AdminConfig,
    pub database: DatabaseConfig,
    pub dev: DevConfig,
}

#[derive(Clone, Debug)]
pub struct ServerInfo {
    /// Name shown in the server browser.
    pub name: String,
    /// Free description, or message of the day.
    pub description: String,
    pub tags: Vec<String>,
    pub icon: Option<String>,
    /// Listed publicly.
    pub public: bool,
}

#[derive(Clone, Debug)]
pub struct GameplayConfig {
    /// Hard limit of connected players.
    pub max_players: u32,
    /// Length of the queue beyond `max_players`; 0 switches it off.
    pub queue_max: u32,
    pub gamemode: Option<String>,
    /// Idle seconds after which a client is disconnected.
    pub idle_kick_sec: u64,
}

#[derive(Clone, Debug)]
pub struct NetConfig {
    pub udp_bind: String,
    pub http_bind: String,
    /// Base address under which clients reach the file server.
    pub http_public_url: String,
    /// Ticks of the simulation per second.
    pub tick_hz: Wide,
    pub protocol_id: u64,
    /// File of the 32-byte private key; without one the key is all zeros.
    pub private_key_path: Option<String>,
    pub connection_timeout_sec: i32,
}

#[derive(Clone, Debug)]
pub struct ResourcesConfig {
    pub root: String,
    pub hot_reload: bool,
    pub watcher_debounce_ms: u64,
}

#[derive(Clone, Copy, PartialEq, Eq, Structural, Debug)]
pub struct HandshakeConfig {
    pub ready_timeout_sec: u64,
    pub connect_timeout_sec: u64,
    pub max_file_size_mb: u32,
}

#[derive(Clone, Debug)]
pub struct AuthConfig {
    pub mode: AuthMode,
    pub whitelist_path: Option<String>,
    pub require_auth: bool,
}

#[derive(Clone, Copy, PartialEq, Eq, Structural, Debug)]
pub enum AuthMode {
    Open,
    Token,
    Whitelist,
}

#[derive(Clone, Debug)]
pub struct LoggingConfig {
    pub level: LogLevel,
    pub filter: String,
}

#[derive(Clone, Copy, PartialEq, Eq, Structural, Debug)]
pub enum LogLevel {
    Trace,
    Debug,
    Info,
    Warn,
    Error,
}

#[derive(Clone, Debug)]
pub struct AdminConfig {
    pub bind: Option<String>,
    pub token: Option<String>,
}

#[derive(Clone, Debug)]
pub struct DatabaseConfig {
    pub url: Option<String>,
    pub pool_size: u32,
    pub migrations_path: Option<String>,
}

#[derive(Clone, Copy, PartialEq, Eq, Structural, Debug)]
pub struct DevConfig {
    pub auto_acknowledge_clients: bool,
    pub print_digest_on_startup: bool,
    pub profile_first_n_frames: u64,
}

/// What can be wrong with the settings.
#[derive(Clone, Debug)]
pub enum ConfigError {
    /// The file could not be read.
    Io { path: String, not_found: bool, source: String },
    /// The file does not hold settings.
    Toml { path: String, source: String },
    /// A socket address does not parse.
    AddrParse { field: String, value: String, source: String },
    /// The private key has another length than 32 bytes.
    KeyLength { path: String, actual: usize },
}

impl ServerInfo {
    /// What the section holds where the file says nothing.
    pub open spec fn is_default(self) -> bool {
        &&& self.name@ == "bevy_game dedicated server"@
        &&& self.description@ == "A FiveM-style modular Bevy multiplayer server."@
        &&& views(self.tags@) == seq!["dev"@]
        &&& self.icon is None
        &&& !self.public
    }
}

impl Default for ServerInfo {
    fn default() -> (r: Self)
        ensures
            r.is_default(),
    {
        let mut tags: Vec<String> = Vec::new();
        tags.push("dev".to_string());
        assert(views(tags@) =~= seq!["dev"@]);
        ServerInfo {
            name: "bevy_game dedicated server".to_string(),
            description: "A FiveM-style modular Bevy multiplayer server.".to_string(),
            tags,
            icon: None,
            public: false,
        }
    }
}

impl GameplayConfig {
    pub open spec fn is_default(self) -> bool {
        &&& self.max_players == 32
        &&& self.queue_max == 0
        &&& self.gamemode is None
        &&& self.idle_kick_sec == 600
    }
}

impl Default for GameplayConfig {
    fn default() -> (r: Self)
        ensures
            r.is_default(),
    {
        GameplayConfig { max_players: 32, queue_max: 0, gamemode: None, idle_kick_sec: 600 }
    }
}

impl NetConfig {
    pub open spec fn is_default(self) -> bool {
        &&& self.udp_bind@ == "0.0.0.0:5000"@
        &&& self.http_bind@ == "0.0.0.0:8081"@
        &&& self.http_public_url@ == "http://127.0.0.1:8081"@
        &&& self.tick_hz.bits == SIXTY_HZ
        &&& self.protocol_id == 0x6265_7679_5f67_616d
        &&& self.private_key_path is None
        &&& self.connection_timeout_sec == 15
    }

    /// The UDP address: `parsed` is what reading `udp_bind` as a socket address
    /// gives, or the reason why it gives none.
    pub fn udp_bind_addr<A>(&self, parsed: Result<A, String>) -> (r: Result<A, ConfigError>)
        ensures
            addr_outcome(parsed, "net.udp_bind"@, self.udp_bind@, r),
    {
        checked_addr(parsed, "net.udp_bind", &self.udp_bind)
    }

    /// The HTTP address: `parsed` is what reading `http_bind` as a socket
    /// address gives, or the reason why it gives none.
    pub fn http_bind_addr<A>(&self, parsed: Result<A, String>) -> (r: Result<A, ConfigError>)
        ensures
            addr_outcome(parsed, "net.http_bind"@, self.http_bind@, r),
    {
        checked_addr(parsed, "net.http_bind", &self.http_bind)
    }

    /// The rate at which the simulation ticks: the configured one, or 60 where
    /// that is zero or negative. A tick lasts one part in that of a second.
    pub fn effective_tick_hz(&self) -> (r: Wide)
        ensures
            r == if self.tick_hz.at_most(wide(0)) {
                wide(SIXTY_HZ)
            } else {
                self.tick_hz
            },
            !r.at_most(wide(0)),
    {
        if self.tick_hz.le(wide(0)) {
            wide(SIXTY_HZ)
        } else {
            self.tick_hz
        }
    }
}

/// A parsed address goes through; a failure names the field and its value.
pub open spec fn addr_outcome<A>(
    parsed: Result<A, String>,
    field: Seq<char>,
    value: Seq<char>,
    r: Result<A, ConfigError>,
) -> bool {
    match parsed {
        Ok(addr) => r == Ok::<A, ConfigError>(addr),
        Err(reason) => r matches Err(ConfigError::AddrParse { field: f, value: v, source: s })
            && f@ == field && v@ == value && s@ == reason@,
    }
}

fn checked_addr<A>(parsed: Result<A, String>, field: &str, value: &String) -> (r: Result<
    A,
    ConfigError,
>)
    ensures
        addr_outcome(parsed, field@, value@, r),
{
    match parsed {
        Ok(addr) => Ok(addr),
        Err(source) => Err(
            ConfigError::AddrParse { field: field.to_string(), value: value.clone(), source },
        ),
    }
}

impl Default for NetConfig {
    fn default() -> (r: Self)
        ensures
            r.is_default(),
    {
        NetConfig {
            udp_bind: "0.0.0.0:5000".to_string(),
            http_bind: "0.0.0.0:8081".to_string(),
            http_public_url: "http://127.0.0.1:8081".to_string(),
            tick_hz: Wide { bits: SIXTY_HZ },
            protocol_id: 0x6265_7679_5f67_616d,
            private_key_path: None,
            connection_timeout_sec: 15,
        }
    }
}

impl ResourcesConfig {
    /// Changes are watched for in development builds.
    pub open spec fn is_default(self, development: bool) -> bool {
        &&& self.root@ == "resources"@
        &&& self.hot_reload == development
        &&& self.watcher_debounce_ms == 150
    }

    pub fn defaults(development: bool) -> (r: Self)
        ensures
            r.is_default(development),
    {
        ResourcesConfig {
            root: "resources".to_string(),
            hot_reload: development,
            watcher_debounce_ms: 150,
        }
    }
}

impl Default for HandshakeConfig {
    fn default() -> (r: Self)
        ensures
            r == (HandshakeConfig {
                ready_timeout_sec: 30,
                connect_timeout_sec: 10,
                max_file_size_mb: 64,
            }),
    {
        HandshakeConfig { ready_timeout_sec: 30, connect_timeout_sec: 10, max_file_size_mb: 64 }
    }
}

impl AuthConfig {
    pub open spec fn is_default(self) -> bool {
        self.mode == AuthMode::Open && self.whitelist_path is None && !self.require_auth
    }
}

impl Default for AuthConfig {
    fn default() -> (r: Self)
        ensures
            r.is_default(),
    {
        AuthConfig { mode: AuthMode::Open, whitelist_path: None, require_auth: false }
    }
}

impl Default for AuthMode {
    fn default() -> (r: Self)
        ensures
            r == AuthMode::Open,
    {
        AuthMode::Open
    }
}

impl LoggingConfig {
    pub open spec fn is_default(self) -> bool {
        self.level == LogLevel::Info && self.filter@ == "wgpu=warn,naga=warn"@
    }
}

impl Default for LoggingConfig {
    fn default() -> (r: Self)
        ensures
            r.is_default(),
    {
        LoggingConfig { level: LogLevel::Info, filter: "wgpu=warn,naga=warn".to_string() }
    }
}

impl Default for LogLevel {
    fn default() -> (r: Self)
        ensures
            r == LogLevel::Info,
    {
        LogLevel::Info
    }
}

impl LogLevel {
    /// The severity from which on the engine writes events.
    pub fn to_bevy(self) -> (r: LogSeverity)
        ensures
            r == match self {
                LogLevel::Trace => LogSeverity::Trace,
                LogLevel::Debug => LogSeverity::Debug,
                LogLevel::Info => LogSeverity::Info,
                LogLevel::Warn => LogSeverity::Warn,
                LogLevel::Error => LogSeverity::Error,
            },
    {
        match self {
            LogLevel::Trace => LogSeverity::Trace,
            LogLevel::Debug => LogSeverity::Debug,
            LogLevel::Info => LogSeverity::Info,
            LogLevel::Warn => LogSeverity::Warn,
            LogLevel::Error => LogSeverity::Error,
        }
    }
}

impl Default for AdminConfig {
    fn default() -> (r: Self)
        ensures
            r.bind is None,
            r.token is None,
    {
        AdminConfig { bind: None, token: None }
    }
}

impl DatabaseConfig {
    pub open spec fn is_default(self) -> bool {
        self.url is None && self.pool_size == 8 && self.migrations_path is None
    }
}

impl Default for DatabaseConfig {
    fn default() -> (r: Self)
        ensures
            r.is_default(),
    {
        DatabaseConfig { url: None, pool_size: 8, migrations_path: None }
    }
}

impl Default for DevConfig {
    fn default() -> (r: Self)
        ensures
            r == (DevConfig {
                auto_acknowledge_clients: false,
                print_digest_on_startup: false,
                profile_first_n_frames: 0,
            }),
    {
        DevConfig {
            auto_acknowledge_clients: false,
            print_digest_on_startup: false,
            profile_first_n_frames: 0,
        }
    }
}

impl ServerConfig {
    /// Every section holds its defaults.
    pub open spec fn is_default(self, development: bool) -> bool {
        &&& self.server.is_default()
        &&& self.gameplay.is_default()
        &&& self.net.is_default()
        &&& self.resources.is_default(development)
        &&& self.handshake == (HandshakeConfig {
            ready_timeout_sec: 30,
            connect_timeout_sec: 10,
            max_file_size_mb: 64,
        })
        &&& self.auth.is_default()
        &&& self.logging.is_default()
        &&& self.admin.bind is None
        &&& self.admin.token is None
        &&& self.database.is_default()
        &&& self.dev == (DevConfig {
            auto_acknowledge_clients: false,
            print_digest_on_startup: false,
            profile_first_n_frames: 0,
        })
    }

    /// The settings of a server without a settings file.
    pub fn defaults(development: bool) -> (r: Self)
        ensures
            r.is_default(development),
    {
        ServerConfig {
            server: ServerInfo::default(),
            gameplay: GameplayConfig::default(),
            net: NetConfig::default(),
            resources: ResourcesConfig::defaults(development),
            handshake: HandshakeConfig::default(),
            auth: AuthConfig::default(),
            logging: LoggingConfig::default(),
            admin: AdminConfig::default(),
            database: DatabaseConfig::default(),
            dev: DevConfig::default(),
        }
    }

    /// The settings to run with: those that were loaded, or the defaults
    /// whatever the loading failed for.
    pub fn load_or_default(loaded: Result<ServerConfig, ConfigError>, development: bool) -> (r: Self)
        ensures
            match loaded {
                Ok(cfg) => r == cfg,
                Err(_) => r.is_default(development),
            },
    {
        match loaded {
            Ok(cfg) => cfg,
            Err(_) => ServerConfig::defaults(development),
        }
    }

    /// The private key of the server. `resolved` is where the configured path
    /// leads, and `read` tells what reading the file there gave; without a
    /// configured path there is no key and nothing is read.
    pub fn load_private_key(
        &self,
        resolved: &str,
        read: Result<Vec<u8>, ConfigError>,
    ) -> (r: Result<Option<[u8; 32]>, ConfigError>)
        ensures
            match (self.net.private_key_path, read) {
                (None, _) => r matches Ok(None),
                (Some(_), Err(e)) => r == Err::<Option<[u8; 32]>, ConfigError>(e),
                (Some(_), Ok(bytes)) => if bytes.len() == 32 {
                    r matches Ok(Some(key)) && key@ == bytes@
                } else {
                    r matches Err(ConfigError::KeyLength { path: p, actual }) && p@ == resolved@
                        && actual == bytes.len()
                },
            },
    {
        match &self.net.private_key_path {
            None => Ok(None),
            Some(_) => match read {
                Err(e) => Err(e),
                Ok(bytes) => {
                    if bytes.len() != 32 {
                        return Err(
                            ConfigError::KeyLength { path: resolved.to_string(), actual: bytes.len() },
                        );
                    }
                    let mut key: [u8; 32] = [0u8; 32];
                    let mut i: usize = 0;
                    while i < 32
                        invariant
                            i <= 32,
                            bytes.len() == 32,
                            forall|j: int| 0 <= j < i ==> key@[j] == bytes@[j],
                        decreases 32 - i,
                    {
                        key[i] = bytes[i];
                        i = i + 1;
                    }
                    assert(key@ =~= bytes@);
                    Ok(Some(key))
                },
            },
        }
    }
}

/// The project that a program was built in: its build directory holds the
/// directory of the program, and the project holds the build directory.
pub open spec fn project_of(exe_dir: Seq<char>) -> Option<Seq<char>> {
    match parent_of(exe_dir) {
        Some(build) => parent_of(build),
        None => None,
    }
}

/// The places where a relative path may lead, in the order in which they are
/// tried: next to the program, in the working directory, and for the path
/// `resources` in the project of the program.
pub open spec fn places_of(
    rel: Seq<char>,
    exe_dir: Option<Seq<char>>,
    cwd: Option<Seq<char>>,
) -> Seq<Seq<char>> {
    (match exe_dir {
        Some(dir) => seq![joined_path(dir, rel)],
        None => Seq::empty(),
    }) + (match cwd {
        Some(dir) => seq![joined_path(dir, rel)],
        None => Seq::empty(),
    }) + (if same_path(rel, "resources"@) && exe_dir is Some && project_of(exe_dir->0) is Some {
        seq![joined_path(project_of(exe_dir->0)->0, "resources"@)]
    } else {
        Seq::empty()
    })
}

fn find_project(exe_dir: &str) -> (r: Option<String>)
    ensures
        text_of(r) == project_of(exe_dir@),
{
    match parent(exe_dir) {
        Some(build) => parent(build.as_str()),
        None => None,
    }
}

/// The places where a relative path may lead, in the order in which they are
/// tried.
pub fn path_candidates(
    rel: &str,
    exe_dir: &Option<String>,
    cwd: &Option<String>,
) -> (r: Vec<String>)
    ensures
        views(r@) == places_of(rel@, text_of(*exe_dir), text_of(*cwd)),
{
    let mut out: Vec<String> = Vec::new();
    if let Some(dir) = exe_dir {
        out.push(join_path(dir.as_str(), rel));
    }
    if let Some(dir) = cwd {
        out.push(join_path(dir.as_str(), rel));
    }
    if is_same_path(rel, "resources") {
        if let Some(dir) = exe_dir {
            if let Some(project) = find_project(dir.as_str()) {
                out.push(join_path(project.as_str(), "resources"));
            }
        }
    }
    assert(views(out@) =~= places_of(rel@, text_of(*exe_dir), text_of(*cwd)));
    out
}

/// The first place where something is; `there` tells it of each place.
pub open spec fn first_there(places: Seq<Seq<char>>, there: Seq<bool>) -> Option<Seq<char>>
    decreases places.len(),
{
    if places.len() == 0 || there.len() == 0 {
        None
    } else if there[0] {
        Some(places[0])
    } else {
        first_there(places.drop_first(), there.drop_first())
    }
}

/// Where a configured path leads. An absolute path stands for itself. A relative
/// one leads to the first of its places where something is; one that is nowhere
/// stands for itself.
pub open spec fn resolved_path(
    rel: Seq<char>,
    absolute: bool,
    exe_dir: Option<Seq<char>>,
    cwd: Option<Seq<char>>,
    there: Seq<bool>,
) -> Seq<char> {
    if absolute {
        rel
    } else {
        match first_there(places_of(rel, exe_dir, cwd), there) {
            Some(path) => path,
            None => rel,
        }
    }
}

/// Where a configured path leads; `there` tells of each candidate whether
/// something is there.
pub fn resolve_path_relative_to_exe(
    rel: &str,
    absolute: bool,
    exe_dir: &Option<String>,
    cwd: &Option<String>,
    there: &Vec<bool>,
) -> (r: String)
    ensures
        r@ == resolved_path(rel@, absolute, text_of(*exe_dir), text_of(*cwd), there@),
{
    if absolute {
        return rel.to_string();
    }
    let places = path_candidates(rel, exe_dir, cwd);
    let ghost all = views(places@);
    let mut i: usize = 0;
    assert(all.skip(0) =~= all);
    assert(there@.skip(0) =~= there@);
    while i < places.len() && i < there.len()
        invariant
            i <= places.len(),
            i <= there.len(),
            all == views(places@),
            all == places_of(rel@, text_of(*exe_dir), text_of(*cwd)),
            !absolute,
            first_there(all, there@) == first_there(all.skip(i as int), there@.skip(i as int)),
        decreases places.len() - i,
    {
        assert(all.skip(i as int)[0] == places@[i as int]@);
        if there[i] {
            return places[i].clone();
        }
        assert(all.skip(i as int).drop_first() =~= all.skip(i + 1));
        assert(there@.skip(i as int).drop_first() =~= there@.skip(i + 1));
        i = i + 1;
    }
    rel.to_string()
}

/// Where the settings file is: next to the program, else in the working
/// directory.
pub fn resolve_default_config_path(
    exe_dir: &Option<String>,
    cwd: &Option<String>,
    there: &Vec<bool>,
) -> (r: String)
    ensures
        r@ == resolved_path(
            DEFAULT_CONFIG_FILE@,
            false,
            text_of(*exe_dir),
            text_of(*cwd),
            there@,
        ),
{
    resolve_path_relative_to_exe(DEFAULT_CONFIG_FILE, false, exe_dir, cwd, there)
}

/// What stands next to the program wins over what stands elsewhere.
pub proof fn law_beside_exe_first(
    rel: Seq<char>,
    exe_dir: Seq<char>,
    cwd: Option<Seq<char>>,
    there: Seq<bool>,
)
    requires
        there.len() > 0,
        there[0],
    ensures
        resolved_path(rel, false, Some(exe_dir), cwd, there) == joined_path(exe_dir, rel),
{
    let places = places_of(rel, Some(exe_dir), cwd);
    assert(places[0] == joined_path(exe_dir, rel));
}

/// The settings file itself is never looked for in the project.
pub proof fn law_config_not_in_project(exe_dir: Option<Seq<char>>, cwd: Option<Seq<char>>)
    ensures
        places_of(DEFAULT_CONFIG_FILE@, exe_dir, cwd).len() == (if exe_dir is Some {
            1int
        } else {
            0
        }) + (if cwd is Some {
            1int
        } else {
            0
        }),
{
    reveal_strlit("server.toml");
    reveal_strlit("resources");
    reveal_strlit(".");
    lemma_steps_of_name("server.toml"@);
    lemma_steps_of_name("resources"@);
    assert(steps("server.toml"@)[0].len() != steps("resources"@)[0].len());
}

/// A server without a settings file: for up to 32 players, on the usual ports, at
/// 60 ticks a second, open to everybody, with its resources beside it.
pub proof fn law_server_defaults(development: bool, r: ServerConfig)
    requires
        call_ensures(ServerConfig::defaults, (development,), r),
    ensures
        r.server.name@ == "bevy_game dedicated server"@,
        !r.server.public,
        r.gameplay.max_players == 32 && r.gameplay.queue_max == 0 && r.gameplay.idle_kick_sec == 600,
        r.net.udp_bind@ == "0.0.0.0:5000"@,
        r.net.http_bind@ == "0.0.0.0:8081"@,
        r.net.http_public_url@ == "http://127.0.0.1:8081"@,
        r.net.tick_hz == wide(0x404e_0000_0000_0000),
        r.net.protocol_id == 0x6265_7679_5f67_616d,
        r.net.private_key_path is None && r.net.connection_timeout_sec == 15,
        r.resources.root@ == "resources"@,
        r.resources.hot_reload == development && r.resources.watcher_debounce_ms == 150,
        r.handshake.ready_timeout_sec == 30 && r.handshake.connect_timeout_sec == 10,
        r.handshake.max_file_size_mb == 64,
        r.auth.mode is Open && !r.auth.require_auth && r.auth.whitelist_path is None,
        r.logging.level is Info && r.logging.filter@ == "wgpu=warn,naga=warn"@,
        r.admin.bind is None && r.admin.token is None,
        r.database.url is None && r.database.pool_size == 8,
        !r.dev.auto_acknowledge_clients && !r.dev.print_digest_on_startup
            && r.dev.profile_first_n_frames == 0,
{
}

/// Loaded settings are used as they are; where loading failed the defaults are.
pub proof fn law_server_settings(
    loaded: Result<ServerConfig, ConfigError>,
    development: bool,
    r: ServerConfig,
)
    requires
        call_ensures(ServerConfig::load_or_default, (loaded, development), r),
    ensures
        loaded matches Ok(cfg) ==> r == cfg,
        loaded is Err ==> r.net.udp_bind@ == "0.0.0.0:5000"@ && r.gameplay.max_players == 32
            && r.resources.hot_reload == development && r.auth.mode is Open,
{
}

/// An address that was read goes through, and one that could not be read is told
/// with its own field and value.
pub proof fn law_bind_addresses<A>(
    net: &NetConfig,
    parsed: Result<A, String>,
    udp: Result<A, ConfigError>,
    http: Result<A, ConfigError>,
)
    requires
        call_ensures(NetConfig::udp_bind_addr::<A>, (net, parsed), udp),
        call_ensures(NetConfig::http_bind_addr::<A>, (net, parsed), http),
    ensures
        parsed matches Ok(a) ==> udp == Ok::<A, ConfigError>(a) && http == Ok::<A, ConfigError>(a),
        parsed matches Err(e) ==> (udp matches Err(ConfigError::AddrParse { field, value, source })
            && field@ == "net.udp_bind"@ && value@ == net.udp_bind@ && source@ == e@),
        parsed matches Err(e) ==> (http matches Err(ConfigError::AddrParse { field, value, source })
            && field@ == "net.http_bind"@ && value@ == net.http_bind@ && source@ == e@),
{
}

/// The simulation ticks at the configured rate, and at 60 where that is zero or
/// below.
pub proof fn law_tick_rate(net: &NetConfig, r: Wide)
    requires
        call_ensures(NetConfig::effective_tick_hz, (net,), r),
    ensures
        net.tick_hz.at_most(wide(0)) ==> r == wide(0x404e_0000_0000_0000),
        !net.tick_hz.at_most(wide(0)) ==> r == net.tick_hz,
{
}

/// The private key is the file's thirty-two bytes; a file of another length is
/// refused with its length, and without a configured path there is no key.
pub proof fn law_private_key(
    cfg: &ServerConfig,
    resolved: &str,
    read: Result<Vec<u8>, ConfigError>,
    r: Result<Option<[u8; 32]>, ConfigError>,
)
    requires
        call_ensures(ServerConfig::load_private_key, (cfg, resolved, read), r),
    ensures
        cfg.net.private_key_path is None ==> (r matches Ok(key) && key is None),
        cfg.net.private_key_path is Some && read is Ok && read->Ok_0@.len() == 32 ==> (
        r matches Ok(key) && key is Some && key->0@ == read->Ok_0@),
        cfg.net.private_key_path is Some && read is Ok && read->Ok_0@.len() != 32 ==> (
        r matches Err(ConfigError::KeyLength { path, actual }) && path@ == resolved@ && actual
            == read->Ok_0@.len()),
        cfg.net.private_key_path is Some && read is Err ==> (r matches Err(e) && e == read->Err_0),
{
}

proof fn lemma_first_there(places: Seq<Seq<char>>, there: Seq<bool>, i: int)
    requires
        0 <= i <= places.len(),
        i <= there.len(),
        forall|j: int| 0 <= j < i ==> !#[trigger] there[j],
        i < places.len() && i < there.len() ==> there[i],
    ensures
        i < places.len() && i < there.len() ==> first_there(places, there) == Some(places[i]),
        i == places.len() || i == there.len() ==> first_there(places, there) is None,
    decreases i,
{
    if i > 0 {
        assert(!there[0]);
        let rest = there.drop_first();
        assert forall|j: int| 0 <= j < i - 1 implies !#[trigger] rest[j] by {
            assert(rest[j] == there[j + 1]);
        }
        lemma_first_there(places.drop_first(), rest, i - 1);
    }
}

/// A configured path leads to the first of its places where something is, and
/// stands for itself where nothing is or where it is absolute. `i` is the number
/// of that place, or their count.
pub proof fn law_configured_path(
    rel: &str,
    absolute: bool,
    exe_dir: &Option<String>,
    cwd: &Option<String>,
    there: &Vec<bool>,
    places: Vec<String>,
    r: String,
    i: int,
)
    requires
        call_ensures(resolve_path_relative_to_exe, (rel, absolute, exe_dir, cwd, there), r),
        call_ensures(path_candidates, (rel, exe_dir, cwd), places),
        there@.len() == places@.len(),
        0 <= i <= places@.len(),
        forall|j: int| 0 <= j < i ==> !#[trigger] there@[j],
        i < places@.len() ==> there@[i],
    ensures
        absolute ==> r@ == rel@,
        !absolute && i < places@.len() ==> r@ == places@[i]@,
        !absolute && i == places@.len() ==> r@ == rel@,
{
    assert(views(places@).len() == places@.len());
    lemma_first_there(views(places@), there@, i);
    if i < places@.len() {
        assert(views(places@)[i] == places@[i]@);
    }
}

/// The places of a path: beside the program, then in the working directory, each
/// where it is known; the resources also stand in the project, two directories
/// above the program.
pub proof fn law_path_places(
    rel: &str,
    exe_dir: &Option<String>,
    cwd: &Option<String>,
    r: Vec<String>,
    is_resources: bool,
    resources: &str,
)
    requires
        call_ensures(path_candidates, (rel, exe_dir, cwd), r),
        resources@ == "resources"@,
        call_ensures(is_same_path, (rel, resources), is_resources),
    ensures
        exe_dir is Some ==> r@.len() >= 1 && r@[0]@ == joined_path(exe_dir->0@, rel@),
        exe_dir is Some && cwd is Some ==> r@.len() >= 2 && r@[1]@ == joined_path(cwd->0@, rel@),
        exe_dir is None && cwd is Some ==> r@.len() == 1 && r@[0]@ == joined_path(cwd->0@, rel@),
        exe_dir is None && cwd is None ==> r@.len() == 0,
        !is_resources ==> r@.len() == (if exe_dir is Some {
            1int
        } else {
            0
        }) + (if cwd is Some {
            1int
        } else {
            0
        }),
        r@.len() == 3 ==> is_resources && exe_dir is Some && project_of(exe_dir->0@) is Some
            && r@[2]@ == joined_path(project_of(exe_dir->0@)->0, "resources"@),
        is_resources && exe_dir is Some && cwd is Some && project_of(exe_dir->0@) is Some
            ==> r@.len() == 3,
{
    assert(views(r@).len() == r@.len());
    if r@.len() > 0 {
        assert(views(r@)[0] == r@[0]@);
    }
    if r@.len() > 1 {
        assert(views(r@)[1] == r@[1]@);
    }
    if r@.len() > 2 {
        assert(views(r@)[2] == r@[2]@);
    }
}

/// The settings file `server.toml` is looked for like any other path, and each
/// log level is the severity of its name.
pub proof fn law_settings_file(
    exe_dir: &Option<String>,
    cwd: &Option<String>,
    there: &Vec<bool>,
    r: String,
    rel: &str,
    q: String,
    level: LogLevel,
    severity: LogSeverity,
)
    requires
        call_ensures(resolve_default_config_path, (exe_dir, cwd, there), r),
        call_ensures(resolve_path_relative_to_exe, (rel, false, exe_dir, cwd, there), q),
        rel@ == "server.toml"@,
        call_ensures(LogLevel::to_bevy, (level,), severity),
    ensures
        r@ == q@,
        level is Trace <==> severity is Trace,
        level is Debug <==> severity is Debug,
        level is Info <==> severity is Info,
        level is Warn <==> severity is Warn,
        level is Error <==> severity is Error,
{
}

} // verus!
