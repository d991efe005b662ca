//! Application configuration: its defaults, and how a file and the environment
//! override them.

use crate::text::{join3, opt_str, owned, parse_number, parse_unsigned, quote, quoted};
use vstd::prelude::*;

verus! {

/// Full application configuration.
#[derive(Debug, Clone)]
pub struct AppConfig {
    /// Server listen addresses and database path.
    pub server: ServerConfig,
    /// Tor SOCKS proxy configuration.
    pub tor: TorConfig,
    /// Display configuration.
    pub display: DisplayConfig,
    /// Playback pipeline configuration.
    pub playback: PlaybackConfig,
    /// DLNA renderer configuration.
    pub dlna: DlnaConfig,
    /// Logging configuration.
    pub logging: LoggingConfig,
}

/// HTTP and WebSocket server configuration.
#[derive(Debug, Clone)]
pub struct ServerConfig {
    /// HTTP API listen address.
    pub http_addr: String,
    /// WebSocket listen address.
    pub ws_addr: String,
    /// Session database path.
    pub db_path: String,
    /// Path to the TLS certificate.
    pub tls_cert_path: String,
    /// Path to the TLS private key.
    pub tls_key_path: String,
}

/// Tor SOCKS proxy configuration.
#[derive(Debug, Clone)]
pub struct TorConfig {
    /// SOCKS5 proxy address.
    pub socks_addr: String,
    /// Tor control port.
    pub control_port: u16,
    /// Tor control authentication cookie path.
    pub cookie_path: String,
}

/// Display configuration.
#[derive(Debug, Clone)]
pub struct DisplayConfig {
    /// DRM device path; empty to detect it.
    pub drm_device: String,
}

/// Playback pipeline configuration.
#[derive(Debug, Clone)]
pub struct PlaybackConfig {
    /// ALSA device; empty for the default one.
    pub audio_device: String,
}

/// DLNA renderer configuration.
#[derive(Debug, Clone)]
pub struct DlnaConfig {
    /// Friendly name advertised on the network.
    pub friendly_name: String,
    /// Listen port.
    pub port: u16,
}

/// Logging configuration.
#[derive(Debug, Clone)]
pub struct LoggingConfig {
    /// Log level filter.
    pub level: String,
}

/// Mathematical counterpart of [`AppConfig`], all levels in one.
pub struct ConfigModel {
    pub http_addr: Seq<char>,
    pub ws_addr: Seq<char>,
    pub db_path: Seq<char>,
    pub tls_cert_path: Seq<char>,
    pub tls_key_path: Seq<char>,
    pub socks_addr: Seq<char>,
    pub control_port: u16,
    pub cookie_path: Seq<char>,
    pub drm_device: Seq<char>,
    pub audio_device: Seq<char>,
    pub friendly_name: Seq<char>,
    pub dlna_port: u16,
    pub level: Seq<char>,
}

impl View for AppConfig {
    type V = ConfigModel;

    open spec fn view(&self) -> ConfigModel {
        ConfigModel {
            http_addr: self.server.http_addr@,
            ws_addr: self.server.ws_addr@,
            db_path: self.server.db_path@,
            tls_cert_path: self.server.tls_cert_path@,
            tls_key_path: self.server.tls_key_path@,
            socks_addr: self.tor.socks_addr@,
            control_port: self.tor.control_port,
            cookie_path: self.tor.cookie_path@,
            drm_device: self.display.drm_device@,
            audio_device: self.playback.audio_device@,
            friendly_name: self.dlna.friendly_name@,
            dlna_port: self.dlna.port,
            level: self.logging.level@,
        }
    }
}

/// The built-in configuration.
pub open spec fn built_in() -> ConfigModel {
    ConfigModel {
        http_addr: "0.0.0.0:8585"@,
        ws_addr: "0.0.0.0:8586"@,
        db_path: "/var/lib/picast/sessions.db"@,
        tls_cert_path: Seq::empty(),
        tls_key_path: Seq::empty(),
        socks_addr: "127.0.0.1:9050"@,
        control_port: 9051,
        cookie_path: "/run/tor/control.authcookie"@,
        drm_device: Seq::empty(),
        audio_device: Seq::empty(),
        friendly_name: "PiCast"@,
        dlna_port: 49152,
        level: "info"@,
    }
}

impl ServerConfig {
    /// Whether both certificate and key are set, which enables TLS.
    pub fn tls_enabled(&self) -> (r: bool)
        ensures
            r == (self.tls_cert_path@.len() > 0 && self.tls_key_path@.len() > 0),
    {
        !self.tls_cert_path.as_str().is_empty() && !self.tls_key_path.as_str().is_empty()
    }
}

impl Default for ServerConfig {
    fn default() -> (r: Self)
        ensures
            r.http_addr@ == "0.0.0.0:8585"@,
            r.ws_addr@ == "0.0.0.0:8586"@,
            r.db_path@ == "/var/lib/picast/sessions.db"@,
            r.tls_cert_path@ == Seq::<char>::empty(),
            r.tls_key_path@ == Seq::<char>::empty(),
    {
        ServerConfig {
            http_addr: default_http_addr(),
            ws_addr: default_ws_addr(),
            db_path: default_db_path(),
            tls_cert_path: String::new(),
            tls_key_path: String::new(),
        }
    }
}

impl Default for TorConfig {
    fn default() -> (r: Self)
        ensures
            r.socks_addr@ == "127.0.0.1:9050"@,
            r.control_port == 9051,
            r.cookie_path@ == "/run/tor/control.authcookie"@,
    {
        TorConfig {
            socks_addr: default_socks_addr(),
            control_port: default_tor_control_port(),
            cookie_path: default_tor_cookie_path(),
        }
    }
}

impl Default for DisplayConfig {
    fn default() -> (r: Self)
        ensures
            r.drm_device@ == Seq::<char>::empty(),
    {
        DisplayConfig { drm_device: String::new() }
    }
}

impl Default for PlaybackConfig {
    fn default() -> (r: Self)
        ensures
            r.audio_device@ == Seq::<char>::empty(),
    {
        PlaybackConfig { audio_device: String::new() }
    }
}

impl Default for DlnaConfig {
    fn default() -> (r: Self)
        ensures
            r.friendly_name@ == "PiCast"@,
            r.port == 49152,
    {
        DlnaConfig { friendly_name: default_dlna_name(), port: default_dlna_port() }
    }
}

impl Default for LoggingConfig {
    fn default() -> (r: Self)
        ensures
            r.level@ == "info"@,
    {
        LoggingConfig { level: default_log_level() }
    }
}

impl Default for AppConfig {
    fn default() -> (r: Self)
        ensures
            r@ == built_in(),
    {
        AppConfig {
            server: ServerConfig::default(),
            tor: TorConfig::default(),
            display: DisplayConfig::default(),
            playback: PlaybackConfig::default(),
            dlna: DlnaConfig::default(),
            logging: LoggingConfig::default(),
        }
    }
}

pub fn default_http_addr() -> (r: String)
    ensures
        r@ == "0.0.0.0:8585"@,
{
    owned("0.0.0.0:8585")
}

pub fn default_ws_addr() -> (r: String)
    ensures
        r@ == "0.0.0.0:8586"@,
{
    owned("0.0.0.0:8586")
}

pub fn default_db_path() -> (r: String)
    ensures
        r@ == "/var/lib/picast/sessions.db"@,
{
    owned("/var/lib/picast/sessions.db")
}

pub fn default_socks_addr() -> (r: String)
    ensures
        r@ == "127.0.0.1:9050"@,
{
    owned("127.0.0.1:9050")
}

pub fn default_tor_control_port() -> (r: u16)
    ensures
        r == 9051,
{
    9051
}

pub fn default_tor_cookie_path() -> (r: String)
    ensures
        r@ == "/run/tor/control.authcookie"@,
{
    owned("/run/tor/control.authcookie")
}

pub fn default_dlna_name() -> (r: String)
    ensures
        r@ == "PiCast"@,
{
    owned("PiCast")
}

pub fn default_dlna_port() -> (r: u16)
    ensures
        r == 49152,
{
    49152
}

pub fn default_log_level() -> (r: String)
    ensures
        r@ == "info"@,
{
    owned("info")
}

// ---------------------------------------------------------------------------
// Sources
// ---------------------------------------------------------------------------

/// What the environment says: the values of the `PICAST_*` variables that are
/// set.
#[derive(Debug, Clone)]
pub struct Environment {
    pub http_addr: Option<String>,
    pub ws_addr: Option<String>,
    pub db_path: Option<String>,
    pub tor_socks: Option<String>,
    pub tor_control_port: Option<String>,
    pub tor_cookie_path: Option<String>,
    pub drm_device: Option<String>,
    pub audio_device: Option<String>,
    pub dlna_name: Option<String>,
    pub dlna_port: Option<String>,
    pub tls_cert: Option<String>,
    pub tls_key: Option<String>,
    pub log_level: Option<String>,
}

impl Default for Environment {
    /// No variable is set.
    fn default() -> (r: Self)
        ensures
            r == (Environment {
                http_addr: None,
                ws_addr: None,
                db_path: None,
                tor_socks: None,
                tor_control_port: None,
                tor_cookie_path: None,
                drm_device: None,
                audio_device: None,
                dlna_name: None,
                dlna_port: None,
                tls_cert: None,
                tls_key: None,
                log_level: None,
            }),
    {
        Environment {
            http_addr: None,
            ws_addr: None,
            db_path: None,
            tor_socks: None,
            tor_control_port: None,
            tor_cookie_path: None,
            drm_device: None,
            audio_device: None,
            dlna_name: None,
            dlna_port: None,
            tls_cert: None,
            tls_key: None,
            log_level: None,
        }
    }
}

/// A text, overridden where the variable is set.
pub open spec fn text_or(set: Option<String>, other: Seq<char>) -> Seq<char> {
    match set {
        Some(v) => v@,
        None => other,
    }
}

/// A port, overridden where the variable is set to a valid one.
pub open spec fn port_or(set: Option<String>, other: u16) -> u16 {
    match set {
        Some(v) => match parse_unsigned(v@, u16::MAX as nat) {
            Some(n) => n as u16,
            None => other,
        },
        None => other,
    }
}

/// A configuration with the environment on top.
pub open spec fn overridden(c: ConfigModel, env: Environment) -> ConfigModel {
    ConfigModel {
        http_addr: text_or(env.http_addr, c.http_addr),
        ws_addr: text_or(env.ws_addr, c.ws_addr),
        db_path: text_or(env.db_path, c.db_path),
        tls_cert_path: text_or(env.tls_cert, c.tls_cert_path),
        tls_key_path: text_or(env.tls_key, c.tls_key_path),
        socks_addr: text_or(env.tor_socks, c.socks_addr),
        control_port: port_or(env.tor_control_port, c.control_port),
        cookie_path: text_or(env.tor_cookie_path, c.cookie_path),
        drm_device: text_or(env.drm_device, c.drm_device),
        audio_device: text_or(env.audio_device, c.audio_device),
        friendly_name: text_or(env.dlna_name, c.friendly_name),
        dlna_port: port_or(env.dlna_port, c.dlna_port),
        level: text_or(env.log_level, c.level),
    }
}

fn override_text(field: &mut String, set: &Option<String>)
    ensures
        final(field)@ == text_or(*set, old(field)@),
{
    match set {
        Some(v) => {
            *field = owned(v.as_str());
        },
        None => {},
    }
}

fn override_port(field: u16, set: &Option<String>) -> (r: u16)
    ensures
        r == port_or(*set, field),
{
    match set {
        Some(v) => match parse_number(v.as_str(), u16::MAX as u64) {
            Some(n) => n as u16,
            None => field,
        },
        None => field,
    }
}

/// Where the configuration file is.
#[derive(Debug)]
pub enum ConfigSource {
    /// There is none.
    Defaults,
    /// At this path.
    File(String),
    /// At an explicitly given path, which does not exist.
    Missing(String),
}

/// Where configuration files are looked for, in order.
pub open spec fn search_paths() -> Seq<Seq<char>> {
    seq!["picast.toml"@, "/etc/picast/picast.toml"@, "/usr/local/etc/picast/picast.toml"@]
}

/// Where configuration files are looked for, in order.
pub fn config_search_paths() -> (r: Vec<&'static str>)
    ensures
        crate::text::strs(r@) == search_paths(),
{
    let r: Vec<&'static str> = vec![
        "picast.toml",
        "/etc/picast/picast.toml",
        "/usr/local/etc/picast/picast.toml",
    ];
    assert(crate::text::strs(r@) =~= search_paths());
    r
}

/// The first index from `i` on that is marked.
pub open spec fn first_marked(marks: Seq<bool>, i: int) -> Option<int>
    decreases marks.len() - i,
{
    if i < 0 || i >= marks.len() {
        None
    } else if marks[i] {
        Some(i)
    } else {
        first_marked(marks, i + 1)
    }
}

/// Decides where the configuration comes from. An explicit path counts alone,
/// whether it exists or not; else the first search path that exists.
pub fn choose_source(explicit: Option<&str>, explicit_exists: bool, found: &[bool; 3]) -> (r:
    ConfigSource)
    ensures
        match opt_str(explicit) {
            Some(path) => if explicit_exists {
                r matches ConfigSource::File(p) && p@ == path
            } else {
                r matches ConfigSource::Missing(p) && p@ == path
            },
            None => match first_marked(found@, 0) {
                Some(k) => r matches ConfigSource::File(p) && p@ == search_paths()[k],
                None => r is Defaults,
            },
        },
{
    match explicit {
        Some(path) => if explicit_exists {
            ConfigSource::File(owned(path))
        } else {
            ConfigSource::Missing(owned(path))
        },
        None => {
            proof {
                reveal_with_fuel(first_marked, 4);
            }
            let paths = config_search_paths();
            assert(crate::text::strs(paths@).len() == paths@.len());
            assert(crate::text::strs(paths@)[0] == paths@[0]@);
            assert(crate::text::strs(paths@)[1] == paths@[1]@);
            assert(crate::text::strs(paths@)[2] == paths@[2]@);
            if found[0] {
                ConfigSource::File(owned(paths[0]))
            } else if found[1] {
                ConfigSource::File(owned(paths[1]))
            } else if found[2] {
                ConfigSource::File(owned(paths[2]))
            } else {
                ConfigSource::Defaults
            }
        },
    }
}

/// The complaint about an explicit path that does not exist.
pub fn missing_file_message(path: &str) -> (r: String)
    ensures
        r@ == "PICAST_CONFIG="@ + quoted(path@) + " does not exist"@,
{
    join3("PICAST_CONFIG=", quote(path).as_str(), " does not exist")
}

impl AppConfig {
    /// The configuration of a file, or the defaults where there is none, with
    /// the environment on top.
    pub fn load(file: Option<AppConfig>, env: &Environment) -> (r: Self)
        ensures
            r@ == overridden(
                match file {
                    Some(c) => c@,
                    None => built_in(),
                },
                *env,
            ),
    {
        let mut config = match file {
            Some(c) => c,
            None => AppConfig::default(),
        };
        config.merge_env(env);
        config
    }

    /// Override fields with environment variables; a port that is no number is
    /// passed over.
    pub fn merge_env(&mut self, env: &Environment)
        ensures
            final(self)@ == overridden(old(self)@, *env),
    {
        override_text(&mut self.server.http_addr, &env.http_addr);
        override_text(&mut self.server.ws_addr, &env.ws_addr);
        override_text(&mut self.server.db_path, &env.db_path);
        override_text(&mut self.tor.socks_addr, &env.tor_socks);
        self.tor.control_port = override_port(self.tor.control_port, &env.tor_control_port);
        override_text(&mut self.tor.cookie_path, &env.tor_cookie_path);
        override_text(&mut self.display.drm_device, &env.drm_device);
        override_text(&mut self.playback.audio_device, &env.audio_device);
        override_text(&mut self.dlna.friendly_name, &env.dlna_name);
        self.dlna.port = override_port(self.dlna.port, &env.dlna_port);
        override_text(&mut self.server.tls_cert_path, &env.tls_cert);
        override_text(&mut self.server.tls_key_path, &env.tls_key);
        override_text(&mut self.logging.level, &env.log_level);
    }
}

// ---------------------------------------------------------------------------
// Laws
// ---------------------------------------------------------------------------

/// Merging the same environment again changes nothing.
pub proof fn lemma_override_idempotent(c: ConfigModel, env: Environment)
    ensures
        overridden(overridden(c, env), env) == overridden(c, env),
{
}

/// Whether a merged text is the one set, or the file's where none is.
pub open spec fn text_won(set: Option<String>, file: Seq<char>, merged: Seq<char>) -> bool {
    match set {
        Some(v) => merged == v@,
        None => merged == file,
    }
}

/// The environment wins over the file: every text that it sets counts, and
/// what it leaves unset stays as in the file.
pub proof fn lemma_environment_wins(file: ConfigModel, env: Environment)
    ensures
        ({
            let merged = overridden(file, env);
            &&& text_won(env.http_addr, file.http_addr, merged.http_addr)
            &&& text_won(env.ws_addr, file.ws_addr, merged.ws_addr)
            &&& text_won(env.db_path, file.db_path, merged.db_path)
            &&& text_won(env.tls_cert, file.tls_cert_path, merged.tls_cert_path)
            &&& text_won(env.tls_key, file.tls_key_path, merged.tls_key_path)
            &&& text_won(env.tor_socks, file.socks_addr, merged.socks_addr)
            &&& text_won(env.tor_cookie_path, file.cookie_path, merged.cookie_path)
            &&& text_won(env.drm_device, file.drm_device, merged.drm_device)
            &&& text_won(env.audio_device, file.audio_device, merged.audio_device)
            &&& text_won(env.dlna_name, file.friendly_name, merged.friendly_name)
            &&& text_won(env.log_level, file.level, merged.level)
            &&& env.tor_control_port is None ==> merged.control_port == file.control_port
            &&& env.dlna_port is None ==> merged.dlna_port == file.dlna_port
        }),
{
}

} // verus!
