//! Configuration: what the TOML file holds, its defaults, and the environment
//! overrides.

use vstd::prelude::*;

use crate::audio::path::join_path;
use crate::audio::path;
use crate::string_map::StringMap;
use crate::text::chars::CharClass;
use crate::text::chars::concat3;
use crate::text::chars::concat4;
use crate::text::chars::owned;
use crate::text::chars::to_chars;
use crate::text::chars::to_text;
use crate::text::chars;
use crate::text::trim::trim_end_of;
use crate::text::trim;

verus! {

broadcast use {vstd::seq::group_seq_axioms, vstd::slice::group_slice_axioms};

/// The shortest time for one voice turn.
pub const TURN_TIMEOUT_MIN_MS: u64 = 1000;

/// The longest time for one voice turn: Alexa gives up after eight seconds.
pub const TURN_TIMEOUT_MAX_MS: u64 = 7900;

#[derive(Debug)]
pub struct Config {
    pub server: ServerConfig,
    pub library: LibraryConfig,
    pub zeroclaw: ZeroclawConfig,
    pub radio: RadioConfig,
    pub logging: LoggingConfig,
}

#[derive(Debug)]
pub struct ServerConfig {
    /// e.g. "0.0.0.0:8080".
    pub bind: String,
    /// Public base URL (https) that Amazon and Echo devices reach. Used to
    /// build /stream and /art URLs.
    pub public_base_url: String,
    /// Alexa skill client id; when set, requests from other skills are
    /// rejected.
    pub client_id: Option<String>,
    /// Native TLS (otherwise run behind Caddy/nginx).
    pub tls_cert: Option<String>,
    pub tls_key: Option<String>,
    /// Where state.json lives.
    pub data_dir: Option<String>,
}

#[derive(Debug)]
pub struct LibraryConfig {
    pub paths: Vec<String>,
    /// Rescan the library every N seconds (0 = never).
    pub rescan_secs: u64,
}

#[derive(Debug)]
pub struct ZeroclawConfig {
    /// Gateway base URL, e.g. ws://127.0.0.1:3000
    pub gateway: String,
    /// Bearer token; defaults to $ARIA_ZC_TOKEN.
    pub token: Option<String>,
    /// ZeroClaw agent alias used for voice turns.
    pub agent_alias: String,
    /// Wall-clock budget for one voice turn before we speak the partial
    /// (Alexa requires a response within ~8s).
    pub turn_timeout_ms: u64,
    /// Prepended to every utterance sent to the agent.
    pub voice_note: String,
    /// Development mode: don't talk to zeroclaw, echo back.
    pub mock: bool,
}

#[derive(Debug)]
pub struct RadioConfig {
    /// Station name (lowercase) -> stream URL (MP3/AAC).
    pub stations: StringMap<String>,
}

#[derive(Debug)]
pub struct LoggingConfig {
    pub level: String,
}

pub const DEFAULT_VOICE_NOTE: &'static str = "You are talking to the user through an Alexa device. Keep answers short (one to three sentences), conversational, and free of markdown, lists, and code — they will be spoken aloud by a text-to-speech engine.";

impl Default for ServerConfig {
    fn default() -> (r: Self)
        ensures
            r.bind@ == "0.0.0.0:8080"@,
            r.public_base_url@.len() == 0,
            r.client_id is None,
            r.tls_cert is None,
            r.tls_key is None,
            r.data_dir is None,
    {
        ServerConfig {
            bind: owned("0.0.0.0:8080"),
            public_base_url: String::new(),
            client_id: None,
            tls_cert: None,
            tls_key: None,
            data_dir: None,
        }
    }
}

impl Default for LibraryConfig {
    fn default() -> (r: Self)
        ensures
            chars::all_texts(r.paths@) == seq!["/srv/music"@],
            r.rescan_secs == 3600,
    {
        let mut paths: Vec<String> = Vec::new();
        paths.push(owned("/srv/music"));
        assert(chars::all_texts(paths@) =~= seq!["/srv/music"@]);
        LibraryConfig { paths, rescan_secs: 3600 }
    }
}

impl Default for ZeroclawConfig {
    fn default() -> (r: Self)
        ensures
            r.gateway@ == "ws://127.0.0.1:3000"@,
            r.token is None,
            r.agent_alias@ == "voice"@,
            r.turn_timeout_ms == 7500,
            r.voice_note@ == DEFAULT_VOICE_NOTE@,
            !r.mock,
    {
        ZeroclawConfig {
            gateway: owned("ws://127.0.0.1:3000"),
            token: None,
            agent_alias: owned("voice"),
            turn_timeout_ms: 7500,
            voice_note: owned(DEFAULT_VOICE_NOTE),
            mock: false,
        }
    }
}

impl Default for RadioConfig {
    fn default() -> (r: Self)
        ensures
            r.stations@ == Map::<Seq<char>, String>::empty(),
    {
        RadioConfig { stations: StringMap::new() }
    }
}

impl Default for LoggingConfig {
    fn default() -> (r: Self)
        ensures
            r.level@ == "info"@,
    {
        LoggingConfig { level: owned("info") }
    }
}

impl Config {
    /// The configuration without a file.
    pub open spec fn is_builtin(self) -> bool {
        &&& self.server.bind@ == "0.0.0.0:8080"@
        &&& self.server.public_base_url@.len() == 0
        &&& self.server.client_id is None
        &&& self.server.tls_cert is None
        &&& self.server.tls_key is None
        &&& self.server.data_dir is None
        &&& chars::all_texts(self.library.paths@) == seq!["/srv/music"@]
        &&& self.library.rescan_secs == 3600
        &&& self.zeroclaw.gateway@ == "ws://127.0.0.1:3000"@
        &&& self.zeroclaw.token is None
        &&& self.zeroclaw.agent_alias@ == "voice"@
        &&& self.zeroclaw.turn_timeout_ms == 7500
        &&& self.zeroclaw.voice_note@ == DEFAULT_VOICE_NOTE@
        &&& !self.zeroclaw.mock
        &&& self.radio.stations@ == Map::<Seq<char>, String>::empty()
        &&& self.logging.level@ == "info"@
    }

    /// The public base URL without slashes at its end.
    pub open spec fn public_base(self) -> Seq<char> {
        trim::trimmed_end(self.server.public_base_url@, CharClass::Slash)
    }

    /// The time for one voice turn, kept within its limits.
    pub open spec fn turn_ms(self) -> u64 {
        if self.zeroclaw.turn_timeout_ms < TURN_TIMEOUT_MIN_MS {
            TURN_TIMEOUT_MIN_MS
        } else if self.zeroclaw.turn_timeout_ms > TURN_TIMEOUT_MAX_MS {
            TURN_TIMEOUT_MAX_MS
        } else {
            self.zeroclaw.turn_timeout_ms
        }
    }

    /// Where state.json lives, given the environment.
    pub open spec fn data_home(self, env: Environment) -> Seq<char> {
        match self.server.data_dir {
            Some(d) => d@,
            None => env.data_home(),
        }
    }

    /// The text that is sent to the agent for an utterance.
    pub open spec fn spoken_to_agent(self, user_text: Seq<char>) -> Seq<char> {
        self.zeroclaw.voice_note@ + "\n\nUser: "@ + user_text
    }
}

impl Default for Config {
    fn default() -> (r: Self)
        ensures
            r.is_builtin(),
    {
        Config {
            server: ServerConfig::default(),
            library: LibraryConfig::default(),
            zeroclaw: ZeroclawConfig::default(),
            radio: RadioConfig::default(),
            logging: LoggingConfig::default(),
        }
    }
}

/// What the environment says: the values of the variables that are set.
#[derive(Debug)]
pub struct Environment {
    /// ARIA_CONFIG
    pub config: Option<String>,
    /// ARIA_DATA_DIR
    pub data_dir: Option<String>,
    /// HOME
    pub home: Option<String>,
    /// ARIA_ZC_TOKEN
    pub zc_token: Option<String>,
    /// ARIA_GATEWAY
    pub gateway: Option<String>,
    /// ARIA_PUBLIC_URL
    pub public_url: Option<String>,
}

impl Environment {
    /// The data directory that the environment names.
    pub open spec fn data_home(self) -> Seq<char> {
        match self.data_dir {
            Some(d) => d@,
            None => match self.home {
                Some(h) => path::joined_path(h@, ".aria"@),
                None => ".aria"@,
            },
        }
    }
}

impl Config {
    /// Where state.json lives.
    pub fn data_dir(&self, env: &Environment) -> (r: String)
        ensures
            r@ == self.data_home(*env),
    {
        match &self.server.data_dir {
            Some(d) => d.clone(),
            None => default_data_dir(env),
        }
    }

    /// The path of state.json.
    pub fn state_path(&self, env: &Environment) -> (r: String)
        ensures
            r@ == path::joined_path(self.data_home(*env), "state.json"@),
    {
        join_path(self.data_dir(env).as_str(), "state.json")
    }

    /// The time for one voice turn, in milliseconds.
    pub fn turn_timeout(&self) -> (r: u64)
        ensures
            r == self.turn_ms(),
    {
        if self.zeroclaw.turn_timeout_ms < TURN_TIMEOUT_MIN_MS {
            TURN_TIMEOUT_MIN_MS
        } else if self.zeroclaw.turn_timeout_ms > TURN_TIMEOUT_MAX_MS {
            TURN_TIMEOUT_MAX_MS
        } else {
            self.zeroclaw.turn_timeout_ms
        }
    }

    /// Public base URL with trailing slash stripped.
    pub fn base_url(&self) -> (r: String)
        ensures
            r@ == self.public_base(),
    {
        let u = to_chars(self.server.public_base_url.as_str());
        to_text(trim_end_of(u.as_slice(), CharClass::Slash))
    }

    /// The text that is sent to the agent for an utterance.
    pub fn voice_text(&self, user_text: &str) -> (r: String)
        ensures
            r@ == self.spoken_to_agent(user_text@),
    {
        concat3(self.zeroclaw.voice_note.as_str(), "\n\nUser: ", user_text)
    }
}

/// The data directory that the environment names.
pub fn default_data_dir(env: &Environment) -> (r: String)
    ensures
        r@ == env.data_home(),
{
    match &env.data_dir {
        Some(d) => d.clone(),
        None => match &env.home {
            Some(h) => join_path(h.as_str(), ".aria"),
            None => owned(".aria"),
        },
    }
}

/// The path of the configuration where none is given.
pub fn default_config_path(env: &Environment) -> (r: String)
    ensures
        r@ == path::joined_path(env.data_home(), "config.toml"@),
{
    join_path(default_data_dir(env).as_str(), "config.toml")
}

/// The path of the configuration: the given one, else the environment's, else
/// the default location.
pub fn config_path(explicit: Option<&str>, env: &Environment) -> (r: String)
    ensures
        r@ == match explicit {
            Some(p) => p@,
            None => match env.config {
                Some(p) => p@,
                None => path::joined_path(env.data_home(), "config.toml"@),
            },
        },
{
    match explicit {
        Some(p) => owned(p),
        None => match &env.config {
            Some(p) => p.clone(),
            None => default_config_path(env),
        },
    }
}

/// A value of the environment that counts: one that is not empty.
pub open spec fn given(o: Option<String>) -> Option<Seq<char>> {
    match o {
        Some(s) => if s@.len() > 0 {
            Some(s@)
        } else {
            None
        },
        None => None,
    }
}

/// `after` is `before` with the overrides of the environment.
pub open spec fn overridden(before: Config, env: Environment, after: Config) -> bool {
    &&& after.server.bind == before.server.bind
    &&& after.server.client_id == before.server.client_id
    &&& after.server.tls_cert == before.server.tls_cert
    &&& after.server.tls_key == before.server.tls_key
    &&& after.server.data_dir == before.server.data_dir
    &&& after.library == before.library
    &&& after.zeroclaw.agent_alias == before.zeroclaw.agent_alias
    &&& after.zeroclaw.turn_timeout_ms == before.zeroclaw.turn_timeout_ms
    &&& after.zeroclaw.voice_note == before.zeroclaw.voice_note
    &&& after.zeroclaw.mock == before.zeroclaw.mock
    &&& after.radio == before.radio
    &&& after.logging == before.logging
    &&& match given(env.zc_token) {
        Some(t) => chars::opt_text(after.zeroclaw.token) == Some(t),
        None => after.zeroclaw.token == before.zeroclaw.token,
    }
    &&& match given(env.gateway) {
        Some(g) => after.zeroclaw.gateway@ == g,
        None => after.zeroclaw.gateway == before.zeroclaw.gateway,
    }
    &&& match given(env.public_url) {
        Some(u) => after.server.public_base_url@ == u,
        None => after.server.public_base_url == before.server.public_base_url,
    }
}

fn non_empty(o: &Option<String>) -> (r: Option<String>)
    ensures
        chars::opt_text(r) == given(*o),
{
    match o {
        Some(s) => if to_chars(s.as_str()).len() > 0 {
            Some(s.clone())
        } else {
            None
        },
        None => None,
    }
}

/// Apply the overrides of the environment.
pub fn apply_env(cfg: Config, env: &Environment) -> (r: Config)
    ensures
        overridden(cfg, *env, r),
{
    let mut c = cfg;
    match non_empty(&env.zc_token) {
        Some(t) => {
            c.zeroclaw.token = Some(t);
        },
        None => {},
    }
    match non_empty(&env.gateway) {
        Some(g) => {
            c.zeroclaw.gateway = g;
        },
        None => {},
    }
    match non_empty(&env.public_url) {
        Some(u) => {
            c.server.public_base_url = u;
        },
        None => {},
    }
    c
}

/// The configuration to run with: what the file holds, or the built-in defaults
/// when no file exists, with the overrides of the environment.
pub fn load(file: Option<Config>, env: &Environment) -> (r: Config)
    ensures
        match file {
            Some(cfg) => overridden(cfg, *env, r),
            None => exists|cfg: Config| cfg.is_builtin() && #[trigger] overridden(cfg, *env, r),
        },
{
    match file {
        Some(cfg) => apply_env(cfg, env),
        None => apply_env(Config::default(), env),
    }
}

/// Why a configuration could not be loaded.
#[derive(Debug)]
pub enum ConfigError {
    Read { path: String, source: String },
    Parse { path: String, message: String },
}

impl ConfigError {
    /// The error in words.
    pub fn to_exit_message(&self) -> (r: String)
        ensures
            r@ == match *self {
                ConfigError::Read { path, source } => "cannot read "@ + path@ + ": "@ + source@,
                ConfigError::Parse { path, message } => "cannot parse "@ + path@ + ": "@ + message@,
            },
    {
        match self {
            ConfigError::Read { path, source } => concat4(
                "cannot read ",
                path.as_str(),
                ": ",
                source.as_str(),
            ),
            ConfigError::Parse { path, message } => concat4(
                "cannot parse ",
                path.as_str(),
                ": ",
                message.as_str(),
            ),
        }
    }
}

// ── Laws ───────────────────────────────────────────────────────────────────

/// A voice turn always ends before Alexa gives up, and never at once; a time
/// within the limits is kept.
pub proof fn law_turn_time_is_kept_in_bounds(cfg: Config)
    ensures
        TURN_TIMEOUT_MIN_MS <= cfg.turn_ms() <= TURN_TIMEOUT_MAX_MS,
        TURN_TIMEOUT_MIN_MS <= cfg.zeroclaw.turn_timeout_ms <= TURN_TIMEOUT_MAX_MS ==> cfg.turn_ms()
            == cfg.zeroclaw.turn_timeout_ms,
{
}

/// The base URL ends in no slash, so that a path can follow it.
pub proof fn law_base_url_ends_in_no_slash(cfg: Config)
    ensures
        cfg.public_base().len() > 0 ==> cfg.public_base().last() != '/',
        cfg.public_base().is_prefix_of(cfg.server.public_base_url@),
{
    trim::lemma_trimmed_end(cfg.server.public_base_url@, CharClass::Slash);
}

} // verus!
