use aria::agent::gateway_config;
use aria::agent::mock_reply;
use aria::cli::banner;
use aria::cli::lacks_public_url;
use aria::cli::parse_args;
use aria::cli::tls_files;
use aria::cli::Command;
use aria::config::apply_env;
use aria::config::config_path;
use aria::config::default_config_path;
use aria::config::load;
use aria::config::Config;
use aria::config::ConfigError;
use aria::config::Environment;

fn no_env() -> Environment {
    Environment {
        config: None,
        data_dir: None,
        home: None,
        zc_token: None,
        gateway: None,
        public_url: None,
    }
}

#[test]
fn defaults_are_sane() {
    let c = Config::default();
    assert_eq!(c.zeroclaw.agent_alias, "voice");
    assert_eq!(c.turn_timeout(), 7500);
    assert!(c.zeroclaw.voice_note.contains("spoken aloud"));
}

#[test]
fn turn_timeout_clamps() {
    let mut c = Config::default();
    c.zeroclaw.turn_timeout_ms = 50;
    assert_eq!(c.turn_timeout(), 1000);
    c.zeroclaw.turn_timeout_ms = 99_999;
    assert_eq!(c.turn_timeout(), 7900);
}

#[test]
fn environment_overrides() {
    let env = Environment {
        zc_token: Some("t".into()),
        gateway: Some("".into()),
        public_url: Some("https://x.example//".into()),
        ..no_env()
    };
    let c = apply_env(Config::default(), &env);
    assert_eq!(c.zeroclaw.token, Some("t".to_string()));
    assert_eq!(c.zeroclaw.gateway, "ws://127.0.0.1:3000");
    assert_eq!(c.base_url(), "https://x.example");
    assert_eq!(load(None, &env).zeroclaw.token, Some("t".to_string()));
    let mut file = Config::default();
    file.server.bind = "b".into();
    assert_eq!(load(Some(file), &env).server.bind, "b");
}

#[test]
fn paths_follow_the_environment() {
    let mut c = Config::default();
    let home = Environment { home: Some("/home/u".into()), ..no_env() };
    assert_eq!(c.data_dir(&home), "/home/u/.aria");
    assert_eq!(c.state_path(&home), "/home/u/.aria/state.json");
    assert_eq!(c.data_dir(&no_env()), ".aria");
    let dir = Environment { data_dir: Some("/d/".into()), home: Some("/h".into()), ..no_env() };
    assert_eq!(c.state_path(&dir), "/d/state.json");
    assert_eq!(default_config_path(&dir), "/d/config.toml");
    assert_eq!(config_path(None, &dir), "/d/config.toml");
    let named = Environment { config: Some("/c".into()), ..no_env() };
    assert_eq!(config_path(None, &named), "/c");
    assert_eq!(config_path(Some("/e"), &named), "/e");
    c.server.data_dir = Some("/own".into());
    assert_eq!(c.data_dir(&home), "/own");
}

#[test]
fn errors_in_words() {
    let read = ConfigError::Read { path: "/p".into(), source: "denied".into() };
    assert_eq!(read.to_exit_message(), "cannot read /p: denied");
    let parse = ConfigError::Parse { path: "/p".into(), message: "bad".into() };
    assert_eq!(parse.to_exit_message(), "cannot parse /p: bad");
}

#[test]
fn agents_get_their_texts() {
    let mut c = Config::default();
    c.zeroclaw.voice_note = "Be brief.".into();
    c.zeroclaw.token = Some("t".into());
    assert_eq!(c.voice_text("hi"), "Be brief.\n\nUser: hi");
    let gw = gateway_config(&c);
    assert_eq!(
        (gw.base.as_str(), gw.token.as_deref(), gw.agent_alias.as_str()),
        ("ws://127.0.0.1:3000", Some("t"), "voice")
    );
    assert_eq!(
        mock_reply("hi").full.unwrap(),
        "Mock agent here. You said: hi (set zeroclaw.mock = false to use the real agent)"
    );
}

#[test]
fn arguments() {
    let args = |v: &[&str]| parse_args(&v.iter().map(|s| s.to_string()).collect());
    assert!(matches!(args(&[]), Command::Run { config: None }));
    assert!(matches!(args(&["-c", "a", "--config", "b"]), Command::Run { config: Some(p) } if p == "b"));
    assert!(matches!(args(&["-c", "a", "-c"]), Command::Run { config: None }));
    assert!(matches!(args(&["-h", "x"]), Command::Help));
    assert!(matches!(args(&["x", "-h"]), Command::Unknown { argument } if argument == "x"));
}

#[test]
fn banner_shows_endpoints() {
    let mut c = Config::default();
    assert!(lacks_public_url(&c));
    assert_eq!(banner(&c, "1.2.3.4:5"), vec!["  listen       : 1.2.3.4:5"]);
    c.server.public_base_url = "https://x/".into();
    c.server.tls_cert = Some("cert".into());
    assert!(tls_files(&c).is_none());
    c.server.tls_key = Some("key".into());
    assert_eq!(tls_files(&c), Some(("cert".to_string(), "key".to_string())));
    assert!(!lacks_public_url(&c));
    assert_eq!(
        banner(&c, "a"),
        vec![
            "  listen       : a (TLS)",
            "  skill endpoint : https://x/alexa",
            "  stream endpoint: https://x/stream/<token>",
        ]
    );
}
