//! What configuration, command line and saved state say, case by case.

use vstd::prelude::*;

use crate::audio::path;
use crate::audio::player::PlayerModel;
use crate::audio::player::Repeat;
use crate::cli::CommandModel;
use crate::cli;
use crate::config::Config;
use crate::config::Environment;
use crate::config;
use crate::json::JsonModel;
use crate::json;
use crate::persist;
use crate::text::chars;
use crate::text::number;
use crate::text::trim;
use crate::tls::FaultModel;
use crate::tls::IdentityModel;
use crate::tls::KeyForm;
use crate::tls;

verus! {

broadcast use {vstd::seq::group_seq_axioms, vstd::slice::group_slice_axioms};

// ── Configuration ──────────────────────────────────────────────────────────

/// A voice turn takes one second at least and a tenth of a second less than the
/// eight that Alexa waits at most.
pub proof fn law_turn_time(cfg: Config)
    ensures
        cfg.zeroclaw.turn_timeout_ms <= 1_000 ==> cfg.turn_ms() == 1_000,
        1_000 <= cfg.zeroclaw.turn_timeout_ms <= 7_900 ==> cfg.turn_ms()
            == cfg.zeroclaw.turn_timeout_ms,
        cfg.zeroclaw.turn_timeout_ms >= 7_900 ==> cfg.turn_ms() == 7_900,
{
}

/// The public URL is the configured one without the slashes at its end, and
/// without anything else missing.
pub proof fn law_public_url(cfg: Config)
    ensures
        exists|b: Seq<char>|
            {
                &&& cfg.server.public_base_url@ == #[trigger] (cfg.public_base() + b)
                &&& forall|i: int| 0 <= i < b.len() ==> (#[trigger] b[i]) == '/'
            },
        cfg.public_base().len() > 0 ==> cfg.public_base().last() != '/',
{
    let u = cfg.server.public_base_url@;
    let t = cfg.public_base();
    trim::lemma_trimmed_end(u, chars::CharClass::Slash);
    let b = u.skip(t.len() as int);
    assert(t + b =~= u);
    assert forall|i: int| 0 <= i < b.len() implies (#[trigger] b[i]) == '/' by {
        assert(b[i] == u[t.len() + i]);
        assert(chars::CharClass::Slash.has(u[t.len() + i]));
    }
    assert(u == t + b);
}

/// Where the state lives: in the configured directory, else in the one of the
/// environment, else below the home directory, else here.
pub proof fn law_data_directory(cfg: Config, env: Environment)
    ensures
        cfg.server.data_dir matches Some(d) ==> cfg.data_home(env) == d@,
        cfg.server.data_dir is None ==> (env.data_dir matches Some(d) ==> cfg.data_home(env) == d@),
        cfg.server.data_dir is None && env.data_dir is None ==> (env.home matches Some(h)
            ==> cfg.data_home(env) == path::joined_path(h@, ".aria"@)),
        cfg.server.data_dir is None && env.data_dir is None && env.home is None ==> cfg.data_home(
            env,
        ) == ".aria"@,
{
}

/// The agent hears the voice note, and behind it what the user said.
pub proof fn law_agent_hears(cfg: Config, text: Seq<char>)
    ensures
        cfg.spoken_to_agent(text) == cfg.zeroclaw.voice_note@ + "\n\nUser: "@ + text,
{
}

/// The environment overrides the token, the gateway and the public URL, each
/// where its variable is set and not empty, and nothing else.
pub proof fn law_environment_overrides(before: Config, env: Environment, after: Config)
    requires
        config::overridden(before, env, after),
    ensures
        env.zc_token matches Some(t) ==> (t@.len() > 0 ==> (
        after.zeroclaw.token matches Some(u) && u@ == t@)),
        env.zc_token is None ==> after.zeroclaw.token == before.zeroclaw.token,
        env.zc_token matches Some(t) ==> (t@.len() == 0 ==> after.zeroclaw.token
            == before.zeroclaw.token),
        env.gateway matches Some(t) ==> (t@.len() > 0 ==> after.zeroclaw.gateway@ == t@),
        env.gateway is None ==> after.zeroclaw.gateway == before.zeroclaw.gateway,
        env.gateway matches Some(t) ==> (t@.len() == 0 ==> after.zeroclaw.gateway
            == before.zeroclaw.gateway),
        env.public_url matches Some(t) ==> (t@.len() > 0 ==> after.server.public_base_url@ == t@),
        env.public_url is None ==> after.server.public_base_url == before.server.public_base_url,
        env.public_url matches Some(t) ==> (t@.len() == 0 ==> after.server.public_base_url
            == before.server.public_base_url),
        after.server.bind == before.server.bind,
        after.server.client_id == before.server.client_id,
        after.server.tls_cert == before.server.tls_cert,
        after.server.tls_key == before.server.tls_key,
        after.server.data_dir == before.server.data_dir,
        after.library == before.library,
        after.zeroclaw.agent_alias == before.zeroclaw.agent_alias,
        after.zeroclaw.turn_timeout_ms == before.zeroclaw.turn_timeout_ms,
        after.zeroclaw.voice_note == before.zeroclaw.voice_note,
        after.zeroclaw.mock == before.zeroclaw.mock,
        after.radio == before.radio,
        after.logging == before.logging,
{
}

/// The defaults: what is listened on, where music lives, which agent is asked,
/// and how long a turn may take.
pub proof fn law_defaults(cfg: Config)
    requires
        cfg.is_builtin(),
    ensures
        cfg.server.bind@ == "0.0.0.0:8080"@,
        cfg.public_base().len() == 0,
        cfg.server.client_id is None,
        cli::tls_pair(cfg) is None,
        cfg.library.paths@.len() == 1 && cfg.library.paths@[0]@ == "/srv/music"@,
        cfg.library.rescan_secs == 3_600,
        cfg.zeroclaw.gateway@ == "ws://127.0.0.1:3000"@,
        cfg.zeroclaw.token is None,
        cfg.zeroclaw.agent_alias@ == "voice"@,
        cfg.turn_ms() == 7_500,
        !cfg.zeroclaw.mock,
        forall|name: Seq<char>| !(#[trigger] cfg.radio.stations@.dom().contains(name)),
        cfg.logging.level@ == "info"@,
{
    let texts = chars::all_texts(cfg.library.paths@);
    assert(texts.len() == 1);
    assert(texts[0] == "/srv/music"@);
    assert(texts[0] == cfg.library.paths@[0]@);
    trim::lemma_trimmed_end(cfg.server.public_base_url@, chars::CharClass::Slash);
}

// ── Command line ───────────────────────────────────────────────────────────

proof fn lemma_options_differ()
    ensures
        "-h"@ != "-c"@,
        "-h"@ != "--config"@,
        "--help"@ != "-c"@,
        "--help"@ != "--config"@,
{
    reveal_strlit("-h");
    reveal_strlit("-c");
    reveal_strlit("--help");
    reveal_strlit("--config");
    assert("-h"@.len() == 2 && "-c"@.len() == 2 && "--help"@.len() == 6 && "--config"@.len() == 8);
    assert("-h"@[1] != "-c"@[1]);
}

/// What an argument does that stands at `i`, behind a configuration that was
/// named so far: "-c" names another one by the argument behind it, and where none
/// stands there no configuration is named; "-h" asks for help; anything else is
/// not known; and without more arguments the service runs.
pub proof fn law_arguments(args: Seq<Seq<char>>, i: int, config: Option<Seq<char>>)
    requires
        0 <= i <= args.len(),
    ensures
        ({
            let r = cli::command_from(args, i, config);
            &&& i == args.len() ==> r == (CommandModel::Run { config })
            &&& i < args.len() && (args[i] == "-h"@ || args[i] == "--help"@) ==> r is Help
            &&& i + 1 == args.len() && (args[i] == "-c"@ || args[i] == "--config"@) ==> r == (
            CommandModel::Run { config: None })
            &&& i + 1 < args.len() && (args[i] == "-c"@ || args[i] == "--config"@) ==> r
                == cli::command_from(args, i + 2, Some(args[i + 1]))
            &&& i < args.len() && args[i] != "-h"@ && args[i] != "--help"@ && args[i] != "-c"@
                && args[i] != "--config"@ ==> r == (CommandModel::Unknown { argument: args[i] })
        }),
{
    lemma_options_differ();
}

/// A configuration that is named is the one that counts, and of several the last.
pub proof fn law_last_configuration_counts(args: Seq<Seq<char>>, n: nat, config: Option<Seq<char>>)
    requires
        args.len() == 2 * n,
        forall|k: int| 0 <= k < n ==> #[trigger] args[2 * k] == "-c"@ || args[2 * k] == "--config"@,
    ensures
        n == 0 ==> cli::command_from(args, 0, config) == (CommandModel::Run { config }),
        n > 0 ==> cli::command_from(args, 0, config) == (CommandModel::Run {
            config: Some(args[2 * n - 1]),
        }),
{
    lemma_last_configuration(args, n, 0, config);
}

proof fn lemma_last_configuration(
    args: Seq<Seq<char>>,
    n: nat,
    k: int,
    config: Option<Seq<char>>,
)
    requires
        args.len() == 2 * n,
        0 <= k <= n,
        forall|k: int| 0 <= k < n ==> #[trigger] args[2 * k] == "-c"@ || args[2 * k] == "--config"@,
    ensures
        cli::command_from(args, 2 * k, config) == (CommandModel::Run {
            config: if k == n {
                config
            } else {
                Some(args[2 * n - 1])
            },
        }),
    decreases n - k,
{
    if k < n {
        assert(args[2 * k] == "-c"@ || args[2 * k] == "--config"@);
        lemma_last_configuration(args, n, k + 1, Some(args[2 * k + 1]));
        assert(2 * k + 2 == 2 * (k + 1));
    }
}

/// TLS is spoken where both its files are named.
pub proof fn law_tls_needs_both_files(cfg: Config)
    ensures
        cli::tls_pair(cfg) is Some <==> cfg.server.tls_cert is Some && cfg.server.tls_key is Some,
        cfg.server.tls_cert matches Some(c) ==> (cfg.server.tls_key matches Some(k)
            ==> cli::tls_pair(cfg) == Some((c@, k@))),
{
}

/// What is shown at the start: the address, marked where TLS is spoken, and with
/// a public URL the two endpoints below it.
pub proof fn law_banner(cfg: Config, addr: Seq<char>)
    ensures
        ({
            let lines = cli::banner_lines(cfg, addr);
            let public = cfg.server.public_base_url@.len() > 0;
            &&& cli::tls_pair(cfg) is Some ==> lines[0] == "  listen       : "@ + addr + " (TLS)"@
            &&& cli::tls_pair(cfg) is None ==> lines[0] == "  listen       : "@ + addr
            &&& !public ==> lines.len() == 1
            &&& public ==> lines.len() == 3 && lines[1] == "  skill endpoint : "@
                + cfg.public_base() + "/alexa"@ && lines[2] == "  stream endpoint: "@
                + cfg.public_base() + "/stream/<token>"@
        }),
{
    reveal_strlit("");
    let head = "  listen       : "@ + addr;
    assert(""@.len() == 0);
    assert(head + ""@ =~= head);
}

// ── The saved state ────────────────────────────────────────────────────────

/// What is saved of a player, by name.
pub proof fn law_saved_player(p: PlayerModel)
    ensures
        ({
            let fs = persist::player_json(p)->Object_0;
            &&& persist::player_json(p) is Object
            &&& fs.len() == 7
            &&& fs[0] == ("queue"@, persist::ids_json(p.queue))
            &&& fs[1] == ("pos"@, JsonModel::Number(p.pos))
            &&& fs[2] == ("history"@, persist::ids_json(p.history))
            &&& fs[3] == ("shuffle"@, JsonModel::Bool(p.shuffle))
            &&& fs[4].0 == "repeat"@
            &&& p.repeat == Repeat::Off ==> fs[4].1 == JsonModel::Text("Off"@)
            &&& p.repeat == Repeat::One ==> fs[4].1 == JsonModel::Text("One"@)
            &&& p.repeat == Repeat::All ==> fs[4].1 == JsonModel::Text("All"@)
            &&& fs[5].0 == "current_token"@
            &&& p.current_token is None ==> fs[5].1 is Null
            &&& p.current_token matches Some(t) ==> fs[5].1 == JsonModel::Text(t)
            &&& fs[6] == ("current_offset_ms"@, JsonModel::Number(p.current_offset_ms as nat))
        }),
{
}

/// Ids are saved as numbers, in order.
pub proof fn law_saved_ids(ids: Seq<u64>)
    ensures
        persist::ids_json(ids) is List,
        persist::ids_json(ids)->List_0.len() == ids.len(),
        forall|i: int|
            0 <= i < ids.len() ==> #[trigger] persist::ids_json(ids)->List_0[i]
                == JsonModel::Number(ids[i] as nat),
{
}

/// What the file holds: the players by device, and when they were saved.
pub proof fn law_saved_state(pairs: Seq<(Seq<char>, PlayerModel)>, saved_secs: u64)
    ensures
        ({
            let fs = persist::state_json(pairs, saved_secs)->Object_0;
            &&& persist::state_json(pairs, saved_secs) is Object
            &&& fs.len() == 2
            &&& fs[0].0 == "players"@
            &&& fs[0].1 matches JsonModel::Object(ps) && ps.len() == pairs.len() && forall|i: int|
                0 <= i < ps.len() ==> #[trigger] ps[i] == (
                    pairs[i].0,
                    persist::player_json(pairs[i].1),
                )
            &&& fs[1] == ("saved_at"@, JsonModel::Text(number::decimal(saved_secs as nat)))
        }),
{
}

/// A file that does not read as a whole brings no player back: one that is no
/// object, has no players or no date, or has one value that is no player.
pub proof fn law_unreadable_state_is_empty(
    j: JsonModel,
    fs: Seq<(Seq<char>, JsonModel)>,
    ps: Seq<(Seq<char>, JsonModel)>,
    i: int,
)
    ensures
        !(j is Object) ==> persist::restored(j).dom().is_empty(),
        !(json::field_of(fs, "players"@) matches Some(v) && v is Object) ==> persist::restored(
            JsonModel::Object(fs),
        ).dom().is_empty(),
        !(json::field_of(fs, "saved_at"@) matches Some(v) && v is Text) ==> persist::restored(
            JsonModel::Object(fs),
        ).dom().is_empty(),
        json::field_of(fs, "players"@) == Some(JsonModel::Object(ps)) && 0 <= i < ps.len()
            && persist::player_of(ps[i].1) is None ==> persist::restored(
            JsonModel::Object(fs),
        ).dom().is_empty(),
{
    let none = Map::<Seq<char>, PlayerModel>::empty();
    assert(none.dom() =~= Set::empty());
    if json::field_of(fs, "players"@) == Some(JsonModel::Object(ps)) && 0 <= i < ps.len()
        && persist::player_of(ps[i].1) is None {
        assert(!persist::all_players(ps));
    }
}

/// A value is a player where each of its parts is there and of its kind; the
/// token alone may be missing.
pub proof fn law_parts_of_player(fs: Seq<(Seq<char>, JsonModel)>)
    ensures
        persist::player_of_fields(fs) matches Some(p) ==> {
            &&& json::field_of(fs, "queue"@) matches Some(JsonModel::List(v)) && v.len()
                == p.queue.len() && forall|i: int|
                0 <= i < v.len() ==> (#[trigger] v[i]) is Number
            &&& json::field_of(fs, "pos"@) == Some(JsonModel::Number(p.pos))
            &&& json::field_of(fs, "history"@) matches Some(JsonModel::List(v)) && v.len()
                == p.history.len() && forall|i: int|
                0 <= i < v.len() ==> (#[trigger] v[i]) is Number
            &&& json::field_of(fs, "shuffle"@) == Some(JsonModel::Bool(p.shuffle))
            &&& json::field_of(fs, "repeat"@) == Some(
                JsonModel::Text(
                    match p.repeat {
                        Repeat::Off => "Off"@,
                        Repeat::One => "One"@,
                        Repeat::All => "All"@,
                    },
                ),
            )
            &&& p.current_token matches Some(t) ==> json::field_of(fs, "current_token"@) == Some(
                JsonModel::Text(t),
            )
            &&& p.current_token is None ==> json::field_of(fs, "current_token"@) is None
                || json::field_of(fs, "current_token"@) == Some(JsonModel::Null)
            &&& json::field_of(fs, "current_offset_ms"@) is Some
        },
{
}

// ── TLS ────────────────────────────────────────────────────────────────────

/// Which fault there is: that of the certificates first, that of the key after
/// it, and that there is no key last; without a fault the identity is what was
/// read.
pub proof fn law_tls_faults(
    e: Seq<char>,
    certs: Seq<Seq<u8>>,
    key: Result<Option<(KeyForm, Seq<u8>)>, Seq<char>>,
    form: KeyForm,
    der: Seq<u8>,
)
    ensures
        tls::identity_of(Err(e), key) == Err::<IdentityModel, FaultModel>(
            FaultModel::Certificate(e),
        ),
        tls::identity_of(Ok(certs), Err(e)) == Err::<IdentityModel, FaultModel>(
            FaultModel::Key(e),
        ),
        tls::identity_of(Ok(certs), Ok(None)) == Err::<IdentityModel, FaultModel>(
            FaultModel::NoKey,
        ),
        tls::identity_of(Ok(certs), Ok(Some((form, der)))) == Ok::<IdentityModel, FaultModel>(
            IdentityModel { certs, form, key: der },
        ),
{
}

/// What each fault is called, and the reason behind it.
pub proof fn law_tls_faults_in_words(e: Seq<char>, key_path: Seq<char>)
    ensures
        FaultModel::Certificate(e).words(key_path) == "cannot parse certificate PEM"@,
        FaultModel::Key(e).words(key_path) == "cannot parse private key PEM"@,
        FaultModel::NoKey.words(key_path) == "no private key found in "@ + key_path,
        FaultModel::Certificate(e).reason() == Some(e),
        FaultModel::Key(e).reason() == Some(e),
        FaultModel::NoKey.reason() is None,
{
}

/// A token that is missing reads as one that is null.
pub proof fn law_missing_token(
    fs: Seq<(Seq<char>, JsonModel)>,
    gs: Seq<(Seq<char>, JsonModel)>,
)
    requires
        json::field_of(fs, "current_token"@) is None,
        json::field_of(gs, "current_token"@) == Some(JsonModel::Null),
        json::field_of(fs, "queue"@) == json::field_of(gs, "queue"@),
        json::field_of(fs, "pos"@) == json::field_of(gs, "pos"@),
        json::field_of(fs, "history"@) == json::field_of(gs, "history"@),
        json::field_of(fs, "shuffle"@) == json::field_of(gs, "shuffle"@),
        json::field_of(fs, "repeat"@) == json::field_of(gs, "repeat"@),
        json::field_of(fs, "current_offset_ms"@) == json::field_of(gs, "current_offset_ms"@),
    ensures
        persist::player_of_fields(fs) == persist::player_of_fields(gs),
{
}

} // verus!
