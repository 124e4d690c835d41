//! The command line, and what is shown at the start.

use vstd::prelude::*;

use crate::config::Config;
use crate::text::chars::concat3;
use crate::text::chars::owned;
use crate::text::chars::same_text;
use crate::text::chars::to_chars;
use crate::text::chars;
use crate::text::trim::is_blank;
use crate::text::trim;

verus! {

broadcast use {vstd::seq::group_seq_axioms, vstd::slice::group_slice_axioms};

/// What the command line asks for.
#[derive(Debug)]
pub enum Command {
    /// Run, with the configuration at the given path.
    Run { config: Option<String> },
    Help,
    /// An argument that is not known.
    Unknown { argument: String },
}

/// What a command says.
pub enum CommandModel {
    Run { config: Option<Seq<char>> },
    Help,
    Unknown { argument: Seq<char> },
}

impl View for Command {
    type V = CommandModel;

    open spec fn view(&self) -> CommandModel {
        match *self {
            Command::Run { config } => CommandModel::Run { config: chars::opt_text(config) },
            Command::Help => CommandModel::Help,
            Command::Unknown { argument } => CommandModel::Unknown { argument: argument@ },
        }
    }
}

/// What the arguments from `i` on ask for, given the path found so far. The
/// last path counts; the first request for help, or unknown argument, decides.
pub open spec fn command_from(
    args: Seq<Seq<char>>,
    i: int,
    config: Option<Seq<char>>,
) -> CommandModel
    decreases args.len() - i,
{
    if i < 0 || i >= args.len() {
        CommandModel::Run { config }
    } else if args[i] == "-c"@ || args[i] == "--config"@ {
        if i + 1 < args.len() {
            command_from(args, i + 2, Some(args[i + 1]))
        } else {
            CommandModel::Run { config: None }
        }
    } else if args[i] == "-h"@ || args[i] == "--help"@ {
        CommandModel::Help
    } else {
        CommandModel::Unknown { argument: args[i] }
    }
}

/// What the arguments ask for.
pub fn parse_args(args: &Vec<String>) -> (r: Command)
    ensures
        r@ == command_from(chars::all_texts(args@), 0, None),
{
    let ghost all = chars::all_texts(args@);
    let mut config: Option<String> = None;
    let mut i: usize = 0;
    let n: usize = args.len();
    while i < n
        invariant
            i <= n,
            n == args@.len(),
            all == chars::all_texts(args@),
            command_from(all, i as int, chars::opt_text(config)) == command_from(all, 0, None),
        decreases n - i,
    {
        let a = args[i].as_str();
        assert(all[i as int] == a@);
        if same_text(a, "-c") || same_text(a, "--config") {
            if n - i > 1 {
                config = Some(args[i + 1].clone());
                assert(all[i + 1] == args@[i + 1]@);
                i = i + 2;
            } else {
                return Command::Run { config: None };
            }
        } else if same_text(a, "-h") || same_text(a, "--help") {
            return Command::Help;
        } else {
            return Command::Unknown { argument: owned(a) };
        }
    }
    Command::Run { config }
}

/// Whether Echo devices cannot reach the streams for want of a public URL.
pub fn lacks_public_url(cfg: &Config) -> (r: bool)
    ensures
        r == (trim::blank(cfg.server.public_base_url@) && !cfg.zeroclaw.mock),
{
    is_blank(to_chars(cfg.server.public_base_url.as_str()).as_slice()) && !cfg.zeroclaw.mock
}

/// The certificate and key of native TLS, where both are given.
pub open spec fn tls_pair(cfg: Config) -> Option<(Seq<char>, Seq<char>)> {
    match (cfg.server.tls_cert, cfg.server.tls_key) {
        (Some(c), Some(k)) => Some((c@, k@)),
        _ => None,
    }
}

/// The certificate and key of native TLS, where both are given.
pub fn tls_files(cfg: &Config) -> (r: Option<(String, String)>)
    ensures
        match r {
            Some((c, k)) => tls_pair(*cfg) == Some((c@, k@)),
            None => tls_pair(*cfg) is None,
        },
{
    match (&cfg.server.tls_cert, &cfg.server.tls_key) {
        (Some(c), Some(k)) => Some((c.clone(), k.clone())),
        _ => None,
    }
}

/// What is shown at the start: the address, and the endpoints below the public
/// URL.
pub open spec fn banner_lines(cfg: Config, addr: Seq<char>) -> Seq<Seq<char>> {
    let listen = "  listen       : "@ + addr + if tls_pair(cfg) is Some {
        " (TLS)"@
    } else {
        ""@
    };
    if cfg.server.public_base_url@.len() == 0 {
        seq![listen]
    } else {
        seq![
            listen,
            "  skill endpoint : "@ + cfg.public_base() + "/alexa"@,
            "  stream endpoint: "@ + cfg.public_base() + "/stream/<token>"@,
        ]
    }
}

/// What is shown at the start.
pub fn banner(cfg: &Config, addr: &str) -> (r: Vec<String>)
    ensures
        chars::all_texts(r@) == banner_lines(*cfg, addr@),
{
    let tls = if tls_files(cfg).is_some() {
        " (TLS)"
    } else {
        ""
    };
    let mut out: Vec<String> = Vec::new();
    out.push(concat3("  listen       : ", addr, tls));
    if to_chars(cfg.server.public_base_url.as_str()).len() > 0 {
        let base = cfg.base_url();
        out.push(concat3("  skill endpoint : ", base.as_str(), "/alexa"));
        out.push(concat3("  stream endpoint: ", base.as_str(), "/stream/<token>"));
    }
    assert(chars::all_texts(out@) =~= banner_lines(*cfg, addr@));
    out
}

} // verus!
