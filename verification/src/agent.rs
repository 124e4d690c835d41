//! What the agent backends are given and give back.

use vstd::prelude::*;

use crate::config::Config;
use crate::text::chars::borrow_opt;
use crate::text::chars::concat3;
use crate::text::chars::owned_opt;
use crate::text::chars;
use crate::zeroclaw::client::GatewayConfig;
use crate::zeroclaw::client::GatewayModel;
use crate::zeroclaw::client::OutcomeModel;
use crate::zeroclaw::client::TurnOutcome;

verus! {

/// The gateway that a configuration names.
pub fn gateway_config(cfg: &Config) -> (r: GatewayConfig)
    ensures
        r@ == (GatewayModel {
            base: cfg.zeroclaw.gateway@,
            token: chars::opt_text(cfg.zeroclaw.token),
            agent_alias: cfg.zeroclaw.agent_alias@,
        }),
{
    GatewayConfig {
        base: cfg.zeroclaw.gateway.clone(),
        token: owned_opt(borrow_opt(&cfg.zeroclaw.token)),
        agent_alias: cfg.zeroclaw.agent_alias.clone(),
    }
}

/// What the development backend answers: an echo of the utterance.
pub fn mock_reply(text: &str) -> (r: TurnOutcome)
    ensures
        r@ == (OutcomeModel {
            full: Some(
                "Mock agent here. You said: "@ + text@
                    + " (set zeroclaw.mock = false to use the real agent)"@,
            ),
            partial: seq![],
            timed_out: false,
            awaiting_approval: None,
            cost_bits: None,
        }),
{
    let partial = String::new();
    assert(partial@ =~= seq![]);
    TurnOutcome {
        full: Some(
            concat3(
                "Mock agent here. You said: ",
                text,
                " (set zeroclaw.mock = false to use the real agent)",
            ),
        ),
        partial,
        timed_out: false,
        awaiting_approval: None,
        cost_bits: None,
    }
}

} // verus!
