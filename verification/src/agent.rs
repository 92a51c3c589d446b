//! What the agent does with each message of the server, and what it sends back
//! at each turn of its loop.
use vstd::prelude::*;

use crate::miner::{result_for, MineRequest, MineResult};
use crate::protocol::{ClientMsg, ServerMsg};
use crate::state::{updated, GameState};

verus! {

/// What a message of the server calls for, besides updating the game state.
#[derive(Debug, Clone)]
pub enum Reaction {
    /// Hand this challenge to the miners.
    Mine(MineRequest),
    /// The game is over; this team has won.
    Finish(String),
    /// Nothing more to do.
    Continue,
}

/// The agent's identifier and the tick length that a greeting carries; `None`
/// for any other message (the session must open with a greeting).
pub open spec fn greeting_of(msg: ServerMsg) -> Option<(u128, u64)> {
    match msg {
        ServerMsg::Hello { agent_id, tick_ms } => Some((agent_id, tick_ms)),
        _ => None,
    }
}

/// What the agent `agent_id` does on `msg`: a challenge goes to the miners,
/// signed with the agent's identifier; a victory ends the game.
pub open spec fn reaction_to(agent_id: u128, msg: ServerMsg) -> Reaction {
    match msg {
        ServerMsg::PowChallenge { tick, seed, resource_id, target_bits } => Reaction::Mine(
            MineRequest { seed, tick, resource_id, agent_id, target_bits },
        ),
        ServerMsg::Win { team } => Reaction::Finish(team),
        _ => Reaction::Continue,
    }
}

/// The messages of one turn: the submission of a found nonce first, then the move.
pub open spec fn messages_for(found: Option<MineResult>, movement: Option<(i8, i8)>) -> Seq<
    ClientMsg,
> {
    let submit: Seq<ClientMsg> = match found {
        Some(res) => seq![
            ClientMsg::PowSubmit { tick: res.tick, resource_id: res.resource_id, nonce: res.nonce },
        ],
        None => Seq::empty(),
    };
    let step: Seq<ClientMsg> = match movement {
        Some((dx, dy)) => seq![ClientMsg::Move { dx, dy }],
        None => Seq::empty(),
    };
    submit + step
}

/// The agent's identifier and the tick length, when `msg` is the greeting.
pub fn greeting(msg: &ServerMsg) -> (g: Option<(u128, u64)>)
    ensures
        g == greeting_of(*msg),
{
    match msg {
        ServerMsg::Hello { agent_id, tick_ms } => Some((*agent_id, *tick_ms)),
        _ => None,
    }
}

/// Takes in a message of the server: updates the game state with it, and says
/// what else it calls for.
pub fn handle_server_msg(state: &mut GameState, msg: ServerMsg) -> (r: Reaction)
    ensures
        updated(*old(state), *final(state), msg),
        r == reaction_to(old(state).agent_id, msg),
{
    state.update(&msg);
    match msg {
        ServerMsg::PowChallenge { tick, seed, resource_id, target_bits } => {
            Reaction::Mine(MineRequest { seed, tick, resource_id, agent_id: state.agent_id, target_bits })
        },
        ServerMsg::Win { team } => Reaction::Finish(team),
        _ => Reaction::Continue,
    }
}

/// The messages to send at one turn of the loop, given the nonce that the
/// miners found (if any) and the move that the strategy chose (if any).
pub fn outgoing(found: Option<MineResult>, movement: Option<(i8, i8)>) -> (out: Vec<ClientMsg>)
    ensures
        out@ == messages_for(found, movement),
{
    let mut out: Vec<ClientMsg> = Vec::new();
    if let Some(res) = found {
        out.push(ClientMsg::PowSubmit { tick: res.tick, resource_id: res.resource_id, nonce: res.nonce });
    }
    if let Some((dx, dy)) = movement {
        out.push(ClientMsg::Move { dx, dy });
    }
    proof {
        assert(out@ =~= messages_for(found, movement));
    }
    out
}

/// A challenge is answered in its own terms: the nonce that the miners find
/// for the request made from a challenge is submitted first, for the
/// challenge's tick and resource.
pub proof fn lemma_challenge_answered(
    agent_id: u128,
    tick: u64,
    seed: String,
    resource_id: u128,
    target_bits: u8,
    nonce: u64,
    movement: Option<(i8, i8)>,
)
    ensures
        match reaction_to(
            agent_id,
            ServerMsg::PowChallenge { tick, seed, resource_id, target_bits },
        ) {
            Reaction::Mine(request) => {
                &&& request.agent_id == agent_id
                &&& messages_for(Some(result_for(request, nonce)), movement)[0]
                    == ClientMsg::PowSubmit { tick, resource_id, nonce }
            },
            _ => false,
        },
{
}

/// The greeting hands back the agent's full identifier and the tick length
/// unchanged, and only a greeting does.
pub proof fn lemma_greeting_keeps_identity(agent_id: u128, tick_ms: u64, msg: ServerMsg)
    ensures
        greeting_of((ServerMsg::Hello { agent_id, tick_ms })) == Some((agent_id, tick_ms)),
        (greeting_of(msg) is Some) <==> (msg is Hello),
        greeting_of(msg) matches Some((id, t)) ==> (msg == (ServerMsg::Hello {
            agent_id: id,
            tick_ms: t,
        })),
{
}

/// The messages of a turn: one for a found nonce and one for a move, no other;
/// the submission, when there is one, comes first and carries the found
/// result's tick, resource and nonce; the move, when there is one, comes last
/// and is the chosen step unchanged.
pub proof fn lemma_turn_messages(found: Option<MineResult>, movement: Option<(i8, i8)>)
    ensures
        messages_for(found, movement).len() == (if found is Some { 1int } else { 0int }) + (
        if movement is Some {
            1int
        } else {
            0int
        }),
        found matches Some(res) ==> (messages_for(found, movement)[0] == (ClientMsg::PowSubmit {
            tick: res.tick,
            resource_id: res.resource_id,
            nonce: res.nonce,
        })),
        movement matches Some((dx, dy)) ==> (messages_for(found, movement).last() == (
        ClientMsg::Move { dx, dy })),
{
}

/// What each message of the server calls for: a challenge becomes a mining
/// request with the challenge's seed, tick, resource and difficulty, signed
/// with the agent's identifier; a victory ends the game with the winning team;
/// every other message calls for nothing more.
pub proof fn lemma_reactions(agent_id: u128, msg: ServerMsg)
    ensures
        match msg {
            ServerMsg::PowChallenge { tick, seed, resource_id, target_bits } => (reaction_to(
                agent_id,
                msg,
            ) matches Reaction::Mine(req) && req.seed == seed && req.tick == tick
                && req.resource_id == resource_id && req.agent_id == agent_id && req.target_bits
                == target_bits),
            ServerMsg::Win { team } => reaction_to(agent_id, msg) == Reaction::Finish(team),
            _ => (reaction_to(agent_id, msg) is Continue),
        },
{
}

} // verus!
