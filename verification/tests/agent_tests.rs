use mining_agent::agent::{greeting, handle_server_msg, outgoing, Reaction};
use mining_agent::miner::MineResult;
use mining_agent::protocol::{ClientMsg, ServerMsg};
use mining_agent::state::GameState;

#[test]
fn greeting_gives_identity() {
    assert_eq!(greeting(&ServerMsg::Hello { agent_id: 77, tick_ms: 250 }), Some((77, 250)));
    assert_eq!(greeting(&ServerMsg::Win { team: "x".to_string() }), None);
}

#[test]
fn challenge_goes_to_miners() {
    let mut s = GameState::new(3);
    let r = handle_server_msg(
        &mut s,
        ServerMsg::PowChallenge { tick: 5, seed: "abc".to_string(), resource_id: 9, target_bits: 20 },
    );
    match r {
        Reaction::Mine(req) => {
            assert_eq!(req.seed, "abc");
            assert_eq!(req.tick, 5);
            assert_eq!(req.resource_id, 9);
            assert_eq!(req.agent_id, 3);
            assert_eq!(req.target_bits, 20);
        }
        other => panic!("unexpected reaction {:?}", other),
    }
}

#[test]
fn victory_ends_game() {
    let mut s = GameState::new(3);
    match handle_server_msg(&mut s, ServerMsg::Win { team: "blue".to_string() }) {
        Reaction::Finish(team) => assert_eq!(team, "blue"),
        other => panic!("unexpected reaction {:?}", other),
    }
}

#[test]
fn snapshot_updates_and_continues() {
    let mut s = GameState::new(3);
    let r = handle_server_msg(
        &mut s,
        ServerMsg::State {
            tick: 4,
            width: 5,
            height: 5,
            goal: 10,
            obstacles: vec![],
            resources: vec![(1, 2, 2, 9, 1)],
            agents: vec![(3, "me".to_string(), "t".to_string(), 1, 4, 0)],
        },
    );
    assert!(matches!(r, Reaction::Continue));
    assert_eq!(s.tick, 4);
    assert_eq!(s.position, (4, 0));
    assert_eq!(s.resources.len(), 1);
}

#[test]
fn submission_comes_before_move() {
    let found = Some(MineResult { tick: 5, resource_id: 9, nonce: 1234 });
    let out = outgoing(found, Some((1, -1)));
    assert_eq!(out.len(), 2);
    match &out[0] {
        ClientMsg::PowSubmit { tick, resource_id, nonce } => {
            assert_eq!((*tick, *resource_id, *nonce), (5, 9, 1234));
        }
        other => panic!("unexpected message {:?}", other),
    }
    match &out[1] {
        ClientMsg::Move { dx, dy } => assert_eq!((*dx, *dy), (1, -1)),
        other => panic!("unexpected message {:?}", other),
    }
}

#[test]
fn quiet_turn_sends_nothing() {
    assert!(outgoing(None, None).is_empty());
    let out = outgoing(None, Some((0, 1)));
    assert_eq!(out.len(), 1);
    assert!(matches!(out[0], ClientMsg::Move { dx: 0, dy: 1 }));
}
