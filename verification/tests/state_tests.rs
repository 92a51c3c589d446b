use mining_agent::protocol::ServerMsg;
use mining_agent::state::{GameState, ResourceInfo};

fn snapshot() -> ServerMsg {
    ServerMsg::State {
        tick: 7,
        width: 10,
        height: 8,
        goal: 100,
        obstacles: vec![(2, 2), (3, 4)],
        resources: vec![(11, 5, 5, 20, 3), (12, 1, 7, 25, 9)],
        agents: vec![
            (1, "me".to_string(), "red".to_string(), 4, 6, 1),
            (2, "bob".to_string(), "red".to_string(), 9, 0, 0),
            (3, "eve".to_string(), "blue".to_string(), 0, 9, 7),
            (1, "ghost".to_string(), "red".to_string(), 2, 8, 8),
        ],
    }
}

#[test]
fn new_state_is_empty() {
    let s = GameState::new(42);
    assert_eq!(s.agent_id, 42);
    assert_eq!(s.tick, 0);
    assert_eq!(s.position, (0, 0));
    assert_eq!(s.map_size, (0, 0));
    assert_eq!(s.goal, 0);
    assert!(s.obstacles.is_empty());
    assert!(s.resources.is_empty());
    assert!(s.agents.is_empty());
    assert!(s.team_scores.is_empty());
}

#[test]
fn snapshot_replaces_state() {
    let mut s = GameState::new(1);
    s.update(&snapshot());
    assert_eq!(s.tick, 7);
    assert_eq!(s.map_size, (10, 8));
    assert_eq!(s.goal, 100);
    assert_eq!(s.obstacles, vec![(2, 2), (3, 4)]);
    assert_eq!(
        s.resources,
        vec![
            ResourceInfo { resource_id: 11, x: 5, y: 5, expires_at: 20, value: 3 },
            ResourceInfo { resource_id: 12, x: 1, y: 7, expires_at: 25, value: 9 },
        ]
    );
    assert_eq!(s.agents.len(), 4);
    assert_eq!(s.agents[1].name, "bob");
    assert_eq!(s.agents[1].team, "red");
    assert_eq!(s.agents[1].score, 9);
    assert_eq!((s.agents[2].x, s.agents[2].y), (9, 7));
}

#[test]
fn snapshot_takes_first_own_position() {
    let mut s = GameState::new(1);
    s.update(&snapshot());
    assert_eq!(s.position, (6, 1));
}

#[test]
fn snapshot_without_self_keeps_position() {
    let mut s = GameState::new(99);
    s.position = (3, 3);
    s.update(&snapshot());
    assert_eq!(s.position, (3, 3));
}

#[test]
fn team_scores_keep_best_member() {
    let mut s = GameState::new(1);
    s.update(&snapshot());
    assert_eq!(s.team_scores.len(), 2);
    assert_eq!(s.team_scores.get("red"), Some(&9));
    assert_eq!(s.team_scores.get("blue"), Some(&0));
    assert_eq!(s.team_scores.get("green"), None);
}

#[test]
fn new_snapshot_forgets_old_teams() {
    let mut s = GameState::new(1);
    s.update(&snapshot());
    s.update(&ServerMsg::State {
        tick: 8,
        width: 10,
        height: 8,
        goal: 100,
        obstacles: vec![],
        resources: vec![],
        agents: vec![(5, "z".to_string(), "green".to_string(), 1, 0, 0)],
    });
    assert_eq!(s.team_scores.len(), 1);
    assert_eq!(s.team_scores.get("green"), Some(&1));
    assert_eq!(s.team_scores.get("red"), None);
    assert!(s.resources.is_empty());
    assert_eq!(s.position, (6, 1));
}

#[test]
fn claimed_resource_leaves_map() {
    let mut s = GameState::new(1);
    s.update(&snapshot());
    s.update(&ServerMsg::PowResult { resource_id: 11 });
    assert_eq!(s.resources, vec![ResourceInfo { resource_id: 12, x: 1, y: 7, expires_at: 25, value: 9 }]);
    assert_eq!(s.tick, 7);
    s.update(&ServerMsg::PowResult { resource_id: 77 });
    assert_eq!(s.resources.len(), 1);
}

#[test]
fn other_messages_change_nothing() {
    let mut s = GameState::new(1);
    s.update(&snapshot());
    s.update(&ServerMsg::Win { team: "red".to_string() });
    s.update(&ServerMsg::Hello { agent_id: 5, tick_ms: 100 });
    s.update(&ServerMsg::PowChallenge { tick: 9, seed: "abc".to_string(), resource_id: 11, target_bits: 8 });
    assert_eq!(s.tick, 7);
    assert_eq!(s.agent_id, 1);
    assert_eq!(s.resources.len(), 2);
    assert_eq!(s.position, (6, 1));
}

#[test]
fn blocked_off_map() {
    let mut s = GameState::new(1);
    s.update(&snapshot());
    assert!(s.is_blocked(10, 0));
    assert!(s.is_blocked(0, 8));
    assert!(GameState::new(1).is_blocked(0, 0));
}

#[test]
fn blocked_by_obstacle_agent_resource() {
    let mut s = GameState::new(1);
    s.update(&snapshot());
    assert!(s.is_blocked(3, 4));
    assert!(s.is_blocked(0, 0));
    assert!(s.is_blocked(5, 5));
    assert!(s.is_blocked(1, 7));
}

#[test]
fn own_cell_and_free_cell_not_blocked() {
    let mut s = GameState::new(1);
    s.update(&snapshot());
    assert!(!s.is_blocked(6, 1));
    assert!(!s.is_blocked(4, 4));
}
