use mining_agent::state::{GameState, ResourceInfo};
use mining_agent::strategy::{NearestResourceStrategy, Strategy};

fn res(id: u128, x: u16, y: u16) -> ResourceInfo {
    ResourceInfo { resource_id: id, x, y, expires_at: 0, value: 1 }
}

fn state_at(pos: (u16, u16), resources: Vec<ResourceInfo>) -> GameState {
    let mut s = GameState::new(1);
    s.position = pos;
    s.map_size = (100, 100);
    s.resources = resources;
    s
}

#[test]
fn no_resource_no_move() {
    let s = state_at((5, 5), vec![]);
    assert_eq!(NearestResourceStrategy.next_move(&s), None);
}

#[test]
fn heads_for_nearest() {
    let s = state_at((5, 5), vec![res(1, 20, 20), res(2, 3, 9), res(3, 0, 0)]);
    assert_eq!(NearestResourceStrategy.next_move(&s), Some((-1, 1)));
}

#[test]
fn first_of_equally_near() {
    let s = state_at((5, 5), vec![res(1, 8, 5), res(2, 5, 2), res(3, 2, 5)]);
    assert_eq!(NearestResourceStrategy.next_move(&s), Some((1, 0)));
}

#[test]
fn on_resource_stays() {
    let s = state_at((4, 4), vec![res(1, 9, 9), res(2, 4, 4)]);
    assert_eq!(NearestResourceStrategy.next_move(&s), Some((0, 0)));
}

#[test]
fn far_coordinates_keep_true_direction() {
    let s = state_at((100, 60000), vec![res(1, 40000, 59999)]);
    assert_eq!(NearestResourceStrategy.next_move(&s), Some((1, -1)));
}

#[test]
fn step_brings_closer() {
    let s = state_at((10, 3), vec![res(1, 2, 7)]);
    let (dx, dy) = NearestResourceStrategy.next_move(&s).unwrap();
    let before = (10i32 - 2).abs() + (3i32 - 7).abs();
    let after = (10i32 + dx as i32 - 2).abs() + (3i32 + dy as i32 - 7).abs();
    assert_eq!(after, before - 2);
}

#[test]
fn works_behind_trait_object() {
    let strategy: Box<dyn Strategy> = Box::new(NearestResourceStrategy);
    let s = state_at((0, 0), vec![res(1, 0, 3)]);
    assert_eq!(strategy.next_move(&s), Some((0, 1)));
}
