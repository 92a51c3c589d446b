use mining_agent::miner::{finish_batch, CancelSet, MineRequest, MineResult};

fn request(id: u128) -> MineRequest {
    MineRequest { seed: "s33d".to_string(), tick: 12, resource_id: id, agent_id: 7, target_bits: 16 }
}

#[test]
fn cancel_and_reinstate() {
    let mut set = CancelSet::new();
    assert!(!set.is_cancelled(5));
    set.cancel(5);
    assert!(set.is_cancelled(5));
    assert!(!set.is_cancelled(6));
    set.reinstate(5);
    assert!(!set.is_cancelled(5));
    set.reinstate(9);
    assert!(!set.is_cancelled(9));
}

#[test]
fn found_nonce_is_reported_and_cancels() {
    let mut set = CancelSet::new();
    let r = finish_batch(&mut set, &request(33), Some(4242));
    assert_eq!(r, Some(MineResult { tick: 12, resource_id: 33, nonce: 4242 }));
    assert!(set.is_cancelled(33));
    assert!(!set.is_cancelled(34));
}

#[test]
fn empty_batch_changes_nothing() {
    let mut set = CancelSet::new();
    set.cancel(1);
    let r = finish_batch(&mut set, &request(33), None);
    assert_eq!(r, None);
    assert!(!set.is_cancelled(33));
    assert!(set.is_cancelled(1));
}
