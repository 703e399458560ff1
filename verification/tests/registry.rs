use skicka::registry::{Overload, Registry};

#[test]
fn register_returns_fresh_pending_id() {
    let mut reg: Registry<u32> = Registry::new(4);
    assert!(reg.try_admit());
    let (id, seq) = reg.register(None, 7).expect("registration below capacity");
    assert_eq!(seq, 0);
    assert!(reg.contains_code(&id));
    assert_eq!(reg.pending_count(), 1);
    assert_eq!(reg.next_sequence(), 1);
}

#[test]
fn identifiers_are_distinct_while_pending() {
    let mut reg: Registry<u32> = Registry::new(8);
    let mut ids: Vec<String> = Vec::new();
    for n in 0..5u32 {
        let (id, _) = reg.register(None, n).expect("registration below capacity");
        assert!(!ids.contains(&id));
        ids.push(id);
    }
    assert_eq!(reg.pending_count(), 5);
}

#[test]
fn claim_hands_out_exactly_once() {
    let mut reg: Registry<u32> = Registry::new(4);
    let (id, seq) = reg.register(Some("hi.txt".to_string()), 42).expect("registration");
    let entry = reg.claim(&id).expect("first claim wins");
    assert_eq!(entry.id, id);
    assert_eq!(entry.seq, seq);
    assert_eq!(entry.display_name.as_deref(), Some("hi.txt"));
    assert_eq!(entry.payload, 42);
    assert!(reg.claim(&id).is_none());
    assert_eq!(reg.pending_count(), 0);
}

#[test]
fn claim_of_unknown_id_changes_nothing() {
    let mut reg: Registry<u32> = Registry::new(4);
    let (id, _) = reg.register(None, 1).expect("registration");
    assert!(reg.claim(&"no-such-code".to_string()).is_none());
    assert_eq!(reg.pending_count(), 1);
    assert!(reg.contains_code(&id));
}

#[test]
fn capacity_ceiling_rejects_and_frees_by_one() {
    let mut reg: Registry<u32> = Registry::new(1);
    let (id, _) = reg.register(None, 1).expect("first registration fits");
    assert!(!reg.try_admit());
    assert!(matches!(reg.register(None, 2), Err(Overload::AtCapacity)));
    assert_eq!(reg.pending_count(), 1);

    assert!(reg.claim(&id).is_some());
    assert!(reg.try_admit());
    let second = reg.register(None, 3);
    assert!(second.is_ok());
    assert_eq!(reg.pending_count(), 1);
}

#[test]
fn zero_capacity_rejects_immediately() {
    let mut reg: Registry<u32> = Registry::new(0);
    assert!(!reg.try_admit());
    assert!(matches!(reg.register(None, 1), Err(Overload::AtCapacity)));
    assert_eq!(reg.pending_count(), 0);
}

#[test]
fn reap_removes_only_the_matching_sequence() {
    let mut reg: Registry<u32> = Registry::new(4);
    let (id, seq) = reg.register(None, 9).expect("registration");

    assert!(!reg.reap_if_stale(&id, seq + 1));
    assert!(reg.contains_code(&id));

    assert!(reg.reap_if_stale(&id, seq));
    assert!(!reg.contains_code(&id));
    assert_eq!(reg.pending_count(), 0);
    assert!(reg.claim(&id).is_none());
}

#[test]
fn reap_after_claim_is_a_no_op() {
    let mut reg: Registry<u32> = Registry::new(4);
    let (id, seq) = reg.register(None, 9).expect("registration");
    assert!(reg.claim(&id).is_some());
    assert!(!reg.reap_if_stale(&id, seq));
    assert_eq!(reg.pending_count(), 0);
}

#[test]
fn sequence_numbers_grow_per_registration() {
    let mut reg: Registry<u32> = Registry::new(4);
    let (_, s0) = reg.register(None, 0).expect("registration");
    let (_, s1) = reg.register(None, 1).expect("registration");
    assert_eq!(s0, 0);
    assert_eq!(s1, 1);
    assert_eq!(reg.next_sequence(), 2);
}
