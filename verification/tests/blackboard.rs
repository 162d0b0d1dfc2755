use moss::moss::blackboard::Blackboard;
use moss::moss::types::{Evidence, EvidenceStatus, Gap, GapState};
use moss::error::MossError;

fn bb() -> Blackboard {
    Blackboard::new()
}

fn gap(name: &str, deps: Vec<&str>) -> Gap {
    Gap::new(
        name.to_string(),
        format!("description for {name}"),
        deps.into_iter().map(|s| s.to_string()).collect(),
        None,
        None,
    )
}

#[test]
fn linear_chain_promote_unblocked() {
    // A → B → C
    let mut bb = bb();
    bb.insert_gap(gap("A", vec![])).unwrap();
    bb.insert_gap(gap("B", vec!["A"])).unwrap();
    bb.insert_gap(gap("C", vec!["B"])).unwrap();

    let a_id = bb.get_gap_id_by_name("A").unwrap();
    let b_id = bb.get_gap_id_by_name("B").unwrap();
    let c_id = bb.get_gap_id_by_name("C").unwrap();

    assert_eq!(bb.get_gap(a_id).unwrap().state(), &GapState::Ready);
    assert_eq!(bb.get_gap(b_id).unwrap().state(), &GapState::Blocked);
    assert_eq!(bb.get_gap(c_id).unwrap().state(), &GapState::Blocked);

    // Close A → B becomes Ready
    bb.set_gap_state(a_id, GapState::Closed).unwrap();
    bb.promote_unblocked();
    assert_eq!(bb.get_gap(b_id).unwrap().state(), &GapState::Ready);
    assert_eq!(bb.get_gap(c_id).unwrap().state(), &GapState::Blocked);

    // Close B → C becomes Ready
    bb.set_gap_state(b_id, GapState::Closed).unwrap();
    bb.promote_unblocked();
    assert_eq!(bb.get_gap(c_id).unwrap().state(), &GapState::Ready);
}

#[test]
fn parallel_fanout_drain_ready() {
    // X and Y are independent — both start Ready
    let mut bb = bb();
    bb.insert_gap(gap("X", vec![])).unwrap();
    bb.insert_gap(gap("Y", vec![])).unwrap();

    let drained = bb.drain_ready();
    assert_eq!(drained.len(), 2);

    let x_id = bb.get_gap_id_by_name("X").unwrap();
    let y_id = bb.get_gap_id_by_name("Y").unwrap();
    assert_eq!(bb.get_gap(x_id).unwrap().state(), &GapState::Assigned);
    assert_eq!(bb.get_gap(y_id).unwrap().state(), &GapState::Assigned);
}

#[test]
fn all_closed_only_when_all_gaps_closed() {
    let mut bb = bb();
    bb.insert_gap(gap("P", vec![])).unwrap();
    bb.insert_gap(gap("Q", vec![])).unwrap();

    assert!(!bb.all_closed());

    let p_id = bb.get_gap_id_by_name("P").unwrap();
    let q_id = bb.get_gap_id_by_name("Q").unwrap();
    bb.set_gap_state(p_id, GapState::Closed).unwrap();
    assert!(!bb.all_closed());
    bb.set_gap_state(q_id, GapState::Closed).unwrap();
    assert!(bb.all_closed());
}

#[test]
fn append_and_get_evidence() {
    let mut bb = bb();
    let gap_id: u128 = 7;

    bb.append_evidence(Evidence::new(gap_id, r#"{"result":42}"#.to_string(), EvidenceStatus::Success));
    bb.append_evidence(Evidence::new(gap_id, r#"{"result":99}"#.to_string(), EvidenceStatus::Success));

    let evs = bb.get_evidence(gap_id);
    assert_eq!(evs.len(), 2);
}

#[test]
fn evidence_is_read_back_in_append_order() {
    let mut bb = bb();
    bb.append_evidence(Evidence::new(1, "1".to_string(), EvidenceStatus::Success));
    bb.append_evidence(Evidence::new(2, "2".to_string(), EvidenceStatus::Success));
    bb.append_evidence(Evidence::new(1, "3".to_string(), EvidenceStatus::Failure { reason: "x".to_string() }));
    let evs = bb.get_evidence(1);
    assert_eq!(evs.len(), 2);
    assert_eq!(evs[0].content(), "1");
    assert_eq!(evs[1].content(), "3");
    assert!(bb.get_evidence(3).is_empty());
    assert_eq!(bb.all_evidence().len(), 3);
}

#[test]
fn duplicate_gap_name_is_refused_and_board_unchanged() {
    let mut bb = bb();
    bb.insert_gap(gap("A", vec![])).unwrap();
    let first = bb.get_gap_id_by_name("A").unwrap();
    match bb.insert_gap(gap("A", vec!["Z"])) {
        Err(MossError::Blackboard(m)) => assert_eq!(m, "gap 'A' already exists"),
        _ => panic!("expected a Blackboard error"),
    }
    assert_eq!(bb.get_gap_id_by_name("A"), Some(first));
    assert_eq!(bb.snapshot().gaps.len(), 1);
}

#[test]
fn setting_state_of_unknown_gap_names_it() {
    let mut bb = bb();
    match bb.set_gap_state(0x0123456789abcdef0123456789abcdef, GapState::Closed) {
        Err(MossError::Blackboard(m)) => {
            assert_eq!(m, "gap 01234567-89ab-cdef-0123-456789abcdef not found")
        }
        _ => panic!("expected a Blackboard error"),
    }
}

#[test]
fn missing_dependency_keeps_gap_blocked() {
    let mut bb = bb();
    bb.insert_gap(gap("B", vec!["A"])).unwrap();
    bb.promote_unblocked();
    let b = bb.get_gap_id_by_name("B").unwrap();
    assert_eq!(bb.get_gap(b).unwrap().state(), &GapState::Blocked);
    assert!(bb.drain_ready().is_empty());
}

#[test]
fn second_drain_takes_nothing() {
    let mut bb = bb();
    bb.insert_gap(gap("X", vec![])).unwrap();
    let first = bb.drain_ready();
    assert_eq!(first.len(), 1);
    assert_eq!(first[0].state(), &GapState::Assigned);
    assert!(bb.drain_ready().is_empty());
}

#[test]
fn follow_up_gap_on_closed_dependency_is_ready_after_promotion() {
    let mut bb = bb();
    bb.insert_gap(gap("search", vec![])).unwrap();
    let s = bb.get_gap_id_by_name("search").unwrap();
    bb.set_gap_state(s, GapState::Closed).unwrap();
    bb.insert_gap(gap("upgrade", vec!["search"])).unwrap();
    let u = bb.get_gap_id_by_name("upgrade").unwrap();
    assert_eq!(bb.get_gap(u).unwrap().state(), &GapState::Blocked);
    bb.promote_unblocked();
    assert_eq!(bb.get_gap(u).unwrap().state(), &GapState::Ready);
}

#[test]
fn intent_and_snapshot_reflect_the_board() {
    let mut bb = bb();
    assert!(bb.get_intent().is_none());
    bb.set_intent("book a flight".to_string());
    bb.insert_gap(gap("A", vec![])).unwrap();
    bb.append_evidence(Evidence::new(5, "null".to_string(), EvidenceStatus::Partial));
    let snap = bb.snapshot();
    assert_eq!(snap.intent(), Some("book a flight"));
    assert_eq!(snap.gap_state("A"), Some(GapState::Ready));
    assert_eq!(snap.gap_state("B"), None);
    assert_eq!(snap.evidence_count(), 1);
    assert_eq!(snap.gaps().len(), 1);
}
