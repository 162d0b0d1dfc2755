use moss::error::MossError;
use moss::moss::blackboard::Blackboard;
use moss::moss::decomposition::{follow_up_flag, Decomposition, GapSpec};
use moss::moss::orchestrator::{
    apply_plan, drive_step, environment_report, plant_gaps, reply_json_text, synthesis_prompt, DriveStep,
    ProbeOutcome, RuntimeProbe,
};
use moss::moss::artifact_guard::ArtifactGuard;
use moss::moss::solver::{Solver, SolverAction, SolverEvent, SolverResponse, Step};
use moss::moss::types::{Evidence, EvidenceStatus, Gap, GapState};

fn spec(name: &str, deps: Vec<&str>) -> GapSpec {
    GapSpec {
        name: name.into(),
        description: "test gap".into(),
        dependencies: deps.into_iter().map(|s| s.into()).collect(),
        constraints: None,
        expected_output: None,
    }
}

fn gap(name: &str, deps: Vec<&str>) -> Gap {
    Gap::new(name.into(), "test gap".into(), deps.into_iter().map(|s| s.into()).collect(), None, None)
}

/// Runs the scheduler as the driver does, completing every dispatched gap at once.
fn run_all(bb: &mut Blackboard) -> Result<Vec<String>, MossError> {
    let mut order = Vec::new();
    let mut running: Vec<Gap> = Vec::new();
    loop {
        match drive_step(bb, running.len()) {
            DriveStep::Dispatch(gs) => {
                running.extend(gs);
                let g = running.remove(0);
                order.push(g.name().to_string());
                bb.set_gap_state(g.gap_id(), GapState::Closed)?;
            }
            DriveStep::Finished => return Ok(order),
            DriveStep::Deadlocked => return Err(MossError::Deadlock),
        }
    }
}

#[test]
fn scheduler_closes_single_gap() {
    let mut bb = Blackboard::new();
    bb.insert_gap(gap("g1", vec![])).unwrap();
    assert_eq!(run_all(&mut bb).unwrap(), vec!["g1".to_string()]);
    let id = bb.get_gap_id_by_name("g1").unwrap();
    assert_eq!(bb.get_gap(id).unwrap().state(), &GapState::Closed);
}

#[test]
fn scheduler_closes_chain_in_order() {
    let mut bb = Blackboard::new();
    bb.insert_gap(gap("A", vec![])).unwrap();
    bb.insert_gap(gap("B", vec!["A"])).unwrap();
    bb.insert_gap(gap("C", vec!["B"])).unwrap();
    assert_eq!(run_all(&mut bb).unwrap(), vec!["A".to_string(), "B".to_string(), "C".to_string()]);
    assert!(bb.all_closed());
}

#[test]
fn scheduler_deadlocks_on_missing_dependency() {
    let mut bb = Blackboard::new();
    bb.insert_gap(gap("B", vec!["A"])).unwrap();
    assert!(matches!(run_all(&mut bb), Err(MossError::Deadlock)));
}

#[test]
fn scheduler_waits_while_work_is_running() {
    let mut bb = Blackboard::new();
    bb.insert_gap(gap("B", vec!["A"])).unwrap();
    match drive_step(&mut bb, 1) {
        DriveStep::Dispatch(gs) => assert!(gs.is_empty()),
        _ => panic!("expected to wait"),
    }
}

#[test]
fn empty_board_finishes_at_once() {
    let mut bb = Blackboard::new();
    assert!(matches!(drive_step(&mut bb, 0), DriveStep::Finished));
}

#[test]
fn planting_sets_intent_and_inserts_in_order() {
    let mut bb = Blackboard::new();
    plant_gaps(&mut bb, Some("plan".into()), vec![spec("a", vec![]), spec("b", vec!["a"])]).unwrap();
    assert_eq!(bb.get_intent().as_deref(), Some("plan"));
    let b = bb.get_gap_id_by_name("b").unwrap();
    assert_eq!(bb.get_gap(b).unwrap().state(), &GapState::Blocked);
    assert_eq!(bb.get_gap(b).unwrap().dependencies(), &vec!["a".to_string()]);
}

#[test]
fn planting_stops_at_first_duplicate() {
    let mut bb = Blackboard::new();
    bb.insert_gap(gap("x", vec![])).unwrap();
    let r = plant_gaps(&mut bb, None, vec![spec("a", vec![]), spec("x", vec![]), spec("c", vec![])]);
    match r {
        Err(MossError::Blackboard(m)) => assert_eq!(m, "gap 'x' already exists"),
        _ => panic!("expected a duplicate error"),
    }
    assert!(bb.get_gap_id_by_name("a").is_some());
    assert!(bb.get_gap_id_by_name("c").is_none());
    assert!(bb.get_intent().is_none());
}

#[test]
fn planner_reply_fences_are_removed() {
    assert_eq!(reply_json_text("```json\n{\"a\":1}\n```"), "{\"a\":1}");
    assert_eq!(reply_json_text("``````{}``````"), "{}");
    assert_eq!(reply_json_text("  {\"intent\":\"x\"} "), "{\"intent\":\"x\"}");
}

#[test]
fn follow_up_flag_defaults_to_false() {
    assert!(!follow_up_flag(None));
    assert!(!follow_up_flag(Some(false)));
    assert!(follow_up_flag(Some(true)));
}

#[test]
fn synthesis_prompt_uses_intent_or_placeholder() {
    let p = synthesis_prompt(None, "[]").unwrap();
    assert!(p.contains("<intent>unknown intent</intent>"));
    assert!(p.contains("<evidence>[]</evidence>"));
    let q = synthesis_prompt(Some("Find trains".into()), "[1]").unwrap();
    assert!(q.contains("<intent>Find trains</intent>"));
}

#[test]
fn environment_report_lists_found_runtimes() {
    let probes = vec![
        RuntimeProbe { name: "python3".into(), outcome: ProbeOutcome::Found("Python 3.11.2".into()) },
        RuntimeProbe { name: "node".into(), outcome: ProbeOutcome::Missing },
        RuntimeProbe { name: "sh".into(), outcome: ProbeOutcome::Failed },
    ];
    assert_eq!(
        environment_report("linux", "x86_64", &probes),
        "**OS:** linux (x86_64)\n**Runtimes:** python3 (Python 3.11.2), sh"
    );
    assert_eq!(
        environment_report("macos", "aarch64", &vec![]),
        "**OS:** macos (aarch64)\n**Runtimes:** none detected"
    );
}

#[test]
fn new_topic_starts_a_clean_board() {
    let mut bb = Blackboard::new();
    bb.insert_gap(Gap::new("old".into(), "d".into(), vec![], None, None)).unwrap();
    let plan = Decomposition { intent: Some("new".into()), gaps: Some(vec![spec("a", vec![])]), is_follow_up: false };
    apply_plan(&mut bb, plan).unwrap();
    assert!(bb.get_gap_id_by_name("old").is_none());
    assert!(bb.get_gap_id_by_name("a").is_some());
    assert_eq!(bb.get_intent().as_deref(), Some("new"));
    assert!(bb.all_evidence().is_empty());
}

#[test]
fn follow_up_keeps_the_board() {
    let mut bb = Blackboard::new();
    let g = Gap::new("old".into(), "d".into(), vec![], None, None);
    let id = g.gap_id();
    bb.insert_gap(g).unwrap();
    bb.set_gap_state(id, GapState::Closed).unwrap();
    let plan = Decomposition { intent: None, gaps: Some(vec![spec("next", vec!["old"])]), is_follow_up: true };
    apply_plan(&mut bb, plan).unwrap();
    assert!(bb.get_gap_id_by_name("old").is_some());
    let next = bb.get_gap_id_by_name("next").unwrap();
    assert_eq!(*bb.get_gap(next).unwrap().state(), GapState::Blocked);
    bb.promote_unblocked();
    assert_eq!(*bb.get_gap(next).unwrap().state(), GapState::Ready);
    let dup = Decomposition { intent: None, gaps: Some(vec![spec("old", vec![])]), is_follow_up: true };
    match apply_plan(&mut bb, dup) {
        Err(MossError::Blackboard(m)) => assert_eq!(m, "gap 'old' already exists"),
        _ => panic!("expected a name clash"),
    }
}

/// Solves a gap as a provider that always answers `done` makes the solver do.
fn solve_with_done(bb: &mut Blackboard, g: &Gap) {
    let s = Solver::new(ArtifactGuard::new(), "test".into());
    let (mut st, first) = s.start(g.gap_id());
    assert!(matches!(first, SolverAction::Prompt));
    assert!(s.prompt(g, bb, &st).is_ok());
    let reply = SolverEvent::Responded(Some(SolverResponse {
        step: Step::Done { value: "{\"result\":\"ok\"}".into() },
        scratch: None,
    }));
    match s.step(&mut st, reply) {
        SolverAction::Finish { evidence } => bb.append_evidence(evidence),
        _ => panic!("expected Finish"),
    }
}

/// Drives the plan as the orchestrator does, each dispatched gap solved by its own solver.
fn drive_with_solvers(bb: &mut Blackboard) -> Result<(), MossError> {
    let mut running: Vec<Gap> = Vec::new();
    loop {
        match drive_step(bb, running.len()) {
            DriveStep::Dispatch(gs) => {
                running.extend(gs);
                let g = running.remove(0);
                solve_with_done(bb, &g);
                bb.set_gap_state(g.gap_id(), GapState::Closed)?;
            }
            DriveStep::Finished => return Ok(()),
            DriveStep::Deadlocked => return Err(MossError::Deadlock),
        }
    }
}

#[test]
fn orchestrator_single_gap_closes_on_success() {
    let mut bb = Blackboard::new();
    bb.insert_gap(gap("g1", vec![])).unwrap();
    drive_with_solvers(&mut bb).unwrap();
    let id = bb.get_gap_id_by_name("g1").unwrap();
    assert_eq!(bb.get_gap(id).unwrap().state(), &GapState::Closed);
}

#[test]
fn orchestrator_linear_chain_closes_in_order() {
    let mut bb = Blackboard::new();
    bb.insert_gap(gap("A", vec![])).unwrap();
    bb.insert_gap(gap("B", vec!["A"])).unwrap();
    drive_with_solvers(&mut bb).unwrap();
    let a_id = bb.get_gap_id_by_name("A").unwrap();
    let b_id = bb.get_gap_id_by_name("B").unwrap();
    assert_eq!(bb.get_gap(a_id).unwrap().state(), &GapState::Closed);
    assert_eq!(bb.get_gap(b_id).unwrap().state(), &GapState::Closed);
}

#[test]
fn orchestrator_deadlock_if_deps_never_close() {
    let mut bb = Blackboard::new();
    bb.insert_gap(gap("B", vec!["A"])).unwrap();
    let result = drive_with_solvers(&mut bb);
    assert!(matches!(result, Err(MossError::Deadlock)));
}

/// The `is_follow_up` field of a planner reply, as the planner's reply is read.
fn follow_up_of(json: &str) -> bool {
    let v: serde_json::Value = serde_json::from_str(json).unwrap();
    follow_up_flag(v.get("is_follow_up").and_then(|f| f.as_bool()))
}

#[test]
fn deserialize_with_null_is_follow_up() {
    let json = r#"{"intent":"test","is_follow_up":null,"gaps":null}"#;
    assert_eq!(follow_up_of(json), false);
}

#[test]
fn deserialize_with_missing_is_follow_up() {
    let json = r#"{"intent":"test","gaps":null}"#;
    assert_eq!(follow_up_of(json), false);
}

#[test]
fn deserialize_with_explicit_true() {
    let json = r#"{"intent":"test","is_follow_up":true,"gaps":null}"#;
    assert_eq!(follow_up_of(json), true);
}

#[test]
fn follow_up_keeps_earlier_gaps_evidence_and_takes_the_intent() {
    let mut bb = Blackboard::new();
    bb.set_intent("first".into());
    let g = Gap::new("old".into(), "d".into(), vec![], None, None);
    let id = g.gap_id();
    bb.insert_gap(g).unwrap();
    bb.set_gap_state(id, GapState::Closed).unwrap();
    bb.append_evidence(Evidence::new(id, "1".into(), EvidenceStatus::Success));
    let keep = Decomposition { intent: None, gaps: Some(vec![spec("b", vec![])]), is_follow_up: true };
    apply_plan(&mut bb, keep).unwrap();
    assert_eq!(bb.get_intent().as_deref(), Some("first"));
    let plan = Decomposition { intent: Some("second".into()), gaps: Some(vec![spec("c", vec!["b"])]), is_follow_up: true };
    apply_plan(&mut bb, plan).unwrap();
    assert_eq!(bb.get_intent().as_deref(), Some("second"));
    let old = bb.get_gap(id).unwrap();
    assert_eq!(old.name(), "old");
    assert_eq!(*old.state(), GapState::Closed);
    assert_eq!(bb.get_evidence(id).len(), 1);
    assert!(bb.get_gap_id_by_name("b").is_some());
    assert!(bb.get_gap_id_by_name("c").is_some());
}
