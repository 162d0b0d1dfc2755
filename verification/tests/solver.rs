use moss::moss::artifact_guard::ArtifactGuard;
use moss::moss::blackboard::Blackboard;
use moss::moss::solver::{
    execution_report, strip_json_fences, CodeOutcome, Phase, Solver, SolverAction, SolverEvent,
    SolverResponse, Step, MAX_ITERATIONS,
};
use moss::moss::solver::finish_gap;
use moss::moss::types::{Evidence, EvidenceStatus, Gap, GapState};

fn solver() -> Solver {
    Solver::new(ArtifactGuard::new(), "test".to_string())
}

fn code(c: &str) -> SolverEvent {
    SolverEvent::Responded(Some(SolverResponse {
        step: Step::Code { interpreter: "sh".into(), ext: ".sh".into(), code: c.into() },
        scratch: None,
    }))
}

#[test]
fn fenced_json_is_unwrapped() {
    assert_eq!(
        strip_json_fences("```json\n{\"step\":\"done\",\"value\":{\"result\":1}}\n```"),
        "{\"step\":\"done\",\"value\":{\"result\":1}}"
    );
    assert_eq!(strip_json_fences("  ```\n{}\n```  "), "{}");
    assert_eq!(strip_json_fences("  {\"a\":1}\n"), "{\"a\":1}");
    assert_eq!(strip_json_fences("```json {} "), "```json {}");
}

#[test]
fn done_reply_finishes_with_success_evidence() {
    let s = solver();
    let (mut st, first) = s.start(9);
    assert!(matches!(first, SolverAction::Prompt));
    let a = s.step(
        &mut st,
        SolverEvent::Responded(Some(SolverResponse {
            step: Step::Done { value: "{\"result\":\"ok\"}".into() },
            scratch: Some("final".into()),
        })),
    );
    match a {
        SolverAction::Finish { evidence } => {
            assert_eq!(evidence.gap_id(), 9);
            assert!(evidence.status().is_success());
            assert_eq!(evidence.content(), "{\"result\":\"ok\"}");
        }
        _ => panic!("expected Finish"),
    }
    assert!(matches!(st.phase, Phase::Finished));
    assert_eq!(st.working_memory, "final");
}

#[test]
fn failing_code_exhausts_iterations() {
    let s = solver();
    let (mut st, _) = s.start(1);
    let mut last = None;
    for _ in 0..MAX_ITERATIONS {
        match s.step(&mut st, code("exit 1\n")) {
            SolverAction::RunCode { code, .. } => assert_eq!(code, "exit 1\n"),
            _ => panic!("expected RunCode"),
        }
        last = Some(s.step(&mut st, SolverEvent::Executed(Ok("EXIT CODE: 1".into()))));
        if matches!(last, Some(SolverAction::Finish { .. })) {
            break;
        }
    }
    match last {
        Some(SolverAction::Finish { evidence }) => match evidence.status() {
            EvidenceStatus::Failure { reason } => {
                assert_eq!(reason, "solver exhausted 10 iterations");
                assert_eq!(evidence.content(), "null");
            }
            _ => panic!("expected failure"),
        },
        _ => panic!("expected Finish"),
    }
    assert_eq!(st.iteration, MAX_ITERATIONS);
}

#[test]
fn rejected_code_is_not_run_and_reported() {
    let s = solver();
    let (mut st, _) = s.start(1);
    let a = s.step(&mut st, code("import os\nos.listdir('.')\n"));
    assert!(matches!(a, SolverAction::Prompt));
    assert_eq!(
        st.last_output.as_deref(),
        Some("ERROR: code rejected by guard: forbidden pattern in script: `import os`")
    );
    assert_eq!(st.iteration, 1);
}

#[test]
fn gated_code_runs_only_after_approval() {
    let s = solver();
    let (mut st, _) = s.start(1);
    match s.step(&mut st, code("DROP TABLE users;")) {
        SolverAction::RequestApproval { reason } => {
            assert_eq!(reason, "destructive: database: `DROP TABLE`")
        }
        _ => panic!("expected RequestApproval"),
    }
    match s.step(&mut st, SolverEvent::Approved(true)) {
        SolverAction::RunCode { code, .. } => assert_eq!(code, "DROP TABLE users;"),
        _ => panic!("expected RunCode"),
    }
}

#[test]
fn denied_code_is_reported_back() {
    let s = solver();
    let (mut st, _) = s.start(1);
    let _ = s.step(&mut st, code("DROP TABLE users;"));
    let a = s.step(&mut st, SolverEvent::Approved(false));
    assert!(matches!(a, SolverAction::Prompt));
    assert_eq!(
        st.last_output.as_deref(),
        Some("ERROR: code denied by user: destructive: database: `DROP TABLE`")
    );
}

#[test]
fn questions_and_bad_replies_feed_the_next_prompt() {
    let s = solver();
    let (mut st, _) = s.start(1);
    let a = s.step(
        &mut st,
        SolverEvent::Responded(Some(SolverResponse {
            step: Step::Ask { question: "Which file?".into() },
            scratch: Some("a".into()),
        })),
    );
    match a {
        SolverAction::AskHuman { question } => assert_eq!(question, "Which file?"),
        _ => panic!("expected AskHuman"),
    }
    let _ = s.step(&mut st, SolverEvent::Answered(None));
    assert_eq!(st.last_output.as_deref(), Some("Human answered: (no answer received)"));
    let _ = s.step(&mut st, SolverEvent::Responded(None));
    assert!(st.last_output.as_deref().unwrap().starts_with("ERROR: your previous response was not valid JSON."));
    let _ = s.step(
        &mut st,
        SolverEvent::Responded(Some(SolverResponse {
            step: Step::Ask { question: "More?".into() },
            scratch: Some("b".into()),
        })),
    );
    assert_eq!(st.working_memory, "a\nb");
    let _ = s.step(&mut st, SolverEvent::Answered(Some("yes".into())));
    assert_eq!(st.last_output.as_deref(), Some("Human answered: yes"));
    assert_eq!(st.iteration, 3);
}

#[test]
fn execution_errors_are_reported() {
    let s = solver();
    let (mut st, _) = s.start(1);
    let _ = s.step(&mut st, code("echo hi"));
    let _ = s.step(&mut st, SolverEvent::Executed(Err("No such file".into())));
    assert_eq!(st.last_output.as_deref(), Some("ERROR: execution error: No such file"));
}

#[test]
fn execution_report_formats() {
    assert_eq!(execution_report(CodeOutcome::TimedOut), "ERROR: execution timed out after 120s");
    let ok = CodeOutcome::Exited {
        success: true,
        status: "exit status: 0".into(),
        stdout: b"hello\n".to_vec(),
        stderr: vec![],
    };
    assert_eq!(execution_report(ok), "hello\n");
    let warn = CodeOutcome::Exited {
        success: true,
        status: "exit status: 0".into(),
        stdout: b"out".to_vec(),
        stderr: b"warn".to_vec(),
    };
    assert_eq!(execution_report(warn), "out\n[stderr]: warn");
    let bad = CodeOutcome::Exited {
        success: false,
        status: "exit status: 1".into(),
        stdout: b"o".to_vec(),
        stderr: b"e".to_vec(),
    };
    assert_eq!(execution_report(bad), "EXIT CODE: exit status: 1\n[stdout]: o\n[stderr]: e");
}

#[test]
fn related_evidence_lists_successful_dependency_results() {
    let mut bb = Blackboard::new();
    bb.insert_gap(Gap::new("fetch".into(), "d".into(), vec![], None, None)).unwrap();
    bb.insert_gap(Gap::new("other".into(), "d".into(), vec![], None, None)).unwrap();
    let f = bb.get_gap_id_by_name("fetch").unwrap();
    let o = bb.get_gap_id_by_name("other").unwrap();
    bb.append_evidence(Evidence::new(f, "{\"p\":1}".into(), EvidenceStatus::Success));
    bb.append_evidence(Evidence::new(f, "null".into(), EvidenceStatus::Failure { reason: "x".into() }));
    bb.append_evidence(Evidence::new(o, "2".into(), EvidenceStatus::Success));
    let g = Gap::new(
        "use".into(),
        "d".into(),
        vec!["fetch".into(), "missing".into(), "other".into()],
        None,
        None,
    );
    let text = solver().gather_related_evidence(&g, &bb);
    assert_eq!(text, "**fetch:** {\"p\":1}\n\n**other:** 2");
}

#[test]
fn prompt_renders_task_and_memory() {
    let bb = Blackboard::new();
    let g = Gap::new("t".into(), "Compute the answer".into(), vec![], None, Some("a number".into()));
    let s = solver();
    let (st, _) = s.start(g.gap_id());
    let p = s.prompt(&g, &bb, &st).unwrap();
    assert!(p.contains("Compute the answer"));
    assert!(p.contains("**Expected output shape:** a number"));
    assert!(p.contains("(empty — this is iteration 1)"));
    assert!(p.contains("test"));
    assert!(!p.contains("# Context from sibling tasks"));
}

#[test]
fn solver_done_posts_success_evidence() {
    let mut bb = Blackboard::new();
    let gap = Gap::new("simple_gap".into(), "Test description".into(), vec![], None, None);
    bb.insert_gap(gap.clone()).unwrap();
    let s = solver();
    let (mut st, _) = s.start(gap.gap_id());
    let reply = SolverEvent::Responded(Some(SolverResponse {
        step: Step::Done { value: "{\"result\":\"ok\"}".into() },
        scratch: None,
    }));
    if let SolverAction::Finish { evidence } = s.step(&mut st, reply) {
        bb.append_evidence(evidence);
    }
    let evs = bb.get_evidence(gap.gap_id());
    assert_eq!(evs.len(), 1);
    assert!(matches!(evs[0].status(), EvidenceStatus::Success));
    let content: serde_json::Value = serde_json::from_str(evs[0].content()).unwrap();
    assert_eq!(content["result"], "ok");
}

#[test]
fn solver_exhausts_iterations() {
    let mut bb = Blackboard::new();
    let gap = Gap::new("hard_gap".into(), "Test description".into(), vec![], None, None);
    bb.insert_gap(gap.clone()).unwrap();
    let s = solver();
    let (mut st, mut action) = s.start(gap.gap_id());
    loop {
        let event = match action {
            SolverAction::Prompt => code("exit 1\n"),
            SolverAction::RunCode { .. } => SolverEvent::Executed(Ok(execution_report(CodeOutcome::Exited {
                success: false,
                status: "exit status: 1".into(),
                stdout: vec![],
                stderr: vec![],
            }))),
            SolverAction::Finish { evidence } => {
                bb.append_evidence(evidence);
                break;
            }
            _ => panic!("unexpected action"),
        };
        action = s.step(&mut st, event);
    }
    let evs = bb.get_evidence(gap.gap_id());
    assert!(!evs.is_empty());
    let last = evs.last().unwrap();
    assert!(matches!(last.status(), EvidenceStatus::Failure { .. }));
}

#[test]
fn guard_rejection_surfaces_as_error() {
    let response = r#"{"step":"code","interpreter":"python3","ext":".py","code":"import os\nos.listdir('.')\n"}"#;
    let parsed: serde_json::Value = serde_json::from_str(strip_json_fences(response)).unwrap();
    assert_eq!(parsed["step"], "code");
    let code = parsed["code"].as_str().unwrap();
    let guard = ArtifactGuard::new();
    let verdict = guard.scan_code(code);
    assert!(verdict.is_rejected());
}

#[test]
fn finishing_a_gap_posts_evidence_and_closes_it() {
    let mut bb = Blackboard::new();
    let gap = Gap::new("g".into(), "d".into(), vec![], None, None);
    let id = gap.gap_id();
    bb.insert_gap(gap).unwrap();
    finish_gap(&mut bb, Evidence::new(id, "1".into(), EvidenceStatus::Success)).unwrap();
    assert_eq!(bb.get_evidence(id).len(), 1);
    assert_eq!(*bb.get_gap(id).unwrap().state(), GapState::Closed);
    assert!(finish_gap(&mut bb, Evidence::new(id + 1, "1".into(), EvidenceStatus::Success)).is_err());
    assert_eq!(bb.get_evidence(id + 1).len(), 1);
}
