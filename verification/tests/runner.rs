use moss::providers::{Message, Provider};
use moss::error::{MossError, ProviderError};
use moss::moss::compiler::artifact_text;
use moss::moss::blackboard::Blackboard;
use moss::moss::compiler::{gap_type_label, prior_attempts, Compiler, GapType};
use moss::moss::executor::{Executor, ScriptOutcome};
use moss::moss::runner::{AttemptPlan, Runner, MAX_RETRIES};
use moss::moss::types::{Evidence, EvidenceStatus, Gap, GapState};
use moss::providers::local::LocalMock;

fn failure(reason: &str) -> Evidence {
    Evidence::new(1, "null".into(), EvidenceStatus::Failure { reason: reason.into() })
}

#[test]
fn retry_plan_collects_failures_then_force_closes() {
    let r = Runner::new(LocalMock::new());
    match r.plan_attempt(&vec![]) {
        AttemptPlan::Attempt { prior } => assert!(prior.is_empty()),
        _ => panic!("expected attempt"),
    }
    let evs = vec![failure("Timeout after 30s"), Evidence::new(1, "1".into(), EvidenceStatus::Partial)];
    match r.plan_attempt(&evs) {
        AttemptPlan::Attempt { prior } => assert_eq!(prior, vec!["Timeout after 30s".to_string()]),
        _ => panic!("expected attempt"),
    }
    let many: Vec<Evidence> = (0..MAX_RETRIES).map(|_| failure("x")).collect();
    assert!(matches!(r.plan_attempt(&many), AttemptPlan::ForceClose));
}

#[test]
fn gap_closes_only_after_success() {
    let r = Runner::new(LocalMock::new());
    assert_eq!(r.state_after_run(&vec![]), GapState::Ready);
    assert_eq!(r.state_after_run(&vec![failure("x")]), GapState::Ready);
    let ok = vec![failure("x"), Evidence::new(1, "{}".into(), EvidenceStatus::Success)];
    assert_eq!(r.state_after_run(&ok), GapState::Closed);
}

#[test]
fn prior_attempts_are_numbered() {
    assert_eq!(prior_attempts(&vec![]), "None");
    assert_eq!(
        prior_attempts(&vec!["Timeout after 30s".into(), "SyntaxError on line 3".into()]),
        "1. Timeout after 30s\n2. SyntaxError on line 3"
    );
    assert_eq!(gap_type_label(GapType::Reactive), "REACTIVE");
}

#[test]
fn compiler_prompt_and_reply_text() {
    let c = Compiler::new(LocalMock::new());
    let g = Gap::new("retry_gap".into(), "Test description".into(), vec![], None, None);
    let p = c.prompt(&g, GapType::Proactive, &vec!["boom".into()]).unwrap();
    assert!(p.contains("<gap_name>retry_gap</gap_name>"));
    assert!(p.contains("<gap_type>PROACTIVE</gap_type>"));
    assert!(p.contains("<prior_attempts>1. boom</prior_attempts>"));
    let text = c.compile_text(&g, GapType::Proactive, &vec![]).unwrap();
    assert!(text.starts_with("echo: "));
}

#[test]
fn interpreters_and_extensions() {
    let e = Executor::new();
    assert_eq!(e.interpreter("python"), "python3");
    assert_eq!(e.interpreter("bash"), "sh");
    assert_eq!(e.interpreter("js"), "node");
    assert_eq!(e.interpreter("ruby"), "ruby");
    assert_eq!(e.extension("python3"), ".py");
    assert_eq!(e.extension("sh"), ".sh");
    assert_eq!(e.extension("node"), ".js");
    assert_eq!(e.extension("ruby"), ".tmp");
}

#[test]
fn script_outcomes_become_evidence() {
    let e = Executor::new();
    let ok = e.script_evidence(3, 1, 10, ScriptOutcome::Exited {
        success: true,
        stdout: b"{\"ok\": true}\n".to_vec(),
        stderr: vec![],
    });
    assert!(matches!(ok.status(), EvidenceStatus::Success));
    assert_eq!(ok.content(), "{\"ok\":true}");
    let plain = e.script_evidence(3, 1, 10, ScriptOutcome::Exited {
        success: true,
        stdout: b"hello world\n".to_vec(),
        stderr: vec![],
    });
    assert!(matches!(plain.status(), EvidenceStatus::Partial));
    assert_eq!(plain.content(), "\"hello world\"");
    let bad = e.script_evidence(3, 1, 10, ScriptOutcome::Exited {
        success: false,
        stdout: vec![],
        stderr: b" boom \n".to_vec(),
    });
    match bad.status() {
        EvidenceStatus::Failure { reason } => assert_eq!(reason, "boom"),
        _ => panic!("expected failure"),
    }
    let slow = e.script_evidence(3, 1, 7, ScriptOutcome::TimedOut);
    match slow.status() {
        EvidenceStatus::Failure { reason } => assert_eq!(reason, "timed out after 7s"),
        _ => panic!("expected failure"),
    }
    match e.agent_evidence(3, 1).status() {
        EvidenceStatus::Failure { reason } => assert_eq!(reason, "agent execution not yet implemented"),
        _ => panic!("expected failure"),
    }
}

#[test]
fn next_attempt_counts_evidence() {
    let mut bb = Blackboard::new();
    let e = Executor::new();
    assert_eq!(e.next_attempt(1, &bb), 1);
    bb.append_evidence(failure("x"));
    assert_eq!(e.next_attempt(1, &bb), 2);
}

#[test]
fn artifact_reply_is_unfenced_or_passes_the_error() {
    let t = artifact_text(Ok("```json\n{\"type\":\"SCRIPT\"}\n```".to_string())).unwrap();
    assert_eq!(t, "{\"type\":\"SCRIPT\"}");
    match artifact_text(Err(ProviderError::NotSupported)) {
        Err(MossError::Provider(ProviderError::NotSupported)) => {}
        _ => panic!("expected the provider error"),
    }
}

#[test]
fn invalid_utf8_output_is_replaced() {
    let e = Executor::new();
    let out = e.script_evidence(1, 1, 5, ScriptOutcome::Exited {
        success: true,
        stdout: vec![b'a', 0xff, b'b'],
        stderr: vec![],
    });
    assert!(matches!(out.status(), EvidenceStatus::Partial));
    assert_eq!(out.content(), "\"a\u{fffd}b\"");
}

#[test]
fn new_gaps_get_distinct_ids() {
    let a = Gap::new("a".into(), "d".into(), vec![], None, None);
    let b = Gap::new("a".into(), "d".into(), vec![], None, None);
    assert_ne!(a.gap_id(), b.gap_id());
}

struct MockCompilerProvider {
    response: String,
}

impl Provider for MockCompilerProvider {
    fn complete_chat(&self, _messages: Vec<Message>) -> Result<String, ProviderError> {
        Ok(self.response.clone())
    }
}

fn make_gap(name: &str) -> Gap {
    Gap::new(name.into(), "Test description".into(), vec![], None, None)
}

fn compile(response: &str, gap: &Gap, gap_type: GapType, prior: &Vec<String>) -> serde_json::Value {
    let c = Compiler::new(MockCompilerProvider { response: response.to_string() });
    let text = c.compile_text(gap, gap_type, prior).unwrap();
    serde_json::from_str(&text).unwrap()
}

#[test]
fn compile_proactive_returns_script() {
    let response = r#"{
                "type": "SCRIPT",
                "language": "python",
                "code": "print('{\"result\": 42}')",
                "timeout_secs": 10
            }"#;
    let artifact = compile(response, &make_gap("add_numbers"), GapType::Proactive, &vec![]);
    assert_eq!(artifact["type"], "SCRIPT");
    assert_eq!(artifact["language"], "python");
    assert_eq!(artifact["timeout_secs"], 10);
}

#[test]
fn compile_reactive_returns_agent() {
    let response = r#"{
                "type": "AGENT",
                "role": "Web Scout",
                "goal": "Find BTC price",
                "tools": ["web_search"],
                "instructions": "Search and return price."
            }"#;
    let artifact = compile(response, &make_gap("fetch_price"), GapType::Reactive, &vec![]);
    assert_eq!(artifact["type"], "AGENT");
    assert_eq!(artifact["role"], "Web Scout");
    assert!(artifact["tools"].as_array().unwrap().iter().any(|t| t == "web_search"));
}

#[test]
fn compile_strips_markdown_fences() {
    let response = "```json\n{\"type\":\"SCRIPT\",\"language\":\"shell\",\"code\":\"echo hi\",\"timeout_secs\":5}\n```";
    let artifact = compile(response, &make_gap("say_hi"), GapType::Proactive, &vec![]);
    assert_eq!(artifact["language"], "shell");
}

#[test]
fn compile_handles_prior_attempts() {
    let response = r#"{"type":"SCRIPT","language":"python","code":"pass","timeout_secs":10}"#;
    let attempts = vec!["Timeout after 30s".to_string(), "SyntaxError on line 3".to_string()];
    let artifact = compile(response, &make_gap("retry_gap"), GapType::Proactive, &attempts);
    assert_eq!(artifact["type"], "SCRIPT");
}

#[test]
fn compile_request_is_one_user_message() {
    let c = Compiler::new(MockCompilerProvider { response: String::new() });
    let g = make_gap("g");
    let m = c.compile_request(&g, GapType::Proactive, &vec![]).unwrap();
    assert_eq!(m.len(), 1);
    assert!(matches!(m[0].role, moss::providers::Role::User));
    assert_eq!(m[0].content, c.prompt(&g, GapType::Proactive, &vec![]).unwrap());
    assert!(m[0].content.contains("<gap_name>g</gap_name>"));
}

#[test]
fn attempt_increments_on_retry() {
    let mut bb = Blackboard::new();
    let gap = Gap::new("retry_gap".into(), "retry".into(), vec![], None, None);
    let id = gap.gap_id();
    bb.insert_gap(gap).unwrap();
    let ex = Executor::new();
    ex.record_script_run(&mut bb, id, 10, ScriptOutcome::Exited {
        success: true,
        stdout: b"{\"n\": 1}\n".to_vec(),
        stderr: vec![],
    });
    ex.record_script_run(&mut bb, id, 10, ScriptOutcome::Exited {
        success: true,
        stdout: b"{\"n\": 2}\n".to_vec(),
        stderr: vec![],
    });
    let evs = bb.get_evidence(id);
    assert_eq!(evs.len(), 2);
    assert_eq!(evs[0].attempt(), 1);
    assert_eq!(evs[1].attempt(), 2);
    assert_eq!(evs[1].content(), "{\"n\":2}");
}

#[test]
fn agent_runs_are_numbered_per_gap() {
    let mut bb = Blackboard::new();
    let ex = Executor::new();
    ex.record_agent_run(&mut bb, 7);
    ex.record_script_run(&mut bb, 8, 3, ScriptOutcome::TimedOut);
    ex.record_agent_run(&mut bb, 7);
    let sevens = bb.get_evidence(7);
    assert_eq!(sevens.len(), 2);
    assert_eq!(sevens[0].attempt(), 1);
    assert_eq!(sevens[1].attempt(), 2);
    assert_eq!(bb.get_evidence(8)[0].attempt(), 1);
    let explicit = ex.script_evidence(8, 4, 3, ScriptOutcome::TimedOut);
    assert_eq!(explicit.attempt(), 4);
    assert_eq!(Evidence::with_attempt(1, 9, "1".into(), EvidenceStatus::Success).attempt(), 9);
    assert_eq!(Evidence::new(1, "1".into(), EvidenceStatus::Success).attempt(), 1);
}

#[test]
fn non_json_output_is_quoted_with_escapes() {
    let e = Executor::new();
    let out = e.script_evidence(2, 1, 5, ScriptOutcome::Exited {
        success: true,
        stdout: "say \"hi\" \\ a\tb\u{1}c\u{8}\u{c}\r\u{1f} é\n".as_bytes().to_vec(),
        stderr: vec![],
    });
    assert!(matches!(out.status(), EvidenceStatus::Partial));
    assert_eq!(out.content(), "\"say \\\"hi\\\" \\\\ a\\tb\\u0001c\\b\\f\\r\\u001f é\"");
}
