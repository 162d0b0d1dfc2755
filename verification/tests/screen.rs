use moss::cli::screen::{
    box_bottom, box_bottom_msg, box_row_empty, box_sep, box_top, card_chunk_lines, row_input, row_kv,
    row_states, row_text, welcome_lines, Piece, ProgressEntry, Tone, UiState,
};
use moss::cli::{AttentionKind, Key, Reply};
use moss::moss::blackboard::Blackboard;
use moss::moss::types::{Gap, GapState};

fn text(line: &[Piece]) -> String {
    line.iter().map(|p| p.text.as_str()).collect()
}

fn cols(line: &[Piece]) -> usize {
    text(line).chars().count()
}

#[test]
fn bottom_border_is_box_wide() {
    let l = box_bottom(10);
    assert_eq!(text(&l), "╰────────╯");
    assert_eq!(l[0].tone, Tone::Border);
    let m = box_bottom_msg(12, " hi ");
    assert_eq!(text(&m), "╰ hi ──────╯");
    assert_eq!(m[1].tone, Tone::Footer);
    assert_eq!(cols(&box_row_empty(7)), 7);
}

#[test]
fn top_border_titles_query() {
    let l = box_top(30, " Moss ", "hello");
    assert_eq!(text(&l), format!("╭  Moss — hello {}╮", "─".repeat(13)));
    assert_eq!(cols(&l), 30);
    assert!(l[1].bold);
    assert_eq!(l[1].tone, Tone::Title);
}

#[test]
fn key_value_row_pads_value() {
    let l = row_kv(20, "intent", "hello");
    assert_eq!(text(&l), "│ intent   hello   │");
    assert_eq!(cols(&l), 20);
    let cut = row_kv(20, "intent", "a much longer value");
    assert_eq!(text(&cut), "│ intent   a much l│");
}

#[test]
fn separator_and_text_rows() {
    let s = box_sep(12, " Gaps ", Tone::Section);
    assert_eq!(text(&s), "├ Gaps ────┤");
    assert!(s[1].bold);
    let t = row_text(10, "waiting for gaps", Tone::Label);
    assert_eq!(text(&t), "│ waiting│");
    let i = row_input(20, "answer", "ok");
    assert_eq!(text(&i), "│   answer: ok_    │");
}

#[test]
fn state_counts_row() {
    let l = row_states(60, (1, 2, 0, 12));
    let t = text(&l);
    assert!(t.starts_with("│ states   1 blocked │ 2 ready │ 0 running │ 12 done"));
    assert!(t.ends_with("│"));
    assert_eq!(cols(&l), 60);
    assert_eq!(l[2].tone, Tone::Blocked);
    assert!(l[2].bold);
}

#[test]
fn card_rows_fill_the_box() {
    let mut bb = Blackboard::new();
    bb.insert_gap(Gap::new("fetch_price".into(), "d".into(), vec![], None, None)).unwrap();
    bb.insert_gap(Gap::new("convert".into(), "d".into(), vec!["fetch_price".into()], None, None)).unwrap();
    let order = vec!["fetch_price".to_string(), "convert".to_string()];
    let progress = vec![(
        "fetch_price".to_string(),
        ProgressEntry { iteration: 2, max_iterations: 10, step: "code".into(), last_result: None },
    )];
    let lines = card_chunk_lines(&order, 0, 2, &Some(bb.snapshot()), &progress, 78);
    assert_eq!(lines.len(), 6);
    for l in &lines {
        assert_eq!(cols(l), 80);
    }
    let top = text(&lines[0]);
    assert!(top.contains("╭ fetch_price ────────────╮ ╭ convert ────────────────╮"));
    let status = text(&lines[1]);
    assert!(status.contains(&format!("│ status  ready{}│ │ status  blocked{}│", " ".repeat(11), " ".repeat(9))));
    let iter = text(&lines[2]);
    assert!(iter.contains(&format!("│ iter    2/10{}│ │ iter    -{}│", " ".repeat(12), " ".repeat(15))));
    assert!(text(&lines[5]).contains("╰─────────────────────────╯"));
}

#[test]
fn progress_is_replaced_per_gap() {
    let mut v = UiState::new("q".into());
    v.record_progress("a".into(), ProgressEntry { iteration: 1, max_iterations: 10, step: "x".into(), last_result: None });
    v.record_progress("b".into(), ProgressEntry { iteration: 1, max_iterations: 10, step: "y".into(), last_result: None });
    v.record_progress("a".into(), ProgressEntry { iteration: 2, max_iterations: 10, step: "z".into(), last_result: Some("out".into()) });
    assert_eq!(v.progress.len(), 2);
    assert_eq!(v.progress[0].0, "a");
    assert_eq!(v.progress[0].1.iteration, 2);
    assert_eq!(v.progress[0].1.last_result.as_deref(), Some("out"));
}

#[test]
fn approval_reply_ends_the_asking() {
    let mut v = UiState::new("q".into());
    assert!(v.press(Key::Char('y')).is_none());
    assert_eq!(v.input_buf, "");
    v.ask(AttentionKind::Approval, "g".into(), "network".into());
    assert!(v.press(Key::Char(' ')).is_none());
    assert!(v.press(Key::Char('Y')).is_none());
    match v.press(Key::Enter) {
        Some((0, Reply::Approval(ok))) => assert!(ok),
        _ => panic!("expected an approval"),
    }
    assert!(v.asking.is_empty());
    assert_eq!(v.input_buf, "");
}

#[test]
fn question_reply_is_trimmed() {
    let mut v = UiState::new("q".into());
    v.ask(AttentionKind::Question, "g".into(), "which file?".into());
    for c in " a.txt ".chars() {
        v.press(Key::Char(c));
    }
    v.press(Key::Backspace);
    match v.press(Key::Enter) {
        Some((0, Reply::Answer(t))) => assert_eq!(t, "a.txt"),
        _ => panic!("expected an answer"),
    }
}

#[test]
fn snapshot_lists_gaps_and_counts_evidence() {
    let mut bb = Blackboard::new();
    let g = Gap::new("a".into(), "d".into(), vec![], None, None);
    let id = g.gap_id();
    bb.insert_gap(g).unwrap();
    bb.append_evidence(moss::moss::types::Evidence::new(id, "1".into(), moss::moss::types::EvidenceStatus::Success));
    let mut v = UiState::new("q".into());
    v.apply_snapshot(bb.snapshot());
    assert_eq!(v.gap_order, vec!["a".to_string()]);
    assert_eq!(v.evidence_count, 1);
}

#[test]
fn whole_view_layout() {
    let mut v = UiState::new("what is 2+2".into());
    let empty = v.build_lines(40, None);
    assert_eq!(empty.len(), 8);
    assert_eq!(text(&empty[1]), format!("│ intent   (pending){}│", " ".repeat(19)));
    assert_eq!(text(&empty[6]), format!("│ (waiting for gaps\u{2026}){}│", " ".repeat(18)));
    assert_eq!(text(&empty[7]), format!("╰{}╯", "─".repeat(38)));

    let mut bb = Blackboard::new();
    bb.set_intent("add".into());
    bb.insert_gap(Gap::new("sum".into(), "d".into(), vec![], None, None)).unwrap();
    v.apply_snapshot(bb.snapshot());
    v.ask(AttentionKind::Question, "sum".into(), "base?".into());
    let lines = v.build_lines(60, Some(" Press Enter to continue... "));
    // 6 summary lines, 6 card lines and an empty row, 5 attention lines, the bottom border.
    assert_eq!(lines.len(), 19);
    assert_eq!(text(&lines[1]), format!("│ intent   add{}│", " ".repeat(45)));
    assert_eq!(text(&lines[4]), format!("│ pending  0 approvals | 1 questions | 0 evidence{}│", " ".repeat(10)));
    assert!(text(&lines[13]).starts_with("├ Attention "));
    assert!(text(&lines[14]).starts_with("│ ► [1] sum — question"));
    assert!(text(&lines[15]).starts_with("│ sum asks: base?"));
    assert!(text(&lines[17]).starts_with("│ ↑/↓ to switch | Enter to submit"));
    assert!(text(&lines[18]).starts_with("╰ Press Enter to continue... "));
    for l in &lines {
        assert_eq!(cols(l), 60);
    }
    assert_eq!(lines[3][2].tone, Tone::Blocked);
    let _ = GapState::Ready;
}

#[test]
fn welcome_banner() {
    let lines = welcome_lines();
    assert_eq!(lines.len(), 12);
    assert!(lines[0].is_empty());
    assert_eq!(cols(&lines[1]), 81);
    for l in &lines[2..11] {
        assert_eq!(cols(l), 80);
    }
    assert_eq!(text(&lines[8]), format!("│  Local-first AI Operating System{}│", " ".repeat(45)));
    assert_eq!(lines[2][1].tone, Tone::Done);
}

#[test]
fn concurrent_requests_queue_in_arrival_order() {
    let mut v = UiState::new("q".into());
    v.ask(AttentionKind::Approval, "gap_a".into(), "network".into());
    v.ask(AttentionKind::Question, "gap_b".into(), "which file?".into());
    assert_eq!(v.asking.len(), 2);
    assert_eq!(v.asking[0].gap_name, "gap_a");
    assert_eq!(v.asking[1].gap_name, "gap_b");
    assert_eq!(v.selected, 0);
    let lines = v.build_lines(60, None);
    assert!(lines.iter().any(|l| text(l).starts_with("│ ► [1] gap_a — approval")));
    assert!(lines.iter().any(|l| text(l).starts_with("│   [2] gap_b — question")));
    let pending = text(&lines[4]);
    assert!(pending.contains("1 approvals | 1 questions"));
    assert!(v.press(Key::Down).is_none());
    assert_eq!(v.selected, 1);
    for c in "b.txt".chars() {
        v.press(Key::Char(c));
    }
    match v.press(Key::Enter) {
        Some((1, Reply::Answer(t))) => assert_eq!(t, "b.txt"),
        _ => panic!("expected the second request's answer"),
    }
    assert_eq!(v.asking.len(), 1);
    assert_eq!(v.asking[0].gap_name, "gap_a");
    assert_eq!(v.selected, 0);
    assert!(v.press(Key::Up).is_none());
    v.press(Key::Char('y'));
    match v.press(Key::Enter) {
        Some((0, Reply::Approval(ok))) => assert!(ok),
        _ => panic!("expected the first request's approval"),
    }
    assert!(v.asking.is_empty());
}
