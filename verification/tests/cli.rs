use moss::cli::{read_command, Command};
use moss::cli::{
    cards_left_pad, cards_per_row, count_states, gap_state_label, handle_key, merge_gap_order,
    pad_truncate, AttentionKind, Key, Reply,
};
use moss::moss::blackboard::Blackboard;
use moss::moss::types::{Gap, GapState};

#[test]
fn state_labels() {
    assert_eq!(gap_state_label(&GapState::Blocked), "blocked");
    assert_eq!(gap_state_label(&GapState::Ready), "ready");
    assert_eq!(gap_state_label(&GapState::Assigned), "running");
    assert_eq!(gap_state_label(&GapState::Closed), "done");
}

#[test]
fn pad_truncate_gives_exact_width() {
    assert_eq!(pad_truncate("abc", 5), "abc  ");
    assert_eq!(pad_truncate("abcdef", 3), "abc");
    assert_eq!(pad_truncate("héllo", 5), "héllo");
    assert_eq!(pad_truncate("", 0), "");
}

#[test]
fn card_layout() {
    assert_eq!(cards_per_row(10), 1);
    assert_eq!(cards_per_row(83), 3);
    assert_eq!(cards_left_pad(2, 78), (78 - 55) / 2);
    assert_eq!(cards_left_pad(3, 10), 0);
}

#[test]
fn gap_order_keeps_first_seen_order() {
    let mut bb = Blackboard::new();
    bb.insert_gap(Gap::new("a".into(), "d".into(), vec![], None, None)).unwrap();
    let mut order = vec!["z".to_string(), "a".to_string()];
    merge_gap_order(&mut order, &bb.snapshot());
    assert_eq!(order, vec!["z".to_string(), "a".to_string()]);
    bb.insert_gap(Gap::new("b".into(), "d".into(), vec!["a".into()], None, None)).unwrap();
    merge_gap_order(&mut order, &bb.snapshot());
    assert_eq!(order, vec!["z".to_string(), "a".to_string(), "b".to_string()]);
    assert_eq!(count_states(&bb.snapshot()), (1, 1, 0, 0));
}

#[test]
fn keys_edit_and_answer() {
    let mut buf = String::new();
    assert!(handle_key(&mut buf, None, Key::Char('x')).is_none());
    assert_eq!(buf, "");
    handle_key(&mut buf, Some(AttentionKind::Approval), Key::Char(' '));
    handle_key(&mut buf, Some(AttentionKind::Approval), Key::Char('Y'));
    handle_key(&mut buf, Some(AttentionKind::Approval), Key::Char('z'));
    handle_key(&mut buf, Some(AttentionKind::Approval), Key::Backspace);
    match handle_key(&mut buf, Some(AttentionKind::Approval), Key::Enter) {
        Some(Reply::Approval(b)) => assert!(b),
        _ => panic!("expected approval"),
    }
    assert_eq!(buf, "");
    handle_key(&mut buf, Some(AttentionKind::Approval), Key::Char('n'));
    assert!(matches!(handle_key(&mut buf, Some(AttentionKind::Approval), Key::Enter), Some(Reply::Approval(false))));
    for c in " config.yaml ".chars() {
        handle_key(&mut buf, Some(AttentionKind::Question), Key::Char(c));
    }
    match handle_key(&mut buf, Some(AttentionKind::Question), Key::Enter) {
        Some(Reply::Answer(a)) => assert_eq!(a, "config.yaml"),
        _ => panic!("expected answer"),
    }
}

#[test]
fn prompt_line_commands() {
    assert!(matches!(read_command(""), Command::Nothing));
    assert!(matches!(read_command("  \t"), Command::Nothing));
    assert!(matches!(read_command("exit"), Command::Quit));
    assert!(matches!(read_command("quit  "), Command::Quit));
    match read_command("  price of btc \n") {
        Command::Query(q) => assert_eq!(q, "  price of btc"),
        _ => panic!("expected a query"),
    }
    assert!(matches!(read_command(" exit"), Command::Query(_)));
}

#[test]
fn pad_truncate_counts_terminal_columns() {
    assert_eq!(pad_truncate("日本", 3), "日 ");
    assert_eq!(pad_truncate("日本", 4), "日本");
    assert_eq!(pad_truncate("日本", 6), "日本  ");
    assert_eq!(pad_truncate("a日", 2), "a ");
}
