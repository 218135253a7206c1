use journaldeliver::checkpoint::{
    checkpoint_text, cursor_from_entries, load_cursor, Checkpointer, FLUSH_INTERVAL_MS,
    MAX_CHECKPOINT_CHARS,
};

#[test]
fn checkpoint_text_round_trips() {
    for c in ["s=abc;i=1f;b=9;m=2;t=5;x=7", "C1", "123", "with: colon", ""] {
        let text = checkpoint_text(c).unwrap();
        assert!(text.ends_with("\n\n"));
        assert_eq!(load_cursor(&text), c);
    }
}

#[test]
fn checkpoint_text_holds_position_entry() {
    let text = checkpoint_text("C1").unwrap();
    assert!(text.contains("position: C1"));
}

#[test]
fn missing_or_broken_file_means_no_checkpoint() {
    assert_eq!(load_cursor(""), "");
    assert_eq!(load_cursor("not: [closed"), "");
    assert_eq!(load_cursor("other: value\n"), "");
}

#[test]
fn position_entry_is_found_among_others() {
    let e = vec![
        ("a".to_string(), "1".to_string()),
        ("position".to_string(), "C9".to_string()),
    ];
    assert_eq!(cursor_from_entries(&e), "C9");
    assert_eq!(cursor_from_entries(&vec![]), "");
}

#[test]
fn writes_wait_for_the_interval() {
    let mut cp = Checkpointer::new("", 1000, FLUSH_INTERVAL_MS);
    cp.acknowledge("c1".to_string());
    assert_eq!(cp.poll(1000 + FLUSH_INTERVAL_MS - 1), None);
    assert_eq!(cp.poll(1000 + FLUSH_INTERVAL_MS), Some("c1".to_string()));
    cp.confirm("c1");
    assert_eq!(cp.poll(1_000_000), None);
}

#[test]
fn unchanged_cursor_is_not_written_again() {
    let mut cp = Checkpointer::new("c0", 0, 10);
    assert_eq!(cp.poll(100), None);
    cp.acknowledge("c0".to_string());
    assert_eq!(cp.poll(200), None);
    assert_eq!(cp.flush(), None);
}

#[test]
fn persisted_cursor_is_last_of_many_deliveries() {
    let mut cp = Checkpointer::new("", 0, 1000);
    let mut file = String::new();
    for i in 1..=50u64 {
        cp.acknowledge(format!("c{}", i));
        if let Some(c) = cp.poll(i * 100) {
            file = c.clone();
            cp.confirm(&c);
        }
    }
    if let Some(c) = cp.flush() {
        file = c.clone();
        cp.confirm(&c);
    }
    assert_eq!(file, "c50");
}

#[test]
fn failed_write_is_retried_after_the_interval() {
    let mut cp = Checkpointer::new("", 0, 100);
    cp.acknowledge("c1".to_string());
    assert_eq!(cp.poll(100), Some("c1".to_string()));
    assert_eq!(cp.poll(150), None);
    assert_eq!(cp.poll(200), Some("c1".to_string()));
}

#[test]
fn deeply_nested_or_long_file_means_no_checkpoint() {
    let nested = "- ".repeat(200_000) + "x";
    assert_eq!(load_cursor(&nested), "");
    let padded = format!("position: C1\n#{}\n", "x".repeat(MAX_CHECKPOINT_CHARS));
    assert_eq!(load_cursor(&padded), "");
}

#[test]
fn nesting_within_the_bound_is_parsed_safely() {
    let nested = "- ".repeat(MAX_CHECKPOINT_CHARS / 2 - 1) + "x";
    assert!(nested.chars().count() <= MAX_CHECKPOINT_CHARS);
    assert_eq!(load_cursor(&nested), "");
}
