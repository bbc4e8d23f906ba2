use rswatch::inbox::InterruptInbox;
use rswatch::instant::{has_changed, Timestamp};
use rswatch::prompt::{confirms_exit, is_affirmative, response};
use rswatch::report::{executing, say, say_all, say_changed, say_if, Line};

#[test]
fn new_inbox_is_empty() {
    let mut inbox = InterruptInbox::new();
    assert!(inbox.is_empty());
    assert!(!inbox.take());
    assert!(inbox.is_empty());
}

#[test]
fn three_interrupts_are_one_event() {
    let mut inbox = InterruptInbox::new();
    inbox.deliver();
    inbox.deliver();
    inbox.deliver();
    assert!(inbox.take());
    assert!(!inbox.is_empty());
    inbox.drain();
    assert!(inbox.is_empty());
    assert!(!inbox.take());
}

#[test]
fn take_removes_one_interrupt_at_a_time() {
    let mut inbox = InterruptInbox::new();
    inbox.deliver();
    inbox.deliver();
    assert!(inbox.take());
    assert!(inbox.take());
    assert!(!inbox.take());
}

#[test]
fn interrupt_after_drain_is_seen() {
    let mut inbox = InterruptInbox::new();
    inbox.deliver();
    inbox.drain();
    inbox.deliver();
    assert!(inbox.take());
    assert!(inbox.is_empty());
}

#[test]
fn answers_that_confirm() {
    for answer in ["y", "y\n", "Y\n", "yes\n", "YES", "Yikes", "y\r\n", "Yes\r\n"] {
        assert!(confirms_exit(answer), "{:?}", answer);
    }
}

#[test]
fn empty_response_confirms() {
    for answer in ["\n", "\r\n", ""] {
        assert!(confirms_exit(answer), "{:?}", answer);
    }
}

#[test]
fn answers_that_do_not_confirm() {
    for answer in ["n\n", "N", " y", "no", "ok", "\ty", " \n", "\n\n", "\r", "\n\r", "n\r\n", "\ny\n"] {
        assert!(!confirms_exit(answer), "{:?}", answer);
    }
}

#[test]
fn response_is_the_line_without_its_line_break() {
    assert_eq!(response("yes\n"), "yes");
    assert_eq!(response("yes\r\n"), "yes");
    assert_eq!(response("yes"), "yes");
    assert_eq!(response("\n"), "");
    assert_eq!(response("\r\n"), "");
    assert_eq!(response(""), "");
    assert_eq!(response("a\n\n"), "a\n");
    assert_eq!(response("a\r"), "a\r");
    assert_eq!(response("a\r\r\n"), "a\r");
    assert_eq!(response("\u{e9}t\u{e9}\n"), "\u{e9}t\u{e9}");
}

#[test]
fn affirmative_looks_at_the_lowered_text() {
    assert!(is_affirmative("Y", "y"));
    assert!(is_affirmative("Y\n", "y"));
    assert!(!is_affirmative("Y", "Y"));
    assert!(!is_affirmative("x", ""));
    assert!(!is_affirmative("ay", "ay"));
    assert!(!is_affirmative("n\n", "n"));
}

#[test]
fn affirmative_takes_an_empty_response_whatever_its_lowered_form() {
    assert!(is_affirmative("", ""));
    assert!(is_affirmative("", "n"));
    assert!(is_affirmative("\n", "\n"));
    assert!(is_affirmative("\n", ""));
    assert!(is_affirmative("\r\n", "n"));
}

#[test]
fn later_is_changed_equal_and_earlier_are_not() {
    let since = Timestamp::new(1_000);
    assert!(has_changed(since, Some(Timestamp::new(1_001))));
    assert!(!has_changed(since, Some(Timestamp::new(1_000))));
    assert!(!has_changed(since, Some(Timestamp::new(999))));
    assert!(!has_changed(since, None));
    assert!(has_changed(Timestamp::new(-5), Some(Timestamp::new(-4))));
    assert!(!has_changed(Timestamp::new(i128::MAX), Some(Timestamp::new(i128::MAX))));
    assert!(has_changed(Timestamp::new(i128::MIN), Some(Timestamp::new(i128::MAX))));
}

#[test]
fn timestamps_compare_and_pick_the_latest() {
    let a = Timestamp::new(10);
    let b = Timestamp::new(20);
    assert!(b.is_after(&a));
    assert!(!a.is_after(&b));
    assert!(!a.is_after(&a));
    assert_eq!(a.latest(b), b);
    assert_eq!(b.latest(a), b);
    assert_eq!(a.latest(a), a);
    assert_eq!(a.nanos, 10);
}

#[test]
fn lines_are_collected_in_order() {
    let mut lines = Vec::new();
    say(&mut lines, Line::Killing);
    say_if(&mut lines, false, Line::Waiting);
    say_if(&mut lines, true, Line::Exited(3));
    say_changed(&mut lines, &vec!["a".to_string(), "b".to_string()]);
    say_all(&mut lines, vec![Line::NoCommand, executing(&vec!["ls".to_string()])]);
    assert_eq!(
        lines,
        vec![
            Line::Killing,
            Line::Exited(3),
            Line::Changed("a".to_string()),
            Line::Changed("b".to_string()),
            Line::NoCommand,
            Line::Executing(vec!["ls".to_string()]),
        ]
    );
}

#[test]
fn warnings_are_told_apart_from_diagnostics() {
    let text = |s: &str| s.to_string();
    let warnings = vec![
        Line::NoCommand,
        Line::KillFailed(text("a")),
        Line::WaitFailed(text("b")),
        Line::PollFailed(text("c")),
        Line::SpawnFailed { program: text("p"), reason: text("d") },
        Line::NoMetadata { path: text("q"), reason: text("e") },
        Line::NoListing(text("f")),
        Line::NoModificationDate,
    ];
    for line in &warnings {
        assert!(line.is_warning(), "{:?}", line);
    }
    let others = vec![
        Line::Changed(text("x")),
        Line::Killing,
        Line::Waiting,
        Line::Exited(1),
        Line::Executing(vec![text("ls")]),
    ];
    for line in &others {
        assert!(!line.is_warning(), "{:?}", line);
    }
}
