use name_formatter::monitor::{Action, Monitor};

fn written(action: Action) -> Option<String> {
    match action {
        Action::Leave => None,
        Action::Write(code) => Some(code),
    }
}

fn read(text: &str) -> Option<String> {
    Some(text.to_string())
}

#[test]
fn new_monitor_has_seen_nothing() {
    assert_eq!(*Monitor::new().last_content(), None);
}

#[test]
fn first_reading_is_formatted() {
    let mut monitor = Monitor::new();
    let action = monitor.observe(read("Michael Johnson, USA"));
    assert_eq!(written(action), read("JohnMich"));
    assert_eq!(*monitor.last_content(), read("JohnMich"));
}

#[test]
fn first_reading_without_code_is_remembered() {
    let mut monitor = Monitor::new();
    let action = monitor.observe(read("JustOneWord"));
    assert_eq!(written(action), None);
    assert_eq!(*monitor.last_content(), read("JustOneWord"));
}

#[test]
fn failed_read_changes_nothing() {
    let mut monitor = Monitor::new();
    assert_eq!(written(monitor.observe(None)), None);
    assert_eq!(*monitor.last_content(), None);
    monitor.observe(read("some text"));
    assert_eq!(written(monitor.observe(None)), None);
    assert_eq!(*monitor.last_content(), read("some text"));
}

#[test]
fn own_writing_is_not_answered() {
    let mut monitor = Monitor::new();
    let code = written(monitor.observe(read("Cher, USA"))).unwrap();
    assert_eq!(code, "CherCher");
    for _ in 0..3 {
        assert_eq!(written(monitor.observe(Some(code.clone()))), None);
        assert_eq!(*monitor.last_content(), Some(code.clone()));
    }
}

#[test]
fn unchanged_text_is_skipped() {
    let mut monitor = Monitor::new();
    monitor.observe(read("plain text"));
    assert_eq!(written(monitor.observe(read("plain text"))), None);
    assert_eq!(*monitor.last_content(), read("plain text"));
}

#[test]
fn same_name_copied_again_is_formatted_again() {
    let mut monitor = Monitor::new();
    assert_eq!(written(monitor.observe(read("Al Lee, USA"))), read("LeeAl"));
    assert_eq!(written(monitor.observe(read("LeeAl"))), None);
    assert_eq!(written(monitor.observe(read("Al Lee, USA"))), read("LeeAl"));
    assert_eq!(*monitor.last_content(), read("LeeAl"));
}

#[test]
fn failed_write_is_caught_up_at_the_next_reading() {
    let mut monitor = Monitor::new();
    assert_eq!(written(monitor.observe(read("Al Lee, USA"))), read("LeeAl"));
    assert_eq!(written(monitor.observe(read("Al Lee, USA"))), read("LeeAl"));
}

#[test]
fn readings_in_turn() {
    let mut monitor = Monitor::new();
    assert_eq!(written(monitor.observe(read("hello"))), None);
    assert_eq!(written(monitor.observe(read("hello"))), None);
    assert_eq!(written(monitor.observe(read("Jane Doe, CAN"))), read("DoeJane"));
    assert_eq!(written(monitor.observe(read("DoeJane"))), None);
    assert_eq!(written(monitor.observe(None)), None);
    assert_eq!(written(monitor.observe(read(","))), None);
    assert_eq!(*monitor.last_content(), read(","));
    assert_eq!(written(monitor.observe(read(" ,"))), None);
    assert_eq!(*monitor.last_content(), read(" ,"));
    assert_eq!(written(monitor.observe(read(""))), None);
    assert_eq!(*monitor.last_content(), read(""));
}

#[test]
fn text_without_a_name_is_left_on_the_clipboard() {
    for blank in [",", " ,", "   , John", "no comma here", ""] {
        let mut monitor = Monitor::new();
        assert_eq!(written(monitor.observe(read(blank))), None);
        assert_eq!(*monitor.last_content(), read(blank));
    }
}
