use taskn::commands::Command;
use taskn::edit::tag_update;
use taskn::opt::Opt;
use taskn::order::{execute, parse_usize, tasks_ordered, OrderError};
use taskn::remind::{self, has_reminder_uda, reminder_uda_line, ReminderSource};
use taskn::task::{has_visible_text, ParsableDateTime, Task};

fn task(id: usize, uuid: &str, estimate: Option<i32>) -> Task {
    Task {
        id,
        description: format!("task {}", uuid),
        uuid: uuid.to_string(),
        status: "pending".to_string(),
        estimate,
        tags: None,
        wait: None,
        taskn_reminder_uuid: None,
    }
}

fn strings(v: &[&str]) -> Vec<String> {
    v.iter().map(|s| s.to_string()).collect()
}

fn ordered() -> Vec<Task> {
    tasks_ordered(vec![task(7, "g", Some(2)), task(5, "e", Some(0)), task(6, "f", Some(1))])
}

#[test]
fn command_names_parse() {
    assert_eq!("edit".parse::<Command>(), Ok(Command::Edit));
    assert_eq!("interactive".parse::<Command>(), Ok(Command::Interactive));
    assert_eq!(Command::parse("order"), Ok(Command::Order));
    assert_eq!(Command::parse("remind"), Ok(Command::Remind));
    assert_eq!(
        Command::parse("nope"),
        Err("failed to parse Command from 'nope'".to_string())
    );
}

#[test]
fn editor_falls_back_to_environment_then_vi() {
    let o = Opt::from_args(
        Some("nano".to_string()),
        Some("emacs".to_string()),
        "md".to_string(),
        "/notes".to_string(),
        Command::Edit,
        strings(&["+work"]),
    );
    assert_eq!(o.editor, "nano");
    assert_eq!(o.root_dir, "/notes");
    assert_eq!(o.file_format, "md");
    assert_eq!(o.args, strings(&["+work"]));
    let o = Opt::from_args(None, Some("emacs".to_string()), "md".to_string(), "x".to_string(), Command::Edit, vec![]);
    assert_eq!(o.editor, "emacs");
    let o = Opt::from_args(None, None, "txt".to_string(), "~user/x".to_string(), Command::Order, vec![]);
    assert_eq!(o.editor, "vi");
    assert_eq!(o.root_dir, "~user/x");
    assert_eq!(o.command, Command::Order);
}

#[test]
fn root_dir_tilde_keeps_rest_of_path() {
    let o = Opt::from_args(None, None, "md".to_string(), "~/.taskn".to_string(), Command::Edit, vec![]);
    assert!(o.root_dir.ends_with("/.taskn"));
}

#[test]
fn order_without_arguments_renumbers() {
    let r = execute(ordered(), &vec![]).unwrap();
    let keys: Vec<(usize, Option<i32>)> = r.iter().map(|t| (t.id, t.estimate)).collect();
    assert_eq!(keys, vec![(5, Some(0)), (6, Some(1)), (7, Some(2))]);
}

#[test]
fn order_moves_task_to_position() {
    let r = execute(ordered(), &strings(&["7", "0"])).unwrap();
    let keys: Vec<(usize, Option<i32>)> = r.iter().map(|t| (t.id, t.estimate)).collect();
    assert_eq!(keys, vec![(7, Some(0)), (5, Some(1)), (6, Some(2))]);
    let r = execute(ordered(), &strings(&["5", "2"])).unwrap();
    let ids: Vec<usize> = r.iter().map(|t| t.id).collect();
    assert_eq!(ids, vec![6, 7, 5]);
}

#[test]
fn order_refuses_bad_requests() {
    assert_eq!(execute(ordered(), &strings(&["7"])).err(), Some(OrderError::ArgumentCount));
    assert_eq!(execute(ordered(), &strings(&["x", "1"])).err(), Some(OrderError::InvalidNumber));
    assert_eq!(execute(ordered(), &strings(&["7", "-1"])).err(), Some(OrderError::InvalidNumber));
    assert_eq!(execute(ordered(), &strings(&["7", "3"])).err(), Some(OrderError::PositionOutOfRange));
    assert_eq!(execute(ordered(), &strings(&["9", "1"])).err(), Some(OrderError::UnknownTask));
}

#[test]
fn save_writes_every_field() {
    let mut t = task(1, "u-1", Some(-12));
    t.status = "done".to_string();
    assert_eq!(
        t.save(),
        strings(&["u-1", "modify", "task u-1", "status:done", "estimate:-12", "wait:", "taskn_reminder_uuid:"])
    );
    t.estimate = None;
    t.taskn_reminder_uuid = Some("r-9".to_string());
    t.wait = ParsableDateTime::parse("20210501T120000Z");
    assert_eq!(
        t.save(),
        strings(&[
            "u-1",
            "modify",
            "task u-1",
            "status:done",
            "estimate:",
            "wait:20210501T120000Z",
            "taskn_reminder_uuid:r-9"
        ])
    );
    t.estimate = Some(i32::MIN);
    assert_eq!(t.save()[4], "estimate:-2147483648");
}

#[test]
fn timestamps_are_written_zero_padded() {
    let d = ParsableDateTime { year: 987, month: 1, day: 2, hour: 3, minute: 4, second: 5 };
    assert_eq!(d.to_text(), "09870102T030405Z");
    let p = ParsableDateTime::parse("20211231T235958Z").unwrap();
    assert_eq!(p.to_text(), "20211231T235958Z");
}

#[test]
fn numbers_parse_as_usize_does() {
    assert_eq!(parse_usize("42"), Some(42));
    assert_eq!(parse_usize("+7"), Some(7));
    assert_eq!(parse_usize("007"), Some(7));
    assert_eq!(parse_usize("18446744073709551615"), Some(usize::MAX));
    assert_eq!(parse_usize("18446744073709551616"), None);
    assert_eq!(parse_usize(""), None);
    assert_eq!(parse_usize("+"), None);
    assert_eq!(parse_usize("-1"), None);
    assert_eq!(parse_usize(" 1"), None);
    assert_eq!(parse_usize("1x"), None);
    for text in ["0", "+12", "99999", "", "+", "++1", "12a"] {
        assert_eq!(parse_usize(text), text.parse::<usize>().ok());
    }
}

#[test]
fn estimate_and_reminder_arguments() {
    let t = task(1, "u-2", None);
    assert_eq!(t.set_estimate(Some(305)), strings(&["u-2", "modify", "estimate:305"]));
    assert_eq!(t.set_estimate(None), strings(&["u-2", "modify", "estimate:"]));
    assert_eq!(t.set_reminder_uuid("abc"), strings(&["u-2", "modify", "taskn_reminder_uuid:abc"]));
}

#[test]
fn timestamps_parse_in_store_format() {
    let p = ParsableDateTime::parse("20210112T083005Z").unwrap();
    assert_eq!((p.year, p.month, p.day, p.hour, p.minute, p.second), (2021, 1, 12, 8, 30, 5));
    assert_eq!(ParsableDateTime::parse("2021-01-12"), None);
    assert_eq!(ParsableDateTime::parse("20211312T083005Z"), None);
}

#[test]
fn tags_are_matched_exactly() {
    let mut t = task(1, "u", None);
    assert!(!t.has_tag("taskn"));
    t.tags = Some(strings(&["work", "taskn"]));
    assert!(t.has_tag("taskn"));
    assert!(!t.has_tag("task"));
}

#[test]
fn note_visibility_ignores_white_space() {
    assert!(!has_visible_text(""));
    assert!(!has_visible_text(" \n\t\u{3000}\n"));
    assert!(has_visible_text("\n  x\n"));
    assert!(has_visible_text("\u{200b}"));
    assert!(!has_visible_text("\u{85}\u{a0}\u{2029}"));
}

#[test]
fn taskn_tag_follows_note() {
    let mut t = task(1, "u-3", None);
    assert_eq!(tag_update(&t, true), Some(strings(&["u-3", "modify", "+taskn"])));
    assert_eq!(tag_update(&t, false), None);
    t.tags = Some(strings(&["taskn"]));
    assert_eq!(tag_update(&t, false), Some(strings(&["u-3", "modify", "-taskn"])));
    assert_eq!(tag_update(&t, true), None);
}

#[test]
fn reminder_steps_and_filter() {
    assert_eq!(
        remind::task_filter(strings(&["+home"])),
        strings(&["+home", "+remindme", "(status:pending or status:waiting)"])
    );
    let mut a = task(1, "a", None);
    a.taskn_reminder_uuid = Some("rem-a".to_string());
    let b = task(2, "b", None);
    let steps = remind::execute(&vec![a, b]);
    assert_eq!(steps.len(), 2);
    assert!(matches!(&steps[0].source, ReminderSource::Existing(u) if u == "rem-a"));
    assert!(!steps[0].commit);
    match &steps[1].source {
        ReminderSource::New { title, notes, due } => {
            assert_eq!(title, "task b");
            assert_eq!(notes, "b");
            assert_eq!(*due, None);
        }
        _ => panic!("expected a new reminder"),
    }
    assert!(steps[1].commit);
}

#[test]
fn reminder_attribute_line_is_found() {
    let line = reminder_uda_line();
    assert_eq!(line, "uda.taskn_reminder_uuid.type=string");
    assert!(!has_reminder_uda(&strings(&["color=on"])));
    assert!(has_reminder_uda(&strings(&["color=on", "uda.taskn_reminder_uuid.type=string"])));
}
