use tasklist::color::{color_to_string, string_to_color_or_white, TodoColor};
use tasklist::error::{ParseTodoError, TodoIOError};
use tasklist::status::TodoStatus;
use tasklist::todo::Todo;

fn sample() -> Todo {
    let mut t = Todo::new_with_id(3);
    t.set_priority(-5);
    t.set_description("buy milk");
    t.set_projects("home");
    t.set_categories("errand");
    t.set_time_estimated(Some(600));
    t.set_time_actual(Some(90));
    t.set_status(TodoStatus::Doing).unwrap();
    t.set_color(TodoColor::Green);
    t
}

fn assert_same(a: &Todo, b: &Todo) {
    assert_eq!(a.get_id(), b.get_id());
    assert_eq!(a.get_priority(), b.get_priority());
    assert_eq!(a.get_description(), b.get_description());
    assert_eq!(a.get_projects(), b.get_projects());
    assert_eq!(a.get_categories(), b.get_categories());
    assert_eq!(a.get_time_estimated(), b.get_time_estimated());
    assert_eq!(a.get_time_actual(), b.get_time_actual());
    assert_eq!(a.get_status(), b.get_status());
    assert_eq!(a.get_color(), b.get_color());
}

#[test]
fn new_task_has_the_defaults() {
    let t = Todo::new();
    assert_eq!(t.get_id(), 0);
    assert_eq!(t.get_priority(), 0);
    assert_eq!(t.get_description(), "");
    assert_eq!(t.get_projects(), "");
    assert_eq!(t.get_categories(), "");
    assert_eq!(t.get_time_estimated(), None);
    assert_eq!(t.get_time_actual(), None);
    assert_eq!(t.get_status(), TodoStatus::New);
    assert_eq!(t.get_color(), TodoColor::White);
    assert!(!t.done());
    assert_same(&t, &Todo::default());
}

#[test]
fn new_with_id_sets_only_the_id() {
    let t = Todo::new_with_id(7);
    assert_eq!(t.get_id(), 7);
    assert_eq!(t.to_file(), "7\t0\t\t\t\t0\t0\tNew\tWhite\n");
}

#[test]
fn to_file_writes_nine_fields_and_a_line_break() {
    assert_eq!(
        sample().to_file(),
        "3\t-5\tbuy milk\thome\terrand\t600\t90\tDoing\tGreen\n"
    );
}

#[test]
fn record_round_trip() {
    let t = sample();
    let line = t.to_file();
    let back = Todo::from_str(line.strip_suffix('\n').unwrap()).unwrap();
    assert_same(&t, &back);
    assert_eq!(back.to_file(), line);
}

#[test]
fn record_round_trip_for_every_status_and_color() {
    let statuses = [
        TodoStatus::New,
        TodoStatus::Backlog,
        TodoStatus::Next,
        TodoStatus::Planned,
        TodoStatus::Doing,
        TodoStatus::Review,
        TodoStatus::Done,
    ];
    let colors = [
        TodoColor::Black,
        TodoColor::Red,
        TodoColor::Green,
        TodoColor::Yellow,
        TodoColor::Blue,
        TodoColor::Purple,
        TodoColor::Cyan,
        TodoColor::White,
    ];
    for (i, status) in statuses.iter().enumerate() {
        for color in colors {
            let mut t = sample();
            t.set_id(i);
            t.set_status(*status).unwrap();
            t.set_color(color);
            let line = t.to_file();
            let back = Todo::from_str(line.strip_suffix('\n').unwrap()).unwrap();
            assert_same(&t, &back);
        }
    }
    let mut t = sample();
    t.set_deleted();
    let back = Todo::from_str(t.to_file().strip_suffix('\n').unwrap()).unwrap();
    assert_eq!(back.get_status(), TodoStatus::Deleted);
}

#[test]
fn absent_durations_are_stored_as_zero_and_read_as_present() {
    let t = Todo::new_with_id(1);
    let back = Todo::from_str(t.to_file().strip_suffix('\n').unwrap()).unwrap();
    assert_eq!(back.get_time_estimated(), Some(0));
    assert_eq!(back.get_time_actual(), Some(0));
}

#[test]
fn record_with_eight_fields_is_refused() {
    let err = Todo::from_str("3\t-5\tbuy milk\thome\terrand\t600\t90\tDoing").unwrap_err();
    assert_eq!(err.to_string(), "Parsing error: Not seven fields long");
    assert!(Todo::from_str("").is_err());
    assert!(Todo::from_str("3\t-5\tbuy milk\thome\terrand\t600\t90\tDoing\tGreen\tmore").is_err());
}

#[test]
fn record_with_a_bad_number_is_refused() {
    let err = Todo::from_str("x\t0\td\tp\tc\t0\t0\tNew\tWhite").unwrap_err();
    assert_eq!(
        err.to_string(),
        "Parsing error: Error parsing x to usize: invalid digit found in string"
    );
    let err = Todo::from_str("1\t1.5\td\tp\tc\t0\t0\tNew\tWhite").unwrap_err();
    assert_eq!(
        err.to_string(),
        "Parsing error: Error parsing 1.5 to isize: invalid digit found in string"
    );
    let err = Todo::from_str("1\t0\td\tp\tc\t\t0\tNew\tWhite").unwrap_err();
    assert_eq!(
        err.to_string(),
        "Parsing error: Error parsing  to u64: cannot parse integer from empty string"
    );
    let err = Todo::from_str("1\t0\td\tp\tc\t0\t-4\tNew\tWhite").unwrap_err();
    assert_eq!(
        err.to_string(),
        "Parsing error: Error parsing -4 to u64: invalid digit found in string"
    );
}

#[test]
fn record_reports_the_first_bad_field() {
    let err = Todo::from_str("x\ty\td\tp\tc\tz\tw\tOpen\tWhite").unwrap_err();
    assert_eq!(
        err.to_string(),
        "Parsing error: Error parsing x to usize: invalid digit found in string"
    );
}

#[test]
fn record_with_an_unknown_status_is_refused() {
    let err = Todo::from_str("1\t0\td\tp\tc\t0\t0\tOpen\tWhite").unwrap_err();
    assert_eq!(err.to_string(), "Parsing error: Todostatus did not match");
    assert!(Todo::from_str("1\t0\td\tp\tc\t0\t0\tnew\tWhite").is_err());
    assert!(Todo::from_str("1\t0\td\tp\tc\t0\t0\tNew \tWhite").is_err());
}

#[test]
fn record_with_an_unknown_color_is_white() {
    let t = Todo::from_str("1\t0\td\tp\tc\t0\t0\tNew\tMauve").unwrap();
    assert_eq!(t.get_color(), TodoColor::White);
    let t = Todo::from_str("1\t0\td\tp\tc\t0\t0\tNew\tred").unwrap();
    assert_eq!(t.get_color(), TodoColor::White);
    let t = Todo::from_str("1\t0\td\tp\tc\t0\t0\tNew\tRed").unwrap();
    assert_eq!(t.get_color(), TodoColor::Red);
}

#[test]
fn text_setters_write_tabs_as_spaces() {
    let mut t = Todo::new();
    t.set_description("a\tb");
    t.set_projects("\tp");
    t.set_categories("c\t");
    assert_eq!(t.get_description(), "a    b");
    assert_eq!(t.get_projects(), "    p");
    assert_eq!(t.get_categories(), "c    ");
    assert_eq!(t.to_file().matches('\t').count(), 8);
}

#[test]
fn setters_from_text_change_the_field_or_nothing() {
    let mut t = sample();
    assert_eq!(t.set_id_from_string("12").unwrap(), 12);
    assert_eq!(t.get_id(), 12);
    assert!(t.set_id_from_string("-1").is_err());
    assert_eq!(t.get_id(), 12);

    assert_eq!(t.set_priority_from_string("-7").unwrap(), -7);
    assert_eq!(t.get_priority(), -7);
    assert!(t.set_priority_from_string("high").is_err());
    assert_eq!(t.get_priority(), -7);

    assert_eq!(t.set_time_estimated_from_string("30").unwrap(), Some(30));
    assert_eq!(t.get_time_estimated(), Some(30));
    assert!(t.set_time_estimated_from_string("1h").is_err());
    assert_eq!(t.get_time_estimated(), Some(30));
}

#[test]
fn set_time_actual_from_string_hands_back_the_estimate() {
    let mut t = sample();
    assert_eq!(t.set_time_actual_from_string("45").unwrap(), Some(600));
    assert_eq!(t.get_time_actual(), Some(45));
    assert_eq!(t.get_time_estimated(), Some(600));
    assert!(t.set_time_actual_from_string("").is_err());
    assert_eq!(t.get_time_actual(), Some(45));
}

#[test]
fn set_status_refuses_deleted() {
    let mut t = sample();
    let err = t.set_status(TodoStatus::Deleted).unwrap_err();
    assert_eq!(err.to_string(), "Parsing error: Not allowed to set Deleted");
    assert_eq!(t.get_status(), TodoStatus::Doing);
    t.set_status(TodoStatus::Done).unwrap();
    assert!(t.done());
}

#[test]
fn set_status_from_string_takes_the_seven_settable_names() {
    let mut t = sample();
    assert_eq!(t.set_status_from_string("Review").unwrap(), TodoStatus::Review);
    assert_eq!(t.get_status(), TodoStatus::Review);
    let err = t.set_status_from_string("Deleted").unwrap_err();
    assert_eq!(err.to_string(), "Parsing error: Not allowed to set Deleted");
    let err = t.set_status_from_string("review").unwrap_err();
    assert_eq!(err.to_string(), "Parsing error: Todostatus did not match");
    assert_eq!(t.get_status(), TodoStatus::Review);
}

#[test]
fn set_deleted_marks_the_task() {
    let mut t = sample();
    t.set_deleted();
    assert_eq!(t.get_status(), TodoStatus::Deleted);
    assert_eq!(t.get_id(), 3);
    assert_eq!(t.get_description(), "buy milk");
}

#[test]
fn set_color_from_string_defaults_to_white() {
    let mut t = sample();
    t.set_color_from_string("Blue");
    assert_eq!(t.get_color(), TodoColor::Blue);
    t.set_color_from_string("blue");
    assert_eq!(t.get_color(), TodoColor::White);
}

#[test]
fn clone_copies_every_field() {
    let t = sample();
    assert_same(&t, &t.clone());
}

#[test]
fn status_names_read_back() {
    let all = [
        (TodoStatus::New, "New"),
        (TodoStatus::Backlog, "Backlog"),
        (TodoStatus::Next, "Next"),
        (TodoStatus::Planned, "Planned"),
        (TodoStatus::Doing, "Doing"),
        (TodoStatus::Review, "Review"),
        (TodoStatus::Done, "Done"),
        (TodoStatus::Deleted, "Deleted"),
    ];
    for (status, name) in all {
        assert_eq!(status.to_string(), name);
        assert_eq!(TodoStatus::from_str(name).unwrap(), status);
    }
    let err = TodoStatus::from_str("Open").unwrap_err();
    assert_eq!(err.to_string(), "Parsing error: Todostatus did not match");
    assert!(TodoStatus::from_str("").is_err());
    assert!(TodoStatus::from_str("DONE").is_err());
}

#[test]
fn status_ranks_follow_the_declared_order() {
    let order = [
        TodoStatus::Done,
        TodoStatus::Backlog,
        TodoStatus::Next,
        TodoStatus::Planned,
        TodoStatus::Doing,
        TodoStatus::Review,
        TodoStatus::New,
        TodoStatus::Deleted,
    ];
    for (i, status) in order.iter().enumerate() {
        assert_eq!(status.rank() as usize, i);
    }
    assert!(TodoStatus::Done < TodoStatus::Backlog);
    assert!(TodoStatus::New < TodoStatus::Deleted);
}

#[test]
fn color_names_read_back() {
    let all = [
        (TodoColor::Black, "Black"),
        (TodoColor::Red, "Red"),
        (TodoColor::Green, "Green"),
        (TodoColor::Yellow, "Yellow"),
        (TodoColor::Blue, "Blue"),
        (TodoColor::Purple, "Purple"),
        (TodoColor::Cyan, "Cyan"),
        (TodoColor::White, "White"),
    ];
    for (color, name) in all {
        assert_eq!(color_to_string(color), name);
        assert_eq!(string_to_color_or_white(name), color);
    }
    assert_eq!(string_to_color_or_white(""), TodoColor::White);
    assert_eq!(string_to_color_or_white("Orange"), TodoColor::White);
}

#[test]
fn errors_show_their_kind_before_the_message() {
    assert_eq!(ParseTodoError::new("bad").to_string(), "Parsing error: bad");
    assert_eq!(TodoIOError::new("gone").to_string(), "Todo IO Error: gone");
    assert_eq!(TodoIOError::new("").to_string(), "Todo IO Error: ");
}
