use tasklist::color::TodoColor;
use tasklist::display::duration_to_human_string;
use tasklist::status::TodoStatus;
use tasklist::todo::Todo;

#[test]
fn durations_leave_out_what_is_zero() {
    assert_eq!(duration_to_human_string(0), "");
    assert_eq!(duration_to_human_string(5), "05s");
    assert_eq!(duration_to_human_string(59), "59s");
    assert_eq!(duration_to_human_string(60), "01m");
    assert_eq!(duration_to_human_string(61), "01m01s");
    assert_eq!(duration_to_human_string(3600), "01h");
    assert_eq!(duration_to_human_string(3723), "01h02m03s");
    assert_eq!(duration_to_human_string(36000), "10h");
    assert_eq!(duration_to_human_string(360000 + 59), "100h59s");
    assert_eq!(duration_to_human_string(u64::MAX), "5124095576030431h15s");
}

#[test]
fn row_of_a_new_task() {
    let t = Todo::new_with_id(1);
    assert!(!t.shows_ratio());
    assert_eq!(t.display(""), "\u{1b}[37m1\tNew\t0\t\t\t\t\t\t\u{1b}[0m");
    assert_eq!(t.display("ignored"), "\u{1b}[37m1\tNew\t0\t\t\t\t\t\t\u{1b}[0m");
}

#[test]
fn row_with_times_and_ratio() {
    let mut t = Todo::new_with_id(2);
    t.set_priority(-3);
    t.set_description("desc");
    t.set_projects("proj");
    t.set_categories("cat");
    t.set_time_estimated(Some(60));
    t.set_time_actual(Some(90));
    t.set_status(TodoStatus::Doing).unwrap();
    t.set_color(TodoColor::Red);
    assert!(t.shows_ratio());
    assert_eq!(
        t.display("1.50"),
        "\u{1b}[31m2\tDoing\t-3\tdesc\tproj\tcat\t01m\t01m30s\t30s/1.50\u{1b}[0m"
    );
    t.set_time_estimated(Some(90));
    t.set_time_actual(Some(60));
    assert_eq!(
        t.display("0.67"),
        "\u{1b}[31m2\tDoing\t-3\tdesc\tproj\tcat\t01m30s\t01m\t30s/0.67\u{1b}[0m"
    );
    t.set_time_actual(Some(90));
    assert_eq!(
        t.display("1.00"),
        "\u{1b}[31m2\tDoing\t-3\tdesc\tproj\tcat\t01m30s\t01m30s\t/1.00\u{1b}[0m"
    );
}

#[test]
fn row_shows_no_ratio_where_a_time_is_missing() {
    let mut t = Todo::new_with_id(2);
    t.set_time_estimated(Some(60));
    assert!(!t.shows_ratio());
    assert_eq!(t.display("9.99"), "\u{1b}[37m2\tNew\t0\t\t\t\t01m\t\t\u{1b}[0m");
    t.set_time_estimated(Some(0));
    t.set_time_actual(Some(30));
    assert!(!t.shows_ratio());
    assert_eq!(t.display("9.99"), "\u{1b}[37m2\tNew\t0\t\t\t\t\t30s\t\u{1b}[0m");
}

#[test]
fn row_of_a_done_task_is_white() {
    let mut t = Todo::new_with_id(4);
    t.set_color(TodoColor::Blue);
    assert!(t.display("").starts_with("\u{1b}[34m"));
    t.set_status(TodoStatus::Done).unwrap();
    assert_eq!(t.display(""), "\u{1b}[37m4\tDone\t0\t\t\t\t\t\t\u{1b}[0m");
}

#[test]
fn rows_are_painted_as_the_terminal_library_paints() {
    let pairs = [
        (TodoColor::Black, ansi_term::Colour::Black),
        (TodoColor::Red, ansi_term::Colour::Red),
        (TodoColor::Green, ansi_term::Colour::Green),
        (TodoColor::Yellow, ansi_term::Colour::Yellow),
        (TodoColor::Blue, ansi_term::Colour::Blue),
        (TodoColor::Purple, ansi_term::Colour::Purple),
        (TodoColor::Cyan, ansi_term::Colour::Cyan),
        (TodoColor::White, ansi_term::Colour::White),
    ];
    for (i, (ours, theirs)) in pairs.iter().enumerate() {
        let mut t = Todo::new_with_id(i);
        t.set_color(*ours);
        let plain = format!("{}\tNew\t0\t\t\t\t\t\t", i);
        assert_eq!(t.display(""), theirs.paint(plain.clone()).to_string());
        assert_eq!(t.display(""), format!("\u{1b}[3{}m{}\u{1b}[0m", i, plain));
    }
}
