use tasklist::status::TodoStatus;
use tasklist::todo::Todo;
use tasklist::todoio::{
    get_all_todos, get_current_id, open_flags, rewrite, set_current_id, truncate_file,
    write_id_to_id_file, write_to_file,
};

#[test]
fn allocation_starts_at_zero_on_an_empty_file() {
    let mut id_file = String::new();
    assert_eq!(get_current_id(&mut id_file).unwrap(), 0);
    assert_eq!(id_file, "1");
}

#[test]
fn consecutive_allocations_increase() {
    let mut id_file = String::from("41");
    let mut last = get_current_id(&mut id_file).unwrap();
    assert_eq!(last, 41);
    for _ in 0..100 {
        let next = get_current_id(&mut id_file).unwrap();
        assert_eq!(next, last + 1);
        last = next;
    }
    assert_eq!(id_file, "142");
}

#[test]
fn allocation_sets_white_space_aside() {
    let mut id_file = String::from("  9\n");
    assert_eq!(get_current_id(&mut id_file).unwrap(), 9);
    assert_eq!(id_file, "10");
    let mut id_file = String::from("\t12\r\n");
    assert_eq!(get_current_id(&mut id_file).unwrap(), 12);
    let mut id_file = String::from("\u{a0}5\u{2003}");
    assert_eq!(get_current_id(&mut id_file).unwrap(), 5);
}

#[test]
fn unreadable_counter_counts_as_zero() {
    for text in ["abc", "-3", "1 2", "3.5", "   ", "99999999999999999999999999"] {
        let mut id_file = String::from(text);
        assert_eq!(get_current_id(&mut id_file).unwrap(), 0);
        assert_eq!(id_file, "1");
    }
}

#[test]
fn allocation_fails_where_no_id_is_left() {
    let mut id_file = usize::MAX.to_string();
    let before = id_file.clone();
    let err = get_current_id(&mut id_file).unwrap_err();
    assert_eq!(err.to_string(), "Todo IO Error: ID counter exhausted");
    assert_eq!(id_file, before);
}

#[test]
fn reset_sets_the_next_allocation() {
    let mut id_file = String::from("77");
    set_current_id(5, &mut id_file);
    assert_eq!(id_file, "5");
    assert_eq!(get_current_id(&mut id_file).unwrap(), 5);
    assert_eq!(get_current_id(&mut id_file).unwrap(), 6);
    set_current_id(0, &mut id_file);
    assert_eq!(get_current_id(&mut id_file).unwrap(), 0);
    write_id_to_id_file(1234, &mut id_file);
    assert_eq!(id_file, "1234");
}

#[test]
fn append_and_truncate() {
    let mut file = String::new();
    write_to_file("one\n", &mut file);
    write_to_file("two\n", &mut file);
    assert_eq!(file, "one\ntwo\n");
    write_to_file("", &mut file);
    assert_eq!(file, "one\ntwo\n");
    truncate_file(&mut file);
    assert_eq!(file, "");
}

#[test]
fn empty_file_holds_no_task() {
    assert!(get_all_todos("").unwrap().is_empty());
}

#[test]
fn load_reads_the_lines_in_order() {
    let file = "5\t0\tfive\t\t\t0\t0\tNew\tWhite\n2\t-1\ttwo\tp\tc\t60\t30\tDone\tRed\n";
    let todos = get_all_todos(file).unwrap();
    assert_eq!(todos.len(), 2);
    assert_eq!(todos[0].get_id(), 5);
    assert_eq!(todos[0].get_description(), "five");
    assert_eq!(todos[1].get_id(), 2);
    assert_eq!(todos[1].get_status(), TodoStatus::Done);
    assert_eq!(todos[1].get_time_estimated(), Some(60));
}

#[test]
fn load_takes_a_last_line_without_line_break_and_windows_line_ends() {
    let file = "5\t0\tfive\t\t\t0\t0\tNew\tWhite\r\n2\t0\ttwo\t\t\t0\t0\tNew\tRed";
    let todos = get_all_todos(file).unwrap();
    assert_eq!(todos.len(), 2);
    assert_eq!(todos[0].get_color(), tasklist::color::TodoColor::White);
    assert_eq!(todos[1].get_color(), tasklist::color::TodoColor::Red);
}

#[test]
fn load_fails_on_an_empty_line() {
    let file = "5\t0\tfive\t\t\t0\t0\tNew\tWhite\n\n";
    let err = get_all_todos(file).unwrap_err();
    assert_eq!(
        err.to_string(),
        "Todo IO Error: Error Parsing Todo: Parsing error: Not seven fields long"
    );
}

#[test]
fn load_fails_as_a_whole_on_the_first_bad_line() {
    let file = "5\t0\tfive\t\t\t0\t0\tNew\tWhite\nx\t0\ttwo\t\t\t0\t0\tNew\tRed\n1\t0\tshort\n";
    let err = get_all_todos(file).unwrap_err();
    assert_eq!(
        err.to_string(),
        "Todo IO Error: Error Parsing Todo: Parsing error: Error parsing x to usize: invalid digit found in string"
    );
}

#[test]
fn rewrite_replaces_the_file_with_the_lines_of_the_tasks() {
    let mut a = Todo::new_with_id(1);
    a.set_description("a");
    let mut b = Todo::new_with_id(0);
    b.set_description("b");
    let mut file = String::from("old content");
    rewrite(&vec![a, b], &mut file);
    assert_eq!(file, "1\t0\ta\t\t\t0\t0\tNew\tWhite\n0\t0\tb\t\t\t0\t0\tNew\tWhite\n");
    rewrite(&Vec::new(), &mut file);
    assert_eq!(file, "");
}

#[test]
fn written_file_loads_again() {
    let mut todos = Vec::new();
    for i in 0..20usize {
        let mut t = Todo::new_with_id(i);
        t.set_priority(i as isize - 10);
        t.set_description(&format!("task {}\twith tab", i));
        t.set_time_estimated(Some(i as u64 * 60));
        t.set_time_actual(Some(i as u64));
        todos.push(t);
    }
    let mut file = String::new();
    rewrite(&todos, &mut file);
    let back = get_all_todos(&file).unwrap();
    assert_eq!(back.len(), todos.len());
    for (a, b) in todos.iter().zip(back.iter()) {
        assert_eq!(a.to_file(), b.to_file());
        assert_eq!(a.get_description(), b.get_description());
    }
}

#[test]
fn open_flags_read_their_letters() {
    let f = open_flags("rwc");
    assert!(f.read && f.write && f.create && !f.append && !f.truncate);
    let f = open_flags("wct");
    assert!(!f.read && f.write && f.create && !f.append && f.truncate);
    let f = open_flags("ac");
    assert!(!f.read && !f.write && f.create && f.append && !f.truncate);
    let f = open_flags("r");
    assert!(f.read && !f.write && !f.create && !f.append && !f.truncate);
    let f = open_flags("");
    assert!(!f.read && !f.write && !f.create && !f.append && !f.truncate);
    let f = open_flags("xyz t");
    assert!(!f.read && !f.write && !f.create && !f.append && f.truncate);
}
