use tasklist::filter::filter_uppercased;
use tasklist::status::TodoStatus;
use tasklist::todo::Todo;

fn task(status: TodoStatus, description: &str, projects: &str, categories: &str) -> Todo {
    let mut t = Todo::new_with_id(1);
    t.set_description(description);
    t.set_projects(projects);
    t.set_categories(categories);
    if status == TodoStatus::Deleted {
        t.set_deleted();
    } else {
        t.set_status(status).unwrap();
    }
    t
}

#[test]
fn empty_needle_finds_every_task() {
    assert!(Todo::new().filter(""));
    assert!(task(TodoStatus::Done, "a", "b", "c").filter(""));
    assert!(task(TodoStatus::Deleted, "", "", "").filter(""));
}

#[test]
fn status_name_finds_exactly_the_tasks_of_that_status() {
    let all = [
        (TodoStatus::New, "New"),
        (TodoStatus::Backlog, "Backlog"),
        (TodoStatus::Next, "Next"),
        (TodoStatus::Planned, "Planned"),
        (TodoStatus::Doing, "Doing"),
        (TodoStatus::Review, "Review"),
        (TodoStatus::Done, "Done"),
        (TodoStatus::Deleted, "Deleted"),
    ];
    for (status, _) in all {
        let t = task(status, "plain", "", "");
        for (other, name) in all {
            assert_eq!(t.filter(name), status == other);
        }
    }
}

#[test]
fn status_name_does_not_fall_back_to_the_texts() {
    let t = task(TodoStatus::New, "Done deal", "Done", "Done");
    assert!(!t.filter("Done"));
    assert!(t.filter("done"));
    assert!(t.filter("New"));
}

#[test]
fn other_needles_are_sought_in_the_three_texts() {
    let t = task(TodoStatus::New, "buy milk", "home", "errand");
    assert!(t.filter("milk"));
    assert!(t.filter("y m"));
    assert!(t.filter("hom"));
    assert!(t.filter("errand"));
    assert!(!t.filter("work"));
    assert!(!t.filter("buy milk now"));
    assert!(!t.filter("milkhome"));
}

#[test]
fn letter_case_does_not_matter() {
    let t = task(TodoStatus::New, "Buy MILK", "Home", "Errand");
    assert!(t.filter("milk"));
    assert!(t.filter("MiLk"));
    assert!(t.filter("HOME"));
    assert!(t.filter("errAND"));
    let u = task(TodoStatus::New, "stra\u{df}e", "", "");
    assert!(u.filter("STRASSE"));
    assert!(u.filter("stra\u{df}e"));
}

#[test]
fn filter_from_uppercased_texts() {
    assert!(filter_uppercased(TodoStatus::New, "milk", "MILK", "BUY MILK", "", ""));
    assert!(filter_uppercased(TodoStatus::New, "home", "HOME", "", "AT HOME", ""));
    assert!(filter_uppercased(TodoStatus::New, "x", "X", "", "", "X"));
    assert!(!filter_uppercased(TodoStatus::New, "milk", "MILK", "buy milk", "", ""));
    assert!(filter_uppercased(TodoStatus::Doing, "Doing", "DOING", "", "", ""));
    assert!(!filter_uppercased(TodoStatus::New, "Doing", "DOING", "DOING", "DOING", "DOING"));
    assert!(filter_uppercased(TodoStatus::New, "", "anything", "", "", ""));
}
