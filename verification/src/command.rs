//! The commands of the tracker, each working on the text of the task file
//! and of the id file and reporting what the user is to see.

use vstd::prelude::*;
use vstd::string::StringExecFns;
use crate::color::color_named;
use crate::error::ParseTodoError;
use crate::numeral::{IntErrorKind, decimal, parse_int, parse_unsigned};
use crate::order::{sort_todos, sorted, views};
use crate::parse::{int_error_str, int_error_text, int_failure};
use crate::record::{TodoView, default_view, record_line};
use crate::status::{TodoStatus, status_named};
use crate::text::{expand_tabs, join, join_from, str_eq, texts};
use crate::todo::Todo;
use crate::todoio::{allocation, exhausted, file_text, get_all_todos, get_current_id, load, rewrite, set_current_id, truncate_file, write_to_file};

verus! {

/// What a command tells the user.
#[derive(Debug)]
pub struct Report {
    /// Whether the usage text is to be shown, after the notices.
    pub help: bool,
    /// Messages, in the order in which they arose.
    pub notices: Vec<String>,
    /// The tasks to show in a table under the column header, in this order;
    /// `None` where no table is shown.
    pub listing: Option<Vec<Todo>>,
}

/// What a report holds.
pub struct ReportView {
    pub help: bool,
    pub notices: Seq<Seq<char>>,
    pub listing: Option<Seq<TodoView>>,
}

impl View for Report {
    type V = ReportView;

    open spec fn view(&self) -> ReportView {
        ReportView {
            help: self.help,
            notices: texts(self.notices@),
            listing: match self.listing {
                Some(rows) => Some(views(rows@)),
                None => None,
            },
        }
    }
}

/// The report of a command that was given too few arguments: the usage text
/// and nothing else.
pub open spec fn usage() -> ReportView {
    ReportView { help: true, notices: Seq::empty(), listing: None }
}

/// The report of a command that was given an argument it cannot use: what is
/// wrong with it, and the usage text.
pub open spec fn usage_with(m: Seq<char>) -> ReportView {
    ReportView { help: true, notices: seq![m], listing: None }
}

/// The report of a command that failed: one message.
pub open spec fn failure(m: Seq<char>) -> ReportView {
    ReportView { help: false, notices: seq![m], listing: None }
}

/// The report of a command that has nothing to say.
pub open spec fn quiet() -> ReportView {
    ReportView { help: false, notices: Seq::empty(), listing: None }
}

/// The message for a task file that does not load, where the load fails with `m`.
pub open spec fn reading_failed(m: Seq<char>) -> Seq<char> {
    "Reading Todos failed: "@ + ("Todo IO Error: "@ + m)
}

/// The message for an id that is no number.
pub open spec fn bad_id(k: IntErrorKind) -> Seq<char> {
    "Error: "@ + int_error_text(k)
}

/// A report without a table: the usage text or not, and at most one message.
fn report(help: bool, notice: Option<String>) -> (r: Report)
    ensures
        r@.help == help,
        r@.listing is None,
        r@.notices == match notice {
            Some(m) => seq![m@],
            None => Seq::empty(),
        },
{
    let mut notices: Vec<String> = Vec::new();
    match notice {
        Some(m) => {
            notices.push(m);
            assert(texts(notices@) == seq![m@]);
        },
        None => {
            assert(texts(notices@) == Seq::<Seq<char>>::empty());
        },
    }
    Report { help, notices, listing: None }
}

/// Loads the task file, or reports why it does not load.
fn load_or_report(todo_file: &str) -> (r: Result<Vec<Todo>, Report>)
    ensures
        match load(todo_file@) {
            Ok(ts) => r is Ok && views(r->Ok_0@) == ts,
            Err(m) => r is Err && r->Err_0@ == failure(reading_failed(m)),
        },
{
    match get_all_todos(todo_file) {
        Ok(v) => Ok(v),
        Err(err) => {
            let mut m = String::from_str("Reading Todos failed: ");
            m.append(err.to_string().as_str());
            Err(report(false, Some(m)))
        },
    }
}

/// Reads the id that a command was given, or reports that it is no number.
fn id_or_report(s: &str) -> (r: Result<usize, Report>)
    ensures
        match parse_int(s@, false, 0, usize::MAX as int) {
            Ok(id) => r is Ok && r->Ok_0 == id,
            Err(k) => r is Err && r->Err_0@ == usage_with(bad_id(k)),
        },
{
    match parse_unsigned(s, usize::MAX as u64) {
        Ok(v) => Ok(v as usize),
        Err(k) => {
            let mut m = String::from_str("Error: ");
            m.append(int_error_str(k));
            Err(report(true, Some(m)))
        },
    }
}

/// The fields of a task that the `set` command can change.
#[derive(Debug, Clone, Copy, PartialEq, Eq, Structural)]
pub enum Field {
    Priority,
    Description,
    Projects,
    Categories,
    TimeEstimated,
    TimeActual,
    Status,
    Color,
}

/// The field that the `set` command knows under `name`, if any.
pub open spec fn field_named(name: Seq<char>) -> Option<Field> {
    if name == "prio"@ {
        Some(Field::Priority)
    } else if name == "desc"@ {
        Some(Field::Description)
    } else if name == "proj"@ {
        Some(Field::Projects)
    } else if name == "cat"@ {
        Some(Field::Categories)
    } else if name == "est"@ {
        Some(Field::TimeEstimated)
    } else if name == "act"@ {
        Some(Field::TimeActual)
    } else if name == "stat"@ {
        Some(Field::Status)
    } else if name == "color"@ {
        Some(Field::Color)
    } else {
        None
    }
}

/// The field that the `set` command knows under `name`, if any.
pub fn parse_field(name: &str) -> (f: Option<Field>)
    ensures
        f == field_named(name@),
{
    if str_eq(name, "prio") {
        Some(Field::Priority)
    } else if str_eq(name, "desc") {
        Some(Field::Description)
    } else if str_eq(name, "proj") {
        Some(Field::Projects)
    } else if str_eq(name, "cat") {
        Some(Field::Categories)
    } else if str_eq(name, "est") {
        Some(Field::TimeEstimated)
    } else if str_eq(name, "act") {
        Some(Field::TimeActual)
    } else if str_eq(name, "stat") {
        Some(Field::Status)
    } else if str_eq(name, "color") {
        Some(Field::Color)
    } else {
        None
    }
}

/// A change that a command makes to the tasks of one id.
#[derive(Debug)]
pub enum Change {
    /// Set a field to what a text says.
    Edit(Field, String),
    /// Mark as deleted.
    Delete,
    /// Mark as done.
    Complete,
}

/// What a change holds.
pub enum ChangeView {
    Edit(Field, Seq<char>),
    Delete,
    Complete,
}

impl View for Change {
    type V = ChangeView;

    open spec fn view(&self) -> ChangeView {
        match self {
            Change::Edit(field, value) => ChangeView::Edit(*field, value@),
            Change::Delete => ChangeView::Delete,
            Change::Complete => ChangeView::Complete,
        }
    }
}

/// The message of a value that a field does not take, where the setter of
/// the field, called `what`, fails with `m`.
pub open spec fn not_set(what: Seq<char>, m: Seq<char>) -> Seq<char> {
    "Error setting "@ + what + ": "@ + ("Parsing error: "@ + m)
}

/// Why a change cannot be made, if it cannot: the value is no number where
/// the field wants one, or names no status, or names the status `Deleted`.
pub open spec fn complaint(c: ChangeView) -> Option<Seq<char>> {
    match c {
        ChangeView::Edit(Field::Priority, value) => match parse_int(
            value,
            true,
            isize::MIN as int,
            isize::MAX as int,
        ) {
            Ok(_) => None,
            Err(k) => Some(not_set("priority"@, int_failure(value, "isize"@, k))),
        },
        ChangeView::Edit(Field::TimeEstimated, value) => match parse_int(
            value,
            false,
            0,
            u64::MAX as int,
        ) {
            Ok(_) => None,
            Err(k) => Some(not_set("time estimated"@, int_failure(value, "u64"@, k))),
        },
        ChangeView::Edit(Field::TimeActual, value) => match parse_int(
            value,
            false,
            0,
            u64::MAX as int,
        ) {
            Ok(_) => None,
            Err(k) => Some(not_set("time actual"@, int_failure(value, "u64"@, k))),
        },
        ChangeView::Edit(Field::Status, value) => match status_named(value) {
            None => Some(not_set("status"@, "Todostatus did not match"@)),
            Some(TodoStatus::Deleted) => Some(not_set("status"@, "Not allowed to set Deleted"@)),
            Some(_) => None,
        },
        _ => None,
    }
}

/// The task `t` after the change `c`; `t` itself where the change cannot be made.
pub open spec fn apply(t: TodoView, c: ChangeView) -> TodoView {
    if complaint(c) is Some {
        t
    } else {
        match c {
            ChangeView::Edit(Field::Priority, value) => TodoView {
                priority: parse_int(value, true, isize::MIN as int, isize::MAX as int)->Ok_0 as isize,
                ..t
            },
            ChangeView::Edit(Field::Description, value) => TodoView {
                description: expand_tabs(value),
                ..t
            },
            ChangeView::Edit(Field::Projects, value) => TodoView {
                projects: expand_tabs(value),
                ..t
            },
            ChangeView::Edit(Field::Categories, value) => TodoView {
                categories: expand_tabs(value),
                ..t
            },
            ChangeView::Edit(Field::TimeEstimated, value) => TodoView {
                time_estimated: Some(parse_int(value, false, 0, u64::MAX as int)->Ok_0 as u64),
                ..t
            },
            ChangeView::Edit(Field::TimeActual, value) => TodoView {
                time_actual: Some(parse_int(value, false, 0, u64::MAX as int)->Ok_0 as u64),
                ..t
            },
            ChangeView::Edit(Field::Status, value) => TodoView {
                status: status_named(value)->Some_0,
                ..t
            },
            ChangeView::Edit(Field::Color, value) => TodoView { color: color_named(value), ..t },
            ChangeView::Delete => TodoView { status: TodoStatus::Deleted, ..t },
            ChangeView::Complete => TodoView { status: TodoStatus::Done, ..t },
        }
    }
}

/// Builds the message of a value that a field does not take.
fn not_set_notice(what: &str, err: &ParseTodoError) -> (m: String)
    ensures
        m@ == not_set(what@, err@),
{
    let mut m = String::from_str("Error setting ");
    m.append(what);
    m.append(": ");
    m.append(err.to_string().as_str());
    m
}

/// Makes the change `c` to `todo`, or says why it cannot be made and leaves
/// `todo` as it is.
pub fn change_todo(todo: &mut Todo, c: &Change) -> (notice: Option<String>)
    ensures
        final(todo)@ == apply(old(todo)@, c@),
        match complaint(c@) {
            Some(m) => notice is Some && notice->Some_0@ == m,
            None => notice is None,
        },
{
    match c {
        Change::Edit(Field::Priority, value) => match todo.set_priority_from_string(value.as_str()) {
            Ok(_) => None,
            Err(err) => Some(not_set_notice("priority", &err)),
        },
        Change::Edit(Field::Description, value) => {
            todo.set_description(value.as_str());
            None
        },
        Change::Edit(Field::Projects, value) => {
            todo.set_projects(value.as_str());
            None
        },
        Change::Edit(Field::Categories, value) => {
            todo.set_categories(value.as_str());
            None
        },
        Change::Edit(Field::TimeEstimated, value) => match todo.set_time_estimated_from_string(
            value.as_str(),
        ) {
            Ok(_) => None,
            Err(err) => Some(not_set_notice("time estimated", &err)),
        },
        Change::Edit(Field::TimeActual, value) => match todo.set_time_actual_from_string(
            value.as_str(),
        ) {
            Ok(_) => None,
            Err(err) => Some(not_set_notice("time actual", &err)),
        },
        Change::Edit(Field::Status, value) => match todo.set_status_from_string(value.as_str()) {
            Ok(_) => None,
            Err(err) => Some(not_set_notice("status", &err)),
        },
        Change::Edit(Field::Color, value) => {
            todo.set_color_from_string(value.as_str());
            None
        },
        Change::Delete => {
            todo.set_deleted();
            None
        },
        Change::Complete => {
            let _ = todo.set_status(TodoStatus::Done);
            None
        },
    }
}

/// The tasks of `ts` that have the id `id`, in the order they have in `ts`.
pub open spec fn with_id(ts: Seq<TodoView>, id: usize) -> Seq<TodoView> {
    ts.filter(|t: TodoView| t.id == id)
}

/// The tasks `ts` after the change `c` was made to those of the id `id`.
/// Their number and their order stay as they are.
pub open spec fn change_all(ts: Seq<TodoView>, id: usize, c: ChangeView) -> Seq<TodoView> {
    ts.map_values(
        |t: TodoView|
            if t.id == id {
                apply(t, c)
            } else {
                t
            },
    )
}

/// The messages of a change that cannot be made: one for each task of the id.
pub open spec fn complaints(ts: Seq<TodoView>, id: usize, c: ChangeView) -> Seq<Seq<char>> {
    match complaint(c) {
        Some(m) => Seq::new(with_id(ts, id).len(), |i: int| m),
        None => Seq::empty(),
    }
}

/// What a command does that changes the tasks of the id written in
/// `id_text`: where the id is a number and the task file loads, every task
/// is written back, changed or not, in the order of the file, and the tasks
/// of that id are shown.
pub open spec fn change_outcome(id_text: Seq<char>, c: ChangeView, contents: Seq<char>) -> (
    ReportView,
    Seq<char>,
) {
    match parse_int(id_text, false, 0, usize::MAX as int) {
        Err(k) => (usage_with(bad_id(k)), contents),
        Ok(id) => match load(contents) {
            Err(m) => (failure(reading_failed(m)), contents),
            Ok(ts) => (
                ReportView {
                    help: false,
                    notices: complaints(ts, id as usize, c),
                    listing: Some(with_id(change_all(ts, id as usize, c), id as usize)),
                },
                file_text(change_all(ts, id as usize, c)),
            ),
        },
    }
}

/// One more task joins those of the id exactly where it has the id.
proof fn lemma_with_id_push(ts: Seq<TodoView>, t: TodoView, id: usize)
    ensures
        with_id(ts.push(t), id) == if t.id == id {
            with_id(ts, id).push(t)
        } else {
            with_id(ts, id)
        },
{
    ts.lemma_filter_push(t, |t: TodoView| t.id == id);
}

/// Makes the change `c` to the tasks of `todos` that have the id `id`.
/// Gives the tasks after the change, those of the id among them, and the
/// messages that arose.
fn change_tasks(todos: &Vec<Todo>, id: usize, c: &Change) -> (r: (Vec<Todo>, Vec<Todo>, Vec<String>))
    ensures
        views(r.0@) == change_all(views(todos@), id, c@),
        views(r.1@) == with_id(change_all(views(todos@), id, c@), id),
        texts(r.2@) == complaints(views(todos@), id, c@),
{
    let ghost src = views(todos@);
    let mut out: Vec<Todo> = Vec::new();
    let mut rows: Vec<Todo> = Vec::new();
    let mut notices: Vec<String> = Vec::new();
    let mut i: usize = 0;
    proof {
        assert(src.take(0) == Seq::<TodoView>::empty());
        assert(views(out@) == change_all(src.take(0), id, c@));
        lemma_with_id_empty(id);
        assert(views(rows@) == with_id(views(out@), id));
        assert(texts(notices@) == complaints(src.take(0), id, c@));
    }
    while i < todos.len()
        invariant
            i <= todos.len(),
            src == views(todos@),
            views(out@) == change_all(src.take(i as int), id, c@),
            views(rows@) == with_id(views(out@), id),
            texts(notices@) == complaints(src.take(i as int), id, c@),
        decreases todos.len() - i,
    {
        let mut todo = todos[i].clone();
        let ghost before_out = views(out@);
        let ghost before_rows = views(rows@);
        let ghost before_notices = texts(notices@);
        proof {
            assert(src.take(i + 1) == src.take(i as int).push(todo@));
            lemma_with_id_push(src.take(i as int), todo@, id);
        }
        if todo.get_id() == id {
            match change_todo(&mut todo, c) {
                Some(m) => {
                    notices.push(m);
                    assert(texts(notices@) == before_notices.push(m@));
                },
                None => {},
            }
            let shown = todo.clone();
            rows.push(shown);
            assert(views(rows@) == before_rows.push(todo@));
        }
        proof {
            lemma_with_id_push(before_out, todo@, id);
            assert(change_all(src.take(i + 1), id, c@) == before_out.push(todo@));
            assert(texts(notices@) == complaints(src.take(i + 1), id, c@));
        }
        out.push(todo);
        assert(views(out@) == before_out.push(todo@));
        i += 1;
    }
    assert(src.take(i as int) == src);
    (out, rows, notices)
}

/// No task has the id where there is no task.
proof fn lemma_with_id_empty(id: usize)
    ensures
        with_id(Seq::empty(), id) == Seq::<TodoView>::empty(),
{
    Seq::<TodoView>::empty().lemma_filter_len(|t: TodoView| t.id == id);
}

/// Makes the change `c` to the tasks of the task file whose id `id_text` writes.
pub fn change_file(id_text: &str, c: &Change, todo_file: &mut String) -> (r: Report)
    ensures
        (r@, final(todo_file)@) == change_outcome(id_text@, c@, old(todo_file)@),
{
    let edit_id = match id_or_report(id_text) {
        Ok(v) => v,
        Err(r) => {
            return r;
        },
    };
    let todos = match load_or_report(todo_file.as_str()) {
        Ok(v) => v,
        Err(r) => {
            return r;
        },
    };
    let (changed, rows, notices) = change_tasks(&todos, edit_id, c);
    rewrite(&changed, todo_file);
    Report { help: false, notices, listing: Some(rows) }
}

/// The task that `new` makes of its arguments: where there are more than
/// three and the third is a number, that is the priority and the rest the
/// description; else the description starts with the third.
pub open spec fn new_task(a: Seq<Seq<char>>, id: usize) -> TodoView {
    let priority = parse_int(a[2], true, isize::MIN as int, isize::MAX as int);
    if a.len() > 3 && priority is Ok {
        TodoView {
            id,
            priority: priority->Ok_0 as isize,
            description: expand_tabs(join(a.skip(3), " "@)),
            ..default_view()
        }
    } else {
        TodoView { id, description: expand_tabs(join(a.skip(2), " "@)), ..default_view() }
    }
}

/// The message of `new` where no id is left.
pub open spec fn no_id() -> Seq<char> {
    "Error getting new ID: "@ + ("Todo IO Error: "@ + exhausted())
}

/// What `new` does: it takes the next id from the id file and appends the
/// line of the new task to the task file.
pub open spec fn add_outcome(a: Seq<Seq<char>>, id_contents: Seq<char>, contents: Seq<char>) -> (
    ReportView,
    Seq<char>,
    Seq<char>,
) {
    if a.len() < 3 {
        (usage(), id_contents, contents)
    } else {
        match allocation(id_contents) {
            None => (failure(no_id()), id_contents, contents),
            Some((id, id_text)) => (
                ReportView {
                    help: false,
                    notices: seq!["New Todo:"@],
                    listing: Some(seq![new_task(a, id)]),
                },
                id_text,
                contents + record_line(new_task(a, id)),
            ),
        }
    }
}

/// Adds a task: `new [priority] <description...>`.
pub fn add_new_todo(args: &Vec<String>, id_file: &mut String, todo_file: &mut String) -> (r:
    Report)
    ensures
        (r@, final(id_file)@, final(todo_file)@) == add_outcome(
            texts(args@),
            old(id_file)@,
            old(todo_file)@,
        ),
{
    if args.len() < 3 {
        return report(true, None);
    }
    let current_id = match get_current_id(id_file) {
        Ok(v) => v,
        Err(err) => {
            let mut m = String::from_str("Error getting new ID: ");
            m.append(err.to_string().as_str());
            return report(false, Some(m));
        },
    };

    let mut new_todo = Todo::new_with_id(current_id);
    let ghost a = texts(args@);
    assert(a[2] == args@[2]@);
    let with_priority = if args.len() > 3 {
        match new_todo.set_priority_from_string(args[2].as_str()) {
            Ok(_) => true,
            Err(_) => false,
        }
    } else {
        false
    };
    if with_priority {
        new_todo.set_description(join_from(args, 3, " ").as_str());
    } else {
        new_todo.set_description(join_from(args, 2, " ").as_str());
    }
    assert(new_todo@ == new_task(a, current_id));

    write_to_file(new_todo.to_file().as_str(), todo_file);
    let mut notices: Vec<String> = Vec::new();
    let title = String::from_str("New Todo:");
    notices.push(title);
    assert(texts(notices@) == seq!["New Todo:"@]);
    let mut rows: Vec<Todo> = Vec::new();
    rows.push(new_todo);
    assert(views(rows@) == seq![new_todo@]);
    Report { help: false, notices, listing: Some(rows) }
}

/// The search term of `ls`: its arguments from the third on, with a blank
/// between neighbours; the empty text where there is none.
pub open spec fn search_term(a: Seq<Seq<char>>) -> Seq<char> {
    if a.len() > 2 {
        join(a.skip(2), " "@)
    } else {
        Seq::empty()
    }
}

/// Whether a listing shows the task `t`: it is found under the search term,
/// and it is not done unless done tasks are asked for.
pub open spec fn is_shown(t: TodoView, show_done: bool, search: Seq<char>) -> bool {
    (t.status != TodoStatus::Done || show_done) && crate::filter::matches(t, search)
}

/// The tasks of `ts` that a listing shows, in the order they have in `ts`.
pub open spec fn shown(ts: Seq<TodoView>, show_done: bool, search: Seq<char>) -> Seq<TodoView> {
    ts.filter(|t: TodoView| is_shown(t, show_done, search))
}

/// What `ls` and `lsa` show: the tasks of the file in listing order, those
/// left out that the listing does not show.
pub open spec fn list_outcome(a: Seq<Seq<char>>, show_done: bool, contents: Seq<char>) -> ReportView {
    match load(contents) {
        Err(m) => failure(reading_failed(m)),
        Ok(ts) => ReportView {
            help: false,
            notices: Seq::empty(),
            listing: Some(shown(sorted(ts), show_done, search_term(a))),
        },
    }
}

/// Lists the tasks: `ls [search...]`, or `lsa [search...]` to see the done
/// ones too. The task file is only read.
pub fn list_all_todos(args: &Vec<String>, show_done: bool, todo_file: &str) -> (r: Report)
    ensures
        r@ == list_outcome(texts(args@), show_done, todo_file@),
{
    let mut todos = match load_or_report(todo_file) {
        Ok(v) => v,
        Err(r) => {
            return r;
        },
    };
    sort_todos(&mut todos);

    let mut search_string = String::new();
    if args.len() > 2 {
        search_string = join_from(args, 2, " ");
    }
    let ghost search = search_term(texts(args@));
    let ghost src = views(todos@);
    let mut rows: Vec<Todo> = Vec::new();
    let mut i: usize = 0;
    proof {
        assert(src.take(0) == Seq::<TodoView>::empty());
        Seq::<TodoView>::empty().lemma_filter_len(|t: TodoView| is_shown(t, show_done, search));
    }
    while i < todos.len()
        invariant
            i <= todos.len(),
            src == views(todos@),
            search == search_string@,
            views(rows@) == shown(src.take(i as int), show_done, search),
        decreases todos.len() - i,
    {
        let todo = &todos[i];
        proof {
            assert(src.take(i + 1) == src.take(i as int).push(todo@));
            src.take(i as int).lemma_filter_push(
                todo@,
                |t: TodoView| is_shown(t, show_done, search),
            );
        }
        if (!todo.done() || todo.done() == show_done) && todo.filter(search_string.as_str()) {
            let ghost before = views(rows@);
            let row = todo.clone();
            rows.push(row);
            assert(views(rows@) == before.push(todo@));
        }
        i += 1;
    }
    assert(src.take(i as int) == src);
    let notices: Vec<String> = Vec::new();
    assert(texts(notices@) == Seq::<Seq<char>>::empty());
    Report { help: false, notices, listing: Some(rows) }
}

/// What `set` does. Too few arguments, an id that is no number and a field
/// that `set` does not know are told with the usage text, and nothing is
/// touched.
pub open spec fn set_outcome(a: Seq<Seq<char>>, contents: Seq<char>) -> (ReportView, Seq<char>) {
    if a.len() < 5 {
        (usage(), contents)
    } else {
        match parse_int(a[2], false, 0, usize::MAX as int) {
            Err(k) => (usage_with(bad_id(k)), contents),
            Ok(_) => match field_named(a[3]) {
                None => (usage_with("No such attribute: "@ + a[3]), contents),
                Some(field) => change_outcome(a[2], ChangeView::Edit(field, a[4]), contents),
            },
        }
    }
}

/// Edits one field of a task: `set <id> <field> <value>`, where the field is
/// one of `prio`, `desc`, `proj`, `cat`, `est`, `act`, `stat` and `color`.
pub fn set_todo(args: &Vec<String>, todo_file: &mut String) -> (r: Report)
    ensures
        (r@, final(todo_file)@) == set_outcome(texts(args@), old(todo_file)@),
{
    if args.len() < 5 {
        return report(true, None);
    }
    let ghost a = texts(args@);
    assert(a[2] == args@[2]@ && a[3] == args@[3]@ && a[4] == args@[4]@);
    match id_or_report(args[2].as_str()) {
        Ok(_) => {},
        Err(r) => {
            return r;
        },
    }
    let field = match parse_field(args[3].as_str()) {
        Some(f) => f,
        None => {
            let mut m = String::from_str("No such attribute: ");
            m.append(args[3].as_str());
            return report(true, Some(m));
        },
    };
    let change = Change::Edit(field, args[4].clone());
    change_file(args[2].as_str(), &change, todo_file)
}

/// What `rm` does: `rm all` empties the task file and makes 0 the next id;
/// `rm <id>` marks the tasks of the id as deleted and keeps their records.
pub open spec fn rm_outcome(a: Seq<Seq<char>>, contents: Seq<char>, id_contents: Seq<char>) -> (
    ReportView,
    Seq<char>,
    Seq<char>,
) {
    if a.len() < 3 {
        (usage(), contents, id_contents)
    } else if a[2] == "all"@ {
        (quiet(), Seq::empty(), decimal(0))
    } else {
        let (r, text) = change_outcome(a[2], ChangeView::Delete, contents);
        (r, text, id_contents)
    }
}

/// Deletes: `rm <id>`, or `rm all`.
pub fn rm_todo(args: &Vec<String>, todo_file: &mut String, id_file: &mut String) -> (r: Report)
    ensures
        (r@, final(todo_file)@, final(id_file)@) == rm_outcome(
            texts(args@),
            old(todo_file)@,
            old(id_file)@,
        ),
{
    if args.len() < 3 {
        return report(true, None);
    }
    assert(texts(args@)[2] == args@[2]@);
    if str_eq(args[2].as_str(), "all") {
        truncate_file(todo_file);
        set_current_id(0, id_file);
        return report(false, None);
    }
    change_file(args[2].as_str(), &Change::Delete, todo_file)
}

/// What `do` does: it marks the tasks of the id as done.
pub open spec fn do_outcome(a: Seq<Seq<char>>, contents: Seq<char>) -> (ReportView, Seq<char>) {
    if a.len() < 3 {
        (usage(), contents)
    } else {
        change_outcome(a[2], ChangeView::Complete, contents)
    }
}

/// Completes a task: `do <id>`.
pub fn do_task(args: &Vec<String>, todo_file: &mut String) -> (r: Report)
    ensures
        (r@, final(todo_file)@) == do_outcome(texts(args@), old(todo_file)@),
{
    if args.len() < 3 {
        return report(true, None);
    }
    assert(texts(args@)[2] == args@[2]@);
    change_file(args[2].as_str(), &Change::Complete, todo_file)
}

/// The tasks `ts` with the ids 0, 1, 2 and so on, in the order of `ts`.
pub open spec fn renumbered(ts: Seq<TodoView>) -> Seq<TodoView> {
    Seq::new(ts.len(), |i: int| TodoView { id: i as usize, ..ts[i] })
}

/// What `clean` does: the tasks are put in listing order and numbered anew
/// from 0, and the next id is their number.
pub open spec fn clean_outcome(contents: Seq<char>, id_contents: Seq<char>) -> (
    ReportView,
    Seq<char>,
    Seq<char>,
) {
    match load(contents) {
        Err(m) => (failure(reading_failed(m)), contents, id_contents),
        Ok(ts) => (
            ReportView {
                help: false,
                notices: Seq::empty(),
                listing: Some(renumbered(sorted(ts))),
            },
            file_text(renumbered(sorted(ts))),
            decimal(ts.len()),
        ),
    }
}

/// Renumbers the tasks: `clean`.
pub fn clean(todo_file: &mut String, id_file: &mut String) -> (r: Report)
    ensures
        (r@, final(todo_file)@, final(id_file)@) == clean_outcome(old(todo_file)@, old(id_file)@),
{
    let mut todos = match load_or_report(todo_file.as_str()) {
        Ok(v) => v,
        Err(r) => {
            return r;
        },
    };
    let ghost loaded = views(todos@);
    sort_todos(&mut todos);
    let ghost src = views(todos@);
    let mut out: Vec<Todo> = Vec::new();
    let mut new_id: usize = 0;
    assert(views(out@) == renumbered(src).take(0));
    while new_id < todos.len()
        invariant
            new_id <= todos.len(),
            src == views(todos@),
            views(out@) == renumbered(src).take(new_id as int),
        decreases todos.len() - new_id,
    {
        let mut todo = todos[new_id].clone();
        todo.set_id(new_id);
        let ghost before = views(out@);
        out.push(todo);
        assert(views(out@) == before.push(todo@));
        assert(renumbered(src).take(new_id + 1) == renumbered(src).take(new_id as int).push(
            todo@,
        ));
        new_id += 1;
    }
    assert(renumbered(src).take(new_id as int) == renumbered(src));
    rewrite(&out, todo_file);
    set_current_id(new_id, id_file);
    let notices: Vec<String> = Vec::new();
    assert(texts(notices@) == Seq::<Seq<char>>::empty());
    Report { help: false, notices, listing: Some(out) }
}

/// The name of the command among the arguments: the second of them, or
/// the empty text where there is none.
pub open spec fn command_name(a: Seq<Seq<char>>) -> Seq<char> {
    if a.len() > 1 {
        a[1]
    } else {
        Seq::empty()
    }
}

/// What the tracker does with its arguments: the report, the text of the
/// task file and the text of the id file. Anything but the name of a command
/// gives the usage text.
pub open spec fn run_outcome(a: Seq<Seq<char>>, contents: Seq<char>, id_contents: Seq<char>) -> (
    ReportView,
    Seq<char>,
    Seq<char>,
) {
    let name = command_name(a);
    if name == "ls"@ {
        (list_outcome(a, false, contents), contents, id_contents)
    } else if name == "lsa"@ {
        (list_outcome(a, true, contents), contents, id_contents)
    } else if name == "new"@ {
        let (r, id_text, text) = add_outcome(a, id_contents, contents);
        (r, text, id_text)
    } else if name == "set"@ {
        let (r, text) = set_outcome(a, contents);
        (r, text, id_contents)
    } else if name == "rm"@ {
        rm_outcome(a, contents, id_contents)
    } else if name == "do"@ {
        let (r, text) = do_outcome(a, contents);
        (r, text, id_contents)
    } else if name == "clean"@ {
        clean_outcome(contents, id_contents)
    } else {
        (usage(), contents, id_contents)
    }
}

/// Runs the command that the arguments name, on the text of the two files.
pub fn run(args: &Vec<String>, todo_file: &mut String, id_file: &mut String) -> (r: Report)
    ensures
        (r@, final(todo_file)@, final(id_file)@) == run_outcome(
            texts(args@),
            old(todo_file)@,
            old(id_file)@,
        ),
{
    let first_arg: String;
    if args.len() > 1 {
        first_arg = args[1].clone();
        assert(texts(args@)[1] == args@[1]@);
    } else {
        first_arg = String::new();
    }
    let name = first_arg.as_str();
    if str_eq(name, "ls") {
        list_all_todos(args, false, todo_file.as_str())
    } else if str_eq(name, "lsa") {
        list_all_todos(args, true, todo_file.as_str())
    } else if str_eq(name, "new") {
        add_new_todo(args, id_file, todo_file)
    } else if str_eq(name, "set") {
        set_todo(args, todo_file)
    } else if str_eq(name, "rm") {
        rm_todo(args, todo_file, id_file)
    } else if str_eq(name, "do") {
        do_task(args, todo_file)
    } else if str_eq(name, "clean") {
        clean(todo_file, id_file)
    } else {
        report(true, None)
    }
}

} // verus!
