//! A task: its fields, the setters that keep its texts free of tabs, and the
//! line of text that stores it.

use vstd::prelude::*;
use vstd::string::StringExecFns;
use crate::color::{TodoColor, color_named, color_to_string, string_to_color_or_white};
use crate::error::ParseTodoError;
use crate::numeral::{i64_to_string, parse_int, u64_to_string};
use crate::parse::{int_failure, parse_duration_result, parse_isize, parse_string, parse_usize};
use crate::record::{TodoView, default_view, parse_record, record_fields, record_line};
use crate::status::{TodoStatus, status_named};
use crate::text::{expand_tabs, lemma_expand_tabs, lemma_join_nine, lemma_split_parts, split_str, texts};

verus! {

/// One trackable work item.
#[derive(Debug)]
pub struct Todo {
    id: usize,
    priority: isize,
    description: String,
    projects: String,
    categories: String,
    time_estimated: Option<u64>,
    time_actual: Option<u64>,
    status: TodoStatus,
    color: TodoColor,
}

impl View for Todo {
    type V = TodoView;

    closed spec fn view(&self) -> TodoView {
        TodoView {
            id: self.id,
            priority: self.priority,
            description: self.description@,
            projects: self.projects@,
            categories: self.categories@,
            time_estimated: self.time_estimated,
            time_actual: self.time_actual,
            status: self.status,
            color: self.color,
        }
    }
}

impl Default for Todo {
    fn default() -> (t: Todo)
        ensures
            t@ == default_view(),
    {
        Todo {
            id: 0,
            priority: 0,
            description: String::new(),
            projects: String::new(),
            categories: String::new(),
            time_estimated: None,
            time_actual: None,
            status: TodoStatus::New,
            color: TodoColor::White,
        }
    }
}

impl Clone for Todo {
    fn clone(&self) -> (t: Todo)
        ensures
            t@ == self@,
    {
        proof {
            use_type_invariant(self);
        }
        Todo {
            id: self.id,
            priority: self.priority,
            description: self.description.clone(),
            projects: self.projects.clone(),
            categories: self.categories.clone(),
            time_estimated: self.time_estimated,
            time_actual: self.time_actual,
            status: self.status,
            color: self.color,
        }
    }
}

impl Todo {
    /// Every task that exists is well formed: its texts hold no tab.
    #[verifier::type_invariant]
    pub open spec fn well_formed(self) -> bool {
        self@.wf()
    }

    /// A task with nothing set.
    pub fn new() -> (t: Todo)
        ensures
            t@ == default_view(),
    {
        Todo::default()
    }

    /// A task with nothing set but its id.
    pub fn new_with_id(id: usize) -> (t: Todo)
        ensures
            t@ == (TodoView { id, ..default_view() }),
    {
        let mut new_todo = Todo::default();
        new_todo.set_id(id);
        new_todo
    }

    /// The line that stores the task, line break included.
    pub fn to_file(&self) -> (line: String)
        ensures
            line@ == record_line(self@),
    {
        let time_estimated: u64 = match self.time_estimated {
            Some(v) => v,
            None => 0,
        };
        let time_actual: u64 = match self.time_actual {
            Some(v) => v,
            None => 0,
        };
        let ghost f = record_fields(self@);
        proof {
            reveal_strlit("\t");
            reveal_strlit("\n");
            assert("\t"@ == seq!['\t']);
            assert("\n"@ == seq!['\n']);
            lemma_join_nine(f, seq!['\t']);
        }
        let mut line = u64_to_string(self.id as u64);
        line.append("\t");
        line.append(i64_to_string(self.priority as i64).as_str());
        line.append("\t");
        line.append(self.description.as_str());
        line.append("\t");
        line.append(self.projects.as_str());
        line.append("\t");
        line.append(self.categories.as_str());
        line.append("\t");
        line.append(u64_to_string(time_estimated).as_str());
        line.append("\t");
        line.append(u64_to_string(time_actual).as_str());
        line.append("\t");
        line.append(self.status.to_string().as_str());
        line.append("\t");
        line.append(color_to_string(self.color).as_str());
        line.append("\n");
        line
    }

    /// Reads the record of a task from one line, without its line break.
    pub fn from_str(s: &str) -> (r: Result<Todo, ParseTodoError>)
        ensures
            match parse_record(s@) {
                Ok(t) => r is Ok && r->Ok_0@ == t,
                Err(m) => r is Err && r->Err_0@ == m,
            },
    {
        let split = split_str(s, '\t');
        if split.len() != 9 {
            return Err(ParseTodoError::new("Not seven fields long"));
        }
        proof {
            lemma_split_parts(s@, '\t');
            let f = texts(split@);
            assert(f[0] == split@[0]@);
            assert(f[1] == split@[1]@);
            assert(f[2] == split@[2]@);
            assert(f[3] == split@[3]@);
            assert(f[4] == split@[4]@);
            assert(f[5] == split@[5]@);
            assert(f[6] == split@[6]@);
            assert(f[7] == split@[7]@);
            assert(f[8] == split@[8]@);
            lemma_expand_tabs(f[2]);
            lemma_expand_tabs(f[3]);
            lemma_expand_tabs(f[4]);
        }
        let id = match parse_usize(split[0].as_str()) {
            Ok(v) => v,
            Err(e) => {
                return Err(e);
            },
        };
        let priority = match parse_isize(split[1].as_str()) {
            Ok(v) => v,
            Err(e) => {
                return Err(e);
            },
        };
        let time_estimated = match parse_duration_result(split[5].as_str()) {
            Ok(v) => v,
            Err(e) => {
                return Err(e);
            },
        };
        let time_actual = match parse_duration_result(split[6].as_str()) {
            Ok(v) => v,
            Err(e) => {
                return Err(e);
            },
        };
        let status = match TodoStatus::from_str(split[7].as_str()) {
            Ok(v) => v,
            Err(e) => {
                return Err(e);
            },
        };
        let new_todo = Todo {
            id,
            priority,
            description: parse_string(split[2].as_str()),
            projects: parse_string(split[3].as_str()),
            categories: parse_string(split[4].as_str()),
            time_estimated,
            time_actual,
            status,
            color: string_to_color_or_white(split[8].as_str()),
        };
        Ok(new_todo)
    }

    /// Marks the task as deleted. Its record stays where it is.
    pub fn set_deleted(&mut self)
        ensures
            final(self)@ == (TodoView { status: TodoStatus::Deleted, ..old(self)@ }),
    {
        proof {
            use_type_invariant(&*self);
        }
        self.status = TodoStatus::Deleted;
    }

    pub fn get_id(&self) -> (id: usize)
        ensures
            id == self@.id,
    {
        self.id
    }

    pub fn set_id(&mut self, id: usize)
        ensures
            final(self)@ == (TodoView { id, ..old(self)@ }),
    {
        proof {
            use_type_invariant(&*self);
        }
        self.id = id;
    }

    /// Sets the id to the number that `id` writes, or changes nothing where
    /// `id` is no `usize`.
    pub fn set_id_from_string(&mut self, id: &str) -> (r: Result<usize, ParseTodoError>)
        ensures
            match parse_int(id@, false, 0, usize::MAX as int) {
                Ok(n) => r is Ok && r->Ok_0 == n && final(self)@ == (TodoView {
                    id: n as usize,
                    ..old(self)@
                }),
                Err(k) => r is Err && r->Err_0@ == int_failure(id@, "usize"@, k) && final(self)@
                    == old(self)@,
            },
    {
        proof {
            use_type_invariant(&*self);
        }
        match parse_usize(id) {
            Ok(v) => {
                self.id = v;
                Ok(self.get_id())
            },
            Err(e) => Err(e),
        }
    }

    pub fn get_priority(&self) -> (priority: isize)
        ensures
            priority == self@.priority,
    {
        self.priority
    }

    pub fn set_priority(&mut self, priority: isize)
        ensures
            final(self)@ == (TodoView { priority, ..old(self)@ }),
    {
        proof {
            use_type_invariant(&*self);
        }
        self.priority = priority;
    }

    /// Sets the priority to the number that `priority` writes, or changes
    /// nothing where `priority` is no `isize`.
    pub fn set_priority_from_string(&mut self, priority: &str) -> (r: Result<
        isize,
        ParseTodoError,
    >)
        ensures
            match parse_int(priority@, true, isize::MIN as int, isize::MAX as int) {
                Ok(n) => r is Ok && r->Ok_0 == n && final(self)@ == (TodoView {
                    priority: n as isize,
                    ..old(self)@
                }),
                Err(k) => r is Err && r->Err_0@ == int_failure(priority@, "isize"@, k) && final(self)@ == old(self)@,
            },
    {
        proof {
            use_type_invariant(&*self);
        }
        match parse_isize(priority) {
            Ok(v) => {
                self.priority = v;
                Ok(self.get_priority())
            },
            Err(e) => Err(e),
        }
    }

    pub fn get_description(&self) -> (description: String)
        ensures
            description@ == self@.description,
    {
        self.description.clone()
    }

    /// Sets the description, with every tab written as four spaces.
    pub fn set_description(&mut self, description: &str)
        ensures
            final(self)@ == (TodoView { description: expand_tabs(description@), ..old(self)@ }),
    {
        proof {
            use_type_invariant(&*self);
        }
        self.description = parse_string(description);
    }

    pub fn get_projects(&self) -> (projects: String)
        ensures
            projects@ == self@.projects,
    {
        self.projects.clone()
    }

    /// Sets the projects, with every tab written as four spaces.
    pub fn set_projects(&mut self, projects: &str)
        ensures
            final(self)@ == (TodoView { projects: expand_tabs(projects@), ..old(self)@ }),
    {
        proof {
            use_type_invariant(&*self);
        }
        self.projects = parse_string(projects);
    }

    pub fn get_categories(&self) -> (categories: String)
        ensures
            categories@ == self@.categories,
    {
        self.categories.clone()
    }

    /// Sets the categories, with every tab written as four spaces.
    pub fn set_categories(&mut self, categories: &str)
        ensures
            final(self)@ == (TodoView { categories: expand_tabs(categories@), ..old(self)@ }),
    {
        proof {
            use_type_invariant(&*self);
        }
        self.categories = parse_string(categories);
    }

    /// The estimated time in seconds, if one was given.
    pub fn get_time_estimated(&self) -> (time_estimated: Option<u64>)
        ensures
            time_estimated == self@.time_estimated,
    {
        self.time_estimated
    }

    pub fn set_time_estimated(&mut self, time_estimated: Option<u64>)
        ensures
            final(self)@ == (TodoView { time_estimated, ..old(self)@ }),
    {
        proof {
            use_type_invariant(&*self);
        }
        self.time_estimated = time_estimated;
    }

    /// Sets the estimated time to the seconds that `time_estimated` writes, or
    /// changes nothing where it writes no `u64`.
    pub fn set_time_estimated_from_string(&mut self, time_estimated: &str) -> (r: Result<
        Option<u64>,
        ParseTodoError,
    >)
        ensures
            match parse_int(time_estimated@, false, 0, u64::MAX as int) {
                Ok(n) => r is Ok && r->Ok_0 == Some(n as u64) && final(self)@ == (TodoView {
                    time_estimated: Some(n as u64),
                    ..old(self)@
                }),
                Err(k) => r is Err && r->Err_0@ == int_failure(time_estimated@, "u64"@, k)
                    && final(self)@ == old(self)@,
            },
    {
        proof {
            use_type_invariant(&*self);
        }
        match parse_duration_result(time_estimated) {
            Ok(v) => {
                self.time_estimated = v;
                Ok(self.get_time_estimated())
            },
            Err(e) => Err(e),
        }
    }

    /// The time spent in seconds, if one was recorded.
    pub fn get_time_actual(&self) -> (time_actual: Option<u64>)
        ensures
            time_actual == self@.time_actual,
    {
        self.time_actual
    }

    pub fn set_time_actual(&mut self, time_actual: Option<u64>)
        ensures
            final(self)@ == (TodoView { time_actual, ..old(self)@ }),
    {
        proof {
            use_type_invariant(&*self);
        }
        self.time_actual = time_actual;
    }

    /// Sets the time spent to the seconds that `time_actual` writes, or changes
    /// nothing where it writes no `u64`. On success it hands back the
    /// estimated time, which the call leaves as it was.
    pub fn set_time_actual_from_string(&mut self, time_actual: &str) -> (r: Result<
        Option<u64>,
        ParseTodoError,
    >)
        ensures
            match parse_int(time_actual@, false, 0, u64::MAX as int) {
                Ok(n) => r is Ok && r->Ok_0 == old(self)@.time_estimated && final(self)@
                    == (TodoView { time_actual: Some(n as u64), ..old(self)@ }),
                Err(k) => r is Err && r->Err_0@ == int_failure(time_actual@, "u64"@, k) && final(self)@ == old(self)@,
            },
    {
        proof {
            use_type_invariant(&*self);
        }
        match parse_duration_result(time_actual) {
            Ok(v) => {
                self.time_actual = v;
                Ok(self.get_time_estimated())
            },
            Err(e) => Err(e),
        }
    }

    pub fn get_status(&self) -> (status: TodoStatus)
        ensures
            status == self@.status,
    {
        self.status
    }

    /// Whether the task is done.
    pub fn done(&self) -> (b: bool)
        ensures
            b == (self@.status == TodoStatus::Done),
    {
        self.status == TodoStatus::Done
    }

    /// Sets the status. `Deleted` is refused, and nothing changes: a task is
    /// deleted by `set_deleted` alone.
    pub fn set_status(&mut self, status: TodoStatus) -> (r: Result<(), ParseTodoError>)
        ensures
            status == TodoStatus::Deleted ==> r is Err && r->Err_0@ == "Not allowed to set Deleted"@
                && final(self)@ == old(self)@,
            status != TodoStatus::Deleted ==> r is Ok && final(self)@ == (TodoView {
                status,
                ..old(self)@
            }),
    {
        proof {
            use_type_invariant(&*self);
        }
        if status == TodoStatus::Deleted {
            return Err(ParseTodoError::new("Not allowed to set Deleted"));
        }
        self.status = status;

        Ok(())
    }

    /// Sets the status to the one that `status` names. A text that names no
    /// status is refused, and so is `Deleted`; either way nothing changes.
    pub fn set_status_from_string(&mut self, status: &str) -> (r: Result<
        TodoStatus,
        ParseTodoError,
    >)
        ensures
            match status_named(status@) {
                None => r is Err && r->Err_0@ == "Todostatus did not match"@ && final(self)@
                    == old(self)@,
                Some(TodoStatus::Deleted) => r is Err && r->Err_0@ == "Not allowed to set Deleted"@
                    && final(self)@ == old(self)@,
                Some(named) => r is Ok && r->Ok_0 == named && final(self)@ == (TodoView {
                    status: named,
                    ..old(self)@
                }),
            },
    {
        match TodoStatus::from_str(status) {
            Ok(named) => match self.set_status(named) {
                Ok(()) => Ok(self.get_status()),
                Err(e) => Err(e),
            },
            Err(e) => Err(e),
        }
    }

    pub fn get_color(&self) -> (color: TodoColor)
        ensures
            color == self@.color,
    {
        self.color
    }

    pub fn set_color(&mut self, c: TodoColor)
        ensures
            final(self)@ == (TodoView { color: c, ..old(self)@ }),
    {
        proof {
            use_type_invariant(&*self);
        }
        self.color = c;
    }

    /// Sets the colour to the one that `s` names, or to white where it names none.
    pub fn set_color_from_string(&mut self, s: &str)
        ensures
            final(self)@ == (TodoView { color: color_named(s@), ..old(self)@ }),
    {
        proof {
            use_type_invariant(&*self);
        }
        self.color = string_to_color_or_white(s);
    }
}

} // verus!
