//! The status of a task: its eight values, their names and their rank.

use vstd::prelude::*;
use vstd::string::StringExecFns;
use crate::error::ParseTodoError;
use crate::text::str_eq;

verus! {

/// Where a task stands. The variants are declared in the order of their rank.
#[derive(Debug, Copy, Clone, PartialEq, Eq, PartialOrd, Ord, Structural)]
pub enum TodoStatus {
    Done,
    Backlog,
    Next,
    Planned,
    Doing,
    Review,
    New,
    Deleted,
}

/// The name under which a status is stored and shown.
pub open spec fn status_name(status: TodoStatus) -> Seq<char> {
    match status {
        TodoStatus::New => "New"@,
        TodoStatus::Backlog => "Backlog"@,
        TodoStatus::Next => "Next"@,
        TodoStatus::Planned => "Planned"@,
        TodoStatus::Doing => "Doing"@,
        TodoStatus::Review => "Review"@,
        TodoStatus::Done => "Done"@,
        TodoStatus::Deleted => "Deleted"@,
    }
}

/// The status that `name` names, if any. Names are matched exactly, case included.
pub open spec fn status_named(name: Seq<char>) -> Option<TodoStatus> {
    if name == "New"@ {
        Some(TodoStatus::New)
    }     else if name == "Backlog"@ {
        Some(TodoStatus::Backlog)
    }     else if name == "Next"@ {
        Some(TodoStatus::Next)
    }     else if name == "Planned"@ {
        Some(TodoStatus::Planned)
    }     else if name == "Doing"@ {
        Some(TodoStatus::Doing)
    }     else if name == "Review"@ {
        Some(TodoStatus::Review)
    }     else if name == "Done"@ {
        Some(TodoStatus::Done)
    }     else if name == "Deleted"@ {
        Some(TodoStatus::Deleted)
    } else {
        None
    }
}

/// The fixed position of a status among the eight, used to break ties when
/// tasks are ordered.
pub open spec fn status_rank(status: TodoStatus) -> nat {
    match status {
        TodoStatus::Done => 0,
        TodoStatus::Backlog => 1,
        TodoStatus::Next => 2,
        TodoStatus::Planned => 3,
        TodoStatus::Doing => 4,
        TodoStatus::Review => 5,
        TodoStatus::New => 6,
        TodoStatus::Deleted => 7,
    }
}

/// Every status is found again under its name, and no name is empty or
/// contains a tab, a line break or a carriage return.
pub proof fn lemma_status_names(status: TodoStatus)
    ensures
        status_named(status_name(status)) == Some(status),
        crate::text::free_of(status_name(status), '\t'),
        crate::text::free_of(status_name(status), '\n'),
        crate::text::free_of(status_name(status), '\r'),
        status_name(status).len() > 0,
{
    reveal_strlit("New");
    reveal_strlit("Backlog");
    reveal_strlit("Next");
    reveal_strlit("Planned");
    reveal_strlit("Doing");
    reveal_strlit("Review");
    reveal_strlit("Done");
    reveal_strlit("Deleted");
    assert("New"@.len() == 3);
    assert("New"@[0] == 'N');
    assert("Backlog"@.len() == 7);
    assert("Backlog"@[0] == 'B');
    assert("Next"@.len() == 4);
    assert("Next"@[0] == 'N');
    assert("Planned"@.len() == 7);
    assert("Planned"@[0] == 'P');
    assert("Doing"@.len() == 5);
    assert("Doing"@[0] == 'D');
    assert("Review"@.len() == 6);
    assert("Review"@[0] == 'R');
    assert("Done"@.len() == 4);
    assert("Done"@[0] == 'D');
    assert("Deleted"@.len() == 7);
    assert("Deleted"@[0] == 'D');
}

/// Ranks tell the statuses apart.
pub proof fn lemma_status_rank_injective(a: TodoStatus, b: TodoStatus)
    ensures
        status_rank(a) == status_rank(b) <==> a == b,
        status_rank(a) < 8,
{
}

impl TodoStatus {
    /// The name of the status.
    pub fn to_string(&self) -> (s: String)
        ensures
            s@ == status_name(*self),
    {
        match self {
            TodoStatus::New => String::from_str("New"),
            TodoStatus::Backlog => String::from_str("Backlog"),
            TodoStatus::Next => String::from_str("Next"),
            TodoStatus::Planned => String::from_str("Planned"),
            TodoStatus::Doing => String::from_str("Doing"),
            TodoStatus::Review => String::from_str("Review"),
            TodoStatus::Done => String::from_str("Done"),
            TodoStatus::Deleted => String::from_str("Deleted"),
        }
    }

    /// The status that `s` names. Anything but one of the eight names, written
    /// exactly, is an error.
    pub fn from_str(s: &str) -> (r: Result<TodoStatus, ParseTodoError>)
        ensures
            match status_named(s@) {
                Some(status) => r is Ok && r->Ok_0 == status,
                None => r is Err && r->Err_0@ == "Todostatus did not match"@,
            },
    {
        if str_eq(s, "New") {
            Ok(TodoStatus::New)
        }         else if str_eq(s, "Backlog") {
            Ok(TodoStatus::Backlog)
        }         else if str_eq(s, "Next") {
            Ok(TodoStatus::Next)
        }         else if str_eq(s, "Planned") {
            Ok(TodoStatus::Planned)
        }         else if str_eq(s, "Doing") {
            Ok(TodoStatus::Doing)
        }         else if str_eq(s, "Review") {
            Ok(TodoStatus::Review)
        }         else if str_eq(s, "Done") {
            Ok(TodoStatus::Done)
        }         else if str_eq(s, "Deleted") {
            Ok(TodoStatus::Deleted)
        } else {
            Err(ParseTodoError::new("Todostatus did not match"))
        }
    }

    /// The rank of the status.
    pub fn rank(&self) -> (r: u8)
        ensures
            r == status_rank(*self),
    {
        match self {
            TodoStatus::Done => 0,
            TodoStatus::Backlog => 1,
            TodoStatus::Next => 2,
            TodoStatus::Planned => 3,
            TodoStatus::Doing => 4,
            TodoStatus::Review => 5,
            TodoStatus::New => 6,
            TodoStatus::Deleted => 7,
        }
    }
}

} // verus!
