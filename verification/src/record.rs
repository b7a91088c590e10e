//! The record of a task as mathematics: its fields, and the line of text
//! that stores it.

use vstd::prelude::*;
use crate::color::{TodoColor, color_name, color_named, lemma_color_names};
use crate::numeral::{decimal, lemma_decimal_value, lemma_parse_signed_decimal, parse_int, signed_decimal};
use crate::parse::int_failure;
use crate::status::{TodoStatus, lemma_status_names, status_name, status_named};
use crate::text::{free_of, join, lemma_split_join, split};

verus! {

/// What a task holds.
pub struct TodoView {
    pub id: usize,
    pub priority: isize,
    pub description: Seq<char>,
    pub projects: Seq<char>,
    pub categories: Seq<char>,
    /// Seconds; `None` where no estimate was given.
    pub time_estimated: Option<u64>,
    /// Seconds; `None` where no time was recorded.
    pub time_actual: Option<u64>,
    pub status: TodoStatus,
    pub color: TodoColor,
}

impl TodoView {
    /// The text fields hold no tab, so that a record splits into its fields again.
    pub open spec fn wf(self) -> bool {
        &&& free_of(self.description, '\t')
        &&& free_of(self.projects, '\t')
        &&& free_of(self.categories, '\t')
    }

    /// The task as a record stores it: an absent duration is stored as zero
    /// seconds.
    pub open spec fn stored(self) -> TodoView {
        TodoView {
            time_estimated: Some(seconds(self.time_estimated) as u64),
            time_actual: Some(seconds(self.time_actual) as u64),
            ..self
        }
    }
}

/// A task as it is before anything is set: id 0, priority 0, empty texts, no
/// durations, new, white.
pub open spec fn default_view() -> TodoView {
    TodoView {
        id: 0,
        priority: 0,
        description: Seq::empty(),
        projects: Seq::empty(),
        categories: Seq::empty(),
        time_estimated: None,
        time_actual: None,
        status: TodoStatus::New,
        color: TodoColor::White,
    }
}

/// The seconds of a duration; none for an absent one.
pub open spec fn seconds(d: Option<u64>) -> nat {
    match d {
        Some(s) => s as nat,
        None => 0,
    }
}

/// The nine fields of a record, in the order in which they are stored.
pub open spec fn record_fields(t: TodoView) -> Seq<Seq<char>> {
    seq![
        decimal(t.id as nat),
        signed_decimal(t.priority as int),
        t.description,
        t.projects,
        t.categories,
        decimal(seconds(t.time_estimated)),
        decimal(seconds(t.time_actual)),
        status_name(t.status),
        color_name(t.color),
    ]
}

/// The record of a task: its fields with a tab between neighbours.
pub open spec fn record_text(t: TodoView) -> Seq<char> {
    join(record_fields(t), seq!['\t'])
}

/// The line that stores a task: its record and a line break.
pub open spec fn record_line(t: TodoView) -> Seq<char> {
    record_text(t) + seq!['\n']
}

/// Reading a record: exactly nine fields, of which the numbers and the status
/// must be well formed; the first fault found, in the order of the fields,
/// gives the message.
pub open spec fn parse_record(s: Seq<char>) -> Result<TodoView, Seq<char>> {
    let f = split(s, '\t');
    if f.len() != 9 {
        Err("Not seven fields long"@)
    } else {
        let id = parse_int(f[0], false, 0, usize::MAX as int);
        let priority = parse_int(f[1], true, isize::MIN as int, isize::MAX as int);
        let estimated = parse_int(f[5], false, 0, u64::MAX as int);
        let actual = parse_int(f[6], false, 0, u64::MAX as int);
        let status = status_named(f[7]);
        if id is Err {
            Err(int_failure(f[0], "usize"@, id->Err_0))
        } else if priority is Err {
            Err(int_failure(f[1], "isize"@, priority->Err_0))
        } else if estimated is Err {
            Err(int_failure(f[5], "u64"@, estimated->Err_0))
        } else if actual is Err {
            Err(int_failure(f[6], "u64"@, actual->Err_0))
        } else if status is None {
            Err("Todostatus did not match"@)
        } else {
            Ok(
                TodoView {
                    id: id->Ok_0 as usize,
                    priority: priority->Ok_0 as isize,
                    description: f[2],
                    projects: f[3],
                    categories: f[4],
                    time_estimated: Some(estimated->Ok_0 as u64),
                    time_actual: Some(actual->Ok_0 as u64),
                    status: status->Some_0,
                    color: color_named(f[8]),
                },
            )
        }
    }
}

/// A decimal numeral holds neither `c` nor anything else that is no digit.
pub proof fn lemma_decimal_free_of(n: nat, c: char)
    requires
        !crate::numeral::is_digit(c),
    ensures
        free_of(decimal(n), c),
{
    lemma_decimal_value(n);
}

/// The fields of a well-formed task hold no tab.
pub proof fn lemma_fields_tab_free(t: TodoView)
    requires
        t.wf(),
    ensures
        record_fields(t).len() == 9,
        forall|i: int| 0 <= i < 9 ==> free_of(#[trigger] record_fields(t)[i], '\t'),
{
    lemma_decimal_free_of(t.id as nat, '\t');
    lemma_decimal_free_of(seconds(t.time_estimated), '\t');
    lemma_decimal_free_of(seconds(t.time_actual), '\t');
    lemma_status_names(t.status);
    lemma_color_names(t.color);
    if t.priority < 0 {
        lemma_decimal_free_of((-t.priority) as nat, '\t');
    } else {
        lemma_decimal_free_of(t.priority as nat, '\t');
    }
}

/// Reading the record of a task gives the task as it is stored: every field
/// as it was, but an absent duration as zero seconds.
pub proof fn lemma_record_reads_back(t: TodoView)
    requires
        t.wf(),
    ensures
        parse_record(record_text(t)) == Ok::<TodoView, Seq<char>>(t.stored()),
{
    lemma_fields_tab_free(t);
    lemma_split_join(record_fields(t), '\t');
    lemma_parse_signed_decimal(t.id as int, false, 0, usize::MAX as int);
    lemma_parse_signed_decimal(t.priority as int, true, isize::MIN as int, isize::MAX as int);
    lemma_parse_signed_decimal(seconds(t.time_estimated) as int, false, 0, u64::MAX as int);
    lemma_parse_signed_decimal(seconds(t.time_actual) as int, false, 0, u64::MAX as int);
    lemma_status_names(t.status);
    lemma_color_names(t.color);
}

/// Round trip: for a task whose durations are present, reading its record
/// gives back the task, field for field.
pub proof fn lemma_record_round_trip(t: TodoView)
    requires
        t.wf(),
        t.time_estimated is Some,
        t.time_actual is Some,
    ensures
        parse_record(record_text(t)) == Ok::<TodoView, Seq<char>>(t),
{
    lemma_record_reads_back(t);
    assert(t.stored() == t);
}

} // verus!
