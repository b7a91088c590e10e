//! The storage engine, working on the text of the two files it keeps: the
//! task file, one record per line, and the id file, which holds the next id
//! to hand out. Reading the files from disk and writing them back is left
//! to the caller.

use vstd::prelude::*;
use vstd::string::StringExecFns;
use crate::error::TodoIOError;
use crate::numeral::{decimal, is_digit, lemma_decimal_value, lemma_parse_signed_decimal, parse_int, parse_unsigned, u64_to_string};
use crate::order::views;
use crate::color::{color_name, lemma_color_names};
use crate::record::{TodoView, lemma_record_reads_back, parse_record, record_fields, record_line, record_text, seconds};
use crate::status::lemma_status_names;
use crate::text::{chars_of, free_of, is_whitespace, lemma_join_free_of, lemma_join_last, lemma_split_append, lines, lines_of, split, strip_cr, texts, trim, trim_end, trim_start, trim_str};
use crate::todo::Todo;

verus! {

/// The id that the id file holds: the number written in it, white space
/// around it set aside, or 0 where it holds no number.
pub open spec fn counter_value(contents: Seq<char>) -> usize {
    match parse_int(trim(contents), false, 0, usize::MAX as int) {
        Ok(n) => n as usize,
        Err(_) => 0,
    }
}

/// The message of an allocation that fails because every id has been handed out.
pub open spec fn exhausted() -> Seq<char> {
    "ID counter exhausted"@
}

/// The id file holds what was written to it.
pub proof fn lemma_counter_holds(id: usize)
    ensures
        counter_value(decimal(id as nat)) == id,
{
    let s = decimal(id as nat);
    lemma_decimal_value(id as nat);
    assert(is_digit(s[0]));
    assert(is_digit(s.last()));
    assert(!is_whitespace(s[0]));
    assert(!is_whitespace(s.last()));
    assert(trim_start(s) == s);
    assert(trim_end(s) == s);
    lemma_parse_signed_decimal(id as int, false, 0, usize::MAX as int);
}

/// What an allocation gives: the id that the file holds, and the text of the
/// file after it, which holds the next id. There is none where the file
/// holds the largest id.
pub open spec fn allocation(contents: Seq<char>) -> Option<(usize, Seq<char>)> {
    if counter_value(contents) < usize::MAX {
        Some((counter_value(contents), decimal((counter_value(contents) + 1) as nat)))
    } else {
        None
    }
}

/// Allocation counts up: the first allocation hands out what the file held,
/// and an allocation that follows another hands out the id after it, so that
/// consecutive allocations give strictly increasing ids.
pub proof fn lemma_allocations_increase(contents: Seq<char>)
    requires
        allocation(contents) is Some,
    ensures
        allocation(contents)->Some_0.0 == counter_value(contents),
        counter_value(allocation(contents)->Some_0.1) == allocation(contents)->Some_0.0 + 1,
        allocation(allocation(contents)->Some_0.1) is Some ==> allocation(
            allocation(contents)->Some_0.1,
        )->Some_0.0 == allocation(contents)->Some_0.0 + 1,
{
    lemma_counter_holds((counter_value(contents) + 1) as usize);
}

/// After a reset to `base` the next allocation hands out `base`.
pub proof fn lemma_reset_sets_next(base: usize)
    requires
        base < usize::MAX,
    ensures
        allocation(decimal(base as nat)) is Some,
        allocation(decimal(base as nat))->Some_0.0 == base,
{
    lemma_counter_holds(base);
}

/// How a file is to be opened.
#[derive(Debug, Clone, Copy, PartialEq, Eq, Structural)]
pub struct OpenFlags {
    pub read: bool,
    pub write: bool,
    pub append: bool,
    pub create: bool,
    pub truncate: bool,
}

/// Reads the letters that say how a file is to be opened: `r` to read, `w`
/// to write, `a` to append, `c` to create the file where there is none, `t`
/// to empty it. Other letters say nothing.
pub fn open_flags(open_option_string: &str) -> (f: OpenFlags)
    ensures
        f.read == open_option_string@.contains('r'),
        f.write == open_option_string@.contains('w'),
        f.append == open_option_string@.contains('a'),
        f.create == open_option_string@.contains('c'),
        f.truncate == open_option_string@.contains('t'),
{
    let v = chars_of(open_option_string);
    let mut f = OpenFlags { read: false, write: false, append: false, create: false, truncate: false };
    let mut i: usize = 0;
    while i < v.len()
        invariant
            i <= v.len(),
            f.read == v@.take(i as int).contains('r'),
            f.write == v@.take(i as int).contains('w'),
            f.append == v@.take(i as int).contains('a'),
            f.create == v@.take(i as int).contains('c'),
            f.truncate == v@.take(i as int).contains('t'),
        decreases v.len() - i,
    {
        let c: char = v[i];
        proof {
            let next = v@.take(i + 1);
            let seen = v@.take(i as int);
            assert(next == seen.push(c));
            assert(next[i as int] == c);
            assert forall|x: char| next.contains(x) <==> (seen.contains(x) || x == c) by {
                if seen.contains(x) {
                    let k = choose|k: int| 0 <= k < seen.len() && seen[k] == x;
                    assert(next[k] == x);
                }
            }
        }
        if c == 'r' {
            f.read = true;
        }
        if c == 'w' {
            f.write = true;
        }
        if c == 'a' {
            f.append = true;
        }
        if c == 'c' {
            f.create = true;
        }
        if c == 't' {
            f.truncate = true;
        }
        i += 1;
    }
    assert(v@.take(i as int) == v@);
    f
}

/// Writes `id` into the id file, in place of what it held.
pub fn write_id_to_id_file(id: usize, id_file: &mut String)
    ensures
        final(id_file)@ == decimal(id as nat),
        counter_value(final(id_file)@) == id,
{
    proof {
        lemma_counter_holds(id);
    }
    *id_file = u64_to_string(id as u64);
}

/// Hands out the id that the id file holds and makes the file hold the
/// next one. Where the file holds the largest id there is no next one:
/// the call fails and the file stays as it is.
pub fn get_current_id(id_file: &mut String) -> (r: Result<usize, TodoIOError>)
    ensures
        match allocation(old(id_file)@) {
            Some((id, text)) => r is Ok && r->Ok_0 == id && final(id_file)@ == text,
            None => r is Err && r->Err_0@ == exhausted() && final(id_file)@ == old(id_file)@,
        },
{
    let buffer = trim_str(id_file.as_str());

    let current_id: usize = match parse_unsigned(buffer.as_str(), usize::MAX as u64) {
        Ok(v) => v as usize,
        Err(_) => 0,
    };
    if current_id == usize::MAX {
        return Err(TodoIOError::new("ID counter exhausted"));
    }
    write_id_to_id_file(current_id + 1, id_file);

    Ok(current_id)
}

/// Makes the id file hold `new_id`, so that the next allocation hands it out.
pub fn set_current_id(new_id: usize, id_file: &mut String)
    ensures
        final(id_file)@ == decimal(new_id as nat),
        counter_value(final(id_file)@) == new_id,
{
    write_id_to_id_file(new_id, id_file);
}

/// The text of a task file that holds the tasks `ts`: their lines, one
/// after the other.
pub open spec fn file_text(ts: Seq<TodoView>) -> Seq<char>
    decreases ts.len(),
{
    if ts.len() == 0 {
        Seq::empty()
    } else {
        file_text(ts.drop_last()) + record_line(ts.last())
    }
}

/// The message of a load that fails on a line whose record fails with `m`.
pub open spec fn load_failure(m: Seq<char>) -> Seq<char> {
    "Error Parsing Todo: "@ + ("Parsing error: "@ + m)
}

/// The tasks that the lines `ls` hold, or the message for the first line
/// that holds none: one bad line fails the whole load.
pub open spec fn load_lines(ls: Seq<Seq<char>>) -> Result<Seq<TodoView>, Seq<char>>
    decreases ls.len(),
{
    if ls.len() == 0 {
        Ok(Seq::empty())
    } else {
        match load_lines(ls.drop_last()) {
            Err(m) => Err(m),
            Ok(ts) => match parse_record(ls.last()) {
                Err(m) => Err(load_failure(m)),
                Ok(t) => Ok(ts.push(t)),
            },
        }
    }
}

/// The tasks that a task file with the text `contents` holds.
pub open spec fn load(contents: Seq<char>) -> Result<Seq<TodoView>, Seq<char>> {
    load_lines(lines(contents))
}

/// Reads every task of the task file, in the order of its lines. An empty
/// file holds no task. The first line that is no record fails the load.
pub fn get_all_todos(todo_file: &str) -> (r: Result<Vec<Todo>, TodoIOError>)
    ensures
        match load(todo_file@) {
            Ok(ts) => r is Ok && views(r->Ok_0@) == ts,
            Err(m) => r is Err && r->Err_0@ == m,
        },
{
    let mut todos: Vec<Todo> = Vec::new();
    let ls = lines_of(todo_file);
    let ghost all = texts(ls@);
    let mut i: usize = 0;
    assert(all.take(0) == Seq::<Seq<char>>::empty());
    assert(views(todos@) == Seq::<TodoView>::empty());
    while i < ls.len()
        invariant
            i <= ls.len(),
            all == texts(ls@),
            all == lines(todo_file@),
            load_lines(all.take(i as int)) == Ok::<Seq<TodoView>, Seq<char>>(views(todos@)),
        decreases ls.len() - i,
    {
        proof {
            let next = all.take(i + 1);
            assert(next.drop_last() == all.take(i as int));
            assert(next.last() == ls@[i as int]@);
        }
        let ghost before = views(todos@);
        let todo: Todo = match Todo::from_str(ls[i].as_str()) {
            Ok(v) => v,
            Err(err) => {
                let mut m = String::from_str("Error Parsing Todo: ");
                m.append(err.to_string().as_str());
                proof {
                    lemma_load_fails_on(all, i as int);
                }
                return Err(TodoIOError::new(m.as_str()));
            },
        };
        todos.push(todo);
        assert(views(todos@) == before.push(todo@));
        i += 1;
    }
    assert(all.take(i as int) == all);
    Ok(todos)
}

/// A load that has failed on the first lines fails in the same way on all of them.
proof fn lemma_load_fails_on(ls: Seq<Seq<char>>, i: int)
    requires
        0 <= i < ls.len(),
        load_lines(ls.take(i + 1)) is Err,
    ensures
        load_lines(ls) == load_lines(ls.take(i + 1)),
    decreases ls.len(),
{
    if i + 1 == ls.len() {
        assert(ls.take(i + 1) == ls);
    } else {
        assert(ls.drop_last().take(i + 1) == ls.take(i + 1));
        lemma_load_fails_on(ls.drop_last(), i);
    }
}

/// Appends `s` to the file.
pub fn write_to_file(s: &str, file: &mut String)
    ensures
        final(file)@ == old(file)@ + s@,
{
    file.append(s);
}

/// Empties the file.
pub fn truncate_file(file: &mut String)
    ensures
        final(file)@ == Seq::<char>::empty(),
{
    *file = String::new();
}

/// Writes the tasks `todos` over the task file: the file is emptied, then
/// the line of each task is appended, in the order of `todos`.
pub fn rewrite(todos: &Vec<Todo>, todo_file: &mut String)
    ensures
        final(todo_file)@ == file_text(views(todos@)),
{
    truncate_file(todo_file);
    let ghost all = views(todos@);
    let mut i: usize = 0;
    assert(all.take(0) == Seq::<TodoView>::empty());
    while i < todos.len()
        invariant
            i <= todos.len(),
            all == views(todos@),
            todo_file@ == file_text(all.take(i as int)),
        decreases todos.len() - i,
    {
        proof {
            let next = all.take(i + 1);
            assert(next.drop_last() == all.take(i as int));
            assert(next.last() == todos@[i as int]@);
        }
        write_to_file(todos[i].to_file().as_str(), todo_file);
        i += 1;
    }
    assert(all.take(i as int) == all);
}

/// Whether the texts of `t` hold no line break, so that the record of `t`
/// is one line.
pub open spec fn on_one_line(t: TodoView) -> bool {
    &&& free_of(t.description, '\n')
    &&& free_of(t.projects, '\n')
    &&& free_of(t.categories, '\n')
}

/// The record of a task whose texts hold no line break is one line, and
/// does not end with a carriage return.
pub proof fn lemma_record_is_line(t: TodoView)
    requires
        on_one_line(t),
    ensures
        free_of(record_text(t), '\n'),
        strip_cr(record_text(t)) == record_text(t),
{
    let f = record_fields(t);
    lemma_decimal_value(t.id as nat);
    lemma_decimal_value(seconds(t.time_estimated));
    lemma_decimal_value(seconds(t.time_actual));
    if t.priority < 0 {
        lemma_decimal_value((-t.priority) as nat);
    } else {
        lemma_decimal_value(t.priority as nat);
    }
    lemma_status_names(t.status);
    lemma_color_names(t.color);
    assert forall|i: int| 0 <= i < f.len() implies free_of(#[trigger] f[i], '\n') by {}
    lemma_join_free_of(f, seq!['\t'], '\n');
    lemma_join_last(f, seq!['\t']);
    assert(f.last() == color_name(t.color));
}

/// The lines of a written task file are the records of its tasks.
pub proof fn lemma_lines_of_file(ts: Seq<TodoView>)
    requires
        forall|i: int| 0 <= i < ts.len() ==> on_one_line(#[trigger] ts[i]),
    ensures
        split(file_text(ts), '\n') == ts.map_values(|t: TodoView| record_text(t)).push(
            Seq::empty(),
        ),
        lines(file_text(ts)) == ts.map_values(|t: TodoView| record_text(t)),
    decreases ts.len(),
{
    let records = ts.map_values(|t: TodoView| record_text(t));
    if ts.len() == 0 {
        assert(split(file_text(ts), '\n') == records.push(Seq::empty()));
    } else {
        let head = ts.drop_last();
        let t = ts.last();
        let head_records = head.map_values(|t: TodoView| record_text(t));
        lemma_lines_of_file(head);
        lemma_record_is_line(t);
        lemma_split_append(file_text(head), record_text(t), '\n');
        let written = file_text(head) + record_text(t);
        assert(head_records.push(Seq::<char>::empty()).drop_last() == head_records);
        assert(Seq::<char>::empty() + record_text(t) == record_text(t));
        assert(split(written, '\n') == head_records.push(record_text(t)));
        assert(file_text(ts) == written.push('\n'));
        assert(file_text(ts).drop_last() == written);
        assert(head_records.push(record_text(t)) == records);
    }
    let parts = split(file_text(ts), '\n');
    assert(parts.drop_last() == records);
    assert forall|i: int| 0 <= i < records.len() implies strip_cr(#[trigger] records[i])
        == records[i] by {
        lemma_record_is_line(ts[i]);
    }
    assert(records.map_values(|l: Seq<char>| strip_cr(l)) == records);
}

/// Loading what was written: a task file written from well-formed tasks
/// whose texts hold no line break loads again, and gives the tasks as they
/// are stored, in the order in which they were written.
pub proof fn lemma_load_written(ts: Seq<TodoView>)
    requires
        forall|i: int| 0 <= i < ts.len() ==> (#[trigger] ts[i]).wf() && on_one_line(ts[i]),
    ensures
        load(file_text(ts)) == Ok::<Seq<TodoView>, Seq<char>>(
            ts.map_values(|t: TodoView| t.stored()),
        ),
{
    lemma_lines_of_file(ts);
    lemma_load_records(ts);
}

/// The records of well-formed tasks load as the tasks that they store.
proof fn lemma_load_records(ts: Seq<TodoView>)
    requires
        forall|i: int| 0 <= i < ts.len() ==> (#[trigger] ts[i]).wf(),
    ensures
        load_lines(ts.map_values(|t: TodoView| record_text(t))) == Ok::<Seq<TodoView>, Seq<char>>(
            ts.map_values(|t: TodoView| t.stored()),
        ),
    decreases ts.len(),
{
    let records = ts.map_values(|t: TodoView| record_text(t));
    let stored = ts.map_values(|t: TodoView| t.stored());
    if ts.len() == 0 {
        assert(stored == Seq::<TodoView>::empty());
    } else {
        let head = ts.drop_last();
        lemma_load_records(head);
        lemma_record_reads_back(ts.last());
        assert(records.drop_last() == head.map_values(|t: TodoView| record_text(t)));
        assert(records.last() == record_text(ts.last()));
        assert(head.map_values(|t: TodoView| t.stored()).push(ts.last().stored()) == stored);
    }
}

} // verus!
