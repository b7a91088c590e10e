//! How a task is shown: one row of tab-separated columns, painted in the
//! task's colour.

use vstd::prelude::*;
use vstd::string::StringExecFns;
use crate::color::{TodoColor, paint, painted};
use crate::numeral::{decimal, i64_to_string, signed_decimal, u64_to_string};
use crate::record::{TodoView, seconds};
use crate::status::{TodoStatus, status_name};
use crate::text::{join, lemma_join_nine};
use crate::todo::Todo;

verus! {

/// The numeral of `n` in at least two digits.
pub open spec fn two_digits(n: nat) -> Seq<char> {
    if n < 10 {
        seq!['0'] + decimal(n)
    } else {
        decimal(n)
    }
}

/// One part of a duration: the number in at least two digits and its unit,
/// or nothing where the number is zero.
pub open spec fn duration_part(n: nat, unit: char) -> Seq<char> {
    if n == 0 {
        Seq::empty()
    } else {
        two_digits(n).push(unit)
    }
}

/// A duration of `s` seconds in hours, minutes and seconds, leaving out what
/// is zero: `01h02m03s` for 3723 seconds, the empty text for none.
pub open spec fn human_duration(s: nat) -> Seq<char> {
    duration_part(s / 60 / 60, 'h') + duration_part((s / 60) % 60, 'm') + duration_part(
        s % 60,
        's',
    )
}

/// Appends one part of a duration to `ret`.
fn push_duration_part(ret: &mut String, n: u64, unit: &str)
    requires
        unit@.len() == 1,
    ensures
        final(ret)@ == old(ret)@ + duration_part(n as nat, unit@[0]),
{
    if n != 0 {
        if n < 10 {
            ret.append("0");
            proof {
                reveal_strlit("0");
                assert("0"@ == seq!['0']);
            }
        }
        ret.append(u64_to_string(n).as_str());
        ret.append(unit);
        assert(unit@ == seq![unit@[0]]);
        assert(ret@ == old(ret)@ + two_digits(n as nat).push(unit@[0]));
    } else {
        assert(ret@ == old(ret)@ + Seq::<char>::empty());
    }
}

/// Writes a duration of `d` seconds for a reader.
pub fn duration_to_human_string(d: u64) -> (ret: String)
    ensures
        ret@ == human_duration(d as nat),
{
    let s = d;
    let seconds = s % 60;
    let minutes = (s / 60) % 60;
    let hours = (s / 60) / 60;

    let mut ret = String::new();
    proof {
        reveal_strlit("h");
        reveal_strlit("m");
        reveal_strlit("s");
    }
    push_duration_part(&mut ret, hours, "h");
    push_duration_part(&mut ret, minutes, "m");
    push_duration_part(&mut ret, seconds, "s");
    assert(ret@ == Seq::<char>::empty() + duration_part(hours as nat, 'h') + duration_part(
        minutes as nat,
        'm',
    ) + duration_part(seconds as nat, 's'));
    ret
}

/// By how much the time spent differs from the estimate; zero where either
/// of them is zero or absent.
pub open spec fn time_delta(estimated: nat, actual: nat) -> nat {
    if estimated == 0 || actual == 0 {
        0
    } else if estimated < actual {
        (actual - estimated) as nat
    } else {
        (estimated - actual) as nat
    }
}

/// Whether the row of `t` shows the ratio of time spent to time estimated:
/// it does where both are given and not zero.
pub open spec fn shows_ratio(t: TodoView) -> bool {
    seconds(t.time_estimated) != 0 && seconds(t.time_actual) != 0
}

/// The last column of a row: the difference of the two times, and behind it,
/// where the row shows one, a slash and the ratio.
pub open spec fn delta_column(t: TodoView, ratio: Seq<char>) -> Seq<char> {
    human_duration(time_delta(seconds(t.time_estimated), seconds(t.time_actual))) + (if shows_ratio(
        t,
    ) {
        seq!['/'] + ratio
    } else {
        Seq::empty()
    })
}

/// The nine columns of the row of `t`.
pub open spec fn row_columns(t: TodoView, ratio: Seq<char>) -> Seq<Seq<char>> {
    seq![
        decimal(t.id as nat),
        status_name(t.status),
        signed_decimal(t.priority as int),
        t.description,
        t.projects,
        t.categories,
        human_duration(seconds(t.time_estimated)),
        human_duration(seconds(t.time_actual)),
        delta_column(t, ratio),
    ]
}

/// The colour in which `t` is shown: its own, but white once it is done.
pub open spec fn shown_color(t: TodoView) -> TodoColor {
    if t.status == TodoStatus::Done {
        TodoColor::White
    } else {
        t.color
    }
}

/// The row of `t`: its columns with a tab between neighbours, painted in the
/// colour in which `t` is shown.
pub open spec fn row_text(t: TodoView, ratio: Seq<char>) -> Seq<char> {
    painted(shown_color(t), join(row_columns(t, ratio), seq!['\t']))
}

impl Todo {
    /// Whether the row of the task shows the ratio of time spent to time
    /// estimated.
    pub fn shows_ratio(&self) -> (b: bool)
        ensures
            b == shows_ratio(self@),
    {
        let time_estimated: u64 = match self.get_time_estimated() {
            Some(v) => v,
            None => 0,
        };
        let time_actual: u64 = match self.get_time_actual() {
            Some(v) => v,
            None => 0,
        };
        time_estimated != 0 && time_actual != 0
    }

    /// The row that shows the task. `ratio` is the time spent divided by the
    /// time estimated, written as the caller wants it shown; it is used only
    /// where the row shows a ratio.
    pub fn display(&self, ratio: &str) -> (row: String)
        ensures
            row@ == row_text(self@, ratio@),
    {
        let time_estimated: u64 = match self.get_time_estimated() {
            Some(v) => v,
            None => 0,
        };
        let time_actual: u64 = match self.get_time_actual() {
            Some(v) => v,
            None => 0,
        };
        let time_delta: u64 = if time_estimated == 0 || time_actual == 0 {
            0
        } else if time_estimated < time_actual {
            time_actual - time_estimated
        } else {
            time_estimated - time_actual
        };
        let print_color = if self.done() {
            TodoColor::White
        } else {
            self.get_color()
        };
        let ghost f = row_columns(self@, ratio@);
        proof {
            reveal_strlit("\t");
            reveal_strlit("/");
            assert("\t"@ == seq!['\t']);
            assert("/"@ == seq!['/']);
            lemma_join_nine(f, seq!['\t']);
        }
        let mut last = duration_to_human_string(time_delta);
        if time_estimated != 0 && time_actual != 0 {
            last.append("/");
            last.append(ratio);
            assert(last@ == human_duration(time_delta as nat) + (seq!['/'] + ratio@));
        } else {
            assert(last@ == human_duration(time_delta as nat) + Seq::<char>::empty());
        }
        assert(last@ == f[8]);
        let mut row = u64_to_string(self.get_id() as u64);
        row.append("\t");
        row.append(self.get_status().to_string().as_str());
        row.append("\t");
        row.append(i64_to_string(self.get_priority() as i64).as_str());
        row.append("\t");
        row.append(self.get_description().as_str());
        row.append("\t");
        row.append(self.get_projects().as_str());
        row.append("\t");
        row.append(self.get_categories().as_str());
        row.append("\t");
        row.append(duration_to_human_string(time_estimated).as_str());
        row.append("\t");
        row.append(duration_to_human_string(time_actual).as_str());
        row.append("\t");
        row.append(last.as_str());
        paint(print_color, row.as_str())
    }
}

} // verus!
