//! The search filter: a search term is either the name of a status, and then
//! finds the tasks of that status, or any other text, and then finds the
//! tasks that hold it in their description, projects or categories, whatever
//! the case of the letters.

use vstd::prelude::*;
use crate::record::TodoView;
use crate::status::{TodoStatus, status_name, status_named, lemma_status_names};
use crate::text::{chars_of, contains_chars, is_infix};
use crate::todo::Todo;

verus! {

/// The text `s` in upper case, as the standard library writes it.
pub uninterp spec fn uppercase_of(s: Seq<char>) -> Seq<char>;

/// Writes `s` in upper case.
///
/// Trusted: `str::to_uppercase`. Its result depends on the text alone; the
/// contract gives it a name and says nothing more of it.
#[verifier::external_body]
pub(crate) fn to_uppercase(s: &str) -> (r: String)
    ensures
        r@ == uppercase_of(s@),
{
    s.to_uppercase()
}

/// Whether a task with the given status and texts is found under `needle`,
/// where `upper_needle` and the three texts are already in upper case.
pub open spec fn matches_uppercased(
    status: TodoStatus,
    needle: Seq<char>,
    upper_needle: Seq<char>,
    upper_description: Seq<char>,
    upper_projects: Seq<char>,
    upper_categories: Seq<char>,
) -> bool {
    match status_named(needle) {
        Some(named) => status == named,
        None => needle.len() == 0 || is_infix(upper_needle, upper_description) || is_infix(
            upper_needle,
            upper_projects,
        ) || is_infix(upper_needle, upper_categories),
    }
}

/// Whether the task `t` is found under the search term `needle`.
pub open spec fn matches(t: TodoView, needle: Seq<char>) -> bool {
    matches_uppercased(
        t.status,
        needle,
        uppercase_of(needle),
        uppercase_of(t.description),
        uppercase_of(t.projects),
        uppercase_of(t.categories),
    )
}

/// The empty search term finds every task, and the name of a status finds
/// exactly the tasks of that status.
pub proof fn lemma_filter(t: TodoView, status: TodoStatus)
    ensures
        matches(t, Seq::empty()),
        matches(t, status_name(status)) <==> t.status == status,
{
    lemma_status_names(status);
    lemma_empty_names_no_status();
}

/// No status has the empty name.
pub proof fn lemma_empty_names_no_status()
    ensures
        status_named(Seq::empty()) is None,
{
    reveal_strlit("New");
    reveal_strlit("Backlog");
    reveal_strlit("Next");
    reveal_strlit("Planned");
    reveal_strlit("Doing");
    reveal_strlit("Review");
    reveal_strlit("Done");
    reveal_strlit("Deleted");
    let e = Seq::<char>::empty();
    assert(e.len() == 0);
    assert("New"@.len() == 3);
    assert("Backlog"@.len() == 7);
    assert("Next"@.len() == 4);
    assert("Planned"@.len() == 7);
    assert("Doing"@.len() == 5);
    assert("Review"@.len() == 6);
    assert("Done"@.len() == 4);
    assert("Deleted"@.len() == 7);
}

/// Decides the filter from texts that are already in upper case.
pub fn filter_uppercased(
    status: TodoStatus,
    needle: &str,
    upper_needle: &str,
    upper_description: &str,
    upper_projects: &str,
    upper_categories: &str,
) -> (b: bool)
    ensures
        b == matches_uppercased(
            status,
            needle@,
            upper_needle@,
            upper_description@,
            upper_projects@,
            upper_categories@,
        ),
{
    match TodoStatus::from_str(needle) {
        Ok(named) => status == named,
        Err(_) => {
            if chars_of(needle).len() == 0 {
                return true;
            }
            let upper = chars_of(upper_needle);
            contains_chars(&chars_of(upper_description), &upper) || contains_chars(
                &chars_of(upper_projects),
                &upper,
            ) || contains_chars(&chars_of(upper_categories), &upper)
        },
    }
}

impl Todo {
    /// Whether the task is found under the search term `needle`.
    pub fn filter(&self, needle: &str) -> (b: bool)
        ensures
            b == matches(self@, needle@),
    {
        let upper_needle = to_uppercase(needle);
        let upper_description = to_uppercase(self.get_description().as_str());
        let upper_projects = to_uppercase(self.get_projects().as_str());
        let upper_categories = to_uppercase(self.get_categories().as_str());
        filter_uppercased(
            self.get_status(),
            needle,
            upper_needle.as_str(),
            upper_description.as_str(),
            upper_projects.as_str(),
            upper_categories.as_str(),
        )
    }
}

} // verus!
