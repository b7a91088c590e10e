//! The two kinds of failure the library reports, each carrying a message.

use vstd::prelude::*;
use vstd::string::StringExecFns;

verus! {

/// A field or a record that could not be read.
#[derive(Debug)]
pub struct ParseTodoError {
    msg: String,
}

impl View for ParseTodoError {
    type V = Seq<char>;

    /// The message, without the prefix that `to_string` puts before it.
    closed spec fn view(&self) -> Seq<char> {
        self.msg@
    }
}

impl ParseTodoError {
    /// An error with the message `s`.
    pub fn new(s: &str) -> (e: ParseTodoError)
        ensures
            e@ == s@,
    {
        ParseTodoError { msg: String::from_str(s) }
    }

    /// The error as shown to the user.
    pub fn to_string(&self) -> (s: String)
        ensures
            s@ == "Parsing error: "@ + self@,
    {
        String::from_str("Parsing error: ").concat(self.msg.as_str())
    }
}

/// A task file that could not be loaded.
#[derive(Debug)]
pub struct TodoIOError {
    msg: String,
}

impl View for TodoIOError {
    type V = Seq<char>;

    /// The message, without the prefix that `to_string` puts before it.
    closed spec fn view(&self) -> Seq<char> {
        self.msg@
    }
}

impl TodoIOError {
    /// An error with the message `s`.
    pub fn new(s: &str) -> (e: TodoIOError)
        ensures
            e@ == s@,
    {
        TodoIOError { msg: String::from_str(s) }
    }

    /// The error as shown to the user.
    pub fn to_string(&self) -> (s: String)
        ensures
            s@ == "Todo IO Error: "@ + self@,
    {
        String::from_str("Todo IO Error: ").concat(self.msg.as_str())
    }
}

} // verus!
