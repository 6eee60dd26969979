//! The error of the library: the text that the user gets to see.

use vstd::prelude::*;
use vstd::string::StringExecFns;

verus! {

/// Why something failed, from the outermost circumstance to the cause, parted by colons.
#[derive(Debug)]
pub struct Error {
    pub text: String,
}

impl View for Error {
    type V = Seq<char>;

    open spec fn view(&self) -> Seq<char> {
        self.text@
    }
}

/// A cause with the circumstance in which it arose in front of it.
pub open spec fn within(what: Seq<char>, cause: Seq<char>) -> Seq<char> {
    what + ": "@ + cause
}

impl Error {
    /// An error with the given text.
    pub fn new(text: String) -> (e: Error)
        ensures
            e@ == text@,
    {
        Error { text }
    }

    /// The error that `what` met with `cause`.
    pub fn of(what: &str, cause: &str) -> (e: Error)
        ensures
            e@ == within(what@, cause@),
    {
        Error { text: what.to_owned().concat(": ").concat(cause) }
    }

    /// The error with the circumstance `what` in front of it.
    pub fn within(self, what: &str) -> (e: Error)
        ensures
            e@ == within(what@, self@),
    {
        Error::of(what, self.text.as_str())
    }

    /// The line that tells the user of the error.
    pub fn report(&self) -> (s: String)
        ensures
            s@ == within("nixvm"@, self@),
    {
        "nixvm".to_owned().concat(": ").concat(self.text.as_str())
    }
}

/// What is put in front of a cause leaves the cause whole: the error starts with the circumstance and ends
/// in the cause, with a colon and a space between them and nothing else.
pub proof fn law_causes_are_told_whole(what: Seq<char>, cause: Seq<char>)
    ensures
        within(what, cause).len() == what.len() + 2 + cause.len(),
        within(what, cause).take(what.len() as int) == what,
        within(what, cause)[what.len() as int] == ':',
        within(what, cause)[what.len() as int + 1] == ' ',
        within(what, cause).skip(what.len() as int + 2) == cause,
{
    reveal_strlit(": ");
    assert(within(what, cause).take(what.len() as int) =~= what);
    assert(within(what, cause).skip(what.len() as int + 2) =~= cause);
}

} // verus!
