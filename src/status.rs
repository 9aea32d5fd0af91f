use crate::ticket::ValidationError;
use vstd::prelude::*;
use vstd::string::*;

verus! {

/// Where a ticket stands in its workflow.
#[derive(Clone, Copy, Debug, PartialEq, Eq, Structural, Hash)]
pub enum Status {
    ToDo,
    InProgress,
    Blocked,
    Done,
}

/// Text from outside that could not be read as a value of the domain.
#[derive(Clone, Copy, Debug, PartialEq, Eq, Structural)]
pub enum ParsingError {
    /// The text names no status.
    InvalidStatus,
    /// The text breaks the rule of a ticket field.
    InvalidField(ValidationError),
}

impl ParsingError {
    pub fn message(&self) -> (r: String)
        ensures
            r@ == match self {
                ParsingError::InvalidStatus => "Invalid status!"@,
                ParsingError::InvalidField(e) => e.message_text(),
            },
    {
        proof {
            reveal_strlit("Invalid status!");
        }
        match self {
            ParsingError::InvalidStatus => "Invalid status!".to_string(),
            ParsingError::InvalidField(e) => e.message(),
        }
    }
}

/// The status that a word names: `todo`, `inprogress`, `blocked` or `done`.
pub open spec fn status_named(s: Seq<char>) -> Option<Status> {
    if s == seq!['t', 'o', 'd', 'o'] {
        Some(Status::ToDo)
    } else if s == seq!['i', 'n', 'p', 'r', 'o', 'g', 'r', 'e', 's', 's'] {
        Some(Status::InProgress)
    } else if s == seq!['b', 'l', 'o', 'c', 'k', 'e', 'd'] {
        Some(Status::Blocked)
    } else if s == seq!['d', 'o', 'n', 'e'] {
        Some(Status::Done)
    } else {
        None
    }
}

fn same_text(s: &str, w: &str) -> (r: bool)
    ensures
        r == (s@ == w@),
{
    let n = s.unicode_len();
    if n != w.unicode_len() {
        return false;
    }
    let mut i: usize = 0;
    while i < n
        invariant
            n == s@.len(),
            n == w@.len(),
            i <= n,
            s@.subrange(0, i as int) == w@.subrange(0, i as int),
        decreases n - i,
    {
        if s.get_char(i) != w.get_char(i) {
            return false;
        }
        assert(s@.subrange(0, i + 1) =~= s@.subrange(0, i as int).push(s@[i as int]));
        assert(w@.subrange(0, i + 1) =~= w@.subrange(0, i as int).push(w@[i as int]));
        i = i + 1;
    }
    assert(s@ =~= s@.subrange(0, n as int));
    assert(w@ =~= w@.subrange(0, n as int));
    true
}

/// Reads a status from its word; any other text is refused.
pub fn parse_status(s: &str) -> (r: Result<Status, ParsingError>)
    ensures
        match status_named(s@) {
            Some(st) => r == Ok::<Status, ParsingError>(st),
            None => r == Err::<Status, ParsingError>(ParsingError::InvalidStatus),
        },
{
    proof {
        reveal_strlit("todo");
        reveal_strlit("inprogress");
        reveal_strlit("blocked");
        reveal_strlit("done");
        assert("todo"@ =~= seq!['t', 'o', 'd', 'o']);
        assert("inprogress"@ =~= seq!['i', 'n', 'p', 'r', 'o', 'g', 'r', 'e', 's', 's']);
        assert("blocked"@ =~= seq!['b', 'l', 'o', 'c', 'k', 'e', 'd']);
        assert("done"@ =~= seq!['d', 'o', 'n', 'e']);
    }
    if same_text(s, "todo") {
        Ok(Status::ToDo)
    } else if same_text(s, "inprogress") {
        Ok(Status::InProgress)
    } else if same_text(s, "blocked") {
        Ok(Status::Blocked)
    } else if same_text(s, "done") {
        Ok(Status::Done)
    } else {
        Err(ParsingError::InvalidStatus)
    }
}

impl std::str::FromStr for Status {
    type Err = ParsingError;

    fn from_str(s: &str) -> (r: Result<Status, ParsingError>)
        ensures
            match status_named(s@) {
                Some(st) => r == Ok::<Status, ParsingError>(st),
                None => r == Err::<Status, ParsingError>(ParsingError::InvalidStatus),
            },
    {
        parse_status(s)
    }
}

} // verus!
