//! The run-level error type: a message surfaced verbatim to the caller when
//! a whole run is aborted, and the joining of diagnostic lines into one
//! message.

use vstd::prelude::*;

verus! {

/// An error that aborts a whole run, carrying its message.
pub struct Error {
    error: String,
}

impl View for Error {
    type V = Seq<char>;

    closed spec fn view(&self) -> Seq<char> {
        self.error@
    }
}

impl Error {
    /// Wraps a message.
    pub fn new(error: String) -> (r: Self)
        ensures
            r@ == error@,
    {
        Self { error }
    }

    /// The error's message.
    pub fn message(&self) -> (r: &str)
        ensures
            r@ == self@,
    {
        self.error.as_str()
    }

    /// One error carrying every given line, joined by `\r\n`.
    pub fn from_lines(lines: &Vec<String>) -> (r: Self)
        ensures
            r@ == join_crlf(lines.deep_view()),
    {
        Self::new(join_lines(lines))
    }
}

impl From<String> for Error {
    /// Wraps a message, as `Error::new` does.
    fn from(error: String) -> (r: Self) {
        Self { error }
    }
}

impl vstd::std_specs::convert::FromSpecImpl<String> for Error {
    open spec fn obeys_from_spec() -> bool {
        true
    }

    closed spec fn from_spec(t: String) -> Self {
        Error { error: t }
    }
}

/// `lines` joined with `\r\n` between consecutive lines.
pub open spec fn join_crlf(lines: Seq<Seq<char>>) -> Seq<char>
    decreases lines.len(),
{
    if lines.len() == 0 {
        Seq::empty()
    } else if lines.len() == 1 {
        lines[0]
    } else {
        join_crlf(lines.drop_last()) + "\r\n"@ + lines.last()
    }
}

/// Joins the lines with `\r\n` between consecutive lines.
pub fn join_lines(lines: &Vec<String>) -> (r: String)
    ensures
        r@ == join_crlf(lines.deep_view()),
{
    let mut out = String::new();
    let mut i: usize = 0;
    while i < lines.len()
        invariant
            i <= lines@.len(),
            out@ == join_crlf(lines.deep_view().take(i as int)),
        decreases lines@.len() - i,
    {
        proof {
            let dv = lines.deep_view();
            assert(dv.take(i + 1).drop_last() =~= dv.take(i as int));
            assert(dv.take(i + 1).last() == dv[i as int]);
            assert(dv[i as int] == lines@[i as int]@);
        }
        if i > 0 {
            out.append("\r\n");
        }
        out.append(lines[i].as_str());
        proof {
            if i == 0 {
                assert(out@ =~= lines.deep_view().take(1)[0]);
            }
        }
        i = i + 1;
    }
    proof {
        assert(lines.deep_view().take(lines@.len() as int) =~= lines.deep_view());
    }
    out
}

} // verus!
