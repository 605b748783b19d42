use vstd::prelude::*;

verus! {

/// One of the two replies that every question offers.
#[derive(Clone, Copy, Debug, PartialEq, Eq, Structural)]
pub enum Answer {
    A,
    B,
}

/// One recorded reply.
#[derive(Clone, Copy, Debug, PartialEq, Eq, Structural)]
pub struct Score {
    pub value: Answer,
}

impl Score {
    pub fn new(value: Answer) -> (r: Score)
        ensures
            r.value == value,
    {
        Score { value }
    }
}

/// What `str::trim` returns for a string.
pub uninterp spec fn trimmed(s: Seq<char>) -> Seq<char>;

/// Relies on `str::trim`: the string without leading and trailing white space.
#[verifier::external_body]
fn trim(s: &str) -> (r: &str)
    ensures
        r@ == trimmed(s@),
{
    s.trim()
}

/// The answer that a reply stands for, once trimmed: `a` or `b`, in either case.
pub open spec fn reply_answer(t: Seq<char>) -> Option<Answer> {
    if t == seq!['a'] || t == seq!['A'] {
        Some(Answer::A)
    } else if t == seq!['b'] || t == seq!['B'] {
        Some(Answer::B)
    } else {
        None
    }
}

/// Reads an already trimmed reply as an answer; `None` for anything else.
pub fn answer_of_trimmed(t: &str) -> (r: Option<Answer>)
    ensures
        r == reply_answer(t@),
{
    if t.unicode_len() != 1 {
        return None;
    }
    let c = t.get_char(0);
    if c == 'a' || c == 'A' {
        assert(t@ =~= seq!['a'] || t@ =~= seq!['A']);
        Some(Answer::A)
    } else if c == 'b' || c == 'B' {
        assert(t@ =~= seq!['b'] || t@ =~= seq!['B']);
        Some(Answer::B)
    } else {
        assert(t@ != seq!['a'] && t@ != seq!['A'] && t@ != seq!['b'] && t@ != seq!['B']);
        None
    }
}

/// Reads a line typed in reply to a question, ignoring surrounding white space.
pub fn parse_reply(reply: &str) -> (r: Option<Answer>)
    ensures
        r == reply_answer(trimmed(reply@)),
{
    answer_of_trimmed(trim(reply))
}

} // verus!
