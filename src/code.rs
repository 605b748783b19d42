use vstd::prelude::*;

use crate::answer::Score;
use crate::tally::{pairs_view, tallies};

verus! {

/// Letter of dichotomy `d` when answers `A` are in the majority.
pub open spec fn first_letter(d: int) -> char {
    if d == 0 {
        'E'
    } else if d == 1 {
        'S'
    } else if d == 2 {
        'T'
    } else {
        'J'
    }
}

/// Letter of dichotomy `d` when answers `B` are in the majority.
pub open spec fn second_letter(d: int) -> char {
    if d == 0 {
        'I'
    } else if d == 1 {
        'N'
    } else if d == 2 {
        'F'
    } else {
        'P'
    }
}

/// Marks an exact tie on a dichotomy.
pub const TIE: char = 'X';

/// The letter that a tally (answers `A`, answers `B`) gives dichotomy `d`.
pub open spec fn letter(d: int, t: (int, int)) -> char {
    if t.0 > t.1 {
        first_letter(d)
    } else if t.0 < t.1 {
        second_letter(d)
    } else {
        'X'
    }
}

/// The temperament code of the ten tallies: dichotomies 0 to 3 read the
/// tallies at positions 0, 3, 6 and 9.
pub open spec fn code_of_tallies(t: Seq<(int, int)>) -> Seq<char> {
    seq![letter(0, t[0]), letter(1, t[3]), letter(2, t[6]), letter(3, t[9])]
}

/// The temperament code of a sequence of batches.
pub open spec fn code_of(b: Seq<Seq<Score>>) -> Seq<char> {
    code_of_tallies(tallies(b))
}

/// The two letters of dichotomy `d`: for a majority of `A`, then of `B`.
pub fn letters(d: usize) -> (r: (char, char))
    requires
        d < 4,
    ensures
        r == (first_letter(d as int), second_letter(d as int)),
{
    if d == 0 {
        ('E', 'I')
    } else if d == 1 {
        ('S', 'N')
    } else if d == 2 {
        ('T', 'F')
    } else {
        ('J', 'P')
    }
}

/// Resolves one dichotomy from its tally by strict majority; a tie gives `X`.
pub fn resolve(pair: (usize, usize), dichotomy: usize) -> (r: char)
    requires
        dichotomy < 4,
    ensures
        r == letter(dichotomy as int, (pair.0 as int, pair.1 as int)),
{
    let (first, second) = letters(dichotomy);
    if pair.0 > pair.1 {
        first
    } else if pair.0 < pair.1 {
        second
    } else {
        TIE
    }
}

/// Relies on `String::push`: appends the given char to the end of the string.
#[verifier::external_body]
fn push_char(s: &mut String, c: char)
    ensures
        final(s)@ == old(s)@.push(c),
{
    s.push(c);
}

/// The temperament code of ten tallies, as laid out by `aggregate`.
pub fn code_from_tallies(t: &Vec<(usize, usize)>) -> (r: String)
    requires
        t@.len() == 10,
    ensures
        r@ == code_of_tallies(pairs_view(t@)),
{
    let mut code = String::new();
    push_char(&mut code, resolve(t[0], 0));
    push_char(&mut code, resolve(t[3], 1));
    push_char(&mut code, resolve(t[6], 2));
    push_char(&mut code, resolve(t[9], 3));
    assert(code@ =~= code_of_tallies(pairs_view(t@)));
    code
}

} // verus!
