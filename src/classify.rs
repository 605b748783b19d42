use vstd::prelude::*;

use crate::code::{first_letter, letters, second_letter, TIE};

verus! {

/// The four temperament families.
#[derive(Clone, Copy, Debug, PartialEq, Eq, Structural)]
pub enum TemperamentType {
    Artisan,
    Guardian,
    Idealist,
    Rational,
}

impl TemperamentType {
    /// The heading that introduces the family's description.
    pub fn heading(&self) -> (r: &'static str)
        ensures
            *self == TemperamentType::Artisan ==> r@ == "- Artisan: \n"@,
            *self == TemperamentType::Guardian ==> r@ == "- Guardian: \n"@,
            *self == TemperamentType::Idealist ==> r@ == "- Idealist: \n"@,
            *self == TemperamentType::Rational ==> r@ == "- Rational: \n"@,
    {
        match self {
            TemperamentType::Artisan => "- Artisan: \n",
            TemperamentType::Guardian => "- Guardian: \n",
            TemperamentType::Idealist => "- Idealist: \n",
            TemperamentType::Rational => "- Rational: \n",
        }
    }
}

/// The descriptive text of each family.
pub struct Temperaments {
    pub artisan: String,
    pub guardian: String,
    pub idealist: String,
    pub rational: String,
}

impl Temperaments {
    /// The description of family `t`.
    pub fn description(&self, t: TemperamentType) -> (r: &String)
        ensures
            t == TemperamentType::Artisan ==> r == &self.artisan,
            t == TemperamentType::Guardian ==> r == &self.guardian,
            t == TemperamentType::Idealist ==> r == &self.idealist,
            t == TemperamentType::Rational ==> r == &self.rational,
    {
        match t {
            TemperamentType::Artisan => &self.artisan,
            TemperamentType::Guardian => &self.guardian,
            TemperamentType::Idealist => &self.idealist,
            TemperamentType::Rational => &self.rational,
        }
    }
}

/// What a temperament code classifies as.
#[derive(Clone, Copy, Debug, PartialEq, Eq, Structural)]
pub enum Classification {
    /// The code matches a pattern of this family.
    Category(TemperamentType),
    /// All four dichotomies are tied.
    AllTied,
    /// The code matches no pattern.
    Unclassified,
}

/// The patterns of each family, over the letters of the code and `X`.
pub open spec fn patterns(t: TemperamentType) -> Seq<Seq<char>> {
    match t {
        TemperamentType::Artisan => seq![
            seq!['I', 'S', 'F', 'P'],
            seq!['X', 'S', 'F', 'P'],
            seq!['X', 'S', 'T', 'P'],
            seq!['X', 'S', 'X', 'P'],
            seq!['E', 'S', 'X', 'P'],
            seq!['I', 'S', 'T', 'P'],
            seq!['I', 'S', 'X', 'P'],
            seq!['E', 'S', 'F', 'P'],
            seq!['E', 'S', 'T', 'P'],
        ],
        TemperamentType::Guardian => seq![
            seq!['I', 'S', 'F', 'J'],
            seq!['X', 'S', 'F', 'J'],
            seq!['I', 'S', 'X', 'J'],
            seq!['E', 'S', 'X', 'J'],
            seq!['X', 'S', 'X', 'J'],
            seq!['X', 'S', 'T', 'J'],
            seq!['E', 'S', 'F', 'J'],
            seq!['E', 'S', 'T', 'J'],
            seq!['I', 'S', 'T', 'J'],
        ],
        TemperamentType::Idealist => seq![
            seq!['I', 'N', 'F', 'P'],
            seq!['I', 'N', 'F', 'J'],
            seq!['E', 'N', 'F', 'P'],
            seq!['E', 'N', 'F', 'J'],
            seq!['X', 'N', 'F', 'X'],
            seq!['E', 'N', 'F', 'X'],
            seq!['I', 'N', 'F', 'X'],
            seq!['X', 'N', 'F', 'J'],
            seq!['X', 'N', 'F', 'P'],
        ],
        TemperamentType::Rational => seq![
            seq!['I', 'N', 'T', 'P'],
            seq!['I', 'N', 'T', 'J'],
            seq!['E', 'N', 'T', 'P'],
            seq!['E', 'N', 'T', 'J'],
            seq!['X', 'N', 'T', 'X'],
            seq!['E', 'N', 'T', 'X'],
            seq!['I', 'N', 'T', 'X'],
            seq!['X', 'N', 'T', 'J'],
            seq!['X', 'N', 'T', 'P'],
        ],
    }
}

/// The code letters that can stand at position `d`.
pub open spec fn admits(d: int, c: char) -> bool {
    c == first_letter(d) || c == second_letter(d) || c == 'X'
}

/// Position `d` of a pattern accepts code letter `c`: the same letter, or
/// `X` in the pattern for any letter of that position or a tie.
pub open spec fn position_matches(d: int, p: char, c: char) -> bool {
    p == c || (p == 'X' && admits(d, c))
}

/// A pattern accepts a four-letter code position by position.
pub open spec fn matches(pattern: Seq<char>, code: Seq<char>) -> bool {
    &&& pattern.len() == 4
    &&& code.len() == 4
    &&& forall|d: int| 0 <= d < 4 ==> #[trigger] position_matches(d, pattern[d], code[d])
}

/// Some pattern of family `t` accepts the code.
pub open spec fn matches_family(code: Seq<char>, t: TemperamentType) -> bool {
    exists|k: int| 0 <= k < patterns(t).len() && #[trigger] matches(patterns(t)[k], code)
}

/// All four dichotomies are tied.
pub open spec fn all_tied(code: Seq<char>) -> bool {
    code == seq!['X', 'X', 'X', 'X']
}

/// The classification of a temperament code.
pub open spec fn classification_of(code: Seq<char>) -> Classification {
    if all_tied(code) {
        Classification::AllTied
    } else if matches_family(code, TemperamentType::Artisan) {
        Classification::Category(TemperamentType::Artisan)
    } else if matches_family(code, TemperamentType::Guardian) {
        Classification::Category(TemperamentType::Guardian)
    } else if matches_family(code, TemperamentType::Idealist) {
        Classification::Category(TemperamentType::Idealist)
    } else if matches_family(code, TemperamentType::Rational) {
        Classification::Category(TemperamentType::Rational)
    } else {
        Classification::Unclassified
    }
}

/// Letters that every pattern of a family fixes: the second letter, and the
/// fourth (Artisan, Guardian) or third (Idealist, Rational).
proof fn lemma_family_letters(t: TemperamentType, k: int)
    requires
        0 <= k < 9,
    ensures
        patterns(t).len() == 9,
        patterns(t)[k].len() == 4,
        t == TemperamentType::Artisan ==> patterns(t)[k][1] == 'S' && patterns(t)[k][3] == 'P',
        t == TemperamentType::Guardian ==> patterns(t)[k][1] == 'S' && patterns(t)[k][3] == 'J',
        t == TemperamentType::Idealist ==> patterns(t)[k][1] == 'N' && patterns(t)[k][2] == 'F',
        t == TemperamentType::Rational ==> patterns(t)[k][1] == 'N' && patterns(t)[k][2] == 'T',
{
}

/// The families' patterns are mutually exclusive, so a code that a pattern
/// of family `t` accepts classifies as `t`, whatever order the families are
/// tried in.
pub proof fn lemma_pattern_decides(code: Seq<char>, t: TemperamentType, k: int)
    requires
        0 <= k < patterns(t).len(),
        matches(patterns(t)[k], code),
    ensures
        classification_of(code) == Classification::Category(t),
{
    lemma_family_letters(t, k);
    let p = patterns(t)[k];
    assert(position_matches(1, p[1], code[1]));
    assert(position_matches(2, p[2], code[2]));
    assert(position_matches(3, p[3], code[3]));
    assert(code[1] == p[1]);
    assert(!all_tied(code));
    assert forall|u: TemperamentType, j: int|
        0 <= j < 9 && u != t implies !#[trigger] matches(patterns(u)[j], code) by {
        lemma_family_letters(u, j);
        let q = patterns(u)[j];
        if matches(q, code) {
            assert(position_matches(1, q[1], code[1]));
            assert(position_matches(2, q[2], code[2]));
            assert(position_matches(3, q[3], code[3]));
        }
    }
    assert(matches_family(code, t));
}

/// The pattern table of one family.
fn family_patterns(t: TemperamentType) -> (r: [[char; 4]; 9])
    ensures
        forall|k: int| 0 <= k < 9 ==> (#[trigger] r[k])@ == patterns(t)[k],
{
    match t {
        TemperamentType::Artisan => [
            ['I', 'S', 'F', 'P'],
            ['X', 'S', 'F', 'P'],
            ['X', 'S', 'T', 'P'],
            ['X', 'S', 'X', 'P'],
            ['E', 'S', 'X', 'P'],
            ['I', 'S', 'T', 'P'],
            ['I', 'S', 'X', 'P'],
            ['E', 'S', 'F', 'P'],
            ['E', 'S', 'T', 'P'],
        ],
        TemperamentType::Guardian => [
            ['I', 'S', 'F', 'J'],
            ['X', 'S', 'F', 'J'],
            ['I', 'S', 'X', 'J'],
            ['E', 'S', 'X', 'J'],
            ['X', 'S', 'X', 'J'],
            ['X', 'S', 'T', 'J'],
            ['E', 'S', 'F', 'J'],
            ['E', 'S', 'T', 'J'],
            ['I', 'S', 'T', 'J'],
        ],
        TemperamentType::Idealist => [
            ['I', 'N', 'F', 'P'],
            ['I', 'N', 'F', 'J'],
            ['E', 'N', 'F', 'P'],
            ['E', 'N', 'F', 'J'],
            ['X', 'N', 'F', 'X'],
            ['E', 'N', 'F', 'X'],
            ['I', 'N', 'F', 'X'],
            ['X', 'N', 'F', 'J'],
            ['X', 'N', 'F', 'P'],
        ],
        TemperamentType::Rational => [
            ['I', 'N', 'T', 'P'],
            ['I', 'N', 'T', 'J'],
            ['E', 'N', 'T', 'P'],
            ['E', 'N', 'T', 'J'],
            ['X', 'N', 'T', 'X'],
            ['E', 'N', 'T', 'X'],
            ['I', 'N', 'T', 'X'],
            ['X', 'N', 'T', 'J'],
            ['X', 'N', 'T', 'P'],
        ],
    }
}

/// Whether one pattern accepts a code.
fn pattern_matches(pattern: &[char; 4], code: &[char; 4]) -> (r: bool)
    ensures
        r == matches(pattern@, code@),
{
    let mut d: usize = 0;
    while d < 4
        invariant
            d <= 4,
            forall|e: int| 0 <= e < d ==> #[trigger] position_matches(e, pattern@[e], code@[e]),
        decreases 4 - d,
    {
        let (first, second) = letters(d);
        let p = pattern[d];
        let c = code[d];
        if !(p == c || (p == TIE && (c == first || c == second || c == TIE))) {
            assert(!position_matches(d as int, pattern@[d as int], code@[d as int]));
            return false;
        }
        d += 1;
    }
    true
}

/// Whether a pattern of family `t` accepts a code.
fn family_matches(code: &[char; 4], t: TemperamentType) -> (r: bool)
    ensures
        r == matches_family(code@, t),
{
    let table = family_patterns(t);
    let mut k: usize = 0;
    while k < 9
        invariant
            k <= 9,
            forall|j: int| 0 <= j < 9 ==> (#[trigger] table[j])@ == patterns(t)[j],
            forall|j: int| 0 <= j < k ==> !#[trigger] matches(patterns(t)[j], code@),
        decreases 9 - k,
    {
        if pattern_matches(&table[k], code) {
            assert(table[k as int]@ == patterns(t)[k as int]);
            return true;
        }
        k += 1;
    }
    assert(patterns(t).len() == 9);
    false
}

/// Classifies a temperament code. `XXXX` is `AllTied`; otherwise the code
/// falls into the family with a pattern that accepts it, or is
/// `Unclassified` when there is none (codes of other lengths included).
pub fn classify(code: &str) -> (r: Classification)
    ensures
        r == classification_of(code@),
{
    if code.unicode_len() != 4 {
        return Classification::Unclassified;
    }
    let chars = [code.get_char(0), code.get_char(1), code.get_char(2), code.get_char(3)];
    assert(chars@ =~= code@);
    if chars[0] == TIE && chars[1] == TIE && chars[2] == TIE && chars[3] == TIE {
        Classification::AllTied
    } else if family_matches(&chars, TemperamentType::Artisan) {
        Classification::Category(TemperamentType::Artisan)
    } else if family_matches(&chars, TemperamentType::Guardian) {
        Classification::Category(TemperamentType::Guardian)
    } else if family_matches(&chars, TemperamentType::Idealist) {
        Classification::Category(TemperamentType::Idealist)
    } else if family_matches(&chars, TemperamentType::Rational) {
        Classification::Category(TemperamentType::Rational)
    } else {
        Classification::Unclassified
    }
}

} // verus!
