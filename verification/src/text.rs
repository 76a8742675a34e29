//! Text helpers shared by the name and link utilities: Unicode character
//! classes and lowercasing behind named results, decimal rendering of
//! numbers with its injectivity, and a pigeonhole argument for finding an
//! unused name.

use vstd::prelude::*;

verus! {

/// The lowercase form str::to_lowercase gives a text; a function of the
/// characters alone.
pub uninterp spec fn lower_of(s: Seq<char>) -> Seq<char>;

/// Whether char::is_alphanumeric holds of a character.
pub uninterp spec fn alnum_of(c: char) -> bool;

/// Whether char::is_whitespace holds of a character.
pub uninterp spec fn space_of(c: char) -> bool;

/// Relies on std's str::to_lowercase: the result depends on the characters
/// alone, an empty text stays empty, and the result is already lowercase,
/// so lowercasing it again returns it unchanged.
#[verifier::external_body]
pub(crate) fn lowercase(s: &str) -> (r: String)
    ensures
        r@ == lower_of(s@),
        s@.len() == 0 ==> r@.len() == 0,
        lower_of(r@) == r@,
{
    s.to_lowercase()
}

/// Relies on std's char::is_alphanumeric, a fixed Unicode character class.
#[verifier::external_body]
pub(crate) fn char_is_alphanumeric(c: char) -> (r: bool)
    ensures
        r == alnum_of(c),
{
    c.is_alphanumeric()
}

/// Relies on std's char::is_whitespace, a fixed Unicode character class.
#[verifier::external_body]
pub(crate) fn char_is_whitespace(c: char) -> (r: bool)
    ensures
        r == space_of(c),
{
    c.is_whitespace()
}

/// The sequence with its leading whitespace removed.
pub open spec fn trim_front(s: Seq<char>) -> Seq<char>
    decreases s.len(),
{
    if s.len() > 0 && space_of(s[0]) {
        trim_front(s.drop_first())
    } else {
        s
    }
}

/// The sequence with its trailing whitespace removed.
pub open spec fn trim_back(s: Seq<char>) -> Seq<char>
    decreases s.len(),
{
    if s.len() > 0 && space_of(s.last()) {
        trim_back(s.drop_last())
    } else {
        s
    }
}

/// The sequence with whitespace removed from both ends, as str::trim
/// leaves a text.
pub open spec fn trimmed(s: Seq<char>) -> Seq<char> {
    trim_back(trim_front(s))
}

/// The decimal digit character for a value below ten.
pub open spec fn dec_digit(d: int) -> char
    recommends
        0 <= d < 10,
{
    if d == 0 {
        '0'
    } else if d == 1 {
        '1'
    } else if d == 2 {
        '2'
    } else if d == 3 {
        '3'
    } else if d == 4 {
        '4'
    } else if d == 5 {
        '5'
    } else if d == 6 {
        '6'
    } else if d == 7 {
        '7'
    } else if d == 8 {
        '8'
    } else {
        '9'
    }
}

/// The decimal rendering of a number, most significant digit first.
pub open spec fn dec_str(n: nat) -> Seq<char>
    decreases n,
{
    if n < 10 {
        seq![dec_digit(n as int)]
    } else {
        dec_str(n / 10).push(dec_digit((n % 10) as int))
    }
}

pub proof fn lemma_dec_str_len(n: nat)
    ensures
        dec_str(n).len() >= 1,
    decreases n,
{
    if n >= 10 {
        lemma_dec_str_len(n / 10);
    }
}

/// Distinct numbers render distinctly.
pub proof fn lemma_dec_str_injective(a: nat, b: nat)
    requires
        a != b,
    ensures
        dec_str(a) != dec_str(b),
    decreases a + b,
{
    if a < 10 && b < 10 {
        assert(dec_str(a)[0] != dec_str(b)[0]);
    } else if a < 10 {
        lemma_dec_str_len(b / 10);
        assert(dec_str(b).len() >= 2);
    } else if b < 10 {
        lemma_dec_str_len(a / 10);
        assert(dec_str(a).len() >= 2);
    } else {
        if a % 10 != b % 10 {
            assert(dec_str(a).last() != dec_str(b).last());
        } else {
            assert(a / 10 != b / 10) by {
                if a / 10 == b / 10 {
                    assert(a == (a / 10) * 10 + a % 10);
                    assert(b == (b / 10) * 10 + b % 10);
                }
            }
            lemma_dec_str_injective(a / 10, b / 10);
            if dec_str(a) == dec_str(b) {
                assert(dec_str(a).drop_last() =~= dec_str(a / 10));
                assert(dec_str(b).drop_last() =~= dec_str(b / 10));
            }
        }
    }
}

/// The digit character for a value below ten.
fn digit_char(d: usize) -> (r: char)
    requires
        d < 10,
    ensures
        r == dec_digit(d as int),
{
    if d == 0 {
        '0'
    } else if d == 1 {
        '1'
    } else if d == 2 {
        '2'
    } else if d == 3 {
        '3'
    } else if d == 4 {
        '4'
    } else if d == 5 {
        '5'
    } else if d == 6 {
        '6'
    } else if d == 7 {
        '7'
    } else if d == 8 {
        '8'
    } else {
        '9'
    }
}

/// Render a number in decimal.
pub fn usize_to_dec(n: usize) -> (r: String)
    ensures
        r@ == dec_str(n as nat),
    decreases n,
{
    if n < 10 {
        let mut s = String::new();
        crate::crypto::push_char(&mut s, digit_char(n));
        s
    } else {
        let mut s = usize_to_dec(n / 10);
        crate::crypto::push_char(&mut s, digit_char(n % 10));
        s
    }
}

/// More pairwise-distinct values than slots: one of the values is free.
pub proof fn lemma_pigeonhole_free(cands: Seq<Seq<char>>, taken: Seq<Seq<char>>)
    requires
        forall|i: int, j: int| 0 <= i < j < cands.len() ==> cands[i] != cands[j],
        cands.len() > taken.len(),
    ensures
        exists|i: int| 0 <= i < cands.len() && !taken.contains(#[trigger] cands[i]),
    decreases cands.len(),
{
    let c0 = cands[0];
    if !taken.contains(c0) {
        assert(0 <= 0 < cands.len() && !taken.contains(cands[0]));
    } else {
        let j = choose|j: int| 0 <= j < taken.len() && taken[j] == c0;
        let taken2 = taken.remove(j);
        let cands2 = cands.drop_first();
        assert(forall|i: int, l: int| 0 <= i < l < cands2.len() ==> cands2[i] != cands2[l]);
        lemma_pigeonhole_free(cands2, taken2);
        let i = choose|i: int| 0 <= i < cands2.len() && !taken2.contains(#[trigger] cands2[i]);
        assert(cands2[i] == cands[i + 1]);
        assert(!taken.contains(cands[i + 1])) by {
            if taken.contains(cands[i + 1]) {
                let l = choose|l: int| 0 <= l < taken.len() && taken[l] == cands[i + 1];
                assert(cands[i + 1] != c0);
                assert(l != j);
                if l < j {
                    assert(taken2[l] == taken[l]);
                    assert(taken2.contains(cands[i + 1]));
                } else {
                    assert(taken2[l - 1] == taken[l]);
                    assert(taken2.contains(cands[i + 1]));
                }
            }
        }
        assert(0 <= i + 1 < cands.len() && !taken.contains(cands[i + 1]));
    }
}

} // verus!
