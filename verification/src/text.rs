//! ASCII case folding and case-insensitive string equality.
//!
//! HTTP compares header names and the tokens this engine cares about without
//! regard to ASCII letter case. Everything here is stated over a string's
//! view, `Seq<char>`, so the rest of the crate can speak of "the lowercase
//! form" of a name or value in its contracts.

use vstd::prelude::*;

verus! {

/// The ASCII-lowercase of one character: `'A'..='Z'` map to `'a'..='z'`,
/// every other character is unchanged.
pub open spec fn lower_char(c: char) -> char {
    if 'A' <= c && c <= 'Z' {
        ((c as u32) + 32) as char
    } else {
        c
    }
}

/// The ASCII-lowercase of a string, character by character.
pub open spec fn lower(s: Seq<char>) -> Seq<char> {
    s.map_values(|c: char| lower_char(c))
}

/// Case-insensitive ASCII equality of two strings: equal lowercase forms.
pub open spec fn str_eq_ci(a: Seq<char>, b: Seq<char>) -> bool {
    lower(a) == lower(b)
}

/// Whether two characters are equal up to ASCII case.
pub fn chars_eq_ci(x: char, y: char) -> (r: bool)
    ensures
        r == (lower_char(x) == lower_char(y)),
{
    proof {
        lemma_chars_eq_ci_cases(x, y);
    }
    if x == y {
        true
    } else if 'A' <= x && x <= 'Z' {
        (x as u32) + 32 == (y as u32)
    } else if 'A' <= y && y <= 'Z' {
        (y as u32) + 32 == (x as u32)
    } else {
        false
    }
}

/// Two distinct characters fold to the same lowercase character exactly when
/// one is the uppercase ASCII form of the other.
proof fn lemma_chars_eq_ci_cases(x: char, y: char)
    ensures
        x != y && 'A' <= x && x <= 'Z' ==> (lower_char(x) == lower_char(y)
            <==> (x as u32) + 32 == (y as u32)),
        x != y && !('A' <= x && x <= 'Z') && 'A' <= y && y <= 'Z' ==> (lower_char(x)
            == lower_char(y) <==> (y as u32) + 32 == (x as u32)),
        x != y && !('A' <= x && x <= 'Z') && !('A' <= y && y <= 'Z') ==> lower_char(x)
            != lower_char(y),
{
    if 'A' <= x && x <= 'Z' {
        let u = (x as u32) + 32;
        assert((u as char) as u32 == u);
    }
    if 'A' <= y && y <= 'Z' {
        let u = (y as u32) + 32;
        assert((u as char) as u32 == u);
    }
}

/// Case-insensitive ASCII equality of two strings, as HTTP header semantics
/// ask for it: same length, and characters pairwise equal up to ASCII case.
pub fn eq_ignore_ascii_case(a: &str, b: &str) -> (r: bool)
    ensures
        r == str_eq_ci(a@, b@),
{
    let a_len = a.unicode_len();
    let b_len = b.unicode_len();
    if a_len != b_len {
        assert(lower(a@).len() != lower(b@).len());
        return false;
    }
    let mut i: usize = 0;
    while i < a_len
        invariant
            a_len == a@.len(),
            b_len == b@.len(),
            a_len == b_len,
            i <= a_len,
            forall|j: int| 0 <= j < i ==> lower_char(a@[j]) == lower_char(b@[j]),
        decreases a_len - i,
    {
        let ca = a.get_char(i);
        let cb = b.get_char(i);
        if !chars_eq_ci(ca, cb) {
            assert(lower(a@)[i as int] != lower(b@)[i as int]);
            return false;
        }
        i += 1;
    }
    assert(lower(a@) =~= lower(b@));
    true
}

} // verus!
