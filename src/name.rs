//! Domain names: normalization to absolute form and case-insensitive comparison.

use vstd::prelude::*;
use vstd::string::*;

verus! {

/// A name is absolute when it ends with the root label's dot.
pub open spec fn is_absolute(s: Seq<char>) -> bool {
    s.len() > 0 && s.last() == '.'
}

/// The absolute form of a name: a trailing dot is appended when missing.
pub open spec fn absolute_form(s: Seq<char>) -> Seq<char> {
    if is_absolute(s) {
        s
    } else {
        s.push('.')
    }
}

pub open spec fn is_ascii_upper(c: char) -> bool {
    'A' <= c && c <= 'Z'
}

/// Two characters are equal when ASCII letter case is ignored.
pub open spec fn chars_match(a: char, b: char) -> bool {
    ||| a == b
    ||| is_ascii_upper(a) && b as u32 == a as u32 + 32
    ||| is_ascii_upper(b) && a as u32 == b as u32 + 32
}

/// Two names are the same DNS name: equal up to ASCII letter case.
pub open spec fn same_name(a: Seq<char>, b: Seq<char>) -> bool {
    &&& a.len() == b.len()
    &&& forall|i: int| 0 <= i < a.len() ==> #[trigger] chars_match(a[i], b[i])
}

fn char_eq_ignore_case(a: char, b: char) -> (r: bool)
    ensures
        r == chars_match(a, b),
{
    let x = a as u32;
    let y = b as u32;
    if a == b {
        true
    } else if 65 <= x && x <= 90 {
        y == x + 32
    } else if 65 <= y && y <= 90 {
        x == y + 32
    } else {
        false
    }
}

/// Returns the absolute form of `s`, appending the root dot when missing.
/// The rest of the name is kept as written, letter case included.
pub fn normalize_name(s: &str) -> (r: String)
    ensures
        r@ == absolute_form(s@),
        is_absolute(r@),
{
    let n = s.unicode_len();
    let mut r = String::from_str(s);
    if n > 0 && s.get_char(n - 1) == '.' {
        r
    } else {
        r.append(".");
        proof {
            reveal_strlit(".");
        }
        r
    }
}

/// Compares two names as DNS does: letter case is ignored.
pub fn names_equal(a: &str, b: &str) -> (r: bool)
    ensures
        r == same_name(a@, b@),
{
    let n = a.unicode_len();
    if n != b.unicode_len() {
        return false;
    }
    let mut i: usize = 0;
    while i < n
        invariant
            n == a@.len(),
            n == b@.len(),
            i <= n,
            forall|j: int| 0 <= j < i ==> #[trigger] chars_match(a@[j], b@[j]),
        decreases n - i,
    {
        if !char_eq_ignore_case(a.get_char(i), b.get_char(i)) {
            return false;
        }
        i = i + 1;
    }
    true
}

} // verus!
