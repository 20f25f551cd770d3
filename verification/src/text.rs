//! Shared text-scanning helpers for the requirement grammars.

use vstd::prelude::*;
use vstd::string::StrSliceExecFns;

verus! {

/// Whitespace inside a requirement line.
pub open spec fn is_space(c: char) -> bool {
    c == ' ' || c == '\t'
}

/// The first position at or after `i` that holds a non-space character, or
/// the end of the text.
pub open spec fn skip_ws_from(s: Seq<char>, i: int) -> int
    decreases s.len() - i,
{
    if 0 <= i < s.len() && is_space(s[i]) {
        skip_ws_from(s, i + 1)
    } else {
        i
    }
}

/// The end of the text once trailing spaces before position `j` are dropped.
pub open spec fn rtrim_to(s: Seq<char>, j: int) -> int
    decreases j,
{
    if 0 < j <= s.len() && is_space(s[j - 1]) {
        rtrim_to(s, j - 1)
    } else {
        j
    }
}

pub proof fn lemma_skip_ws_bounds(s: Seq<char>, i: int)
    requires
        0 <= i <= s.len(),
    ensures
        i <= skip_ws_from(s, i) <= s.len(),
        forall|k: int| i <= k < skip_ws_from(s, i) ==> is_space(#[trigger] s[k]),
        skip_ws_from(s, i) < s.len() ==> !is_space(s[skip_ws_from(s, i)]),
    decreases s.len() - i,
{
    if i < s.len() && is_space(s[i]) {
        lemma_skip_ws_bounds(s, i + 1);
    }
}

pub proof fn lemma_rtrim_bounds(s: Seq<char>, j: int)
    requires
        0 <= j <= s.len(),
    ensures
        0 <= rtrim_to(s, j) <= j,
        forall|k: int| rtrim_to(s, j) <= k < j ==> is_space(#[trigger] s[k]),
        rtrim_to(s, j) > 0 ==> !is_space(s[rtrim_to(s, j) - 1]),
    decreases j,
{
    if 0 < j && is_space(s[j - 1]) {
        lemma_rtrim_bounds(s, j - 1);
    }
}

/// Whether two texts are the same character sequence.
pub fn str_eq(a: &str, b: &str) -> (r: bool)
    ensures
        r == (a@ == b@),
{
    let n = a.unicode_len();
    if n != b.unicode_len() {
        return false;
    }
    let mut i: usize = 0;
    while i < n
        invariant
            0 <= i <= n,
            n == a@.len() && n == b@.len(),
            forall|j: int| 0 <= j < i ==> a@[j] == b@[j],
        decreases n - i,
    {
        if a.get_char(i) != b.get_char(i) {
            return false;
        }
        i = i + 1;
    }
    proof {
        assert(a@ =~= b@);
    }
    true
}

/// Whether the character at position `j` is a space.
fn ws_at(s: &str, j: usize) -> (r: bool)
    requires
        j < s@.len(),
    ensures
        r == is_space(s@[j as int]),
{
    let c = s.get_char(j);
    c == ' ' || c == '\t'
}

/// Advances past spaces, starting at `i`.
pub fn skip_ws(s: &str, i: usize) -> (j: usize)
    requires
        i <= s@.len(),
    ensures
        j as int == skip_ws_from(s@, i as int),
        i <= j <= s@.len(),
    decreases s@.len() - i,
{
    proof {
        lemma_skip_ws_bounds(s@, i as int);
    }
    let n = s.unicode_len();
    let mut j = i;
    while j < n && ws_at(s, j)
        invariant
            i <= j <= n,
            n == s@.len(),
            skip_ws_from(s@, i as int) == skip_ws_from(s@, j as int),
        decreases n - j,
    {
        j = j + 1;
    }
    j
}

/// Steps back over trailing spaces before position `j`.
pub fn rtrim(s: &str, j: usize) -> (b: usize)
    requires
        j <= s@.len(),
    ensures
        b as int == rtrim_to(s@, j as int),
        b <= j,
    decreases j,
{
    let mut b = j;
    while b > 0 && ws_at(s, b - 1)
        invariant
            0 <= b <= j <= s@.len(),
            rtrim_to(s@, j as int) == rtrim_to(s@, b as int),
        decreases b,
    {
        b = b - 1;
    }
    b
}

} // verus!
