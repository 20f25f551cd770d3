//! Version-range predicates: an immutable set of specifiers such as
//! `>=1.2,<2`, kept as operator plus version text.

use vstd::prelude::*;
use vstd::string::StrSliceExecFns;
use vstd::string::StringExecFns;
use crate::name::is_name_alnum;
use crate::text::{is_space, skip_ws_from, rtrim_to, skip_ws, rtrim};
use crate::text::{lemma_skip_ws_bounds, lemma_rtrim_bounds};

verus! {

/// A comparison operator of one version predicate.
#[derive(Debug, Clone, Copy, PartialEq, Eq, Structural)]
pub enum SpecifierOperator {
    /// `==`
    Equal,
    /// `!=`
    NotEqual,
    /// `<=`
    LessThanEqual,
    /// `>=`
    GreaterThanEqual,
    /// `<`
    LessThan,
    /// `>`
    GreaterThan,
    /// `~=`
    TildeEqual,
    /// `===`
    ExactEqual,
}

/// The mathematical content of one version predicate.
pub ghost struct SpecifierView {
    pub op: SpecifierOperator,
    pub version: Seq<char>,
}

/// One version predicate: an operator and the version text it compares to.
#[derive(Debug)]
pub struct VersionSpecifier {
    pub op: SpecifierOperator,
    pub version: String,
}

impl View for VersionSpecifier {
    type V = SpecifierView;

    open spec fn view(&self) -> SpecifierView {
        SpecifierView { op: self.op, version: self.version@ }
    }
}

/// An immutable set of version predicates, in the order they were written.
#[derive(Debug)]
pub struct VersionSpecifiers {
    pub specifiers: Vec<VersionSpecifier>,
}

impl View for VersionSpecifiers {
    type V = Seq<SpecifierView>;

    open spec fn view(&self) -> Seq<SpecifierView> {
        self.specifiers@.map_values(|sp: VersionSpecifier| sp@)
    }
}

impl Clone for VersionSpecifier {
    fn clone(&self) -> (r: Self)
        ensures
            r@ == self@,
    {
        VersionSpecifier { op: self.op, version: self.version.clone() }
    }
}

impl Clone for VersionSpecifiers {
    fn clone(&self) -> (r: Self)
        ensures
            r@ == self@,
    {
        let specifiers = self.specifiers.clone();
        proof {
            assert(specifiers@.map_values(|sp: VersionSpecifier| sp@) =~= self.specifiers@
                .map_values(|sp: VersionSpecifier| sp@));
        }
        VersionSpecifiers { specifiers }
    }
}

/// A character allowed inside version text.
pub open spec fn is_version_char(c: char) -> bool {
    is_name_alnum(c) || c == '.' || c == '*' || c == '+' || c == '!' || c == '-' || c == '_'
}

/// A well-formed specifier view: its version text is nonempty and holds
/// version characters only.
pub open spec fn wf_specifier(sp: SpecifierView) -> bool {
    &&& sp.version.len() > 0
    &&& forall|i: int| 0 <= i < sp.version.len() ==> is_version_char(#[trigger] sp.version[i])
}

/// The position of the first `,` at or after `i`, or the end of the text.
pub open spec fn find_comma(s: Seq<char>, i: int) -> int
    decreases s.len() - i,
{
    if 0 <= i < s.len() && s[i] != ',' {
        find_comma(s, i + 1)
    } else {
        i
    }
}

pub proof fn lemma_find_comma_bounds(s: Seq<char>, i: int)
    requires
        0 <= i <= s.len(),
    ensures
        i <= find_comma(s, i) <= s.len(),
        find_comma(s, i) < s.len() ==> s[find_comma(s, i)] == ',',
        forall|k: int| i <= k < find_comma(s, i) ==> #[trigger] s[k] != ',',
    decreases s.len() - i,
{
    if i < s.len() && s[i] != ',' {
        lemma_find_comma_bounds(s, i + 1);
    }
}

/// Scanning for a non-space stops no later than a position known to hold a
/// non-space character.
pub proof fn lemma_skip_ws_stops(s: Seq<char>, i: int, j: int)
    requires
        0 <= i <= j <= s.len(),
        j < s.len() ==> !is_space(s[j]),
    ensures
        skip_ws_from(s, i) <= j,
{
    lemma_skip_ws_bounds(s, i);
    if skip_ws_from(s, i) > j {
        assert(is_space(s[j]));
    }
}

/// The operator written at position `i`, with the position just after it.
/// Longest match first, so `===` wins over `==`.
pub open spec fn spec_parse_operator(s: Seq<char>, i: int) -> Option<(SpecifierOperator, int)> {
    if i + 3 <= s.len() && s[i] == '=' && s[i + 1] == '=' && s[i + 2] == '=' {
        Some((SpecifierOperator::ExactEqual, i + 3))
    } else if i + 2 <= s.len() && s[i] == '=' && s[i + 1] == '=' {
        Some((SpecifierOperator::Equal, i + 2))
    } else if i + 2 <= s.len() && s[i] == '!' && s[i + 1] == '=' {
        Some((SpecifierOperator::NotEqual, i + 2))
    } else if i + 2 <= s.len() && s[i] == '<' && s[i + 1] == '=' {
        Some((SpecifierOperator::LessThanEqual, i + 2))
    } else if i + 2 <= s.len() && s[i] == '>' && s[i + 1] == '=' {
        Some((SpecifierOperator::GreaterThanEqual, i + 2))
    } else if i + 2 <= s.len() && s[i] == '~' && s[i + 1] == '=' {
        Some((SpecifierOperator::TildeEqual, i + 2))
    } else if i + 1 <= s.len() && s[i] == '<' {
        Some((SpecifierOperator::LessThan, i + 1))
    } else if i + 1 <= s.len() && s[i] == '>' {
        Some((SpecifierOperator::GreaterThan, i + 1))
    } else {
        None
    }
}

/// One specifier parsed from the segment `[i, j)` of `s`: optional spaces,
/// an operator, optional spaces, then version text to the trimmed end.
pub open spec fn spec_parse_specifier(s: Seq<char>, i: int, j: int) -> Option<SpecifierView> {
    let a = skip_ws_from(s, i);
    match spec_parse_operator(s, a) {
        None => None,
        Some((op, after_op)) => {
            let v = skip_ws_from(s, after_op);
            let b = rtrim_to(s, j);
            if v < b && (forall|k: int| v <= k < b ==> is_version_char(#[trigger] s[k])) {
                Some(SpecifierView { op, version: s.subrange(v, b) })
            } else {
                None
            }
        },
    }
}

/// The comma-separated specifiers of `s` from position `i` on.
pub open spec fn spec_parse_specifiers_from(s: Seq<char>, i: int) -> Option<Seq<SpecifierView>>
    decreases s.len() - i,
    via spec_parse_specifiers_from_decreases
{
    if !(0 <= i <= s.len()) {
        None
    } else {
        let j = find_comma(s, i);
        match spec_parse_specifier(s, i, j) {
            None => None,
            Some(sp) => {
                if j >= s.len() {
                    Some(seq![sp])
                } else {
                    match spec_parse_specifiers_from(s, j + 1) {
                        None => None,
                        Some(rest) => Some(seq![sp] + rest),
                    }
                }
            },
        }
    }
}

#[via_fn]
proof fn spec_parse_specifiers_from_decreases(s: Seq<char>, i: int) {
    if 0 <= i <= s.len() {
        lemma_find_comma_bounds(s, i);
    }
}

/// The specifiers written in `s`: none at all when `s` is only spaces,
/// otherwise one per comma-separated segment.
pub open spec fn spec_parse_specifiers(s: Seq<char>) -> Option<Seq<SpecifierView>> {
    if skip_ws_from(s, 0) == s.len() {
        Some(Seq::empty())
    } else {
        spec_parse_specifiers_from(s, 0)
    }
}

/// The version text was not a well-formed set of specifiers.
#[derive(Debug)]
pub struct VersionSpecifiersParseError {
    /// The rejected text.
    pub input: String,
}

/// Whether the character at `k` may appear in version text.
fn version_char_at(s: &str, k: usize) -> (r: bool)
    requires
        k < s@.len(),
    ensures
        r == is_version_char(s@[k as int]),
{
    let c = s.get_char(k);
    let u = c as u32;
    (97 <= u && u <= 122) || (65 <= u && u <= 90) || (48 <= u && u <= 57) || c == '.' || c == '*'
        || c == '+' || c == '!' || c == '-' || c == '_'
}

/// Parses the operator written at position `i`.
fn parse_operator(s: &str, i: usize) -> (r: Option<(SpecifierOperator, usize)>)
    requires
        i <= s@.len(),
    ensures
        match r {
            Some((op, after)) => spec_parse_operator(s@, i as int) == Some((op, after as int)),
            None => spec_parse_operator(s@, i as int) is None,
        },
{
    let n = s.unicode_len();
    if n - i >= 3 && s.get_char(i) == '=' && s.get_char(i + 1) == '=' && s.get_char(i + 2) == '=' {
        Some((SpecifierOperator::ExactEqual, i + 3))
    } else if n - i >= 2 && s.get_char(i) == '=' && s.get_char(i + 1) == '=' {
        Some((SpecifierOperator::Equal, i + 2))
    } else if n - i >= 2 && s.get_char(i) == '!' && s.get_char(i + 1) == '=' {
        Some((SpecifierOperator::NotEqual, i + 2))
    } else if n - i >= 2 && s.get_char(i) == '<' && s.get_char(i + 1) == '=' {
        Some((SpecifierOperator::LessThanEqual, i + 2))
    } else if n - i >= 2 && s.get_char(i) == '>' && s.get_char(i + 1) == '=' {
        Some((SpecifierOperator::GreaterThanEqual, i + 2))
    } else if n - i >= 2 && s.get_char(i) == '~' && s.get_char(i + 1) == '=' {
        Some((SpecifierOperator::TildeEqual, i + 2))
    } else if n - i >= 1 && s.get_char(i) == '<' {
        Some((SpecifierOperator::LessThan, i + 1))
    } else if n - i >= 1 && s.get_char(i) == '>' {
        Some((SpecifierOperator::GreaterThan, i + 1))
    } else {
        None
    }
}

/// Parses one specifier from the segment `[i, j)`.
#[verifier::loop_isolation(false)]
fn parse_specifier(s: &str, i: usize, j: usize) -> (r: Option<VersionSpecifier>)
    requires
        i <= j <= s@.len(),
        j < s@.len() ==> s@[j as int] == ',',
    ensures
        match r {
            Some(sp) => spec_parse_specifier(s@, i as int, j as int) == Some(sp@),
            None => spec_parse_specifier(s@, i as int, j as int) is None,
        },
{
    proof {
        lemma_skip_ws_stops(s@, i as int, j as int);
    }
    let a = skip_ws(s, i);
    match parse_operator(s, a) {
        None => None,
        Some((op, after_op)) => {
            proof {
                lemma_skip_ws_bounds(s@, after_op as int);
                lemma_rtrim_bounds(s@, j as int);
            }
            let v = skip_ws(s, after_op);
            let b = rtrim(s, j);
            if v >= b {
                return None;
            }
            let mut k = v;
            while k < b
                invariant
                    v <= k <= b <= s@.len(),
                    forall|m: int| v <= m < k ==> is_version_char(#[trigger] s@[m]),
                decreases b - k,
            {
                if !version_char_at(s, k) {
                    return None;
                }
                k = k + 1;
            }
            let text = s.substring_char(v, b).to_owned();
            let sp = VersionSpecifier { op, version: text };
            assert(sp@.version =~= s@.subrange(v as int, b as int));
            Some(sp)
        },
    }
}

/// Finds the first `,` at or after `i`.
fn scan_comma(s: &str, i: usize) -> (j: usize)
    requires
        i <= s@.len(),
    ensures
        j as int == find_comma(s@, i as int),
        i <= j <= s@.len(),
    decreases s@.len() - i,
{
    proof {
        lemma_find_comma_bounds(s@, i as int);
    }
    let n = s.unicode_len();
    let mut j = i;
    while j < n && not_comma_at(s, j)
        invariant
            i <= j <= n,
            n == s@.len(),
            find_comma(s@, i as int) == find_comma(s@, j as int),
        decreases n - j,
    {
        j = j + 1;
    }
    j
}

/// Whether the character at `j` is anything but a comma.
fn not_comma_at(s: &str, j: usize) -> (r: bool)
    requires
        j < s@.len(),
    ensures
        r == (s@[j as int] != ','),
{
    s.get_char(j) != ','
}

impl VersionSpecifiers {
    /// The empty set of predicates: no constraint at all.
    pub fn empty() -> (r: VersionSpecifiers)
        ensures
            r@ =~= Seq::<SpecifierView>::empty(),
    {
        VersionSpecifiers { specifiers: Vec::new() }
    }

    /// Parses comma-separated version specifiers; text of spaces alone is
    /// the empty set.
    pub fn from_text(s: &str) -> (r: Result<VersionSpecifiers, VersionSpecifiersParseError>)
        ensures
            match r {
                Ok(vs) => spec_parse_specifiers(s@) == Some(vs@),
                Err(_) => spec_parse_specifiers(s@) is None,
            },
    {
        let n = s.unicode_len();
        let w = skip_ws(s, 0);
        if w == n {
            let vs = VersionSpecifiers::empty();
            assert(vs@ =~= spec_parse_specifiers(s@).unwrap());
            return Ok(vs);
        }
        let mut out: Vec<VersionSpecifier> = Vec::new();
        let mut i: usize = 0;
        loop
            invariant_except_break
                match spec_parse_specifiers_from(s@, i as int) {
                    Some(rest) => spec_parse_specifiers_from(s@, 0) == Some(
                        out@.map_values(|sp: VersionSpecifier| sp@) + rest,
                    ),
                    None => spec_parse_specifiers_from(s@, 0) is None,
                },
            invariant
                i <= n,
                n == s@.len(),
                skip_ws_from(s@, 0) != n,
            ensures
                match spec_parse_specifiers_from(s@, 0) {
                    Some(all) => out@.map_values(|sp: VersionSpecifier| sp@) == all,
                    None => false,
                },
            decreases n - i,
        {
            proof {
                lemma_find_comma_bounds(s@, i as int);
            }
            let j = scan_comma(s, i);
            match parse_specifier(s, i, j) {
                None => {
                    return Err(VersionSpecifiersParseError { input: s.to_owned() });
                },
                Some(sp) => {
                    let ghost prefix = out@.map_values(|x: VersionSpecifier| x@);
                    out.push(sp);
                    assert(out@.map_values(|x: VersionSpecifier| x@) =~= prefix + seq![sp@]);
                    if j >= n {
                        proof {
                            assert(prefix + (seq![sp@]) =~= prefix + seq![sp@]);
                            assert(spec_parse_specifiers_from(s@, i as int) == Some(seq![sp@]));
                        }
                        assert(out@.map_values(|x: VersionSpecifier| x@)
                            == spec_parse_specifiers_from(s@, 0).unwrap());
                        break;
                    }
                    proof {
                        let restopt = spec_parse_specifiers_from(s@, j + 1);
                        if restopt is Some {
                            let rest = restopt.unwrap();
                            assert(prefix + (seq![sp@] + rest) =~= (prefix + seq![sp@]) + rest);
                        }
                    }
                    i = j + 1;
                },
            }
        }
        let vs = VersionSpecifiers { specifiers: out };
        assert(spec_parse_specifiers(s@) == spec_parse_specifiers_from(s@, 0));
        Ok(vs)
    }
}

} // verus!
