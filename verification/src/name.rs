//! Normalized package and extra names.
//!
//! A distribution or extra name is valid when it starts and ends with an
//! ASCII letter or digit and otherwise consists of letters, digits and the
//! separators `-`, `_` and `.`. Two names are the same when their normal
//! forms agree: every letter lowercased and every run of separators replaced
//! by a single `-`.

use vstd::prelude::*;

verus! {

/// A separator character inside a name.
pub open spec fn is_name_sep(c: char) -> bool {
    c == '-' || c == '_' || c == '.'
}

/// An ASCII letter or digit.
pub open spec fn is_name_alnum(c: char) -> bool {
    ('a' <= c && c <= 'z') || ('A' <= c && c <= 'Z') || ('0' <= c && c <= '9')
}

/// A character that may occur anywhere strictly inside a name.
pub open spec fn is_name_char(c: char) -> bool {
    is_name_alnum(c) || is_name_sep(c)
}

/// A well-formed raw name: nonempty, alphanumeric at both ends, name
/// characters throughout.
pub open spec fn valid_name_chars(s: Seq<char>) -> bool {
    &&& s.len() > 0
    &&& is_name_alnum(s[0])
    &&& is_name_alnum(s[s.len() - 1])
    &&& forall|i: int| 0 <= i < s.len() ==> is_name_char(#[trigger] s[i])
}

/// The lowercase form of one character (ASCII letters only).
pub open spec fn lower_char(c: char) -> char {
    if 'A' <= c && c <= 'Z' {
        (((c as u8) + 32) as char)
    } else {
        c
    }
}

/// The normal form of `s` from position `i` on: letters lowercased, each run
/// of separators collapsed to one `-`. A separator is dropped exactly when
/// the character before it is also a separator.
pub open spec fn normal_from(s: Seq<char>, i: int) -> Seq<char>
    decreases s.len() - i,
{
    if i < 0 || i >= s.len() {
        Seq::empty()
    } else if is_name_sep(s[i]) {
        if i > 0 && is_name_sep(s[i - 1]) {
            normal_from(s, i + 1)
        } else {
            seq!['-'] + normal_from(s, i + 1)
        }
    } else {
        seq![lower_char(s[i])] + normal_from(s, i + 1)
    }
}

/// The normal form of a whole name.
pub open spec fn normal_form(s: Seq<char>) -> Seq<char> {
    normal_from(s, 0)
}

/// Relies on `String::push`: appends exactly the given character.
#[verifier::external_body]
pub(crate) fn push_char(s: &mut String, c: char)
    ensures
        final(s)@ == old(s)@.push(c),
{
    s.push(c);
}

/// The raw text was not a valid name.
#[derive(Debug)]
pub struct InvalidNameError {
    /// The rejected text.
    pub input: String,
}

/// The normal form of any text: letters lowercased, separator runs
/// collapsed. Total, also on text that is not a valid name.
pub(crate) fn normalize_text(s: &str) -> (r: String)
    ensures
        r@ == normal_form(s@),
{
    let n: usize = s.unicode_len();
    let mut out = String::new();
    let mut i: usize = 0;
    while i < n
        invariant
            0 <= i <= n,
            n == s@.len(),
            out@ + normal_from(s@, i as int) == normal_form(s@),
        decreases n - i,
    {
        let c = s.get_char(i);
        let u = c as u32;
        if c == '-' || c == '_' || c == '.' {
            let prev_sep = if i > 0 {
                let p = s.get_char(i - 1);
                p == '-' || p == '_' || p == '.'
            } else {
                false
            };
            if !prev_sep {
                push_char(&mut out, '-');
            }
        } else if 65 <= u && u <= 90 {
            let lc = ((c as u8) + 32) as char;
            push_char(&mut out, lc);
            assert(lc == lower_char(s@[i as int]));
        } else {
            push_char(&mut out, c);
            assert(c == lower_char(s@[i as int]));
        }
        assert(out@ + normal_from(s@, i + 1) == normal_form(s@)) by {
            assert(normal_from(s@, i as int) =~= normal_from(s@, i as int));
        }
        i = i + 1;
    }
    assert(out@ =~= normal_form(s@));
    out
}

/// Validates `s` and, when it is a well-formed name, returns its normal form.
fn normalize_name(s: &str) -> (r: Option<String>)
    ensures
        r is Some <==> valid_name_chars(s@),
        r matches Some(t) ==> t@ == normal_form(s@),
{
    let n: usize = s.unicode_len();
    if n == 0 {
        return None;
    }
    // Validity scan.
    let mut i: usize = 0;
    while i < n
        invariant
            0 <= i <= n,
            0 < n == s@.len(),
            forall|j: int| 0 <= j < i ==> is_name_char(#[trigger] s@[j]),
            i > 0 ==> is_name_alnum(s@[0]),
            i == n ==> is_name_alnum(s@[n - 1]),
        decreases n - i,
    {
        let c = s.get_char(i);
        let u = c as u32;
        let alnum = (97 <= u && u <= 122) || (65 <= u && u <= 90) || (48 <= u && u <= 57);
        let sep = c == '-' || c == '_' || c == '.';
        if !(alnum || sep) {
            return None;
        }
        if (i == 0 || i == n - 1) && !alnum {
            return None;
        }
        i = i + 1;
    }
    Some(normalize_text(s))
}

/// The normalized name of a distribution package. Equality is equality of
/// normal forms, not of the raw text a name was written as.
#[derive(Debug)]
pub struct PackageName {
    name: String,
}

impl View for PackageName {
    type V = Seq<char>;

    closed spec fn view(&self) -> Seq<char> {
        self.name@
    }
}

impl PackageName {
    /// Validates and normalizes a raw package name.
    pub fn new(s: &str) -> (r: Result<PackageName, InvalidNameError>)
        ensures
            r is Ok <==> valid_name_chars(s@),
            r matches Ok(p) ==> p@ == normal_form(s@),
    {
        match normalize_name(s) {
            Some(name) => Ok(PackageName { name }),
            None => Err(InvalidNameError { input: s.to_owned() }),
        }
    }

    /// The normal form as text.
    pub fn as_str(&self) -> (r: &str)
        ensures
            r@ == self@,
    {
        self.name.as_str()
    }
}

impl Clone for PackageName {
    fn clone(&self) -> (r: Self)
        ensures
            r@ == self@,
    {
        PackageName { name: self.name.clone() }
    }
}

impl PartialEq for PackageName {
    fn eq(&self, other: &PackageName) -> (r: bool) {
        self.name == other.name
    }
}

impl vstd::std_specs::cmp::PartialEqSpecImpl for PackageName {
    open spec fn obeys_eq_spec() -> bool {
        true
    }

    open spec fn eq_spec(&self, other: &PackageName) -> bool {
        self@ == other@
    }
}

impl Eq for PackageName {}

/// The normalized name of an extra (optional feature group). The same
/// validity and normalization rules as for package names.
#[derive(Debug)]
pub struct ExtraName {
    name: String,
}

impl View for ExtraName {
    type V = Seq<char>;

    closed spec fn view(&self) -> Seq<char> {
        self.name@
    }
}

impl ExtraName {
    /// Validates and normalizes a raw extra name.
    pub fn new(s: &str) -> (r: Result<ExtraName, InvalidNameError>)
        ensures
            r is Ok <==> valid_name_chars(s@),
            r matches Ok(p) ==> p@ == normal_form(s@),
    {
        match normalize_name(s) {
            Some(name) => Ok(ExtraName { name }),
            None => Err(InvalidNameError { input: s.to_owned() }),
        }
    }

    /// The normal form as text.
    pub fn as_str(&self) -> (r: &str)
        ensures
            r@ == self@,
    {
        self.name.as_str()
    }
}

impl Clone for ExtraName {
    fn clone(&self) -> (r: Self)
        ensures
            r@ == self@,
    {
        ExtraName { name: self.name.clone() }
    }
}

impl PartialEq for ExtraName {
    fn eq(&self, other: &ExtraName) -> (r: bool) {
        self.name == other.name
    }
}

impl vstd::std_specs::cmp::PartialEqSpecImpl for ExtraName {
    open spec fn obeys_eq_spec() -> bool {
        true
    }

    open spec fn eq_spec(&self, other: &ExtraName) -> bool {
        self@ == other@
    }
}

impl Eq for ExtraName {}

} // verus!
