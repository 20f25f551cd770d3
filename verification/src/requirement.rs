//! The PEP 508 requirement grammar: a package name, optional extras, an
//! optional version constraint or URL, and an optional environment marker.
//! A bare-URL form without a distributable name is parsed separately for the
//! requirements-file superset.

use vstd::prelude::*;
use vstd::string::StrSliceExecFns;
use crate::name::{PackageName, ExtraName, is_name_alnum, is_name_char, valid_name_chars,
    normal_form};
use crate::text::{is_space, skip_ws_from, rtrim_to, skip_ws, rtrim};
use crate::text::{lemma_skip_ws_bounds, lemma_rtrim_bounds};
use crate::version::{VersionSpecifiers, SpecifierView, spec_parse_specifiers};
use crate::marker::{MarkerTree, MarkerTreeView, MarkerEnvironment, spec_parse_marker,
    eval_marker, extras_view, find_char, lemma_find_char_bounds};

verus! {

/// A URL kept exactly as it was written.
#[derive(Debug)]
pub struct VerbatimUrl {
    pub given: String,
}

impl View for VerbatimUrl {
    type V = Seq<char>;

    open spec fn view(&self) -> Seq<char> {
        self.given@
    }
}

impl VerbatimUrl {
    /// Wraps raw URL text.
    pub fn from_text(s: &str) -> (r: VerbatimUrl)
        ensures
            r@ == s@,
    {
        VerbatimUrl { given: s.to_owned() }
    }

    /// The URL text.
    pub fn as_str(&self) -> (r: &str)
        ensures
            r@ == self@,
    {
        self.given.as_str()
    }
}

impl Clone for VerbatimUrl {
    fn clone(&self) -> (r: Self)
        ensures
            r@ == self@,
    {
        VerbatimUrl { given: self.given.clone() }
    }
}

/// The mathematical content of a version constraint or URL.
pub ghost enum VersionOrUrlView {
    VersionSpecifier(Seq<SpecifierView>),
    Url(Seq<char>),
}

/// Either a set of version predicates or a direct URL.
#[derive(Debug)]
pub enum VersionOrUrl {
    VersionSpecifier(VersionSpecifiers),
    Url(VerbatimUrl),
}

impl View for VersionOrUrl {
    type V = VersionOrUrlView;

    open spec fn view(&self) -> VersionOrUrlView {
        match self {
            VersionOrUrl::VersionSpecifier(vs) => VersionOrUrlView::VersionSpecifier(vs@),
            VersionOrUrl::Url(u) => VersionOrUrlView::Url(u@),
        }
    }
}

impl Clone for VersionOrUrl {
    fn clone(&self) -> (r: Self)
        ensures
            r@ == self@,
    {
        match self {
            VersionOrUrl::VersionSpecifier(vs) => VersionOrUrl::VersionSpecifier(vs.clone()),
            VersionOrUrl::Url(u) => VersionOrUrl::Url(u.clone()),
        }
    }
}

/// Clones an optional marker tree.
pub(crate) fn clone_opt_marker(m: &Option<MarkerTree>) -> (r: Option<MarkerTree>)
    ensures
        opt_marker_view(&r) == opt_marker_view(m),
{
    match m {
        Option::None => None,
        Option::Some(t) => Some(t.clone()),
    }
}

/// Clones a list of extras.
pub(crate) fn clone_extras(extras: &Vec<ExtraName>) -> (r: Vec<ExtraName>)
    ensures
        extras_view(r@) == extras_view(extras@),
{
    let r = extras.clone();
    proof {
        assert(extras_view(r@) =~= extras_view(extras@));
    }
    r
}

/// The view of an optional marker.
pub open spec fn opt_marker_view(m: &Option<MarkerTree>) -> Option<MarkerTreeView> {
    match m {
        Option::None => None,
        Option::Some(t) => Some(t@),
    }
}

/// The view of an optional version-or-URL.
pub open spec fn opt_vu_view(v: &Option<VersionOrUrl>) -> Option<VersionOrUrlView> {
    match v {
        Option::None => None,
        Option::Some(vu) => Some(vu@),
    }
}

impl Clone for Requirement {
    fn clone(&self) -> (r: Self)
        ensures
            r@ == self@,
    {
        Requirement {
            name: self.name.clone(),
            extras: clone_extras(&self.extras),
            marker: clone_opt_marker(&self.marker),
            version_or_url: match &self.version_or_url {
                Option::None => None,
                Option::Some(vu) => Some(vu.clone()),
            },
        }
    }
}

/// The mathematical content of a parsed requirement.
pub ghost struct RequirementView {
    pub name: Seq<char>,
    pub extras: Seq<Seq<char>>,
    pub marker: Option<MarkerTreeView>,
    pub version_or_url: Option<VersionOrUrlView>,
}

/// A parsed PEP 508 requirement.
#[derive(Debug)]
pub struct Requirement {
    pub name: PackageName,
    pub extras: Vec<ExtraName>,
    pub marker: Option<MarkerTree>,
    pub version_or_url: Option<VersionOrUrl>,
}

impl View for Requirement {
    type V = RequirementView;

    open spec fn view(&self) -> RequirementView {
        RequirementView {
            name: self.name@,
            extras: extras_view(self.extras@),
            marker: opt_marker_view(&self.marker),
            version_or_url: opt_vu_view(&self.version_or_url),
        }
    }
}

/// The mathematical content of an unnamed requirement.
pub ghost struct UnnamedRequirementView {
    pub url: Seq<char>,
    pub extras: Seq<Seq<char>>,
    pub marker: Option<MarkerTreeView>,
}

/// A direct-URL dependency with no distributable name, valid only in the
/// requirements-file grammar.
#[derive(Debug)]
pub struct UnnamedRequirement {
    pub url: VerbatimUrl,
    pub extras: Vec<ExtraName>,
    pub marker: Option<MarkerTree>,
}

impl View for UnnamedRequirement {
    type V = UnnamedRequirementView;

    open spec fn view(&self) -> UnnamedRequirementView {
        UnnamedRequirementView {
            url: self.url@,
            extras: extras_view(self.extras@),
            marker: opt_marker_view(&self.marker),
        }
    }
}

impl Clone for UnnamedRequirement {
    fn clone(&self) -> (r: Self)
        ensures
            r@ == self@,
    {
        UnnamedRequirement {
            url: self.url.clone(),
            extras: clone_extras(&self.extras),
            marker: clone_opt_marker(&self.marker),
        }
    }
}

/// What went wrong, and whether the text instead looks like the unnamed
/// form, so a requirements-file caller may retry with that grammar.
#[derive(Debug)]
pub enum Pep508ErrorSource {
    /// Malformed requirement text.
    Message(String),
    /// The text looks like a bare URL, which the named grammar cannot hold.
    UnsupportedRequirement(String),
}

/// A failure to parse requirement text.
#[derive(Debug)]
pub struct Pep508Error {
    /// What went wrong.
    pub message: Pep508ErrorSource,
    /// The character index at which the parse gave up: position context for
    /// diagnostics, not fixed by the contracts.
    pub position: usize,
    /// The rejected text.
    pub input: String,
}

// ---------------------------------------------------------------------------
// The grammar.
// ---------------------------------------------------------------------------

/// The end of the run of name characters starting at `i`.
pub open spec fn name_end(s: Seq<char>, i: int) -> int
    decreases s.len() - i,
{
    if 0 <= i < s.len() && is_name_char(s[i]) {
        name_end(s, i + 1)
    } else {
        i
    }
}

pub proof fn lemma_name_end_bounds(s: Seq<char>, i: int)
    requires
        0 <= i <= s.len(),
    ensures
        i <= name_end(s, i) <= s.len(),
        forall|k: int| i <= k < name_end(s, i) ==> is_name_char(#[trigger] s[k]),
        name_end(s, i) < s.len() ==> !is_name_char(s[name_end(s, i)]),
    decreases s.len() - i,
{
    if i < s.len() && is_name_char(s[i]) {
        lemma_name_end_bounds(s, i + 1);
    }
}

/// The end of the run of non-space characters starting at `i`.
pub open spec fn nonspace_end(s: Seq<char>, i: int) -> int
    decreases s.len() - i,
{
    if 0 <= i < s.len() && !is_space(s[i]) {
        nonspace_end(s, i + 1)
    } else {
        i
    }
}

pub proof fn lemma_nonspace_end_bounds(s: Seq<char>, i: int)
    requires
        0 <= i <= s.len(),
    ensures
        i <= nonspace_end(s, i) <= s.len(),
        forall|k: int| i <= k < nonspace_end(s, i) ==> !is_space(#[trigger] s[k]),
        nonspace_end(s, i) < s.len() ==> is_space(s[nonspace_end(s, i)]),
    decreases s.len() - i,
{
    if i < s.len() && !is_space(s[i]) {
        lemma_nonspace_end_bounds(s, i + 1);
    }
}

/// The extras between `[` and `]`, parsed from position `i` (just after the
/// opening bracket or a separating comma): comma-separated names, each
/// normalized, with the position just after the closing bracket.
pub open spec fn spec_parse_extras_from(s: Seq<char>, i: int) -> Option<(Seq<Seq<char>>, int)>
    decreases s.len() - i,
    via spec_parse_extras_from_decreases
{
    if !(0 <= i <= s.len()) {
        None
    } else {
        let a = skip_ws_from(s, i);
        let j = name_end(s, a);
        if a >= s.len() || j == a || !valid_name_chars(s.subrange(a, j)) {
            None
        } else {
            let nf = normal_form(s.subrange(a, j));
            let b = skip_ws_from(s, j);
            if b < s.len() && s[b] == ',' {
                match spec_parse_extras_from(s, b + 1) {
                    None => None,
                    Some((rest, end)) => Some((seq![nf] + rest, end)),
                }
            } else if b < s.len() && s[b] == ']' {
                Some((seq![nf], b + 1))
            } else {
                None
            }
        }
    }
}

#[via_fn]
proof fn spec_parse_extras_from_decreases(s: Seq<char>, i: int) {
    if 0 <= i <= s.len() {
        lemma_skip_ws_bounds(s, i);
        let a = skip_ws_from(s, i);
        lemma_name_end_bounds(s, a);
        let j = name_end(s, a);
        if j <= s.len() {
            lemma_skip_ws_bounds(s, j);
        }
    }
}

/// The names of `exs[i..]` that have not occurred before, in written order:
/// extras form a set, so a repeated name keeps its first occurrence only.
pub open spec fn dedup_from(exs: Seq<Seq<char>>, i: int, seen: Seq<Seq<char>>) -> Seq<Seq<char>>
    decreases exs.len() - i,
{
    if !(0 <= i < exs.len()) {
        Seq::empty()
    } else if crate::marker::extras_have(seen, exs[i]) {
        dedup_from(exs, i + 1, seen)
    } else {
        seq![exs[i]] + dedup_from(exs, i + 1, seen.push(exs[i]))
    }
}

/// The names of `exs` with every repeat dropped, first occurrences kept in
/// written order.
pub open spec fn dedup_names(exs: Seq<Seq<char>>) -> Seq<Seq<char>> {
    dedup_from(exs, 0, Seq::empty())
}

/// The bracketed extras list starting at the opening bracket `i`, with the
/// position just after the closing bracket. The list may be empty; a name
/// written twice counts once, its first occurrence kept.
pub open spec fn spec_parse_extras(s: Seq<char>, i: int) -> Option<(Seq<Seq<char>>, int)> {
    if 0 <= i < s.len() && s[i] == '[' {
        let w = skip_ws_from(s, i + 1);
        if w < s.len() && s[w] == ']' {
            Some((Seq::empty(), w + 1))
        } else {
            match spec_parse_extras_from(s, i + 1) {
                None => None,
                Some((items, end)) => Some((dedup_names(items), end)),
            }
        }
    } else {
        None
    }
}

/// The requirement written in `s`: name, optional extras, an optional
/// version constraint (up to the first `;`) or `@ url` (up to a space), and
/// an optional `; marker` tail.
pub open spec fn spec_parse_requirement(s: Seq<char>) -> Option<RequirementView> {
    let p0 = skip_ws_from(s, 0);
    if p0 >= s.len() || !is_name_alnum(s[p0]) {
        None
    } else {
        let j = name_end(s, p0);
        if !valid_name_chars(s.subrange(p0, j)) {
            None
        } else {
            let nm = normal_form(s.subrange(p0, j));
            let p1 = skip_ws_from(s, j);
            if p1 < s.len() && s[p1] == '[' {
                match spec_parse_extras(s, p1) {
                    None => None,
                    Some((exs, p2)) => spec_parse_tail(s, nm, exs, p2),
                }
            } else {
                spec_parse_tail(s, nm, Seq::empty(), p1)
            }
        }
    }
}

/// The version-or-URL part and the marker part, from position `i` on.
pub open spec fn spec_parse_tail(
    s: Seq<char>,
    nm: Seq<char>,
    exs: Seq<Seq<char>>,
    i: int,
) -> Option<RequirementView> {
    if !(0 <= i <= s.len()) {
        None
    } else {
        let p = skip_ws_from(s, i);
        if p >= s.len() {
            Some(RequirementView { name: nm, extras: exs, marker: None, version_or_url: None })
        } else if s[p] == ';' {
            spec_finish_marker(s, nm, exs, None, p)
        } else if s[p] == '@' {
            let u0 = skip_ws_from(s, p + 1);
            let ue = nonspace_end(s, u0);
            if ue == u0 {
                None
            } else {
                let url = VersionOrUrlView::Url(s.subrange(u0, ue));
                let p2 = skip_ws_from(s, ue);
                if p2 >= s.len() {
                    Some(
                        RequirementView {
                            name: nm,
                            extras: exs,
                            marker: None,
                            version_or_url: Some(url),
                        },
                    )
                } else if s[p2] == ';' {
                    spec_finish_marker(s, nm, exs, Some(url), p2)
                } else {
                    None
                }
            }
        } else {
            let ve = find_char(s, p, ';');
            match spec_parse_specifiers(s.subrange(p, ve)) {
                None => None,
                Some(specs) => {
                    let vu = Some(VersionOrUrlView::VersionSpecifier(specs));
                    if ve >= s.len() {
                        Some(
                            RequirementView {
                                name: nm,
                                extras: exs,
                                marker: None,
                                version_or_url: vu,
                            },
                        )
                    } else {
                        spec_finish_marker(s, nm, exs, vu, ve)
                    }
                },
            }
        }
    }
}

/// The `; marker` tail starting at the semicolon `p`.
pub open spec fn spec_finish_marker(
    s: Seq<char>,
    nm: Seq<char>,
    exs: Seq<Seq<char>>,
    vu: Option<VersionOrUrlView>,
    p: int,
) -> Option<RequirementView> {
    match spec_parse_marker(s.subrange(p + 1, s.len() as int)) {
        None => None,
        Some(t) => Some(
            RequirementView { name: nm, extras: exs, marker: Some(t), version_or_url: vu },
        ),
    }
}

/// Whether the text reads as a bare URL or local path: its first token
/// holds `://` or starts with `.` or `/`.
pub open spec fn looks_like_url(s: Seq<char>) -> bool {
    let a = skip_ws_from(s, 0);
    a < s.len() && {
        ||| s[a] == '.'
        ||| s[a] == '/'
        ||| crate::marker::seq_has(s.subrange(a, nonspace_end(s, a)), "://"@)
    }
}

/// Whether an optional marker admits the given environment and extras.
pub open spec fn eval_opt_marker(
    m: Option<MarkerTreeView>,
    env: crate::marker::MarkerEnvironmentView,
    extras: Seq<Seq<char>>,
) -> bool {
    match m {
        None => true,
        Some(t) => eval_marker(t, env, extras),
    }
}

/// The unnamed requirement written in `s`: a URL up to the first `;`
/// (trimmed, no spaces inside), then an optional marker.
pub open spec fn spec_parse_unnamed(s: Seq<char>) -> Option<UnnamedRequirementView> {
    let a = skip_ws_from(s, 0);
    let m = find_char(s, a, ';');
    let b = rtrim_to(s, m);
    if a >= s.len() || b <= a || !(forall|k: int| a <= k < b ==> !is_space(#[trigger] s[k])) {
        None
    } else {
        let url = s.subrange(a, b);
        if m >= s.len() {
            Some(UnnamedRequirementView { url, extras: Seq::empty(), marker: None })
        } else {
            match spec_parse_marker(s.subrange(m + 1, s.len() as int)) {
                None => None,
                Some(t) => Some(
                    UnnamedRequirementView { url, extras: Seq::empty(), marker: Some(t) },
                ),
            }
        }
    }
}

// ---------------------------------------------------------------------------
// The executable parser.
// ---------------------------------------------------------------------------

/// Whether the character at `j` is an ASCII letter or digit.
fn alnum_at(s: &str, j: usize) -> (r: bool)
    requires
        j < s@.len(),
    ensures
        r == is_name_alnum(s@[j as int]),
{
    let c = s.get_char(j);
    let u = c as u32;
    (97 <= u && u <= 122) || (65 <= u && u <= 90) || (48 <= u && u <= 57)
}

/// Whether the character at `j` may occur in a name.
fn name_char_at(s: &str, j: usize) -> (r: bool)
    requires
        j < s@.len(),
    ensures
        r == is_name_char(s@[j as int]),
{
    let c = s.get_char(j);
    alnum_at(s, j) || c == '-' || c == '_' || c == '.'
}

/// Finds the end of the run of name characters starting at `i`.
fn scan_name(s: &str, i: usize) -> (j: usize)
    requires
        i <= s@.len(),
    ensures
        j as int == name_end(s@, i as int),
        i <= j <= s@.len(),
{
    proof {
        lemma_name_end_bounds(s@, i as int);
    }
    let n = s.unicode_len();
    let mut j = i;
    while j < n && name_char_at(s, j)
        invariant
            i <= j <= n,
            n == s@.len(),
            name_end(s@, i as int) == name_end(s@, j as int),
        decreases n - j,
    {
        j = j + 1;
    }
    j
}

/// Finds the end of the run of non-space characters starting at `i`.
fn scan_nonspace(s: &str, i: usize) -> (j: usize)
    requires
        i <= s@.len(),
    ensures
        j as int == nonspace_end(s@, i as int),
        i <= j <= s@.len(),
{
    proof {
        lemma_nonspace_end_bounds(s@, i as int);
    }
    let n = s.unicode_len();
    let mut j = i;
    while j < n && nonspace_at(s, j)
        invariant
            i <= j <= n,
            n == s@.len(),
            nonspace_end(s@, i as int) == nonspace_end(s@, j as int),
        decreases n - j,
    {
        j = j + 1;
    }
    j
}

/// Whether the character at `j` is not a space.
fn nonspace_at(s: &str, j: usize) -> (r: bool)
    requires
        j < s@.len(),
    ensures
        r == !is_space(s@[j as int]),
{
    let c = s.get_char(j);
    !(c == ' ' || c == '\t')
}

/// Whether the character at `j` equals `q`.
fn char_at_is(s: &str, j: usize, q: char) -> (r: bool)
    requires
        j < s@.len(),
    ensures
        r == (s@[j as int] == q),
{
    s.get_char(j) == q
}

/// Parses the comma-separated extras from position `i` (after the opening
/// bracket or a comma), through the closing bracket.
fn parse_extras_items(s: &str, i: usize) -> (r: Result<(Vec<ExtraName>, usize), usize>)
    requires
        i <= s@.len(),
    ensures
        match r {
            Ok((exs, end)) => spec_parse_extras_from(s@, i as int) == Some(
                (extras_view(exs@), end as int),
            ) && end <= s@.len(),
            Err(_) => spec_parse_extras_from(s@, i as int) is None,
        },
{
    let n = s.unicode_len();
    let mut acc: Vec<ExtraName> = Vec::new();
    let mut cur = i;
    loop
        invariant_except_break
            match spec_parse_extras_from(s@, cur as int) {
                Some((items, end)) => spec_parse_extras_from(s@, i as int) == Some(
                    (extras_view(acc@) + items, end),
                ),
                None => spec_parse_extras_from(s@, i as int) is None,
            },
        invariant
            cur <= n,
            n == s@.len(),
        ensures
            match spec_parse_extras_from(s@, i as int) {
                Some((items, end)) => extras_view(acc@) == items && cur as int == end && cur <= n,
                None => false,
            },
        decreases n - cur,
    {
        proof {
            lemma_skip_ws_bounds(s@, cur as int);
        }
        let a = skip_ws(s, cur);
        proof {
            lemma_name_end_bounds(s@, a as int);
        }
        let j = scan_name(s, a);
        if a == n || j == a {
            return Err(a);
        }
        if !alnum_at(s, j - 1) || !alnum_at(s, a) {
            assert(!valid_name_chars(s@.subrange(a as int, j as int)));
            return Err(a);
        }
        let raw = s.substring_char(a, j);
        assert(raw@ == s@.subrange(a as int, j as int));
        let item = match ExtraName::new(raw) {
            Ok(e) => e,
            Err(_) => {
                assert(valid_name_chars(s@.subrange(a as int, j as int)));
                assert(false);
                return Err(a);
            },
        };
        proof {
            lemma_skip_ws_bounds(s@, j as int);
        }
        let b = skip_ws(s, j);
        if b == n {
            return Err(b);
        }
        let ghost oldacc = acc@;
        if char_at_is(s, b, ',') {
            acc.push(item);
            proof {
                assert(extras_view(acc@) =~= extras_view(oldacc).push(
                    normal_form(s@.subrange(a as int, j as int)),
                ));
                let restopt = spec_parse_extras_from(s@, b + 1);
                if restopt is Some {
                    let (items, end) = restopt.unwrap();
                    assert(extras_view(oldacc) + (seq![
                        normal_form(s@.subrange(a as int, j as int)),
                    ] + items) =~= extras_view(acc@) + items);
                }
            }
            cur = b + 1;
        } else if char_at_is(s, b, ']') {
            acc.push(item);
            proof {
                assert(extras_view(acc@) =~= extras_view(oldacc).push(
                    normal_form(s@.subrange(a as int, j as int)),
                ));
                assert(extras_view(oldacc) + seq![
                    normal_form(s@.subrange(a as int, j as int)),
                ] =~= extras_view(acc@));
            }
            cur = b + 1;
            break;
        } else {
            return Err(b);
        }
    }
    Ok((acc, cur))
}

/// Whether one of the names is `e`.
fn names_contain(names: &Vec<ExtraName>, e: &ExtraName) -> (r: bool)
    ensures
        r == crate::marker::extras_have(extras_view(names@), e@),
{
    let n = names.len();
    let mut i: usize = 0;
    while i < n
        invariant
            0 <= i <= n,
            n == names@.len(),
            forall|k: int| 0 <= k < i ==> extras_view(names@)[k] != e@,
        decreases n - i,
    {
        assert(extras_view(names@)[i as int] == names@[i as int]@);
        if names[i] == *e {
            return true;
        }
        i = i + 1;
    }
    false
}

/// Drops every repeated name, keeping first occurrences in written order.
fn dedup_extras_list(v: Vec<ExtraName>) -> (r: Vec<ExtraName>)
    ensures
        extras_view(r@) == dedup_names(extras_view(v@)),
{
    let ghost xv = extras_view(v@);
    let n = v.len();
    let mut out: Vec<ExtraName> = Vec::new();
    proof {
        assert(extras_view(out@) =~= Seq::<Seq<char>>::empty());
    }
    let mut i: usize = 0;
    while i < n
        invariant
            0 <= i <= n,
            n == v@.len(),
            xv == extras_view(v@),
            extras_view(out@) + dedup_from(xv, i as int, extras_view(out@)) == dedup_names(xv),
        decreases n - i,
    {
        assert(xv[i as int] == v@[i as int]@);
        let ghost seen = extras_view(out@);
        if !names_contain(&out, &v[i]) {
            let item = v[i].clone();
            let ghost ev = item@;
            out.push(item);
            proof {
                assert(extras_view(out@) =~= seen.push(ev));
                assert(seen + (seq![ev] + dedup_from(xv, i + 1, seen.push(ev))) =~= seen.push(ev)
                    + dedup_from(xv, i + 1, seen.push(ev)));
            }
        }
        i = i + 1;
    }
    proof {
        assert(extras_view(out@) + Seq::<Seq<char>>::empty() =~= extras_view(out@));
    }
    out
}

/// Parses the bracketed extras list whose `[` stands at `i`.
fn parse_extras(s: &str, i: usize) -> (r: Result<(Vec<ExtraName>, usize), usize>)
    requires
        i < s@.len(),
        s@[i as int] == '[',
    ensures
        match r {
            Ok((exs, end)) => spec_parse_extras(s@, i as int) == Some(
                (extras_view(exs@), end as int),
            ) && end <= s@.len(),
            Err(_) => spec_parse_extras(s@, i as int) is None,
        },
{
    let n = s.unicode_len();
    proof {
        lemma_skip_ws_bounds(s@, i + 1);
    }
    let w = skip_ws(s, i + 1);
    if w < n && char_at_is(s, w, ']') {
        let exs: Vec<ExtraName> = Vec::new();
        assert(extras_view(exs@) =~= Seq::<Seq<char>>::empty());
        Ok((exs, w + 1))
    } else {
        match parse_extras_items(s, i + 1) {
            Err(pos) => Err(pos),
            Ok((items, end)) => Ok((dedup_extras_list(items), end)),
        }
    }
}

/// Parses the `; marker` tail whose `;` stands at `p`.
fn parse_finish_marker(
    s: &str,
    nm: PackageName,
    exs: Vec<ExtraName>,
    vu: Option<VersionOrUrl>,
    p: usize,
) -> (r: Result<Requirement, usize>)
    requires
        p < s@.len(),
    ensures
        match r {
            Ok(req) => spec_finish_marker(
                s@,
                nm@,
                extras_view(exs@),
                opt_vu_view(&vu),
                p as int,
            ) == Some(req@),
            Err(_) => spec_finish_marker(
                s@,
                nm@,
                extras_view(exs@),
                opt_vu_view(&vu),
                p as int,
            ) is None,
        },
{
    let n = s.unicode_len();
    let tail = s.substring_char(p + 1, n);
    assert(tail@ == s@.subrange(p + 1, s@.len() as int));
    match MarkerTree::parse(tail) {
        Err(_) => Err(p + 1),
        Ok(t) => Ok(
            Requirement { name: nm, extras: exs, marker: Some(t), version_or_url: vu },
        ),
    }
}

/// Parses the version-or-URL part and marker part from position `i` on.
fn parse_tail(s: &str, nm: PackageName, exs: Vec<ExtraName>, i: usize) -> (r: Result<
    Requirement,
    usize,
>)
    requires
        i <= s@.len(),
    ensures
        match r {
            Ok(req) => spec_parse_tail(s@, nm@, extras_view(exs@), i as int) == Some(req@),
            Err(_) => spec_parse_tail(s@, nm@, extras_view(exs@), i as int) is None,
        },
{
    let n = s.unicode_len();
    proof {
        lemma_skip_ws_bounds(s@, i as int);
    }
    let p = skip_ws(s, i);
    if p == n {
        return Ok(Requirement { name: nm, extras: exs, marker: None, version_or_url: None });
    }
    if char_at_is(s, p, ';') {
        return parse_finish_marker(s, nm, exs, None, p);
    }
    if char_at_is(s, p, '@') {
        proof {
            lemma_skip_ws_bounds(s@, p + 1);
        }
        let u0 = skip_ws(s, p + 1);
        proof {
            lemma_nonspace_end_bounds(s@, u0 as int);
        }
        let ue = scan_nonspace(s, u0);
        if ue == u0 {
            return Err(u0);
        }
        let url = VerbatimUrl::from_text(s.substring_char(u0, ue));
        assert(url@ == s@.subrange(u0 as int, ue as int));
        proof {
            lemma_skip_ws_bounds(s@, ue as int);
        }
        let p2 = skip_ws(s, ue);
        if p2 == n {
            return Ok(
                Requirement {
                    name: nm,
                    extras: exs,
                    marker: None,
                    version_or_url: Some(VersionOrUrl::Url(url)),
                },
            );
        }
        if char_at_is(s, p2, ';') {
            return parse_finish_marker(s, nm, exs, Some(VersionOrUrl::Url(url)), p2);
        }
        return Err(p2);
    }
    proof {
        lemma_find_char_bounds(s@, p as int, ';');
    }
    let ve = crate::marker::scan_char(s, p, ';');
    let vs_text = s.substring_char(p, ve);
    assert(vs_text@ == s@.subrange(p as int, ve as int));
    match VersionSpecifiers::from_text(vs_text) {
        Err(_) => Err(p),
        Ok(vs) => {
            let vu = Some(VersionOrUrl::VersionSpecifier(vs));
            if ve == n {
                Ok(Requirement { name: nm, extras: exs, marker: None, version_or_url: vu })
            } else {
                parse_finish_marker(s, nm, exs, vu, ve)
            }
        },
    }
}

/// Parses a named requirement, or decides the text has no such shape,
/// telling where the parse gave up.
fn parse_requirement_inner(s: &str) -> (r: Result<Requirement, usize>)
    ensures
        match r {
            Ok(req) => spec_parse_requirement(s@) == Some(req@),
            Err(_) => spec_parse_requirement(s@) is None,
        },
{
    let n = s.unicode_len();
    proof {
        lemma_skip_ws_bounds(s@, 0);
    }
    let p0 = skip_ws(s, 0);
    if p0 == n || !alnum_at(s, p0) {
        return Err(p0);
    }
    proof {
        lemma_name_end_bounds(s@, p0 as int);
    }
    let j = scan_name(s, p0);
    assert(j > p0);
    if !alnum_at(s, j - 1) {
        assert(!valid_name_chars(s@.subrange(p0 as int, j as int)));
        return Err(p0);
    }
    let raw = s.substring_char(p0, j);
    assert(raw@ == s@.subrange(p0 as int, j as int));
    let nm = match PackageName::new(raw) {
        Ok(p) => p,
        Err(_) => {
            assert(valid_name_chars(s@.subrange(p0 as int, j as int)));
            assert(false);
            return Err(p0);
        },
    };
    proof {
        lemma_skip_ws_bounds(s@, j as int);
    }
    let p1 = skip_ws(s, j);
    if p1 < n && char_at_is(s, p1, '[') {
        match parse_extras(s, p1) {
            Err(pos) => Err(pos),
            Ok((exs, p2)) => parse_tail(s, nm, exs, p2),
        }
    } else {
        let exs: Vec<ExtraName> = Vec::new();
        assert(extras_view(exs@) =~= Seq::<Seq<char>>::empty());
        parse_tail(s, nm, exs, p1)
    }
}

/// Whether the text reads as a bare URL or local path.
fn url_like(s: &str) -> (r: bool)
    ensures
        r == looks_like_url(s@),
{
    let n = s.unicode_len();
    proof {
        lemma_skip_ws_bounds(s@, 0);
    }
    let a = skip_ws(s, 0);
    if a == n {
        return false;
    }
    if char_at_is(s, a, '.') || char_at_is(s, a, '/') {
        return true;
    }
    proof {
        lemma_nonspace_end_bounds(s@, a as int);
    }
    let t = scan_nonspace(s, a);
    let tok = s.substring_char(a, t);
    assert(tok@ == s@.subrange(a as int, nonspace_end(s@, a as int)));
    crate::marker::str_contains_seq(tok, "://")
}

impl Requirement {
    /// Parses a PEP 508 requirement. A text that instead reads as a bare
    /// URL fails with the distinguishable unsupported-requirement error so
    /// a requirements-file caller can retry with the unnamed grammar.
    pub fn parse(input: &str) -> (r: Result<Requirement, Pep508Error>)
        ensures
            match r {
                Ok(req) => spec_parse_requirement(input@) == Some(req@),
                Err(e) => spec_parse_requirement(input@) is None && e.input@ == input@ && match e
                    .message {
                    Pep508ErrorSource::Message(m) => m@ == input@ && !looks_like_url(input@),
                    Pep508ErrorSource::UnsupportedRequirement(m) => m@ == input@ && looks_like_url(
                        input@,
                    ),
                },
            },
    {
        match parse_requirement_inner(input) {
            Ok(req) => Ok(req),
            Err(position) => {
                let message = if url_like(input) {
                    Pep508ErrorSource::UnsupportedRequirement(input.to_owned())
                } else {
                    Pep508ErrorSource::Message(input.to_owned())
                };
                Err(Pep508Error { message, position, input: input.to_owned() })
            },
        }
    }

    /// Whether this requirement's marker admits the environment and extras.
    pub fn evaluate_markers(&self, env: &MarkerEnvironment, extras: &[ExtraName]) -> (r: bool)
        ensures
            r == eval_opt_marker(self@.marker, env@, extras_view(extras@)),
    {
        match &self.marker {
            Option::None => true,
            Option::Some(t) => t.evaluate(env, extras),
        }
    }
}

impl UnnamedRequirement {
    /// Parses a bare-URL requirement: a URL, then an optional marker.
    pub fn parse(input: &str) -> (r: Result<UnnamedRequirement, Pep508Error>)
        ensures
            match r {
                Ok(u) => spec_parse_unnamed(input@) == Some(u@),
                Err(e) => spec_parse_unnamed(input@) is None && e.input@ == input@ && (e
                    .message matches Pep508ErrorSource::Message(m) && m@ == input@),
            },
    {
        let n = input.unicode_len();
        proof {
            lemma_skip_ws_bounds(input@, 0);
        }
        let a = skip_ws(input, 0);
        proof {
            lemma_find_char_bounds(input@, a as int, ';');
        }
        let m = crate::marker::scan_char(input, a, ';');
        proof {
            lemma_rtrim_bounds(input@, m as int);
        }
        let b = rtrim(input, m);
        if a == n || b <= a {
            return Err(
                Pep508Error {
                    message: Pep508ErrorSource::Message(input.to_owned()),
                    position: a,
                    input: input.to_owned(),
                },
            );
        }
        let mut k = a;
        while k < b
            invariant
                a <= k <= b <= n,
                n == input@.len(),
                a < n,
                a as int == skip_ws_from(input@, 0),
                m as int == find_char(input@, a as int, ';'),
                b as int == rtrim_to(input@, m as int),
                forall|k2: int| a <= k2 < k ==> !is_space(#[trigger] input@[k2]),
            decreases b - k,
        {
            if !nonspace_at(input, k) {
                return Err(
                    Pep508Error {
                        message: Pep508ErrorSource::Message(input.to_owned()),
                        position: k,
                        input: input.to_owned(),
                    },
                );
            }
            k = k + 1;
        }
        let url = VerbatimUrl::from_text(input.substring_char(a, b));
        assert(url@ == input@.subrange(a as int, b as int));
        let exs: Vec<ExtraName> = Vec::new();
        assert(extras_view(exs@) =~= Seq::<Seq<char>>::empty());
        if m == n {
            return Ok(UnnamedRequirement { url, extras: exs, marker: None });
        }
        let tail = input.substring_char(m + 1, n);
        assert(tail@ == input@.subrange(m + 1, input@.len() as int));
        match MarkerTree::parse(tail) {
            Err(_) => Err(
                Pep508Error {
                    message: Pep508ErrorSource::Message(input.to_owned()),
                    position: m + 1,
                    input: input.to_owned(),
                },
            ),
            Ok(t) => Ok(UnnamedRequirement { url, extras: exs, marker: Some(t) }),
        }
    }

    /// Whether this requirement's marker admits the environment and extras.
    pub fn evaluate_markers(&self, env: &MarkerEnvironment, extras: &[ExtraName]) -> (r: bool)
        ensures
            r == eval_opt_marker(self@.marker, env@, extras_view(extras@)),
    {
        match &self.marker {
            Option::None => true,
            Option::Some(t) => t.evaluate(env, extras),
        }
    }
}

} // verus!
