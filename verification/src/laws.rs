//! Crate-wide laws, proved once and for all inputs: normalization is
//! idempotent, rendered specifiers, markers and whole requirements parse
//! back to themselves, and so parsing any requirement text and re-deriving
//! its structured fields from the rendered form is stable.

use vstd::prelude::*;
use crate::name::{is_name_sep, is_name_alnum, is_name_char, valid_name_chars, lower_char,
    normal_from, normal_form};
use crate::text::{is_space, skip_ws_from, rtrim_to};
use crate::version::{SpecifierView, SpecifierOperator, is_version_char, wf_specifier, find_comma,
    spec_parse_operator, spec_parse_specifier, spec_parse_specifiers_from, spec_parse_specifiers};
use crate::display::{op_text, render_specifier, render_specifiers_from, render_specifiers};

verus! {

/// A lowercase ASCII letter or a digit.
pub open spec fn is_lower_alnum(c: char) -> bool {
    ('a' <= c && c <= 'z') || ('0' <= c && c <= '9')
}

/// A name already in normal form: valid, nothing but lowercase letters,
/// digits and single dashes.
pub open spec fn is_normal_name(s: Seq<char>) -> bool {
    &&& valid_name_chars(s)
    &&& forall|i: int| 0 <= i < s.len() ==> is_lower_alnum(#[trigger] s[i]) || s[i] == '-'
    &&& forall|i: int| 0 < i < s.len() ==> !(#[trigger] s[i] == '-' && s[i - 1] == '-')
}

/// The shape of every suffix a normalization produces: lowercase letters,
/// digits and dashes, never two dashes in a row, ending and (after a
/// separator) starting away from a dash.
proof fn lemma_normal_from_shape(s: Seq<char>, i: int)
    requires
        0 <= i <= s.len(),
        forall|k: int| 0 <= k < s.len() ==> is_name_char(#[trigger] s[k]),
        s.len() > 0 ==> is_name_alnum(s[s.len() - 1]),
    ensures
        forall|j: int| 0 <= j < normal_from(s, i).len() ==> is_lower_alnum(
            #[trigger] normal_from(s, i)[j],
        ) || normal_from(s, i)[j] == '-',
        forall|j: int| 0 < j < normal_from(s, i).len() ==> !(#[trigger] normal_from(s, i)[j] == '-'
            && normal_from(s, i)[j - 1] == '-'),
        (i > 0 && i < s.len() && is_name_sep(s[i - 1]) && normal_from(s, i).len() > 0)
            ==> normal_from(s, i)[0] != '-',
        (i < s.len() && is_name_alnum(s[i])) ==> (normal_from(s, i).len() > 0 && is_lower_alnum(
            normal_from(s, i)[0],
        )),
        i < s.len() ==> (normal_from(s, i).len() > 0 && is_lower_alnum(
            normal_from(s, i)[normal_from(s, i).len() - 1],
        )),
    decreases s.len() - i,
{
    if i < s.len() {
        lemma_normal_from_shape(s, i + 1);
        let rest = normal_from(s, i + 1);
        let r = normal_from(s, i);
        if is_name_sep(s[i]) {
            if !(i > 0 && is_name_sep(s[i - 1])) {
                assert(r == seq!['-'] + rest);
                assert(r[0] == '-');
                assert(forall|j: int| 1 <= j < r.len() ==> r[j] == rest[j - 1]);
            }
        } else {
            assert(is_name_alnum(s[i]));
            assert(is_lower_alnum(lower_char(s[i])));
            assert(r == seq![lower_char(s[i])] + rest);
            assert(r[0] == lower_char(s[i]));
            assert(forall|j: int| 1 <= j < r.len() ==> r[j] == rest[j - 1]);
        }
    }
}

/// Normalizing a well-formed name yields a normal name.
pub proof fn lemma_normal_form_is_normal(s: Seq<char>)
    requires
        valid_name_chars(s),
    ensures
        is_normal_name(normal_form(s)),
{
    lemma_normal_from_shape(s, 0);
}

/// A normal name is fixed by normalization.
pub proof fn lemma_normal_idempotent(t: Seq<char>)
    requires
        is_normal_name(t),
    ensures
        normal_form(t) == t,
{
    lemma_normal_from_suffix(t, 0);
    assert(normal_form(t) =~= t.subrange(0, t.len() as int));
    assert(t.subrange(0, t.len() as int) =~= t);
}

// ---------------------------------------------------------------------------
// Scanner determination: a scan over known characters stops where they end.
// ---------------------------------------------------------------------------

/// A comma scan runs to the first comma.
proof fn lemma_find_comma_det(s: Seq<char>, i: int, j: int)
    requires
        0 <= i <= j <= s.len(),
        forall|k: int| i <= k < j ==> #[trigger] s[k] != ',',
        j < s.len() ==> s[j] == ',',
    ensures
        find_comma(s, i) == j,
    decreases j - i,
{
    if i < j {
        lemma_find_comma_det(s, i + 1, j);
    }
}

/// A whitespace skip over non-space stays put; this restates the definition
/// for one common case, over a whole known range.
proof fn lemma_skip_ws_det(s: Seq<char>, i: int, j: int)
    requires
        0 <= i <= j <= s.len(),
        forall|k: int| i <= k < j ==> is_space(#[trigger] s[k]),
        j < s.len() ==> !is_space(s[j]),
    ensures
        skip_ws_from(s, i) == j,
    decreases j - i,
{
    if i < j {
        lemma_skip_ws_det(s, i + 1, j);
    }
}

/// A right trim over known spaces stops at the first non-space.
proof fn lemma_rtrim_det(s: Seq<char>, b: int, j: int)
    requires
        0 <= b <= j <= s.len(),
        forall|k: int| b <= k < j ==> is_space(#[trigger] s[k]),
        b > 0 ==> !is_space(s[b - 1]),
    ensures
        rtrim_to(s, j) == b,
    decreases j - b,
{
    if b < j {
        lemma_rtrim_det(s, b, j - 1);
    }
}

/// The characters every operator writes, and their classes.
proof fn lemma_op_text_facts(op: SpecifierOperator)
    ensures
        1 <= op_text(op).len() <= 3,
        forall|k: int| 0 <= k < op_text(op).len() ==> (#[trigger] op_text(op)[k] == '='
            || op_text(op)[k] == '!' || op_text(op)[k] == '<' || op_text(op)[k] == '>'
            || op_text(op)[k] == '~'),
{
    reveal_strlit("==");
    reveal_strlit("!=");
    reveal_strlit("<=");
    reveal_strlit(">=");
    reveal_strlit("<");
    reveal_strlit(">");
    reveal_strlit("~=");
    reveal_strlit("===");
}

/// A version character is none of the grammar's structural characters.
proof fn lemma_version_char_facts(c: char)
    requires
        is_version_char(c),
    ensures
        c != ',' && c != ';' && c != '=' && c != '<' && c != '>' && c != '~' && !is_space(c),
{
}

// ---------------------------------------------------------------------------
// Version specifiers render back to themselves.
// ---------------------------------------------------------------------------

/// A run of spaces.
pub open spec fn spaces(m: int) -> Seq<char> {
    Seq::new(m as nat, |k: int| ' ')
}

/// Parsing a rendered specifier list, embedded in `s` from `pos` to the
/// end but for `m` trailing spaces, yields exactly the specifiers rendered.
proof fn lemma_specs_parse_at(specs: Seq<SpecifierView>, i: int, s: Seq<char>, pos: int, m: int)
    requires
        0 <= i < specs.len(),
        forall|k: int| 0 <= k < specs.len() ==> wf_specifier(#[trigger] specs[k]),
        0 <= pos <= s.len(),
        0 <= m,
        s.subrange(pos, s.len() as int) == render_specifiers_from(specs, i) + spaces(m),
    ensures
        spec_parse_specifiers_from(s, pos) == Some(specs.subrange(i, specs.len() as int)),
    decreases specs.len() - i,
{
    lemma_op_text_facts(specs[i].op);
    reveal_strlit(",");
    let sp = specs[i];
    let seg = render_specifier(sp);
    let olen = op_text(sp.op).len() as int;
    let vlen = sp.version.len() as int;
    let seglen = olen + vlen;
    let rn = render_specifiers_from(specs, i);
    let rlen = rn.len() as int;
    assert(spaces(m).len() == m);
    assert(s.subrange(pos, s.len() as int).len() == s.len() - pos);
    assert((rn + spaces(m)).len() == rlen + m);
    assert(s.subrange(pos, s.len() as int) == rn + spaces(m));
    assert(s.len() - pos == rlen + m);
    assert(forall|k: int| 0 <= k < rlen + m ==> s[pos + k] == (rn + spaces(m))[k]) by {
        assert(forall|k: int| 0 <= k < rlen + m ==> s[pos + k] == s.subrange(
            pos,
            s.len() as int,
        )[k]);
    }
    assert forall|k: int| 0 <= k < rlen implies #[trigger] s[pos + k] == rn[k] by {
        assert(s[pos + k] == (rn + spaces(m))[k]);
    }
    assert forall|k: int| rlen <= k < rlen + m implies is_space(#[trigger] s[pos + k]) by {
        assert(s[pos + k] == (rn + spaces(m))[k]);
        assert((rn + spaces(m))[k] == spaces(m)[k - rlen]);
    }
    // The characters of the current segment.
    assert forall|k: int| 0 <= k < olen implies s[pos + k] == op_text(sp.op)[k] by {
        assert(s[pos + k] == rn[k]);
        assert(rn[k] == seg[k]);
        assert(seg[k] == op_text(sp.op)[k]);
    }
    assert forall|k: int| 0 <= k < vlen implies s[pos + olen + k] == sp.version[k] by {
        assert(s[pos + (olen + k)] == rn[olen + k]);
        assert(rn[olen + k] == seg[olen + k]);
        assert(seg[olen + k] == sp.version[k]);
    }
    assert forall|k: int| 0 <= k < vlen implies is_version_char(#[trigger] s[pos + olen + k]) by {
        assert(s[pos + olen + k] == sp.version[k]);
        assert(is_version_char(sp.version[k]));
    }
    // Where the segment ends: the separating comma, or the trimmed end.
    let segend = pos + seglen;
    if i < specs.len() - 1 {
        assert(rn == seg + ","@ + render_specifiers_from(specs, i + 1));
        assert(s[pos + seglen] == rn[seglen]);
        assert(rn[seglen] == ","@[0]);
        assert(s[segend] == ',');
    } else {
        assert(rn == seg);
        assert(rlen == seglen);
    }
    // No comma before the segment end; for the last segment, none at all.
    assert forall|k: int| pos <= k < segend implies #[trigger] s[k] != ',' by {
        if k < pos + olen {
            assert(s[k] == op_text(sp.op)[k - pos]);
        } else {
            assert(s[k] == s[pos + olen + (k - pos - olen)]);
            lemma_version_char_facts(s[k]);
        }
    }
    let jj = if i < specs.len() - 1 {
        segend
    } else {
        s.len() as int
    };
    if i == specs.len() - 1 {
        assert forall|k: int| segend <= k < s.len() implies #[trigger] s[k] != ',' by {
            assert(is_space(s[pos + (k - pos)]));
        }
    }
    lemma_find_comma_det(s, pos, jj);
    // No space heads the segment, so nothing is skipped.
    assert(s[pos + 0] == op_text(sp.op)[0]);
    assert(!is_space(s[pos]));
    assert(skip_ws_from(s, pos) == pos);
    // The operator reads back as itself: the version text cannot extend it.
    assert(spec_parse_operator(s, pos) == Some((sp.op, pos + olen))) by {
        reveal_strlit("==");
        reveal_strlit("!=");
        reveal_strlit("<=");
        reveal_strlit(">=");
        reveal_strlit("<");
        reveal_strlit(">");
        reveal_strlit("~=");
        reveal_strlit("===");
        assert(s[pos + olen + 0] == sp.version[0]);
        lemma_version_char_facts(sp.version[0]);
        assert(s[pos + 0] == op_text(sp.op)[0]);
        if olen >= 2 {
            assert(s[pos + 1] == op_text(sp.op)[1]);
        }
        if olen >= 3 {
            assert(s[pos + 2] == op_text(sp.op)[2]);
        }
        match sp.op {
            SpecifierOperator::Equal => {
                assert(s[pos + 0] == '=' && s[pos + 1] == '=');
                assert(s[pos + 2] != '=');
            },
            SpecifierOperator::NotEqual => {
                assert(s[pos + 0] == '!' && s[pos + 1] == '=');
            },
            SpecifierOperator::LessThanEqual => {
                assert(s[pos + 0] == '<' && s[pos + 1] == '=');
            },
            SpecifierOperator::GreaterThanEqual => {
                assert(s[pos + 0] == '>' && s[pos + 1] == '=');
            },
            SpecifierOperator::LessThan => {
                assert(s[pos + 0] == '<');
                assert(s[pos + 1] != '=');
            },
            SpecifierOperator::GreaterThan => {
                assert(s[pos + 0] == '>');
                assert(s[pos + 1] != '=');
            },
            SpecifierOperator::TildeEqual => {
                assert(s[pos + 0] == '~' && s[pos + 1] == '=');
            },
            SpecifierOperator::ExactEqual => {
                assert(s[pos + 0] == '=' && s[pos + 1] == '=' && s[pos + 2] == '=');
            },
        }
    }
    assert(s[pos + olen + 0] == sp.version[0]);
    assert(!is_space(s[pos + olen])) by {
        lemma_version_char_facts(sp.version[0]);
    }
    assert(skip_ws_from(s, pos + olen) == pos + olen);
    // The trimmed end of the segment.
    assert(s[pos + olen + (vlen - 1)] == sp.version[vlen - 1]);
    assert(!is_space(s[segend - 1])) by {
        lemma_version_char_facts(sp.version[vlen - 1]);
    }
    if i == specs.len() - 1 {
        assert forall|k: int| segend <= k < s.len() implies is_space(#[trigger] s[k]) by {
            assert(is_space(s[pos + (k - pos)]));
        }
        lemma_rtrim_det(s, segend, s.len() as int);
    } else {
        lemma_rtrim_det(s, segend, segend);
    }
    assert(rtrim_to(s, jj) == segend);
    assert forall|k: int| 0 <= k < vlen implies #[trigger] s.subrange(pos + olen, segend)[k]
        == sp.version[k] by {
        assert(s[pos + olen + k] == sp.version[k]);
    }
    assert(s.subrange(pos + olen, segend) =~= sp.version);
    assert forall|k2: int| pos + olen <= k2 < segend implies is_version_char(#[trigger] s[k2]) by {
        assert(s[pos + olen + (k2 - pos - olen)] == sp.version[k2 - pos - olen]);
        assert(is_version_char(sp.version[k2 - pos - olen]));
    }
    assert(spec_parse_specifier(s, pos, jj) == Some(sp)) by {
        assert(SpecifierView { op: sp.op, version: s.subrange(pos + olen, segend) } == sp);
    }
    if i == specs.len() - 1 {
        assert(spec_parse_specifiers_from(s, pos) == Some(seq![sp]));
        assert(seq![sp] =~= specs.subrange(i, specs.len() as int));
    } else {
        let rest = render_specifiers_from(specs, i + 1);
        assert(rn.len() == seglen + 1 + rest.len());
        assert forall|k: int| 0 <= k < s.len() - segend - 1 implies #[trigger] s.subrange(
            segend + 1,
            s.len() as int,
        )[k] == (rest + spaces(m))[k] by {
            assert(s.subrange(segend + 1, s.len() as int)[k] == s[segend + 1 + k]);
            if k < rest.len() {
                assert(s[pos + (seglen + 1 + k)] == rn[seglen + 1 + k]);
                assert(rn[seglen + 1 + k] == rest[k]);
                assert((rest + spaces(m))[k] == rest[k]);
            } else {
                assert(is_space(s[pos + (seglen + 1 + k)]));
                assert((rest + spaces(m))[k] == spaces(m)[k - rest.len()]);
                assert(spaces(m)[k - rest.len()] == ' ');
                assert(s[pos + (seglen + 1 + k)] == s.subrange(pos, s.len() as int)[seglen + 1
                    + k]);
                assert((rn + spaces(m))[seglen + 1 + k] == spaces(m)[seglen + 1 + k - rlen]);
            }
        }
        assert(s.subrange(segend + 1, s.len() as int) =~= rest + spaces(m));
        lemma_specs_parse_at(specs, i + 1, s, segend + 1, m);
        assert(seq![sp] + specs.subrange(i + 1, specs.len() as int) =~= specs.subrange(
            i,
            specs.len() as int,
        ));
    }
}

/// Rendered version specifiers parse back to themselves.
pub proof fn lemma_specifiers_round_trip(specs: Seq<SpecifierView>)
    requires
        specs.len() > 0,
        forall|k: int| 0 <= k < specs.len() ==> wf_specifier(#[trigger] specs[k]),
    ensures
        spec_parse_specifiers(render_specifiers(specs)) == Some(specs),
{
    let s = render_specifiers(specs);
    assert(s.subrange(0, s.len() as int) =~= render_specifiers_from(specs, 0) + spaces(0));
    lemma_specs_parse_at(specs, 0, s, 0, 0);
    lemma_op_text_facts(specs[0].op);
    assert(s[0] == op_text(specs[0].op)[0]) by {
        assert(render_specifiers_from(specs, 0)[0] == render_specifier(specs[0])[0]);
    }
    assert(!is_space(s[0]));
    assert(skip_ws_from(s, 0) == 0);
    assert(specs.subrange(0, specs.len() as int) =~= specs);
}

// ---------------------------------------------------------------------------
// More scanner determination.
// ---------------------------------------------------------------------------

/// A name scan runs to the first non-name character.
proof fn lemma_name_end_det(s: Seq<char>, i: int, j: int)
    requires
        0 <= i <= j <= s.len(),
        forall|k: int| i <= k < j ==> is_name_char(#[trigger] s[k]),
        j < s.len() ==> !is_name_char(s[j]),
    ensures
        crate::requirement::name_end(s, i) == j,
    decreases j - i,
{
    if i < j {
        lemma_name_end_det(s, i + 1, j);
    }
}

/// A non-space scan runs to the first space.
proof fn lemma_nonspace_end_det(s: Seq<char>, i: int, j: int)
    requires
        0 <= i <= j <= s.len(),
        forall|k: int| i <= k < j ==> !is_space(#[trigger] s[k]),
        j < s.len() ==> is_space(s[j]),
    ensures
        crate::requirement::nonspace_end(s, i) == j,
    decreases j - i,
{
    if i < j {
        lemma_nonspace_end_det(s, i + 1, j);
    }
}

/// A character scan runs to the first occurrence.
proof fn lemma_find_char_det(s: Seq<char>, i: int, j: int, q: char)
    requires
        0 <= i <= j <= s.len(),
        forall|k: int| i <= k < j ==> #[trigger] s[k] != q,
        j < s.len() ==> s[j] == q,
    ensures
        crate::marker::find_char(s, i, q) == j,
    decreases j - i,
{
    if i < j {
        lemma_find_char_det(s, i + 1, j, q);
    }
}

/// A normal name's characters, classified.
proof fn lemma_normal_name_char(t: Seq<char>, k: int)
    requires
        is_normal_name(t),
        0 <= k < t.len(),
    ensures
        is_name_char(t[k]),
        !is_space(t[k]),
        t[k] != ',' && t[k] != ']' && t[k] != '[' && t[k] != ';' && t[k] != '@',
{
    assert(is_lower_alnum(t[k]) || t[k] == '-');
}

// ---------------------------------------------------------------------------
// Rendered extras parse back to themselves.
// ---------------------------------------------------------------------------

/// Every name in a rendered, `]`-terminated extras list parses back.
proof fn lemma_extras_items_at(exs: Seq<Seq<char>>, i: int, s: Seq<char>, pos: int)
    requires
        0 <= i < exs.len(),
        forall|k: int| 0 <= k < exs.len() ==> is_normal_name(#[trigger] exs[k]),
        0 <= pos,
        pos + crate::display::render_names_from(exs, i).len() < s.len(),
        forall|k: int| 0 <= k < crate::display::render_names_from(exs, i).len()
            ==> #[trigger] s[pos + k] == crate::display::render_names_from(exs, i)[k],
        s[pos + crate::display::render_names_from(exs, i).len() as int] == ']',
    ensures
        crate::requirement::spec_parse_extras_from(s, pos) == Some(
            (
                exs.subrange(i, exs.len() as int),
                pos + crate::display::render_names_from(exs, i).len() + 1,
            ),
        ),
    decreases exs.len() - i,
{
    reveal_strlit(",");
    let e = exs[i];
    let rn = crate::display::render_names_from(exs, i);
    let elen = e.len() as int;
    // The characters of the current name.
    assert forall|k: int| 0 <= k < elen implies #[trigger] s[pos + k] == e[k] by {
        assert(s[pos + k] == rn[k]);
        if i < exs.len() - 1 {
            assert(rn == e + ","@ + crate::display::render_names_from(exs, i + 1));
        }
    }
    assert forall|k: int| pos <= k < pos + elen implies is_name_char(#[trigger] s[k])
        && !is_space(s[k]) by {
        assert(s[pos + (k - pos)] == e[k - pos]);
        lemma_normal_name_char(e, k - pos);
    }
    // What follows the name: a comma or the closing bracket.
    let after = pos + elen;
    if i < exs.len() - 1 {
        assert(rn == e + ","@ + crate::display::render_names_from(exs, i + 1));
        assert(s[pos + elen] == rn[elen]);
        assert(s[after] == ',');
    } else {
        assert(rn == e);
        assert(s[after] == ']');
    }
    assert(s[pos + 0] == e[0]);
    lemma_normal_name_char(e, 0);
    assert(skip_ws_from(s, pos) == pos);
    lemma_name_end_det(s, pos, after);
    assert forall|k: int| 0 <= k < elen implies #[trigger] s.subrange(pos, after)[k] == e[k] by {
        assert(s[pos + k] == e[k]);
    }
    assert(s.subrange(pos, after) =~= e);
    assert(valid_name_chars(s.subrange(pos, after)));
    lemma_normal_idempotent(e);
    assert(skip_ws_from(s, after) == after);
    if i < exs.len() - 1 {
        let rest = crate::display::render_names_from(exs, i + 1);
        assert(rn.len() == elen + 1 + rest.len());
        assert forall|k: int| 0 <= k < rest.len() implies #[trigger] s[after + 1 + k]
            == rest[k] by {
            assert(s[pos + (elen + 1 + k)] == rn[elen + 1 + k]);
            assert(rn[elen + 1 + k] == rest[k]);
        }
        lemma_extras_items_at(exs, i + 1, s, after + 1);
        assert(seq![e] + exs.subrange(i + 1, exs.len() as int) =~= exs.subrange(
            i,
            exs.len() as int,
        ));
    } else {
        assert(seq![e] =~= exs.subrange(i, exs.len() as int));
    }
}

/// Pairwise-distinct names.
pub open spec fn distinct_names(exs: Seq<Seq<char>>) -> bool {
    forall|j1: int, j2: int| 0 <= j1 < j2 < exs.len() ==> exs[j1] != exs[j2]
}

/// Deduplication keeps only normal names when it is fed only normal names.
proof fn lemma_dedup_normal(exs: Seq<Seq<char>>, i: int, seen: Seq<Seq<char>>)
    requires
        forall|k: int| 0 <= k < exs.len() ==> is_normal_name(#[trigger] exs[k]),
    ensures
        forall|k: int| 0 <= k < crate::requirement::dedup_from(exs, i, seen).len()
            ==> is_normal_name(#[trigger] crate::requirement::dedup_from(exs, i, seen)[k]),
    decreases exs.len() - i,
{
    if 0 <= i < exs.len() {
        if crate::marker::extras_have(seen, exs[i]) {
            lemma_dedup_normal(exs, i + 1, seen);
            assert(crate::requirement::dedup_from(exs, i, seen) == crate::requirement::dedup_from(
                exs,
                i + 1,
                seen,
            ));
        } else {
            lemma_dedup_normal(exs, i + 1, seen.push(exs[i]));
            let r = crate::requirement::dedup_from(exs, i, seen);
            let rest = crate::requirement::dedup_from(exs, i + 1, seen.push(exs[i]));
            assert(r == seq![exs[i]] + rest);
            assert(r[0] == exs[i]);
            assert(is_normal_name(exs[i]));
            assert forall|k: int| 0 <= k < r.len() implies is_normal_name(#[trigger] r[k]) by {
                if k > 0 {
                    assert(r[k] == rest[k - 1]);
                    assert(is_normal_name(rest[k - 1]));
                }
            }
        }
    }
}

/// Deduplication yields pairwise-distinct names, none of them already seen.
proof fn lemma_dedup_distinct(exs: Seq<Seq<char>>, i: int, seen: Seq<Seq<char>>)
    ensures
        distinct_names(crate::requirement::dedup_from(exs, i, seen)),
        forall|k: int| 0 <= k < crate::requirement::dedup_from(exs, i, seen).len()
            ==> !crate::marker::extras_have(
                seen,
                #[trigger] crate::requirement::dedup_from(exs, i, seen)[k],
            ),
    decreases exs.len() - i,
{
    if 0 <= i < exs.len() {
        if crate::marker::extras_have(seen, exs[i]) {
            lemma_dedup_distinct(exs, i + 1, seen);
        } else {
            lemma_dedup_distinct(exs, i + 1, seen.push(exs[i]));
            let r = crate::requirement::dedup_from(exs, i, seen);
            let rest = crate::requirement::dedup_from(exs, i + 1, seen.push(exs[i]));
            assert(r == seq![exs[i]] + rest);
            assert(r[0] == exs[i]);
            assert(forall|k: int| 1 <= k < r.len() ==> r[k] == rest[k - 1]);
            assert forall|k: int| 0 <= k < r.len() implies !crate::marker::extras_have(
                seen,
                #[trigger] r[k],
            ) && (k > 0 ==> r[k] != exs[i]) by {
                if k > 0 {
                    assert(!crate::marker::extras_have(seen.push(exs[i]), rest[k - 1]));
                    crate::pyproject::lemma_names_have_push(seen, exs[i], rest[k - 1]);
                }
            }
        }
    }
}

/// Deduplication leaves a list of distinct, unseen names unchanged.
proof fn lemma_dedup_id_from(exs: Seq<Seq<char>>, i: int, seen: Seq<Seq<char>>)
    requires
        0 <= i <= exs.len(),
        forall|j: int| i <= j < exs.len() ==> !crate::marker::extras_have(
            seen,
            #[trigger] exs[j],
        ),
        forall|j1: int, j2: int| i <= j1 < j2 < exs.len() ==> exs[j1] != exs[j2],
    ensures
        crate::requirement::dedup_from(exs, i, seen) == exs.subrange(i, exs.len() as int),
    decreases exs.len() - i,
{
    if i < exs.len() {
        assert forall|j: int| i + 1 <= j < exs.len() implies !crate::marker::extras_have(
            seen.push(exs[i]),
            #[trigger] exs[j],
        ) by {
            crate::pyproject::lemma_names_have_push(seen, exs[i], exs[j]);
        }
        lemma_dedup_id_from(exs, i + 1, seen.push(exs[i]));
        assert(crate::requirement::dedup_from(exs, i, seen) =~= exs.subrange(
            i,
            exs.len() as int,
        ));
    } else {
        assert(crate::requirement::dedup_from(exs, i, seen) =~= exs.subrange(
            i,
            exs.len() as int,
        ));
    }
}

/// Deduplication leaves a list of pairwise-distinct names unchanged.
pub proof fn lemma_dedup_id(exs: Seq<Seq<char>>)
    requires
        distinct_names(exs),
    ensures
        crate::requirement::dedup_names(exs) == exs,
{
    assert(forall|j: int| 0 <= j < exs.len() ==> !crate::marker::extras_have(
        Seq::<Seq<char>>::empty(),
        #[trigger] exs[j],
    ));
    lemma_dedup_id_from(exs, 0, Seq::empty());
    assert(exs.subrange(0, exs.len() as int) =~= exs);
}

/// A rendered nonempty extras list, opening bracket at `pos`, parses back.
proof fn lemma_extras_at(exs: Seq<Seq<char>>, s: Seq<char>, pos: int)
    requires
        forall|k: int| 0 <= k < exs.len() ==> is_normal_name(#[trigger] exs[k]),
        distinct_names(exs),
        0 <= pos,
        pos + crate::display::render_extras(exs).len() <= s.len(),
        forall|k: int| 0 <= k < crate::display::render_extras(exs).len() ==> #[trigger] s[pos + k]
            == crate::display::render_extras(exs)[k],
        exs.len() > 0,
    ensures
        crate::requirement::spec_parse_extras(s, pos) == Some(
            (exs, pos + crate::display::render_extras(exs).len()),
        ),
{
    reveal_strlit("[");
    reveal_strlit("]");
    let re = crate::display::render_extras(exs);
    let rn = crate::display::render_names_from(exs, 0);
    assert(re == "["@ + rn + "]"@);
    assert(s[pos + 0] == re[0]);
    assert(s[pos] == '[');
    assert forall|k: int| 0 <= k < rn.len() implies #[trigger] s[pos + 1 + k] == rn[k] by {
        assert(s[pos + (1 + k)] == re[1 + k]);
        assert(re[1 + k] == rn[k]);
    }
    assert(s[pos + (1 + rn.len() as int)] == re[1 + rn.len() as int]);
    assert(s[pos + 1 + rn.len() as int] == ']');
    assert(s[pos + 1 + 0] == rn[0]);
    assert(rn[0] == exs[0][0]) by {
        if exs.len() > 1 {
            assert(rn == exs[0] + ","@ + crate::display::render_names_from(exs, 1));
        }
    }
    lemma_normal_name_char(exs[0], 0);
    assert(skip_ws_from(s, pos + 1) == pos + 1);
    assert(s[pos + 1] != ']');
    lemma_extras_items_at(exs, 0, s, pos + 1);
    assert(exs.subrange(0, exs.len() as int) =~= exs);
    lemma_dedup_id(exs);
}

// ---------------------------------------------------------------------------
// What parsing promises of the shape of its results.
// ---------------------------------------------------------------------------

/// A well-formed requirement view: names in normal form, extras pairwise
/// distinct (they form a set), a marker that quotes unambiguously, and a
/// nonempty constraint of well-formed predicates or a nonempty space-free
/// URL. Every parse result has this shape.
pub open spec fn wf_requirement(v: crate::requirement::RequirementView) -> bool {
    &&& is_normal_name(v.name)
    &&& forall|k: int| 0 <= k < v.extras.len() ==> is_normal_name(#[trigger] v.extras[k])
    &&& distinct_names(v.extras)
    &&& match v.marker {
        None => true,
        Some(t) => wf_marker(t),
    }
    &&& match v.version_or_url {
        None => true,
        Some(crate::requirement::VersionOrUrlView::VersionSpecifier(sp)) => sp.len() > 0 && (
        forall|k: int| 0 <= k < sp.len() ==> wf_specifier(#[trigger] sp[k])),
        Some(crate::requirement::VersionOrUrlView::Url(u)) => u.len() > 0 && (forall|k: int|
            0 <= k < u.len() ==> !is_space(#[trigger] u[k])),
    }
}

/// Parsed specifiers are well formed.
proof fn lemma_parsed_specs_wf(s: Seq<char>, i: int)
    requires
        crate::version::spec_parse_specifiers_from(s, i) is Some,
    ensures
        ({
            let sp = crate::version::spec_parse_specifiers_from(s, i).unwrap();
            sp.len() > 0 && forall|k: int| 0 <= k < sp.len() ==> wf_specifier(#[trigger] sp[k])
        }),
    decreases s.len() - i,
{
    let j = find_comma(s, i);
    if 0 <= i <= s.len() {
        crate::version::lemma_find_comma_bounds(s, i);
        let spo = spec_parse_specifier(s, i, j);
        if spo is Some {
            crate::text::lemma_skip_ws_bounds(s, i);
            let a = skip_ws_from(s, i);
            let opr = spec_parse_operator(s, a);
            let after_op = opr->Some_0.1;
            assert(0 <= after_op <= s.len());
            crate::text::lemma_skip_ws_bounds(s, after_op);
            let vv = skip_ws_from(s, after_op);
            crate::text::lemma_rtrim_bounds(s, j);
            let b = rtrim_to(s, j);
            let sp = spo->Some_0;
            assert(vv < b <= s.len());
            assert(sp.version == s.subrange(vv, b));
            assert forall|k: int| 0 <= k < sp.version.len() implies is_version_char(
                #[trigger] sp.version[k],
            ) by {
                assert(sp.version[k] == s[vv + k]);
            }
            assert(wf_specifier(sp));
            if j < s.len() {
                lemma_parsed_specs_wf(s, j + 1);
                let rest = spec_parse_specifiers_from(s, j + 1);
                if rest is Some {
                    let whole = seq![sp] + rest->Some_0;
                    assert forall|k: int| 0 <= k < whole.len() implies wf_specifier(
                        #[trigger] whole[k],
                    ) by {
                        if k > 0 {
                            assert(whole[k] == rest->Some_0[k - 1]);
                        }
                    }
                }
            } else {
                assert(forall|k: int| 0 <= k < seq![sp].len() ==> wf_specifier(
                    #[trigger] seq![sp][k],
                ));
            }
        }
    }
}

/// Parsed extras are in normal form.
proof fn lemma_parsed_extras_wf(s: Seq<char>, i: int)
    requires
        crate::requirement::spec_parse_extras_from(s, i) is Some,
    ensures
        ({
            let exs = crate::requirement::spec_parse_extras_from(s, i).unwrap().0;
            forall|k: int| 0 <= k < exs.len() ==> is_normal_name(#[trigger] exs[k])
        }),
    decreases s.len() - i,
{
    if 0 <= i <= s.len() {
        crate::text::lemma_skip_ws_bounds(s, i);
        let a = skip_ws_from(s, i);
        crate::requirement::lemma_name_end_bounds(s, a);
        let j = crate::requirement::name_end(s, a);
        if !(a >= s.len() || j == a || !valid_name_chars(s.subrange(a, j))) {
            lemma_normal_form_is_normal(s.subrange(a, j));
            crate::text::lemma_skip_ws_bounds(s, j);
            let b = skip_ws_from(s, j);
            if b < s.len() && s[b] == ',' {
                lemma_parsed_extras_wf(s, b + 1);
            }
        }
    }
}

/// Whatever a parse returns is well formed.
pub proof fn lemma_parse_wf(s: Seq<char>, v: crate::requirement::RequirementView)
    requires
        crate::requirement::spec_parse_requirement(s) == Some(v),
    ensures
        wf_requirement(v),
{
    crate::text::lemma_skip_ws_bounds(s, 0);
    let p0 = skip_ws_from(s, 0);
    crate::requirement::lemma_name_end_bounds(s, p0);
    let j = crate::requirement::name_end(s, p0);
    lemma_normal_form_is_normal(s.subrange(p0, j));
    crate::text::lemma_skip_ws_bounds(s, j);
    let p1 = skip_ws_from(s, j);
    if p1 < s.len() && s[p1] == '[' {
        crate::text::lemma_skip_ws_bounds(s, p1 + 1);
        let w = skip_ws_from(s, p1 + 1);
        if !(w < s.len() && s[w] == ']') {
            lemma_parsed_extras_wf(s, p1 + 1);
            match crate::requirement::spec_parse_extras_from(s, p1 + 1) {
                None => {},
                Some((items, end)) => {
                    lemma_dedup_normal(items, 0, Seq::empty());
                    lemma_dedup_distinct(items, 0, Seq::empty());
                },
            }
        }
        let ext = crate::requirement::spec_parse_extras(s, p1);
        lemma_tail_wf(s, normal_form(s.subrange(p0, j)), ext.unwrap().0, ext.unwrap().1, v);
    } else {
        lemma_tail_wf(s, normal_form(s.subrange(p0, j)), Seq::empty(), p1, v);
    }
}

/// The tail of a parse keeps its pieces well formed.
proof fn lemma_tail_wf(
    s: Seq<char>,
    nm: Seq<char>,
    exs: Seq<Seq<char>>,
    i: int,
    v: crate::requirement::RequirementView,
)
    requires
        crate::requirement::spec_parse_tail(s, nm, exs, i) == Some(v),
        is_normal_name(nm),
        forall|k: int| 0 <= k < exs.len() ==> is_normal_name(#[trigger] exs[k]),
        distinct_names(exs),
    ensures
        wf_requirement(v),
{
    if 0 <= i <= s.len() {
        crate::text::lemma_skip_ws_bounds(s, i);
        let p = skip_ws_from(s, i);
        if p >= s.len() {
        } else if s[p] == ';' {
            lemma_finish_wf(s, nm, exs, None, p, v);
        } else if s[p] == '@' {
            crate::text::lemma_skip_ws_bounds(s, p + 1);
            let u0 = skip_ws_from(s, p + 1);
            crate::requirement::lemma_nonspace_end_bounds(s, u0);
            let ue = crate::requirement::nonspace_end(s, u0);
            if ue != u0 {
                crate::text::lemma_skip_ws_bounds(s, ue);
                let p2 = skip_ws_from(s, ue);
                if p2 < s.len() && s[p2] == ';' {
                    lemma_finish_wf(
                        s,
                        nm,
                        exs,
                        Some(
                            crate::requirement::VersionOrUrlView::Url(s.subrange(u0, ue)),
                        ),
                        p2,
                        v,
                    );
                }
            }
        } else {
            crate::marker::lemma_find_char_bounds(s, p, ';');
            let ve = crate::marker::find_char(s, p, ';');
            let sub = s.subrange(p, ve);
            match spec_parse_specifiers(sub) {
                None => {},
                Some(specs) => {
                    if skip_ws_from(sub, 0) != sub.len() {
                        lemma_parsed_specs_wf(sub, 0);
                    }
                    if ve < s.len() {
                        lemma_finish_wf(
                            s,
                            nm,
                            exs,
                            Some(
                                crate::requirement::VersionOrUrlView::VersionSpecifier(specs),
                            ),
                            ve,
                            v,
                        );
                    }
                },
            }
        }
    }
}

/// The marker a finished tail carries is well formed.
proof fn lemma_finish_wf(
    s: Seq<char>,
    nm: Seq<char>,
    exs: Seq<Seq<char>>,
    vu: Option<crate::requirement::VersionOrUrlView>,
    p: int,
    v: crate::requirement::RequirementView,
)
    requires
        crate::requirement::spec_finish_marker(s, nm, exs, vu, p) == Some(v),
    ensures
        match v.marker {
            None => true,
            Some(t) => wf_marker(t),
        },
{
    match crate::marker::spec_parse_marker(s.subrange(p + 1, s.len() as int)) {
        None => {},
        Some(t) => {
            lemma_parsed_marker_wf(s.subrange(p + 1, s.len() as int), t);
        },
    }
}

// ---------------------------------------------------------------------------
// The round trip itself.
// ---------------------------------------------------------------------------

/// The rendered marker part of a requirement.
pub open spec fn marker_part(v: crate::requirement::RequirementView) -> Seq<char> {
    match v.marker {
        None => Seq::empty(),
        Some(t) => " ; "@ + crate::display::render_marker(t),
    }
}

/// The rendered version-or-URL part of a requirement.
pub open spec fn vu_part(v: crate::requirement::RequirementView) -> Seq<char> {
    match v.version_or_url {
        None => Seq::<char>::empty(),
        Some(crate::requirement::VersionOrUrlView::VersionSpecifier(specs)) => render_specifiers(
            specs,
        ),
        Some(crate::requirement::VersionOrUrlView::Url(u)) => " @ "@ + u,
    }
}

/// Rendering a well-formed requirement and parsing it back recovers the
/// same structured fields: name, extras, source kind and marker.
pub proof fn lemma_render_parses(v: crate::requirement::RequirementView)
    requires
        wf_requirement(v),
    ensures
        crate::requirement::spec_parse_requirement(crate::display::render_requirement(v)) == Some(
            v,
        ),
{
    reveal_strlit(" ; ");
    let s = crate::display::render_requirement(v);
    let nlen = v.name.len() as int;
    let re = crate::display::render_extras(v.extras);
    let elen = re.len() as int;
    let vu = vu_part(v);
    let mp = marker_part(v);
    assert(s =~= v.name + re + vu + mp);
    assert(s.len() == nlen + elen + vu.len() + mp.len());
    assert(forall|k: int| 0 <= k < nlen ==> #[trigger] s[k] == v.name[k]);
    assert(forall|k: int| 0 <= k < elen ==> #[trigger] s[nlen + k] == re[k]);
    assert(forall|k: int| 0 <= k < vu.len() ==> #[trigger] s[nlen + elen + k] == vu[k]);
    let mstart = nlen + elen + vu.len() as int;
    assert(forall|k: int| 0 <= k < mp.len() ==> #[trigger] s[mstart + k] == mp[k]);
    if v.marker is Some {
        assert(mp.len() == 3 + crate::display::render_marker(v.marker->Some_0).len());
        assert(s[mstart + 0] == mp[0] && s[mstart + 1] == mp[1] && s[mstart + 2] == mp[2]);
        assert(mp[0] == ' ' && mp[1] == ';' && mp[2] == ' ');
    }
    // The name.
    assert forall|k: int| 0 <= k < nlen implies is_name_char(#[trigger] s[k]) && !is_space(s[k])
        && s[k] != '[' by {
        assert(s[k] == v.name[k]);
        lemma_normal_name_char(v.name, k);
    }
    assert(s[0] == v.name[0]);
    lemma_normal_name_char(v.name, 0);
    assert(is_name_alnum(s[0]));
    assert(skip_ws_from(s, 0) == 0);
    // The character right after the name, when there is one, ends the name
    // scan.
    if elen > 0 {
        reveal_strlit("[");
        assert(re[0] == '[');
        assert(s[nlen + 0] == re[0]);
        assert(!is_name_char(s[nlen]));
    } else {
        match v.version_or_url {
            Some(crate::requirement::VersionOrUrlView::VersionSpecifier(specs)) => {
                lemma_op_text_facts(specs[0].op);
                assert(vu[0] == op_text(specs[0].op)[0]) by {
                    assert(render_specifiers_from(specs, 0)[0] == render_specifier(specs[0])[0]);
                }
                assert(s[nlen + elen + 0] == vu[0]);
                assert(!is_name_char(s[nlen]));
            },
            Some(crate::requirement::VersionOrUrlView::Url(u)) => {
                reveal_strlit(" @ ");
                assert(s[nlen + elen + 0] == vu[0]);
                assert(vu[0] == ' ');
                assert(!is_name_char(s[nlen]));
            },
            None => {
                if v.marker is Some {
                    assert(s[nlen] == ' ');
                    assert(!is_name_char(s[nlen]));
                }
            },
        }
    }
    lemma_name_end_det(s, 0, nlen);
    assert(s.subrange(0, nlen) =~= v.name);
    lemma_normal_idempotent(v.name);
    // The extras, then the tail.
    let pos2 = nlen + elen;
    if v.extras.len() > 0 {
        assert(skip_ws_from(s, nlen) == nlen);
        lemma_extras_at(v.extras, s, nlen);
        lemma_render_tail(v, s, pos2);
        assert(crate::requirement::spec_parse_extras(s, nlen) == Some((v.extras, pos2)));
        assert(crate::requirement::spec_parse_requirement(s) == Some(v));
    } else {
        assert(elen == 0);
        assert(v.extras =~= Seq::<Seq<char>>::empty());
        lemma_render_tail(v, s, pos2);
        crate::text::lemma_skip_ws_bounds(s, nlen);
        let p1 = skip_ws_from(s, nlen);
        match v.version_or_url {
            Some(crate::requirement::VersionOrUrlView::VersionSpecifier(specs)) => {
                lemma_op_text_facts(specs[0].op);
                assert(s[nlen + 0] == vu[0]);
                assert(vu[0] == op_text(specs[0].op)[0]) by {
                    assert(render_specifiers_from(specs, 0)[0] == render_specifier(specs[0])[0]);
                }
                assert(s[nlen] != '[' && !is_space(s[nlen]));
                assert(p1 == nlen);
            },
            Some(crate::requirement::VersionOrUrlView::Url(u)) => {
                reveal_strlit(" @ ");
                assert(s[nlen + 0] == vu[0] && s[nlen + 1] == vu[1]);
                assert(vu[0] == ' ' && vu[1] == '@');
                lemma_skip_ws_det(s, nlen, nlen + 1);
                assert(p1 == nlen + 1);
                assert(s[p1] != '[');
                // The tail parse only looks from the first non-space on, so
                // starting it one space later changes nothing.
                assert(skip_ws_from(s, p1) == p1);
                assert(crate::requirement::spec_parse_tail(s, v.name, v.extras, p1)
                    == crate::requirement::spec_parse_tail(s, v.name, v.extras, pos2));
            },
            None => {
                if v.marker is None {
                    assert(nlen == s.len());
                    assert(p1 == nlen);
                } else {
                    assert(s[nlen] == ' ' && s[nlen + 1] == ';');
                    lemma_skip_ws_det(s, nlen, nlen + 1);
                    assert(p1 == nlen + 1);
                    assert(s[p1] != '[');
                    assert(skip_ws_from(s, p1) == p1);
                    assert(crate::requirement::spec_parse_tail(s, v.name, v.extras, p1)
                        == crate::requirement::spec_parse_tail(s, v.name, v.extras, pos2));
                }
            },
        }
        assert(crate::requirement::spec_parse_requirement(s) == Some(v));
    }
}

/// Where the rendered marker part stands: one space, the semicolon, one
/// space, then the marker text, to the end.
proof fn lemma_marker_region(v: crate::requirement::RequirementView, s: Seq<char>, pos2: int)
    requires
        s == crate::display::render_requirement(v),
        pos2 == v.name.len() + crate::display::render_extras(v.extras).len(),
        v.marker is Some,
    ensures
        ({
            let mstart = pos2 + vu_part(v).len();
            let rm = crate::display::render_marker(v.marker->Some_0);
            &&& s.len() == mstart + 3 + rm.len()
            &&& s[mstart] == ' ' && s[mstart + 1] == ';' && s[mstart + 2] == ' '
            &&& s.subrange(mstart + 2, s.len() as int) == " "@ + rm
        }),
{
    reveal_strlit(" ; ");
    reveal_strlit(" ");
    let vu = vu_part(v);
    let mp = marker_part(v);
    assert(s =~= v.name + crate::display::render_extras(v.extras) + vu + mp);
    assert(s.len() == pos2 + vu.len() + mp.len());
    let mstart = pos2 + vu.len() as int;
    assert(forall|k: int| 0 <= k < mp.len() ==> #[trigger] s[mstart + k] == mp[k]);
    let t = v.marker->Some_0;
    let rm = crate::display::render_marker(t);
    assert(mp.len() == 3 + rm.len());
    assert(s[mstart + 0] == mp[0] && s[mstart + 1] == mp[1] && s[mstart + 2] == mp[2]);
    assert(mp[0] == ' ' && mp[1] == ';' && mp[2] == ' ');
    assert forall|k: int| 0 <= k < rm.len() implies #[trigger] s[mstart + 3 + k] == rm[k] by {
        assert(s[mstart + (3 + k)] == mp[3 + k]);
        assert(mp[3 + k] == rm[k]);
    }
    assert forall|k: int| 0 <= k < 1 + rm.len() implies #[trigger] s.subrange(
        mstart + 2,
        s.len() as int,
    )[k] == (" "@ + rm)[k] by {
        assert(s.subrange(mstart + 2, s.len() as int)[k] == s[mstart + (2 + k)]);
        if k == 0 {
            assert(s[mstart + 2] == ' ');
        } else {
            assert(s[mstart + 3 + (k - 1)] == rm[k - 1]);
            assert((" "@ + rm)[k] == rm[k - 1]);
        }
    }
    assert(s.subrange(mstart + 2, s.len() as int) =~= " "@ + rm);
}

/// The version-or-URL and marker tail of a rendered requirement parses
/// back.
proof fn lemma_render_tail(v: crate::requirement::RequirementView, s: Seq<char>, pos2: int)
    requires
        wf_requirement(v),
        s == crate::display::render_requirement(v),
        pos2 == v.name.len() + crate::display::render_extras(v.extras).len(),
    ensures
        crate::requirement::spec_parse_tail(s, v.name, v.extras, pos2) == Some(v),
{
    match v.version_or_url {
        None => {
            lemma_render_tail_bare(v, s, pos2);
        },
        Some(crate::requirement::VersionOrUrlView::VersionSpecifier(_)) => {
            lemma_render_tail_specs(v, s, pos2);
        },
        Some(crate::requirement::VersionOrUrlView::Url(_)) => {
            lemma_render_tail_url(v, s, pos2);
        },
    }
}

/// The tail of a requirement with no constraint and no URL.
#[verifier::rlimit(60)]
proof fn lemma_render_tail_bare(v: crate::requirement::RequirementView, s: Seq<char>, pos2: int)
    requires
        wf_requirement(v),
        s == crate::display::render_requirement(v),
        pos2 == v.name.len() + crate::display::render_extras(v.extras).len(),
        v.version_or_url is None,
    ensures
        crate::requirement::spec_parse_tail(s, v.name, v.extras, pos2) == Some(v),
{
    reveal_strlit(" ; ");
    reveal_strlit(" ");
    let vu = vu_part(v);
    let mp = marker_part(v);
    assert(s =~= v.name + crate::display::render_extras(v.extras) + vu + mp);
    assert(s.len() == pos2 + vu.len() + mp.len());
    assert(forall|k: int| 0 <= k < vu.len() ==> #[trigger] s[pos2 + k] == vu[k]);
    let mstart = pos2 + vu.len() as int;
    assert(forall|k: int| 0 <= k < mp.len() ==> #[trigger] s[mstart + k] == mp[k]);
    if v.marker is Some {
        let t = v.marker->Some_0;
        let rm = crate::display::render_marker(t);
        assert(mp.len() == 3 + rm.len());
        assert(s[mstart + 0] == mp[0] && s[mstart + 1] == mp[1] && s[mstart + 2] == mp[2]);
        assert(mp[0] == ' ' && mp[1] == ';' && mp[2] == ' ');
        assert forall|k: int| 0 <= k < rm.len() implies #[trigger] s[mstart + 3 + k] == rm[k] by {
            assert(s[mstart + (3 + k)] == mp[3 + k]);
            assert(mp[3 + k] == rm[k]);
        }
        assert forall|k: int| 0 <= k < 1 + rm.len() implies #[trigger] s.subrange(
            mstart + 2,
            s.len() as int,
        )[k] == (" "@ + rm)[k] by {
            reveal_strlit(" ");
            assert(s.subrange(mstart + 2, s.len() as int)[k] == s[mstart + (2 + k)]);
            if k == 0 {
                assert(s[mstart + 2] == ' ');
            } else {
                assert(s[mstart + 3 + (k - 1)] == rm[k - 1]);
                assert((" "@ + rm)[k] == rm[k - 1]);
            }
        }
        assert(s.subrange(mstart + 2, s.len() as int) =~= " "@ + rm);
    }


            match v.marker {
                None => {
                    assert(pos2 == s.len());
                    assert(skip_ws_from(s, pos2) == pos2);
                },
                Some(t) => {
                    assert(s[pos2] == ' ' && s[pos2 + 1] == ';');
                    lemma_skip_ws_det(s, pos2, pos2 + 1);
                    let p = pos2 + 1;
                    lemma_marker_tail_parses(t, s, p);
                },
            }
        
}

/// The tail of a requirement with a version constraint.
#[verifier::rlimit(60)]
proof fn lemma_render_tail_specs(v: crate::requirement::RequirementView, s: Seq<char>, pos2: int)
    requires
        wf_requirement(v),
        s == crate::display::render_requirement(v),
        pos2 == v.name.len() + crate::display::render_extras(v.extras).len(),
        v.version_or_url matches Some(
            crate::requirement::VersionOrUrlView::VersionSpecifier(_),
        ),
    ensures
        crate::requirement::spec_parse_tail(s, v.name, v.extras, pos2) == Some(v),
{
    reveal_strlit(" ; ");
    reveal_strlit(" ");
    let vu = vu_part(v);
    let mp = marker_part(v);
    assert(s =~= v.name + crate::display::render_extras(v.extras) + vu + mp);
    assert(s.len() == pos2 + vu.len() + mp.len());
    assert(forall|k: int| 0 <= k < vu.len() ==> #[trigger] s[pos2 + k] == vu[k]);
    let mstart = pos2 + vu.len() as int;
    assert(forall|k: int| 0 <= k < mp.len() ==> #[trigger] s[mstart + k] == mp[k]);
    if v.marker is Some {
        let t = v.marker->Some_0;
        let rm = crate::display::render_marker(t);
        assert(mp.len() == 3 + rm.len());
        assert(s[mstart + 0] == mp[0] && s[mstart + 1] == mp[1] && s[mstart + 2] == mp[2]);
        assert(mp[0] == ' ' && mp[1] == ';' && mp[2] == ' ');
        assert forall|k: int| 0 <= k < rm.len() implies #[trigger] s[mstart + 3 + k] == rm[k] by {
            assert(s[mstart + (3 + k)] == mp[3 + k]);
            assert(mp[3 + k] == rm[k]);
        }
        assert forall|k: int| 0 <= k < 1 + rm.len() implies #[trigger] s.subrange(
            mstart + 2,
            s.len() as int,
        )[k] == (" "@ + rm)[k] by {
            reveal_strlit(" ");
            assert(s.subrange(mstart + 2, s.len() as int)[k] == s[mstart + (2 + k)]);
            if k == 0 {
                assert(s[mstart + 2] == ' ');
            } else {
                assert(s[mstart + 3 + (k - 1)] == rm[k - 1]);
                assert((" "@ + rm)[k] == rm[k - 1]);
            }
        }
        assert(s.subrange(mstart + 2, s.len() as int) =~= " "@ + rm);
    }
    match v.version_or_url {
        Some(crate::requirement::VersionOrUrlView::VersionSpecifier(specs)) => {

            lemma_op_text_facts(specs[0].op);
            assert(vu[0] == op_text(specs[0].op)[0]) by {
                assert(render_specifiers_from(specs, 0)[0] == render_specifier(specs[0])[0]);
            }
            assert(s[pos2 + 0] == vu[0]);
            assert(!is_space(s[pos2]) && s[pos2] != ';' && s[pos2] != '@');
            assert(skip_ws_from(s, pos2) == pos2);
            lemma_specs_no_semicolon(specs, 0);
            match v.marker {
                None => {
                    assert forall|k: int| pos2 <= k < s.len() implies #[trigger] s[k] != ';' by {
                        assert(s[pos2 + (k - pos2)] == vu[k - pos2]);
                    }
                    lemma_find_char_det(s, pos2, s.len() as int, ';');
                    assert(s.subrange(pos2, s.len() as int) =~= render_specifiers(specs));
                    lemma_specifiers_round_trip(specs);
                },
                Some(t) => {
                    lemma_render_tail_specs_marker(v, s, pos2);
                },
            }
        
        },
        _ => {},
    }
}

/// With a version constraint and a marker, the first semicolon stands
/// right after the constraint, and the constraint text before it parses
/// back, its one trailing space trimmed.
#[verifier::rlimit(80)]
proof fn lemma_specs_region_parses(
    v: crate::requirement::RequirementView,
    s: Seq<char>,
    pos2: int,
)
    requires
        wf_requirement(v),
        s == crate::display::render_requirement(v),
        pos2 == v.name.len() + crate::display::render_extras(v.extras).len(),
        v.version_or_url matches Some(
            crate::requirement::VersionOrUrlView::VersionSpecifier(_),
        ),
        v.marker is Some,
    ensures
        ({
            let vu = vu_part(v);
            let mstart = pos2 + vu.len();
            &&& crate::marker::find_char(s, pos2, ';') == mstart + 1
            &&& skip_ws_from(s, pos2) == pos2
            &&& s[pos2] != ';' && s[pos2] != '@'
            &&& spec_parse_specifiers(s.subrange(pos2, mstart + 1)) == Some(
                v.version_or_url->Some_0->VersionSpecifier_0,
            )
        }),
{
    reveal_strlit(" ; ");
    reveal_strlit(" ");
    let vu = vu_part(v);
    let mp = marker_part(v);
    assert(s =~= v.name + crate::display::render_extras(v.extras) + vu + mp);
    assert(s.len() == pos2 + vu.len() + mp.len());
    assert(forall|k: int| 0 <= k < vu.len() ==> #[trigger] s[pos2 + k] == vu[k]);
    let mstart = pos2 + vu.len() as int;
    lemma_marker_region(v, s, pos2);
    match v.version_or_url {
        Some(crate::requirement::VersionOrUrlView::VersionSpecifier(specs)) => {
            lemma_op_text_facts(specs[0].op);
            assert(vu[0] == op_text(specs[0].op)[0]) by {
                assert(render_specifiers_from(specs, 0)[0] == render_specifier(specs[0])[0]);
            }
            assert(s[pos2 + 0] == vu[0]);
            assert(!is_space(s[pos2]) && s[pos2] != ';' && s[pos2] != '@');
            assert(skip_ws_from(s, pos2) == pos2);
            lemma_specs_no_semicolon(specs, 0);
            // The first semicolon stands right after the specifiers and the
            // one space before it.
            assert forall|k: int| pos2 <= k < mstart + 1 implies #[trigger] s[k] != ';' by {
                if k < mstart {
                    assert(s[pos2 + (k - pos2)] == vu[k - pos2]);
                } else {
                    assert(s[k] == ' ');
                }
            }
            lemma_find_char_det(s, pos2, mstart + 1, ';');
            let ve = mstart + 1;
            let sub = s.subrange(pos2, ve);
            assert forall|k: int| 0 <= k < sub.len() implies #[trigger] sub[k] == (
            render_specifiers(specs) + spaces(1))[k] by {
                if k < vu.len() {
                    assert(sub[k] == s[pos2 + k]);
                } else {
                    assert(sub[k] == s[mstart + 0]);
                    assert(spaces(1)[0] == ' ');
                }
            }
            assert(sub =~= render_specifiers(specs) + spaces(1));
            assert(spaces(1).len() == 1);
            assert(sub.subrange(0, sub.len() as int) =~= render_specifiers(specs) + spaces(1));
            lemma_specs_parse_at(specs, 0, sub, 0, 1);
            assert(sub[0] == vu[0]);
            assert(skip_ws_from(sub, 0) == 0);
            assert(spec_parse_specifiers(sub) == Some(specs)) by {
                assert(specs.subrange(0, specs.len() as int) =~= specs);
            }
        },
        _ => {},
    }
}

/// The tail of a requirement with a version constraint and a marker.
#[verifier::rlimit(80)]
proof fn lemma_render_tail_specs_marker(
    v: crate::requirement::RequirementView,
    s: Seq<char>,
    pos2: int,
)
    requires
        wf_requirement(v),
        s == crate::display::render_requirement(v),
        pos2 == v.name.len() + crate::display::render_extras(v.extras).len(),
        v.version_or_url matches Some(
            crate::requirement::VersionOrUrlView::VersionSpecifier(_),
        ),
        v.marker is Some,
    ensures
        crate::requirement::spec_parse_tail(s, v.name, v.extras, pos2) == Some(v),
{
    let vu = vu_part(v);
    let mstart = pos2 + vu.len() as int;
    lemma_marker_region(v, s, pos2);
    lemma_specs_region_parses(v, s, pos2);
    let t = v.marker->Some_0;
    let ve = mstart + 1;
    assert(s[ve] == ';');
    lemma_marker_tail_parses(t, s, ve);
    match v.version_or_url {
        Some(crate::requirement::VersionOrUrlView::VersionSpecifier(specs)) => {
            assert(spec_parse_specifiers(s.subrange(pos2, ve)) == Some(specs));
        },
        _ => {},
    }
}

/// The tail of a requirement with a URL.
#[verifier::rlimit(60)]
proof fn lemma_render_tail_url(v: crate::requirement::RequirementView, s: Seq<char>, pos2: int)
    requires
        wf_requirement(v),
        s == crate::display::render_requirement(v),
        pos2 == v.name.len() + crate::display::render_extras(v.extras).len(),
        v.version_or_url matches Some(crate::requirement::VersionOrUrlView::Url(_)),
    ensures
        crate::requirement::spec_parse_tail(s, v.name, v.extras, pos2) == Some(v),
{
    reveal_strlit(" ; ");
    reveal_strlit(" ");
    let vu = vu_part(v);
    let mp = marker_part(v);
    assert(s =~= v.name + crate::display::render_extras(v.extras) + vu + mp);
    assert(s.len() == pos2 + vu.len() + mp.len());
    assert(forall|k: int| 0 <= k < vu.len() ==> #[trigger] s[pos2 + k] == vu[k]);
    let mstart = pos2 + vu.len() as int;
    assert(forall|k: int| 0 <= k < mp.len() ==> #[trigger] s[mstart + k] == mp[k]);
    if v.marker is Some {
        let t = v.marker->Some_0;
        let rm = crate::display::render_marker(t);
        assert(mp.len() == 3 + rm.len());
        assert(s[mstart + 0] == mp[0] && s[mstart + 1] == mp[1] && s[mstart + 2] == mp[2]);
        assert(mp[0] == ' ' && mp[1] == ';' && mp[2] == ' ');
        assert forall|k: int| 0 <= k < rm.len() implies #[trigger] s[mstart + 3 + k] == rm[k] by {
            assert(s[mstart + (3 + k)] == mp[3 + k]);
            assert(mp[3 + k] == rm[k]);
        }
        assert forall|k: int| 0 <= k < 1 + rm.len() implies #[trigger] s.subrange(
            mstart + 2,
            s.len() as int,
        )[k] == (" "@ + rm)[k] by {
            reveal_strlit(" ");
            assert(s.subrange(mstart + 2, s.len() as int)[k] == s[mstart + (2 + k)]);
            if k == 0 {
                assert(s[mstart + 2] == ' ');
            } else {
                assert(s[mstart + 3 + (k - 1)] == rm[k - 1]);
                assert((" "@ + rm)[k] == rm[k - 1]);
            }
        }
        assert(s.subrange(mstart + 2, s.len() as int) =~= " "@ + rm);
    }
    match v.version_or_url {
        Some(crate::requirement::VersionOrUrlView::Url(u)) => {

            reveal_strlit(" @ ");
            assert(vu.len() == 3 + u.len());
            assert(s[pos2 + 0] == vu[0] && s[pos2 + 1] == vu[1] && s[pos2 + 2] == vu[2]);
            assert(vu[0] == ' ' && vu[1] == '@' && vu[2] == ' ');
            lemma_skip_ws_det(s, pos2, pos2 + 1);
            assert(s[pos2 + 1] == '@' && s[pos2 + 1] != ';');
            assert forall|k: int| 0 <= k < u.len() implies #[trigger] s[pos2 + 3 + k] == u[k] by {
                assert(s[pos2 + (3 + k)] == vu[3 + k]);
                assert(vu[3 + k] == u[k]);
            }
            assert(s[pos2 + 3 + 0] == u[0]);
            assert(!is_space(u[0]));
            lemma_skip_ws_det(s, pos2 + 2, pos2 + 3);
            assert forall|k: int| pos2 + 3 <= k < mstart implies !is_space(#[trigger] s[k]) by {
                assert(s[pos2 + 3 + (k - pos2 - 3)] == u[k - pos2 - 3]);
            }
            match v.marker {
                None => {
                    assert(mstart == s.len());
                    lemma_nonspace_end_det(s, pos2 + 3, s.len() as int);
                    assert(s.subrange(pos2 + 3, s.len() as int) =~= u);
                    assert(skip_ws_from(s, s.len() as int) == s.len());
                },
                Some(t) => {
                    assert(s[mstart] == ' ');
                    lemma_nonspace_end_det(s, pos2 + 3, mstart);
                    assert(s.subrange(pos2 + 3, mstart) =~= u);
                    assert(s[mstart + 1] == ';');
                    lemma_skip_ws_det(s, mstart, mstart + 1);
                    lemma_marker_tail_parses(t, s, mstart + 1);
                },
            }
        
        },
        _ => {},
    }
}

/// Rendered specifiers never hold a semicolon.
proof fn lemma_specs_no_semicolon(specs: Seq<SpecifierView>, i: int)
    requires
        forall|k: int| 0 <= k < specs.len() ==> wf_specifier(#[trigger] specs[k]),
    ensures
        forall|k: int| 0 <= k < render_specifiers_from(specs, i).len()
            ==> #[trigger] render_specifiers_from(specs, i)[k] != ';',
    decreases specs.len() - i,
{
    reveal_strlit(",");
    if 0 <= i < specs.len() {
        lemma_specs_no_semicolon(specs, i + 1);
        lemma_op_text_facts(specs[i].op);
        let sp = specs[i];
        let seg = render_specifier(sp);
        let olen = op_text(sp.op).len() as int;
        assert forall|k: int| 0 <= k < seg.len() implies #[trigger] seg[k] != ';' by {
            if k < olen {
                assert(seg[k] == op_text(sp.op)[k]);
            } else {
                assert(seg[k] == sp.version[k - olen]);
                lemma_version_char_facts(sp.version[k - olen]);
            }
        }
        let rn = render_specifiers_from(specs, i);
        if i == specs.len() - 1 {
            assert(rn == seg);
        } else {
            let rest = render_specifiers_from(specs, i + 1);
            assert(rn == seg + ","@ + rest);
            assert forall|k: int| 0 <= k < rn.len() implies #[trigger] rn[k] != ';' by {
                if k < seg.len() {
                    assert(rn[k] == seg[k]);
                } else if k == seg.len() {
                    assert(rn[k] == ',');
                } else {
                    assert(rn[k] == rest[k - seg.len() - 1]);
                }
            }
        }
    }
}

/// Parsing any requirement text and rendering the result parses back to
/// the same structured fields: the round trip is stable, even where the
/// rendered text differs from the input.
pub proof fn lemma_parse_round_trip(s: Seq<char>, v: crate::requirement::RequirementView)
    requires
        crate::requirement::spec_parse_requirement(s) == Some(v),
    ensures
        crate::requirement::spec_parse_requirement(crate::display::render_requirement(v)) == Some(
            v,
        ),
{
    lemma_parse_wf(s, v);
    lemma_render_parses(v);
}

// ---------------------------------------------------------------------------
// A rendered marker's token stream parses back to the same tree.
// ---------------------------------------------------------------------------

/// A rendered marker, embedded in a token stream, parses back as one atom
/// ending right after it.
proof fn lemma_marker_atom_inv(
    t: crate::marker::MarkerTreeView,
    toks: Seq<crate::marker::TokenView>,
    k: int,
)
    requires
        0 <= k,
        k + crate::display::marker_tokens(t).len() <= toks.len(),
        forall|j: int| 0 <= j < crate::display::marker_tokens(t).len() ==> #[trigger] toks[k + j]
            == crate::display::marker_tokens(t)[j],
    ensures
        crate::marker::sp_atom(toks, k) == Some((t, k + crate::display::marker_tokens(t).len())),
        crate::display::marker_tokens(t).len() > 0,
    decreases t,
{
    let mt = crate::display::marker_tokens(t);
    match t {
        crate::marker::MarkerTreeView::Expression(e) => {
            let lv = crate::display::value_token(e.left);
            let ov = crate::display::op_tokens(e.op);
            let rv = crate::display::value_token(e.right);
            assert(mt == lv + ov + rv);
            assert(lv.len() == 1 && rv.len() == 1 && 1 <= ov.len() <= 2);
            assert(toks[k + 0] == mt[0] && mt[0] == lv[0]);
            assert forall|j: int| 0 <= j < ov.len() implies #[trigger] toks[k + 1 + j]
                == ov[j] by {
                assert(toks[k + (1 + j)] == mt[1 + j]);
                assert(mt[1 + j] == ov[j]);
            }
            assert(toks[k + (1 + ov.len() as int)] == mt[1 + ov.len() as int]);
            assert(mt[1 + ov.len() as int] == rv[0]);
            assert(crate::marker::sp_value(toks, k) == Some((e.left, k + 1)));
            assert(crate::marker::sp_op(toks, k + 1) == Some((e.op, k + 1 + ov.len()))) by {
                assert(toks[k + 1 + 0] == ov[0]);
                if ov.len() == 2 {
                    assert(toks[k + 1 + 1] == ov[1]);
                }
            }
            assert(crate::marker::sp_value(toks, k + 1 + ov.len()) == Some(
                (e.right, k + 2 + ov.len()),
            ));
            assert(crate::marker::sp_expr(toks, k) == Some((t, k + mt.len())));
            assert(toks[k] != crate::marker::TokenView::LParen);
        },
        crate::marker::MarkerTreeView::And(a, b) => {
            let mta = crate::display::marker_tokens(*a);
            let mtb = crate::display::marker_tokens(*b);
            assert(mt == seq![crate::marker::TokenView::LParen] + mta + seq![
                crate::marker::TokenView::KwAnd,
            ] + mtb + seq![crate::marker::TokenView::RParen]);
            assert(mt.len() == 3 + mta.len() + mtb.len());
            assert(toks[k + 0] == mt[0] && mt[0] == crate::marker::TokenView::LParen);
            assert forall|j: int| 0 <= j < mta.len() implies #[trigger] toks[k + 1 + j]
                == mta[j] by {
                assert(toks[k + (1 + j)] == mt[1 + j]);
                assert(mt[1 + j] == mta[j]);
            }
            let ka = k + 1 + mta.len() as int;
            assert(toks[k + (1 + mta.len() as int)] == mt[1 + mta.len() as int]);
            assert(toks[ka] == crate::marker::TokenView::KwAnd);
            assert forall|j: int| 0 <= j < mtb.len() implies #[trigger] toks[ka + 1 + j]
                == mtb[j] by {
                assert(toks[k + (2 + mta.len() as int + j)] == mt[2 + mta.len() as int + j]);
                assert(mt[2 + mta.len() as int + j] == mtb[j]);
            }
            let kb = ka + 1 + mtb.len() as int;
            assert(toks[k + (2 + mta.len() as int + mtb.len() as int)] == mt[2 + mta.len() as int
                + mtb.len() as int]);
            assert(toks[kb] == crate::marker::TokenView::RParen);
            lemma_marker_atom_inv(*a, toks, k + 1);
            lemma_marker_atom_inv(*b, toks, ka + 1);
            assert(crate::marker::sp_and(toks, ka + 1) == Some((*b, kb)));
            assert(crate::marker::sp_and(toks, k + 1) == Some((t, kb)));
            assert(crate::marker::sp_or(toks, k + 1) == Some((t, kb)));
            assert(crate::marker::sp_atom(toks, k) == Some((t, kb + 1)));
        },
        crate::marker::MarkerTreeView::Or(a, b) => {
            let mta = crate::display::marker_tokens(*a);
            let mtb = crate::display::marker_tokens(*b);
            assert(mt == seq![crate::marker::TokenView::LParen] + mta + seq![
                crate::marker::TokenView::KwOr,
            ] + mtb + seq![crate::marker::TokenView::RParen]);
            assert(mt.len() == 3 + mta.len() + mtb.len());
            assert(toks[k + 0] == mt[0] && mt[0] == crate::marker::TokenView::LParen);
            assert forall|j: int| 0 <= j < mta.len() implies #[trigger] toks[k + 1 + j]
                == mta[j] by {
                assert(toks[k + (1 + j)] == mt[1 + j]);
                assert(mt[1 + j] == mta[j]);
            }
            let ka = k + 1 + mta.len() as int;
            assert(toks[k + (1 + mta.len() as int)] == mt[1 + mta.len() as int]);
            assert(toks[ka] == crate::marker::TokenView::KwOr);
            assert forall|j: int| 0 <= j < mtb.len() implies #[trigger] toks[ka + 1 + j]
                == mtb[j] by {
                assert(toks[k + (2 + mta.len() as int + j)] == mt[2 + mta.len() as int + j]);
                assert(mt[2 + mta.len() as int + j] == mtb[j]);
            }
            let kb = ka + 1 + mtb.len() as int;
            assert(toks[k + (2 + mta.len() as int + mtb.len() as int)] == mt[2 + mta.len() as int
                + mtb.len() as int]);
            assert(toks[kb] == crate::marker::TokenView::RParen);
            lemma_marker_atom_inv(*a, toks, k + 1);
            lemma_marker_atom_inv(*b, toks, ka + 1);
            assert(crate::marker::sp_and(toks, ka + 1) == Some((*b, kb)));
            assert(crate::marker::sp_or(toks, ka + 1) == Some((*b, kb)));
            assert(crate::marker::sp_and(toks, k + 1) == Some((*a, ka)));
            assert(crate::marker::sp_or(toks, k + 1) == Some((t, kb)));
            assert(crate::marker::sp_atom(toks, k) == Some((t, kb + 1)));
        },
    }
}

/// Reparsing the token stream a marker renders to recovers the same tree:
/// the marker field of a requirement is stable under rendering.
pub proof fn lemma_marker_token_round_trip(t: crate::marker::MarkerTreeView)
    ensures
        crate::marker::sp_marker(crate::display::marker_tokens(t)) == Some(t),
{
    let toks = crate::display::marker_tokens(t);
    assert(forall|j: int| 0 <= j < toks.len() ==> #[trigger] toks[0 + j] == toks[j]);
    lemma_marker_atom_inv(t, toks, 0);
    assert(crate::marker::sp_and(toks, 0) == Some((t, toks.len() as int)));
    assert(crate::marker::sp_or(toks, 0) == Some((t, toks.len() as int)));
}

// ---------------------------------------------------------------------------
// A rendered marker's text tokenizes back to exactly its tokens.
// ---------------------------------------------------------------------------

/// A marker whose literals can be quoted unambiguously: none holds both
/// kinds of quote. Every parsed marker has this shape, since a parsed
/// literal never holds the quote that delimited it.
pub open spec fn wf_marker_value(v: crate::marker::MarkerValueView) -> bool {
    match v {
        crate::marker::MarkerValueView::Variable(_) => true,
        crate::marker::MarkerValueView::Literal(t) => !crate::marker::seq_has(t, "'"@)
            || !crate::marker::seq_has(t, "\""@),
    }
}

/// Whether every literal of the marker can be quoted unambiguously.
pub open spec fn wf_marker(t: crate::marker::MarkerTreeView) -> bool
    decreases t,
{
    match t {
        crate::marker::MarkerTreeView::Expression(e) => wf_marker_value(e.left) && wf_marker_value(
            e.right,
        ),
        crate::marker::MarkerTreeView::And(a, b) => wf_marker(*a) && wf_marker(*b),
        crate::marker::MarkerTreeView::Or(a, b) => wf_marker(*a) && wf_marker(*b),
    }
}

/// Prepending a known token list to whatever rest tokenizes to.
pub open spec fn tokens_then(
    ts: Seq<crate::marker::TokenView>,
    rest: Option<Seq<crate::marker::TokenView>>,
) -> Option<Seq<crate::marker::TokenView>> {
    match rest {
        None => None,
        Some(r) => Some(ts + r),
    }
}

/// A boundary character after a rendered fragment: one that can extend no
/// word, operator or literal.
pub open spec fn marker_boundary(s: Seq<char>, e: int) -> bool {
    e == s.len() || s[e] == ' ' || s[e] == ')'
}

/// A word scan runs to the first non-word character.
proof fn lemma_word_end_det(s: Seq<char>, i: int, j: int)
    requires
        0 <= i <= j <= s.len(),
        forall|k: int| i <= k < j ==> crate::marker::is_word_char(#[trigger] s[k]),
        j < s.len() ==> !crate::marker::is_word_char(s[j]),
    ensures
        crate::marker::word_end(s, i) == j,
    decreases j - i,
{
    if i < j {
        lemma_word_end_det(s, i + 1, j);
    }
}

/// The names of the marker variables, as words the tokenizer recognizes.
proof fn lemma_var_text_facts(x: crate::marker::MarkerVariable)
    ensures
        crate::display::var_text(x).len() > 0,
        forall|k: int| 0 <= k < crate::display::var_text(x).len() ==> crate::marker::is_word_char(
            #[trigger] crate::display::var_text(x)[k],
        ),
        crate::marker::word_token(crate::display::var_text(x)) == Some(
            crate::marker::TokenView::Var(x),
        ),
{
    reveal_strlit("and");
    reveal_strlit("or");
    reveal_strlit("in");
    reveal_strlit("not");
    reveal_strlit("implementation_name");
    reveal_strlit("implementation_version");
    reveal_strlit("os_name");
    reveal_strlit("platform_machine");
    reveal_strlit("platform_python_implementation");
    reveal_strlit("platform_release");
    reveal_strlit("platform_system");
    reveal_strlit("platform_version");
    reveal_strlit("python_full_version");
    reveal_strlit("python_version");
    reveal_strlit("sys_platform");
    reveal_strlit("extra");
    match x {
        crate::marker::MarkerVariable::ImplementationName => {
            assert("implementation_name"@ != "and"@) by {
                assert("implementation_name"@.len() == 19 && "and"@.len() == 3);
            }
            assert("implementation_name"@ != "or"@) by {
                assert("implementation_name"@.len() == 19 && "or"@.len() == 2);
            }
            assert("implementation_name"@ != "in"@) by {
                assert("implementation_name"@.len() == 19 && "in"@.len() == 2);
            }
            assert("implementation_name"@ != "not"@) by {
                assert("implementation_name"@.len() == 19 && "not"@.len() == 3);
            }
            assert(crate::marker::word_token(crate::display::var_text(x)) == Some(
                crate::marker::TokenView::Var(x),
            ));
        },
        crate::marker::MarkerVariable::ImplementationVersion => {
            assert("implementation_version"@ != "and"@) by {
                assert("implementation_version"@.len() == 22 && "and"@.len() == 3);
            }
            assert("implementation_version"@ != "or"@) by {
                assert("implementation_version"@.len() == 22 && "or"@.len() == 2);
            }
            assert("implementation_version"@ != "in"@) by {
                assert("implementation_version"@.len() == 22 && "in"@.len() == 2);
            }
            assert("implementation_version"@ != "not"@) by {
                assert("implementation_version"@.len() == 22 && "not"@.len() == 3);
            }
            assert("implementation_version"@ != "implementation_name"@) by {
                assert("implementation_version"@.len() == 22 && "implementation_name"@.len() == 19);
            }
            assert(crate::marker::word_token(crate::display::var_text(x)) == Some(
                crate::marker::TokenView::Var(x),
            ));
        },
        crate::marker::MarkerVariable::OsName => {
            assert("os_name"@ != "and"@) by {
                assert("os_name"@.len() == 7 && "and"@.len() == 3);
            }
            assert("os_name"@ != "or"@) by {
                assert("os_name"@.len() == 7 && "or"@.len() == 2);
            }
            assert("os_name"@ != "in"@) by {
                assert("os_name"@.len() == 7 && "in"@.len() == 2);
            }
            assert("os_name"@ != "not"@) by {
                assert("os_name"@.len() == 7 && "not"@.len() == 3);
            }
            assert("os_name"@ != "implementation_name"@) by {
                assert("os_name"@.len() == 7 && "implementation_name"@.len() == 19);
            }
            assert("os_name"@ != "implementation_version"@) by {
                assert("os_name"@.len() == 7 && "implementation_version"@.len() == 22);
            }
            assert(crate::marker::word_token(crate::display::var_text(x)) == Some(
                crate::marker::TokenView::Var(x),
            ));
        },
        crate::marker::MarkerVariable::PlatformMachine => {
            assert("platform_machine"@ != "and"@) by {
                assert("platform_machine"@.len() == 16 && "and"@.len() == 3);
            }
            assert("platform_machine"@ != "or"@) by {
                assert("platform_machine"@.len() == 16 && "or"@.len() == 2);
            }
            assert("platform_machine"@ != "in"@) by {
                assert("platform_machine"@.len() == 16 && "in"@.len() == 2);
            }
            assert("platform_machine"@ != "not"@) by {
                assert("platform_machine"@.len() == 16 && "not"@.len() == 3);
            }
            assert("platform_machine"@ != "implementation_name"@) by {
                assert("platform_machine"@.len() == 16 && "implementation_name"@.len() == 19);
            }
            assert("platform_machine"@ != "implementation_version"@) by {
                assert("platform_machine"@.len() == 16 && "implementation_version"@.len() == 22);
            }
            assert("platform_machine"@ != "os_name"@) by {
                assert("platform_machine"@.len() == 16 && "os_name"@.len() == 7);
            }
            assert(crate::marker::word_token(crate::display::var_text(x)) == Some(
                crate::marker::TokenView::Var(x),
            ));
        },
        crate::marker::MarkerVariable::PlatformPythonImplementation => {
            assert("platform_python_implementation"@ != "and"@) by {
                assert("platform_python_implementation"@.len() == 30 && "and"@.len() == 3);
            }
            assert("platform_python_implementation"@ != "or"@) by {
                assert("platform_python_implementation"@.len() == 30 && "or"@.len() == 2);
            }
            assert("platform_python_implementation"@ != "in"@) by {
                assert("platform_python_implementation"@.len() == 30 && "in"@.len() == 2);
            }
            assert("platform_python_implementation"@ != "not"@) by {
                assert("platform_python_implementation"@.len() == 30 && "not"@.len() == 3);
            }
            assert("platform_python_implementation"@ != "implementation_name"@) by {
                assert("platform_python_implementation"@.len() == 30 && "implementation_name"@.len() == 19);
            }
            assert("platform_python_implementation"@ != "implementation_version"@) by {
                assert("platform_python_implementation"@.len() == 30 && "implementation_version"@.len() == 22);
            }
            assert("platform_python_implementation"@ != "os_name"@) by {
                assert("platform_python_implementation"@.len() == 30 && "os_name"@.len() == 7);
            }
            assert("platform_python_implementation"@ != "platform_machine"@) by {
                assert("platform_python_implementation"@.len() == 30 && "platform_machine"@.len() == 16);
            }
            assert(crate::marker::word_token(crate::display::var_text(x)) == Some(
                crate::marker::TokenView::Var(x),
            ));
        },
        crate::marker::MarkerVariable::PlatformRelease => {
            assert("platform_release"@ != "and"@) by {
                assert("platform_release"@.len() == 16 && "and"@.len() == 3);
            }
            assert("platform_release"@ != "or"@) by {
                assert("platform_release"@.len() == 16 && "or"@.len() == 2);
            }
            assert("platform_release"@ != "in"@) by {
                assert("platform_release"@.len() == 16 && "in"@.len() == 2);
            }
            assert("platform_release"@ != "not"@) by {
                assert("platform_release"@.len() == 16 && "not"@.len() == 3);
            }
            assert("platform_release"@ != "implementation_name"@) by {
                assert("platform_release"@.len() == 16 && "implementation_name"@.len() == 19);
            }
            assert("platform_release"@ != "implementation_version"@) by {
                assert("platform_release"@.len() == 16 && "implementation_version"@.len() == 22);
            }
            assert("platform_release"@ != "os_name"@) by {
                assert("platform_release"@.len() == 16 && "os_name"@.len() == 7);
            }
            assert("platform_release"@ != "platform_machine"@) by {
                assert("platform_release"@[9] == 'r' && "platform_machine"@[9] == 'm');
            }
            assert("platform_release"@ != "platform_python_implementation"@) by {
                assert("platform_release"@.len() == 16 && "platform_python_implementation"@.len() == 30);
            }
            assert(crate::marker::word_token(crate::display::var_text(x)) == Some(
                crate::marker::TokenView::Var(x),
            ));
        },
        crate::marker::MarkerVariable::PlatformSystem => {
            assert("platform_system"@ != "and"@) by {
                assert("platform_system"@.len() == 15 && "and"@.len() == 3);
            }
            assert("platform_system"@ != "or"@) by {
                assert("platform_system"@.len() == 15 && "or"@.len() == 2);
            }
            assert("platform_system"@ != "in"@) by {
                assert("platform_system"@.len() == 15 && "in"@.len() == 2);
            }
            assert("platform_system"@ != "not"@) by {
                assert("platform_system"@.len() == 15 && "not"@.len() == 3);
            }
            assert("platform_system"@ != "implementation_name"@) by {
                assert("platform_system"@.len() == 15 && "implementation_name"@.len() == 19);
            }
            assert("platform_system"@ != "implementation_version"@) by {
                assert("platform_system"@.len() == 15 && "implementation_version"@.len() == 22);
            }
            assert("platform_system"@ != "os_name"@) by {
                assert("platform_system"@.len() == 15 && "os_name"@.len() == 7);
            }
            assert("platform_system"@ != "platform_machine"@) by {
                assert("platform_system"@.len() == 15 && "platform_machine"@.len() == 16);
            }
            assert("platform_system"@ != "platform_python_implementation"@) by {
                assert("platform_system"@.len() == 15 && "platform_python_implementation"@.len() == 30);
            }
            assert("platform_system"@ != "platform_release"@) by {
                assert("platform_system"@.len() == 15 && "platform_release"@.len() == 16);
            }
            assert(crate::marker::word_token(crate::display::var_text(x)) == Some(
                crate::marker::TokenView::Var(x),
            ));
        },
        crate::marker::MarkerVariable::PlatformVersion => {
            assert("platform_version"@ != "and"@) by {
                assert("platform_version"@.len() == 16 && "and"@.len() == 3);
            }
            assert("platform_version"@ != "or"@) by {
                assert("platform_version"@.len() == 16 && "or"@.len() == 2);
            }
            assert("platform_version"@ != "in"@) by {
                assert("platform_version"@.len() == 16 && "in"@.len() == 2);
            }
            assert("platform_version"@ != "not"@) by {
                assert("platform_version"@.len() == 16 && "not"@.len() == 3);
            }
            assert("platform_version"@ != "implementation_name"@) by {
                assert("platform_version"@.len() == 16 && "implementation_name"@.len() == 19);
            }
            assert("platform_version"@ != "implementation_version"@) by {
                assert("platform_version"@.len() == 16 && "implementation_version"@.len() == 22);
            }
            assert("platform_version"@ != "os_name"@) by {
                assert("platform_version"@.len() == 16 && "os_name"@.len() == 7);
            }
            assert("platform_version"@ != "platform_machine"@) by {
                assert("platform_version"@[9] == 'v' && "platform_machine"@[9] == 'm');
            }
            assert("platform_version"@ != "platform_python_implementation"@) by {
                assert("platform_version"@.len() == 16 && "platform_python_implementation"@.len() == 30);
            }
            assert("platform_version"@ != "platform_release"@) by {
                assert("platform_version"@[9] == 'v' && "platform_release"@[9] == 'r');
            }
            assert("platform_version"@ != "platform_system"@) by {
                assert("platform_version"@.len() == 16 && "platform_system"@.len() == 15);
            }
            assert(crate::marker::word_token(crate::display::var_text(x)) == Some(
                crate::marker::TokenView::Var(x),
            ));
        },
        crate::marker::MarkerVariable::PythonFullVersion => {
            assert("python_full_version"@ != "and"@) by {
                assert("python_full_version"@.len() == 19 && "and"@.len() == 3);
            }
            assert("python_full_version"@ != "or"@) by {
                assert("python_full_version"@.len() == 19 && "or"@.len() == 2);
            }
            assert("python_full_version"@ != "in"@) by {
                assert("python_full_version"@.len() == 19 && "in"@.len() == 2);
            }
            assert("python_full_version"@ != "not"@) by {
                assert("python_full_version"@.len() == 19 && "not"@.len() == 3);
            }
            assert("python_full_version"@ != "implementation_name"@) by {
                assert("python_full_version"@[0] == 'p' && "implementation_name"@[0] == 'i');
            }
            assert("python_full_version"@ != "implementation_version"@) by {
                assert("python_full_version"@.len() == 19 && "implementation_version"@.len() == 22);
            }
            assert("python_full_version"@ != "os_name"@) by {
                assert("python_full_version"@.len() == 19 && "os_name"@.len() == 7);
            }
            assert("python_full_version"@ != "platform_machine"@) by {
                assert("python_full_version"@.len() == 19 && "platform_machine"@.len() == 16);
            }
            assert("python_full_version"@ != "platform_python_implementation"@) by {
                assert("python_full_version"@.len() == 19 && "platform_python_implementation"@.len() == 30);
            }
            assert("python_full_version"@ != "platform_release"@) by {
                assert("python_full_version"@.len() == 19 && "platform_release"@.len() == 16);
            }
            assert("python_full_version"@ != "platform_system"@) by {
                assert("python_full_version"@.len() == 19 && "platform_system"@.len() == 15);
            }
            assert("python_full_version"@ != "platform_version"@) by {
                assert("python_full_version"@.len() == 19 && "platform_version"@.len() == 16);
            }
            assert(crate::marker::word_token(crate::display::var_text(x)) == Some(
                crate::marker::TokenView::Var(x),
            ));
        },
        crate::marker::MarkerVariable::PythonVersion => {
            assert("python_version"@ != "and"@) by {
                assert("python_version"@.len() == 14 && "and"@.len() == 3);
            }
            assert("python_version"@ != "or"@) by {
                assert("python_version"@.len() == 14 && "or"@.len() == 2);
            }
            assert("python_version"@ != "in"@) by {
                assert("python_version"@.len() == 14 && "in"@.len() == 2);
            }
            assert("python_version"@ != "not"@) by {
                assert("python_version"@.len() == 14 && "not"@.len() == 3);
            }
            assert("python_version"@ != "implementation_name"@) by {
                assert("python_version"@.len() == 14 && "implementation_name"@.len() == 19);
            }
            assert("python_version"@ != "implementation_version"@) by {
                assert("python_version"@.len() == 14 && "implementation_version"@.len() == 22);
            }
            assert("python_version"@ != "os_name"@) by {
                assert("python_version"@.len() == 14 && "os_name"@.len() == 7);
            }
            assert("python_version"@ != "platform_machine"@) by {
                assert("python_version"@.len() == 14 && "platform_machine"@.len() == 16);
            }
            assert("python_version"@ != "platform_python_implementation"@) by {
                assert("python_version"@.len() == 14 && "platform_python_implementation"@.len() == 30);
            }
            assert("python_version"@ != "platform_release"@) by {
                assert("python_version"@.len() == 14 && "platform_release"@.len() == 16);
            }
            assert("python_version"@ != "platform_system"@) by {
                assert("python_version"@.len() == 14 && "platform_system"@.len() == 15);
            }
            assert("python_version"@ != "platform_version"@) by {
                assert("python_version"@.len() == 14 && "platform_version"@.len() == 16);
            }
            assert("python_version"@ != "python_full_version"@) by {
                assert("python_version"@.len() == 14 && "python_full_version"@.len() == 19);
            }
            assert(crate::marker::word_token(crate::display::var_text(x)) == Some(
                crate::marker::TokenView::Var(x),
            ));
        },
        crate::marker::MarkerVariable::SysPlatform => {
            assert("sys_platform"@ != "and"@) by {
                assert("sys_platform"@.len() == 12 && "and"@.len() == 3);
            }
            assert("sys_platform"@ != "or"@) by {
                assert("sys_platform"@.len() == 12 && "or"@.len() == 2);
            }
            assert("sys_platform"@ != "in"@) by {
                assert("sys_platform"@.len() == 12 && "in"@.len() == 2);
            }
            assert("sys_platform"@ != "not"@) by {
                assert("sys_platform"@.len() == 12 && "not"@.len() == 3);
            }
            assert("sys_platform"@ != "implementation_name"@) by {
                assert("sys_platform"@.len() == 12 && "implementation_name"@.len() == 19);
            }
            assert("sys_platform"@ != "implementation_version"@) by {
                assert("sys_platform"@.len() == 12 && "implementation_version"@.len() == 22);
            }
            assert("sys_platform"@ != "os_name"@) by {
                assert("sys_platform"@.len() == 12 && "os_name"@.len() == 7);
            }
            assert("sys_platform"@ != "platform_machine"@) by {
                assert("sys_platform"@.len() == 12 && "platform_machine"@.len() == 16);
            }
            assert("sys_platform"@ != "platform_python_implementation"@) by {
                assert("sys_platform"@.len() == 12 && "platform_python_implementation"@.len() == 30);
            }
            assert("sys_platform"@ != "platform_release"@) by {
                assert("sys_platform"@.len() == 12 && "platform_release"@.len() == 16);
            }
            assert("sys_platform"@ != "platform_system"@) by {
                assert("sys_platform"@.len() == 12 && "platform_system"@.len() == 15);
            }
            assert("sys_platform"@ != "platform_version"@) by {
                assert("sys_platform"@.len() == 12 && "platform_version"@.len() == 16);
            }
            assert("sys_platform"@ != "python_full_version"@) by {
                assert("sys_platform"@.len() == 12 && "python_full_version"@.len() == 19);
            }
            assert("sys_platform"@ != "python_version"@) by {
                assert("sys_platform"@.len() == 12 && "python_version"@.len() == 14);
            }
            assert(crate::marker::word_token(crate::display::var_text(x)) == Some(
                crate::marker::TokenView::Var(x),
            ));
        },
        crate::marker::MarkerVariable::Extra => {
            assert("extra"@ != "and"@) by {
                assert("extra"@.len() == 5 && "and"@.len() == 3);
            }
            assert("extra"@ != "or"@) by {
                assert("extra"@.len() == 5 && "or"@.len() == 2);
            }
            assert("extra"@ != "in"@) by {
                assert("extra"@.len() == 5 && "in"@.len() == 2);
            }
            assert("extra"@ != "not"@) by {
                assert("extra"@.len() == 5 && "not"@.len() == 3);
            }
            assert("extra"@ != "implementation_name"@) by {
                assert("extra"@.len() == 5 && "implementation_name"@.len() == 19);
            }
            assert("extra"@ != "implementation_version"@) by {
                assert("extra"@.len() == 5 && "implementation_version"@.len() == 22);
            }
            assert("extra"@ != "os_name"@) by {
                assert("extra"@.len() == 5 && "os_name"@.len() == 7);
            }
            assert("extra"@ != "platform_machine"@) by {
                assert("extra"@.len() == 5 && "platform_machine"@.len() == 16);
            }
            assert("extra"@ != "platform_python_implementation"@) by {
                assert("extra"@.len() == 5 && "platform_python_implementation"@.len() == 30);
            }
            assert("extra"@ != "platform_release"@) by {
                assert("extra"@.len() == 5 && "platform_release"@.len() == 16);
            }
            assert("extra"@ != "platform_system"@) by {
                assert("extra"@.len() == 5 && "platform_system"@.len() == 15);
            }
            assert("extra"@ != "platform_version"@) by {
                assert("extra"@.len() == 5 && "platform_version"@.len() == 16);
            }
            assert("extra"@ != "python_full_version"@) by {
                assert("extra"@.len() == 5 && "python_full_version"@.len() == 19);
            }
            assert("extra"@ != "python_version"@) by {
                assert("extra"@.len() == 5 && "python_version"@.len() == 14);
            }
            assert("extra"@ != "sys_platform"@) by {
                assert("extra"@.len() == 5 && "sys_platform"@.len() == 12);
            }
            assert(crate::marker::word_token(crate::display::var_text(x)) == Some(
                crate::marker::TokenView::Var(x),
            ));
        },
    }
}

/// One rendered operand tokenizes to its one token.
proof fn lemma_tokenize_value(v: crate::marker::MarkerValueView, s: Seq<char>, i: int)
    requires
        wf_marker_value(v),
        0 <= i,
        i + crate::display::render_value(v).len() <= s.len(),
        forall|j: int| 0 <= j < crate::display::render_value(v).len() ==> #[trigger] s[i + j]
            == crate::display::render_value(v)[j],
        marker_boundary(s, i + crate::display::render_value(v).len()),
    ensures
        crate::marker::tokenize_from(s, i) == tokens_then(
            crate::display::value_token(v),
            crate::marker::tokenize_from(s, i + crate::display::render_value(v).len()),
        ),
{
    let rv = crate::display::render_value(v);
    let e = i + rv.len() as int;
    match v {
        crate::marker::MarkerValueView::Variable(x) => {
            lemma_var_text_facts(x);
            let w = crate::display::var_text(x);
            assert(rv == w);
            assert forall|k: int| i <= k < e implies crate::marker::is_word_char(
                #[trigger] s[k],
            ) && !is_space(s[k]) && s[k] != '(' && s[k] != ')' && s[k] != '\'' && s[k] != '"'
                && s[k] != '=' && s[k] != '!' && s[k] != '<' && s[k] != '>' && s[k] != '~' by {
                assert(s[i + (k - i)] == rv[k - i]);
                assert(crate::marker::is_word_char(w[k - i]));
            }
            assert(skip_ws_from(s, i) == i);
            lemma_word_end_det(s, i, e);
            assert forall|k: int| 0 <= k < w.len() implies #[trigger] s.subrange(i, e)[k]
                == w[k] by {
                assert(s[i + k] == rv[k]);
            }
            assert(s.subrange(i, e) =~= w);
            assert(crate::marker::tokenize_from(s, i) == crate::marker::tokenize_cons(
                crate::marker::TokenView::Var(x),
                crate::marker::tokenize_from(s, e),
            ));
        },
        crate::marker::MarkerValueView::Literal(t) => {
            reveal_strlit("'");
            reveal_strlit("\"");
            let q = if !crate::marker::seq_has(t, "'"@) {
                '\''
            } else {
                '"'
            };
            let qs = if !crate::marker::seq_has(t, "'"@) {
                "'"@
            } else {
                "\""@
            };
            assert(rv == qs + t + qs);
            assert(rv.len() == t.len() + 2);
            assert(s[i + 0] == rv[0] && rv[0] == q);
            assert forall|k: int| 0 <= k < t.len() implies #[trigger] s[i + 1 + k] == t[k] by {
                assert(s[i + (1 + k)] == rv[1 + k]);
                assert(rv[1 + k] == t[k]);
            }
            assert(s[i + (1 + t.len() as int)] == rv[1 + t.len() as int]);
            assert(s[i + 1 + t.len() as int] == q);
            // The contents never hold the delimiting quote.
            assert forall|k: int| i + 1 <= k < i + 1 + t.len() implies #[trigger] s[k] != q by {
                assert(s[i + 1 + (k - i - 1)] == t[k - i - 1]);
                if t[k - i - 1] == q {
                    assert(t.subrange(k - i - 1, k - i) =~= seq![q]);
                    if q == '\'' {
                        assert(seq![q] =~= "'"@);
                        assert(crate::marker::occurs_at(t, "'"@, k - i - 1));
                    } else {
                        assert(seq![q] =~= "\""@);
                        assert(crate::marker::occurs_at(t, "\""@, k - i - 1));
                    }
                }
            }
            assert(skip_ws_from(s, i) == i);
            lemma_find_char_det(s, i + 1, i + 1 + t.len() as int, q);
            assert forall|k: int| 0 <= k < t.len() implies #[trigger] s.subrange(
                i + 1,
                i + 1 + t.len() as int,
            )[k] == t[k] by {
                assert(s[i + 1 + k] == t[k]);
            }
            assert(s.subrange(i + 1, i + 1 + t.len() as int) =~= t);
            assert(crate::marker::tokenize_from(s, i) == crate::marker::tokenize_cons(
                crate::marker::TokenView::Str(t),
                crate::marker::tokenize_from(s, e),
            ));
        },
    }
}

/// The characters every marker operator writes in symbols.
proof fn lemma_marker_op_text_facts(op: crate::marker::MarkerOperator)
    requires
        op != crate::marker::MarkerOperator::In,
        op != crate::marker::MarkerOperator::NotIn,
    ensures
        1 <= crate::display::marker_op_text(op).len() <= 3,
        forall|k: int| 0 <= k < crate::display::marker_op_text(op).len() ==> (
        #[trigger] crate::display::marker_op_text(op)[k] == '='
            || crate::display::marker_op_text(op)[k] == '!' || crate::display::marker_op_text(
            op,
        )[k] == '<' || crate::display::marker_op_text(op)[k] == '>'
            || crate::display::marker_op_text(op)[k] == '~'),
{
    reveal_strlit("==");
    reveal_strlit("!=");
    reveal_strlit("<=");
    reveal_strlit(">=");
    reveal_strlit("<");
    reveal_strlit(">");
    reveal_strlit("~=");
    reveal_strlit("===");
}

/// One rendered operator tokenizes to its token or tokens, a space after it.
proof fn lemma_tokenize_op(op: crate::marker::MarkerOperator, s: Seq<char>, i: int)
    requires
        0 <= i,
        i + crate::display::marker_op_text(op).len() < s.len(),
        forall|j: int| 0 <= j < crate::display::marker_op_text(op).len() ==> #[trigger] s[i + j]
            == crate::display::marker_op_text(op)[j],
        s[i + crate::display::marker_op_text(op).len() as int] == ' ',
    ensures
        crate::marker::tokenize_from(s, i) == tokens_then(
            crate::display::op_tokens(op),
            crate::marker::tokenize_from(s, i + crate::display::marker_op_text(op).len()),
        ),
{
    let ot = crate::display::marker_op_text(op);
    let e = i + ot.len() as int;
    match op {
        crate::marker::MarkerOperator::In => {
            reveal_strlit("in");
            reveal_strlit("and");
            reveal_strlit("or");
            assert("in"@ != "and"@) by {
                assert("in"@.len() == 2 && "and"@.len() == 3);
            }
            assert("in"@ != "or"@) by {
                assert("in"@[0] == 'i' && "or"@[0] == 'o');
            }
            assert(s[i + 0] == 'i' && s[i + 1] == 'n');
            assert(skip_ws_from(s, i) == i);
            lemma_word_end_det(s, i, e);
            assert forall|k: int| 0 <= k < 2 implies #[trigger] s.subrange(i, e)[k]
                == "in"@[k] by {
                assert(s[i + k] == ot[k]);
            }
            assert(s.subrange(i, e) =~= "in"@);
            assert(crate::marker::tokenize_from(s, i) == crate::marker::tokenize_cons(
                crate::marker::TokenView::KwIn,
                crate::marker::tokenize_from(s, e),
            ));
            assert(crate::display::op_tokens(op) == seq![crate::marker::TokenView::KwIn]);
        },
        crate::marker::MarkerOperator::NotIn => {
            reveal_strlit("not in");
            reveal_strlit("not");
            reveal_strlit("in");
            reveal_strlit("and");
            reveal_strlit("or");
            assert("not"@ != "and"@) by {
                assert("not"@[0] == 'n' && "and"@[0] == 'a');
            }
            assert("not"@ != "or"@) by {
                assert("not"@.len() == 3 && "or"@.len() == 2);
            }
            assert("not"@ != "in"@) by {
                assert("not"@.len() == 3 && "in"@.len() == 2);
            }
            assert("in"@ != "and"@) by {
                assert("in"@.len() == 2 && "and"@.len() == 3);
            }
            assert("in"@ != "or"@) by {
                assert("in"@[0] == 'i' && "or"@[0] == 'o');
            }
            assert(ot.len() == 6);
            assert(s[i + 0] == 'n' && s[i + 1] == 'o' && s[i + 2] == 't' && s[i + 3] == ' ' && s[i
                + 4] == 'i' && s[i + 5] == 'n');
            assert(skip_ws_from(s, i) == i);
            lemma_word_end_det(s, i, i + 3);
            assert forall|k: int| 0 <= k < 3 implies #[trigger] s.subrange(i, i + 3)[k]
                == "not"@[k] by {
                assert(s[i + k] == ot[k]);
            }
            assert(s.subrange(i, i + 3) =~= "not"@);
            assert(crate::marker::tokenize_from(s, i) == crate::marker::tokenize_cons(
                crate::marker::TokenView::KwNot,
                crate::marker::tokenize_from(s, i + 3),
            ));
            // One space, then the word `in`.
            lemma_skip_ws_det(s, i + 3, i + 4);
            lemma_word_end_det(s, i + 4, e);
            assert forall|k: int| 0 <= k < 2 implies #[trigger] s.subrange(i + 4, e)[k]
                == "in"@[k] by {
                assert(s[i + (4 + k)] == ot[4 + k]);
            }
            assert(s.subrange(i + 4, e) =~= "in"@);
            assert(crate::marker::tokenize_from(s, i + 3) == crate::marker::tokenize_cons(
                crate::marker::TokenView::KwIn,
                crate::marker::tokenize_from(s, e),
            ));
            let restopt = crate::marker::tokenize_from(s, e);
            if restopt is Some {
                let rest = restopt->Some_0;
                assert(seq![crate::marker::TokenView::KwNot] + (seq![
                    crate::marker::TokenView::KwIn,
                ] + rest) =~= seq![crate::marker::TokenView::KwNot, crate::marker::TokenView::KwIn]
                    + rest);
            }
        },
        _ => {
            lemma_marker_op_text_facts(op);
            reveal_strlit("==");
            reveal_strlit("!=");
            reveal_strlit("<=");
            reveal_strlit(">=");
            reveal_strlit("<");
            reveal_strlit(">");
            reveal_strlit("~=");
            reveal_strlit("===");
            assert(s[i + 0] == ot[0]);
            assert(!is_space(s[i]));
            assert(skip_ws_from(s, i) == i);
            if ot.len() >= 2 {
                assert(s[i + 1] == ot[1]);
            }
            if ot.len() >= 3 {
                assert(s[i + 2] == ot[2]);
            }
            assert(s[e] == ' ');
            assert(crate::marker::spec_marker_op(s, i) == Some((op, e))) by {
                match op {
                    crate::marker::MarkerOperator::Equal => {
                        assert(s[i + 2] == ' ');
                    },
                    crate::marker::MarkerOperator::Less => {
                        assert(s[i + 1] == ' ');
                    },
                    crate::marker::MarkerOperator::Greater => {
                        assert(s[i + 1] == ' ');
                    },
                    _ => {},
                }
            }
            assert(crate::marker::tokenize_from(s, i) == crate::marker::tokenize_cons(
                crate::marker::TokenView::Oper(op),
                crate::marker::tokenize_from(s, e),
            ));
        },
    }
}

/// The first character of a rendered marker: an opening parenthesis, a
/// word character or a quote — never a space.
proof fn lemma_render_marker_first(t: crate::marker::MarkerTreeView)
    ensures
        crate::display::render_marker(t).len() > 0,
        !is_space(crate::display::render_marker(t)[0]),
    decreases t,
{
    reveal_strlit("(");
    reveal_strlit("'");
    reveal_strlit("\"");
    match t {
        crate::marker::MarkerTreeView::Expression(e) => {
            lemma_render_value_first(e.left);
            let rv = crate::display::render_value(e.left);
            assert(crate::display::render_marker(t)[0] == rv[0]);
        },
        crate::marker::MarkerTreeView::And(a, b) => {
            assert(crate::display::render_marker(t)[0] == '(');
        },
        crate::marker::MarkerTreeView::Or(a, b) => {
            assert(crate::display::render_marker(t)[0] == '(');
        },
    }
}

/// The first character of a rendered operand is never a space.
proof fn lemma_render_value_first(v: crate::marker::MarkerValueView)
    ensures
        crate::display::render_value(v).len() > 0,
        !is_space(crate::display::render_value(v)[0]),
{
    reveal_strlit("'");
    reveal_strlit("\"");
    match v {
        crate::marker::MarkerValueView::Variable(x) => {
            lemma_var_text_facts(x);
            assert(crate::marker::is_word_char(crate::display::var_text(x)[0]));
        },
        crate::marker::MarkerValueView::Literal(tx) => {
            let rv = crate::display::render_value(v);
            if !crate::marker::seq_has(tx, "'"@) {
                assert(rv[0] == '\'');
            } else {
                assert(rv[0] == '"');
            }
        },
    }
}

/// A rendered marker, embedded in text up to a boundary, tokenizes to its
/// tokens followed by whatever the rest tokenizes to.
proof fn lemma_tokenize_marker(t: crate::marker::MarkerTreeView, s: Seq<char>, i: int)
    requires
        wf_marker(t),
        0 <= i,
        i + crate::display::render_marker(t).len() <= s.len(),
        forall|j: int| 0 <= j < crate::display::render_marker(t).len() ==> #[trigger] s[i + j]
            == crate::display::render_marker(t)[j],
        marker_boundary(s, i + crate::display::render_marker(t).len()),
    ensures
        crate::marker::tokenize_from(s, i) == tokens_then(
            crate::display::marker_tokens(t),
            crate::marker::tokenize_from(s, i + crate::display::render_marker(t).len()),
        ),
    decreases t, 1int,
{
    match t {
        crate::marker::MarkerTreeView::Expression(_) => {
            lemma_tokenize_marker_expr(t, s, i);
        },
        crate::marker::MarkerTreeView::And(_, _) => {
            lemma_tokenize_marker_and(t, s, i);
        },
        crate::marker::MarkerTreeView::Or(_, _) => {
            lemma_tokenize_marker_or(t, s, i);
        },
    }
}

/// The comparison case of the induction above.
#[verifier::rlimit(60)]
proof fn lemma_tokenize_marker_expr(t: crate::marker::MarkerTreeView, s: Seq<char>, i: int)
    requires
        t is Expression,
        wf_marker(t),
        0 <= i,
        i + crate::display::render_marker(t).len() <= s.len(),
        forall|j: int| 0 <= j < crate::display::render_marker(t).len() ==> #[trigger] s[i + j]
            == crate::display::render_marker(t)[j],
        marker_boundary(s, i + crate::display::render_marker(t).len()),
    ensures
        crate::marker::tokenize_from(s, i) == tokens_then(
            crate::display::marker_tokens(t),
            crate::marker::tokenize_from(s, i + crate::display::render_marker(t).len()),
        ),
    decreases t, 0int,
{
    reveal_strlit(" ");
    reveal_strlit("(");
    reveal_strlit(")");
    reveal_strlit(" and ");
    reveal_strlit(" or ");
    reveal_strlit("and");
    reveal_strlit("or");
    let rm = crate::display::render_marker(t);
    let e = i + rm.len() as int;
    match t {
        crate::marker::MarkerTreeView::Expression(ex) => {

            let lv = crate::display::render_value(ex.left);
            let ot = crate::display::marker_op_text(ex.op);
            let rv2 = crate::display::render_value(ex.right);
            assert(rm == lv + " "@ + ot + " "@ + rv2);
            let llen = lv.len() as int;
            let olen = ot.len() as int;
            let rlen = rv2.len() as int;
            assert(rm.len() == llen + 1 + olen + 1 + rlen);
            let q = i + llen;
            let opstart = q + 1;
            let rstart = opstart + olen + 1;
            assert forall|j: int| 0 <= j < llen implies #[trigger] s[i + j] == lv[j] by {
                assert(s[i + j] == rm[j]);
                assert(rm[j] == lv[j]);
            }
            assert(s[i + llen] == rm[llen] && rm[llen] == ' ');
            assert forall|j: int| 0 <= j < olen implies #[trigger] s[opstart + j] == ot[j] by {
                assert(s[i + (llen + 1 + j)] == rm[llen + 1 + j]);
                assert(rm[llen + 1 + j] == ot[j]);
            }
            assert(s[i + (llen + 1 + olen)] == rm[llen + 1 + olen] && rm[llen + 1 + olen] == ' ');
            assert forall|j: int| 0 <= j < rlen implies #[trigger] s[rstart + j] == rv2[j] by {
                assert(s[i + (llen + 2 + olen + j)] == rm[llen + 2 + olen + j]);
                assert(rm[llen + 2 + olen + j] == rv2[j]);
            }
            // Left operand, then one space.
            lemma_tokenize_value(ex.left, s, i);
            // The space before the operator is skipped.
            lemma_render_value_first(ex.right);
            match ex.op {
                crate::marker::MarkerOperator::In => {
                    reveal_strlit("in");
                },
                crate::marker::MarkerOperator::NotIn => {
                    reveal_strlit("not in");
                },
                _ => {
                    lemma_marker_op_text_facts(ex.op);
                },
            }
            assert(ot.len() >= 1);
            assert(s[opstart + 0] == ot[0]);
            assert(!is_space(s[opstart]));
            lemma_skip_ws_det(s, q, opstart);
            assert(skip_ws_from(s, opstart) == opstart);
            assert(crate::marker::tokenize_from(s, q) == crate::marker::tokenize_from(s, opstart));
            // The operator, then one space.
            lemma_tokenize_op(ex.op, s, opstart);
            // The space before the right operand is skipped.
            assert(s[rstart + 0] == rv2[0]);
            lemma_skip_ws_det(s, opstart + olen, rstart);
            assert(skip_ws_from(s, rstart) == rstart);
            assert(crate::marker::tokenize_from(s, opstart + olen) == crate::marker::tokenize_from(
                s,
                rstart,
            ));
            // The right operand, ending at the caller's boundary.
            lemma_tokenize_value(ex.right, s, rstart);
            // Compose.
            let vt_l = crate::display::value_token(ex.left);
            let ops = crate::display::op_tokens(ex.op);
            let vt_r = crate::display::value_token(ex.right);
            assert(crate::display::marker_tokens(t) == vt_l + ops + vt_r);
            let restopt = crate::marker::tokenize_from(s, e);
            if restopt is Some {
                let rest = restopt->Some_0;
                assert(vt_l + (ops + (vt_r + rest)) =~= (vt_l + ops + vt_r) + rest);
            }
        
        },
        _ => {},
    }
}

/// The conjunction case of the induction above.
#[verifier::rlimit(60)]
proof fn lemma_tokenize_marker_and(t: crate::marker::MarkerTreeView, s: Seq<char>, i: int)
    requires
        t is And,
        wf_marker(t),
        0 <= i,
        i + crate::display::render_marker(t).len() <= s.len(),
        forall|j: int| 0 <= j < crate::display::render_marker(t).len() ==> #[trigger] s[i + j]
            == crate::display::render_marker(t)[j],
        marker_boundary(s, i + crate::display::render_marker(t).len()),
    ensures
        crate::marker::tokenize_from(s, i) == tokens_then(
            crate::display::marker_tokens(t),
            crate::marker::tokenize_from(s, i + crate::display::render_marker(t).len()),
        ),
    decreases t, 0int,
{
    reveal_strlit(" ");
    reveal_strlit("(");
    reveal_strlit(")");
    reveal_strlit(" and ");
    reveal_strlit(" or ");
    reveal_strlit("and");
    reveal_strlit("or");
    let rm = crate::display::render_marker(t);
    let e = i + rm.len() as int;
    match t {
        crate::marker::MarkerTreeView::And(a, b) => {

            let rma = crate::display::render_marker(*a);
            let rmb = crate::display::render_marker(*b);
            assert(rm == "("@ + rma + " and "@ + rmb + ")"@);
            let alen = rma.len() as int;
            let blen = rmb.len() as int;
            assert(rm.len() == 1 + alen + 5 + blen + 1);
            let astart = i + 1;
            let amid = astart + alen;
            let wstart = amid + 1;
            let wend = wstart + 3;
            let bstart = wend + 1;
            let bend = bstart + blen;
            assert(s[i + 0] == rm[0] && rm[0] == '(');
            assert forall|j: int| 0 <= j < alen implies #[trigger] s[astart + j] == rma[j] by {
                assert(s[i + (1 + j)] == rm[1 + j]);
                assert(rm[1 + j] == rma[j]);
            }
            assert forall|j: int| 0 <= j < 5 implies #[trigger] s[amid + j] == " and "@[j] by {
                assert(s[i + (1 + alen + j)] == rm[1 + alen + j]);
                assert(rm[1 + alen + j] == " and "@[j]);
            }
            assert(s[amid + 0] == ' ' && s[amid + 1] == 'a' && s[amid + 2] == 'n' && s[amid + 3]
                == 'd' && s[amid + 4] == ' ');
            assert forall|j: int| 0 <= j < blen implies #[trigger] s[bstart + j] == rmb[j] by {
                assert(s[i + (6 + alen + j)] == rm[6 + alen + j]);
                assert(rm[6 + alen + j] == rmb[j]);
            }
            assert(s[i + (6 + alen + blen)] == rm[6 + alen + blen] && rm[6 + alen + blen] == ')');
            assert(s[bend] == ')');
            // The opening parenthesis.
            assert(skip_ws_from(s, i) == i);
            assert(crate::marker::tokenize_from(s, i) == crate::marker::tokenize_cons(
                crate::marker::TokenView::LParen,
                crate::marker::tokenize_from(s, astart),
            ));
            // The left branch, up to the space before `and`.
            lemma_tokenize_marker(*a, s, astart);
            // One space, the word `and`, one space.
            lemma_skip_ws_det(s, amid, wstart);
            lemma_word_end_det(s, wstart, wend);
            assert forall|k: int| 0 <= k < 3 implies #[trigger] s.subrange(wstart, wend)[k]
                == "and"@[k] by {
                assert(s[amid + (1 + k)] == " and "@[1 + k]);
            }
            assert(s.subrange(wstart, wend) =~= "and"@);
            assert(crate::marker::tokenize_from(s, amid) == crate::marker::tokenize_cons(
                crate::marker::TokenView::KwAnd,
                crate::marker::tokenize_from(s, wend),
            ));
            // The space before the right branch is skipped.
            lemma_render_marker_first(*b);
            assert(s[bstart + 0] == rmb[0]);
            lemma_skip_ws_det(s, wend, bstart);
            assert(skip_ws_from(s, bstart) == bstart);
            assert(crate::marker::tokenize_from(s, wend) == crate::marker::tokenize_from(
                s,
                bstart,
            ));
            // The right branch, up to the closing parenthesis.
            lemma_tokenize_marker(*b, s, bstart);
            // The closing parenthesis.
            assert(skip_ws_from(s, bend) == bend);
            assert(crate::marker::tokenize_from(s, bend) == crate::marker::tokenize_cons(
                crate::marker::TokenView::RParen,
                crate::marker::tokenize_from(s, e),
            ));
            // Compose.
            let mta = crate::display::marker_tokens(*a);
            let mtb = crate::display::marker_tokens(*b);
            assert(crate::display::marker_tokens(t) == seq![crate::marker::TokenView::LParen] + mta
                + seq![crate::marker::TokenView::KwAnd] + mtb + seq![
                crate::marker::TokenView::RParen,
            ]);
            let restopt = crate::marker::tokenize_from(s, e);
            if restopt is Some {
                let rest = restopt->Some_0;
                assert(seq![crate::marker::TokenView::LParen] + (mta + (seq![
                    crate::marker::TokenView::KwAnd,
                ] + (mtb + (seq![crate::marker::TokenView::RParen] + rest)))) =~= (seq![
                    crate::marker::TokenView::LParen,
                ] + mta + seq![crate::marker::TokenView::KwAnd] + mtb + seq![
                    crate::marker::TokenView::RParen,
                ]) + rest);
            }
        
        },
        _ => {},
    }
}

/// The disjunction case of the induction above.
#[verifier::rlimit(60)]
proof fn lemma_tokenize_marker_or(t: crate::marker::MarkerTreeView, s: Seq<char>, i: int)
    requires
        t is Or,
        wf_marker(t),
        0 <= i,
        i + crate::display::render_marker(t).len() <= s.len(),
        forall|j: int| 0 <= j < crate::display::render_marker(t).len() ==> #[trigger] s[i + j]
            == crate::display::render_marker(t)[j],
        marker_boundary(s, i + crate::display::render_marker(t).len()),
    ensures
        crate::marker::tokenize_from(s, i) == tokens_then(
            crate::display::marker_tokens(t),
            crate::marker::tokenize_from(s, i + crate::display::render_marker(t).len()),
        ),
    decreases t, 0int,
{
    reveal_strlit(" ");
    reveal_strlit("(");
    reveal_strlit(")");
    reveal_strlit(" and ");
    reveal_strlit(" or ");
    reveal_strlit("and");
    reveal_strlit("or");
    let rm = crate::display::render_marker(t);
    let e = i + rm.len() as int;
    match t {
        crate::marker::MarkerTreeView::Or(a, b) => {

            let rma = crate::display::render_marker(*a);
            let rmb = crate::display::render_marker(*b);
            assert(rm == "("@ + rma + " or "@ + rmb + ")"@);
            let alen = rma.len() as int;
            let blen = rmb.len() as int;
            assert(rm.len() == 1 + alen + 4 + blen + 1);
            let astart = i + 1;
            let amid = astart + alen;
            let wstart = amid + 1;
            let wend = wstart + 2;
            let bstart = wend + 1;
            let bend = bstart + blen;
            assert(s[i + 0] == rm[0] && rm[0] == '(');
            assert forall|j: int| 0 <= j < alen implies #[trigger] s[astart + j] == rma[j] by {
                assert(s[i + (1 + j)] == rm[1 + j]);
                assert(rm[1 + j] == rma[j]);
            }
            assert forall|j: int| 0 <= j < 4 implies #[trigger] s[amid + j] == " or "@[j] by {
                assert(s[i + (1 + alen + j)] == rm[1 + alen + j]);
                assert(rm[1 + alen + j] == " or "@[j]);
            }
            assert(s[amid + 0] == ' ' && s[amid + 1] == 'o' && s[amid + 2] == 'r' && s[amid + 3]
                == ' ');
            assert forall|j: int| 0 <= j < blen implies #[trigger] s[bstart + j] == rmb[j] by {
                assert(s[i + (5 + alen + j)] == rm[5 + alen + j]);
                assert(rm[5 + alen + j] == rmb[j]);
            }
            assert(s[i + (5 + alen + blen)] == rm[5 + alen + blen] && rm[5 + alen + blen] == ')');
            assert(s[bend] == ')');
            assert(skip_ws_from(s, i) == i);
            assert(crate::marker::tokenize_from(s, i) == crate::marker::tokenize_cons(
                crate::marker::TokenView::LParen,
                crate::marker::tokenize_from(s, astart),
            ));
            lemma_tokenize_marker(*a, s, astart);
            lemma_skip_ws_det(s, amid, wstart);
            lemma_word_end_det(s, wstart, wend);
            assert("or"@ != "and"@) by {
                reveal_strlit("and");
                assert("or"@.len() == 2 && "and"@.len() == 3);
            }
            assert forall|k: int| 0 <= k < 2 implies #[trigger] s.subrange(wstart, wend)[k]
                == "or"@[k] by {
                assert(s[amid + (1 + k)] == " or "@[1 + k]);
            }
            assert(s.subrange(wstart, wend) =~= "or"@);
            assert(crate::marker::tokenize_from(s, amid) == crate::marker::tokenize_cons(
                crate::marker::TokenView::KwOr,
                crate::marker::tokenize_from(s, wend),
            ));
            lemma_render_marker_first(*b);
            assert(s[bstart + 0] == rmb[0]);
            lemma_skip_ws_det(s, wend, bstart);
            assert(skip_ws_from(s, bstart) == bstart);
            assert(crate::marker::tokenize_from(s, wend) == crate::marker::tokenize_from(
                s,
                bstart,
            ));
            lemma_tokenize_marker(*b, s, bstart);
            assert(skip_ws_from(s, bend) == bend);
            assert(crate::marker::tokenize_from(s, bend) == crate::marker::tokenize_cons(
                crate::marker::TokenView::RParen,
                crate::marker::tokenize_from(s, e),
            ));
            let mta = crate::display::marker_tokens(*a);
            let mtb = crate::display::marker_tokens(*b);
            assert(crate::display::marker_tokens(t) == seq![crate::marker::TokenView::LParen] + mta
                + seq![crate::marker::TokenView::KwOr] + mtb + seq![
                crate::marker::TokenView::RParen,
            ]);
            let restopt = crate::marker::tokenize_from(s, e);
            if restopt is Some {
                let rest = restopt->Some_0;
                assert(seq![crate::marker::TokenView::LParen] + (mta + (seq![
                    crate::marker::TokenView::KwOr,
                ] + (mtb + (seq![crate::marker::TokenView::RParen] + rest)))) =~= (seq![
                    crate::marker::TokenView::LParen,
                ] + mta + seq![crate::marker::TokenView::KwOr] + mtb + seq![
                    crate::marker::TokenView::RParen,
                ]) + rest);
            }
        
        },
        _ => {},
    }
}

/// Rendering a marker whose literals quote unambiguously and parsing the
/// text back recovers the same tree: the marker field is stable under
/// rendering.
pub proof fn lemma_marker_text_round_trip(t: crate::marker::MarkerTreeView)
    requires
        wf_marker(t),
    ensures
        crate::marker::spec_parse_marker(crate::display::render_marker(t)) == Some(t),
{
    let s = crate::display::render_marker(t);
    assert(forall|j: int| 0 <= j < s.len() ==> #[trigger] s[0 + j] == s[j]);
    lemma_tokenize_marker(t, s, 0);
    assert(crate::marker::tokenize_from(s, s.len() as int) == Some(
        Seq::<crate::marker::TokenView>::empty(),
    ));
    let mt = crate::display::marker_tokens(t);
    assert(mt + Seq::<crate::marker::TokenView>::empty() =~= mt);
    assert(crate::marker::spec_tokenize(s) == Some(mt));
    lemma_marker_token_round_trip(t);
}

// ---------------------------------------------------------------------------
// Every parsed marker quotes unambiguously.
// ---------------------------------------------------------------------------

/// A token whose literal, if any, lacks at least one quote kind.
pub open spec fn wf_token(tok: crate::marker::TokenView) -> bool {
    match tok {
        crate::marker::TokenView::Str(t) => !crate::marker::seq_has(t, "'"@)
            || !crate::marker::seq_has(t, "\""@),
        _ => true,
    }
}

/// Every token the tokenizer produces is well formed: a quoted literal
/// never holds the quote that delimited it.
proof fn lemma_tokenize_wf(s: Seq<char>, i: int)
    requires
        0 <= i <= s.len(),
    ensures
        ({
            let r = crate::marker::tokenize_from(s, i);
            r is Some ==> forall|j: int| 0 <= j < r->Some_0.len() ==> wf_token(
                #[trigger] r->Some_0[j],
            )
        }),
    decreases s.len() - i,
{
    reveal_strlit("'");
    reveal_strlit("\"");
    crate::text::lemma_skip_ws_bounds(s, i);
    let a = skip_ws_from(s, i);
    if a < s.len() {
        let c = s[a];
        if c == '(' || c == ')' {
            lemma_tokenize_wf(s, a + 1);
        } else if c == '\'' || c == '"' {
            crate::marker::lemma_find_char_bounds(s, a + 1, c);
            let j = crate::marker::find_char(s, a + 1, c);
            if j < s.len() {
                let t = s.subrange(a + 1, j);
                assert(wf_token(crate::marker::TokenView::Str(t))) by {
                    if c == '\'' && crate::marker::seq_has(t, "'"@) {
                        let k = choose|k: int| crate::marker::occurs_at(t, "'"@, k);
                        assert(t.subrange(k, k + 1)[0] == t[k]);
                        assert(t[k] == '\'');
                        assert(s[a + 1 + k] == '\'');
                    }
                    if c == '"' && crate::marker::seq_has(t, "\""@) {
                        let k = choose|k: int| crate::marker::occurs_at(t, "\""@, k);
                        assert(t.subrange(k, k + 1)[0] == t[k]);
                        assert(t[k] == '"');
                        assert(s[a + 1 + k] == '"');
                    }
                }
                lemma_tokenize_wf(s, j + 1);
            }
        } else if c == '=' || c == '!' || c == '<' || c == '>' || c == '~' {
            match crate::marker::spec_marker_op(s, a) {
                None => {},
                Some((o, nx)) => {
                    lemma_tokenize_wf(s, nx);
                },
            }
        } else if crate::marker::is_word_char(c) {
            crate::marker::lemma_word_end_bounds(s, a);
            let j = crate::marker::word_end(s, a);
            match crate::marker::word_token(s.subrange(a, j)) {
                None => {},
                Some(tok) => {
                    assert(j > a);
                    lemma_tokenize_wf(s, j);
                    assert(wf_token(tok));
                },
            }
        }
    }
}

/// A parsed operand over well-formed tokens is well formed.
proof fn lemma_sp_value_wf(toks: Seq<crate::marker::TokenView>, k: int)
    requires
        forall|j: int| 0 <= j < toks.len() ==> wf_token(#[trigger] toks[j]),
    ensures
        ({
            let r = crate::marker::sp_value(toks, k);
            r is Some ==> wf_marker_value(r->Some_0.0)
        }),
{
}

/// A parsed atom over well-formed tokens is well formed.
proof fn lemma_sp_atom_wf(toks: Seq<crate::marker::TokenView>, k: int)
    requires
        forall|j: int| 0 <= j < toks.len() ==> wf_token(#[trigger] toks[j]),
    ensures
        ({
            let r = crate::marker::sp_atom(toks, k);
            r is Some ==> wf_marker(r->Some_0.0)
        }),
    decreases toks.len() - k, 0int,
{
    if 0 <= k < toks.len() && toks[k] == crate::marker::TokenView::LParen {
        lemma_sp_or_wf(toks, k + 1);
    } else {
        lemma_sp_value_wf(toks, k);
        match crate::marker::sp_value(toks, k) {
            None => {},
            Some((l, k1)) => {
                match crate::marker::sp_op(toks, k1) {
                    None => {},
                    Some((o, k2)) => {
                        lemma_sp_value_wf(toks, k2);
                    },
                }
            },
        }
    }
}

/// A parsed conjunction over well-formed tokens is well formed.
proof fn lemma_sp_and_wf(toks: Seq<crate::marker::TokenView>, k: int)
    requires
        forall|j: int| 0 <= j < toks.len() ==> wf_token(#[trigger] toks[j]),
    ensures
        ({
            let r = crate::marker::sp_and(toks, k);
            r is Some ==> wf_marker(r->Some_0.0)
        }),
    decreases toks.len() - k, 1int,
{
    if 0 <= k <= toks.len() {
        lemma_sp_atom_wf(toks, k);
        match crate::marker::sp_atom(toks, k) {
            None => {},
            Some((t, k1)) => {
                if k <= k1 && k1 < toks.len() && toks[k1] == crate::marker::TokenView::KwAnd {
                    lemma_sp_and_wf(toks, k1 + 1);
                }
            },
        }
    }
}

/// A parsed disjunction over well-formed tokens is well formed.
proof fn lemma_sp_or_wf(toks: Seq<crate::marker::TokenView>, k: int)
    requires
        forall|j: int| 0 <= j < toks.len() ==> wf_token(#[trigger] toks[j]),
    ensures
        ({
            let r = crate::marker::sp_or(toks, k);
            r is Some ==> wf_marker(r->Some_0.0)
        }),
    decreases toks.len() - k, 2int,
{
    if 0 <= k <= toks.len() {
        lemma_sp_and_wf(toks, k);
        match crate::marker::sp_and(toks, k) {
            None => {},
            Some((t, k1)) => {
                if k <= k1 && k1 < toks.len() && toks[k1] == crate::marker::TokenView::KwOr {
                    lemma_sp_or_wf(toks, k1 + 1);
                }
            },
        }
    }
}

/// Whatever marker text parses to is well formed.
pub proof fn lemma_parsed_marker_wf(s: Seq<char>, t: crate::marker::MarkerTreeView)
    requires
        crate::marker::spec_parse_marker(s) == Some(t),
    ensures
        wf_marker(t),
{
    lemma_tokenize_wf(s, 0);
    let toks = crate::marker::spec_tokenize(s)->Some_0;
    lemma_sp_or_wf(toks, 0);
}

/// The `; marker` tail of a rendered requirement parses back to its tree.
proof fn lemma_marker_tail_parses(t: crate::marker::MarkerTreeView, s: Seq<char>, p: int)
    requires
        wf_marker(t),
        0 <= p,
        p + 2 + crate::display::render_marker(t).len() == s.len(),
        s.subrange(p + 1, s.len() as int) == " "@ + crate::display::render_marker(t),
    ensures
        crate::marker::spec_parse_marker(s.subrange(p + 1, s.len() as int)) == Some(t),
{
    reveal_strlit(" ");
    let sub = s.subrange(p + 1, s.len() as int);
    let rm = crate::display::render_marker(t);
    assert(sub.len() == 1 + rm.len());
    assert(sub[0] == ' ');
    assert forall|j: int| 0 <= j < rm.len() implies #[trigger] sub[1 + j] == rm[j] by {
        assert(sub[1 + j] == (" "@ + rm)[1 + j]);
    }
    lemma_render_marker_first(t);
    assert(sub[1 + 0int] == rm[0]);
    lemma_skip_ws_det(sub, 0, 1);
    assert(skip_ws_from(sub, 1) == 1);
    assert(crate::marker::tokenize_from(sub, 0) == crate::marker::tokenize_from(sub, 1));
    assert(marker_boundary(sub, 1 + rm.len() as int));
    lemma_tokenize_marker(t, sub, 1);
    assert(crate::marker::tokenize_from(sub, sub.len() as int) == Some(
        Seq::<crate::marker::TokenView>::empty(),
    ));
    let mt = crate::display::marker_tokens(t);
    assert(mt + Seq::<crate::marker::TokenView>::empty() =~= mt);
    assert(crate::marker::spec_tokenize(sub) == Some(mt));
    lemma_marker_token_round_trip(t);
}

proof fn lemma_normal_from_suffix(t: Seq<char>, i: int)
    requires
        is_normal_name(t),
        0 <= i <= t.len(),
    ensures
        normal_from(t, i) == t.subrange(i, t.len() as int),
    decreases t.len() - i,
{
    if i < t.len() {
        lemma_normal_from_suffix(t, i + 1);
        if is_name_sep(t[i]) {
            assert(t[i] == '-');
            if i > 0 {
                assert(!(t[i] == '-' && t[i - 1] == '-'));
                assert(!is_name_sep(t[i - 1]));
            }
            assert(normal_from(t, i) =~= t.subrange(i, t.len() as int));
        } else {
            assert(lower_char(t[i]) == t[i]);
            assert(normal_from(t, i) =~= t.subrange(i, t.len() as int));
        }
    } else {
        assert(normal_from(t, i) =~= t.subrange(i, t.len() as int));
    }
}

} // verus!
