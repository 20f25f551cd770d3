//! Canonical text for requirements, version specifiers and markers: what a
//! value prints as, stated exactly so that reparsing can be reasoned about.

use vstd::prelude::*;
use vstd::string::StringExecFns;
use crate::version::{VersionSpecifier, VersionSpecifiers, SpecifierView, SpecifierOperator};
use crate::marker::{MarkerTree, MarkerTreeView, MarkerValue, MarkerValueView, MarkerExpression,
    MarkerExpressionView, MarkerOperator, MarkerVariable, TokenView, seq_has};
use crate::requirement::{Requirement, RequirementView, UnnamedRequirement,
    UnnamedRequirementView, VersionOrUrlView};
use crate::uv_requirement::{UvRequirement, UvRequirementView, UvSourceView};

verus! {

/// The text of a specifier operator.
pub open spec fn op_text(op: SpecifierOperator) -> Seq<char> {
    match op {
        SpecifierOperator::Equal => "=="@,
        SpecifierOperator::NotEqual => "!="@,
        SpecifierOperator::LessThanEqual => "<="@,
        SpecifierOperator::GreaterThanEqual => ">="@,
        SpecifierOperator::LessThan => "<"@,
        SpecifierOperator::GreaterThan => ">"@,
        SpecifierOperator::TildeEqual => "~="@,
        SpecifierOperator::ExactEqual => "==="@,
    }
}

/// The text of one version predicate.
pub open spec fn render_specifier(sp: SpecifierView) -> Seq<char> {
    op_text(sp.op) + sp.version
}

/// The text of the predicates `specs[i..]`, joined by commas.
pub open spec fn render_specifiers_from(specs: Seq<SpecifierView>, i: int) -> Seq<char>
    decreases specs.len() - i,
{
    if !(0 <= i < specs.len()) {
        Seq::empty()
    } else if i == specs.len() - 1 {
        render_specifier(specs[i])
    } else {
        render_specifier(specs[i]) + ","@ + render_specifiers_from(specs, i + 1)
    }
}

/// The text of a set of version predicates.
pub open spec fn render_specifiers(specs: Seq<SpecifierView>) -> Seq<char> {
    render_specifiers_from(specs, 0)
}

/// The names `names[i..]`, joined by commas.
pub open spec fn render_names_from(names: Seq<Seq<char>>, i: int) -> Seq<char>
    decreases names.len() - i,
{
    if !(0 <= i < names.len()) {
        Seq::empty()
    } else if i == names.len() - 1 {
        names[i]
    } else {
        names[i] + ","@ + render_names_from(names, i + 1)
    }
}

/// The bracketed extras of a requirement; nothing when there are none.
pub open spec fn render_extras(exs: Seq<Seq<char>>) -> Seq<char> {
    if exs.len() == 0 {
        Seq::empty()
    } else {
        "["@ + render_names_from(exs, 0) + "]"@
    }
}

/// The name of a marker variable.
pub open spec fn var_text(v: MarkerVariable) -> Seq<char> {
    match v {
        MarkerVariable::ImplementationName => "implementation_name"@,
        MarkerVariable::ImplementationVersion => "implementation_version"@,
        MarkerVariable::OsName => "os_name"@,
        MarkerVariable::PlatformMachine => "platform_machine"@,
        MarkerVariable::PlatformPythonImplementation => "platform_python_implementation"@,
        MarkerVariable::PlatformRelease => "platform_release"@,
        MarkerVariable::PlatformSystem => "platform_system"@,
        MarkerVariable::PlatformVersion => "platform_version"@,
        MarkerVariable::PythonFullVersion => "python_full_version"@,
        MarkerVariable::PythonVersion => "python_version"@,
        MarkerVariable::SysPlatform => "sys_platform"@,
        MarkerVariable::Extra => "extra"@,
    }
}

/// The text of a marker operator.
pub open spec fn marker_op_text(op: MarkerOperator) -> Seq<char> {
    match op {
        MarkerOperator::Equal => "=="@,
        MarkerOperator::NotEqual => "!="@,
        MarkerOperator::LessEqual => "<="@,
        MarkerOperator::Less => "<"@,
        MarkerOperator::GreaterEqual => ">="@,
        MarkerOperator::Greater => ">"@,
        MarkerOperator::TildeEqual => "~="@,
        MarkerOperator::ExactEqual => "==="@,
        MarkerOperator::In => "in"@,
        MarkerOperator::NotIn => "not in"@,
    }
}

/// The text of a marker operand: the variable's name, or the literal
/// quoted. A literal holding single quotes is quoted with double ones.
pub open spec fn render_value(v: MarkerValueView) -> Seq<char> {
    match v {
        MarkerValueView::Variable(x) => var_text(x),
        MarkerValueView::Literal(t) => if !seq_has(t, "'"@) {
            "'"@ + t + "'"@
        } else {
            "\""@ + t + "\""@
        },
    }
}

/// The text of a marker tree, fully parenthesized, so that reparsing it
/// recovers the same tree.
pub open spec fn render_marker(t: MarkerTreeView) -> Seq<char>
    decreases t,
{
    match t {
        MarkerTreeView::Expression(e) => render_value(e.left) + " "@ + marker_op_text(e.op) + " "@
            + render_value(e.right),
        MarkerTreeView::And(a, b) => "("@ + render_marker(*a) + " and "@ + render_marker(*b)
            + ")"@,
        MarkerTreeView::Or(a, b) => "("@ + render_marker(*a) + " or "@ + render_marker(*b) + ")"@,
    }
}

/// The tokens a rendered marker reads back as.
pub open spec fn marker_tokens(t: MarkerTreeView) -> Seq<TokenView>
    decreases t,
{
    match t {
        MarkerTreeView::Expression(e) => value_token(e.left) + op_tokens(e.op) + value_token(
            e.right,
        ),
        MarkerTreeView::And(a, b) => seq![TokenView::LParen] + marker_tokens(*a) + seq![
            TokenView::KwAnd,
        ] + marker_tokens(*b) + seq![TokenView::RParen],
        MarkerTreeView::Or(a, b) => seq![TokenView::LParen] + marker_tokens(*a) + seq![
            TokenView::KwOr,
        ] + marker_tokens(*b) + seq![TokenView::RParen],
    }
}

/// The token of one operand.
pub open spec fn value_token(v: MarkerValueView) -> Seq<TokenView> {
    match v {
        MarkerValueView::Variable(x) => seq![TokenView::Var(x)],
        MarkerValueView::Literal(t) => seq![TokenView::Str(t)],
    }
}

/// The token or tokens of one operator.
pub open spec fn op_tokens(op: MarkerOperator) -> Seq<TokenView> {
    match op {
        MarkerOperator::In => seq![TokenView::KwIn],
        MarkerOperator::NotIn => seq![TokenView::KwNot, TokenView::KwIn],
        _ => seq![TokenView::Oper(op)],
    }
}

/// The text of a parsed requirement: name, bracketed extras, the version
/// constraint or ` @ url`, and ` ; marker`.
pub open spec fn render_requirement(v: RequirementView) -> Seq<char> {
    v.name + render_extras(v.extras) + (match v.version_or_url {
        None => Seq::empty(),
        Some(VersionOrUrlView::VersionSpecifier(specs)) => render_specifiers(specs),
        Some(VersionOrUrlView::Url(u)) => " @ "@ + u,
    }) + (match v.marker {
        None => Seq::empty(),
        Some(t) => " ; "@ + render_marker(t),
    })
}

/// The text of a canonical requirement: name, bracketed extras, the
/// source's constraint or URL, and ` ; marker`. A registry source shows its
/// version constraint and, when one is set, its index.
pub open spec fn render_uv_requirement(v: UvRequirementView) -> Seq<char> {
    v.name + render_extras(v.extras) + (match v.source {
        UvSourceView::Registry { version, index } => render_specifiers(version) + (match index {
            None => Seq::empty(),
            Some(ix) => " (index: "@ + ix + ")"@,
        }),
        UvSourceView::Url { url } => " @ "@ + url,
        UvSourceView::Git { .. } => Seq::empty(),
        UvSourceView::Path { .. } => Seq::empty(),
    }) + (match v.marker {
        None => Seq::empty(),
        Some(t) => " ; "@ + render_marker(t),
    })
}

/// The text of an unnamed requirement: its URL and ` ; marker`.
pub open spec fn render_unnamed(v: UnnamedRequirementView) -> Seq<char> {
    v.url + (match v.marker {
        None => Seq::empty(),
        Some(t) => " ; "@ + render_marker(t),
    })
}

// ---------------------------------------------------------------------------
// The executable renderers.
// ---------------------------------------------------------------------------

/// Appends the text of one operator.
fn push_op_text(out: &mut String, op: SpecifierOperator)
    ensures
        final(out)@ == old(out)@ + op_text(op),
{
    match op {
        SpecifierOperator::Equal => out.append("=="),
        SpecifierOperator::NotEqual => out.append("!="),
        SpecifierOperator::LessThanEqual => out.append("<="),
        SpecifierOperator::GreaterThanEqual => out.append(">="),
        SpecifierOperator::LessThan => out.append("<"),
        SpecifierOperator::GreaterThan => out.append(">"),
        SpecifierOperator::TildeEqual => out.append("~="),
        SpecifierOperator::ExactEqual => out.append("==="),
    }
}

impl VersionSpecifiers {
    /// The canonical text of the predicates, joined by commas.
    pub fn to_display_string(&self) -> (r: String)
        ensures
            r@ == render_specifiers(self@),
    {
        let mut out = String::new();
        let n = self.specifiers.len();
        let mut i: usize = 0;
        while i < n
            invariant
                0 <= i <= n,
                n == self.specifiers@.len(),
                out@ + render_specifiers_from(self@, i as int) == render_specifiers(self@),
            decreases n - i,
        {
            assert(self@[i as int] == self.specifiers@[i as int]@);
            push_op_text(&mut out, self.specifiers[i].op);
            out.append(self.specifiers[i].version.as_str());
            if i + 1 < n {
                out.append(",");
            }
            i = i + 1;
        }
        assert(out@ =~= render_specifiers(self@));
        out
    }
}

/// Appends the name of a marker variable.
fn push_var_text(out: &mut String, v: MarkerVariable)
    ensures
        final(out)@ == old(out)@ + var_text(v),
{
    match v {
        MarkerVariable::ImplementationName => out.append("implementation_name"),
        MarkerVariable::ImplementationVersion => out.append("implementation_version"),
        MarkerVariable::OsName => out.append("os_name"),
        MarkerVariable::PlatformMachine => out.append("platform_machine"),
        MarkerVariable::PlatformPythonImplementation => out.append(
            "platform_python_implementation",
        ),
        MarkerVariable::PlatformRelease => out.append("platform_release"),
        MarkerVariable::PlatformSystem => out.append("platform_system"),
        MarkerVariable::PlatformVersion => out.append("platform_version"),
        MarkerVariable::PythonFullVersion => out.append("python_full_version"),
        MarkerVariable::PythonVersion => out.append("python_version"),
        MarkerVariable::SysPlatform => out.append("sys_platform"),
        MarkerVariable::Extra => out.append("extra"),
    }
}

/// Appends the text of one marker operand.
fn push_value_text(out: &mut String, v: &MarkerValue)
    ensures
        final(out)@ == old(out)@ + render_value(v@),
{
    match v {
        MarkerValue::Variable(x) => push_var_text(out, *x),
        MarkerValue::Literal(t) => {
            if !crate::marker::str_contains_seq(t.as_str(), "'") {
                out.append("'");
                out.append(t.as_str());
                out.append("'");
            } else {
                out.append("\"");
                out.append(t.as_str());
                out.append("\"");
            }
        },
    }
}

/// Appends the text of one marker operator.
fn push_marker_op_text(out: &mut String, op: MarkerOperator)
    ensures
        final(out)@ == old(out)@ + marker_op_text(op),
{
    match op {
        MarkerOperator::Equal => out.append("=="),
        MarkerOperator::NotEqual => out.append("!="),
        MarkerOperator::LessEqual => out.append("<="),
        MarkerOperator::Less => out.append("<"),
        MarkerOperator::GreaterEqual => out.append(">="),
        MarkerOperator::Greater => out.append(">"),
        MarkerOperator::TildeEqual => out.append("~="),
        MarkerOperator::ExactEqual => out.append("==="),
        MarkerOperator::In => out.append("in"),
        MarkerOperator::NotIn => out.append("not in"),
    }
}

/// Appends the text of a marker tree.
fn push_marker_text(out: &mut String, t: &MarkerTree)
    ensures
        final(out)@ == old(out)@ + render_marker(t@),
    decreases t,
{
    match t {
        MarkerTree::Expression(e) => {
            push_value_text(out, &e.left);
            out.append(" ");
            push_marker_op_text(out, e.op);
            out.append(" ");
            push_value_text(out, &e.right);
        },
        MarkerTree::And(a, b) => {
            out.append("(");
            push_marker_text(out, a);
            out.append(" and ");
            push_marker_text(out, b);
            out.append(")");
        },
        MarkerTree::Or(a, b) => {
            out.append("(");
            push_marker_text(out, a);
            out.append(" or ");
            push_marker_text(out, b);
            out.append(")");
        },
    }
}

impl MarkerTree {
    /// The canonical, fully parenthesized text of the marker.
    pub fn to_display_string(&self) -> (r: String)
        ensures
            r@ == render_marker(self@),
    {
        let mut out = String::new();
        push_marker_text(&mut out, self);
        assert(out@ =~= render_marker(self@));
        out
    }
}

/// Appends the bracketed extras of a requirement.
fn push_extras_text(out: &mut String, exs: &Vec<crate::name::ExtraName>)
    ensures
        final(out)@ == old(out)@ + render_extras(crate::marker::extras_view(exs@)),
{
    let n = exs.len();
    if n == 0 {
        assert(old(out)@ + render_extras(crate::marker::extras_view(exs@)) =~= old(out)@);
        return;
    }
    let ghost xv = crate::marker::extras_view(exs@);
    out.append("[");
    let mut i: usize = 0;
    while i < n
        invariant
            0 <= i <= n,
            0 < n == exs@.len(),
            xv == crate::marker::extras_view(exs@),
            out@ + render_names_from(xv, i as int) == old(out)@ + "["@ + render_names_from(xv, 0),
        decreases n - i,
    {
        assert(xv[i as int] == exs@[i as int]@);
        out.append(exs[i].as_str());
        if i + 1 < n {
            out.append(",");
        }
        i = i + 1;
    }
    out.append("]");
    assert(out@ =~= old(out)@ + render_extras(xv));
}

impl Requirement {
    /// The canonical text of the requirement.
    pub fn to_display_string(&self) -> (r: String)
        ensures
            r@ == render_requirement(self@),
    {
        let mut out = String::new();
        out.append(self.name.as_str());
        push_extras_text(&mut out, &self.extras);
        match &self.version_or_url {
            Option::None => {},
            Option::Some(crate::requirement::VersionOrUrl::VersionSpecifier(specs)) => {
                let t = specs.to_display_string();
                out.append(t.as_str());
            },
            Option::Some(crate::requirement::VersionOrUrl::Url(u)) => {
                out.append(" @ ");
                out.append(u.as_str());
            },
        }
        match &self.marker {
            Option::None => {},
            Option::Some(t) => {
                out.append(" ; ");
                push_marker_text(&mut out, t);
            },
        }
        assert(out@ =~= render_requirement(self@));
        out
    }
}

impl UvRequirement {
    /// The canonical text of the requirement, for user display. Git and
    /// path sources show no source text in this revision.
    pub fn to_display_string(&self) -> (r: String)
        ensures
            r@ == render_uv_requirement(self@),
    {
        let mut out = String::new();
        out.append(self.name.as_str());
        push_extras_text(&mut out, &self.extras);
        match &self.source {
            crate::uv_requirement::UvSource::Registry { version, index } => {
                let t = version.to_display_string();
                out.append(t.as_str());
                match index {
                    Option::None => {},
                    Option::Some(ix) => {
                        out.append(" (index: ");
                        out.append(ix.as_str());
                        out.append(")");
                    },
                }
            },
            crate::uv_requirement::UvSource::Url { url } => {
                out.append(" @ ");
                out.append(url.as_str());
            },
            crate::uv_requirement::UvSource::Git { .. } => {},
            crate::uv_requirement::UvSource::Path { .. } => {},
        }
        match &self.marker {
            Option::None => {},
            Option::Some(t) => {
                out.append(" ; ");
                push_marker_text(&mut out, t);
            },
        }
        assert(out@ =~= render_uv_requirement(self@));
        out
    }
}

impl UnnamedRequirement {
    /// The canonical text of the requirement: its URL and marker.
    pub fn to_display_string(&self) -> (r: String)
        ensures
            r@ == render_unnamed(self@),
    {
        let mut out = String::new();
        out.append(self.url.as_str());
        match &self.marker {
            Option::None => {},
            Option::Some(t) => {
                out.append(" ; ");
                push_marker_text(&mut out, t);
            },
        }
        assert(out@ =~= render_unnamed(self@));
        out
    }
}

} // verus!
