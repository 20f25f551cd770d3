//! One read-only interface over named and unnamed requirements, as a
//! requirements file holds them.

use vstd::prelude::*;
use crate::name::ExtraName;
use crate::marker::{MarkerTree, MarkerTreeView, MarkerEnvironment, extras_view};
use crate::requirement::{Requirement, UnnamedRequirement, UnnamedRequirementView, Pep508Error,
    Pep508ErrorSource, VerbatimUrl, spec_parse_requirement, spec_parse_unnamed, looks_like_url,
    eval_opt_marker};
use crate::uv_requirement::{UvRequirement, UvRequirementView, UvSource, UvSourceView,
    uv_from_requirement};

verus! {

/// The mathematical content of a requirements-file entry.
pub ghost enum RequirementsTxtRequirementView {
    Uv(UvRequirementView),
    Unnamed(UnnamedRequirementView),
}

/// A requirement as a requirements file holds it: the canonical named form,
/// or a direct-URL dependency with no distributable name.
#[derive(Debug)]
pub enum RequirementsTxtRequirement {
    /// The canonical named requirement.
    Uv(UvRequirement),
    /// A PEP 508-like, direct URL dependency specifier.
    Unnamed(UnnamedRequirement),
}

impl View for RequirementsTxtRequirement {
    type V = RequirementsTxtRequirementView;

    open spec fn view(&self) -> RequirementsTxtRequirementView {
        match self {
            RequirementsTxtRequirement::Uv(r) => RequirementsTxtRequirementView::Uv(r@),
            RequirementsTxtRequirement::Unnamed(u) => RequirementsTxtRequirementView::Unnamed(u@),
        }
    }
}

/// The identity a requirements-file entry is reported under: its name, or
/// its URL when it has no name.
pub open spec fn rt_identity(v: RequirementsTxtRequirementView) -> Seq<char> {
    match v {
        RequirementsTxtRequirementView::Uv(r) => r.name,
        RequirementsTxtRequirementView::Unnamed(u) => u.url,
    }
}

/// The extras of an entry.
pub open spec fn rt_extras(v: RequirementsTxtRequirementView) -> Seq<Seq<char>> {
    match v {
        RequirementsTxtRequirementView::Uv(r) => r.extras,
        RequirementsTxtRequirementView::Unnamed(u) => u.extras,
    }
}

/// The marker of an entry.
pub open spec fn rt_marker(v: RequirementsTxtRequirementView) -> Option<MarkerTreeView> {
    match v {
        RequirementsTxtRequirementView::Uv(r) => r.marker,
        RequirementsTxtRequirementView::Unnamed(u) => u.marker,
    }
}

/// The source of an entry: the named form's own source; a URL source is
/// synthesized for the unnamed form.
pub open spec fn rt_source(v: RequirementsTxtRequirementView) -> UvSourceView {
    match v {
        RequirementsTxtRequirementView::Uv(r) => r.source,
        RequirementsTxtRequirementView::Unnamed(u) => UvSourceView::Url { url: u.url },
    }
}

/// The entry written in `s`: the named grammar, and the unnamed grammar
/// exactly when the named one fails because the text reads as a bare URL.
pub open spec fn spec_parse_requirements_txt(s: Seq<char>) -> Option<
    RequirementsTxtRequirementView,
> {
    match spec_parse_requirement(s) {
        Some(rv) => Some(RequirementsTxtRequirementView::Uv(uv_from_requirement(rv))),
        None => if looks_like_url(s) {
            match spec_parse_unnamed(s) {
                Some(uv) => Some(RequirementsTxtRequirementView::Unnamed(uv)),
                None => None,
            }
        } else {
            None
        },
    }
}

impl RequirementsTxtRequirement {
    /// The name of the requirement, or its URL for the unnamed form. For
    /// error messages.
    pub fn name_or_url(&self) -> (r: String)
        ensures
            r@ == rt_identity(self@),
    {
        match self {
            RequirementsTxtRequirement::Uv(requirement) => {
                let mut out = String::new();
                out.append(requirement.name.as_str());
                assert(out@ =~= requirement.name@);
                out
            },
            RequirementsTxtRequirement::Unnamed(unnamed) => {
                let mut out = String::new();
                out.append(unnamed.url.as_str());
                assert(out@ =~= unnamed.url@);
                out
            },
        }
    }

    /// Whether the markers apply for the given environment and extras.
    pub fn evaluate_markers(&self, env: &MarkerEnvironment, extras: &[ExtraName]) -> (r: bool)
        ensures
            r == eval_opt_marker(rt_marker(self@), env@, extras_view(extras@)),
    {
        match self {
            RequirementsTxtRequirement::Uv(requirement) => requirement.evaluate_markers(
                env,
                extras,
            ),
            RequirementsTxtRequirement::Unnamed(requirement) => requirement.evaluate_markers(
                env,
                extras,
            ),
        }
    }

    /// The extras of the requirement.
    pub fn extras(&self) -> (r: &[ExtraName])
        ensures
            extras_view(r@) == rt_extras(self@),
    {
        match self {
            RequirementsTxtRequirement::Uv(requirement) => requirement.extras.as_slice(),
            RequirementsTxtRequirement::Unnamed(requirement) => requirement.extras.as_slice(),
        }
    }

    /// The markers of the requirement.
    pub fn markers(&self) -> (r: Option<&MarkerTree>)
        ensures
            match r {
                Some(t) => rt_marker(self@) == Some(t@),
                None => rt_marker(self@) is None,
            },
    {
        match self {
            RequirementsTxtRequirement::Uv(requirement) => requirement.marker.as_ref(),
            RequirementsTxtRequirement::Unnamed(requirement) => requirement.marker.as_ref(),
        }
    }

    /// The version specifier or URL of the requirement; a URL source is
    /// synthesized for the unnamed form.
    pub fn source(&self) -> (r: UvSource)
        ensures
            r@ == rt_source(self@),
    {
        match self {
            RequirementsTxtRequirement::Uv(requirement) => requirement.source.clone(),
            RequirementsTxtRequirement::Unnamed(requirement) => UvSource::Url {
                url: requirement.url.clone(),
            },
        }
    }

    /// Parses a requirement as a requirements file holds it: the named
    /// grammar first, then the unnamed grammar only when the named parse
    /// failed because the text reads as a bare URL. Any other failure
    /// propagates unchanged: for text that does not read as a bare URL, the
    /// error returned is the named grammar's, never the distinguishable
    /// unsupported-requirement one.
    pub fn parse(input: &str) -> (r: Result<RequirementsTxtRequirement, Pep508Error>)
        ensures
            match r {
                Ok(x) => spec_parse_requirements_txt(input@) == Some(x@),
                Err(e) => spec_parse_requirements_txt(input@) is None && e.input@ == input@ && (e
                    .message matches Pep508ErrorSource::Message(m) && m@ == input@),
            },
    {
        match Requirement::parse(input) {
            Ok(requirement) => Ok(
                RequirementsTxtRequirement::Uv(UvRequirement::from_requirement(requirement)),
            ),
            Err(err) => match err.message {
                Pep508ErrorSource::UnsupportedRequirement(_) => {
                    match UnnamedRequirement::parse(input) {
                        Ok(unnamed) => Ok(RequirementsTxtRequirement::Unnamed(unnamed)),
                        Err(e) => Err(e),
                    }
                },
                _ => Err(err),
            },
        }
    }
}

impl From<UvRequirement> for RequirementsTxtRequirement {
    fn from(requirement: UvRequirement) -> (r: Self) {
        Self::Uv(requirement)
    }
}

impl vstd::std_specs::convert::FromSpecImpl<UvRequirement> for RequirementsTxtRequirement {
    open spec fn obeys_from_spec() -> bool {
        true
    }

    open spec fn from_spec(requirement: UvRequirement) -> Self {
        RequirementsTxtRequirement::Uv(requirement)
    }
}

impl From<UnnamedRequirement> for RequirementsTxtRequirement {
    fn from(requirement: UnnamedRequirement) -> (r: Self) {
        Self::Unnamed(requirement)
    }
}

impl vstd::std_specs::convert::FromSpecImpl<UnnamedRequirement> for RequirementsTxtRequirement {
    open spec fn obeys_from_spec() -> bool {
        true
    }

    open spec fn from_spec(requirement: UnnamedRequirement) -> Self {
        RequirementsTxtRequirement::Unnamed(requirement)
    }
}

} // verus!
