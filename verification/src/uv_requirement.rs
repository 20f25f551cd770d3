//! The canonical, provenance-tagged requirement model: a parsed requirement
//! joined with the source the resolver must fetch it from.

use vstd::prelude::*;
use vstd::string::StringExecFns;
use crate::name::{PackageName, ExtraName};
use crate::version::{VersionSpecifiers, SpecifierView, SpecifierOperator};
use crate::marker::{MarkerTree, MarkerTreeView, MarkerEnvironment, extras_view};
use crate::requirement::{Requirement, RequirementView, VerbatimUrl, VersionOrUrl,
    VersionOrUrlView, opt_marker_view, clone_opt_marker, clone_extras, eval_opt_marker};

verus! {

/// The mathematical content of a git reference selector.
pub ghost enum GitVersionView {
    Rev(Seq<char>),
    Tag(Seq<char>),
    Branch(Seq<char>),
}

/// Which revision of a git repository to fetch: at most one of a revision,
/// a tag or a branch.
#[derive(Debug)]
pub enum GitVersion {
    Rev(String),
    Tag(String),
    Branch(String),
}

impl View for GitVersion {
    type V = GitVersionView;

    open spec fn view(&self) -> GitVersionView {
        match self {
            GitVersion::Rev(t) => GitVersionView::Rev(t@),
            GitVersion::Tag(t) => GitVersionView::Tag(t@),
            GitVersion::Branch(t) => GitVersionView::Branch(t@),
        }
    }
}

impl Clone for GitVersion {
    fn clone(&self) -> (r: Self)
        ensures
            r@ == self@,
    {
        match self {
            GitVersion::Rev(t) => GitVersion::Rev(t.clone()),
            GitVersion::Tag(t) => GitVersion::Tag(t.clone()),
            GitVersion::Branch(t) => GitVersion::Branch(t.clone()),
        }
    }
}

/// The mathematical content of a requirement source.
pub ghost enum UvSourceView {
    Registry { version: Seq<SpecifierView>, index: Option<Seq<char>> },
    Url { url: Seq<char> },
    Git { git: Seq<char>, version: Option<GitVersionView> },
    Path { path: Seq<char> },
}

/// Where the resolver must fetch a requirement from. Exactly one variant is
/// populated; it dictates how the artifact is obtained.
#[derive(Debug)]
pub enum UvSource {
    /// A registry lookup under the given version constraint.
    Registry { version: VersionSpecifiers, index: Option<String> },
    /// A direct URL.
    Url { url: VerbatimUrl },
    /// A git repository, optionally pinned to one reference.
    Git { git: VerbatimUrl, version: Option<GitVersion> },
    /// A local path.
    Path { path: String },
}

/// The view of an optional git reference.
pub open spec fn opt_git_view(v: &Option<GitVersion>) -> Option<GitVersionView> {
    match v {
        Option::None => None,
        Option::Some(g) => Some(g@),
    }
}

/// The view of optional index text.
pub open spec fn opt_text_view(v: &Option<String>) -> Option<Seq<char>> {
    match v {
        Option::None => None,
        Option::Some(t) => Some(t@),
    }
}

impl View for UvSource {
    type V = UvSourceView;

    open spec fn view(&self) -> UvSourceView {
        match self {
            UvSource::Registry { version, index } => UvSourceView::Registry {
                version: version@,
                index: opt_text_view(index),
            },
            UvSource::Url { url } => UvSourceView::Url { url: url@ },
            UvSource::Git { git, version } => UvSourceView::Git {
                git: git@,
                version: opt_git_view(version),
            },
            UvSource::Path { path } => UvSourceView::Path { path: path@ },
        }
    }
}

impl Clone for UvSource {
    fn clone(&self) -> (r: Self)
        ensures
            r@ == self@,
    {
        match self {
            UvSource::Registry { version, index } => UvSource::Registry {
                version: version.clone(),
                index: match index {
                    Option::None => None,
                    Option::Some(t) => Some(t.clone()),
                },
            },
            UvSource::Url { url } => UvSource::Url { url: url.clone() },
            UvSource::Git { git, version } => UvSource::Git {
                git: git.clone(),
                version: match version {
                    Option::None => None,
                    Option::Some(g) => Some(g.clone()),
                },
            },
            UvSource::Path { path } => UvSource::Path { path: path.clone() },
        }
    }
}

/// The mathematical content of a canonical requirement.
pub ghost struct UvRequirementView {
    pub name: Seq<char>,
    pub extras: Seq<Seq<char>>,
    pub marker: Option<MarkerTreeView>,
    pub source: UvSourceView,
}

/// A canonical requirement: name, extras, optional marker, and the one
/// source it resolves through.
#[derive(Debug)]
pub struct UvRequirement {
    pub name: PackageName,
    pub extras: Vec<ExtraName>,
    pub marker: Option<MarkerTree>,
    pub source: UvSource,
}

impl View for UvRequirement {
    type V = UvRequirementView;

    open spec fn view(&self) -> UvRequirementView {
        UvRequirementView {
            name: self.name@,
            extras: extras_view(self.extras@),
            marker: opt_marker_view(&self.marker),
            source: self.source@,
        }
    }
}

impl Clone for UvRequirement {
    fn clone(&self) -> (r: Self)
        ensures
            r@ == self@,
    {
        UvRequirement {
            name: self.name.clone(),
            extras: clone_extras(&self.extras),
            marker: clone_opt_marker(&self.marker),
            source: self.source.clone(),
        }
    }
}

/// The canonical form of a parsed requirement with no override: a version
/// constraint (or none at all) becomes a registry source, a URL stays a URL.
pub open spec fn uv_from_requirement(rv: RequirementView) -> UvRequirementView {
    UvRequirementView {
        name: rv.name,
        extras: rv.extras,
        marker: rv.marker,
        source: match rv.version_or_url {
            None => UvSourceView::Registry { version: Seq::empty(), index: None },
            Some(VersionOrUrlView::VersionSpecifier(v)) => UvSourceView::Registry {
                version: v,
                index: None,
            },
            Some(VersionOrUrlView::Url(u)) => UvSourceView::Url { url: u },
        },
    }
}

impl UvRequirement {
    /// Whether this requirement's marker admits the environment and extras.
    pub fn evaluate_markers(&self, env: &MarkerEnvironment, extras: &[ExtraName]) -> (r: bool)
        ensures
            r == eval_opt_marker(self@.marker, env@, extras_view(extras@)),
    {
        match &self.marker {
            Option::None => true,
            Option::Some(t) => t.evaluate(env, extras),
        }
    }

    /// Canonicalizes a parsed requirement that carries no override.
    pub fn from_requirement(requirement: Requirement) -> (r: Self)
        ensures
            r@ == uv_from_requirement(requirement@),
    {
        let source = match requirement.version_or_url {
            Option::None => UvSource::Registry { version: VersionSpecifiers::empty(), index: None },
            Option::Some(VersionOrUrl::VersionSpecifier(version)) => UvSource::Registry {
                version,
                index: None,
            },
            Option::Some(VersionOrUrl::Url(url)) => UvSource::Url { url },
        };
        UvRequirement {
            name: requirement.name,
            extras: requirement.extras,
            marker: requirement.marker,
            source,
        }
    }
}

/// One extra's group of canonical requirements.
pub type ExtraEntry = (ExtraName, Vec<UvRequirement>);

/// The view of a group list: name and requirement views, in order.
pub open spec fn groups_view(entries: Seq<ExtraEntry>) -> Seq<(Seq<char>, Seq<UvRequirementView>)> {
    entries.map_values(|e: ExtraEntry| (e.0@, reqs_view(e.1@)))
}

/// The views of a requirement list.
pub open spec fn reqs_view(reqs: Seq<UvRequirement>) -> Seq<UvRequirementView> {
    reqs.map_values(|r: UvRequirement| r@)
}

/// The dependencies of one project: its base list and one ordered list per
/// extra, insertion order preserved.
#[derive(Debug)]
pub struct UvRequirements {
    pub dependencies: Vec<UvRequirement>,
    /// The optional-dependency groups, an insertion-ordered mapping from
    /// extra name to requirement list.
    pub optional_dependencies: Vec<ExtraEntry>,
}

} // verus!
