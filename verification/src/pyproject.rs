//! The manifest subset this core consumes, the raw override tables, and the
//! lowering of parsed requirements into canonical, provenance-tagged ones.

use vstd::prelude::*;
use crate::name::{PackageName, ExtraName};
use crate::marker::extras_view;
use crate::requirement::{Requirement, RequirementView, VerbatimUrl, Pep508Error,
    spec_parse_requirement};
use crate::uv_requirement::{UvRequirement, UvRequirementView, UvRequirements, UvSource,
    UvSourceView, GitVersion, GitVersionView, ExtraEntry, uv_from_requirement, reqs_view,
    groups_view};

verus! {

// ---------------------------------------------------------------------------
// Raw override sources.
// ---------------------------------------------------------------------------

/// The mathematical content of a raw override table: which keys were
/// written, and their values.
pub ghost struct SourceFieldsView {
    pub git: Option<Seq<char>>,
    pub rev: Option<Seq<char>>,
    pub tag: Option<Seq<char>>,
    pub branch: Option<Seq<char>>,
    pub url: Option<Seq<char>>,
    pub path: Option<Seq<char>>,
    pub index: Option<Seq<char>>,
    pub workspace: Option<bool>,
    pub editable: Option<bool>,
}

/// A raw override table, one field per recognized key, before any shape is
/// decided. This record is the one source of truth for the key set.
#[derive(Debug, Clone, Default)]
pub struct SourceFields {
    pub git: Option<String>,
    pub rev: Option<String>,
    pub tag: Option<String>,
    pub branch: Option<String>,
    pub url: Option<String>,
    pub path: Option<String>,
    pub index: Option<String>,
    pub workspace: Option<bool>,
    pub editable: Option<bool>,
}

/// The view of optional text.
pub open spec fn opt_str_view(v: &Option<String>) -> Option<Seq<char>> {
    match v {
        Option::None => None,
        Option::Some(t) => Some(t@),
    }
}

impl View for SourceFields {
    type V = SourceFieldsView;

    open spec fn view(&self) -> SourceFieldsView {
        SourceFieldsView {
            git: opt_str_view(&self.git),
            rev: opt_str_view(&self.rev),
            tag: opt_str_view(&self.tag),
            branch: opt_str_view(&self.branch),
            url: opt_str_view(&self.url),
            path: opt_str_view(&self.path),
            index: opt_str_view(&self.index),
            workspace: self.workspace,
            editable: self.editable,
        }
    }
}

/// The mathematical content of a recognized override.
pub ghost enum SourceView {
    Git {
        git: Seq<char>,
        rev: Option<Seq<char>>,
        tag: Option<Seq<char>>,
        branch: Option<Seq<char>>,
    },
    Url { url: Seq<char> },
    Path { path: Seq<char>, editable: Option<bool> },
    Registry { index: Seq<char> },
    Workspace { workspace: bool, editable: Option<bool> },
    CatchAll { fields: SourceFieldsView },
}

/// One recognized override shape, or the diagnostic-only `CatchAll` that a
/// conflicting key combination classifies into. `CatchAll` is never a legal
/// source: lowering rejects it with a conflict error naming the package.
#[derive(Debug, Clone)]
pub enum Source {
    /// A git repository, with at most one of `rev`, `tag`, `branch` —
    /// enforced at lowering, for a better error.
    Git { git: String, rev: Option<String>, tag: Option<String>, branch: Option<String> },
    /// A direct URL.
    Url { url: String },
    /// A local path; not editable unless said so.
    Path { path: String, editable: Option<bool> },
    /// A named registry index.
    Registry { index: String },
    /// A workspace member; editable unless said otherwise.
    Workspace { workspace: bool, editable: Option<bool> },
    /// A key combination that fits no shape, kept for a precise error.
    CatchAll { fields: SourceFields },
}

impl View for Source {
    type V = SourceView;

    open spec fn view(&self) -> SourceView {
        match self {
            Source::Git { git, rev, tag, branch } => SourceView::Git {
                git: git@,
                rev: opt_str_view(rev),
                tag: opt_str_view(tag),
                branch: opt_str_view(branch),
            },
            Source::Url { url } => SourceView::Url { url: url@ },
            Source::Path { path, editable } => SourceView::Path { path: path@, editable: *editable },
            Source::Registry { index } => SourceView::Registry { index: index@ },
            Source::Workspace { workspace, editable } => SourceView::Workspace {
                workspace: *workspace,
                editable: *editable,
            },
            Source::CatchAll { fields } => SourceView::CatchAll { fields: fields@ },
        }
    }
}

/// Which override shape a raw table has: exactly one key family may be
/// populated, else the table classifies as `CatchAll`.
pub open spec fn spec_classify(f: SourceFieldsView) -> SourceView {
    let git_keys = f.rev is Some || f.tag is Some || f.branch is Some;
    if f.git is Some && f.url is None && f.path is None && f.index is None && f.workspace is None
        && f.editable is None {
        SourceView::Git { git: f.git.unwrap(), rev: f.rev, tag: f.tag, branch: f.branch }
    } else if f.url is Some && f.git is None && !git_keys && f.path is None && f.index is None
        && f.workspace is None && f.editable is None {
        SourceView::Url { url: f.url.unwrap() }
    } else if f.path is Some && f.git is None && !git_keys && f.url is None && f.index is None
        && f.workspace is None {
        SourceView::Path { path: f.path.unwrap(), editable: f.editable }
    } else if f.index is Some && f.git is None && !git_keys && f.url is None && f.path is None
        && f.workspace is None && f.editable is None {
        SourceView::Registry { index: f.index.unwrap() }
    } else if f.workspace is Some && f.git is None && !git_keys && f.url is None && f.path is None
        && f.index is None {
        SourceView::Workspace { workspace: f.workspace.unwrap(), editable: f.editable }
    } else {
        SourceView::CatchAll { fields: f }
    }
}

impl Source {
    /// Decides which override shape a raw table has. A combination that
    /// fits no shape becomes the diagnostic `CatchAll`.
    pub fn from_fields(f: SourceFields) -> (r: Source)
        ensures
            r@ == spec_classify(f@),
    {
        let git_keys = f.rev.is_some() || f.tag.is_some() || f.branch.is_some();
        if f.git.is_some() && f.url.is_none() && f.path.is_none() && f.index.is_none()
            && f.workspace.is_none() && f.editable.is_none() {
            let SourceFields { git, rev, tag, branch, .. } = f;
            Source::Git { git: git.unwrap(), rev, tag, branch }
        } else if f.url.is_some() && f.git.is_none() && !git_keys && f.path.is_none()
            && f.index.is_none() && f.workspace.is_none() && f.editable.is_none() {
            Source::Url { url: f.url.unwrap() }
        } else if f.path.is_some() && f.git.is_none() && !git_keys && f.url.is_none()
            && f.index.is_none() && f.workspace.is_none() {
            let SourceFields { path, editable, .. } = f;
            Source::Path { path: path.unwrap(), editable }
        } else if f.index.is_some() && f.git.is_none() && !git_keys && f.url.is_none()
            && f.path.is_none() && f.workspace.is_none() && f.editable.is_none() {
            Source::Registry { index: f.index.unwrap() }
        } else if f.workspace.is_some() && f.git.is_none() && !git_keys && f.url.is_none()
            && f.path.is_none() && f.index.is_none() {
            let SourceFields { workspace, editable, .. } = f;
            Source::Workspace { workspace: workspace.unwrap(), editable }
        } else {
            Source::CatchAll { fields: f }
        }
    }
}

// ---------------------------------------------------------------------------
// Override maps: insertion-ordered association lists keyed by package name.
// ---------------------------------------------------------------------------

/// One package's override. An override map is an insertion-ordered
/// association list; lookups take the first entry under a name, so a later
/// entry under the same name is shadowed. A well-formed manifest holds each
/// name once.
pub type SourceEntry = (PackageName, Source);

/// One workspace member's local path, under the same first-entry-wins
/// reading as the override maps.
pub type MemberEntry = (PackageName, String);

/// Whether an association list holds each key at most once — the shape the
/// maps of a well-formed manifest have.
pub open spec fn distinct_keys<V>(m: Seq<(Seq<char>, V)>) -> bool {
    forall|i: int, j: int| 0 <= i < j < m.len() ==> m[i].0 != m[j].0
}

/// The view of an override map.
pub open spec fn sources_view(entries: Seq<SourceEntry>) -> Seq<(Seq<char>, SourceView)> {
    entries.map_values(|e: SourceEntry| (e.0@, e.1@))
}

/// The view of a workspace-membership map.
pub open spec fn members_view(entries: Seq<MemberEntry>) -> Seq<(Seq<char>, Seq<char>)> {
    entries.map_values(|e: MemberEntry| (e.0@, e.1@))
}

/// The first value an association list holds under a key, looked up from
/// position `i` on.
pub open spec fn assoc_get_from<V>(m: Seq<(Seq<char>, V)>, k: Seq<char>, i: int) -> Option<V>
    decreases m.len() - i,
{
    if !(0 <= i < m.len()) {
        None
    } else if m[i].0 == k {
        Some(m[i].1)
    } else {
        assoc_get_from(m, k, i + 1)
    }
}

/// The first value an association list holds under a key.
pub open spec fn assoc_get<V>(m: Seq<(Seq<char>, V)>, k: Seq<char>) -> Option<V> {
    assoc_get_from(m, k, 0)
}

/// Looks a package's override up.
fn source_for<'a>(entries: &'a Vec<SourceEntry>, key: &PackageName) -> (r: Option<&'a Source>)
    ensures
        match r {
            Some(src) => assoc_get(sources_view(entries@), key@) == Some(src@),
            None => assoc_get(sources_view(entries@), key@) is None,
        },
{
    let n = entries.len();
    let mut i: usize = 0;
    while i < n
        invariant
            0 <= i <= n,
            n == entries@.len(),
            assoc_get(sources_view(entries@), key@) == assoc_get_from(
                sources_view(entries@),
                key@,
                i as int,
            ),
        decreases n - i,
    {
        assert(sources_view(entries@)[i as int] == (entries@[i as int].0@, entries@[i as int].1@));
        if entries[i].0 == *key {
            return Some(&entries[i].1);
        }
        i = i + 1;
    }
    None
}

/// Looks a workspace member's path up.
fn member_for<'a>(entries: &'a Vec<MemberEntry>, key: &PackageName) -> (r: Option<&'a String>)
    ensures
        match r {
            Some(p) => assoc_get(members_view(entries@), key@) == Some(p@),
            None => assoc_get(members_view(entries@), key@) is None,
        },
{
    let n = entries.len();
    let mut i: usize = 0;
    while i < n
        invariant
            0 <= i <= n,
            n == entries@.len(),
            assoc_get(members_view(entries@), key@) == assoc_get_from(
                members_view(entries@),
                key@,
                i as int,
            ),
        decreases n - i,
    {
        assert(members_view(entries@)[i as int] == (entries@[i as int].0@, entries@[i as int].1@));
        if entries[i].0 == *key {
            return Some(&entries[i].1);
        }
        i = i + 1;
    }
    None
}

// ---------------------------------------------------------------------------
// Errors.
// ---------------------------------------------------------------------------

/// Which class a lowering failure falls in.
pub ghost enum LoweringErrorKind {
    /// Conflicting override keys, or more than one git reference selector.
    SourceConflict,
    /// A workspace member used without `workspace = true`, or a bare name
    /// with neither constraint nor override.
    Policy,
    /// An override shape this revision does not support.
    UnsupportedYet,
}

/// A failure to lower one requirement, attributed to its package.
#[derive(Debug)]
pub enum LoweringError {
    /// Conflicting override keys, or more than one git reference selector.
    SourceConflict { package: String },
    /// A workspace member used without `workspace = true`, or a bare name
    /// with neither constraint nor override.
    Policy { package: String },
    /// An override shape this revision does not support.
    UnsupportedYet { package: String },
}

/// The class of a lowering error.
pub open spec fn lowering_kind(e: &LoweringError) -> LoweringErrorKind {
    match e {
        LoweringError::SourceConflict { .. } => LoweringErrorKind::SourceConflict,
        LoweringError::Policy { .. } => LoweringErrorKind::Policy,
        LoweringError::UnsupportedYet { .. } => LoweringErrorKind::UnsupportedYet,
    }
}

/// The package a lowering error is attributed to.
pub open spec fn lowering_package(e: &LoweringError) -> Seq<char> {
    match e {
        LoweringError::SourceConflict { package } => package@,
        LoweringError::Policy { package } => package@,
        LoweringError::UnsupportedYet { package } => package@,
    }
}

// ---------------------------------------------------------------------------
// Lowering one requirement.
// ---------------------------------------------------------------------------

/// The override a package resolves through: the project map takes
/// precedence over the workspace map.
pub open spec fn override_of(
    name: Seq<char>,
    ps: Seq<(Seq<char>, SourceView)>,
    ws: Seq<(Seq<char>, SourceView)>,
) -> Option<SourceView> {
    match assoc_get(ps, name) {
        Some(s) => Some(s),
        None => assoc_get(ws, name),
    }
}

/// Whether an override is `Workspace` with `workspace = true`.
pub open spec fn is_workspace_true(s: Option<SourceView>) -> bool {
    match s {
        Some(SourceView::Workspace { workspace, .. }) => workspace,
        _ => false,
    }
}

/// At most one of `rev`, `tag`, `branch` may select a git reference; two or
/// more are a conflict.
pub open spec fn git_selector(
    rev: Option<Seq<char>>,
    tag: Option<Seq<char>>,
    branch: Option<Seq<char>>,
) -> Result<Option<GitVersionView>, LoweringErrorKind> {
    match (rev, tag, branch) {
        (Option::None, Option::None, Option::None) => Ok(None),
        (Option::Some(r), Option::None, Option::None) => Ok(Some(GitVersionView::Rev(r))),
        (Option::None, Option::Some(t), Option::None) => Ok(Some(GitVersionView::Tag(t))),
        (Option::None, Option::None, Option::Some(b)) => Ok(Some(GitVersionView::Branch(b))),
        _ => Err(LoweringErrorKind::SourceConflict),
    }
}

/// What lowering one parsed requirement against the override maps yields:
/// the canonical requirement, or the class of error. A known workspace
/// member must resolve through `workspace = true`; a bare name needs an
/// override or a constraint; a `workspace = true` override resolves to the
/// member's local path.
pub open spec fn spec_lower(
    rv: RequirementView,
    ps: Seq<(Seq<char>, SourceView)>,
    ws: Seq<(Seq<char>, SourceView)>,
    wp: Seq<(Seq<char>, Seq<char>)>,
) -> Result<UvRequirementView, LoweringErrorKind> {
    let src = override_of(rv.name, ps, ws);
    if !is_workspace_true(src) && assoc_get(wp, rv.name) is Some {
        Err(LoweringErrorKind::Policy)
    } else {
        match src {
            None => if rv.version_or_url is None {
                Err(LoweringErrorKind::Policy)
            } else {
                Ok(uv_from_requirement(rv))
            },
            Some(SourceView::Git { git, rev, tag, branch }) => match git_selector(
                rev,
                tag,
                branch,
            ) {
                Err(k) => Err(k),
                Ok(sel) => Ok(
                    UvRequirementView {
                        name: rv.name,
                        extras: rv.extras,
                        marker: rv.marker,
                        source: UvSourceView::Git { git, version: sel },
                    },
                ),
            },
            Some(SourceView::Url { url }) => Ok(
                UvRequirementView {
                    name: rv.name,
                    extras: rv.extras,
                    marker: rv.marker,
                    source: UvSourceView::Url { url },
                },
            ),
            Some(SourceView::Path { .. }) => Err(LoweringErrorKind::UnsupportedYet),
            Some(SourceView::Registry { .. }) => Err(LoweringErrorKind::UnsupportedYet),
            Some(SourceView::Workspace { workspace, .. }) => if workspace {
                match assoc_get(wp, rv.name) {
                    Some(p) => Ok(
                        UvRequirementView {
                            name: rv.name,
                            extras: rv.extras,
                            marker: rv.marker,
                            source: UvSourceView::Path { path: p },
                        },
                    ),
                    None => Err(LoweringErrorKind::Policy),
                }
            } else {
                Err(LoweringErrorKind::Policy)
            },
            Some(SourceView::CatchAll { .. }) => Err(LoweringErrorKind::SourceConflict),
        }
    }
}

/// Combines one parsed requirement with the override tables into one
/// canonical requirement, enforcing provenance policy. Never a partial
/// result: the canonical requirement, or one error attributed to the
/// package.
pub fn lower_requirement(
    requirement: Requirement,
    project_sources: &Vec<SourceEntry>,
    workspace_sources: &Vec<SourceEntry>,
    workspace_packages: &Vec<MemberEntry>,
) -> (r: Result<UvRequirement, LoweringError>)
    ensures
        match r {
            Ok(u) => spec_lower(
                requirement@,
                sources_view(project_sources@),
                sources_view(workspace_sources@),
                members_view(workspace_packages@),
            ) == Ok::<UvRequirementView, LoweringErrorKind>(u@),
            Err(e) => spec_lower(
                requirement@,
                sources_view(project_sources@),
                sources_view(workspace_sources@),
                members_view(workspace_packages@),
            ) == Err::<UvRequirementView, LoweringErrorKind>(lowering_kind(&e))
                && lowering_package(&e) == requirement@.name,
        },
{
    let pkg = requirement.name.as_str().to_owned();
    let src: Option<&Source> = match source_for(project_sources, &requirement.name) {
        Some(s) => Some(s),
        None => source_for(workspace_sources, &requirement.name),
    };
    let ws_true = match src {
        Some(Source::Workspace { workspace, .. }) => *workspace,
        _ => false,
    };
    if !ws_true {
        if member_for(workspace_packages, &requirement.name).is_some() {
            return Err(LoweringError::Policy { package: pkg });
        }
    }
    match src {
        None => {
            if requirement.version_or_url.is_none() {
                Err(LoweringError::Policy { package: pkg })
            } else {
                Ok(UvRequirement::from_requirement(requirement))
            }
        },
        Some(Source::Git { git, rev, tag, branch }) => {
            let sel: Option<GitVersion> = match (rev, tag, branch) {
                (Option::None, Option::None, Option::None) => None,
                (Option::Some(rv), Option::None, Option::None) => Some(GitVersion::Rev(rv.clone())),
                (Option::None, Option::Some(t), Option::None) => Some(GitVersion::Tag(t.clone())),
                (Option::None, Option::None, Option::Some(b)) => Some(
                    GitVersion::Branch(b.clone()),
                ),
                _ => {
                    return Err(LoweringError::SourceConflict { package: pkg });
                },
            };
            let git_url = VerbatimUrl::from_text(git.as_str());
            Ok(
                UvRequirement {
                    name: requirement.name,
                    extras: requirement.extras,
                    marker: requirement.marker,
                    source: UvSource::Git { git: git_url, version: sel },
                },
            )
        },
        Some(Source::Url { url }) => {
            let u = VerbatimUrl::from_text(url.as_str());
            Ok(
                UvRequirement {
                    name: requirement.name,
                    extras: requirement.extras,
                    marker: requirement.marker,
                    source: UvSource::Url { url: u },
                },
            )
        },
        Some(Source::Path { .. }) => Err(LoweringError::UnsupportedYet { package: pkg }),
        Some(Source::Registry { .. }) => Err(LoweringError::UnsupportedYet { package: pkg }),
        Some(Source::Workspace { workspace, .. }) => {
            if *workspace {
                match member_for(workspace_packages, &requirement.name) {
                    Some(p) => {
                        let path = p.clone();
                        Ok(
                            UvRequirement {
                                name: requirement.name,
                                extras: requirement.extras,
                                marker: requirement.marker,
                                source: UvSource::Path { path },
                            },
                        )
                    },
                    None => Err(LoweringError::Policy { package: pkg }),
                }
            } else {
                Err(LoweringError::Policy { package: pkg })
            }
        },
        Some(Source::CatchAll { .. }) => Err(LoweringError::SourceConflict { package: pkg }),
    }
}

// ---------------------------------------------------------------------------
// Extras flattening.
// ---------------------------------------------------------------------------

/// Whether one of the seen names is `x` (same membership as for extras).
pub open spec fn names_have(seen: Seq<Seq<char>>, x: Seq<char>) -> bool {
    crate::marker::extras_have(seen, x)
}

/// How many groups have a key not seen yet. The measure that shrinks every
/// time the flattener descends into a group.
pub open spec fn unseen_count(
    groups: Seq<(Seq<char>, Seq<UvRequirementView>)>,
    seen: Seq<Seq<char>>,
) -> nat
    decreases groups.len(),
{
    if groups.len() == 0 {
        0
    } else {
        (if names_have(seen, groups[0].0) {
            0nat
        } else {
            1nat
        }) + unseen_count(groups.skip(1), seen)
    }
}

/// Membership after marking one more name.
pub proof fn lemma_names_have_push(seen: Seq<Seq<char>>, e: Seq<char>, k: Seq<char>)
    ensures
        names_have(seen.push(e), k) <==> (names_have(seen, k) || k == e),
{
    if names_have(seen, k) {
        let i = choose|i: int| 0 <= i < seen.len() && seen[i] == k;
        assert(seen.push(e)[i] == k);
    }
    if k == e {
        assert(seen.push(e)[seen.len() as int] == e);
    }
    if names_have(seen.push(e), k) && k != e {
        let i = choose|i: int| 0 <= i < seen.push(e).len() && seen.push(e)[i] == k;
        assert(seen[i] == k);
    }
}

/// Marking a name never makes more groups unseen.
pub proof fn lemma_unseen_push(
    groups: Seq<(Seq<char>, Seq<UvRequirementView>)>,
    seen: Seq<Seq<char>>,
    e: Seq<char>,
)
    ensures
        unseen_count(groups, seen.push(e)) <= unseen_count(groups, seen),
    decreases groups.len(),
{
    if groups.len() > 0 {
        lemma_names_have_push(seen, e, groups[0].0);
        lemma_unseen_push(groups.skip(1), seen, e);
    }
}

/// Marking the key of an unseen group strictly shrinks the measure.
pub proof fn lemma_unseen_push_strict(
    groups: Seq<(Seq<char>, Seq<UvRequirementView>)>,
    seen: Seq<Seq<char>>,
    e: Seq<char>,
)
    requires
        exists|i: int| 0 <= i < groups.len() && groups[i].0 == e,
        !names_have(seen, e),
    ensures
        unseen_count(groups, seen.push(e)) < unseen_count(groups, seen),
    decreases groups.len(),
{
    lemma_names_have_push(seen, e, groups[0].0);
    if groups[0].0 == e {
        lemma_unseen_push(groups.skip(1), seen, e);
    } else {
        let i = choose|i: int| 0 <= i < groups.len() && groups[i].0 == e;
        assert(groups.skip(1)[i - 1] == groups[i]);
        lemma_unseen_push_strict(groups.skip(1), seen, e);
    }
}

/// A key an association list answers for occurs in it.
pub proof fn lemma_assoc_witness<V>(m: Seq<(Seq<char>, V)>, k: Seq<char>, i: int)
    requires
        assoc_get_from(m, k, i) is Some,
        0 <= i,
    ensures
        exists|j: int| 0 <= j < m.len() && m[j].0 == k,
    decreases m.len() - i,
{
    if i < m.len() && m[i].0 != k {
        lemma_assoc_witness(m, k, i + 1);
    }
}

/// The flattening of the requirements `reqs[i..]`: a requirement naming the
/// project itself expands into the groups its extras name; every other
/// requirement is kept unchanged. `seen` threads the extras already
/// expanded. The fallbacks taken when a recursive call would not shrink the
/// measure only justify termination; no flattening ever takes them.
pub open spec fn flat_from(
    project: Seq<char>,
    reqs: Seq<UvRequirementView>,
    groups: Seq<(Seq<char>, Seq<UvRequirementView>)>,
    seen: Seq<Seq<char>>,
    i: int,
) -> (Seq<UvRequirementView>, Seq<Seq<char>>)
    decreases unseen_count(groups, seen), 1int, reqs.len() - i,
{
    if !(0 <= i < reqs.len()) {
        (Seq::empty(), seen)
    } else {
        let r = reqs[i];
        if r.name == project {
            let expanded = flat_extras(project, r.extras, groups, seen, 0);
            let seen1 = if unseen_count(groups, expanded.1) <= unseen_count(groups, seen) {
                expanded.1
            } else {
                seen
            };
            let rest = flat_from(project, reqs, groups, seen1, i + 1);
            (expanded.0 + rest.0, rest.1)
        } else {
            let rest = flat_from(project, reqs, groups, seen, i + 1);
            (seq![r] + rest.0, rest.1)
        }
    }
}

/// The expansion of the extras `exs[j..]` of one self-referential
/// requirement: an unseen extra is marked and, when it names a group, that
/// group is flattened in place; a seen extra is skipped, which breaks
/// mutual recursion.
pub open spec fn flat_extras(
    project: Seq<char>,
    exs: Seq<Seq<char>>,
    groups: Seq<(Seq<char>, Seq<UvRequirementView>)>,
    seen: Seq<Seq<char>>,
    j: int,
) -> (Seq<UvRequirementView>, Seq<Seq<char>>)
    decreases unseen_count(groups, seen), 0int, exs.len() - j,
    via flat_extras_decreases
{
    if !(0 <= j < exs.len()) {
        (Seq::empty(), seen)
    } else {
        let e = exs[j];
        if names_have(seen, e) {
            flat_extras(project, exs, groups, seen, j + 1)
        } else {
            let seen1 = seen.push(e);
            match assoc_get(groups, e) {
                Some(greqs) => {
                    let expanded = flat_from(project, greqs, groups, seen1, 0);
                    let seen2 = if unseen_count(groups, expanded.1) < unseen_count(groups, seen) {
                        expanded.1
                    } else {
                        seen1
                    };
                    let rest = flat_extras(project, exs, groups, seen2, j + 1);
                    (expanded.0 + rest.0, rest.1)
                },
                None => {
                    let seen2 = if unseen_count(groups, seen1) <= unseen_count(groups, seen) {
                        seen1
                    } else {
                        seen
                    };
                    flat_extras(project, exs, groups, seen2, j + 1)
                },
            }
        }
    }
}

#[via_fn]
proof fn flat_extras_decreases(
    project: Seq<char>,
    exs: Seq<Seq<char>>,
    groups: Seq<(Seq<char>, Seq<UvRequirementView>)>,
    seen: Seq<Seq<char>>,
    j: int,
) {
    if 0 <= j < exs.len() {
        let e = exs[j];
        if !names_have(seen, e) {
            lemma_unseen_push(groups, seen, e);
            if assoc_get(groups, e) is Some {
                lemma_assoc_witness(groups, e, 0);
                lemma_unseen_push_strict(groups, seen, e);
            }
        }
    }
}

/// The flattening of a whole requirement list, nothing seen yet.
pub open spec fn spec_flatten_extra(
    project: Seq<char>,
    reqs: Seq<UvRequirementView>,
    groups: Seq<(Seq<char>, Seq<UvRequirementView>)>,
) -> Seq<UvRequirementView> {
    flat_from(project, reqs, groups, Seq::empty(), 0).0
}

/// Whether a seen-list holds the given extra.
fn seen_has(seen: &Vec<ExtraName>, e: &ExtraName) -> (r: bool)
    ensures
        r == names_have(extras_view(seen@), e@),
{
    let n = seen.len();
    let mut i: usize = 0;
    while i < n
        invariant
            0 <= i <= n,
            n == seen@.len(),
            forall|k: int| 0 <= k < i ==> extras_view(seen@)[k] != e@,
        decreases n - i,
    {
        assert(extras_view(seen@)[i as int] == seen@[i as int]@);
        if seen[i] == *e {
            return true;
        }
        i = i + 1;
    }
    false
}

/// Looks an extra's group up.
fn group_for<'a>(groups: &'a Vec<ExtraEntry>, key: &ExtraName) -> (r: Option<
    &'a Vec<UvRequirement>,
>)
    ensures
        match r {
            Some(g) => assoc_get(groups_view(groups@), key@) == Some(reqs_view(g@)),
            None => assoc_get(groups_view(groups@), key@) is None,
        },
{
    let n = groups.len();
    let mut i: usize = 0;
    while i < n
        invariant
            0 <= i <= n,
            n == groups@.len(),
            assoc_get(groups_view(groups@), key@) == assoc_get_from(
                groups_view(groups@),
                key@,
                i as int,
            ),
        decreases n - i,
    {
        assert(groups_view(groups@)[i as int] == (
            groups@[i as int].0@,
            reqs_view(groups@[i as int].1@),
        ));
        if groups[i].0 == *key {
            return Some(&groups[i].1);
        }
        i = i + 1;
    }
    None
}

/// Flattens `reqs[i..]` into `out`, threading `seen`.
fn flatten_reqs_from(
    project: &PackageName,
    reqs: &Vec<UvRequirement>,
    i: usize,
    groups: &Vec<ExtraEntry>,
    seen: &mut Vec<ExtraName>,
    out: &mut Vec<UvRequirement>,
)
    requires
        i <= reqs@.len(),
    ensures
        ({
            let spec_result = flat_from(
                project@,
                reqs_view(reqs@),
                groups_view(groups@),
                extras_view(old(seen)@),
                i as int,
            );
            &&& reqs_view(final(out)@) == reqs_view(old(out)@) + spec_result.0
            &&& extras_view(final(seen)@) == spec_result.1
            &&& unseen_count(groups_view(groups@), extras_view(final(seen)@)) <= unseen_count(
                groups_view(groups@),
                extras_view(old(seen)@),
            )
        }),
    decreases unseen_count(groups_view(groups@), extras_view(seen@)), 1int, reqs@.len() - i,
{
    if i == reqs.len() {
        assert(reqs_view(out@) + Seq::<UvRequirementView>::empty() =~= reqs_view(out@));
        return;
    }
    assert(reqs_view(reqs@)[i as int] == reqs@[i as int]@);
    let is_self = reqs[i].name == *project;
    if is_self {
        flatten_extras_from(project, &reqs[i].extras, 0, groups, seen, out);
        let ghost mid_out = reqs_view(out@);
        flatten_reqs_from(project, reqs, i + 1, groups, seen, out);
        proof {
            let gv = groups_view(groups@);
            let rv = reqs_view(reqs@);
            let expanded = flat_extras(project@, rv[i as int].extras, gv, extras_view(
                old(seen)@,
            ), 0);
            let rest = flat_from(project@, rv, gv, expanded.1, i + 1);
            assert(reqs_view(out@) =~= reqs_view(old(out)@) + (expanded.0 + rest.0));
        }
    } else {
        let item = reqs[i].clone();
        let ghost itemv = item@;
        out.push(item);
        proof {
            assert(reqs_view(out@) =~= reqs_view(old(out)@).push(itemv));
        }
        flatten_reqs_from(project, reqs, i + 1, groups, seen, out);
        proof {
            let gv = groups_view(groups@);
            let rv = reqs_view(reqs@);
            let rest = flat_from(project@, rv, gv, extras_view(old(seen)@), i + 1);
            assert(reqs_view(out@) =~= reqs_view(old(out)@) + (seq![itemv] + rest.0));
        }
    }
}

/// Expands the extras `exs[j..]` of one self-referential requirement.
fn flatten_extras_from(
    project: &PackageName,
    exs: &Vec<ExtraName>,
    j: usize,
    groups: &Vec<ExtraEntry>,
    seen: &mut Vec<ExtraName>,
    out: &mut Vec<UvRequirement>,
)
    requires
        j <= exs@.len(),
    ensures
        ({
            let spec_result = flat_extras(
                project@,
                extras_view(exs@),
                groups_view(groups@),
                extras_view(old(seen)@),
                j as int,
            );
            &&& reqs_view(final(out)@) == reqs_view(old(out)@) + spec_result.0
            &&& extras_view(final(seen)@) == spec_result.1
            &&& unseen_count(groups_view(groups@), extras_view(final(seen)@)) <= unseen_count(
                groups_view(groups@),
                extras_view(old(seen)@),
            )
        }),
    decreases unseen_count(groups_view(groups@), extras_view(seen@)), 0int, exs@.len() - j,
{
    if j == exs.len() {
        assert(reqs_view(out@) + Seq::<UvRequirementView>::empty() =~= reqs_view(out@));
        return;
    }
    assert(extras_view(exs@)[j as int] == exs@[j as int]@);
    if seen_has(seen, &exs[j]) {
        flatten_extras_from(project, exs, j + 1, groups, seen, out);
        return;
    }
    let e = exs[j].clone();
    let ghost ev = e@;
    let ghost seen0 = extras_view(seen@);
    seen.push(e);
    proof {
        assert(extras_view(seen@) =~= seen0.push(ev));
        lemma_unseen_push(groups_view(groups@), seen0, ev);
    }
    match group_for(groups, &exs[j]) {
        Some(g) => {
            proof {
                lemma_assoc_witness(groups_view(groups@), ev, 0);
                lemma_unseen_push_strict(groups_view(groups@), seen0, ev);
            }
            flatten_reqs_from(project, g, 0, groups, seen, out);
            flatten_extras_from(project, exs, j + 1, groups, seen, out);
            proof {
                let gv = groups_view(groups@);
                let xv = extras_view(exs@);
                let expanded = flat_from(project@, assoc_get(gv, ev).unwrap(), gv, seen0.push(
                    ev,
                ), 0);
                let rest = flat_extras(project@, xv, gv, expanded.1, j + 1);
                assert(reqs_view(out@) =~= reqs_view(old(out)@) + (expanded.0 + rest.0));
            }
        },
        None => {
            flatten_extras_from(project, exs, j + 1, groups, seen, out);
        },
    }
}

/// Flattens an optional-dependency group of the project itself: a
/// requirement naming the project expands, depth first, into the groups its
/// extras name; an already-expanded extra is skipped rather than followed
/// again, so mutually referential extras terminate; every other requirement
/// is kept, unchanged and without deduplication, in first-seen depth-first
/// order.
pub fn flatten_extra(
    project_name: &PackageName,
    requirements: &Vec<UvRequirement>,
    extras: &Vec<ExtraEntry>,
) -> (r: Vec<UvRequirement>)
    requires
        distinct_keys(groups_view(extras@)),
    ensures
        reqs_view(r@) == spec_flatten_extra(
            project_name@,
            reqs_view(requirements@),
            groups_view(extras@),
        ),
{
    let mut seen: Vec<ExtraName> = Vec::new();
    let mut out: Vec<UvRequirement> = Vec::new();
    proof {
        assert(extras_view(seen@) =~= Seq::<Seq<char>>::empty());
        assert(reqs_view(out@) =~= Seq::<UvRequirementView>::empty());
    }
    flatten_reqs_from(project_name, requirements, 0, extras, &mut seen, &mut out);
    proof {
        assert(Seq::<UvRequirementView>::empty() + spec_flatten_extra(
            project_name@,
            reqs_view(requirements@),
            groups_view(extras@),
        ) =~= spec_flatten_extra(project_name@, reqs_view(requirements@), groups_view(extras@)));
    }
    out
}

// ---------------------------------------------------------------------------
// The manifest subset and lowering of whole dependency lists.
// ---------------------------------------------------------------------------

/// Which extras were requested: none, all of them, or a list.
#[derive(Debug)]
pub enum ExtrasSpecification {
    /// No extras requested.
    NoneRequested,
    /// Every extra the project declares.
    All,
    /// Exactly the listed extras.
    Listed(Vec<ExtraName>),
}

/// Whether a request names no extra at all.
pub open spec fn es_is_empty(es: &ExtrasSpecification) -> bool {
    match es {
        ExtrasSpecification::NoneRequested => true,
        ExtrasSpecification::All => false,
        ExtrasSpecification::Listed(v) => v@.len() == 0,
    }
}

/// Whether a request covers the given extra.
pub open spec fn es_contains(es: &ExtrasSpecification, x: Seq<char>) -> bool {
    match es {
        ExtrasSpecification::NoneRequested => false,
        ExtrasSpecification::All => true,
        ExtrasSpecification::Listed(v) => names_have(extras_view(v@), x),
    }
}

impl ExtrasSpecification {
    /// Whether no extra at all was requested.
    pub fn is_empty(&self) -> (r: bool)
        ensures
            r == es_is_empty(self),
    {
        match self {
            ExtrasSpecification::NoneRequested => true,
            ExtrasSpecification::All => false,
            ExtrasSpecification::Listed(v) => v.len() == 0,
        }
    }

    /// Whether the request covers the given extra.
    pub fn contains(&self, extra: &ExtraName) -> (r: bool)
        ensures
            r == es_contains(self, extra@),
    {
        match self {
            ExtrasSpecification::NoneRequested => false,
            ExtrasSpecification::All => true,
            ExtrasSpecification::Listed(v) => seen_has(v, extra),
        }
    }
}

/// A workspace member pattern, kept as its text.
#[derive(Debug, Clone)]
pub struct SerdePattern(pub String);

impl View for SerdePattern {
    type V = Seq<char>;

    open spec fn view(&self) -> Seq<char> {
        self.0@
    }
}

impl SerdePattern {
    /// The pattern text.
    pub fn as_str(&self) -> (r: &str)
        ensures
            r@ == self@,
    {
        self.0.as_str()
    }
}

/// The workspace table of a manifest: member and exclusion patterns.
#[derive(Debug)]
pub struct UvWorkspace {
    pub members: Option<Vec<SerdePattern>>,
    pub exclude: Option<Vec<SerdePattern>>,
}

/// The tool-specific additions of a manifest: per-package override sources
/// and the workspace table.
#[derive(Debug)]
pub struct Uv {
    pub sources: Option<Vec<SourceEntry>>,
    pub workspace: Option<UvWorkspace>,
}

/// The tool table of a manifest.
#[derive(Debug)]
pub struct Tool {
    pub uv: Option<Uv>,
}

/// One extra's raw dependency strings.
pub type RawGroup = (ExtraName, Vec<String>);

/// The project metadata subset consumed here: name, dependency strings,
/// optional-dependency strings, and which fields were left dynamic.
#[derive(Debug)]
pub struct Project {
    /// The name of the project.
    pub name: PackageName,
    /// Project dependencies.
    pub dependencies: Option<Vec<String>>,
    /// Optional dependencies, one ordered group per extra.
    pub optional_dependencies: Option<Vec<RawGroup>>,
    /// Fields another tool will provide dynamically.
    pub dynamic: Option<Vec<String>>,
}

/// A manifest: optional project metadata, optional tool additions.
#[derive(Debug)]
pub struct PyProjectToml {
    /// Project metadata.
    pub project: Option<Project>,
    /// Tool additions.
    pub tool: Option<Tool>,
}

/// A failure to extract or lower a manifest's requirements.
#[derive(Debug)]
pub enum Pep621Error {
    /// A dependency string is not a well-formed requirement.
    Pep508(Pep508Error),
    /// Overrides exist but the named manifest entry is missing or dynamic.
    MissingEntry(String),
    /// A dependency could not be lowered.
    Lowering(LoweringError),
}

/// Which class an extraction failure falls in, and what it is attributed
/// to: a grammar error carries the dependency text that failed, a lowering
/// error the package it failed for, a missing entry its name.
pub ghost enum Pep621ErrorKind {
    Pep508(Seq<char>),
    MissingEntry(Seq<char>),
    Lowering(LoweringErrorKind, Seq<char>),
}

/// The class and attribution of an extraction failure.
pub open spec fn pep621_kind(e: &Pep621Error) -> Pep621ErrorKind {
    match e {
        Pep621Error::Pep508(pe) => Pep621ErrorKind::Pep508(pe.input@),
        Pep621Error::MissingEntry(t) => Pep621ErrorKind::MissingEntry(t@),
        Pep621Error::Lowering(le) => Pep621ErrorKind::Lowering(
            lowering_kind(le),
            lowering_package(le),
        ),
    }
}

/// The views of a list of dependency strings.
pub open spec fn strings_view(v: Seq<String>) -> Seq<Seq<char>> {
    v.map_values(|s: String| s@)
}

/// The views of raw optional-dependency groups.
pub open spec fn raw_groups_view(g: Seq<RawGroup>) -> Seq<(Seq<char>, Seq<Seq<char>>)> {
    g.map_values(|e: RawGroup| (e.0@, strings_view(e.1@)))
}

/// Parsing and lowering of the dependency strings `deps[i..]`: every string
/// must parse and lower; the first failure wins.
pub open spec fn spec_lower_all(
    deps: Seq<Seq<char>>,
    ps: Seq<(Seq<char>, SourceView)>,
    ws: Seq<(Seq<char>, SourceView)>,
    wp: Seq<(Seq<char>, Seq<char>)>,
    i: int,
) -> Result<Seq<UvRequirementView>, Pep621ErrorKind>
    decreases deps.len() - i,
{
    if !(0 <= i < deps.len()) {
        Ok(Seq::empty())
    } else {
        match spec_parse_requirement(deps[i]) {
            None => Err(Pep621ErrorKind::Pep508(deps[i])),
            Some(rv) => match spec_lower(rv, ps, ws, wp) {
                Err(k) => Err(Pep621ErrorKind::Lowering(k, rv.name)),
                Ok(u) => match spec_lower_all(deps, ps, ws, wp, i + 1) {
                    Err(k) => Err(k),
                    Ok(rest) => Ok(seq![u] + rest),
                },
            },
        }
    }
}

/// Parsing and lowering of the optional-dependency groups `groups[i..]`.
pub open spec fn spec_lower_groups(
    groups: Seq<(Seq<char>, Seq<Seq<char>>)>,
    ps: Seq<(Seq<char>, SourceView)>,
    ws: Seq<(Seq<char>, SourceView)>,
    wp: Seq<(Seq<char>, Seq<char>)>,
    i: int,
) -> Result<Seq<(Seq<char>, Seq<UvRequirementView>)>, Pep621ErrorKind>
    decreases groups.len() - i,
{
    if !(0 <= i < groups.len()) {
        Ok(Seq::empty())
    } else {
        match spec_lower_all(groups[i].1, ps, ws, wp, 0) {
            Err(k) => Err(k),
            Ok(reqs) => match spec_lower_groups(groups, ps, ws, wp, i + 1) {
                Err(k) => Err(k),
                Ok(rest) => Ok(seq![(groups[i].0, reqs)] + rest),
            },
        }
    }
}

/// Lowers one list of dependency strings.
fn lower_dep_list(
    deps: &Vec<String>,
    project_sources: &Vec<SourceEntry>,
    workspace_sources: &Vec<SourceEntry>,
    workspace_packages: &Vec<MemberEntry>,
) -> (r: Result<Vec<UvRequirement>, Pep621Error>)
    ensures
        match r {
            Ok(v) => spec_lower_all(
                strings_view(deps@),
                sources_view(project_sources@),
                sources_view(workspace_sources@),
                members_view(workspace_packages@),
                0,
            ) == Ok::<Seq<UvRequirementView>, Pep621ErrorKind>(reqs_view(v@)),
            Err(e) => spec_lower_all(
                strings_view(deps@),
                sources_view(project_sources@),
                sources_view(workspace_sources@),
                members_view(workspace_packages@),
                0,
            ) == Err::<Seq<UvRequirementView>, Pep621ErrorKind>(pep621_kind(&e)),
        },
{
    let ghost dv = strings_view(deps@);
    let ghost psv = sources_view(project_sources@);
    let ghost wsv = sources_view(workspace_sources@);
    let ghost wpv = members_view(workspace_packages@);
    let n = deps.len();
    let mut out: Vec<UvRequirement> = Vec::new();
    let mut i: usize = 0;
    while i < n
        invariant
            0 <= i <= n,
            n == deps@.len(),
            dv == strings_view(deps@),
            psv == sources_view(project_sources@),
            wsv == sources_view(workspace_sources@),
            wpv == members_view(workspace_packages@),
            match spec_lower_all(dv, psv, wsv, wpv, i as int) {
                Ok(rest) => spec_lower_all(dv, psv, wsv, wpv, 0) == Ok::<
                    Seq<UvRequirementView>,
                    Pep621ErrorKind,
                >(reqs_view(out@) + rest),
                Err(k) => spec_lower_all(dv, psv, wsv, wpv, 0) == Err::<
                    Seq<UvRequirementView>,
                    Pep621ErrorKind,
                >(k),
            },
        decreases n - i,
    {
        assert(dv[i as int] == deps@[i as int]@);
        let parsed = match Requirement::parse(deps[i].as_str()) {
            Ok(req) => req,
            Err(pe) => {
                return Err(Pep621Error::Pep508(pe));
            },
        };
        let lowered = match lower_requirement(
            parsed,
            project_sources,
            workspace_sources,
            workspace_packages,
        ) {
            Ok(u) => u,
            Err(le) => {
                return Err(Pep621Error::Lowering(le));
            },
        };
        let ghost prev = reqs_view(out@);
        let ghost lv = lowered@;
        out.push(lowered);
        proof {
            assert(reqs_view(out@) =~= prev.push(lv));
            let restopt = spec_lower_all(dv, psv, wsv, wpv, i + 1);
            if restopt is Ok {
                let rest = restopt->Ok_0;
                assert(prev + (seq![lv] + rest) =~= reqs_view(out@) + rest);
            }
        }
        i = i + 1;
    }
    proof {
        assert(reqs_view(out@) + Seq::<UvRequirementView>::empty() =~= reqs_view(out@));
    }
    Ok(out)
}

/// Lowers the base dependencies and every optional-dependency group against
/// the override tables.
pub fn lower_requirements(
    dependencies: &Vec<String>,
    optional_dependencies: &Vec<RawGroup>,
    project_sources: &Vec<SourceEntry>,
    workspace_sources: &Vec<SourceEntry>,
    workspace_packages: &Vec<MemberEntry>,
) -> (r: Result<UvRequirements, Pep621Error>)
    ensures
        match r {
            Ok(u) => spec_lower_all(
                strings_view(dependencies@),
                sources_view(project_sources@),
                sources_view(workspace_sources@),
                members_view(workspace_packages@),
                0,
            ) == Ok::<Seq<UvRequirementView>, Pep621ErrorKind>(reqs_view(u.dependencies@))
                && spec_lower_groups(
                raw_groups_view(optional_dependencies@),
                sources_view(project_sources@),
                sources_view(workspace_sources@),
                members_view(workspace_packages@),
                0,
            ) == Ok::<Seq<(Seq<char>, Seq<UvRequirementView>)>, Pep621ErrorKind>(
                groups_view(u.optional_dependencies@),
            ),
            Err(e) => spec_lower_all(
                strings_view(dependencies@),
                sources_view(project_sources@),
                sources_view(workspace_sources@),
                members_view(workspace_packages@),
                0,
            ) == Err::<Seq<UvRequirementView>, Pep621ErrorKind>(pep621_kind(&e)) || (
            spec_lower_all(
                strings_view(dependencies@),
                sources_view(project_sources@),
                sources_view(workspace_sources@),
                members_view(workspace_packages@),
                0,
            ) is Ok && spec_lower_groups(
                raw_groups_view(optional_dependencies@),
                sources_view(project_sources@),
                sources_view(workspace_sources@),
                members_view(workspace_packages@),
                0,
            ) == Err::<Seq<(Seq<char>, Seq<UvRequirementView>)>, Pep621ErrorKind>(
                pep621_kind(&e),
            )),
        },
{
    let ghost psv = sources_view(project_sources@);
    let ghost wsv = sources_view(workspace_sources@);
    let ghost wpv = members_view(workspace_packages@);
    let ghost gv = raw_groups_view(optional_dependencies@);
    let base = match lower_dep_list(
        dependencies,
        project_sources,
        workspace_sources,
        workspace_packages,
    ) {
        Ok(v) => v,
        Err(e) => {
            return Err(e);
        },
    };
    let n = optional_dependencies.len();
    let mut groups: Vec<ExtraEntry> = Vec::new();
    let mut i: usize = 0;
    while i < n
        invariant
            0 <= i <= n,
            n == optional_dependencies@.len(),
            gv == raw_groups_view(optional_dependencies@),
            psv == sources_view(project_sources@),
            wsv == sources_view(workspace_sources@),
            wpv == members_view(workspace_packages@),
            spec_lower_all(strings_view(dependencies@), psv, wsv, wpv, 0) == Ok::<
                Seq<UvRequirementView>,
                Pep621ErrorKind,
            >(reqs_view(base@)),
            match spec_lower_groups(gv, psv, wsv, wpv, i as int) {
                Ok(rest) => spec_lower_groups(gv, psv, wsv, wpv, 0) == Ok::<
                    Seq<(Seq<char>, Seq<UvRequirementView>)>,
                    Pep621ErrorKind,
                >(groups_view(groups@) + rest),
                Err(k) => spec_lower_groups(gv, psv, wsv, wpv, 0) == Err::<
                    Seq<(Seq<char>, Seq<UvRequirementView>)>,
                    Pep621ErrorKind,
                >(k),
            },
        decreases n - i,
    {
        assert(gv[i as int] == (
            optional_dependencies@[i as int].0@,
            strings_view(optional_dependencies@[i as int].1@),
        ));
        let lowered = match lower_dep_list(
            &optional_dependencies[i].1,
            project_sources,
            workspace_sources,
            workspace_packages,
        ) {
            Ok(v) => v,
            Err(e) => {
                return Err(e);
            },
        };
        let key = optional_dependencies[i].0.clone();
        let ghost prev = groups_view(groups@);
        let ghost entv = (key@, reqs_view(lowered@));
        groups.push((key, lowered));
        proof {
            assert(groups_view(groups@) =~= prev.push(entv));
            let restopt = spec_lower_groups(gv, psv, wsv, wpv, i + 1);
            if restopt is Ok {
                let rest = restopt->Ok_0;
                assert(prev + (seq![entv] + rest) =~= groups_view(groups@) + rest);
            }
        }
        i = i + 1;
    }
    proof {
        assert(groups_view(groups@) + Seq::<(Seq<char>, Seq<UvRequirementView>)>::empty()
            =~= groups_view(groups@));
    }
    Ok(UvRequirements { dependencies: base, optional_dependencies: groups })
}

// ---------------------------------------------------------------------------
// Static metadata extraction.
// ---------------------------------------------------------------------------

/// The mathematical content of extracted metadata.
pub ghost struct UvMetadataView {
    pub name: Seq<char>,
    pub requirements: Seq<UvRequirementView>,
    pub used_extras: Seq<Seq<char>>,
}

/// The project metadata with static requirements extracted and lowered:
/// the base dependencies followed by every requested extra's flattened
/// group, and which extras were used.
#[derive(Debug)]
pub struct UvMetadata {
    /// The name of the project.
    pub name: PackageName,
    /// The requirements extracted from the project.
    pub requirements: Vec<UvRequirement>,
    /// The extras used to collect requirements.
    pub used_extras: Vec<ExtraName>,
}

impl View for UvMetadata {
    type V = UvMetadataView;

    open spec fn view(&self) -> UvMetadataView {
        UvMetadataView {
            name: self.name@,
            requirements: reqs_view(self.requirements@),
            used_extras: extras_view(self.used_extras@),
        }
    }
}

/// The override map a manifest itself carries, when it carries one.
pub open spec fn project_sources_of(p: &PyProjectToml) -> Option<Seq<(Seq<char>, SourceView)>> {
    match p.tool {
        Option::None => None,
        Option::Some(t) => match t.uv {
            Option::None => None,
            Option::Some(u) => match u.sources {
                Option::None => None,
                Option::Some(v) => Some(sources_view(v@)),
            },
        },
    }
}

/// The flattened requirements and used names of the requested extras among
/// `groups[i..]`, in group order.
pub open spec fn collect_used(
    name: Seq<char>,
    groups: Seq<(Seq<char>, Seq<UvRequirementView>)>,
    es: &ExtrasSpecification,
    i: int,
) -> (Seq<UvRequirementView>, Seq<Seq<char>>)
    decreases groups.len() - i,
{
    if !(0 <= i < groups.len()) {
        (Seq::empty(), Seq::empty())
    } else {
        let rest = collect_used(name, groups, es, i + 1);
        if es_contains(es, groups[i].0) {
            (spec_flatten_extra(name, groups[i].1, groups) + rest.0, seq![groups[i].0] + rest.1)
        } else {
            rest
        }
    }
}

/// What static extraction of a manifest yields: `None` when the data is
/// dynamic and no override forces an answer, an error when an override
/// exists but the manifest cannot answer statically, else the lowered base
/// dependencies followed by each requested extra's flattened group.
pub open spec fn spec_try_from(
    p: PyProjectToml,
    es: &ExtrasSpecification,
    wsv: Seq<(Seq<char>, SourceView)>,
    wpv: Seq<(Seq<char>, Seq<char>)>,
) -> Result<Option<UvMetadataView>, Pep621ErrorKind> {
    let ps_opt = project_sources_of(&p);
    let has_sources = ps_opt is Some || wsv.len() > 0;
    let psv = match ps_opt {
        Some(s) => s,
        None => Seq::empty(),
    };
    match p.project {
        Option::None => if has_sources {
            Err(Pep621ErrorKind::MissingEntry("[project]"@))
        } else {
            Ok(None)
        },
        Option::Some(proj) => {
            let dynv = match proj.dynamic {
                Option::None => Seq::empty(),
                Option::Some(d) => strings_view(d@),
            };
            if names_have(dynv, "dependencies"@) {
                if has_sources {
                    Err(Pep621ErrorKind::MissingEntry("[project.dependencies]"@))
                } else {
                    Ok(None)
                }
            } else if !es_is_empty(es) && names_have(dynv, "optional-dependencies"@) {
                if has_sources {
                    Err(Pep621ErrorKind::MissingEntry("[project.optional-dependencies]"@))
                } else {
                    Ok(None)
                }
            } else {
                let depsv = match proj.dependencies {
                    Option::None => Seq::empty(),
                    Option::Some(d) => strings_view(d@),
                };
                let rawg = match proj.optional_dependencies {
                    Option::None => Seq::empty(),
                    Option::Some(g) => raw_groups_view(g@),
                };
                match spec_lower_all(depsv, psv, wsv, wpv, 0) {
                    Err(k) => Err(k),
                    Ok(base) => match spec_lower_groups(rawg, psv, wsv, wpv, 0) {
                        Err(k) => Err(k),
                        Ok(groups) => {
                            let coll = collect_used(proj.name@, groups, es, 0);
                            Ok(
                                Some(
                                    UvMetadataView {
                                        name: proj.name@,
                                        requirements: base + coll.0,
                                        used_extras: coll.1,
                                    },
                                ),
                            )
                        },
                    },
                }
            }
        },
    }
}

/// Whether one of the strings is `w`.
fn list_has_str(v: &Vec<String>, w: &str) -> (r: bool)
    ensures
        r == names_have(strings_view(v@), w@),
{
    let n = v.len();
    let mut i: usize = 0;
    while i < n
        invariant
            0 <= i <= n,
            n == v@.len(),
            forall|k: int| 0 <= k < i ==> strings_view(v@)[k] != w@,
        decreases n - i,
    {
        assert(strings_view(v@)[i as int] == v@[i as int]@);
        if crate::text::str_eq(v[i].as_str(), w) {
            return true;
        }
        i = i + 1;
    }
    false
}

/// Lowering the optional-dependency groups keeps their keys, in order.
proof fn lemma_lower_groups_keys(
    groups: Seq<(Seq<char>, Seq<Seq<char>>)>,
    ps: Seq<(Seq<char>, SourceView)>,
    ws: Seq<(Seq<char>, SourceView)>,
    wp: Seq<(Seq<char>, Seq<char>)>,
    i: int,
)
    requires
        0 <= i <= groups.len(),
    ensures
        match spec_lower_groups(groups, ps, ws, wp, i) {
            Ok(gs) => gs.len() == groups.len() - i && forall|k: int| 0 <= k < gs.len()
                ==> (#[trigger] gs[k]).0 == groups[i + k].0,
            Err(_) => true,
        },
    decreases groups.len() - i,
{
    if i < groups.len() {
        lemma_lower_groups_keys(groups, ps, ws, wp, i + 1);
        match spec_lower_all(groups[i].1, ps, ws, wp, 0) {
            Err(_) => {},
            Ok(reqs) => {
                match spec_lower_groups(groups, ps, ws, wp, i + 1) {
                    Err(_) => {},
                    Ok(rest) => {
                        let gs = seq![(groups[i].0, reqs)] + rest;
                        assert(gs[0].0 == groups[i].0);
                        assert(forall|k: int| 1 <= k < gs.len() ==> #[trigger] gs[k]
                            == rest[k - 1]);
                    },
                }
            },
        }
    }
}

impl UvMetadata {
    /// Extracts the static metadata from a manifest and a requested-extras
    /// set, if possible. `None` means another tool must provide the data
    /// dynamically; an error means overrides exist but a needed manifest
    /// entry is missing or dynamic, or a dependency failed to parse or
    /// lower. Requesting an extra the manifest does not declare is a silent
    /// no-op.
    pub fn try_from(
        pyproject: PyProjectToml,
        extras: &ExtrasSpecification,
        workspace_sources: &Vec<SourceEntry>,
        workspace_packages: &Vec<MemberEntry>,
    ) -> (r: Result<Option<UvMetadata>, Pep621Error>)
        requires
            match pyproject.project {
                Option::Some(p) => match p.optional_dependencies {
                    Option::Some(g) => distinct_keys(raw_groups_view(g@)),
                    Option::None => true,
                },
                Option::None => true,
            },
        ensures
            match r {
                Ok(opt) => spec_try_from(
                    pyproject,
                    extras,
                    sources_view(workspace_sources@),
                    members_view(workspace_packages@),
                ) == Ok::<Option<UvMetadataView>, Pep621ErrorKind>(
                    match opt {
                        Option::None => None,
                        Option::Some(m) => Some(m@),
                    },
                ),
                Err(e) => spec_try_from(
                    pyproject,
                    extras,
                    sources_view(workspace_sources@),
                    members_view(workspace_packages@),
                ) == Err::<Option<UvMetadataView>, Pep621ErrorKind>(pep621_kind(&e)),
            },
    {
        let ghost snap = pyproject;
        let ghost wsv = sources_view(workspace_sources@);
        let ghost wpv = members_view(workspace_packages@);
        let PyProjectToml { project, tool } = pyproject;
        let sources_opt: Option<Vec<SourceEntry>> = match tool {
            Option::None => None,
            Option::Some(t) => match t.uv {
                Option::None => None,
                Option::Some(u) => u.sources,
            },
        };
        let has_sources = sources_opt.is_some() || workspace_sources.len() > 0;
        let project_sources: Vec<SourceEntry> = match sources_opt {
            Option::Some(v) => v,
            Option::None => Vec::new(),
        };
        proof {
            if project_sources_of(&snap) is None {
                assert(sources_view(project_sources@) =~= Seq::<(Seq<char>, SourceView)>::empty());
            }
        }
        let proj = match project {
            Option::None => {
                return if has_sources {
                    Err(Pep621Error::MissingEntry("[project]".to_owned()))
                } else {
                    Ok(None)
                };
            },
            Option::Some(p) => p,
        };
        let Project { name, dependencies, optional_dependencies, dynamic } = proj;
        let dyn_list: Vec<String> = match dynamic {
            Option::None => Vec::new(),
            Option::Some(d) => d,
        };
        proof {
            if snap.project->Some_0.dynamic is None {
                assert(strings_view(dyn_list@) =~= Seq::<Seq<char>>::empty());
            }
        }
        if list_has_str(&dyn_list, "dependencies") {
            return if has_sources {
                Err(Pep621Error::MissingEntry("[project.dependencies]".to_owned()))
            } else {
                Ok(None)
            };
        }
        if !extras.is_empty() && list_has_str(&dyn_list, "optional-dependencies") {
            return if has_sources {
                Err(Pep621Error::MissingEntry("[project.optional-dependencies]".to_owned()))
            } else {
                Ok(None)
            };
        }
        let deps: Vec<String> = match dependencies {
            Option::None => Vec::new(),
            Option::Some(d) => d,
        };
        proof {
            if snap.project->Some_0.dependencies is None {
                assert(strings_view(deps@) =~= Seq::<Seq<char>>::empty());
            }
        }
        let raw_groups: Vec<RawGroup> = match optional_dependencies {
            Option::None => Vec::new(),
            Option::Some(g) => g,
        };
        proof {
            if snap.project->Some_0.optional_dependencies is None {
                assert(raw_groups_view(raw_groups@) =~= Seq::<(Seq<char>, Seq<Seq<char>>)>::empty());
            }
        }
        let uv_requirements = match lower_requirements(
            &deps,
            &raw_groups,
            &project_sources,
            workspace_sources,
            workspace_packages,
        ) {
            Ok(u) => u,
            Err(e) => {
                return Err(e);
            },
        };
        let UvRequirements { dependencies: mut requirements, optional_dependencies: groups } =
            uv_requirements;
        let ghost base_v = reqs_view(requirements@);
        let ghost gv2 = groups_view(groups@);
        let ghost nv = name@;
        proof {
            let rawg = raw_groups_view(raw_groups@);
            lemma_lower_groups_keys(rawg, sources_view(project_sources@), wsv, wpv, 0);
            assert forall|a: int, b: int| 0 <= a < b < gv2.len() implies gv2[a].0 != gv2[b].0 by {
                assert(gv2[a].0 == rawg[0 + a].0);
                assert(gv2[b].0 == rawg[0 + b].0);
            }
            assert(distinct_keys(gv2));
        }
        let mut used_extras: Vec<ExtraName> = Vec::new();
        let n = groups.len();
        let mut i: usize = 0;
        while i < n
            invariant
                0 <= i <= n,
                n == groups@.len(),
                gv2 == groups_view(groups@),
                distinct_keys(gv2),
                nv == name@,
                reqs_view(requirements@) + collect_used(nv, gv2, extras, i as int).0 == base_v
                    + collect_used(nv, gv2, extras, 0).0,
                extras_view(used_extras@) + collect_used(nv, gv2, extras, i as int).1
                    == collect_used(nv, gv2, extras, 0).1,
            decreases n - i,
        {
            assert(gv2[i as int] == (groups@[i as int].0@, reqs_view(groups@[i as int].1@)));
            let ghost coll_next = collect_used(nv, gv2, extras, i + 1);
            if extras.contains(&groups[i].0) {
                let key = groups[i].0.clone();
                let ghost keyv = key@;
                let ghost used_prev = extras_view(used_extras@);
                used_extras.push(key);
                let mut flat = flatten_extra(&name, &groups[i].1, &groups);
                let ghost flatv = reqs_view(flat@);
                let ghost reqs_prev = reqs_view(requirements@);
                requirements.append(&mut flat);
                proof {
                    assert(reqs_view(requirements@) =~= reqs_prev + flatv);
                    assert(extras_view(used_extras@) =~= used_prev.push(keyv));
                    assert(reqs_prev + (flatv + coll_next.0) =~= (reqs_prev + flatv)
                        + coll_next.0);
                    assert(used_prev + (seq![keyv] + coll_next.1) =~= used_prev.push(keyv)
                        + coll_next.1);
                }
            }
            i = i + 1;
        }
        proof {
            assert(reqs_view(requirements@) + Seq::<UvRequirementView>::empty() =~= reqs_view(
                requirements@,
            ));
            assert(extras_view(used_extras@) + Seq::<Seq<char>>::empty() =~= extras_view(
                used_extras@,
            ));
        }
        Ok(Some(UvMetadata { name, requirements, used_extras }))
    }
}

} // verus!
