//! Lowering parsed requirements against override tables.

use uv_requirements::name::PackageName;
use uv_requirements::requirement::Requirement;
use uv_requirements::pyproject::{lower_requirement, lower_requirements, Source, SourceFields,
    LoweringError, SourceEntry, MemberEntry};
use uv_requirements::uv_requirement::{UvSource, GitVersion};

fn pkg(name: &str) -> PackageName {
    PackageName::new(name).unwrap()
}

#[test]
fn bare_name_without_constraint_is_a_policy_error() {
    let req = Requirement::parse("pkg").unwrap();
    let err = lower_requirement(req, &vec![], &vec![], &vec![]).unwrap_err();
    match err {
        LoweringError::Policy { package } => assert_eq!(package, "pkg"),
        _ => panic!("expected a policy error"),
    }
}

#[test]
fn a_constraint_makes_a_registry_source() {
    let req = Requirement::parse("pkg>=1").unwrap();
    let low = lower_requirement(req, &vec![], &vec![], &vec![]).unwrap();
    assert_eq!(low.name.as_str(), "pkg");
    match &low.source {
        UvSource::Registry { version, index } => {
            assert_eq!(version.specifiers.len(), 1);
            assert!(index.is_none());
        },
        _ => panic!("expected a registry source"),
    }
}

#[test]
fn two_git_selectors_conflict() {
    let req = Requirement::parse("pkg").unwrap();
    let sources: Vec<SourceEntry> = vec![(
        pkg("pkg"),
        Source::Git {
            git: "https://example.org/pkg.git".to_string(),
            rev: Some("abc".to_string()),
            tag: Some("v1".to_string()),
            branch: None,
        },
    )];
    let err = lower_requirement(req, &sources, &vec![], &vec![]).unwrap_err();
    assert!(matches!(err, LoweringError::SourceConflict { .. }));
}

#[test]
fn one_git_selector_lowers() {
    let req = Requirement::parse("pkg").unwrap();
    let sources: Vec<SourceEntry> = vec![(
        pkg("pkg"),
        Source::Git {
            git: "https://example.org/pkg.git".to_string(),
            rev: Some("abc".to_string()),
            tag: None,
            branch: None,
        },
    )];
    let low = lower_requirement(req, &sources, &vec![], &vec![]).unwrap();
    match &low.source {
        UvSource::Git { git, version } => {
            assert_eq!(git.as_str(), "https://example.org/pkg.git");
            match version {
                Some(GitVersion::Rev(r)) => assert_eq!(r, "abc"),
                _ => panic!("expected a rev"),
            }
        },
        _ => panic!("expected a git source"),
    }
}

#[test]
fn workspace_member_needs_workspace_true() {
    let members: Vec<MemberEntry> = vec![(pkg("pkg"), "packages/pkg".to_string())];
    // Even with a version constraint, a member resolves only through the
    // workspace.
    let req = Requirement::parse("pkg>=1").unwrap();
    let err = lower_requirement(req, &vec![], &vec![], &members).unwrap_err();
    assert!(matches!(err, LoweringError::Policy { .. }));

    let sources: Vec<SourceEntry> = vec![(
        pkg("pkg"),
        Source::Workspace { workspace: true, editable: None },
    )];
    let req = Requirement::parse("pkg").unwrap();
    let low = lower_requirement(req, &sources, &vec![], &members).unwrap();
    match &low.source {
        UvSource::Path { path } => assert_eq!(path, "packages/pkg"),
        _ => panic!("expected a workspace-derived path source"),
    }
}

#[test]
fn project_sources_take_precedence_over_workspace_sources() {
    let project: Vec<SourceEntry> = vec![(
        pkg("pkg"),
        Source::Url { url: "https://project.example/pkg.whl".to_string() },
    )];
    let workspace: Vec<SourceEntry> = vec![(
        pkg("pkg"),
        Source::Url { url: "https://workspace.example/pkg.whl".to_string() },
    )];
    let req = Requirement::parse("pkg").unwrap();
    let low = lower_requirement(req, &project, &workspace, &vec![]).unwrap();
    match &low.source {
        UvSource::Url { url } => assert_eq!(url.as_str(), "https://project.example/pkg.whl"),
        _ => panic!("expected a url source"),
    }
}

#[test]
fn path_and_registry_overrides_are_not_supported_yet() {
    let sources: Vec<SourceEntry> = vec![(
        pkg("pkg"),
        Source::Path { path: "vendor/pkg".to_string(), editable: None },
    )];
    let req = Requirement::parse("pkg").unwrap();
    let err = lower_requirement(req, &sources, &vec![], &vec![]).unwrap_err();
    assert!(matches!(err, LoweringError::UnsupportedYet { .. }));

    let sources: Vec<SourceEntry> = vec![(
        pkg("pkg"),
        Source::Registry { index: "internal".to_string() },
    )];
    let req = Requirement::parse("pkg").unwrap();
    let err = lower_requirement(req, &sources, &vec![], &vec![]).unwrap_err();
    assert!(matches!(err, LoweringError::UnsupportedYet { .. }));
}

#[test]
fn conflicting_keys_classify_as_catch_all_and_fail() {
    let fields = SourceFields {
        git: Some("https://example.org/pkg.git".to_string()),
        url: Some("https://example.org/pkg.whl".to_string()),
        ..Default::default()
    };
    let source = Source::from_fields(fields);
    assert!(matches!(source, Source::CatchAll { .. }));

    let req = Requirement::parse("pkg").unwrap();
    let err = lower_requirement(req, &vec![(pkg("pkg"), source)], &vec![], &vec![]).unwrap_err();
    assert!(matches!(err, LoweringError::SourceConflict { .. }));
}

#[test]
fn single_key_tables_classify_as_their_shape() {
    let url_only = SourceFields {
        url: Some("https://example.org/pkg.whl".to_string()),
        ..Default::default()
    };
    assert!(matches!(Source::from_fields(url_only), Source::Url { .. }));
    let ws = SourceFields { workspace: Some(true), editable: Some(false), ..Default::default() };
    assert!(matches!(Source::from_fields(ws), Source::Workspace { workspace: true, .. }));
    let git = SourceFields {
        git: Some("https://example.org/pkg.git".to_string()),
        branch: Some("main".to_string()),
        ..Default::default()
    };
    assert!(matches!(Source::from_fields(git), Source::Git { .. }));
}

#[test]
fn one_bad_entry_fails_the_whole_list() {
    let deps = vec!["good>=1".to_string(), "bad requirement!".to_string()];
    assert!(lower_requirements(&deps, &vec![], &vec![], &vec![], &vec![]).is_err());

    let deps = vec!["good>=1".to_string(), "other==2".to_string()];
    let reqs = lower_requirements(&deps, &vec![], &vec![], &vec![], &vec![]).unwrap();
    assert_eq!(reqs.dependencies.len(), 2);
    assert_eq!(reqs.dependencies[0].name.as_str(), "good");
    assert_eq!(reqs.dependencies[1].name.as_str(), "other");
}
