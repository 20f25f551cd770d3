//! Static metadata extraction and extras flattening.

use uv_requirements::name::{PackageName, ExtraName};
use uv_requirements::pyproject::{UvMetadata, PyProjectToml, Project, Tool, Uv, Source,
    ExtrasSpecification, Pep621Error, lower_requirements, flatten_extra};

fn pkg(name: &str) -> PackageName {
    PackageName::new(name).unwrap()
}

fn extra(name: &str) -> ExtraName {
    ExtraName::new(name).unwrap()
}

fn manifest(project: Option<Project>, sources: Option<Vec<(PackageName, Source)>>)
    -> PyProjectToml {
    PyProjectToml {
        project,
        tool: sources.map(|s| Tool { uv: Some(Uv { sources: Some(s), workspace: None }) }),
    }
}

#[test]
fn dynamic_dependencies_mean_unknown_without_sources() {
    let project = Project {
        name: pkg("proj"),
        dependencies: None,
        optional_dependencies: None,
        dynamic: Some(vec!["dependencies".to_string()]),
    };
    let got = UvMetadata::try_from(
        manifest(Some(project), None),
        &ExtrasSpecification::NoneRequested,
        &vec![],
        &vec![],
    )
    .unwrap();
    assert!(got.is_none());
}

#[test]
fn dynamic_dependencies_with_sources_are_a_missing_entry() {
    let project = Project {
        name: pkg("proj"),
        dependencies: None,
        optional_dependencies: None,
        dynamic: Some(vec!["dependencies".to_string()]),
    };
    let sources = vec![(
        pkg("dep"),
        Source::Url { url: "https://example.org/dep.whl".to_string() },
    )];
    let err = UvMetadata::try_from(
        manifest(Some(project), Some(sources)),
        &ExtrasSpecification::NoneRequested,
        &vec![],
        &vec![],
    )
    .unwrap_err();
    match err {
        Pep621Error::MissingEntry(entry) => assert_eq!(entry, "[project.dependencies]"),
        _ => panic!("expected a missing-entry error"),
    }
}

#[test]
fn missing_project_table_behaves_the_same_way() {
    let got = UvMetadata::try_from(
        manifest(None, None),
        &ExtrasSpecification::NoneRequested,
        &vec![],
        &vec![],
    )
    .unwrap();
    assert!(got.is_none());

    let sources = vec![(
        pkg("dep"),
        Source::Url { url: "https://example.org/dep.whl".to_string() },
    )];
    let err = UvMetadata::try_from(
        manifest(None, Some(sources)),
        &ExtrasSpecification::NoneRequested,
        &vec![],
        &vec![],
    )
    .unwrap_err();
    match err {
        Pep621Error::MissingEntry(entry) => assert_eq!(entry, "[project]"),
        _ => panic!("expected a missing-entry error"),
    }
}

#[test]
fn dynamic_optional_dependencies_matter_only_with_extras() {
    let project = || Project {
        name: pkg("proj"),
        dependencies: Some(vec!["dep==1".to_string()]),
        optional_dependencies: None,
        dynamic: Some(vec!["optional-dependencies".to_string()]),
    };
    let got = UvMetadata::try_from(
        manifest(Some(project()), None),
        &ExtrasSpecification::NoneRequested,
        &vec![],
        &vec![],
    )
    .unwrap();
    assert!(got.is_some());

    let got = UvMetadata::try_from(
        manifest(Some(project()), None),
        &ExtrasSpecification::All,
        &vec![],
        &vec![],
    )
    .unwrap();
    assert!(got.is_none());
}

#[test]
fn requested_extras_are_flattened_and_recorded() {
    let project = Project {
        name: pkg("proj"),
        dependencies: Some(vec!["base==1".to_string()]),
        optional_dependencies: Some(vec![
            (extra("test"), vec!["pep517==0.1".to_string()]),
            (extra("dev"), vec!["proj[test]==1".to_string()]),
        ]),
        dynamic: None,
    };
    let got = UvMetadata::try_from(
        manifest(Some(project), None),
        &ExtrasSpecification::Listed(vec![extra("dev")]),
        &vec![],
        &vec![],
    )
    .unwrap()
    .unwrap();
    assert_eq!(got.name.as_str(), "proj");
    let names: Vec<&str> = got.requirements.iter().map(|r| r.name.as_str()).collect();
    assert_eq!(names, vec!["base", "pep517"]);
    let used: Vec<&str> = got.used_extras.iter().map(|e| e.as_str()).collect();
    assert_eq!(used, vec!["dev"]);
}

#[test]
fn requesting_an_absent_extra_is_a_silent_no_op() {
    let project = Project {
        name: pkg("proj"),
        dependencies: Some(vec!["base==1".to_string()]),
        optional_dependencies: Some(vec![(extra("test"), vec!["pep517==0.1".to_string()])]),
        dynamic: None,
    };
    let got = UvMetadata::try_from(
        manifest(Some(project), None),
        &ExtrasSpecification::Listed(vec![extra("nosuch")]),
        &vec![],
        &vec![],
    )
    .unwrap()
    .unwrap();
    assert_eq!(got.requirements.len(), 1);
    assert!(got.used_extras.is_empty());
}

#[test]
fn mutually_recursive_extras_terminate() {
    // dev pulls in proj[test]; test pulls in proj[dev]: the cycle is
    // broken, not followed forever.
    let groups_src = vec![
        (extra("dev"), vec!["proj[test]==1".to_string()]),
        (extra("test"), vec!["proj[dev]==1".to_string()]),
    ];
    let lowered = lower_requirements(&vec![], &groups_src, &vec![], &vec![], &vec![]).unwrap();
    let groups = lowered.optional_dependencies;
    let flat = flatten_extra(&pkg("proj"), &groups[0].1, &groups);
    assert!(flat.is_empty());
}

#[test]
fn flattening_keeps_order_and_duplicates() {
    let groups_src = vec![
        (extra("a"), vec!["one==1".to_string(), "proj[b]==1".to_string(), "two==2".to_string()]),
        (extra("b"), vec!["three==3".to_string(), "one==1".to_string()]),
    ];
    let lowered = lower_requirements(&vec![], &groups_src, &vec![], &vec![], &vec![]).unwrap();
    let groups = lowered.optional_dependencies;
    let flat = flatten_extra(&pkg("proj"), &groups[0].1, &groups);
    let names: Vec<&str> = flat.iter().map(|r| r.name.as_str()).collect();
    assert_eq!(names, vec!["one", "three", "one", "two"]);
}

#[test]
fn a_lowering_failure_names_its_package() {
    let project = Project {
        name: pkg("proj"),
        dependencies: Some(vec!["good==1".to_string(), "bare".to_string()]),
        optional_dependencies: None,
        dynamic: None,
    };
    let err = UvMetadata::try_from(
        manifest(Some(project), None),
        &ExtrasSpecification::NoneRequested,
        &vec![],
        &vec![],
    )
    .unwrap_err();
    match err {
        Pep621Error::Lowering(le) => match le {
            uv_requirements::pyproject::LoweringError::Policy { package } => {
                assert_eq!(package, "bare");
            },
            _ => panic!("expected a policy error"),
        },
        _ => panic!("expected a lowering error"),
    }
}

#[test]
fn all_extras_uses_every_group() {
    let project = Project {
        name: pkg("proj"),
        dependencies: None,
        optional_dependencies: Some(vec![
            (extra("a"), vec!["one==1".to_string()]),
            (extra("b"), vec!["two==2".to_string()]),
        ]),
        dynamic: None,
    };
    let got = UvMetadata::try_from(
        manifest(Some(project), None),
        &ExtrasSpecification::All,
        &vec![],
        &vec![],
    )
    .unwrap()
    .unwrap();
    let used: Vec<&str> = got.used_extras.iter().map(|e| e.as_str()).collect();
    assert_eq!(used, vec!["a", "b"]);
    assert_eq!(got.requirements.len(), 2);
}
