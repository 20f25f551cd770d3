//! Parsing of PEP 508 requirement text and the requirements-file superset.

use uv_requirements::name::{PackageName, ExtraName};
use uv_requirements::marker::MarkerEnvironment;
use uv_requirements::requirement::{Requirement, UnnamedRequirement, Pep508ErrorSource,
    VersionOrUrl};
use uv_requirements::requirements_txt::RequirementsTxtRequirement;
use uv_requirements::version::{VersionSpecifiers, SpecifierOperator};

#[test]
fn package_names_normalize() {
    let a = PackageName::new("Foo_Bar").unwrap();
    let b = PackageName::new("foo-bar").unwrap();
    let c = PackageName::new("FOO.._bar").unwrap();
    assert_eq!(a.as_str(), "foo-bar");
    assert!(a == b);
    assert_eq!(c.as_str(), "foo-bar");
    assert!(a == c);
}

#[test]
fn invalid_names_are_rejected() {
    assert!(PackageName::new("").is_err());
    assert!(PackageName::new("-foo").is_err());
    assert!(PackageName::new("foo-").is_err());
    assert!(PackageName::new("fo o").is_err());
    assert!(ExtraName::new("b@d").is_err());
}

#[test]
fn plain_name_has_no_version_or_url() {
    let r = Requirement::parse("tomli").unwrap();
    assert_eq!(r.name.as_str(), "tomli");
    assert!(r.extras.is_empty());
    assert!(r.marker.is_none());
    assert!(r.version_or_url.is_none());
}

#[test]
fn full_requirement_parses_to_its_fields() {
    let r = Requirement::parse("foo[extra1,extra2]>=1,<2; python_version>='3.8'").unwrap();
    assert_eq!(r.name.as_str(), "foo");
    let extras: Vec<&str> = r.extras.iter().map(|e| e.as_str()).collect();
    assert_eq!(extras, vec!["extra1", "extra2"]);
    match &r.version_or_url {
        Some(VersionOrUrl::VersionSpecifier(vs)) => {
            assert_eq!(vs.specifiers.len(), 2);
            assert!(vs.specifiers[0].op == SpecifierOperator::GreaterThanEqual);
            assert_eq!(vs.specifiers[0].version, "1");
            assert!(vs.specifiers[1].op == SpecifierOperator::LessThan);
            assert_eq!(vs.specifiers[1].version, "2");
        },
        _ => panic!("expected a version constraint"),
    }
    assert!(r.marker.is_some());
}

fn env_with_python(python_version: &str) -> MarkerEnvironment {
    MarkerEnvironment {
        implementation_name: "cpython".to_string(),
        implementation_version: "3.11.0".to_string(),
        os_name: "posix".to_string(),
        platform_machine: "x86_64".to_string(),
        platform_python_implementation: "CPython".to_string(),
        platform_release: String::new(),
        platform_system: "Linux".to_string(),
        platform_version: String::new(),
        python_full_version: format!("{python_version}.0"),
        python_version: python_version.to_string(),
        sys_platform: "linux".to_string(),
    }
}

#[test]
fn the_marker_gates_on_the_python_version() {
    let r = Requirement::parse("foo[extra1,extra2]>=1,<2; python_version>='3.8'").unwrap();
    let marker = r.marker.as_ref().unwrap();
    assert!(marker.evaluate(&env_with_python("3.8"), &[]));
    assert!(marker.evaluate(&env_with_python("3.10"), &[]));
    assert!(!marker.evaluate(&env_with_python("3.7"), &[]));
    assert!(!marker.evaluate(&env_with_python("2.7"), &[]));
}

#[test]
fn extras_tolerate_spaces_and_may_be_empty() {
    let r = Requirement::parse("foo[ a , b ]==1").unwrap();
    let extras: Vec<&str> = r.extras.iter().map(|e| e.as_str()).collect();
    assert_eq!(extras, vec!["a", "b"]);
    let r = Requirement::parse("foo[]==1").unwrap();
    assert!(r.extras.is_empty());
    assert!(Requirement::parse("foo[a,]==1").is_err());
}

#[test]
fn repeated_extras_collapse_to_a_set() {
    // Extras are a set: a name written twice, in any spelling, counts once,
    // and the first occurrence keeps its place.
    let r = Requirement::parse("foo[b,a,B,A]==1").unwrap();
    let extras: Vec<&str> = r.extras.iter().map(|e| e.as_str()).collect();
    assert_eq!(extras, vec!["b", "a"]);
    let r = Requirement::parse("foo[x-y,x_y,x..y]==1").unwrap();
    let extras: Vec<&str> = r.extras.iter().map(|e| e.as_str()).collect();
    assert_eq!(extras, vec!["x-y"]);
}

#[test]
fn errors_carry_the_failing_position() {
    let err = Requirement::parse("foo ==").unwrap_err();
    assert_eq!(err.position, 4);
    assert_eq!(err.input, "foo ==");
    let err = Requirement::parse("[oops]").unwrap_err();
    assert_eq!(err.position, 0);
}

#[test]
fn url_requirement_keeps_the_url() {
    let r = Requirement::parse("pip @ https://github.com/pypa/pip/archive/1.3.1.zip").unwrap();
    assert_eq!(r.name.as_str(), "pip");
    match &r.version_or_url {
        Some(VersionOrUrl::Url(u)) => {
            assert_eq!(u.as_str(), "https://github.com/pypa/pip/archive/1.3.1.zip");
        },
        _ => panic!("expected a url"),
    }
}

#[test]
fn bare_url_is_unsupported_in_the_named_grammar() {
    let err = Requirement::parse("https://example.org/pkg.whl").unwrap_err();
    assert!(matches!(err.message, Pep508ErrorSource::UnsupportedRequirement(_)));
    let err = Requirement::parse("./local/dir").unwrap_err();
    assert!(matches!(err.message, Pep508ErrorSource::UnsupportedRequirement(_)));
}

#[test]
fn garbage_is_a_plain_error() {
    let err = Requirement::parse("foo bar baz").unwrap_err();
    assert!(matches!(err.message, Pep508ErrorSource::Message(_)));
    assert!(Requirement::parse("").is_err());
    assert!(Requirement::parse("foo==").is_err());
    assert!(Requirement::parse("foo[unclosed").is_err());
}

#[test]
fn requirements_txt_falls_back_to_the_unnamed_grammar() {
    let r = RequirementsTxtRequirement::parse("https://example.org/pkg.whl").unwrap();
    match &r {
        RequirementsTxtRequirement::Unnamed(u) => {
            assert_eq!(u.url.as_str(), "https://example.org/pkg.whl");
        },
        _ => panic!("expected the unnamed form"),
    }
    assert_eq!(r.name_or_url(), "https://example.org/pkg.whl");

    let r = RequirementsTxtRequirement::parse("flask==3.0").unwrap();
    match &r {
        RequirementsTxtRequirement::Uv(u) => assert_eq!(u.name.as_str(), "flask"),
        _ => panic!("expected the named form"),
    }
    assert_eq!(r.name_or_url(), "flask");

    // A failure that is not the unnamed shape propagates unchanged: the
    // named grammar's error, not the unsupported-requirement one.
    let err = RequirementsTxtRequirement::parse("foo ==").unwrap_err();
    assert!(matches!(err.message, Pep508ErrorSource::Message(_)));
    assert_eq!(err.input, "foo ==");
}

#[test]
fn unnamed_requirement_takes_a_marker() {
    let u = UnnamedRequirement::parse("https://example.org/a.whl ; os_name == 'posix'").unwrap();
    assert_eq!(u.url.as_str(), "https://example.org/a.whl");
    assert!(u.marker.is_some());
    assert!(UnnamedRequirement::parse("   ").is_err());
}

#[test]
fn version_specifiers_parse_exactly() {
    let vs = VersionSpecifiers::from_text(" >=1.0 , <2 ").unwrap();
    assert_eq!(vs.specifiers.len(), 2);
    assert_eq!(vs.specifiers[0].version, "1.0");
    assert_eq!(vs.specifiers[1].version, "2");
    assert!(VersionSpecifiers::from_text("").unwrap().specifiers.is_empty());
    assert!(VersionSpecifiers::from_text(">=").is_err());
    assert!(VersionSpecifiers::from_text("1.0").is_err());
    let exact = VersionSpecifiers::from_text("===1.0+local").unwrap();
    assert!(exact.specifiers[0].op == SpecifierOperator::ExactEqual);
}

#[test]
fn rendering_then_parsing_is_stable() {
    // The round trip the verified law states, on concrete values: the
    // rendered text may differ from the input, the fields may not.
    for text in [
        "Foo_Bar[Extra_One,extra2]>=1 , <2",
        "pkg",
        "pkg==1.0",
        "pip @ https://example.org/pip.zip",
        "foo[a]~=2.1",
    ] {
        let first = Requirement::parse(text).unwrap();
        let rendered = first.to_display_string();
        let second = Requirement::parse(&rendered).unwrap();
        assert_eq!(first.name.as_str(), second.name.as_str());
        assert_eq!(
            first.extras.iter().map(|e| e.as_str().to_string()).collect::<Vec<_>>(),
            second.extras.iter().map(|e| e.as_str().to_string()).collect::<Vec<_>>(),
        );
        assert_eq!(rendered, second.to_display_string());
    }
}

#[test]
fn marker_round_trip_is_stable_as_text() {
    let first = Requirement::parse("foo>=1; python_version >= '3.8' and os_name == 'posix'")
        .unwrap();
    let rendered = first.to_display_string();
    let second = Requirement::parse(&rendered).unwrap();
    assert_eq!(rendered, second.to_display_string());
}
