//! Flag resolution, cache-location preference, and the requirements-file
//! facade.

use uv_requirements::settings::{flag, cache_choice, CacheChoice};
use uv_requirements::requirements_txt::RequirementsTxtRequirement;
use uv_requirements::uv_requirement::UvSource;

#[test]
fn flag_resolves_exclusive_pairs() {
    assert_eq!(flag(true, false), Some(true));
    assert_eq!(flag(false, true), Some(false));
    assert_eq!(flag(false, false), None);
}

#[test]
fn cache_choice_prefers_in_order() {
    match cache_choice(Some(true), Some("given".to_string()), Some("system".to_string())) {
        CacheChoice::Temporary => {},
        _ => panic!("declining the cache wins over everything"),
    }
    match cache_choice(None, Some("given".to_string()), Some("system".to_string())) {
        CacheChoice::Directory(d) => assert_eq!(d, "given"),
        _ => panic!("the named directory comes second"),
    }
    match cache_choice(Some(false), None, Some("system".to_string())) {
        CacheChoice::Directory(d) => assert_eq!(d, "system"),
        _ => panic!("the system directory comes third"),
    }
    match cache_choice(None, None, None) {
        CacheChoice::Directory(d) => assert_eq!(d, ".uv_cache"),
        _ => panic!("the working-directory fallback comes last"),
    }
}

#[test]
fn the_facade_synthesizes_a_url_source_for_unnamed_entries() {
    let named = RequirementsTxtRequirement::parse("pkg==1; extra == 'x'").unwrap();
    assert_eq!(named.extras().len(), 0);
    assert!(named.markers().is_some());
    match named.source() {
        UvSource::Registry { version, .. } => assert_eq!(version.specifiers.len(), 1),
        _ => panic!("expected a registry source"),
    }

    let unnamed = RequirementsTxtRequirement::parse("https://example.org/a.whl").unwrap();
    assert!(unnamed.markers().is_none());
    match unnamed.source() {
        UvSource::Url { url } => assert_eq!(url.as_str(), "https://example.org/a.whl"),
        _ => panic!("expected a synthesized url source"),
    }
}

#[test]
fn uv_requirement_display_shows_source_and_marker() {
    let named = RequirementsTxtRequirement::parse("pkg[x]==1 ; os_name == 'posix'").unwrap();
    match named {
        RequirementsTxtRequirement::Uv(u) => {
            assert_eq!(u.to_display_string(), "pkg[x]==1 ; os_name == 'posix'");
        },
        _ => panic!("expected the named form"),
    }
}
