//! Marker evaluation against environments, extras and targets.

use uv_requirements::name::ExtraName;
use uv_requirements::marker::{MarkerTree, MarkerEnvironment};
use uv_requirements::requirement::Requirement;
use uv_requirements::target::{TargetTriple, Os, Arch};
use uv_requirements::uv_requirement::UvRequirement;
use uv_requirements::pyproject::lower_requirement;

fn linux_env() -> MarkerEnvironment {
    MarkerEnvironment {
        implementation_name: "cpython".to_string(),
        implementation_version: "3.11.4".to_string(),
        os_name: "posix".to_string(),
        platform_machine: "x86_64".to_string(),
        platform_python_implementation: "CPython".to_string(),
        platform_release: "6.5.0".to_string(),
        platform_system: "Linux".to_string(),
        platform_version: "".to_string(),
        python_full_version: "3.11.4".to_string(),
        python_version: "3.11".to_string(),
        sys_platform: "linux".to_string(),
    }
}

fn lowered(text: &str) -> UvRequirement {
    let req = Requirement::parse(text).unwrap();
    lower_requirement(req, &vec![], &vec![], &vec![]).unwrap()
}

#[test]
fn no_marker_is_always_true() {
    let r = lowered("foo>=1");
    assert!(r.evaluate_markers(&linux_env(), &[]));
}

#[test]
fn extra_marker_honors_the_enabled_extras() {
    let r = lowered("foo>=1; extra == 'x'");
    assert!(!r.evaluate_markers(&linux_env(), &[]));
    let enabled = vec![ExtraName::new("x").unwrap()];
    assert!(r.evaluate_markers(&linux_env(), &enabled));
    let other = vec![ExtraName::new("y").unwrap()];
    assert!(!r.evaluate_markers(&linux_env(), &other));
    // Normalized comparison: X_x matches x-x.
    let r = lowered("foo>=1; extra == 'X_x'");
    let normal = vec![ExtraName::new("x-x").unwrap()];
    assert!(r.evaluate_markers(&linux_env(), &normal));
}

#[test]
fn python_version_compares_as_a_release_not_as_text() {
    let r = lowered("foo>=1; python_version >= '3.8'");
    // "3.11" is below "3.8" as text but above it as a version.
    assert!(r.evaluate_markers(&linux_env(), &[]));
    let r = lowered("foo>=1; python_version < '3.8'");
    assert!(!r.evaluate_markers(&linux_env(), &[]));
    let r = lowered("foo>=1; python_version == '3.11.0'");
    assert!(r.evaluate_markers(&linux_env(), &[]));
}

#[test]
fn string_markers_compare_as_text() {
    let r = lowered("foo>=1; os_name == 'posix'");
    assert!(r.evaluate_markers(&linux_env(), &[]));
    let r = lowered("foo>=1; sys_platform != 'win32'");
    assert!(r.evaluate_markers(&linux_env(), &[]));
    let r = lowered("foo>=1; 'linux' in sys_platform");
    assert!(r.evaluate_markers(&linux_env(), &[]));
    let r = lowered("foo>=1; 'bsd' not in sys_platform");
    assert!(r.evaluate_markers(&linux_env(), &[]));
}

#[test]
fn boolean_structure_works() {
    let r = lowered("foo>=1; os_name == 'posix' and python_version >= '3.8'");
    assert!(r.evaluate_markers(&linux_env(), &[]));
    let r = lowered("foo>=1; os_name == 'nt' or sys_platform == 'linux'");
    assert!(r.evaluate_markers(&linux_env(), &[]));
    let r = lowered("foo>=1; (os_name == 'nt' or os_name == 'posix') and python_version < '3'");
    assert!(!r.evaluate_markers(&linux_env(), &[]));
}

#[test]
fn tilde_equal_is_a_compatible_release() {
    let r = lowered("foo>=1; python_full_version ~= '3.11.0'");
    assert!(r.evaluate_markers(&linux_env(), &[]));
    let r = lowered("foo>=1; python_full_version ~= '3.10.1'");
    assert!(!r.evaluate_markers(&linux_env(), &[]));
}

#[test]
fn malformed_markers_are_rejected() {
    assert!(MarkerTree::parse("os_name ==").is_err());
    assert!(MarkerTree::parse("nonsuch_variable == 'x'").is_err());
    assert!(MarkerTree::parse("os_name == 'unterminated").is_err());
    assert!(MarkerTree::parse("(os_name == 'a'").is_err());
    assert!(MarkerTree::parse("os_name == 'a' junk").is_err());
}

#[test]
fn target_triples_induce_their_environments() {
    let base = linux_env();
    let t = TargetTriple::X8664PcWindowsMsvc;
    assert_eq!(t.platform_machine(), "x86_64");
    assert_eq!(t.platform_system(), "Windows");
    assert_eq!(t.os_name(), "nt");
    assert_eq!(t.sys_platform(), "win32");
    assert_eq!(t.platform_release(), "");
    assert_eq!(t.platform_version(), "");
    let env = t.markers(&base);
    assert_eq!(env.os_name, "nt");
    assert_eq!(env.python_version, "3.11");

    let p = TargetTriple::Aarch64UnknownLinuxMusl.platform();
    assert!(p.arch == Arch::Aarch64);
    assert!(p.os == Os::Musllinux { major: 1, minor: 2 });

    let r = lowered("foo>=1; os_name == 'nt'");
    assert!(!r.evaluate_markers(&base, &[]));
    assert!(r.evaluate_markers(&env, &[]));

    assert_eq!(TargetTriple::Aarch64AppleDarwin.platform_machine(), "aarch64");
    assert_eq!(TargetTriple::X8664AppleDarwin.sys_platform(), "darwin");
    assert_eq!(TargetTriple::X8664UnknownLinuxGnu.platform_system(), "Linux");
}

#[test]
fn marker_display_is_reparseable() {
    let t = MarkerTree::parse("os_name == 'posix' and (extra == 'x' or extra == 'y')").unwrap();
    let rendered = t.to_display_string();
    let again = MarkerTree::parse(&rendered).unwrap();
    assert_eq!(again.to_display_string(), rendered);
}
