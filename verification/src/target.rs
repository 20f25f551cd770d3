//! The supported target triples and the marker environments they induce.
//! Each triple consists of an architecture, vendor, and operating system.

use vstd::prelude::*;
use vstd::string::StrSliceExecFns;
use crate::marker::{MarkerEnvironment, MarkerEnvironmentView};

verus! {

/// A supported operating system, with the version floor a tag carries.
#[derive(Debug, Clone, Copy, PartialEq, Eq, Structural)]
pub enum Os {
    Windows,
    Manylinux { major: u16, minor: u16 },
    Musllinux { major: u16, minor: u16 },
    Macos { major: u16, minor: u16 },
}

/// A supported processor architecture.
#[derive(Debug, Clone, Copy, PartialEq, Eq, Structural)]
pub enum Arch {
    X86_64,
    Aarch64,
}

/// A platform: an operating system and an architecture.
#[derive(Debug, Clone, Copy, PartialEq, Eq, Structural)]
pub struct Platform {
    pub os: Os,
    pub arch: Arch,
}

impl Platform {
    /// Builds a platform from its parts.
    pub fn new(os: Os, arch: Arch) -> (r: Platform)
        ensures
            r.os == os && r.arch == arch,
    {
        Platform { os, arch }
    }
}

/// A supported target triple.
#[derive(Debug, Clone, Copy, PartialEq, Eq, Structural)]
pub enum TargetTriple {
    X8664PcWindowsMsvc,
    X8664UnknownLinuxGnu,
    X8664AppleDarwin,
    Aarch64AppleDarwin,
    Aarch64UnknownLinuxGnu,
    Aarch64UnknownLinuxMusl,
    X8664UnknownLinuxMusl,
}

/// The platform of a target.
pub open spec fn spec_platform(t: TargetTriple) -> Platform {
    match t {
        TargetTriple::X8664PcWindowsMsvc => Platform { os: Os::Windows, arch: Arch::X86_64 },
        TargetTriple::X8664UnknownLinuxGnu => Platform {
            os: Os::Manylinux { major: 2, minor: 17 },
            arch: Arch::X86_64,
        },
        TargetTriple::X8664AppleDarwin => Platform {
            os: Os::Macos { major: 10, minor: 12 },
            arch: Arch::X86_64,
        },
        TargetTriple::Aarch64AppleDarwin => Platform {
            os: Os::Macos { major: 11, minor: 0 },
            arch: Arch::Aarch64,
        },
        TargetTriple::Aarch64UnknownLinuxGnu => Platform {
            os: Os::Manylinux { major: 2, minor: 17 },
            arch: Arch::Aarch64,
        },
        TargetTriple::Aarch64UnknownLinuxMusl => Platform {
            os: Os::Musllinux { major: 1, minor: 2 },
            arch: Arch::Aarch64,
        },
        TargetTriple::X8664UnknownLinuxMusl => Platform {
            os: Os::Musllinux { major: 1, minor: 2 },
            arch: Arch::X86_64,
        },
    }
}

/// The `platform_machine` marker value of a target.
pub open spec fn spec_platform_machine(t: TargetTriple) -> Seq<char> {
    match t {
        TargetTriple::X8664PcWindowsMsvc => "x86_64"@,
        TargetTriple::X8664UnknownLinuxGnu => "x86_64"@,
        TargetTriple::X8664AppleDarwin => "x86_64"@,
        TargetTriple::Aarch64AppleDarwin => "aarch64"@,
        TargetTriple::Aarch64UnknownLinuxGnu => "aarch64"@,
        TargetTriple::Aarch64UnknownLinuxMusl => "aarch64"@,
        TargetTriple::X8664UnknownLinuxMusl => "x86_64"@,
    }
}

/// The `platform_system` marker value of a target.
pub open spec fn spec_platform_system(t: TargetTriple) -> Seq<char> {
    match t {
        TargetTriple::X8664PcWindowsMsvc => "Windows"@,
        TargetTriple::X8664UnknownLinuxGnu => "Linux"@,
        TargetTriple::X8664AppleDarwin => "Darwin"@,
        TargetTriple::Aarch64AppleDarwin => "Darwin"@,
        TargetTriple::Aarch64UnknownLinuxGnu => "Linux"@,
        TargetTriple::Aarch64UnknownLinuxMusl => "Linux"@,
        TargetTriple::X8664UnknownLinuxMusl => "Linux"@,
    }
}

/// The `os_name` marker value of a target.
pub open spec fn spec_os_name(t: TargetTriple) -> Seq<char> {
    match t {
        TargetTriple::X8664PcWindowsMsvc => "nt"@,
        _ => "posix"@,
    }
}

/// The `sys_platform` marker value of a target.
pub open spec fn spec_sys_platform(t: TargetTriple) -> Seq<char> {
    match t {
        TargetTriple::X8664PcWindowsMsvc => "win32"@,
        TargetTriple::X8664AppleDarwin => "darwin"@,
        TargetTriple::Aarch64AppleDarwin => "darwin"@,
        _ => "linux"@,
    }
}

/// The marker environment a target induces over a base environment: the
/// platform attributes come from the target, the interpreter attributes
/// from the base.
pub open spec fn spec_target_markers(t: TargetTriple, base: MarkerEnvironmentView)
    -> MarkerEnvironmentView {
    MarkerEnvironmentView {
        os_name: spec_os_name(t),
        platform_machine: spec_platform_machine(t),
        platform_system: spec_platform_system(t),
        sys_platform: spec_sys_platform(t),
        platform_release: Seq::empty(),
        platform_version: Seq::empty(),
        implementation_name: base.implementation_name,
        implementation_version: base.implementation_version,
        platform_python_implementation: base.platform_python_implementation,
        python_full_version: base.python_full_version,
        python_version: base.python_version,
    }
}

impl TargetTriple {
    /// The platform of the target.
    pub fn platform(self) -> (r: Platform)
        ensures
            r == spec_platform(self),
    {
        match self {
            Self::X8664PcWindowsMsvc => Platform::new(Os::Windows, Arch::X86_64),
            Self::X8664UnknownLinuxGnu => Platform::new(
                Os::Manylinux { major: 2, minor: 17 },
                Arch::X86_64,
            ),
            Self::X8664AppleDarwin => Platform::new(
                Os::Macos { major: 10, minor: 12 },
                Arch::X86_64,
            ),
            Self::Aarch64AppleDarwin => Platform::new(
                Os::Macos { major: 11, minor: 0 },
                Arch::Aarch64,
            ),
            Self::Aarch64UnknownLinuxGnu => Platform::new(
                Os::Manylinux { major: 2, minor: 17 },
                Arch::Aarch64,
            ),
            Self::Aarch64UnknownLinuxMusl => Platform::new(
                Os::Musllinux { major: 1, minor: 2 },
                Arch::Aarch64,
            ),
            Self::X8664UnknownLinuxMusl => Platform::new(
                Os::Musllinux { major: 1, minor: 2 },
                Arch::X86_64,
            ),
        }
    }

    /// The `platform_machine` value for the target.
    pub fn platform_machine(self) -> (r: &'static str)
        ensures
            r@ == spec_platform_machine(self),
    {
        match self {
            Self::X8664PcWindowsMsvc => "x86_64",
            Self::X8664UnknownLinuxGnu => "x86_64",
            Self::X8664AppleDarwin => "x86_64",
            Self::Aarch64AppleDarwin => "aarch64",
            Self::Aarch64UnknownLinuxGnu => "aarch64",
            Self::Aarch64UnknownLinuxMusl => "aarch64",
            Self::X8664UnknownLinuxMusl => "x86_64",
        }
    }

    /// The `platform_system` value for the target.
    pub fn platform_system(self) -> (r: &'static str)
        ensures
            r@ == spec_platform_system(self),
    {
        match self {
            Self::X8664PcWindowsMsvc => "Windows",
            Self::X8664UnknownLinuxGnu => "Linux",
            Self::X8664AppleDarwin => "Darwin",
            Self::Aarch64AppleDarwin => "Darwin",
            Self::Aarch64UnknownLinuxGnu => "Linux",
            Self::Aarch64UnknownLinuxMusl => "Linux",
            Self::X8664UnknownLinuxMusl => "Linux",
        }
    }

    /// The `platform_version` value for the target: always empty.
    pub fn platform_version(self) -> (r: &'static str)
        ensures
            r@ == Seq::<char>::empty(),
    {
        let r = "";
        proof {
            reveal_strlit("");
            assert(r@ =~= Seq::<char>::empty());
        }
        r
    }

    /// The `platform_release` value for the target: always empty.
    pub fn platform_release(self) -> (r: &'static str)
        ensures
            r@ == Seq::<char>::empty(),
    {
        let r = "";
        proof {
            reveal_strlit("");
            assert(r@ =~= Seq::<char>::empty());
        }
        r
    }

    /// The `os_name` value for the target.
    pub fn os_name(self) -> (r: &'static str)
        ensures
            r@ == spec_os_name(self),
    {
        match self {
            Self::X8664PcWindowsMsvc => "nt",
            Self::X8664UnknownLinuxGnu => "posix",
            Self::X8664AppleDarwin => "posix",
            Self::Aarch64AppleDarwin => "posix",
            Self::Aarch64UnknownLinuxGnu => "posix",
            Self::Aarch64UnknownLinuxMusl => "posix",
            Self::X8664UnknownLinuxMusl => "posix",
        }
    }

    /// The `sys_platform` value for the target.
    pub fn sys_platform(self) -> (r: &'static str)
        ensures
            r@ == spec_sys_platform(self),
    {
        match self {
            Self::X8664PcWindowsMsvc => "win32",
            Self::X8664UnknownLinuxGnu => "linux",
            Self::X8664AppleDarwin => "darwin",
            Self::Aarch64AppleDarwin => "darwin",
            Self::Aarch64UnknownLinuxGnu => "linux",
            Self::Aarch64UnknownLinuxMusl => "linux",
            Self::X8664UnknownLinuxMusl => "linux",
        }
    }

    /// A marker environment compatible with the target: the base
    /// environment's interpreter attributes, the target's platform ones.
    pub fn markers(self, base: &MarkerEnvironment) -> (r: MarkerEnvironment)
        ensures
            r@ == spec_target_markers(self, base@),
    {
        MarkerEnvironment {
            os_name: self.os_name().to_owned(),
            platform_machine: self.platform_machine().to_owned(),
            platform_system: self.platform_system().to_owned(),
            sys_platform: self.sys_platform().to_owned(),
            platform_release: self.platform_release().to_owned(),
            platform_version: self.platform_version().to_owned(),
            implementation_name: base.implementation_name.clone(),
            implementation_version: base.implementation_version.clone(),
            platform_python_implementation: base.platform_python_implementation.clone(),
            python_full_version: base.python_full_version.clone(),
            python_version: base.python_version.clone(),
        }
    }
}

} // verus!
