//! Architecture resolution: the closed set of supported CPU families,
//! detection from a target triple by substring containment in a fixed
//! priority order, detection from a parsed executable header tag, and
//! the total mapping to the emulator binary name.

use vstd::prelude::*;

use crate::errors::{Error, ErrorKind};
use crate::strutil::{contains_sub, contains_sub_exec};

verus! {

/// The closed set of CPU architectures this tool supports.
#[derive(Clone, Copy, Debug, PartialEq, Eq, Structural)]
pub enum Arch {
    Aarch64,
    Riscv64,
    X86_64,
}

/// The architecture tag read out of an executable image's header.
/// `Other` stands for every tag outside the supported set.
#[derive(Clone, Copy, Debug, PartialEq, Eq, Structural)]
pub enum HeaderArch {
    Aarch64,
    Riscv64,
    X86_64,
    Other,
}

impl Default for Arch {
    /// The architecture assumed when nothing else selects one.
    fn default() -> (r: Self)
        ensures
            r == Arch::Aarch64,
    {
        Arch::Aarch64
    }
}

/// The emulator binary name for an architecture: a total, stable mapping.
pub open spec fn spec_qemu_arch(a: Arch) -> Seq<char> {
    match a {
        Arch::Aarch64 => "qemu-system-aarch64"@,
        Arch::Riscv64 => "qemu-system-riscv64"@,
        Arch::X86_64 => "qemu-system-x86_64"@,
    }
}

/// The architecture a target triple resolves to, by substring
/// containment checked in the fixed priority order
/// aarch64, riscv64, x86_64; `None` when nothing matches.
pub open spec fn spec_from_target(t: Seq<char>) -> Option<Arch> {
    if contains_sub(t, "aarch64"@) {
        Some(Arch::Aarch64)
    } else if contains_sub(t, "riscv64"@) {
        Some(Arch::Riscv64)
    } else if contains_sub(t, "x86_64"@) {
        Some(Arch::X86_64)
    } else {
        None
    }
}

/// The architecture a header tag maps to; `None` for an unsupported tag.
pub open spec fn spec_from_header(h: HeaderArch) -> Option<Arch> {
    match h {
        HeaderArch::Aarch64 => Some(Arch::Aarch64),
        HeaderArch::Riscv64 => Some(Arch::Riscv64),
        HeaderArch::X86_64 => Some(Arch::X86_64),
        HeaderArch::Other => None,
    }
}

impl Arch {
    /// The name of the emulator binary for this architecture.
    pub fn qemu_arch(&self) -> (r: String)
        ensures
            r@ == spec_qemu_arch(*self),
    {
        match self {
            Arch::Aarch64 => String::from_str("qemu-system-aarch64"),
            Arch::Riscv64 => String::from_str("qemu-system-riscv64"),
            Arch::X86_64 => String::from_str("qemu-system-x86_64"),
        }
    }

    /// Resolve an architecture from a target triple by substring
    /// containment, in the priority order aarch64, riscv64, x86_64.
    /// Every unrecognized triple is rejected with `UnsupportedTarget`
    /// carrying the offending string; nothing defaults.
    pub fn from_target(target: &str) -> (r: Result<Arch, Error>)
        ensures
            spec_from_target(target@) is Some ==> r == Ok::<Arch, Error>(
                spec_from_target(target@)->Some_0,
            ),
            spec_from_target(target@) is None ==> r is Err && r->Err_0.kind
                == ErrorKind::UnsupportedTarget && r->Err_0.value@ == target@,
    {
        if contains_sub_exec(target, "aarch64") {
            Ok(Arch::Aarch64)
        } else if contains_sub_exec(target, "riscv64") {
            Ok(Arch::Riscv64)
        } else if contains_sub_exec(target, "x86_64") {
            Ok(Arch::X86_64)
        } else {
            Err(Error::new(ErrorKind::UnsupportedTarget, target.to_owned()))
        }
    }

    /// Resolve an architecture from an executable-header tag; an
    /// unsupported tag is rejected with `UnsupportedTarget`, never
    /// silently defaulted.
    pub fn from_header(tag: HeaderArch) -> (r: Result<Arch, Error>)
        ensures
            spec_from_header(tag) is Some ==> r == Ok::<Arch, Error>(
                spec_from_header(tag)->Some_0,
            ),
            spec_from_header(tag) is None ==> r is Err && r->Err_0.kind
                == ErrorKind::UnsupportedTarget,
    {
        match tag {
            HeaderArch::Aarch64 => Ok(Arch::Aarch64),
            HeaderArch::Riscv64 => Ok(Arch::Riscv64),
            HeaderArch::X86_64 => Ok(Arch::X86_64),
            HeaderArch::Other => Err(
                Error::new(ErrorKind::UnsupportedTarget, String::from_str("unsupported header architecture")),
            ),
        }
    }
}

} // verus!
