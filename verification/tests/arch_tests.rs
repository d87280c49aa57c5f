use ostool::arch::{Arch, HeaderArch};
use ostool::errors::ErrorKind;

#[test]
fn from_target_aarch64() {
    assert!(matches!(Arch::from_target("aarch64-unknown-none"), Ok(Arch::Aarch64)));
}

#[test]
fn from_target_riscv64() {
    assert!(matches!(Arch::from_target("riscv64gc-unknown-none-elf"), Ok(Arch::Riscv64)));
}

#[test]
fn from_target_x86_64() {
    assert!(matches!(Arch::from_target("x86_64-unknown-linux-gnu"), Ok(Arch::X86_64)));
}

#[test]
fn from_target_priority_aarch64_first() {
    // all three substrings occur; aarch64 has the highest priority
    assert!(matches!(Arch::from_target("x86_64-riscv64-aarch64"), Ok(Arch::Aarch64)));
}

#[test]
fn from_target_priority_riscv64_over_x86_64() {
    assert!(matches!(Arch::from_target("x86_64-then-riscv64"), Ok(Arch::Riscv64)));
}

#[test]
fn from_target_unknown_is_rejected() {
    let e = Arch::from_target("armv7-unknown-linux").unwrap_err();
    assert_eq!(e.kind(), ErrorKind::UnsupportedTarget);
    assert_eq!(e.value().as_str(), "armv7-unknown-linux");
}

#[test]
fn from_target_empty_is_rejected() {
    let e = Arch::from_target("").unwrap_err();
    assert_eq!(e.kind(), ErrorKind::UnsupportedTarget);
}

#[test]
fn qemu_arch_mapping_is_total_and_stable() {
    assert_eq!(Arch::Aarch64.qemu_arch(), "qemu-system-aarch64");
    assert_eq!(Arch::Riscv64.qemu_arch(), "qemu-system-riscv64");
    assert_eq!(Arch::X86_64.qemu_arch(), "qemu-system-x86_64");
    // calling again yields the same name
    assert_eq!(Arch::Aarch64.qemu_arch(), Arch::Aarch64.qemu_arch());
}

#[test]
fn from_header_maps_supported_tags() {
    assert!(matches!(Arch::from_header(HeaderArch::Aarch64), Ok(Arch::Aarch64)));
    assert!(matches!(Arch::from_header(HeaderArch::Riscv64), Ok(Arch::Riscv64)));
    assert!(matches!(Arch::from_header(HeaderArch::X86_64), Ok(Arch::X86_64)));
}

#[test]
fn from_header_rejects_other() {
    let e = Arch::from_header(HeaderArch::Other).unwrap_err();
    assert_eq!(e.kind(), ErrorKind::UnsupportedTarget);
}

#[test]
fn default_arch_is_aarch64() {
    assert_eq!(Arch::default(), Arch::Aarch64);
}
