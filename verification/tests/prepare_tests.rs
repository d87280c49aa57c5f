use ostool::arch::Arch;
use ostool::codec::{encode_config, encode_uboot_file};
use ostool::config::{ManifestEntry, ProjectConfig, Qemu, UbootConfig};
use ostool::errors::ErrorKind;
use ostool::prepare::{file_stem, path_parent, CargoTestPrepare};
use ostool::project::Project;

/// A minimal 64-bit little-endian executable header with the given
/// machine tag: enough for header-level parsing.
fn elf_image(e_machine: u16) -> Vec<u8> {
    let mut b = vec![0u8; 64];
    b[0..4].copy_from_slice(&[0x7f, b'E', b'L', b'F']);
    b[4] = 2; // 64-bit
    b[5] = 1; // little-endian
    b[6] = 1; // current version
    b[16..18].copy_from_slice(&2u16.to_le_bytes()); // executable
    b[18..20].copy_from_slice(&e_machine.to_le_bytes());
    b[20..24].copy_from_slice(&1u32.to_le_bytes());
    b[52..54].copy_from_slice(&64u16.to_le_bytes()); // header size
    b[54..56].copy_from_slice(&56u16.to_le_bytes()); // phentsize
    b[58..60].copy_from_slice(&64u16.to_le_bytes()); // shentsize
    b
}

const EM_AARCH64: u16 = 183;
const EM_RISCV: u16 = 243;
const EM_X86_64: u16 = 62;
const EM_PPC: u16 = 20;

fn fresh_project() -> Project {
    let text = encode_config(&ProjectConfig::new(Arch::Aarch64));
    Project::new(String::from("/work"), Some(&text)).unwrap().0
}

#[test]
fn path_parent_splits_at_last_slash() {
    assert_eq!(path_parent("/a/b/test.elf").as_deref(), Some("/a/b"));
    assert_eq!(path_parent("rel/x"), Some(String::from("rel")));
    assert_eq!(path_parent("noslash"), None);
}

#[test]
fn file_stem_drops_the_extension() {
    assert_eq!(file_stem("/a/b/test.elf"), "test");
    assert_eq!(file_stem("/a/b/archive.tar.gz"), "archive.tar");
    assert_eq!(file_stem("/a/.hidden"), ".hidden");
    assert_eq!(file_stem("plain"), "plain");
}

#[test]
fn plan_derives_paths_and_the_tool_invocation() {
    let step = CargoTestPrepare::new_boxed(String::from("/out/tests/mytest-1234.elf"), false);
    let project = fresh_project();
    let data = elf_image(EM_AARCH64);
    let out = step.plan(&project, &data).unwrap();
    assert_eq!(out.arch, Arch::Aarch64);
    assert_eq!(out.out_dir, "/out/tests");
    assert_eq!(out.elf_out, "/out/tests/test.elf");
    assert_eq!(out.bin, "/out/tests/mytest-1234.bin");
    // the planned side effects: clean both paths, copy, then strip
    assert_eq!(out.remove_paths, vec!["/out/tests/test.elf", "/out/tests/mytest-1234.bin"]);
    assert_eq!(out.copy_src, "/out/tests/mytest-1234.elf");
    assert_eq!(out.tool.program, "rust-objcopy");
    assert_eq!(
        out.tool.args,
        vec![
            "--strip-all",
            "-O",
            "binary",
            "/out/tests/mytest-1234.elf",
            "/out/tests/mytest-1234.bin",
        ]
    );
    assert_eq!(out.tool.current_dir, "/work");
}

#[test]
fn commit_sets_the_context_to_the_defaults() {
    let step = CargoTestPrepare::new_boxed(String::from("/out/tests/mytest-1234.elf"), false);
    let mut project = fresh_project();
    let data = elf_image(EM_AARCH64);
    let out = step.plan(&project, &data).unwrap();
    let mut manifest: Vec<ManifestEntry> = vec![];
    let w = step
        .commit(&mut project, &out, None, None, None, &mut manifest)
        .unwrap();
    assert!(w.is_none());
    assert_eq!(project.arch, Arch::Aarch64);
    assert_eq!(project.out_dir.as_deref(), Some("/out/tests"));
    assert_eq!(project.elf_path.as_deref(), Some("/out/tests/test.elf"));
    assert_eq!(project.bin_path.as_deref(), Some("/out/tests/mytest-1234.bin"));
    assert_eq!(project.config.qemu.machine.as_deref(), Some("virt"));
    assert_eq!(project.config.qemu.memory.as_deref(), Some("1G"));
    assert!(project.config.uboot.is_none());
}

#[test]
fn preparing_twice_derives_identical_paths() {
    let step = CargoTestPrepare::new_boxed(String::from("/out/tests/mytest-1234.elf"), false);
    let data = elf_image(EM_AARCH64);
    let mut p = fresh_project();
    let out1 = step.plan(&p, &data).unwrap();
    let mut m1: Vec<ManifestEntry> = vec![];
    step.commit(&mut p, &out1, None, None, None, &mut m1).unwrap();
    // the second run starts from the context the first one mutated
    let out2 = step.plan(&p, &data).unwrap();
    let mut m2: Vec<ManifestEntry> = vec![];
    step.commit(&mut p, &out2, None, None, None, &mut m2).unwrap();
    assert_eq!(out1.remove_paths, out2.remove_paths);
    assert_eq!(out1.elf_out, out2.elf_out);
    assert_eq!(out1.bin, out2.bin);
    assert_eq!(out1.tool.args, out2.tool.args);
    assert_eq!(p.elf_path.as_deref(), Some("/out/tests/test.elf"));
    assert_eq!(p.bin_path.as_deref(), Some("/out/tests/mytest-1234.bin"));
}

#[test]
fn plan_resolves_architecture_from_the_header() {
    let step = CargoTestPrepare::new_boxed(String::from("/out/t.elf"), false);
    let project = fresh_project();
    assert_eq!(step.plan(&project, &elf_image(EM_RISCV)).unwrap().arch, Arch::Riscv64);
    assert_eq!(step.plan(&project, &elf_image(EM_X86_64)).unwrap().arch, Arch::X86_64);
}

#[test]
fn commit_uses_the_planned_architecture_defaults() {
    let step = CargoTestPrepare::new_boxed(String::from("/out/t.elf"), false);
    let mut project = fresh_project();
    let out = step.plan(&project, &elf_image(EM_X86_64)).unwrap();
    let mut manifest: Vec<ManifestEntry> = vec![];
    step.commit(&mut project, &out, None, None, None, &mut manifest).unwrap();
    assert_eq!(project.arch, Arch::X86_64);
    assert_eq!(project.config.qemu.machine.as_deref(), Some("q35"));
}

#[test]
fn plan_rejects_an_unsupported_header_architecture_by_name() {
    let step = CargoTestPrepare::new_boxed(String::from("/out/t.elf"), false);
    let project = fresh_project();
    let e = step.plan(&project, &elf_image(EM_PPC)).unwrap_err();
    assert_eq!(e.kind(), ErrorKind::UnsupportedTarget);
    // the offending tag is reported by name, not as the image path
    assert!(!e.value().is_empty());
    assert_ne!(e.value().as_str(), "/out/t.elf");
}

#[test]
fn plan_rejects_unreadable_image_bytes() {
    let step = CargoTestPrepare::new_boxed(String::from("/out/t.elf"), false);
    let project = fresh_project();
    let e = step.plan(&project, &vec![0u8; 16]).unwrap_err();
    assert_eq!(e.kind(), ErrorKind::ArtifactPath);
    assert_eq!(e.value().as_str(), "/out/t.elf");
}

#[test]
fn plan_rejects_an_image_path_without_a_directory() {
    let step = CargoTestPrepare::new_boxed(String::from("bare.elf"), false);
    let project = fresh_project();
    let e = step.plan(&project, &elf_image(EM_AARCH64)).unwrap_err();
    assert_eq!(e.kind(), ErrorKind::ArtifactPath);
}

#[test]
fn test_scope_file_wholesale_replaces_the_base_section() {
    // base sets machine "virt"; the test-scope file holds only a
    // machine line; no manifest entry matches: machine is "none"
    let step = CargoTestPrepare::new_boxed(String::from("/out/t.elf"), false);
    let mut project = fresh_project();
    let out = step.plan(&project, &elf_image(EM_AARCH64)).unwrap();
    let frag = String::from("[qemu]\nmachine = \"none\"");
    let mut manifest: Vec<ManifestEntry> = vec![];
    step.commit(&mut project, &out, Some(&frag), None, None, &mut manifest).unwrap();
    assert_eq!(project.config.qemu.machine.as_deref(), Some("none"));
    // wholesale replacement: the default memory does not survive
    assert_eq!(project.config.qemu.memory, None);
}

#[test]
fn manifest_table_wins_over_the_test_scope_file() {
    // same as the previous scenario, plus a manifest entry keyed by
    // the resolved emulator binary name: the manifest wins
    let step = CargoTestPrepare::new_boxed(String::from("/out/t.elf"), false);
    let mut project = fresh_project();
    let out = step.plan(&project, &elf_image(EM_AARCH64)).unwrap();
    let frag = String::from("[qemu]\nmachine = \"none\"");
    let mut manifest = vec![ManifestEntry {
        key: String::from("qemu-system-aarch64"),
        qemu: Qemu { machine: Some(String::from("q35")), memory: None, extra_args: vec![] },
    }];
    step.commit(&mut project, &out, Some(&frag), None, None, &mut manifest).unwrap();
    assert_eq!(project.config.qemu.machine.as_deref(), Some("q35"));
}

#[test]
fn commit_rejects_a_malformed_override_file_and_commits_nothing() {
    let step = CargoTestPrepare::new_boxed(String::from("/out/t.elf"), false);
    let mut project = fresh_project();
    let out = step.plan(&project, &elf_image(EM_AARCH64)).unwrap();
    let frag = String::from("[qemu]\nmachine = none\n");
    let mut manifest: Vec<ManifestEntry> = vec![];
    let e = step
        .commit(&mut project, &out, Some(&frag), None, None, &mut manifest)
        .unwrap_err();
    assert_eq!(e.kind(), ErrorKind::ConfigParse);
    // the context was left untouched
    assert!(project.out_dir.is_none());
    assert!(project.bin_path.is_none());
}

#[test]
fn commit_with_selected_bootloader_persists_it() {
    let step = CargoTestPrepare::new_boxed(String::from("/out/t.elf"), true);
    let mut project = fresh_project();
    let out = step.plan(&project, &elf_image(EM_AARCH64)).unwrap();
    let mut manifest: Vec<ManifestEntry> = vec![];
    let chosen = UbootConfig {
        serial: String::from("serial0"),
        net: String::from("net0"),
        dtb_file: String::from("b.dtb"),
    };
    let w = step
        .commit(&mut project, &out, None, None, Some(&chosen), &mut manifest)
        .unwrap();
    let u = project.config.uboot.as_ref().expect("bootloader section must be set");
    assert_eq!(u.serial, "serial0");
    // the selection is written back so later runs are non-interactive
    assert_eq!(w.as_deref(), Some(encode_uboot_file(&chosen).as_str()));
}

#[test]
fn commit_with_user_file_reads_it_and_writes_nothing() {
    let step = CargoTestPrepare::new_boxed(String::from("/out/t.elf"), true);
    let mut project = fresh_project();
    let out = step.plan(&project, &elf_image(EM_AARCH64)).unwrap();
    let mut manifest: Vec<ManifestEntry> = vec![];
    let existing = encode_uboot_file(&UbootConfig {
        serial: String::from("ttyS0"),
        net: String::from("en0"),
        dtb_file: String::from("x.dtb"),
    });
    let w = step
        .commit(&mut project, &out, None, Some(&existing), None, &mut manifest)
        .unwrap();
    assert_eq!(project.config.uboot.as_ref().unwrap().serial, "ttyS0");
    assert!(w.is_none());
}

#[test]
fn commit_bootloader_without_any_source_fails() {
    let step = CargoTestPrepare::new_boxed(String::from("/out/t.elf"), true);
    let mut project = fresh_project();
    let out = step.plan(&project, &elf_image(EM_AARCH64)).unwrap();
    let mut manifest: Vec<ManifestEntry> = vec![];
    let e = step
        .commit(&mut project, &out, None, None, None, &mut manifest)
        .unwrap_err();
    assert_eq!(e.kind(), ErrorKind::ConfigIo);
}
