use ostool::arch::Arch;
use ostool::codec::encode_config;
use ostool::config::{CompileConfig, ProjectConfig, Qemu};
use ostool::errors::ErrorKind;
use ostool::project::{PackageMeta, Project};

fn custom_config(target: &str) -> ProjectConfig {
    ProjectConfig {
        compile: CompileConfig { target: String::from(target), package: String::from("kernel") },
        qemu: Qemu { machine: Some(String::from("virt")), memory: None, extra_args: vec![] },
        uboot: None,
    }
}

#[test]
fn new_without_file_synthesizes_and_persists_defaults() {
    let (p, write_back) = Project::new(String::from("/work"), None).unwrap();
    assert_eq!(p.arch, Arch::Aarch64);
    assert_eq!(p.workdir, "/work");
    assert_eq!(p.config.compile.target, "aarch64-unknown-none");
    assert!(p.out_dir.is_none() && p.elf_path.is_none() && p.bin_path.is_none());
    // the synthesized text is exactly the encoding of the defaults
    let text = write_back.expect("a fresh project must persist its configuration");
    assert_eq!(text, encode_config(&ProjectConfig::new(Arch::Aarch64)));
}

#[test]
fn new_with_file_reads_it_and_writes_nothing() {
    let text = encode_config(&custom_config("riscv64gc-unknown-none-elf"));
    let (p, write_back) = Project::new(String::from("/work"), Some(&text)).unwrap();
    assert!(write_back.is_none(), "a present file must not be rewritten");
    assert_eq!(p.arch, Arch::Riscv64);
    assert_eq!(p.config.compile.package, "kernel");
}

#[test]
fn new_rejects_malformed_file() {
    let e = Project::new(String::from("/work"), Some("not a config")).unwrap_err();
    assert_eq!(e.kind(), ErrorKind::ConfigParse);
}

#[test]
fn new_rejects_unknown_target() {
    let text = encode_config(&custom_config("powerpc-unknown-none"));
    let e = Project::new(String::from("/work"), Some(&text)).unwrap_err();
    assert_eq!(e.kind(), ErrorKind::UnsupportedTarget);
}

#[test]
fn config_path_defaults_under_workdir() {
    assert_eq!(Project::config_path("/work", None), "/work/.project.toml");
    assert_eq!(
        Project::config_path("/work", Some(String::from("/etc/other.toml"))),
        "/etc/other.toml"
    );
}

fn sample_project() -> Project {
    let text = encode_config(&custom_config("aarch64-unknown-none"));
    Project::new(String::from("/work"), Some(&text)).unwrap().0
}

#[test]
fn output_dir_is_keyed_by_target_and_profile() {
    let p = sample_project();
    assert_eq!(p.output_dir(true), "/work/target/aarch64-unknown-none/debug");
    assert_eq!(p.output_dir(false), "/work/target/aarch64-unknown-none/release");
}

#[test]
fn shell_runs_in_workdir() {
    let p = sample_project();
    let c = p.shell(String::from("rust-objcopy"));
    assert_eq!(c.program, "rust-objcopy");
    assert!(c.args.is_empty());
    assert_eq!(c.current_dir, "/work");
}

#[test]
fn install_deps_plans_both_commands() {
    let p = sample_project();
    let cmds = p.install_deps();
    assert_eq!(cmds.len(), 2);
    assert_eq!(cmds[0].program, "cargo");
    assert_eq!(cmds[0].args, vec!["install", "cargo-binutils"]);
    assert_eq!(cmds[0].current_dir, "/work");
    assert_eq!(cmds[1].program, "rustup");
    assert_eq!(cmds[1].args, vec!["component", "add", "llvm-tools-preview", "rust-src"]);
    assert_eq!(cmds[1].current_dir, "/work");
}

#[test]
fn compile_cmd_release_and_debug() {
    let p = sample_project();
    let release = p.compile_cmd(false);
    assert_eq!(release.program, "cargo");
    assert_eq!(
        release.args,
        vec!["build", "--target", "aarch64-unknown-none", "-p", "kernel", "--release"]
    );
    let debug = p.compile_cmd(true);
    assert_eq!(debug.args, vec!["build", "--target", "aarch64-unknown-none", "-p", "kernel"]);
}

#[test]
fn package_metadata_finds_the_configured_package() {
    let p = sample_project();
    let mut packages = vec![
        PackageMeta { name: String::from("other"), dependencies: vec![String::from("x")] },
        PackageMeta {
            name: String::from("kernel"),
            dependencies: vec![String::from("alloc-shim"), String::from("boot")],
        },
    ];
    let m = p.package_metadata(&mut packages).unwrap();
    assert_eq!(m.name, "kernel");
    assert_eq!(m.dependencies, vec!["alloc-shim", "boot"]);
}

#[test]
fn package_dependencies_of_missing_package_fail() {
    let p = sample_project();
    let mut packages = vec![PackageMeta { name: String::from("other"), dependencies: vec![] }];
    let e = p.package_dependencies(&mut packages).unwrap_err();
    assert_eq!(e.kind(), ErrorKind::ConfigParse);
    assert_eq!(e.value().as_str(), "kernel");
}

#[test]
fn package_dependencies_lists_names_in_order() {
    let p = sample_project();
    let mut packages = vec![PackageMeta {
        name: String::from("kernel"),
        dependencies: vec![String::from("b"), String::from("a")],
    }];
    assert_eq!(p.package_dependencies(&mut packages).unwrap(), vec!["b", "a"]);
}
