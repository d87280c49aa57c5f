use ostool::arch::Arch;
use ostool::codec::encode_config;
use ostool::config::{CompileConfig, ProjectConfig, Qemu};
use ostool::errors::ErrorKind;
use ostool::pipeline::{
    emulator_cmd, plan, plan_test, record_outcome, start, Command, PipelineState, StepKind,
};
use ostool::project::Project;

#[test]
fn plan_build() {
    assert_eq!(plan(Command::Build), vec![StepKind::Compile { debug: false }]);
}

#[test]
fn plan_qemu_carries_flags() {
    assert_eq!(
        plan(Command::Qemu { debug: true, dtb: false }),
        vec![
            StepKind::Compile { debug: true },
            StepKind::EmulatorLaunch { debug: true, dtb: false },
        ]
    );
}

#[test]
fn plan_uboot() {
    assert_eq!(
        plan(Command::Uboot),
        vec![StepKind::Compile { debug: false }, StepKind::BootloaderStage]
    );
}

#[test]
fn plan_test_prepares_then_launches() {
    assert_eq!(
        plan_test(),
        vec![
            StepKind::TestPrepare,
            StepKind::EmulatorLaunch { debug: false, dtb: false },
        ]
    );
}

#[test]
fn pipeline_completes_when_every_step_succeeds() {
    let steps = plan(Command::Qemu { debug: false, dtb: false });
    let n = steps.len();
    let mut st = start(n);
    assert_eq!(st, PipelineState::Running(0));
    st = record_outcome(st, true, n);
    assert_eq!(st, PipelineState::Running(1));
    st = record_outcome(st, true, n);
    assert_eq!(st, PipelineState::Complete);
}

#[test]
fn empty_pipeline_is_complete_at_once() {
    assert_eq!(start(0), PipelineState::Complete);
}

#[test]
fn pipeline_fails_fast_before_emulator_launch() {
    // the test plan runs the preparation first; when its tool
    // invocation fails, the machine is Failed and the launch step
    // never becomes the running one
    let steps = plan_test();
    let n = steps.len();
    assert_eq!(steps[1], StepKind::EmulatorLaunch { debug: false, dtb: false });
    let mut st = start(n);
    assert_eq!(st, PipelineState::Running(0));
    st = record_outcome(st, false, n);
    assert_eq!(st, PipelineState::Failed);
    // Failed absorbs whatever would come later
    assert_eq!(record_outcome(st, true, n), PipelineState::Failed);
    assert_eq!(record_outcome(st, false, n), PipelineState::Failed);
}

fn launch_project() -> Project {
    let c = ProjectConfig {
        compile: CompileConfig {
            target: String::from("aarch64-unknown-none"),
            package: String::from("kernel"),
        },
        qemu: Qemu {
            machine: Some(String::from("virt")),
            memory: Some(String::from("1G")),
            extra_args: vec![String::from("-nographic")],
        },
        uboot: None,
    };
    let text = encode_config(&c);
    let mut p = Project::new(String::from("/work"), Some(&text)).unwrap().0;
    p.bin_path = Some(String::from("/work/out/test.bin"));
    p
}

#[test]
fn emulator_cmd_builds_the_full_invocation() {
    let p = launch_project();
    let c = emulator_cmd(&p, false, false).unwrap();
    assert_eq!(c.program, "qemu-system-aarch64");
    assert_eq!(c.current_dir, "/work");
    assert_eq!(
        c.args,
        vec!["-machine", "virt", "-m", "1G", "-nographic", "-kernel", "/work/out/test.bin"]
    );
}

#[test]
fn emulator_cmd_debug_and_dtb_flags() {
    let p = launch_project();
    let c = emulator_cmd(&p, true, true).unwrap();
    assert_eq!(
        c.args,
        vec![
            "-machine",
            "virt",
            "-m",
            "1G",
            "-nographic",
            "-kernel",
            "/work/out/test.bin",
            "-dtb",
            "qemu.dtb",
            "-s",
            "-S",
        ]
    );
}

#[test]
fn emulator_cmd_needs_a_prepared_binary() {
    let mut p = launch_project();
    p.bin_path = None;
    let e = emulator_cmd(&p, false, false).unwrap_err();
    assert_eq!(e.kind(), ErrorKind::ArtifactPath);
}

#[test]
fn emulator_cmd_follows_architecture() {
    let mut p = launch_project();
    p.arch = Arch::Riscv64;
    assert_eq!(emulator_cmd(&p, false, false).unwrap().program, "qemu-system-riscv64");
}
