//! The ordered step pipeline: per-command step plans, the fail-fast
//! state machine that drives them, and the emulator invocation built
//! from the resolved configuration. Steps perform external work, so
//! the machine consumes their outcomes; once a step fails, the
//! machine is `Failed` and stays there, whatever comes later.

use vstd::prelude::*;

use crate::arch::spec_qemu_arch;
use crate::config::QemuV;
use crate::errors::{Error, ErrorKind};
use crate::project::{CmdSpec, Project};

verus! {

/// The requested command.
#[derive(Clone, Copy, Debug, PartialEq, Eq, Structural)]
pub enum Command {
    Build,
    Qemu { debug: bool, dtb: bool },
    Uboot,
}

/// One unit of work of the pipeline.
#[derive(Clone, Copy, Debug, PartialEq, Eq, Structural)]
pub enum StepKind {
    Compile { debug: bool },
    TestPrepare,
    EmulatorLaunch { debug: bool, dtb: bool },
    BootloaderStage,
}

/// The state of a pipeline run.
#[derive(Clone, Copy, Debug, PartialEq, Eq, Structural)]
pub enum PipelineState {
    Ready,
    Running(usize),
    Failed,
    Complete,
}

/// The step sequence a command asks for.
pub open spec fn spec_plan(cmd: Command) -> Seq<StepKind> {
    match cmd {
        Command::Build => seq![StepKind::Compile { debug: false }],
        Command::Qemu { debug, dtb } => seq![
            StepKind::Compile { debug },
            StepKind::EmulatorLaunch { debug, dtb },
        ],
        Command::Uboot => seq![StepKind::Compile { debug: false }, StepKind::BootloaderStage],
    }
}

/// Assemble the step plan for a command.
pub fn plan(cmd: Command) -> (r: Vec<StepKind>)
    ensures
        r@ == spec_plan(cmd),
{
    let mut r: Vec<StepKind> = Vec::new();
    match cmd {
        Command::Build => {
            r.push(StepKind::Compile { debug: false });
        },
        Command::Qemu { debug, dtb } => {
            r.push(StepKind::Compile { debug });
            r.push(StepKind::EmulatorLaunch { debug, dtb });
        },
        Command::Uboot => {
            r.push(StepKind::Compile { debug: false });
            r.push(StepKind::BootloaderStage);
        },
    }
    proof {
        assert(r@ =~= spec_plan(cmd));
    }
    r
}

/// The step sequence of the test-harness entry point.
pub open spec fn spec_plan_test() -> Seq<StepKind> {
    seq![StepKind::TestPrepare, StepKind::EmulatorLaunch { debug: false, dtb: false }]
}

/// Assemble the test-harness step plan: prepare the test image, then
/// launch the emulator.
pub fn plan_test() -> (r: Vec<StepKind>)
    ensures
        r@ == spec_plan_test(),
{
    let mut r: Vec<StepKind> = Vec::new();
    r.push(StepKind::TestPrepare);
    r.push(StepKind::EmulatorLaunch { debug: false, dtb: false });
    proof {
        assert(r@ =~= spec_plan_test());
    }
    r
}

/// The state a pipeline of `n` steps starts in.
pub open spec fn spec_start(n: int) -> PipelineState {
    if n == 0 {
        PipelineState::Complete
    } else {
        PipelineState::Running(0)
    }
}

/// One transition of the machine: record the outcome of the running
/// step. `Failed` and `Complete` are terminal and absorb everything.
pub open spec fn spec_record(st: PipelineState, ok: bool, n: int) -> PipelineState {
    match st {
        PipelineState::Ready => PipelineState::Ready,
        PipelineState::Running(i) => if !ok {
            PipelineState::Failed
        } else if i + 1 < n {
            PipelineState::Running((i + 1) as usize)
        } else {
            PipelineState::Complete
        },
        PipelineState::Failed => PipelineState::Failed,
        PipelineState::Complete => PipelineState::Complete,
    }
}

/// The state after the machine has consumed a sequence of outcomes.
pub open spec fn spec_run(n: int, outcomes: Seq<bool>) -> PipelineState
    decreases outcomes.len(),
{
    if outcomes.len() == 0 {
        spec_start(n)
    } else {
        spec_record(spec_run(n, outcomes.drop_last()), outcomes.last(), n)
    }
}

/// Enter the pipeline: `Complete` at once when there is nothing to do,
/// else the first step is running.
pub fn start(n: usize) -> (r: PipelineState)
    ensures
        r == spec_start(n as int),
{
    if n == 0 {
        PipelineState::Complete
    } else {
        PipelineState::Running(0)
    }
}

/// Record one step outcome.
pub fn record_outcome(st: PipelineState, ok: bool, n: usize) -> (r: PipelineState)
    requires
        st is Running ==> st->0 < n,
    ensures
        r == spec_record(st, ok, n as int),
{
    match st {
        PipelineState::Ready => PipelineState::Ready,
        PipelineState::Running(i) => {
            if !ok {
                PipelineState::Failed
            } else if i + 1 < n {
                PipelineState::Running(i + 1)
            } else {
                PipelineState::Complete
            }
        },
        PipelineState::Failed => PipelineState::Failed,
        PipelineState::Complete => PipelineState::Complete,
    }
}

/// The exact state after any run: `Failed` as soon as one outcome is
/// a failure, `Complete` only when every step succeeded, and
/// otherwise still running the next step.
proof fn lemma_run_state(n: int, outcomes: Seq<bool>)
    requires
        0 <= outcomes.len() <= n,
        n <= usize::MAX,
    ensures
        (exists|i: int| 0 <= i < outcomes.len() && !outcomes[i]) ==> spec_run(n, outcomes)
            == PipelineState::Failed,
        (forall|i: int| 0 <= i < outcomes.len() ==> outcomes[i]) ==> spec_run(n, outcomes) == (
        if outcomes.len() == n {
            PipelineState::Complete
        } else {
            PipelineState::Running(outcomes.len() as usize)
        }),
    decreases outcomes.len(),
{
    if outcomes.len() > 0 {
        lemma_run_state(n, outcomes.drop_last());
        assert(forall|i: int|
            0 <= i < outcomes.len() - 1 ==> outcomes.drop_last()[i] == outcomes[i]);
        if exists|i: int| 0 <= i < outcomes.len() && !outcomes[i] {
            let i = choose|i: int| 0 <= i < outcomes.len() && !outcomes[i];
            if i < outcomes.len() - 1 {
                assert(!outcomes.drop_last()[i]);
            }
        }
    }
}

/// Fail-fast: one failed step outcome makes the whole run `Failed`,
/// and since `Failed` absorbs every later outcome, no later step is
/// ever the running one again.
pub proof fn lemma_fail_fast(n: int, outcomes: Seq<bool>, i: int)
    requires
        outcomes.len() <= n,
        n <= usize::MAX,
        0 <= i < outcomes.len(),
        !outcomes[i],
    ensures
        spec_run(n, outcomes) == PipelineState::Failed,
        forall|ok: bool| spec_record(spec_run(n, outcomes), ok, n) == PipelineState::Failed,
{
    lemma_run_state(n, outcomes);
}

/// A pipeline whose every step succeeded is `Complete`.
pub proof fn lemma_pipeline_complete(n: int, outcomes: Seq<bool>)
    requires
        outcomes.len() == n,
        0 <= n <= usize::MAX,
        forall|i: int| 0 <= i < outcomes.len() ==> outcomes[i],
    ensures
        spec_run(n, outcomes) == PipelineState::Complete,
{
    lemma_run_state(n, outcomes);
}

/// The emulator argument list: machine type and memory size when
/// configured, the extra arguments, the kernel image, then the
/// device-tree and debug flags.
pub open spec fn spec_emulator_args(q: QemuV, kernel: Seq<char>, debug: bool, dtb: bool) -> Seq<
    Seq<char>,
> {
    (match q.machine {
        Some(m) => seq!["-machine"@, m],
        None => Seq::<Seq<char>>::empty(),
    }) + (match q.memory {
        Some(m) => seq!["-m"@, m],
        None => Seq::<Seq<char>>::empty(),
    }) + q.extra_args + seq!["-kernel"@, kernel] + (if dtb {
        seq!["-dtb"@, "qemu.dtb"@]
    } else {
        Seq::<Seq<char>>::empty()
    }) + (if debug {
        seq!["-s"@, "-S"@]
    } else {
        Seq::<Seq<char>>::empty()
    })
}

/// Build the emulator invocation from the resolved context: the
/// binary is selected by the architecture, the arguments by the
/// resolved `qemu` section and the flags. A context without a raw
/// binary image is an `ArtifactPath` error.
pub fn emulator_cmd(project: &Project, debug: bool, dtb: bool) -> (r: Result<CmdSpec, Error>)
    ensures
        match r {
            Ok(c) => project.bin_path is Some && c@.program == spec_qemu_arch(project.arch)
                && c@.current_dir == project.workdir@ && c@.args == spec_emulator_args(
                project.config.qemu@,
                project.bin_path->Some_0@,
                debug,
                dtb,
            ),
            Err(e) => project.bin_path is None && e.kind == ErrorKind::ArtifactPath,
        },
{
    let kernel = match &project.bin_path {
        Some(b) => b,
        None => {
            return Err(
                Error::new(
                    ErrorKind::ArtifactPath,
                    String::from_str("no raw binary image has been prepared"),
                ),
            );
        },
    };
    let mut args: Vec<String> = Vec::new();
    match &project.config.qemu.machine {
        Some(m) => {
            args.push(String::from_str("-machine"));
            args.push(m.clone());
        },
        None => {},
    }
    match &project.config.qemu.memory {
        Some(m) => {
            args.push(String::from_str("-m"));
            args.push(m.clone());
        },
        None => {},
    }
    let ghost mid = args.deep_view();
    let n = project.config.qemu.extra_args.len();
    let mut i: usize = 0;
    while i < n
        invariant
            mid == (match project.config.qemu@.machine {
                Some(m) => seq!["-machine"@, m],
                None => Seq::<Seq<char>>::empty(),
            }) + (match project.config.qemu@.memory {
                Some(m) => seq!["-m"@, m],
                None => Seq::<Seq<char>>::empty(),
            }),
            n == project.config.qemu.extra_args@.len(),
            0 <= i <= n,
            args.deep_view() =~= mid + project.config.qemu.extra_args.deep_view().take(i as int),
        decreases n - i,
    {
        let ghost before = args.deep_view();
        args.push(project.config.qemu.extra_args[i].clone());
        proof {
            assert(args.deep_view() =~= before.push(
                project.config.qemu.extra_args@[i as int]@,
            ));
            assert(project.config.qemu.extra_args.deep_view().take(i + 1)
                =~= project.config.qemu.extra_args.deep_view().take(i as int).push(
                project.config.qemu.extra_args@[i as int]@,
            ));
        }
        i += 1;
    }
    proof {
        assert(project.config.qemu.extra_args.deep_view().take(n as int)
            =~= project.config.qemu.extra_args.deep_view());
    }
    let ghost a0 = args.deep_view();
    args.push(String::from_str("-kernel"));
    args.push(kernel.clone());
    let ghost a1 = args.deep_view();
    proof {
        assert(a1 =~= a0 + seq!["-kernel"@, project.bin_path->Some_0@]);
    }
    if dtb {
        args.push(String::from_str("-dtb"));
        args.push(String::from_str("qemu.dtb"));
    }
    let ghost a2 = args.deep_view();
    proof {
        if dtb {
            assert(a2 =~= a1 + seq!["-dtb"@, "qemu.dtb"@]);
        } else {
            assert(a2 =~= a1 + Seq::<Seq<char>>::empty());
        }
    }
    if debug {
        args.push(String::from_str("-s"));
        args.push(String::from_str("-S"));
    }
    proof {
        if debug {
            assert(args.deep_view() =~= a2 + seq!["-s"@, "-S"@]);
        } else {
            assert(args.deep_view() =~= a2 + Seq::<Seq<char>>::empty());
        }
    }
    let c = CmdSpec {
        program: project.arch.qemu_arch(),
        args,
        current_dir: project.workdir.clone(),
    };
    proof {
        assert(c@.args =~= spec_emulator_args(
            project.config.qemu@,
            project.bin_path->Some_0@,
            debug,
            dtb,
        ));
    }
    Ok(c)
}

} // verus!
