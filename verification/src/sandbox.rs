//! The life of a sandbox: from the first look for leftovers to the deletion of the
//! VM, as a machine that says what to do next and is told how it went.
use vstd::prelude::*;

use crate::agent::{start_args, start_vm_with_shares};
use crate::config::SandboxConfig;
use crate::mount::{project_share, share_project, share_views, DirShare, ShareView};
use crate::names::{below_root, guest_config};
use crate::text::texts;
use crate::tools::BinaryDirShare;
use crate::vm::guest_setup::{command_views, setup_commands, setup_guest, GuestCommand};
use crate::vm::image::validate_image;
use crate::vm::tart::TartVm;
use crate::vm::{vm_config, Vm};

verus! {

/// Something that is done in the course of a run.
#[derive(Clone, Copy, Debug, PartialEq, Eq, Structural)]
pub enum Step {
    /// Delete VMs that earlier runs left behind.
    Reap,
    /// Insist on an image. This only ever fails.
    RequireImage,
    /// Make the base image available.
    ResolveImage,
    /// Smoke-boot the base image.
    ValidateImage,
    /// Generate an ephemeral SSH keypair.
    GenerateKey,
    /// Prepare the agent's configuration and resolve the allowed binaries.
    PrepareTools,
    /// Find the agent's binary on the host.
    FindAgent,
    /// Boot a clone of a warm VM.
    WarmBoot,
    /// Clone the base image.
    CreateVm,
    /// Inject the SSH key into the cloned disk.
    InjectKey,
    /// Boot the VM in the background.
    StartVm,
    /// Get the IP address of the VM.
    GetIp,
    /// Wait until the VM takes SSH connections.
    WaitForSsh,
    /// Mount the shares, copy the configuration, build the symlink farm.
    SetUpGuest,
    /// Run the agent in the VM.
    RunAgent,
    /// Stop the VM after a successful run.
    StopVm,
    /// Wait for the background process of a stopped VM.
    WaitForVm,
    /// Delete the VM after a successful run.
    DeleteVm,
    /// Stop the VM after a failure.
    CleanStop,
    /// Wait for the background process after a failure.
    CleanWait,
    /// Delete the VM after a failure.
    CleanDelete,
    /// Mount the project in a warm clone.
    WarmSetUp,
    /// Send the settings to a warm clone.
    SendSettings,
    /// Send the agent's state to a warm clone.
    SendState,
    /// Run the agent in a warm clone.
    WarmRunAgent,
    /// Stop a warm clone.
    WarmStop,
    /// Wait for the background process of a warm clone.
    WarmWait,
    /// Delete a warm clone.
    WarmDelete,
    /// The run is over.
    Done,
}

/// How a step went.
#[derive(Clone, Copy, Debug, PartialEq, Eq, Structural)]
pub enum StepResult {
    /// It succeeded. The number is the exit code of the agent where it was run, the
    /// number of binary shares where the tools were prepared, and means nothing
    /// elsewhere.
    Succeeded(i32),
    /// It failed.
    Failed,
}

/// A run of a sandbox.
#[derive(Clone, Copy, Debug, PartialEq, Eq, Structural)]
pub struct Run {
    /// Whether an image is configured.
    pub image: bool,
    /// Whether the image is smoke-booted first.
    pub validate: bool,
    /// Whether the configuration lets the warm pool be used.
    pub warm: bool,
    /// Whether the VM outlives the run.
    pub persist: bool,
    /// Whether there are binary shares.
    pub binaries: bool,
    /// Whether a background process runs the VM.
    pub child: bool,
    /// Whether a VM was created that was not asked to be deleted.
    pub vm: bool,
    /// What is to be done now.
    pub step: Step,
    /// The exit code of the agent.
    pub exit_code: i32,
    /// The step whose error is the error of the run.
    pub failed: Option<Step>,
    /// Whether an interrupt cut the run short.
    pub interrupted: bool,
}

/// The first step of a run.
pub open spec fn run_start(config: SandboxConfig) -> Run {
    Run {
        image: config.vm_image is Some,
        validate: config.validate_image,
        warm: config.warm_pool && config.vm_name is None && !config.persist,
        persist: config.persist,
        binaries: false,
        child: false,
        vm: false,
        step: Step::Reap,
        exit_code: 0,
        failed: None,
        interrupted: false,
    }
}

/// The number that a step gave back.
pub open spec fn number_of(result: StepResult) -> i32 {
    match result {
        StepResult::Succeeded(n) => n,
        StepResult::Failed => 0,
    }
}

/// What follows where the step fails, and the failure is the run's.
pub open spec fn run_failed(r: Run) -> Run {
    let step = match r.step {
        Step::InjectKey
        | Step::StartVm
        | Step::GetIp
        | Step::WaitForSsh
        | Step::SetUpGuest
        | Step::RunAgent => if r.persist {
            Step::Done
        } else {
            Step::CleanStop
        },
        Step::StopVm => if r.persist {
            Step::Done
        } else {
            Step::CleanWait
        },
        Step::WarmSetUp | Step::SendSettings | Step::SendState | Step::WarmRunAgent =>
            Step::WarmStop,
        _ => Step::Done,
    };
    Run { step, failed: Some(r.step), vm: r.vm && r.step != Step::DeleteVm, ..r }
}

/// What follows where the step succeeds, or may fail without consequences.
pub open spec fn run_goes_on(r: Run, n: i32) -> Run {
    match r.step {
        Step::Reap => if r.image {
            Run { step: Step::ResolveImage, ..r }
        } else {
            Run { step: Step::Done, failed: Some(Step::RequireImage), ..r }
        },
        Step::ResolveImage => if r.validate {
            Run { step: Step::ValidateImage, ..r }
        } else {
            Run { step: Step::GenerateKey, ..r }
        },
        Step::ValidateImage => Run { step: Step::GenerateKey, ..r },
        Step::GenerateKey => Run { step: Step::PrepareTools, ..r },
        Step::PrepareTools => Run { step: Step::FindAgent, binaries: n != 0, ..r },
        Step::FindAgent => if r.warm && !r.binaries {
            Run { step: Step::WarmBoot, ..r }
        } else {
            Run { step: Step::CreateVm, ..r }
        },
        Step::WarmBoot => Run { step: Step::WarmSetUp, vm: true, child: true, ..r },
        Step::CreateVm => Run { step: Step::InjectKey, vm: true, ..r },
        Step::InjectKey => Run { step: Step::StartVm, ..r },
        Step::StartVm => Run { step: Step::GetIp, child: true, ..r },
        Step::GetIp => Run { step: Step::WaitForSsh, ..r },
        Step::WaitForSsh => Run { step: Step::SetUpGuest, ..r },
        Step::SetUpGuest => Run { step: Step::RunAgent, ..r },
        Step::RunAgent => Run { step: Step::StopVm, exit_code: n, ..r },
        Step::StopVm => Run { step: Step::WaitForVm, ..r },
        Step::WaitForVm => if r.persist {
            Run { step: Step::Done, ..r }
        } else {
            Run { step: Step::DeleteVm, ..r }
        },
        Step::DeleteVm => Run { step: Step::Done, vm: false, ..r },
        Step::CleanStop => if r.child {
            Run { step: Step::CleanWait, ..r }
        } else {
            Run { step: Step::CleanDelete, ..r }
        },
        Step::CleanWait => Run { step: Step::CleanDelete, ..r },
        Step::CleanDelete => Run { step: Step::Done, vm: false, ..r },
        Step::WarmSetUp => Run { step: Step::SendSettings, ..r },
        Step::SendSettings => Run { step: Step::SendState, ..r },
        Step::SendState => Run { step: Step::WarmRunAgent, ..r },
        Step::WarmRunAgent => Run { step: Step::WarmStop, exit_code: n, ..r },
        Step::WarmStop => Run { step: Step::WarmWait, ..r },
        Step::WarmWait => Run { step: Step::WarmDelete, ..r },
        Step::WarmDelete => Run { step: Step::Done, vm: false, ..r },
        Step::RequireImage | Step::Done => r,
    }
}

/// The steps whose failure has no consequences: the look for leftovers, and all that
/// tears a VM down after a failure or after a warm run.
pub open spec fn may_fail(step: Step) -> bool {
    match step {
        Step::Reap
        | Step::WaitForVm
        | Step::CleanStop
        | Step::CleanWait
        | Step::CleanDelete
        | Step::WarmStop
        | Step::WarmWait
        | Step::WarmDelete
        | Step::RequireImage
        | Step::Done => true,
        _ => false,
    }
}

/// What follows a step. A warm boot that fails is followed by a cold one.
pub open spec fn run_after(r: Run, result: StepResult) -> Run {
    if result != StepResult::Failed || may_fail(r.step) {
        run_goes_on(r, number_of(result))
    } else if r.step == Step::WarmBoot {
        Run { step: Step::CreateVm, ..r }
    } else {
        run_failed(r)
    }
}

/// Whether a step tears a VM down, or nothing is left to be done.
pub open spec fn is_teardown(step: Step) -> bool {
    match step {
        Step::StopVm
        | Step::WaitForVm
        | Step::DeleteVm
        | Step::CleanStop
        | Step::CleanWait
        | Step::CleanDelete
        | Step::WarmStop
        | Step::WarmWait
        | Step::WarmDelete
        | Step::Done => true,
        _ => false,
    }
}

/// What follows an interrupt: the same as a failure of the step that would have been
/// next. A teardown goes on as if there had been none.
pub open spec fn run_interrupted(r: Run) -> Run {
    if is_teardown(r.step) {
        r
    } else {
        Run { interrupted: true, ..run_failed(r) }
    }
}

/// How a step went, and whether the run was interrupted meanwhile.
pub struct StepReport {
    pub result: StepResult,
    pub interrupted: bool,
}

/// What follows a step.
pub open spec fn run_told(r: Run, report: StepReport) -> Run {
    if report.interrupted {
        run_interrupted(run_after(r, report.result))
    } else {
        run_after(r, report.result)
    }
}

/// A run after some reports.
pub open spec fn run_through(r: Run, reports: Seq<StepReport>) -> Run
    decreases reports.len(),
{
    if reports.len() == 0 {
        r
    } else {
        run_told(run_through(r, reports.drop_last()), reports.last())
    }
}

/// What holds of a run at all times.
pub open spec fn run_inv(r: Run) -> bool {
    &&& r.warm ==> !r.persist
    &&& match r.step {
        Step::InjectKey
        | Step::StartVm
        | Step::CleanStop
        | Step::CleanWait
        | Step::CleanDelete => r.vm,
        Step::GetIp
        | Step::WaitForSsh
        | Step::SetUpGuest
        | Step::RunAgent
        | Step::StopVm
        | Step::WaitForVm
        | Step::DeleteVm => r.vm && r.child,
        Step::WarmSetUp
        | Step::SendSettings
        | Step::SendState
        | Step::WarmRunAgent
        | Step::WarmStop
        | Step::WarmWait
        | Step::WarmDelete => r.vm && r.child && r.warm && !r.binaries,
        Step::Done => r.vm ==> r.persist,
        _ => !r.vm && !r.child,
    }
    &&& match r.step {
        Step::DeleteVm | Step::CleanStop | Step::CleanWait | Step::CleanDelete => !r.persist,
        Step::WarmBoot => r.warm && !r.binaries,
        Step::RequireImage => false,
        _ => true,
    }
    &&& match r.step {
        Step::CleanStop | Step::CleanWait | Step::CleanDelete => r.failed is Some,
        Step::WarmStop | Step::WarmWait | Step::WarmDelete | Step::Done => true,
        _ => r.failed is None,
    }
}

/// A sandbox with its configuration.
pub struct Sandbox {
    config: SandboxConfig,
}

impl Sandbox {
    /// The configuration.
    pub closed spec fn configured(&self) -> SandboxConfig {
        self.config
    }

    /// A sandbox with the given configuration.
    pub fn new(config: SandboxConfig) -> (r: Self)
        ensures
            r.configured() == config,
    {
        Sandbox { config }
    }

    /// The configuration of the sandbox.
    pub fn config(&self) -> (r: &SandboxConfig)
        ensures
            *r == self.configured(),
    {
        &self.config
    }

    /// Start the full lifecycle of a sandbox, which ends with the exit code of the
    /// agent.
    pub fn run(&self) -> (r: Run)
        ensures
            r == run_start(self.configured()),
            run_inv(r),
    {
        Run {
            image: self.config.vm_image.is_some(),
            validate: self.config.validate_image,
            warm: self.config.warm_pool && self.config.vm_name.is_none() && !self.config.persist,
            persist: self.config.persist,
            binaries: false,
            child: false,
            vm: false,
            step: Step::Reap,
            exit_code: 0,
            failed: None,
            interrupted: false,
        }
    }
}

impl Run {
    fn may_fail(&self) -> (r: bool)
        ensures
            r == may_fail(self.step),
    {
        match self.step {
            Step::Reap
            | Step::WaitForVm
            | Step::CleanStop
            | Step::CleanWait
            | Step::CleanDelete
            | Step::WarmStop
            | Step::WarmWait
            | Step::WarmDelete
            | Step::RequireImage
            | Step::Done => true,
            _ => false,
        }
    }

    fn fail(&mut self)
        ensures
            *final(self) == run_failed(*old(self)),
    {
        let step = self.step;
        self.failed = Some(step);
        match step {
            Step::InjectKey
            | Step::StartVm
            | Step::GetIp
            | Step::WaitForSsh
            | Step::SetUpGuest
            | Step::RunAgent => {
                self.step = if self.persist {
                    Step::Done
                } else {
                    Step::CleanStop
                };
            },
            Step::StopVm => {
                self.step = if self.persist {
                    Step::Done
                } else {
                    Step::CleanWait
                };
            },
            Step::WarmSetUp | Step::SendSettings | Step::SendState | Step::WarmRunAgent => {
                self.step = Step::WarmStop;
            },
            Step::DeleteVm => {
                self.vm = false;
                self.step = Step::Done;
            },
            _ => {
                self.step = Step::Done;
            },
        }
    }

    fn go_on(&mut self, n: i32)
        ensures
            *final(self) == run_goes_on(*old(self), n),
    {
        match self.step {
            Step::Reap => {
                if self.image {
                    self.step = Step::ResolveImage;
                } else {
                    self.step = Step::Done;
                    self.failed = Some(Step::RequireImage);
                }
            },
            Step::ResolveImage => {
                self.step = if self.validate {
                    Step::ValidateImage
                } else {
                    Step::GenerateKey
                };
            },
            Step::ValidateImage => {
                self.step = Step::GenerateKey;
            },
            Step::GenerateKey => {
                self.step = Step::PrepareTools;
            },
            Step::PrepareTools => {
                self.step = Step::FindAgent;
                self.binaries = n != 0;
            },
            Step::FindAgent => {
                self.step = if self.warm && !self.binaries {
                    Step::WarmBoot
                } else {
                    Step::CreateVm
                };
            },
            Step::WarmBoot => {
                self.step = Step::WarmSetUp;
                self.vm = true;
                self.child = true;
            },
            Step::CreateVm => {
                self.step = Step::InjectKey;
                self.vm = true;
            },
            Step::InjectKey => {
                self.step = Step::StartVm;
            },
            Step::StartVm => {
                self.step = Step::GetIp;
                self.child = true;
            },
            Step::GetIp => {
                self.step = Step::WaitForSsh;
            },
            Step::WaitForSsh => {
                self.step = Step::SetUpGuest;
            },
            Step::SetUpGuest => {
                self.step = Step::RunAgent;
            },
            Step::RunAgent => {
                self.step = Step::StopVm;
                self.exit_code = n;
            },
            Step::StopVm => {
                self.step = Step::WaitForVm;
            },
            Step::WaitForVm => {
                self.step = if self.persist {
                    Step::Done
                } else {
                    Step::DeleteVm
                };
            },
            Step::CleanStop => {
                self.step = if self.child {
                    Step::CleanWait
                } else {
                    Step::CleanDelete
                };
            },
            Step::CleanWait => {
                self.step = Step::CleanDelete;
            },
            Step::WarmSetUp => {
                self.step = Step::SendSettings;
            },
            Step::SendSettings => {
                self.step = Step::SendState;
            },
            Step::SendState => {
                self.step = Step::WarmRunAgent;
            },
            Step::WarmRunAgent => {
                self.step = Step::WarmStop;
                self.exit_code = n;
            },
            Step::WarmStop => {
                self.step = Step::WarmWait;
            },
            Step::WarmWait => {
                self.step = Step::WarmDelete;
            },
            Step::DeleteVm | Step::CleanDelete | Step::WarmDelete => {
                self.step = Step::Done;
                self.vm = false;
            },
            Step::RequireImage | Step::Done => {},
        }
    }

    /// Take note of how the step went, and move on to the next.
    pub fn next(&mut self, result: StepResult)
        ensures
            *final(self) == run_after(*old(self), result),
            run_inv(*old(self)) ==> run_inv(*final(self)),
    {
        match result {
            StepResult::Succeeded(n) => self.go_on(n),
            StepResult::Failed => {
                if self.may_fail() {
                    self.go_on(0);
                } else if self.step == Step::WarmBoot {
                    self.step = Step::CreateVm;
                } else {
                    self.fail();
                }
            },
        }
    }

    fn is_teardown(&self) -> (r: bool)
        ensures
            r == is_teardown(self.step),
    {
        match self.step {
            Step::StopVm
            | Step::WaitForVm
            | Step::DeleteVm
            | Step::CleanStop
            | Step::CleanWait
            | Step::CleanDelete
            | Step::WarmStop
            | Step::WarmWait
            | Step::WarmDelete
            | Step::Done => true,
            _ => false,
        }
    }

    /// Take note of a signal to end: the VM is torn down as after a failure.
    pub fn interrupt(&mut self)
        ensures
            *final(self) == run_interrupted(*old(self)),
            run_inv(*old(self)) ==> run_inv(*final(self)),
    {
        if !self.is_teardown() {
            self.fail();
            self.interrupted = true;
        }
    }

    /// How the run ended: with the exit code of the agent, or with the error of a
    /// step. `None` as long as it goes on.
    pub fn outcome(&self) -> (r: Option<Result<i32, Step>>)
        ensures
            r == if self.step != Step::Done {
                None
            } else {
                match self.failed {
                    Some(step) => Some(Err(step)),
                    None => Some(Ok(self.exit_code)),
                }
            },
    {
        if self.step != Step::Done {
            return None;
        }
        match self.failed {
            Some(step) => Some(Err(step)),
            None => Some(Ok(self.exit_code)),
        }
    }
}

/// The arguments of the tart command that a step runs, if it runs one. The VM that is
/// stopped and deleted is the one that was created.
pub open spec fn step_command(
    step: Step,
    vm_name: Seq<char>,
    base_image: Seq<char>,
    shares: Seq<ShareView>,
) -> Option<Seq<Seq<char>>> {
    match step {
        Step::ValidateImage => Some(
            seq!["run"@, "--no-graphics"@, base_image, "--"@, "true"@],
        ),
        Step::CreateVm => Some(seq!["clone"@, base_image, vm_name]),
        Step::StartVm => Some(start_args(vm_name, shares)),
        Step::StopVm | Step::CleanStop | Step::WarmStop => Some(seq!["stop"@, vm_name]),
        Step::DeleteVm | Step::CleanDelete | Step::WarmDelete => Some(seq!["delete"@, vm_name]),
        _ => None,
    }
}

impl Step {
    /// The arguments of the tart command that the step runs, if it runs one.
    pub fn command(&self, vm_name: &str, base_image: &str, shares: &Vec<DirShare>) -> (r: Option<
        Vec<String>,
    >)
        ensures
            match step_command(*self, vm_name@, base_image@, share_views(shares@)) {
                Some(args) => r matches Some(v) && texts(v@) == args,
                None => r is None,
            },
    {
        let vm = TartVm::new();
        match self {
            Step::ValidateImage => Some(validate_image(base_image)),
            Step::CreateVm => Some(vm.create(&vm_config(vm_name, base_image, shares))),
            Step::StartVm => Some(start_vm_with_shares(vm_name, shares)),
            Step::StopVm | Step::CleanStop | Step::WarmStop => Some(vm.stop(vm_name)),
            Step::DeleteVm | Step::CleanDelete | Step::WarmDelete => Some(vm.delete(vm_name)),
            _ => None,
        }
    }

    /// The commands that set the guest up in this step, if it does that. In a VM that
    /// was booted all shares are mounted, and the configuration is copied from its
    /// share; in a warm clone there is only the share of the project.
    pub fn guest_commands(
        &self,
        agent: &str,
        project_dir: &str,
        shares: &Vec<DirShare>,
        binary_shares: &Vec<BinaryDirShare>,
    ) -> (r: Option<Vec<GuestCommand>>)
        ensures
            match *self {
                Step::SetUpGuest => r matches Some(v) && command_views(v@) == setup_commands(
                    agent@,
                    share_views(shares@),
                    Some(guest_config(agent@)),
                    binary_shares@,
                ),
                Step::WarmSetUp => r matches Some(v) && command_views(v@) == setup_commands(
                    agent@,
                    seq![project_share(project_dir@)],
                    None,
                    seq![],
                ),
                _ => r is None,
            },
    {
        match self {
            Step::SetUpGuest => {
                let config = Some(below_root(agent, "/config"));
                Some(setup_guest(agent, shares, &config, binary_shares))
            },
            Step::WarmSetUp => {
                let mut own: Vec<DirShare> = Vec::new();
                own.push(share_project(project_dir));
                assert(share_views(own@) =~= seq![project_share(project_dir@)]);
                let none: Vec<BinaryDirShare> = Vec::new();
                assert(none@ =~= seq![]);
                Some(setup_guest(agent, &own, &None, &none))
            },
            _ => None,
        }
    }

    /// What the user is told when the step begins, if anything new.
    pub fn progress(&self) -> (r: Option<String>)
        ensures
            match *self {
                Step::ValidateImage => r matches Some(s) && s@ == "Validating image…"@,
                Step::GenerateKey | Step::CreateVm => r matches Some(s) && s@ == "Cloning VM…"@,
                Step::WarmBoot | Step::StartVm => r matches Some(s) && s@ == "Starting VM…"@,
                Step::InjectKey => r matches Some(s) && s@ == "Preparing disk…"@,
                Step::WaitForSsh => r matches Some(s) && s@ == "Waiting for SSH…"@,
                Step::SetUpGuest | Step::WarmSetUp => r matches Some(s) && s@
                    == "Configuring guest…"@,
                _ => r is None,
            },
    {
        match self {
            Step::ValidateImage => Some("Validating image…".to_owned()),
            Step::GenerateKey | Step::CreateVm => Some("Cloning VM…".to_owned()),
            Step::WarmBoot | Step::StartVm => Some("Starting VM…".to_owned()),
            Step::InjectKey => Some("Preparing disk…".to_owned()),
            Step::WaitForSsh => Some("Waiting for SSH…".to_owned()),
            Step::SetUpGuest | Step::WarmSetUp => Some("Configuring guest…".to_owned()),
            _ => None,
        }
    }
}

/// The error of a run without an image.
pub fn missing_image() -> (r: String)
    ensures
        r@ == "--vm-image / CLAUDE_BOX_IMAGE required"@,
{
    "--vm-image / CLAUDE_BOX_IMAGE required".to_owned()
}

// ---------------------------------------------------------------------------
// Laws
// ---------------------------------------------------------------------------

proof fn lemma_run_inv(config: SandboxConfig, reports: Seq<StepReport>)
    ensures
        run_inv(run_through(run_start(config), reports)),
        run_through(run_start(config), reports).persist == config.persist,
        run_through(run_start(config), reports).image == config.vm_image is Some,
        run_through(run_start(config), reports).validate == config.validate_image,
        run_through(run_start(config), reports).warm == run_start(config).warm,
    decreases reports.len(),
{
    if reports.len() > 0 {
        lemma_run_inv(config, reports.drop_last());
    }
}

/// No VM is left behind: whatever fails or interrupts a run on the way, when it is
/// over, the VM that it created was asked to be deleted, unless it was to be kept.
pub proof fn no_vm_is_left_behind(config: SandboxConfig, reports: Seq<StepReport>)
    ensures
        ({
            let r = run_through(run_start(config), reports);
            r.step == Step::Done && r.vm ==> config.persist
        }),
{
    lemma_run_inv(config, reports);
}

/// A VM that is to be kept is never deleted.
pub proof fn kept_vm_is_never_deleted(config: SandboxConfig, reports: Seq<StepReport>)
    requires
        config.persist,
    ensures
        ({
            let step = run_through(run_start(config), reports).step;
            step != Step::DeleteVm && step != Step::CleanDelete && step != Step::WarmDelete
        }),
{
    lemma_run_inv(config, reports);
}

/// The steps of a run from a warm clone.
pub open spec fn is_warm_step(step: Step) -> bool {
    match step {
        Step::WarmBoot
        | Step::WarmSetUp
        | Step::SendSettings
        | Step::SendState
        | Step::WarmRunAgent
        | Step::WarmStop
        | Step::WarmWait
        | Step::WarmDelete => true,
        _ => false,
    }
}

/// The warm pool is used only where it is enabled, no VM name is given, the VM is
/// not to be kept and no binaries are shared.
pub proof fn warm_pool_needs_a_plain_run(config: SandboxConfig, reports: Seq<StepReport>)
    ensures
        ({
            let r = run_through(run_start(config), reports);
            is_warm_step(r.step) ==> config.warm_pool && config.vm_name is None && !config.persist
                && !r.binaries
        }),
{
    lemma_run_inv(config, reports);
}

/// Nothing is created without an image.
pub proof fn no_image_no_vm(config: SandboxConfig, reports: Seq<StepReport>)
    requires
        config.vm_image is None,
    ensures
        ({
            let r = run_through(run_start(config), reports);
            &&& reports.len() == 0 ==> r.step == Step::Reap
            &&& reports.len() > 0 ==> r.step == Step::Done && r.failed == Some(Step::RequireImage)
            &&& !r.vm
        }),
    decreases reports.len(),
{
    if reports.len() > 0 {
        no_image_no_vm(config, reports.drop_last());
    }
}

/// The steps that run the agent.
pub open spec fn runs_agent(step: Step) -> bool {
    step == Step::RunAgent || step == Step::WarmRunAgent
}

/// An interrupt cuts a run short only where the agent has not been run: one that comes
/// while the agent runs, or later, leaves the end of the run as it is.
pub proof fn interrupts_come_before_the_agent(
    config: SandboxConfig,
    reports: Seq<StepReport>,
    i: int,
)
    requires
        0 <= i < reports.len(),
        runs_agent(run_through(run_start(config), reports.take(i)).step),
    ensures
        !run_through(run_start(config), reports).interrupted,
{
    lemma_agent_is_followed_by_teardown(config, reports, i);
}

proof fn lemma_agent_is_followed_by_teardown(
    config: SandboxConfig,
    reports: Seq<StepReport>,
    i: int,
)
    requires
        0 <= i < reports.len(),
        runs_agent(run_through(run_start(config), reports.take(i)).step),
    ensures
        !run_through(run_start(config), reports).interrupted,
        is_teardown(run_through(run_start(config), reports).step),
    decreases reports.len(),
{
    let short = reports.drop_last();
    if i == short.len() {
        assert(reports.take(i) =~= short);
        lemma_cut_run_is_torn_down(config, short);
    } else {
        assert(reports.take(i) =~= short.take(i));
        lemma_agent_is_followed_by_teardown(config, short, i);
    }
}

proof fn lemma_cut_run_is_torn_down(config: SandboxConfig, reports: Seq<StepReport>)
    ensures
        run_through(run_start(config), reports).interrupted ==> is_teardown(
            run_through(run_start(config), reports).step,
        ),
    decreases reports.len(),
{
    if reports.len() > 0 {
        lemma_cut_run_is_torn_down(config, reports.drop_last());
    }
}

/// Nothing is cloned before the tools are ready: a run that fails as the configuration
/// or a binary is missing is over at once, and has neither created a VM nor tried to.
pub proof fn nothing_is_cloned_without_tools(config: SandboxConfig, reports: Seq<StepReport>)
    requires
        run_through(run_start(config), reports).failed == Some(Step::PrepareTools),
    ensures
        run_through(run_start(config), reports).step == Step::Done,
        !run_through(run_start(config), reports).vm,
        forall|i: int|
            0 <= i <= reports.len() ==> {
                let step = #[trigger] run_through(run_start(config), reports.take(i)).step;
                step != Step::WarmBoot && step != Step::CreateVm
            },
    decreases reports.len(),
{
    let start = run_start(config);
    lemma_run_inv(config, reports);
    if reports.len() > 0 {
        let short = reports.drop_last();
        let before = run_through(start, short);
        lemma_run_inv(config, short);
        assert(reports.take(reports.len() as int) =~= reports);
        if before.failed == Some(Step::PrepareTools) {
            nothing_is_cloned_without_tools(config, short);
        }
        assert forall|i: int| 0 <= i <= reports.len() implies {
            let step = #[trigger] run_through(start, reports.take(i)).step;
            step != Step::WarmBoot && step != Step::CreateVm
        } by {
            if i < reports.len() {
                assert(reports.take(i) =~= short.take(i));
                if before.failed != Some(Step::PrepareTools) {
                    lemma_ranks_grow(config, short, i);
                }
            }
        }
    }
}

proof fn lemma_ranks_grow(config: SandboxConfig, reports: Seq<StepReport>, i: int)
    requires
        0 <= i <= reports.len(),
    ensures
        run_rank(run_through(run_start(config), reports.take(i)).step) <= run_rank(
            run_through(run_start(config), reports).step,
        ),
    decreases reports.len(),
{
    if i == reports.len() {
        assert(reports.take(i) =~= reports);
    } else {
        let short = reports.drop_last();
        assert(reports.take(i) =~= short.take(i));
        lemma_run_inv(config, short);
        lemma_ranks_grow(config, short, i);
    }
}

/// How far a run has come.
pub open spec fn run_rank(step: Step) -> nat {
    match step {
        Step::Reap => 0,
        Step::ResolveImage => 1,
        Step::ValidateImage => 2,
        Step::GenerateKey => 3,
        Step::PrepareTools => 4,
        Step::FindAgent => 5,
        Step::WarmBoot => 6,
        Step::CreateVm => 7,
        Step::InjectKey => 8,
        Step::StartVm => 9,
        Step::GetIp => 10,
        Step::WaitForSsh => 11,
        Step::SetUpGuest => 12,
        Step::RunAgent => 13,
        Step::WarmSetUp => 8,
        Step::SendSettings => 9,
        Step::SendState => 10,
        Step::WarmRunAgent => 11,
        Step::StopVm | Step::CleanStop | Step::WarmStop => 14,
        Step::WaitForVm | Step::CleanWait | Step::WarmWait => 15,
        Step::DeleteVm | Step::CleanDelete | Step::WarmDelete => 16,
        Step::RequireImage | Step::Done => 17,
    }
}

/// Every run comes to an end: each report brings it closer, and after seventeen it
/// is over.
pub proof fn every_run_ends(config: SandboxConfig, reports: Seq<StepReport>)
    ensures
        run_rank(run_through(run_start(config), reports).step) >= if reports.len() < 17 {
            reports.len() as int
        } else {
            17
        },
        reports.len() >= 17 ==> run_through(run_start(config), reports).step == Step::Done,
    decreases reports.len(),
{
    lemma_run_inv(config, reports);
    if reports.len() > 0 {
        every_run_ends(config, reports.drop_last());
    }
}

/// The exit code of a run is the exit code of the agent: a run that ends well has
/// run the agent, and gives back what the agent gave.
pub proof fn exit_code_is_the_agents(config: SandboxConfig, reports: Seq<StepReport>)
    ensures
        ({
            let r = run_through(run_start(config), reports);
            r.step == Step::Done && r.failed is None ==> exists|i: int|
                0 <= i < reports.len() && reports[i].result == StepResult::Succeeded(r.exit_code) && (
                #[trigger] run_through(run_start(config), reports.take(i)).step == Step::RunAgent
                    || run_through(run_start(config), reports.take(i)).step == Step::WarmRunAgent)
        }),
{
    lemma_agent_ran(config, reports);
}

/// The steps that come after the agent was run.
spec fn after_agent(step: Step) -> bool {
    match step {
        Step::StopVm
        | Step::WaitForVm
        | Step::DeleteVm
        | Step::WarmStop
        | Step::WarmWait
        | Step::WarmDelete
        | Step::Done => true,
        _ => false,
    }
}

proof fn lemma_agent_ran(config: SandboxConfig, reports: Seq<StepReport>)
    ensures
        ({
            let r = run_through(run_start(config), reports);
            after_agent(r.step) && r.failed is None ==> exists|i: int|
                0 <= i < reports.len() && reports[i].result == StepResult::Succeeded(r.exit_code) && (
                #[trigger] run_through(run_start(config), reports.take(i)).step == Step::RunAgent
                    || run_through(run_start(config), reports.take(i)).step == Step::WarmRunAgent)
        }),
    decreases reports.len(),
{
    let start = run_start(config);
    let r = run_through(start, reports);
    if reports.len() > 0 {
        let short = reports.drop_last();
        let before = run_through(start, short);
        lemma_run_inv(config, short);
        lemma_agent_ran(config, short);
        if after_agent(r.step) && r.failed is None {
            if after_agent(before.step) && before.failed is None {
                let i = choose|i: int|
                    0 <= i < short.len() && short[i].result == StepResult::Succeeded(before.exit_code) && (
                    #[trigger] run_through(start, short.take(i)).step == Step::RunAgent
                        || run_through(start, short.take(i)).step == Step::WarmRunAgent);
                assert(short.take(i) =~= reports.take(i));
                assert(reports[i] == short[i]);
            } else {
                let i = reports.len() - 1;
                assert(reports.take(i) =~= short);
                assert(reports[i] == reports.last());
            }
        }
    }
}

// ---------------------------------------------------------------------------
// Which steps follow which
// ---------------------------------------------------------------------------

proof fn lemma_shared_binaries_stay(
    config: SandboxConfig,
    reports: Seq<StepReport>,
    i: int,
    n: i32,
)
    requires
        0 <= i < reports.len(),
        run_through(run_start(config), reports.take(i)).step == Step::PrepareTools,
        reports[i].result == StepResult::Succeeded(n),
    ensures
        run_through(run_start(config), reports).binaries == (n != 0),
        run_rank(run_through(run_start(config), reports).step) > run_rank(Step::PrepareTools),
    decreases reports.len(),
{
    let short = reports.drop_last();
    lemma_run_inv(config, short);
    if i == short.len() {
        assert(reports.take(i) =~= short);
    } else {
        assert(reports.take(i) =~= short.take(i));
        lemma_shared_binaries_stay(config, short, i, n);
    }
}

/// A run that shares binaries with its guest never uses the warm pool: where the tools
/// were prepared with a number of binary shares other than 0, no step on a warm VM
/// follows.
pub proof fn shared_binaries_rule_out_the_warm_pool(
    config: SandboxConfig,
    reports: Seq<StepReport>,
    i: int,
    n: i32,
)
    requires
        0 <= i < reports.len(),
        run_through(run_start(config), reports.take(i)).step == Step::PrepareTools,
        reports[i].result == StepResult::Succeeded(n),
        n != 0,
    ensures
        match run_through(run_start(config), reports).step {
            Step::WarmBoot
            | Step::WarmSetUp
            | Step::SendSettings
            | Step::SendState
            | Step::WarmRunAgent
            | Step::WarmStop
            | Step::WarmWait
            | Step::WarmDelete => false,
            _ => true,
        },
{
    lemma_run_inv(config, reports);
    lemma_shared_binaries_stay(config, reports, i, n);
}

/// A run in which every step succeeds, and which does not use the warm pool, takes these
/// steps in this order. It uses the pool only where that is enabled, no name is given,
/// the VM is not to be kept and no binaries are shared.
pub proof fn cold_run_takes_these_steps(
    config: SandboxConfig,
    numbers: Seq<i32>,
    reports: Seq<StepReport>,
    j: int,
)
    requires
        config.vm_image is Some,
        numbers.len() == reports.len(),
        forall|k: int|
            0 <= k < reports.len() ==> (#[trigger] reports[k]).result == StepResult::Succeeded(
                numbers[k],
            ) && !reports[k].interrupted,
        0 <= j <= reports.len(),
        j < (if config.validate_image {
            16int
        } else {
            15
        }) + (if config.persist {
            0int
        } else {
            1
        }),
        ({
            let tools = if config.validate_image {
                4int
            } else {
                3
            };
            !config.warm_pool || config.vm_name is Some || config.persist || (numbers.len() > tools
                ==> numbers[tools] != 0)
        }),
    ensures
        ({
            let list = seq![Step::Reap, Step::ResolveImage] + (if config.validate_image {
                seq![Step::ValidateImage]
            } else {
                seq![]
            }) + seq![
                Step::GenerateKey,
                Step::PrepareTools,
                Step::FindAgent,
                Step::CreateVm,
                Step::InjectKey,
                Step::StartVm,
                Step::GetIp,
                Step::WaitForSsh,
                Step::SetUpGuest,
                Step::RunAgent,
                Step::StopVm,
                Step::WaitForVm,
            ] + (if config.persist {
                seq![]
            } else {
                seq![Step::DeleteVm]
            }) + seq![Step::Done];
            let agent = if config.validate_image {
                12int
            } else {
                11
            };
            let r = run_through(run_start(config), reports.take(j));
            &&& j < list.len()
            &&& r.step == list[j]
            &&& r.failed is None
            &&& !r.interrupted
            &&& j > agent ==> r.exit_code == numbers[agent]
        }),
    decreases j,
{
    lemma_run_inv(config, reports.take(j));
    if j > 0 {
        cold_run_takes_these_steps(config, numbers, reports, j - 1);
        lemma_run_inv(config, reports.take(j - 1));
        assert(reports.take(j).drop_last() =~= reports.take(j - 1));
        assert(reports.take(j).last() == reports[j - 1]);
        let tools = if config.validate_image {
            4int
        } else {
            3
        };
        if j > tools + 1 {
            assert(reports.take(j - 1)[tools] == reports[tools]);
            assert(reports.take(j - 1).take(tools) =~= reports.take(tools));
            cold_run_takes_these_steps(config, numbers, reports, tools);
            lemma_shared_binaries_stay(config, reports.take(j - 1), tools, numbers[tools]);
        }
    }
}

/// A run in which every step succeeds takes these steps where the warm pool is enabled,
/// no name is given, the VM is not to be kept and no binaries are shared.
pub proof fn warm_run_takes_these_steps(
    config: SandboxConfig,
    numbers: Seq<i32>,
    reports: Seq<StepReport>,
    j: int,
)
    requires
        config.vm_image is Some,
        config.warm_pool,
        config.vm_name is None,
        !config.persist,
        numbers.len() == reports.len(),
        forall|k: int|
            0 <= k < reports.len() ==> (#[trigger] reports[k]).result == StepResult::Succeeded(
                numbers[k],
            ) && !reports[k].interrupted,
        0 <= j <= reports.len(),
        j < if config.validate_image {
            15int
        } else {
            14
        },
        ({
            let tools = if config.validate_image {
                4int
            } else {
                3
            };
            numbers.len() > tools ==> numbers[tools] == 0
        }),
    ensures
        ({
            let list = seq![Step::Reap, Step::ResolveImage] + (if config.validate_image {
                seq![Step::ValidateImage]
            } else {
                seq![]
            }) + seq![
                Step::GenerateKey,
                Step::PrepareTools,
                Step::FindAgent,
                Step::WarmBoot,
                Step::WarmSetUp,
                Step::SendSettings,
                Step::SendState,
                Step::WarmRunAgent,
                Step::WarmStop,
                Step::WarmWait,
                Step::WarmDelete,
                Step::Done,
            ];
            let agent = if config.validate_image {
                10int
            } else {
                9
            };
            let r = run_through(run_start(config), reports.take(j));
            &&& j < list.len()
            &&& r.step == list[j]
            &&& r.failed is None
            &&& !r.interrupted
            &&& j > agent ==> r.exit_code == numbers[agent]
        }),
    decreases j,
{
    lemma_run_inv(config, reports.take(j));
    if j > 0 {
        warm_run_takes_these_steps(config, numbers, reports, j - 1);
        lemma_run_inv(config, reports.take(j - 1));
        assert(reports.take(j).drop_last() =~= reports.take(j - 1));
        assert(reports.take(j).last() == reports[j - 1]);
        let tools = if config.validate_image {
            4int
        } else {
            3
        };
        if j > tools + 1 {
            assert(reports.take(j - 1)[tools] == reports[tools]);
            assert(reports.take(j - 1).take(tools) =~= reports.take(tools));
            warm_run_takes_these_steps(config, numbers, reports, tools);
            lemma_shared_binaries_stay(config, reports.take(j - 1), tools, numbers[tools]);
        }
    }
}

proof fn lemma_child_is_started(config: SandboxConfig, reports: Seq<StepReport>)
    ensures
        match run_through(run_start(config), reports).step {
            Step::InjectKey | Step::StartVm => !run_through(run_start(config), reports).child,
            _ => true,
        },
    decreases reports.len(),
{
    if reports.len() > 0 {
        lemma_child_is_started(config, reports.drop_last());
        lemma_run_inv(config, reports.drop_last());
    }
}

/// A step that fails gives the run its error, and the run goes on with the teardown of
/// what is there: with nothing where no VM was created or it is to be kept, else with
/// stopping it. A warm boot that fails is followed by a cold one.
pub proof fn failures_are_reported(config: SandboxConfig, reports: Seq<StepReport>)
    requires
        reports.len() > 0,
        reports.last().result == StepResult::Failed,
        !reports.last().interrupted,
    ensures
        ({
            let before = run_through(run_start(config), reports.drop_last());
            let r = run_through(run_start(config), reports);
            match before.step {
                Step::ResolveImage
                | Step::ValidateImage
                | Step::GenerateKey
                | Step::PrepareTools
                | Step::FindAgent
                | Step::CreateVm
                | Step::DeleteVm => r.step == Step::Done && r.failed == Some(before.step),
                Step::WarmBoot => r.step == Step::CreateVm && r.failed is None,
                Step::InjectKey
                | Step::StartVm
                | Step::GetIp
                | Step::WaitForSsh
                | Step::SetUpGuest
                | Step::RunAgent => r.failed == Some(before.step) && r.step == if config.persist {
                    Step::Done
                } else {
                    Step::CleanStop
                },
                Step::StopVm => r.failed == Some(before.step) && r.step == if config.persist {
                    Step::Done
                } else {
                    Step::CleanWait
                },
                Step::WarmSetUp | Step::SendSettings | Step::SendState | Step::WarmRunAgent =>
                    r.failed == Some(before.step) && r.step == Step::WarmStop,
                _ => r.failed == before.failed || before.step == Step::Reap,
            }
        }),
{
    lemma_run_inv(config, reports.drop_last());
}

/// The steps whose failure has no consequences are followed by what follows where they
/// succeed: the look for leftovers, and all that tears a VM down after a failure or a
/// warm run. Of a successful cold run only the wait for the stopped VM is among them.
pub proof fn these_steps_may_fail(r: Run)
    ensures
        ({
            let failed = run_told(r, StepReport { result: StepResult::Failed, interrupted: false });
            let went = run_told(
                r,
                StepReport { result: StepResult::Succeeded(0), interrupted: false },
            );
            match r.step {
                Step::Reap
                | Step::WaitForVm
                | Step::CleanStop
                | Step::CleanWait
                | Step::CleanDelete
                | Step::WarmStop
                | Step::WarmWait
                | Step::WarmDelete
                | Step::RequireImage
                | Step::Done => failed == went,
                _ => r.failed is None ==> failed != went,
            }
        }),
{
}

/// A teardown is completed, whatever its steps report and whether or not it is
/// interrupted: the VM is stopped, its process is waited for where one was started, and
/// it is deleted. The end of the run stays what it was.
pub proof fn teardown_is_completed(
    config: SandboxConfig,
    reports: Seq<StepReport>,
)
    requires
        reports.len() > 0,
    ensures
        ({
            let before = run_through(run_start(config), reports.drop_last());
            let r = run_through(run_start(config), reports);
            match before.step {
                Step::CleanStop => r.step == (if before.child {
                    Step::CleanWait
                } else {
                    Step::CleanDelete
                }) && r.child == before.child,
                Step::CleanWait => r.step == Step::CleanDelete,
                Step::WarmStop => r.step == Step::WarmWait,
                Step::WarmWait => r.step == Step::WarmDelete,
                Step::CleanDelete | Step::WarmDelete => r.step == Step::Done && !r.vm,
                Step::WaitForVm => r.step == if config.persist {
                    Step::Done
                } else {
                    Step::DeleteVm
                },
                Step::Done => r.step == Step::Done,
                _ => true,
            }
        }),
        ({
            let before = run_through(run_start(config), reports.drop_last());
            let r = run_through(run_start(config), reports);
            match before.step {
                Step::CleanStop
                | Step::CleanWait
                | Step::CleanDelete
                | Step::WarmStop
                | Step::WarmWait
                | Step::WarmDelete
                | Step::WaitForVm
                | Step::Done => r.failed == before.failed && r.exit_code == before.exit_code
                    && r.interrupted == before.interrupted,
                _ => true,
            }
        }),
{
    lemma_run_inv(config, reports.drop_last());
}

/// The process of a VM is waited for in a teardown where, and only where, the VM was
/// started: of a VM whose key could not be injected, or which could not be started, there
/// is none.
pub proof fn started_vms_are_waited_for(
    config: SandboxConfig,
    reports: Seq<StepReport>,
    stop: StepReport,
)
    requires
        !config.persist,
        reports.len() > 0,
        reports.last().result == StepResult::Failed,
        !reports.last().interrupted,
    ensures
        ({
            let before = run_through(run_start(config), reports.drop_last());
            let next = run_through(run_start(config), reports.push(stop));
            match before.step {
                Step::InjectKey | Step::StartVm => next.step == Step::CleanDelete,
                Step::GetIp | Step::WaitForSsh | Step::SetUpGuest | Step::RunAgent => next.step
                    == Step::CleanWait,
                _ => true,
            }
        }),
{
    lemma_run_inv(config, reports.drop_last());
    lemma_child_is_started(config, reports.drop_last());
    assert(reports.push(stop).drop_last() =~= reports);
    reveal_with_fuel(run_through, 2);
}

/// An interrupt ends a run as a failure of the step that would have been next would have:
/// what is there is torn down. One that comes in a teardown changes nothing.
pub proof fn interrupts_tear_down(config: SandboxConfig, reports: Seq<StepReport>)
    requires
        reports.len() > 0,
        reports.last().interrupted,
    ensures
        ({
            let went = StepReport { result: reports.last().result, interrupted: false };
            let next = run_through(run_start(config), reports.drop_last().push(went));
            let r = run_through(run_start(config), reports);
            match next.step {
                Step::Reap
                | Step::RequireImage
                | Step::ResolveImage
                | Step::ValidateImage
                | Step::GenerateKey
                | Step::PrepareTools
                | Step::FindAgent
                | Step::WarmBoot
                | Step::CreateVm => r.step == Step::Done && r.failed == Some(next.step)
                    && r.interrupted,
                Step::InjectKey
                | Step::StartVm
                | Step::GetIp
                | Step::WaitForSsh
                | Step::SetUpGuest
                | Step::RunAgent => r.failed == Some(next.step) && r.interrupted && r.step
                    == if config.persist {
                    Step::Done
                } else {
                    Step::CleanStop
                },
                Step::WarmSetUp | Step::SendSettings | Step::SendState | Step::WarmRunAgent =>
                    r.failed == Some(next.step) && r.interrupted && r.step == Step::WarmStop,
                _ => r == next,
            }
        }),
{
    let went = StepReport { result: reports.last().result, interrupted: false };
    let other = reports.drop_last().push(went);
    assert(other.drop_last() =~= reports.drop_last());
    lemma_run_inv(config, reports.drop_last());
    lemma_run_inv(config, other);
}

/// The tart commands of the steps. The VM that is stopped and deleted is the one that
/// was cloned and run, and the image is only ever cloned or smoke-booted.
pub proof fn steps_run_these_commands(
    step: Step,
    vm_name: Seq<char>,
    base_image: Seq<char>,
    shares: Seq<ShareView>,
)
    ensures
        step_command(step, vm_name, base_image, shares) == match step {
            Step::ValidateImage => Some(
                seq!["run"@, "--no-graphics"@, base_image, "--"@, "true"@],
            ),
            Step::CreateVm => Some(seq!["clone"@, base_image, vm_name]),
            Step::StartVm => Some(
                seq!["run"@, "--no-graphics"@] + Seq::new(
                    shares.len(),
                    |i: int|
                        "--dir="@ + (shares[i].host_path + (if shares[i].read_only {
                            ":ro,tag="@
                        } else {
                            ":tag="@
                        }) + shares[i].tag),
                ) + seq![vm_name],
            ),
            Step::StopVm | Step::CleanStop | Step::WarmStop => Some(seq!["stop"@, vm_name]),
            Step::DeleteVm | Step::CleanDelete | Step::WarmDelete => Some(
                seq!["delete"@, vm_name],
            ),
            _ => None,
        },
{
    if step == Step::StartVm {
        let dirs = Seq::new(
            shares.len(),
            |i: int|
                "--dir="@ + (shares[i].host_path + (if shares[i].read_only {
                    ":ro,tag="@
                } else {
                    ":tag="@
                }) + shares[i].tag),
        );
        let args = start_args(vm_name, shares);
        assert forall|i: int| 0 <= i < shares.len() implies args[i + 2] == dirs[i] by {
            crate::agent::every_share_is_handed_over(vm_name, shares, i);
        }
        assert(args =~= seq!["run"@, "--no-graphics"@] + dirs + seq![vm_name]) by {
            assert forall|k: int| 0 <= k < args.len() implies args[k] == (seq![
                "run"@,
                "--no-graphics"@,
            ] + dirs + seq![vm_name])[k] by {
                if 2 <= k < shares.len() + 2 {
                    assert(args[(k - 2) + 2] == dirs[k - 2]);
                }
            }
        }
    }
}

/// A run has an outcome exactly where it is over: the error of the step that failed, or
/// else the exit code of the agent.
pub proof fn outcome_is_the_error_or_the_code(run: &Run, r: Option<Result<i32, Step>>)
    requires
        call_ensures(Run::outcome, (run,), r),
    ensures
        r is None <==> run.step != Step::Done,
        run.step == Step::Done && run.failed is None ==> r == Some(
            Ok::<i32, Step>(run.exit_code),
        ),
        run.step == Step::Done ==> (run.failed matches Some(step) ==> r == Some(
            Err::<i32, Step>(step),
        )),
{
}

/// A cold run mounts all shares and copies the configuration from its share; a warm one
/// mounts the project alone, at its own path and to be written. No other step sets the
/// guest up.
pub proof fn guests_are_set_up_in_these_steps(
    step: &Step,
    agent: &str,
    project_dir: &str,
    shares: &Vec<DirShare>,
    binary_shares: &Vec<BinaryDirShare>,
    r: Option<Vec<GuestCommand>>,
)
    requires
        call_ensures(Step::guest_commands, (step, agent, project_dir, shares, binary_shares), r),
    ensures
        r is Some <==> *step == Step::SetUpGuest || *step == Step::WarmSetUp,
        *step == Step::SetUpGuest ==> command_views(r->0@) == setup_commands(
            agent@,
            share_views(shares@),
            Some("/opt/"@ + agent@ + "-box"@ + "/config"@),
            binary_shares@,
        ),
        *step == Step::WarmSetUp ==> command_views(r->0@) == setup_commands(
            agent@,
            seq![
                ShareView {
                    host_path: project_dir@,
                    tag: "project"@,
                    guest_mount: project_dir@,
                    read_only: false,
                },
            ],
            None,
            seq![],
        ),
{
}

} // verus!
