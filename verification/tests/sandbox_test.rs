use vm_box::cli::{after_failure, Fallback};
use vm_box::config::SandboxConfig;
use vm_box::mount::{share_project, DirShare};
use vm_box::sandbox::{missing_image, Run, Sandbox, Step, StepResult};
use vm_box::tools::BinaryDirShare;
use vm_box::vm::image::PullPolicy;

fn config() -> SandboxConfig {
    SandboxConfig {
        agent: "agent".to_string(),
        vm_image: Some("img".to_string()),
        mount: "/p".to_string(),
        allow_tools: vec![],
        allow_binaries: vec![],
        persist: false,
        vm_name: None,
        claude_args: vec![],
        pull_policy: PullPolicy::Missing,
        validate_image: false,
        warm_pool: false,
    }
}

const OK: StepResult = StepResult::Succeeded(0);

/// Runs to the end; the steps that were done, with failures where `fails` says so.
fn drive(config: SandboxConfig, binaries: i32, fails: &[Step], exit: i32) -> (Vec<Step>, Run) {
    let mut run = Sandbox::new(config).run();
    let mut steps = Vec::new();
    while run.outcome().is_none() {
        let step = run.step;
        steps.push(step);
        let result = if fails.contains(&step) {
            StepResult::Failed
        } else {
            match step {
                Step::PrepareTools => StepResult::Succeeded(binaries),
                Step::RunAgent | Step::WarmRunAgent => StepResult::Succeeded(exit),
                _ => OK,
            }
        };
        run.next(result);
    }
    (steps, run)
}

fn setup() -> Vec<Step> {
    vec![
        Step::Reap,
        Step::ResolveImage,
        Step::GenerateKey,
        Step::PrepareTools,
        Step::FindAgent,
    ]
}

fn with(mut steps: Vec<Step>, more: &[Step]) -> Vec<Step> {
    steps.extend_from_slice(more);
    steps
}

#[test]
fn a_cold_run_goes_through_all_steps() {
    let (steps, run) = drive(config(), 0, &[], 7);
    let expected = with(
        setup(),
        &[
            Step::CreateVm, Step::InjectKey, Step::StartVm, Step::GetIp, Step::WaitForSsh,
            Step::SetUpGuest, Step::RunAgent, Step::StopVm, Step::WaitForVm, Step::DeleteVm,
        ],
    );
    assert_eq!(steps, expected);
    assert_eq!(run.outcome(), Some(Ok(7)));
    assert!(!run.vm);
}

#[test]
fn an_image_is_validated_on_request() {
    let mut c = config();
    c.validate_image = true;
    let (steps, _) = drive(c, 0, &[], 0);
    assert_eq!(steps[1..4], [Step::ResolveImage, Step::ValidateImage, Step::GenerateKey]);
}

#[test]
fn a_warm_run_goes_through_its_steps() {
    let mut c = config();
    c.warm_pool = true;
    let (steps, run) = drive(c, 0, &[], 3);
    let expected = with(
        setup(),
        &[
            Step::WarmBoot, Step::WarmSetUp, Step::SendSettings, Step::SendState,
            Step::WarmRunAgent, Step::WarmStop, Step::WarmWait, Step::WarmDelete,
        ],
    );
    assert_eq!(steps, expected);
    assert_eq!(run.outcome(), Some(Ok(3)));
}

#[test]
fn the_warm_pool_is_not_used_where_it_cannot_be() {
    let mut named = config();
    named.warm_pool = true;
    named.vm_name = Some("mine".to_string());
    assert!(!drive(named, 0, &[], 0).0.contains(&Step::WarmBoot));
    let mut kept = config();
    kept.warm_pool = true;
    kept.persist = true;
    assert!(!drive(kept, 0, &[], 0).0.contains(&Step::WarmBoot));
    let mut binaries = config();
    binaries.warm_pool = true;
    assert!(!drive(binaries, 2, &[], 0).0.contains(&Step::WarmBoot));
    assert!(!drive(config(), 0, &[], 0).0.contains(&Step::WarmBoot));
}

#[test]
fn a_warm_boot_that_fails_is_followed_by_a_cold_one() {
    let mut c = config();
    c.warm_pool = true;
    let (steps, run) = drive(c, 0, &[Step::WarmBoot], 4);
    assert_eq!(steps[5..7], [Step::WarmBoot, Step::CreateVm]);
    assert_eq!(run.outcome(), Some(Ok(4)));
}

#[test]
fn a_failure_before_the_vm_exists_ends_the_run() {
    for step in [Step::ResolveImage, Step::GenerateKey, Step::PrepareTools, Step::FindAgent, Step::CreateVm] {
        let (steps, run) = drive(config(), 0, &[step], 0);
        assert_eq!(*steps.last().unwrap(), step);
        assert_eq!(run.outcome(), Some(Err(step)));
    }
}

#[test]
fn a_failure_after_the_vm_exists_cleans_up() {
    for step in [Step::StartVm, Step::InjectKey] {
        let (steps, run) = drive(config(), 0, &[step], 0);
        assert_eq!(steps[steps.len() - 3..], [step, Step::CleanStop, Step::CleanDelete]);
        assert_eq!(run.outcome(), Some(Err(step)));
    }
    for step in [Step::GetIp, Step::WaitForSsh, Step::SetUpGuest, Step::RunAgent] {
        let (steps, run) = drive(config(), 0, &[step, Step::CleanStop], 0);
        assert_eq!(
            steps[steps.len() - 4..],
            [step, Step::CleanStop, Step::CleanWait, Step::CleanDelete]
        );
        assert_eq!(run.outcome(), Some(Err(step)));
        assert!(!run.vm);
    }
}

#[test]
fn a_failure_in_a_warm_clone_cleans_up() {
    for step in [Step::WarmSetUp, Step::SendSettings, Step::SendState, Step::WarmRunAgent] {
        let mut c = config();
        c.warm_pool = true;
        let (steps, run) = drive(c, 0, &[step, Step::WarmStop, Step::WarmDelete], 0);
        assert_eq!(
            steps[steps.len() - 4..],
            [step, Step::WarmStop, Step::WarmWait, Step::WarmDelete]
        );
        assert_eq!(run.outcome(), Some(Err(step)));
    }
}

#[test]
fn a_vm_that_is_kept_is_stopped_but_not_deleted() {
    let mut c = config();
    c.persist = true;
    let (steps, run) = drive(c.clone(), 0, &[], 5);
    assert_eq!(steps[steps.len() - 2..], [Step::StopVm, Step::WaitForVm]);
    assert_eq!(run.outcome(), Some(Ok(5)));
    let (steps, run) = drive(c, 0, &[Step::SetUpGuest], 5);
    assert_eq!(*steps.last().unwrap(), Step::SetUpGuest);
    assert_eq!(run.outcome(), Some(Err(Step::SetUpGuest)));
}

#[test]
fn failures_of_the_teardown_are_the_runs() {
    let (steps, run) = drive(config(), 0, &[Step::StopVm], 0);
    assert_eq!(
        steps[steps.len() - 3..],
        [Step::StopVm, Step::CleanWait, Step::CleanDelete]
    );
    assert_eq!(run.outcome(), Some(Err(Step::StopVm)));
    assert!(!run.vm);
    let mut kept = config();
    kept.persist = true;
    let (steps, run) = drive(kept, 0, &[Step::StopVm], 0);
    assert_eq!(*steps.last().unwrap(), Step::StopVm);
    assert_eq!(run.outcome(), Some(Err(Step::StopVm)));
    let (_, run) = drive(config(), 0, &[Step::DeleteVm], 0);
    assert_eq!(run.outcome(), Some(Err(Step::DeleteVm)));
}

#[test]
fn a_failed_reap_is_ignored() {
    let (_, run) = drive(config(), 0, &[Step::Reap], 0);
    assert_eq!(run.outcome(), Some(Ok(0)));
}

#[test]
fn without_an_image_nothing_is_created() {
    let mut c = config();
    c.vm_image = None;
    let (steps, run) = drive(c, 0, &[], 0);
    assert_eq!(steps, vec![Step::Reap]);
    assert_eq!(run.outcome(), Some(Err(Step::RequireImage)));
}

#[test]
fn the_configuration_is_kept() {
    let s = Sandbox::new(config());
    assert_eq!(s.config().mount, "/p");
}

#[test]
fn steps_run_tart_on_the_vm() {
    let shares = vec![share_project("/p")];
    let args = |s: Step| s.command("run", "base", &shares).map(|v| v.join(" "));
    assert_eq!(
        args(Step::ValidateImage),
        Some("run --no-graphics base -- true".to_string())
    );
    assert_eq!(args(Step::CreateVm), Some("clone base run".to_string()));
    assert_eq!(
        args(Step::StartVm),
        Some("run --no-graphics --dir=/p:tag=project run".to_string())
    );
    for step in [Step::StopVm, Step::CleanStop, Step::WarmStop] {
        assert_eq!(args(step), Some("stop run".to_string()));
    }
    for step in [Step::DeleteVm, Step::CleanDelete, Step::WarmDelete] {
        assert_eq!(args(step), Some("delete run".to_string()));
    }
    assert_eq!(args(Step::WaitForVm), None);
    assert_eq!(args(Step::RunAgent), None);
}

#[test]
fn the_user_sees_how_far_a_run_is() {
    assert_eq!(Step::ResolveImage.progress(), None);
    assert_eq!(Step::ValidateImage.progress(), Some("Validating image…".to_string()));
    assert_eq!(Step::GenerateKey.progress(), Some("Cloning VM…".to_string()));
    assert_eq!(Step::CreateVm.progress(), Some("Cloning VM…".to_string()));
    assert_eq!(Step::InjectKey.progress(), Some("Preparing disk…".to_string()));
    assert_eq!(Step::StartVm.progress(), Some("Starting VM…".to_string()));
    assert_eq!(Step::WarmBoot.progress(), Some("Starting VM…".to_string()));
    assert_eq!(Step::WaitForSsh.progress(), Some("Waiting for SSH…".to_string()));
    assert_eq!(Step::SetUpGuest.progress(), Some("Configuring guest…".to_string()));
    assert_eq!(Step::RunAgent.progress(), None);
    assert_eq!(missing_image(), "--vm-image / CLAUDE_BOX_IMAGE required");
}

/// Runs with an interrupt while `at` is done; the steps that were done.
fn drive_interrupted(config: SandboxConfig, at: Step) -> (Vec<Step>, Run) {
    let mut run = Sandbox::new(config).run();
    let mut steps = Vec::new();
    while run.outcome().is_none() {
        let step = run.step;
        steps.push(step);
        run.next(OK);
        if step == at {
            run.interrupt();
        }
    }
    (steps, run)
}

#[test]
fn an_interrupted_run_is_torn_down() {
    let (steps, run) = drive_interrupted(config(), Step::WaitForSsh);
    assert_eq!(
        steps[steps.len() - 4..],
        [Step::WaitForSsh, Step::CleanStop, Step::CleanWait, Step::CleanDelete]
    );
    assert_eq!(run.outcome(), Some(Err(Step::SetUpGuest)));
    assert!(!run.vm && run.interrupted);
    let (steps, run) = drive_interrupted(config(), Step::FindAgent);
    assert_eq!(*steps.last().unwrap(), Step::FindAgent);
    assert_eq!(run.outcome(), Some(Err(Step::CreateVm)));
    let mut warm = config();
    warm.warm_pool = true;
    let (steps, run) = drive_interrupted(warm, Step::WarmBoot);
    assert_eq!(
        steps[steps.len() - 4..],
        [Step::WarmBoot, Step::WarmStop, Step::WarmWait, Step::WarmDelete]
    );
    assert!(!run.vm);
    let (_, run) = drive_interrupted(config(), Step::RunAgent);
    assert_eq!(run.outcome(), Some(Ok(0)));
    assert!(!run.interrupted);
}

#[test]
fn without_tools_nothing_is_cloned() {
    let (steps, run) = drive(config(), 0, &[Step::PrepareTools], 0);
    assert_eq!(*steps.last().unwrap(), Step::PrepareTools);
    assert_eq!(run.outcome(), Some(Err(Step::PrepareTools)));
}

#[test]
fn the_guest_is_set_up_by_the_kind_of_boot() {
    let shares = vec![
        share_project("/p"),
        DirShare {
            host_path: "/h".to_string(),
            tag: "t".to_string(),
            guest_mount: "/g".to_string(),
            read_only: true,
        },
    ];
    let bins = vec![BinaryDirShare {
        host_dir: b"/bin".to_vec(),
        tag: "b".to_string(),
        names: vec!["sh".to_string()],
        canonical_filenames: vec!["dash".to_string()],
    }];
    let commands = |s: Step| -> Option<Vec<String>> {
        let v = s.guest_commands("agent", "/p", &shares, &bins)?;
        Some(v.into_iter().map(|c| c.command).collect())
    };
    let cold = commands(Step::SetUpGuest).unwrap();
    assert!(cold.contains(&"sudo mount_virtiofs 't' '/g'".to_string()));
    assert!(cold.iter().any(|c| c.contains("/opt/agent-box/config/settings.json")));
    assert!(cold.iter().any(|c| c.contains("/opt/agent-box/bin/sh")));
    let warm = commands(Step::WarmSetUp).unwrap();
    assert_eq!(
        warm[..2],
        ["sudo mkdir -p '/p'".to_string(), "sudo mount_virtiofs 'project' '/p'".to_string()]
    );
    assert_eq!(warm.len(), 4);
    assert!(commands(Step::RunAgent).is_none());
}

#[test]
fn an_interrupt_while_the_agent_runs_does_not_cut_the_run_short() {
    let mut run = Sandbox::new(config()).run();
    while run.step != Step::RunAgent {
        run.next(OK);
    }
    run.next(OK);
    run.interrupt();
    assert_eq!(run.step, Step::StopVm);
    run.next(StepResult::Failed);
    while run.outcome().is_none() {
        run.next(OK);
    }
    assert_eq!(run.outcome(), Some(Err(Step::StopVm)));
    assert!(!run.interrupted && !run.vm);
    let fallback = after_failure(false, false, run.interrupted);
    assert_eq!(fallback, Fallback::RunWithWarning);
}
