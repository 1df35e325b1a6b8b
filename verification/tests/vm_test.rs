use vm_box::mount::DirShare;
use vm_box::vm::guest_setup::{setup_guest, GuestCommand};
use vm_box::vm::health::{
    backoff_duration, get_vm_ip, ip_args, not_ready, IpOutcome, SshAction, SshWait,
};
use vm_box::vm::tart::{default_timeout, timeout, TartOutcome, TartVm};
use vm_box::vm::{vm_config, Vm};
use vm_box::tools::BinaryDirShare;

fn share(path: &str, tag: &str) -> DirShare {
    DirShare {
        host_path: path.to_string(),
        tag: tag.to_string(),
        guest_mount: path.to_string(),
        read_only: false,
    }
}

fn commands(v: &[GuestCommand]) -> Vec<(&str, Option<&str>)> {
    v.iter().map(|c| (c.command.as_str(), c.failure.as_deref())).collect()
}

#[test]
fn tart_command_lines() {
    let vm = TartVm::new();
    let config = vm_config("vm", "base", &vec![share("/p", "project")]);
    assert_eq!(vm.create(&config), vec!["clone", "base", "vm"]);
    assert_eq!(vm.stop("vm"), vec!["stop", "vm"]);
    assert_eq!(TartVm::default().delete("vm"), vec!["delete", "vm"]);
    assert_eq!(config.dir_shares, vec![("/p".to_string(), "project".to_string())]);
}

#[test]
fn timeouts_by_subcommand_and_override() {
    assert_eq!(default_timeout("clone"), 300);
    assert_eq!(default_timeout("stop"), 30);
    assert_eq!(default_timeout("delete"), 30);
    assert_eq!(default_timeout("ip"), 60);
    assert_eq!(timeout("clone", &Some("5".to_string())), 5);
    assert_eq!(timeout("clone", &Some("five".to_string())), 300);
    assert_eq!(timeout("stop", &None), 30);
}

#[test]
fn tart_failures_in_words() {
    let args = vec!["stop".to_string(), "vm".to_string()];
    let exited = |success, stderr: &[u8]| TartOutcome::Exited {
        success,
        status: "exit status: 2".to_string(),
        stderr: stderr.to_vec(),
    };
    assert_eq!(TartVm::run_tart(&args, 30, &exited(true, b"noise")), Ok(()));
    assert_eq!(
        TartVm::run_tart(&args, 30, &exited(false, b" \n")).unwrap_err(),
        "tart stop exited with exit status: 2"
    );
    assert_eq!(
        TartVm::run_tart(&args, 30, &exited(false, b"no such VM\n")).unwrap_err(),
        "tart stop failed:\nno such VM"
    );
    assert_eq!(
        TartVm::run_tart(&args, 30, &TartOutcome::TimedOut).unwrap_err(),
        "tart stop timed out after 30s"
    );
    assert_eq!(
        TartVm::run_tart(&vec![], 60, &TartOutcome::NotSpawned).unwrap_err(),
        "failed to spawn tart"
    );
    assert_eq!(TartVm::subcommand(&vec![]), "unknown");
}

#[test]
fn the_ip_address_is_what_tart_prints() {
    let exited = |success, stdout: &[u8]| IpOutcome::Exited { success, stdout: stdout.to_vec() };
    assert_eq!(ip_args("vm"), vec!["ip", "vm", "--wait", "30"]);
    assert_eq!(get_vm_ip("vm", exited(true, b"10.0.0.2\n")).unwrap(), "10.0.0.2");
    assert_eq!(get_vm_ip("vm", exited(false, b"")).unwrap_err(), "tart ip failed for vm");
    assert_eq!(get_vm_ip("vm", exited(true, b"\xff")).unwrap_err(), "tart ip output not utf8");
    assert_eq!(
        get_vm_ip("vm", exited(true, b"\n")).unwrap_err(),
        "tart ip returned empty string for vm"
    );
    assert_eq!(get_vm_ip("vm", IpOutcome::TimedOut).unwrap_err(), "tart ip timed out");
    assert_eq!(get_vm_ip("vm", IpOutcome::NotSpawned).unwrap_err(), "failed to run tart ip");
}

#[test]
fn backoff_doubles_with_jitter() {
    assert_eq!(backoff_duration(0, 0), 150);
    assert_eq!(backoff_duration(0, 99), 249);
    assert_eq!(backoff_duration(0, 100), 150);
    assert_eq!(backoff_duration(3, 0), 1200);
    assert_eq!(backoff_duration(5, 0), 4800);
    assert_eq!(backoff_duration(5, 3199), 7999);
    assert_eq!(backoff_duration(1000, 0), 4800);
    for attempt in 0..10u32 {
        let base = 200u64 * (1 << attempt.min(5));
        for nanos in [0u32, 1, 12345, 999_999_999] {
            let ms = backoff_duration(attempt, nanos);
            assert!(ms >= base - base / 4 && ms < base + base / 4);
        }
    }
}

#[test]
fn waiting_for_ssh() {
    let mut w = SshWait::new();
    assert_eq!(w.wait_for_ssh(false, false, 0), SshAction::Sleep(150));
    assert_eq!(w.wait_for_ssh(false, false, 0), SshAction::Sleep(300));
    assert_eq!(w.failed, 2);
    assert_eq!(w.wait_for_ssh(false, true, 0), SshAction::GiveUp);
    assert_eq!(w.wait_for_ssh(true, true, 0), SshAction::Ready);
    assert_eq!(
        not_ready("10.0.0.2", 120, "refused"),
        "SSH on 10.0.0.2 not ready after 120s: refused"
    );
}

#[test]
fn a_guest_with_everything() {
    let bins = vec![
        BinaryDirShare {
            host_dir: b"/bin".to_vec(),
            tag: "t".to_string(),
            names: vec!["a".to_string(), "b".to_string()],
            canonical_filenames: vec!["a".to_string(), "b_real".to_string()],
        },
        BinaryDirShare {
            host_dir: b"/x".to_vec(),
            tag: "u".to_string(),
            names: vec!["c".to_string()],
            canonical_filenames: vec!["c".to_string()],
        },
    ];
    let plan = setup_guest(
        "agent",
        &vec![share("/p", "project")],
        &Some("/opt/agent-box/config".to_string()),
        &bins,
    );
    assert_eq!(
        commands(&plan),
        vec![
            ("sudo mkdir -p '/p'", Some("mkdir -p /p")),
            ("sudo mount_virtiofs 'project' '/p'", Some("mount_virtiofs project -> /p")),
            (
                "mkdir -p ~/.local/bin && ln -sf /opt/agent-box/agent/agent ~/.local/bin/agent",
                None
            ),
            (
                "echo 'export PATH=$HOME/.local/bin:/opt/agent-box/bin:$PATH' >> ~/.zshenv",
                None
            ),
            (
                "if [ -f '/opt/agent-box/config/settings.json' ]; then mkdir -p ~/.agent && cp \
                 '/opt/agent-box/config/settings.json' ~/.agent/settings.json; fi",
                None
            ),
            (
                "if [ -f '/opt/agent-box/config/agent.json' ]; then cp \
                 '/opt/agent-box/config/agent.json' ~/.agent.json; fi",
                None
            ),
            ("sudo mkdir -p /opt/agent-box/bin", Some("mkdir /opt/agent-box/bin")),
            (
                "sudo ln -sf '/opt/agent-box/src-0/a' '/opt/agent-box/bin/a'",
                Some("ln -sf /opt/agent-box/src-0/a /opt/agent-box/bin/a")
            ),
            (
                "sudo ln -sf '/opt/agent-box/src-0/b_real' '/opt/agent-box/bin/b'",
                Some("ln -sf /opt/agent-box/src-0/b_real /opt/agent-box/bin/b")
            ),
            (
                "sudo ln -sf '/opt/agent-box/src-1/c' '/opt/agent-box/bin/c'",
                Some("ln -sf /opt/agent-box/src-1/c /opt/agent-box/bin/c")
            ),
        ]
    );
}

#[test]
fn a_guest_with_nothing() {
    let plan = setup_guest("agent", &vec![], &None, &vec![]);
    assert_eq!(plan.len(), 2);
    assert_eq!(plan[1].command, "echo 'export PATH=$HOME/.local/bin:$PATH' >> ~/.zshenv");
}

#[test]
fn exit_codes_matter_only_where_they_are_checked() {
    let plan = setup_guest("agent", &vec![share("/p", "project")], &None, &vec![]);
    assert!(plan[0].check(0).is_ok());
    assert_eq!(plan[0].check(1).unwrap_err(), "mkdir -p /p exited 1");
    assert_eq!(plan[1].check(-1).unwrap_err(), "mount_virtiofs project -> /p exited -1");
    assert!(plan[2].check(127).is_ok());
}
