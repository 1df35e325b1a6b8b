use vm_box::cli::{
    accepts_install, after_failure, age_label, inner_args, run_warm_command, subcommand,
    tart_missing, warm_table, Fallback, Subcommand, WarmCommand,
};
use vm_box::gc::{
    describe_vm, gc_summary, list_claude_box_vms, list_stopped_vms, reap_stale_vms,
    run_gc_command, vm_dir,
    ReapAction,
};

fn strings(v: &[&str]) -> Vec<String> {
    v.iter().map(|s| s.to_string()).collect()
}

#[test]
fn run_vms_are_found_and_warm_ones_are_not() {
    let out = "Source Name State\n\
               local agent-box-1 stopped\n\
               local agent-box-warm-2 suspended\n\
               local other stopped\n\
               local agent-box- stopped\n\
               local my-agent-box-3 stopped\n";
    assert_eq!(list_claude_box_vms("agent", out), vec!["agent-box-1", "agent-box-"]);
    assert!(list_claude_box_vms("agent", "").is_empty());
}

#[test]
fn stale_vms_are_stopped_and_deleted() {
    let mut r = reap_stale_vms(&vec![Some(10), Some(100), None, Some(99)], 100);
    assert_eq!(
        r.plan,
        vec![
            ReapAction::Stop(1),
            ReapAction::Delete(1),
            ReapAction::Stop(2),
            ReapAction::Delete(2),
        ]
    );
    assert_eq!(r.action(), Some(ReapAction::Stop(1)));
    r.next(true);
    assert_eq!(r.deleted, 0);
    r.next(true);
    assert_eq!(r.deleted, 1);
    r.next(false);
    r.next(false);
    assert_eq!(r.deleted, 1);
    assert_eq!(r.action(), None);
}

#[test]
fn the_gc_subcommand_deletes_all() {
    let (line, r) = run_gc_command("agent", &strings(&[]));
    assert_eq!(line, "No agent-box VMs found.");
    assert!(r.plan.is_empty());
    let (line, r) = run_gc_command("agent", &strings(&["a", "b"]));
    assert_eq!(line, "Found 2 agent-box VM(s):");
    assert_eq!(r.plan.len(), 4);
    assert_eq!(gc_summary(1, 2), "Deleted 1/2 VM(s).");
}

#[test]
fn vms_are_described_with_their_age() {
    assert_eq!(describe_vm("vm", Some(179)), "  vm (2m ago)");
    assert_eq!(describe_vm("vm", None), "  vm (unknown age)");
    assert_eq!(vm_dir("/h", "vm"), "/h/.tart/vms/vm");
}

#[test]
fn subcommands_of_the_tool() {
    assert_eq!(subcommand(&strings(&["x", "images", "list"])), Subcommand::Images);
    assert_eq!(subcommand(&strings(&["x", "gc"])), Subcommand::Gc);
    assert_eq!(subcommand(&strings(&["x", "warm"])), Subcommand::Warm);
    assert_eq!(subcommand(&strings(&["x", "--persist", "gc"])), Subcommand::Run);
    assert_eq!(subcommand(&strings(&["x"])), Subcommand::Run);
    assert_eq!(subcommand(&strings(&[])), Subcommand::Run);
}

#[test]
fn help_is_passed_through_first() {
    assert_eq!(inner_args(strings(&["a", "b"]), true), vec!["--help", "a", "b"]);
    assert_eq!(inner_args(strings(&["a"]), false), vec!["a"]);
}

#[test]
fn an_install_is_accepted_by_default() {
    for s in ["", "\n", "y", "Y\n", "yes", " YES "] {
        assert!(accepts_install(s), "{:?}", s);
    }
    for s in ["n", "no", "yep", "1"] {
        assert!(!accepts_install(s), "{:?}", s);
    }
}

#[test]
fn the_fallback_is_forbidden_or_asked_for() {
    assert_eq!(after_failure(false, false, false), Fallback::RunWithWarning);
    assert_eq!(after_failure(true, false, false), Fallback::Fail);
    assert_eq!(after_failure(false, true, false), Fallback::RunOnHost);
    assert_eq!(after_failure(true, true, false), Fallback::RunOnHost);
    assert_eq!(after_failure(false, false, true), Fallback::Fail);
    assert_eq!(after_failure(false, true, true), Fallback::Fail);
    assert_eq!(
        tart_missing("agent", false).unwrap(),
        "agent-box: tart not available, falling back to host agent"
    );
    assert_eq!(
        tart_missing("agent", true).unwrap_err(),
        "tart is not installed and --no-fallback is set"
    );
}

#[test]
fn the_warm_subcommand() {
    assert_eq!(run_warm_command(&strings(&["list"])), WarmCommand::List);
    assert_eq!(run_warm_command(&strings(&["refresh"])), WarmCommand::Refresh);
    assert_eq!(run_warm_command(&strings(&["delete"])), WarmCommand::Delete);
    assert_eq!(run_warm_command(&strings(&["what"])), WarmCommand::Usage);
    assert_eq!(run_warm_command(&strings(&[])), WarmCommand::Usage);
}

#[test]
fn ages_have_the_largest_unit() {
    for (secs, label) in [
        (0, "0m"), (59, "0m"), (3599, "59m"), (3600, "1h"), (86399, "23h"), (86400, "1d"),
        (604800, "7d"),
    ] {
        assert_eq!(age_label(secs), label);
    }
}

#[test]
fn the_table_of_warm_vms() {
    assert_eq!(warm_table(&vec![]), vec!["No warm VMs found."]);
    let vms = vec![("img".to_string(), "vm".to_string(), 7200)];
    assert_eq!(
        warm_table(&vms),
        vec![
            format!("{:<50} {:<30} AGE", "IMAGE", "VM NAME"),
            format!("{:<50} {:<30} {}", "img", "vm", "2h"),
        ]
    );
}

#[test]
fn only_stopped_vms_are_listed_for_a_reap() {
    let list = "Source Name Disk Size Accessed State\n\
        local agent-box-a 50 20 now running\n\
        local agent-box-b 50 20 now stopped\n\
        local agent-box-warm-c 50 20 now stopped\n\
        local other 50 20 now stopped\n\
        local agent-box-d 50 20 now suspended\n\
        stopped\n\
        local agent-box-e 50 20 now stopped\n";
    assert_eq!(list_stopped_vms("agent", list), vec!["agent-box-b", "agent-box-e"]);
    assert_eq!(
        list_claude_box_vms("agent", list),
        vec!["agent-box-a", "agent-box-b", "agent-box-d", "agent-box-e"]
    );
    assert!(list_stopped_vms("agent", "").is_empty());
}
