use std::hash::{Hash, Hasher};

use vm_box::gc::list_claude_box_vms;
use vm_box::table::Table;
use vm_box::vm::warm_pool::{
    create_warm_vm, delete_all_warm_vms, ensure_warm_vm, id_of_image, list_warm_vms, lock_path,
    refresh_warm_vm, short_hash, suspend_error, tart_vm_exists, try_warm_boot, warm_key_path,
    warm_name, BootStep, CreateStep, Creation, EnsureAction, WarmBoot, WarmPoolState, WarmSlots,
    REFRESH_AGE,
};

fn state(entries: &[(&str, &str, u64)]) -> WarmPoolState {
    let mut s = WarmPoolState::load("/c", Table::new());
    for (image, name, at) in entries {
        s.set(image, name, *at);
    }
    s
}

fn create(fails: &[CreateStep]) -> (Vec<CreateStep>, Creation) {
    let mut c = create_warm_vm();
    let mut steps = Vec::new();
    while c.step != CreateStep::Done {
        steps.push(c.step);
        let ok = !fails.contains(&c.step);
        c.next(ok);
    }
    (steps, c)
}

fn boot(fails: &[BootStep]) -> (Vec<(BootStep, bool)>, WarmBoot) {
    let mut b = try_warm_boot();
    let mut steps = Vec::new();
    while b.step != BootStep::Done {
        steps.push((b.step, b.locked));
        let ok = !fails.contains(&b.step);
        b.next(ok);
    }
    (steps, b)
}

#[test]
fn the_hash_is_that_of_the_default_hasher() {
    for s in ["", "ghcr.io/cirruslabs/macos-sequoia-base:latest", "ünï"] {
        let mut h = std::collections::hash_map::DefaultHasher::new();
        s.hash(&mut h);
        assert_eq!(short_hash(s), format!("{:016x}", h.finish()));
        assert_eq!(id_of_image(s), short_hash(s)[..8]);
    }
}

#[test]
fn names_and_paths_of_the_pool() {
    let id = id_of_image("img");
    assert_eq!(warm_name("agent", "img"), format!("agent-box-warm-{}", id));
    assert_eq!(warm_key_path("/c", "img"), format!("/c/warm-keys/{}.pem", id));
    assert_eq!(lock_path("/c"), "/c/warm-pool.lock");
    let (tmp, path) = state(&[]).save();
    assert_eq!(tmp, "/c/warm-pool.json.tmp");
    assert_eq!(path, "/c/warm-pool.json");
    let list = format!("Source Name\nlocal {}\n", warm_name("agent", "img"));
    assert!(list_claude_box_vms("agent", &list).is_empty());
}

#[test]
fn the_slot_has_one_path() {
    let s = WarmSlots::new("/c");
    assert_eq!(s.project_slot(), "/c/warm-slots/project");
    assert_eq!(s.tart_dir_arg(), "/c/warm-slots/project:tag=project");
    assert_eq!(
        s.activate("/p"),
        ("/c/warm-slots/project".to_string(), "/p".to_string())
    );
    assert_eq!(
        s.init_placeholder(),
        ("/c/warm-slots/project".to_string(), "/c/warm-slot-placeholder".to_string())
    );
    assert_eq!(
        s.dirs(),
        ("/c/warm-slots".to_string(), "/c/warm-slot-placeholder".to_string())
    );
    assert_eq!(
        s.run_args("vm"),
        vec![
            "run",
            "--suspendable",
            "--no-graphics",
            "--dir=/c/warm-slots/project:tag=project",
            "vm",
        ]
    );
}

#[test]
fn entries_are_recorded_and_forgotten() {
    let mut s = state(&[("a", "x", 10), ("b", "y", 20)]);
    assert_eq!(s.get("a").unwrap().tart_name, "x");
    assert_eq!(
        list_warm_vms(&s, 15),
        vec![("a".to_string(), "x".to_string(), 5), ("b".to_string(), "y".to_string(), 0)]
    );
    assert_eq!(refresh_warm_vm("a", &mut s).as_deref(), Some("x"));
    assert_eq!(refresh_warm_vm("a", &mut s), None);
    assert!(s.get("a").is_none());
    assert!(s.get("b").is_some());
}

#[test]
fn all_warm_vms_are_deleted() {
    let mut s = state(&[("a", "x", 10), ("b", "y", 20)]);
    assert_eq!(delete_all_warm_vms(&mut s), Some(("a".to_string(), "x".to_string())));
    assert_eq!(delete_all_warm_vms(&mut s), Some(("b".to_string(), "y".to_string())));
    assert_eq!(delete_all_warm_vms(&mut s), None);
    assert_eq!(s.entries().len(), 0);
}

#[test]
fn a_warm_vm_is_used_while_it_is_fresh_and_there() {
    let go = |now, there| {
        let mut s = state(&[("a", "x", 1000)]);
        let r = match ensure_warm_vm("a", now, there, &mut s) {
            EnsureAction::UseIt(n) => format!("use {}", n),
            EnsureAction::Replace(n) => format!("replace {}", n),
            EnsureAction::Create => "create".to_string(),
        };
        (r, s.get("a").is_some())
    };
    assert_eq!(go(1000, true), ("use x".to_string(), true));
    assert_eq!(go(1000 + REFRESH_AGE - 1, true), ("use x".to_string(), true));
    assert_eq!(go(1000 + REFRESH_AGE, true), ("replace x".to_string(), false));
    assert_eq!(go(1000, false), ("replace x".to_string(), false));
    assert_eq!(go(0, true), ("use x".to_string(), true));
    let mut s = state(&[]);
    assert!(matches!(ensure_warm_vm("a", 0, true, &mut s), EnsureAction::Create));
}

#[test]
fn existing_vms_are_found_in_the_list() {
    let out = "Source Name\nlocal vm 1\n";
    assert!(tart_vm_exists("vm", out));
    assert!(tart_vm_exists("Name", out));
    assert!(!tart_vm_exists("local", out));
    assert!(!tart_vm_exists("vm", ""));
}

#[test]
fn a_warm_vm_is_created() {
    let (steps, c) = create(&[CreateStep::StopStale, CreateStep::DeleteStale, CreateStep::Wait]);
    assert_eq!(
        steps,
        vec![
            CreateStep::StopStale, CreateStep::DeleteStale, CreateStep::PointAtPlaceholder,
            CreateStep::Clone, CreateStep::GenerateKey, CreateStep::Inject, CreateStep::SaveKey,
            CreateStep::Start, CreateStep::GetIp, CreateStep::WaitForSsh, CreateStep::Suspend,
            CreateStep::Wait, CreateStep::Record,
        ]
    );
    assert_eq!(c.failed, None);
}

#[test]
fn a_creation_that_fails_leaves_nothing() {
    for step in [CreateStep::PointAtPlaceholder, CreateStep::Clone] {
        let (steps, c) = create(&[step]);
        assert_eq!(*steps.last().unwrap(), step);
        assert_eq!(c.failed, Some(step));
    }
    for step in [CreateStep::GenerateKey, CreateStep::Inject, CreateStep::SaveKey, CreateStep::Start, CreateStep::Record] {
        let (steps, c) = create(&[step]);
        assert_eq!(steps[steps.len() - 3..], [step, CreateStep::CleanStop, CreateStep::CleanDelete]);
        assert_eq!(c.failed, Some(step));
    }
    for step in [CreateStep::GetIp, CreateStep::WaitForSsh, CreateStep::Suspend] {
        let (steps, c) = create(&[step, CreateStep::CleanStop]);
        assert_eq!(
            steps[steps.len() - 4..],
            [step, CreateStep::CleanStop, CreateStep::CleanWait, CreateStep::CleanDelete]
        );
        assert_eq!(c.failed, Some(step));
        assert!(!c.vm);
    }
}

#[test]
fn a_suspension_that_fails_in_words() {
    assert_eq!(suspend_error("vm", &b" \n".to_vec()), "tart suspend failed for warm VM vm");
    assert_eq!(
        suspend_error("vm", &b"busy\n".to_vec()),
        "tart suspend failed for warm VM vm:\nbusy"
    );
}

#[test]
fn a_clone_is_booted_under_the_lock() {
    let (steps, b) = boot(&[]);
    assert_eq!(
        steps,
        vec![
            (BootStep::EnsureWarmVm, false),
            (BootStep::LoadKey, false),
            (BootStep::Lock, false),
            (BootStep::ActivateSlot, true),
            (BootStep::Clone, true),
            (BootStep::Start, true),
            (BootStep::GetIp, false),
            (BootStep::WaitForSsh, false),
        ]
    );
    assert_eq!((b.failed, b.vm, b.child), (None, true, true));
}

#[test]
fn a_boot_that_fails_leaves_nothing() {
    for step in [BootStep::EnsureWarmVm, BootStep::LoadKey, BootStep::Lock, BootStep::ActivateSlot, BootStep::Clone] {
        let (steps, b) = boot(&[step]);
        assert_eq!(steps.last().unwrap().0, step);
        assert_eq!((b.failed, b.vm, b.locked), (Some(step), false, false));
    }
    let (steps, b) = boot(&[BootStep::Start]);
    assert_eq!(steps[6].0, BootStep::CleanStop);
    assert_eq!(steps[7].0, BootStep::CleanDelete);
    assert_eq!((b.failed, b.vm), (Some(BootStep::Start), false));
    for step in [BootStep::GetIp, BootStep::WaitForSsh] {
        let (steps, b) = boot(&[step]);
        let last: Vec<BootStep> = steps[steps.len() - 3..].iter().map(|s| s.0).collect();
        assert_eq!(last, vec![BootStep::CleanStop, BootStep::CleanWait, BootStep::CleanDelete]);
        assert_eq!((b.failed, b.vm), (Some(step), false));
    }
}

#[test]
fn steps_of_the_pool_run_tart() {
    let slots = WarmSlots::new("/c");
    let args = |s: CreateStep| s.command("warm", "base", &slots).map(|v| v.join(" "));
    assert_eq!(args(CreateStep::StopStale), Some("stop warm".to_string()));
    assert_eq!(args(CreateStep::DeleteStale), Some("delete warm".to_string()));
    assert_eq!(args(CreateStep::Clone), Some("clone base warm".to_string()));
    assert_eq!(
        args(CreateStep::Start),
        Some("run --suspendable --no-graphics --dir=/c/warm-slots/project:tag=project warm".to_string())
    );
    assert_eq!(args(CreateStep::Suspend), Some("suspend warm".to_string()));
    assert_eq!(args(CreateStep::CleanStop), Some("stop warm".to_string()));
    assert_eq!(args(CreateStep::CleanDelete), Some("delete warm".to_string()));
    assert_eq!(args(CreateStep::Inject), None);
    let args = |s: BootStep| s.command("run", "warm", &slots).map(|v| v.join(" "));
    assert_eq!(args(BootStep::Clone), Some("clone warm run".to_string()));
    assert_eq!(
        args(BootStep::Start),
        Some("run --suspendable --no-graphics --dir=/c/warm-slots/project:tag=project run".to_string())
    );
    assert_eq!(args(BootStep::CleanStop), Some("stop run".to_string()));
    assert_eq!(args(BootStep::CleanDelete), Some("delete run".to_string()));
    assert_eq!(args(BootStep::Lock), None);
}

#[test]
fn an_interrupted_creation_leaves_nothing_behind() {
    for (at, rest) in [
        (CreateStep::DeleteStale, vec![]),
        (CreateStep::Clone, vec![CreateStep::CleanStop, CreateStep::CleanDelete]),
        (
            CreateStep::Start,
            vec![CreateStep::CleanStop, CreateStep::CleanWait, CreateStep::CleanDelete],
        ),
        (CreateStep::Suspend, vec![CreateStep::Wait, CreateStep::Record]),
    ] {
        let mut c = create_warm_vm();
        while c.step != at {
            c.next(true);
        }
        c.next(true);
        c.interrupt();
        let mut steps = Vec::new();
        while c.step != CreateStep::Done {
            steps.push(c.step);
            c.next(true);
        }
        assert_eq!(steps, rest);
        assert!(!c.vm && !c.child);
        assert_eq!(c.failed.is_none(), at == CreateStep::Suspend);
    }
}

#[test]
fn an_interrupted_boot_leaves_nothing_behind() {
    for (at, rest) in [
        (BootStep::LoadKey, vec![]),
        (BootStep::Clone, vec![BootStep::CleanStop, BootStep::CleanDelete]),
        (
            BootStep::Start,
            vec![BootStep::CleanStop, BootStep::CleanWait, BootStep::CleanDelete],
        ),
    ] {
        let mut b = try_warm_boot();
        while b.step != at {
            b.next(true);
        }
        b.next(true);
        b.interrupt();
        let mut steps = Vec::new();
        while b.step != BootStep::Done {
            steps.push(b.step);
            b.next(true);
        }
        assert_eq!(steps, rest);
        assert!(!b.vm && !b.child && !b.locked && b.failed.is_some());
    }
}
