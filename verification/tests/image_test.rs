use vm_box::images::{
    cmd_list, cmd_prune, cmd_pull, cmd_rm, prune_list, prune_summary, rm_report,
    run_images_command, Deletion, ImagesCommand,
};
use vm_box::table::Table;
use vm_box::vm::image::{
    do_pull_oci, image_exists_in_tart, import_args, import_ipsw, list_tart_images,
    prompt_pull_or_fallback, pull_args, pull_oci, resolve_image, validate_image, ImageAction,
    PullPolicy,
    UserRequestedFallback,
};
use vm_box::vm::image_cache::{cache_dir, CacheEntry, ImageCache};

const LIST: &str = "Source Name Disk Size\nlocal base 50 20\n\nOCI   ghcr.io/x:latest 50 20 stopped\nodd\n";

fn empty() -> ImageCache {
    ImageCache::load("/h", "agent", Table::new())
}

fn cached(image_ref: &str, name: &str) -> ImageCache {
    let mut t = Table::new();
    t.insert(
        image_ref.to_string(),
        CacheEntry { local_name: name.to_string(), pulled_at: "5".to_string() },
    );
    ImageCache::load("/h", "agent", t)
}

fn strings(v: &[&str]) -> Vec<String> {
    v.iter().map(|s| s.to_string()).collect()
}

fn action(a: ImageAction) -> String {
    match a {
        ImageAction::Use(s) => format!("use {}", s),
        ImageAction::Pull => "pull".to_string(),
        ImageAction::Import(s) => format!("import {}", s),
        ImageAction::Refuse(s) => format!("refuse {}", s),
    }
}

#[test]
fn names_are_the_second_column_behind_the_header() {
    assert_eq!(list_tart_images(LIST), vec!["base", "ghcr.io/x:latest"]);
    assert!(list_tart_images("").is_empty());
    assert!(image_exists_in_tart("base", LIST));
    assert!(!image_exists_in_tart("Name", LIST));
    assert!(!image_exists_in_tart("local", LIST));
}

#[test]
fn an_existing_ipsw_file_is_imported() {
    assert!(resolve_image("/x/img.ipsw", true));
    assert!(!resolve_image("/x/img.ipsw", false));
    assert!(!resolve_image("/x/img.tar", true));
    assert!(!resolve_image("/x/.ipsw", true));
    assert!(!resolve_image("/x", true));
}

#[test]
fn pulls_follow_the_policy() {
    let store = strings(&["base", "r"]);
    let go = |r: &str, p, c: &ImageCache| action(pull_oci("agent", r, p, &store, c));
    assert_eq!(go("r", PullPolicy::Always, &empty()), "pull");
    assert_eq!(go("r", PullPolicy::Missing, &empty()), "use r");
    assert_eq!(go("r", PullPolicy::Never, &empty()), "use r");
    assert_eq!(go("r", PullPolicy::Missing, &cached("r", "base")), "use base");
    assert_eq!(go("r", PullPolicy::Missing, &cached("r", "gone")), "use r");
    assert_eq!(go("q", PullPolicy::Missing, &cached("q", "gone")), "pull");
    assert_eq!(go("q", PullPolicy::Missing, &empty()), "pull");
    assert_eq!(
        go("q", PullPolicy::Never, &empty()),
        "refuse image q not found locally and --pull=never; run `agent-box images pull q` first"
    );
    assert_eq!(PullPolicy::default(), PullPolicy::Missing);
}

#[test]
fn only_a_clear_answer_falls_back() {
    let ask = |s: &str| prompt_pull_or_fallback(&Some(s.to_string()));
    for s in ["f\n", " F ", "fallback", "FALLBACK\n", "FallBac\u{212a}"] {
        assert!(!ask(s), "{:?}", s);
    }
    for s in ["", "\n", "w", "wait", "x", "ff", "ＦＡＬＬＢＡＣＫ"] {
        assert!(ask(s), "{:?}", s);
    }
    assert!(prompt_pull_or_fallback(&None));
}

#[test]
fn a_pull_is_remembered() {
    let mut cache = empty();
    assert_eq!(do_pull_oci("r", true, "exit status: 0", &mut cache, 77).unwrap(), "r");
    let entry = cache.get("r").unwrap();
    assert_eq!((entry.local_name.as_str(), entry.pulled_at.as_str()), ("r", "77"));
    assert_eq!(
        do_pull_oci("q", false, "exit status: 1", &mut cache, 78).unwrap_err(),
        "tart pull q failed with exit status: 1"
    );
    assert!(cache.get("q").is_none());
    let store = strings(&["r"]);
    assert_eq!(action(pull_oci("agent", "r", PullPolicy::Never, &store, &cache)), "use r");
}

#[test]
fn a_file_is_imported_once() {
    let zip = b"PK\x03\x04".to_vec();
    assert_eq!(action(import_ipsw("/x/mac.os.ipsw", &zip, &strings(&[]))), "import mac.os");
    assert_eq!(action(import_ipsw("/x/mac.ipsw", &zip, &strings(&["mac"]))), "use mac");
    assert_eq!(action(import_ipsw("/", &zip, &strings(&[]))), "import imported");
    assert_eq!(import_args("/x/m.ipsw", "m"), vec!["create", "--from-ipsw", "/x/m.ipsw", "m"]);
    assert_eq!(validate_image("m"), vec!["run", "--no-graphics", "m", "--", "true"]);
    assert_eq!(
        UserRequestedFallback.message("agent"),
        "user requested fallback to host agent (unsandboxed)"
    );
}

#[test]
fn the_cache_has_its_files() {
    assert_eq!(cache_dir("/h", "agent"), "/h/.cache/agent-box");
    assert_eq!(ImageCache::lock_file("/h", "agent"), "/h/.cache/agent-box/images.lock");
    let (tmp, path) = empty().save();
    assert_eq!(tmp, "/h/.cache/agent-box/images.json.tmp");
    assert_eq!(path, "/h/.cache/agent-box/images.json");
}

#[test]
fn entries_are_inserted_and_removed() {
    let mut cache = empty();
    cache.insert("a", "x", 1);
    cache.insert("b", "y", 2);
    cache.insert("a", "z", 3);
    assert_eq!(cache.entries().len(), 2);
    assert_eq!(cache.get("a").unwrap().local_name, "z");
    cache.remove("a");
    assert!(cache.get("a").is_none());
    assert_eq!(cache.get("b").unwrap().pulled_at, "2");
}

#[test]
fn the_images_subcommand() {
    let run = |v: &[&str]| match run_images_command("agent", &strings(v)) {
        ImagesCommand::List => "list".to_string(),
        ImagesCommand::Pull(s) => format!("pull {}", s),
        ImagesCommand::Rm(s) => format!("rm {}", s),
        ImagesCommand::Prune => "prune".to_string(),
        ImagesCommand::Usage(s) => s,
        ImagesCommand::Unknown(s) => s,
    };
    assert_eq!(run(&[]), "list");
    assert_eq!(run(&["list", "x"]), "list");
    assert_eq!(run(&["pull", "r"]), "pull r");
    assert_eq!(run(&["pull"]), "usage: agent-box images pull <ref>");
    assert_eq!(run(&["rm", "r"]), "rm r");
    assert_eq!(run(&["rm"]), "usage: agent-box images rm <ref|name>");
    assert_eq!(run(&["prune"]), "prune");
    assert_eq!(run(&["what"]), "unknown images subcommand: what");
}

#[test]
fn the_table_of_images() {
    assert_eq!(cmd_list(&empty()), vec!["No cached images."]);
    let lines = cmd_list(&cached("ref", "name"));
    assert_eq!(lines[0], format!("{:<60} {:<40} PULLED AT", "IMAGE REF", "LOCAL NAME"));
    assert_eq!(lines[1], "-".repeat(110));
    assert_eq!(lines[2], format!("{:<60} {:<40} {}", "ref", "name", "5"));
    assert_eq!(lines.len(), 3);
    assert_eq!(cmd_pull("r", "n"), "Pulled r → n");
}

#[test]
fn removing_an_image() {
    let mut cache = cached("ref", "name");
    assert_eq!(cmd_rm("other", &mut cache), "other");
    assert!(cache.get("ref").is_some());
    assert_eq!(cmd_rm("ref", &mut cache), "name");
    assert!(cache.get("ref").is_none());
    assert_eq!(
        rm_report("name", &Deletion::Absent).unwrap(),
        "Image name not found in tart (removed from cache only)"
    );
    assert_eq!(rm_report("name", &Deletion::Deleted).unwrap(), "Deleted name");
    assert_eq!(
        rm_report("name", &Deletion::Refused("exit status: 1".to_string())).unwrap_err(),
        "tart delete name failed with exit status: 1"
    );
}

#[test]
fn pruning_forgets_every_image() {
    let mut cache = cached("a", "x");
    cache.insert("b", "y", 1);
    cache.insert("c", "z", 1);
    let list = prune_list(&cache);
    assert_eq!(
        list,
        vec![
            ("a".to_string(), "x".to_string()),
            ("b".to_string(), "y".to_string()),
            ("c".to_string(), "z".to_string()),
        ]
    );
    assert_eq!(cmd_prune("a", "x", &Deletion::Absent, &mut cache), None);
    assert_eq!(
        cmd_prune("b", "y", &Deletion::Deleted, &mut cache),
        Some(("Deleted y".to_string(), false))
    );
    assert_eq!(
        cmd_prune("c", "z", &Deletion::Refused("exit status: 1".to_string()), &mut cache),
        Some(("warning: tart delete z failed with exit status: 1".to_string(), true))
    );
    assert_eq!(cache.entries().len(), 0);
    assert_eq!(prune_summary(3), "Pruned 3 image(s).");
    assert_eq!(prune_summary(0), "Nothing to prune.");
}

#[test]
fn an_image_is_pulled_by_its_ref() {
    assert_eq!(pull_args("ghcr.io/x:1"), vec!["pull", "ghcr.io/x:1"]);
}

#[test]
fn a_file_that_is_no_archive_is_not_imported() {
    let refused = "refuse not a macOS IPSW (no zip archive): /x/mac.ipsw";
    for head in [&b"PK\x03"[..], b"PK\x05\x06", b"", b"PKPK"] {
        let head = head.to_vec();
        assert_eq!(action(import_ipsw("/x/mac.ipsw", &head, &strings(&[]))), refused);
        assert_eq!(action(import_ipsw("/x/mac.ipsw", &head, &strings(&["mac"]))), "use mac");
    }
    let head = b"PK\x03\x04\x14".to_vec();
    assert_eq!(action(import_ipsw("/x/mac.ipsw", &head, &strings(&[]))), "import mac");
}
