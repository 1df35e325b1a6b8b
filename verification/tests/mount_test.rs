use vm_box::mount::{build_shares, claude_candidates, find_claude_binary, DirShare};
use vm_box::tools::BinaryDirShare;

fn binaries(dir: &str, tag: &str) -> BinaryDirShare {
    BinaryDirShare {
        host_dir: dir.as_bytes().to_vec(),
        tag: tag.to_string(),
        names: vec!["x".to_string()],
        canonical_filenames: vec!["x".to_string()],
    }
}

fn plain(s: &DirShare) -> (&str, &str, &str, bool) {
    (s.host_path.as_str(), s.tag.as_str(), s.guest_mount.as_str(), s.read_only)
}

#[test]
fn shares_are_rendered_for_tart() {
    let mut s = DirShare {
        host_path: "/a b".to_string(),
        tag: "t".to_string(),
        guest_mount: "/g".to_string(),
        read_only: false,
    };
    assert_eq!(s.tart_flag(), "/a b:tag=t");
    s.read_only = true;
    assert_eq!(s.tart_flag(), "/a b:ro,tag=t");
}

#[test]
fn all_shares_of_a_run() {
    let bins = vec![binaries("/bin", "t0"), binaries("/usr/bin", "t1")];
    let shares = build_shares("agent", "/proj", &bins, &Some("/tmp/c".to_string()), "/opt/a");
    let got: Vec<_> = shares.iter().map(plain).collect();
    assert_eq!(
        got,
        vec![
            ("/proj", "project", "/proj", false),
            ("/bin", "t0", "/opt/agent-box/src-0", true),
            ("/usr/bin", "t1", "/opt/agent-box/src-1", true),
            ("/tmp/c", "agent-box-config", "/opt/agent-box/config", false),
            ("/opt/a", "agent-box-agent", "/opt/agent-box/agent", true),
        ]
    );
}

#[test]
fn a_run_without_configuration_or_binaries_has_two_shares() {
    let shares = build_shares("agent", "/proj", &vec![], &None, "/opt/a");
    assert_eq!(shares.len(), 2);
    assert_eq!(shares[0].tag, "project");
    assert_eq!(shares[1].tag, "agent-box-agent");
}

#[test]
fn candidates_follow_the_path_variable() {
    assert_eq!(
        claude_candidates("agent", "/a:/b/:"),
        vec!["/a/agent", "/b/agent", "agent"]
    );
    assert_eq!(claude_candidates("agent", ""), vec!["agent"]);
}

fn at(path: &str) -> Option<String> {
    Some(path.to_string())
}

#[test]
fn the_first_candidate_that_is_not_the_tool_is_found() {
    let found = find_claude_binary("agent", &vec![None, at("/b/agent"), at("/c/agent")], "/x");
    assert_eq!(found.unwrap(), "/b/agent");
    let e = find_claude_binary("agent", &vec![None, None], "/x").unwrap_err();
    assert_eq!(e, "could not find 'agent' binary on PATH — install Agent Code alongside agent-box");
    assert!(find_claude_binary("agent", &vec![], "/x").is_err());
    assert!(find_claude_binary("agent", &vec![at("/x")], "/x").is_err());
}

#[test]
fn a_link_to_the_tool_is_not_the_agent() {
    // The first entry of the path resolves to the running executable.
    let resolved = vec![at("/x/agent-box"), at("/b/agent")];
    assert_eq!(find_claude_binary("agent", &resolved, "/x/agent-box").unwrap(), "/b/agent");
    assert_eq!(find_claude_binary("agent", &resolved, "/x//./agent-box").unwrap(), "/b/agent");
}
