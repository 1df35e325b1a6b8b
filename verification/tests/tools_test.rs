use vm_box::settings::{prepare_mcp_config_with_home, ConfigError, SettingsFile};
use vm_box::tools::{
    group_binaries, guest_bin_path, home_dir, place_binary, place_of, prepare, resolve_binaries,
    shares_of, warn_of_shares, BinaryError, LookUp, Place, ResolvedBinary, ToolError,
};

fn object(pairs: Vec<(&str, serde_json::Value)>) -> serde_json::Value {
    let mut m = serde_json::Map::new();
    for (k, v) in pairs {
        m.insert(k.to_string(), v);
    }
    serde_json::Value::Object(m)
}

fn text(s: &str) -> serde_json::Value {
    serde_json::Value::String(s.to_string())
}

fn file(settings: &serde_json::Value) -> Option<SettingsFile> {
    Some(SettingsFile {
        path: "/home/x/settings.json".to_string(),
        raw: serde_json::to_string_pretty(settings).unwrap(),
    })
}

fn text_of(path: &[u8]) -> String {
    String::from_utf8(path.to_vec()).unwrap()
}

fn look_up(name: &str, place: Place) -> LookUp {
    LookUp { name: name.to_string(), place }
}

fn binary(name: &str, dir: &str, file: &str) -> ResolvedBinary {
    ResolvedBinary { name: name.to_string(), dir: dir.as_bytes().to_vec(), file: file.to_string() }
}

#[test]
fn test_prepare_mcp_config_empty_allowlist_keeps_all_servers() {
    let settings = object(vec![(
        "mcpServers",
        object(vec![
            ("server-a", object(vec![])),
            ("server-b", object(vec![])),
            ("server-c", object(vec![])),
        ]),
    )]);

    let result = prepare_mcp_config_with_home(&vec![], file(&settings)).unwrap();
    let (path, value) = result.expect("should return Some");
    assert_eq!(path, "/home/x/settings.json");

    let servers = value["mcpServers"].as_object().expect("mcpServers object");
    assert_eq!(servers.len(), 3, "all 3 servers should be present");
    assert!(servers.contains_key("server-a"));
    assert!(servers.contains_key("server-b"));
    assert!(servers.contains_key("server-c"));
}

#[test]
fn test_prepare_mcp_config_allowlist_filters_servers() {
    let settings = object(vec![(
        "mcpServers",
        object(vec![
            ("keep-me", object(vec![("command", text("foo"))])),
            ("remove-a", object(vec![("command", text("bar"))])),
            ("remove-b", object(vec![("command", text("baz"))])),
        ]),
    )]);

    let allow = vec!["keep-me".to_string()];
    let result = prepare_mcp_config_with_home(&allow, file(&settings)).unwrap();
    let (_path, value) = result.expect("should return Some");

    let servers = value["mcpServers"].as_object().expect("mcpServers object");
    assert_eq!(servers.len(), 1, "only the allowed server should remain");
    assert!(servers.contains_key("keep-me"));
    assert!(!servers.contains_key("remove-a"));
    assert!(!servers.contains_key("remove-b"));
    assert_eq!(servers["keep-me"]["command"], text("foo"));
}

#[test]
fn test_prepare_mcp_config_no_settings_returns_none() {
    let result = prepare_mcp_config_with_home(&vec![], None).unwrap();
    assert!(result.is_none(), "should return None when no settings file exists");
}

#[test]
fn settings_that_are_no_json_are_an_error() {
    let settings = Some(SettingsFile { path: "/s.json".to_string(), raw: "{".to_string() });
    let e = prepare_mcp_config_with_home(&vec![], settings).unwrap_err();
    assert!(matches!(e, ConfigError::Parse(_)));
    assert_eq!(e.message(), "parsing /s.json");
}

#[test]
fn test_resolve_binaries_sh_succeeds() {
    let shares = resolve_binaries("agent", &vec!["sh".to_string()]).unwrap();
    assert_eq!(shares.len(), 1, "sh should produce one dir share");
    let share = &shares[0];
    assert!(
        std::path::Path::new(&text_of(&share.host_dir)).exists(),
        "host_dir should exist: {}",
        text_of(&share.host_dir)
    );
    assert!(
        share.names.contains(&"sh".to_string()),
        "share should list 'sh' as an allowed name"
    );
    assert_eq!(share.tag, "agent-box-bin-0");
    let found = std::path::Path::new(&text_of(&share.host_dir)).join(&share.canonical_filenames[0]);
    assert!(found.exists());
}

#[test]
fn test_resolve_binaries_missing_binary_returns_error() {
    let result = resolve_binaries("agent", &vec!["nonexistent_binary_xyz_abc".to_string()]);
    assert!(result.is_err(), "missing binary should produce an error");
    let err = result.unwrap_err();
    assert!(
        err.message().contains("not found on host PATH"),
        "error message should mention 'not found on host PATH', got: {}",
        err.message()
    );
    assert_eq!(err.message(), "binary 'nonexistent_binary_xyz_abc' not found on host PATH");
}

#[test]
fn test_resolve_binaries_empty_list_is_empty() {
    let shares = resolve_binaries("agent", &vec![]).unwrap();
    assert!(shares.is_empty(), "empty allow list should return empty vec");
}

#[test]
fn test_resolve_binaries_same_dir_grouped() {
    let shares =
        resolve_binaries("agent", &vec!["sh".to_string(), "ls".to_string()]).unwrap();
    let total_names: usize = shares.iter().map(|s| s.names.len()).sum();
    assert_eq!(total_names, 2, "both binaries should be tracked");
    let tags: std::collections::HashSet<&str> = shares.iter().map(|s| s.tag.as_str()).collect();
    assert_eq!(tags.len(), shares.len(), "all tags must be unique");
}

#[test]
fn binaries_are_grouped_by_directory_in_order() {
    let rs = vec![
        binary("b", "/usr/bin", "b"),
        binary("a", "/bin", "a_real"),
        binary("c", "/usr/bin", "c"),
        binary("b", "/usr/bin", "other"),
        binary("a", "/bin", "a_real"),
    ];
    let shares = group_binaries("agent", &rs);
    assert_eq!(shares.len(), 2);
    assert_eq!(shares[0].host_dir, b"/usr/bin");
    assert_eq!(shares[0].tag, "agent-box-bin-0");
    assert_eq!(shares[0].names, vec!["b", "c"]);
    assert_eq!(shares[0].canonical_filenames, vec!["b", "c"]);
    assert_eq!(shares[1].host_dir, b"/bin");
    assert_eq!(shares[1].tag, "agent-box-bin-1");
    assert_eq!(shares[1].names, vec!["a"]);
    assert_eq!(shares[1].canonical_filenames, vec!["a_real"]);
}

#[test]
fn directories_are_told_apart_by_their_bytes() {
    let mut a = binary("a", "/x", "a");
    a.dir = b"/\xfe".to_vec();
    let mut b = binary("b", "/x", "b");
    b.dir = b"/\xff".to_vec();
    let shares = group_binaries("agent", &vec![a, b]);
    assert_eq!(shares.len(), 2);
    assert_eq!(shares[0].host_dir, b"/\xfe");
    assert_eq!(shares[1].host_dir, b"/\xff");
    assert_eq!((shares[0].tag.as_str(), shares[1].tag.as_str()), ("agent-box-bin-0", "agent-box-bin-1"));
}

#[test]
fn a_binary_is_placed_by_its_canonical_path() {
    let name = "tool".to_string();
    let b = place_binary(&name, &b"/opt/x/tool_darwin".to_vec()).unwrap();
    assert_eq!((b.name.as_str(), b.file.as_str()), ("tool", "tool_darwin"));
    assert_eq!(b.dir, b"/opt/x");
    let b = place_binary(&name, &b"/opt/\xff/\xfe".to_vec()).unwrap();
    assert_eq!(b.dir, b"/opt/\xff");
    assert_eq!(b.file, "tool");
    let e = place_binary(&name, &b"/".to_vec()).err().unwrap();
    assert!(matches!(e, BinaryError::NoParent(_)));
    assert_eq!(e.message(), "binary 'tool' has no parent directory");
    assert_eq!(
        BinaryError::NotCanonical(name).message(),
        "canonicalizing path for 'tool'"
    );
}

#[test]
fn the_tool_environment_has_both_parts() {
    let env = prepare("agent", &vec![], &vec!["sh".to_string()], &None, &None, "/p").unwrap();
    assert_eq!(env.binary_shares.len(), 1);
    assert!(env.config.settings.is_none());
    assert!(env.config.api_key_helper.is_none());
    let bad = Some(SettingsFile { path: "/s".to_string(), raw: "nope".to_string() });
    let e = prepare("agent", &vec![], &vec![], &bad, &None, "/p").err().unwrap();
    assert!(matches!(e, ToolError::Config(ConfigError::Parse(_))));
    let missing = vec!["nonexistent_binary_xyz_abc".to_string()];
    let e = prepare("agent", &vec![], &missing, &None, &None, "/p").err().unwrap();
    assert!(matches!(e, ToolError::Binary(BinaryError::NotFound(_))));
}

#[test]
fn guest_and_home_paths() {
    assert_eq!(guest_bin_path("agent"), "/opt/agent-box/bin");
    assert_eq!(home_dir(None), "/");
    assert_eq!(home_dir(Some("/Users/x".to_string())), "/Users/x");
}

#[test]
fn what_was_found_is_shared() {
    let found = vec![
        look_up("tool", Place::At(b"/opt/x/tool_darwin".to_vec())),
        look_up("sh", Place::At(b"/bin/sh".to_vec())),
        look_up("other", Place::At(b"/opt/x/other".to_vec())),
    ];
    let shares = shares_of("agent", &found).unwrap();
    assert_eq!(shares.len(), 2);
    assert_eq!(shares[0].host_dir, b"/opt/x");
    assert_eq!(shares[0].names, vec!["tool", "other"]);
    assert_eq!(shares[0].canonical_filenames, vec!["tool_darwin", "other"]);
    assert_eq!(shares[1].host_dir, b"/bin");
    assert_eq!(shares[1].names, vec!["sh"]);
    assert!(shares_of("agent", &vec![]).unwrap().is_empty());
}

#[test]
fn the_first_failing_look_up_is_the_error() {
    let ok = || look_up("sh", Place::At(b"/bin/sh".to_vec()));
    let error = |found: Vec<LookUp>| shares_of("agent", &found).err().unwrap().message();
    assert_eq!(
        error(vec![ok(), look_up("a", Place::Missing), look_up("b", Place::NotCanonical)]),
        "binary 'a' not found on host PATH"
    );
    assert_eq!(
        error(vec![look_up("b", Place::NotCanonical), look_up("a", Place::Missing), ok()]),
        "canonicalizing path for 'b'"
    );
    assert_eq!(
        error(vec![ok(), look_up("c", Place::At(b"/".to_vec()))]),
        "binary 'c' has no parent directory"
    );
}

#[test]
fn the_errors_of_the_tools_have_words() {
    let e = ToolError::Binary(BinaryError::NotFound("x".to_string()));
    assert_eq!(e.message(), "binary 'x' not found on host PATH");
    let e = ToolError::Config(ConfigError::Parse("/s".to_string()));
    assert_eq!(e.message(), "parsing /s");
}

#[test]
fn a_place_follows_from_the_two_answers_of_the_host() {
    let path = || Some(b"/bin/sh".to_vec());
    assert!(matches!(place_of(false, None), Place::Missing));
    assert!(matches!(place_of(false, path()), Place::Missing));
    assert!(matches!(place_of(true, None), Place::NotCanonical));
    assert!(matches!(place_of(true, path()), Place::At(p) if p == b"/bin/sh"));
}

#[test]
fn many_shares_are_warned_of() {
    assert_eq!(warn_of_shares(0), None);
    assert_eq!(warn_of_shares(12), None);
    assert_eq!(
        warn_of_shares(13),
        Some(
            "13 unique binary directories requested; VirtioFS share count is high \
             (tart practical limit ~16)"
                .to_string()
        )
    );
}
