use vm_box::agent::{
    drain_tart_stderr, exec_claude, generate_name, helper_key, key_source, keychain_args,
    keychain_key, resolve_api_key, send_settings, send_state, start_vm_with_shares, vm_name,
    HelperOutcome, KeySource, KeychainAnswer,
};
use vm_box::mount::DirShare;

fn exited(success: bool, stdout: &[u8], stderr: &[u8]) -> HelperOutcome {
    HelperOutcome::Exited { success, stdout: stdout.to_vec(), stderr: stderr.to_vec() }
}

#[test]
fn generated_names_are_new_and_well_formed() {
    let a = generate_name("agent");
    let b = generate_name("agent");
    assert_ne!(a, b);
    let id = a.strip_prefix("agent-box-").unwrap();
    assert_eq!(id.len(), 36);
    for (i, c) in id.chars().enumerate() {
        if [8, 13, 18, 23].contains(&i) {
            assert_eq!(c, '-');
        } else {
            assert!(c.is_ascii_hexdigit() && !c.is_ascii_uppercase());
        }
    }
    assert_eq!(id.as_bytes()[14], b'4');
    assert!(!a.starts_with("agent-box-warm-"));
}

#[test]
fn a_given_name_is_kept() {
    assert_eq!(vm_name("agent", &Some("mine".to_string())), "mine");
    assert!(vm_name("agent", &None).starts_with("agent-box-"));
}

#[test]
fn the_vm_is_started_with_its_shares() {
    let share = |path: &str, tag: &str, ro| DirShare {
        host_path: path.to_string(),
        tag: tag.to_string(),
        guest_mount: "/g".to_string(),
        read_only: ro,
    };
    let args = start_vm_with_shares("vm", &vec![share("/p", "project", false), share("/b", "bin", true)]);
    assert_eq!(
        args,
        vec!["run", "--no-graphics", "--dir=/p:tag=project", "--dir=/b:ro,tag=bin", "vm"]
    );
    assert_eq!(start_vm_with_shares("vm", &vec![]), vec!["run", "--no-graphics", "vm"]);
}

#[test]
fn error_output_is_shown_trimmed_and_cut() {
    assert_eq!(drain_tart_stderr(vec![]), None);
    assert_eq!(drain_tart_stderr(b" \n ".to_vec()), None);
    assert_eq!(
        drain_tart_stderr(b" boom\n".to_vec()).unwrap(),
        "tart run stderr:\nboom"
    );
    let long = drain_tart_stderr(vec![b'x'; 5000]).unwrap();
    assert_eq!(long.len(), "tart run stderr:\n".len() + 4096);
    assert_eq!(drain_tart_stderr(vec![0xff]).unwrap(), "tart run stderr:\n\u{fffd}");
}

#[test]
fn the_sources_of_a_key_have_an_order() {
    assert_eq!(key_source(true, true), KeySource::Helper);
    assert_eq!(key_source(true, false), KeySource::Helper);
    assert_eq!(key_source(false, true), KeySource::Environment);
    assert_eq!(key_source(false, false), KeySource::Keychain);
}

#[test]
fn the_helper_prints_the_key() {
    assert_eq!(helper_key(exited(true, b" key \n", b"")).unwrap(), "key");
    assert_eq!(helper_key(HelperOutcome::NotRun).unwrap_err(), "failed to run apiKeyHelper");
    assert_eq!(
        helper_key(exited(false, b"key", b" bad \n")).unwrap_err(),
        "apiKeyHelper exited non-zero: bad"
    );
    assert_eq!(
        helper_key(exited(true, b"\xff", b"")).unwrap_err(),
        "apiKeyHelper output not UTF-8"
    );
    assert_eq!(
        helper_key(exited(true, b" \n", b"")).unwrap_err(),
        "apiKeyHelper returned empty output"
    );
}

#[test]
fn the_keychain_holds_a_key_or_not() {
    assert_eq!(keychain_key(true, b"sk-abc\n".to_vec()).unwrap(), "sk-abc");
    assert_eq!(keychain_key(false, b"sk-abc\n".to_vec()), None);
    assert_eq!(keychain_key(true, b"abc".to_vec()), None);
    assert_eq!(keychain_key(true, b"".to_vec()), None);
    assert_eq!(keychain_key(true, b"sk-\xff".to_vec()), None);
}

#[test]
fn the_key_is_resolved_in_order() {
    let env = Some("env-key".to_string());
    let answer = |s: &[u8]| Some(KeychainAnswer { success: true, stdout: s.to_vec() });
    let helper = Some(exited(true, b"helper-key", b""));
    assert_eq!(
        resolve_api_key(helper, env.clone(), answer(b"sk-chain")).unwrap().unwrap(),
        "helper-key"
    );
    assert!(resolve_api_key(Some(HelperOutcome::NotRun), env.clone(), None).is_err());
    assert_eq!(resolve_api_key(None, env, answer(b"sk-chain")).unwrap().unwrap(), "env-key");
    assert_eq!(resolve_api_key(None, None, answer(b"sk-chain")).unwrap().unwrap(), "sk-chain");
    assert_eq!(resolve_api_key(None, None, answer(b"other")).unwrap(), None);
    assert_eq!(resolve_api_key(None, None, None).unwrap(), None);
}

#[test]
fn the_keychain_is_asked_for_the_capitalised_agent() {
    assert_eq!(
        keychain_args("agent", "me"),
        vec!["find-generic-password", "-s", "Agent Code", "-a", "me", "-w"]
    );
    assert_eq!(keychain_args("9x", "me")[2], "9x Code");
    assert_eq!(keychain_args("", "me")[2], " Code");
}

#[test]
fn the_command_line_quotes_what_it_is_given() {
    let args = vec!["-p".to_string(), "it's $5".to_string()];
    assert_eq!(
        exec_claude("agent", &Some("k'ey".to_string()), true, "/my project", &args),
        "export ANTHROPIC_API_KEY='k'\\''ey' && \
         export PATH=$HOME/.local/bin:/opt/agent-box/bin:$PATH && \
         cd '/my project' && \
         /opt/agent-box/agent/agent --dangerously-skip-permissions '-p' 'it'\\''s $5'"
    );
    assert_eq!(
        exec_claude("agent", &None, false, "/p", &vec![]),
        "export PATH=$HOME/.local/bin:$PATH && cd '/p' && \
         /opt/agent-box/agent/agent --dangerously-skip-permissions"
    );
}

#[test]
fn files_are_sent_to_a_warm_clone() {
    assert_eq!(
        send_settings("agent", "{\"a\": \"it's\"}"),
        "mkdir -p ~/.agent && printf '%s' '{\"a\": \"it'\\''s\"}' > ~/.agent/settings.json"
    );
    assert_eq!(send_state("agent", "{}"), "printf '%s' '{}' > ~/.agent.json");
}
