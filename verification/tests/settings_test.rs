use vm_box::settings::{
    filter_mcp_servers, find_settings_file, forwarded, prepare_claude_config, SettingsFile,
};

fn file(raw: &str) -> Option<SettingsFile> {
    Some(SettingsFile { path: "/h/settings.json".to_string(), raw: raw.to_string() })
}

fn value(raw: &str) -> serde_json::Value {
    serde_json::from_str(raw).unwrap()
}

#[test]
fn the_settings_directory_comes_before_the_state_file() {
    let find = |a, b| find_settings_file("/h", "agent", a, b);
    assert_eq!(find(true, true).unwrap(), "/h/.agent/settings.json");
    assert_eq!(find(true, false).unwrap(), "/h/.agent/settings.json");
    assert_eq!(find(false, true).unwrap(), "/h/.agent.json");
    assert_eq!(find(false, false), None);
}

#[test]
fn the_key_helper_is_taken_out_of_the_settings() {
    let host = r#"{"apiKeyHelper": "get-key", "theme": "dark", "n": 1.5}"#;
    let staged = prepare_claude_config(&vec![], &file(host), &None, "/p").unwrap();
    assert_eq!(staged.api_key_helper.as_deref(), Some("get-key"));
    let settings = value(&staged.settings.unwrap());
    assert_eq!(
        settings,
        value(r#"{"theme": "dark", "n": 1.5, "skipDangerousModePermissionPrompt": true}"#)
    );
}

#[test]
fn a_key_helper_that_is_no_text_is_dropped() {
    let staged =
        prepare_claude_config(&vec![], &file(r#"{"apiKeyHelper": 7}"#), &None, "/p").unwrap();
    assert_eq!(staged.api_key_helper, None);
    assert_eq!(
        value(&staged.settings.unwrap()),
        value(r#"{"skipDangerousModePermissionPrompt": true}"#)
    );
}

#[test]
fn settings_that_are_no_object_stay_as_they_are() {
    let staged = prepare_claude_config(
        &vec!["x".to_string()],
        &file(r#"[1, "mcpServers"]"#),
        &None,
        "/p",
    )
    .unwrap();
    assert_eq!(staged.api_key_helper, None);
    assert_eq!(value(&staged.settings.unwrap()), value(r#"[1, "mcpServers"]"#));
}

#[test]
fn servers_are_filtered_only_with_an_allowlist() {
    let host = r#"{"mcpServers": {"a": {"command": "x"}, "b": {}}}"#;
    let all = prepare_claude_config(&vec![], &file(host), &None, "/p").unwrap();
    let v = value(&all.settings.unwrap());
    assert_eq!(v["mcpServers"], value(r#"{"a": {"command": "x"}, "b": {}}"#));
    let some =
        prepare_claude_config(&vec!["a".to_string(), "z".to_string()], &file(host), &None, "/p")
            .unwrap();
    let v = value(&some.settings.unwrap());
    assert_eq!(v["mcpServers"], value(r#"{"a": {"command": "x"}}"#));
}

#[test]
fn servers_that_are_no_object_stay_as_they_are() {
    let v = filter_mcp_servers(value(r#"{"mcpServers": [1]}"#), &vec!["a".to_string()]);
    assert_eq!(v, value(r#"{"mcpServers": [1]}"#));
    let v = filter_mcp_servers(value(r#"{"other": 1}"#), &vec!["a".to_string()]);
    assert_eq!(v, value(r#"{"other": 1}"#));
}

#[test]
fn only_safe_members_of_the_state_are_forwarded() {
    let state = r#"{
        "hasCompletedOnboarding": true,
        "lastOnboardingVersion": "1.2",
        "showSpinnerTree": false,
        "customApiKeyResponses": {"approved": ["abc"]},
        "hasShownTip": 3,
        "hasCompletedTour": true,
        "oauthAccount": {"email": "x"},
        "userID": "secret",
        "projects": {"/other": {}},
        "installMethod": "native"
    }"#;
    let staged =
        prepare_claude_config(&vec![], &None, &Some(state.to_string()), "/my/project").unwrap();
    assert!(staged.settings.is_none());
    assert_eq!(
        value(&staged.state),
        value(
            r#"{
            "hasCompletedOnboarding": true,
            "lastOnboardingVersion": "1.2",
            "showSpinnerTree": false,
            "customApiKeyResponses": {"approved": ["abc"]},
            "hasShownTip": 3,
            "hasCompletedTour": true,
            "projects": {"/my/project": {"hasTrustDialogAccepted": true, "allowedTools": []}},
            "installMethod": "system"
        }"#
        )
    );
}

#[test]
fn a_state_that_cannot_be_read_is_no_error() {
    for state in [None, Some("not json".to_string()), Some("[1]".to_string())] {
        let staged = prepare_claude_config(&vec![], &None, &state, "/p").unwrap();
        assert_eq!(
            value(&staged.state),
            value(
                r#"{
                "projects": {"/p": {"hasTrustDialogAccepted": true, "allowedTools": []}},
                "installMethod": "system"
            }"#
            )
        );
    }
}

#[test]
fn the_staged_text_is_indented() {
    let staged = prepare_claude_config(&vec![], &file("{}"), &None, "/p").unwrap();
    assert_eq!(
        staged.settings.unwrap(),
        "{\n  \"skipDangerousModePermissionPrompt\": true\n}"
    );
}

#[test]
fn settings_that_cannot_be_parsed_are_an_error() {
    let e = prepare_claude_config(&vec![], &file("{,}"), &None, "/p").err().unwrap();
    assert_eq!(e.message(), "parsing /h/settings.json");
}

#[test]
fn forwarded_keys_are_exact_or_have_a_prefix() {
    for k in ["hasCompletedOnboarding", "hasShown", "hasShownX", "hasCompletedY", "showSpinnerTree"] {
        assert!(forwarded(k), "{}", k);
    }
    for k in ["", "hasSho", "HasShownX", "showSpinnerTreeX", "projects", "customApiKeyResponses2"] {
        assert!(!forwarded(k), "{}", k);
    }
}

#[test]
fn filtering_keeps_every_kind_of_value() {
    for raw in [
        "null", "true", "-3", "1.25", "18446744073709551615", r#""te\"xt""#, "[]", r#"[1,[2,{}]]"#,
        r#"{"a":{"b":null},"c":[false]}"#,
    ] {
        assert_eq!(filter_mcp_servers(value(raw), &vec![]), value(raw));
    }
    let v = filter_mcp_servers(value(r#"{"mcpServers": {"a": 1, "b": 2}, "c": 0}"#), &vec![]);
    assert_eq!(v, value(r#"{"mcpServers": {}, "c": 0}"#));
}
