//! The agent's configuration: what of the host's files reaches the guest.
use vstd::prelude::*;

use crate::json::{close, json_of, members, open, parse, parsed_json, print, printed_json, Json, JsonView};
use crate::names::{settings, settings_dir, state, state_file};
use crate::paths::{join_path, path_join};
use crate::table::{
    as_map, keys, lemma_filter, lemma_filter_step, put, retain_listed, take, unique,
};
use crate::text::{cat, same, starts_with, texts};

verus! {

// ---------------------------------------------------------------------------
// Where the settings are
// ---------------------------------------------------------------------------

/// The first place where settings are looked for.
pub open spec fn settings_path(home: Seq<char>, agent: Seq<char>) -> Seq<char> {
    path_join(path_join(home, settings_dir(agent)), "settings.json"@)
}

/// The second place where settings are looked for, and the place of the state.
pub open spec fn state_path(home: Seq<char>, agent: Seq<char>) -> Seq<char> {
    path_join(home, state_file(agent))
}

/// The first place where settings are looked for.
pub fn settings_file(home: &str, agent: &str) -> (r: String)
    ensures
        r@ == settings_path(home@, agent@),
{
    join_path(join_path(home, settings(agent).as_str()).as_str(), "settings.json")
}

/// The second place where settings are looked for, and the place of the state.
pub fn state_file_path(home: &str, agent: &str) -> (r: String)
    ensures
        r@ == state_path(home@, agent@),
{
    join_path(home, state(agent).as_str())
}

/// Find the agent's settings file under `home`, given which of the two places
/// exist: the settings directory comes first, then the state file.
pub fn find_settings_file(home: &str, agent: &str, in_dir: bool, in_home: bool) -> (r: Option<
    String,
>)
    ensures
        match r {
            Some(path) => path@ == if in_dir {
                settings_path(home@, agent@)
            } else {
                state_path(home@, agent@)
            },
            None => true,
        },
        r is Some == (in_dir || in_home),
{
    if in_dir {
        Some(settings_file(home, agent))
    } else if in_home {
        Some(state_file_path(home, agent))
    } else {
        None
    }
}

// ---------------------------------------------------------------------------
// Settings
// ---------------------------------------------------------------------------

/// Settings with only the allowed MCP servers.
pub open spec fn allowed_only(settings: JsonView, allow: Seq<Seq<char>>) -> JsonView {
    match settings {
        JsonView::Object(m) => if m.contains_key("mcpServers"@) {
            match m["mcpServers"@] {
                JsonView::Object(servers) => JsonView::Object(
                    m.insert(
                        "mcpServers"@,
                        JsonView::Object(
                            servers.restrict(Set::new(|k: Seq<char>| allow.contains(k))),
                        ),
                    ),
                ),
                _ => settings,
            }
        } else {
            settings
        },
        _ => settings,
    }
}

/// Drop the MCP servers that are not allowed.
pub fn filter_mcp_servers(settings: serde_json::Value, allow: &Vec<String>) -> (r:
    serde_json::Value)
    ensures
        json_of(r) == allowed_only(json_of(settings), texts(allow@)),
{
    let ghost before = json_of(settings);
    match open(settings) {
        Json::Object(fields) => {
            let mut fields = fields;
            let ghost m = members(fields@);
            match take(&mut fields, "mcpServers") {
                None => {
                    assert(members(fields@) =~= m);
                    close(Json::Object(fields))
                },
                Some(value) => {
                    assert(json_of(value) == m["mcpServers"@]);
                    let value = match open(value) {
                        Json::Object(servers) => {
                            let ghost all = members(servers@);
                            let kept = retain_listed(servers, allow);
                            assert(members(kept@) =~= all.restrict(
                                Set::new(|k: Seq<char>| texts(allow@).contains(k)),
                            ));
                            close(Json::Object(kept))
                        },
                        other => close(other),
                    };
                    put(&mut fields, "mcpServers".to_owned(), value);
                    assert(members(fields@) =~= m.insert("mcpServers"@, json_of(value)));
                    assert(m.insert("mcpServers"@, m["mcpServers"@]) =~= m);
                    close(Json::Object(fields))
                },
            }
        },
        other => close(other),
    }
}

/// The command that prints an API key, if the settings name one.
pub open spec fn key_helper(settings: JsonView) -> Option<Seq<char>> {
    match settings {
        JsonView::Object(m) => if m.contains_key("apiKeyHelper"@) {
            match m["apiKeyHelper"@] {
                JsonView::Text(s) => Some(s),
                _ => None,
            }
        } else {
            None
        },
        _ => None,
    }
}

/// The settings for the guest: without the key helper, with the prompt about
/// skipped permissions switched off, and with the allowed MCP servers only, unless
/// the list of allowed ones is empty.
pub open spec fn guest_settings(settings: JsonView, allow: Seq<Seq<char>>) -> JsonView {
    let prepared = match settings {
        JsonView::Object(m) => JsonView::Object(
            m.remove("apiKeyHelper"@).insert(
                "skipDangerousModePermissionPrompt"@,
                JsonView::Bool(true),
            ),
        ),
        _ => settings,
    };
    if allow.len() == 0 {
        prepared
    } else {
        allowed_only(prepared, allow)
    }
}

/// Take the key helper out of the host's settings and prepare the rest for the
/// guest.
pub fn prepare_settings(host: serde_json::Value, allow: &Vec<String>) -> (r: (
    Option<String>,
    serde_json::Value,
))
    ensures
        r.0 is Some == key_helper(json_of(host)) is Some,
        r.0 matches Some(s) ==> s@ == key_helper(json_of(host))->0,
        json_of(r.1) == guest_settings(json_of(host), texts(allow@)),
{
    assert(texts(allow@).len() == allow.len());
    let mut helper: Option<String> = None;
    let prepared = match open(host) {
        Json::Object(fields) => {
            let mut fields = fields;
            let ghost m = members(fields@);
            if let Some(value) = take(&mut fields, "apiKeyHelper") {
                assert(json_of(value) == m["apiKeyHelper"@]);
                if let Json::Text(s) = open(value) {
                    helper = Some(s);
                }
            }
            assert(members(fields@) =~= m.remove("apiKeyHelper"@));
            put(
                &mut fields,
                "skipDangerousModePermissionPrompt".to_owned(),
                close(Json::Bool(true)),
            );
            assert(members(fields@) =~= m.remove("apiKeyHelper"@).insert(
                "skipDangerousModePermissionPrompt"@,
                JsonView::Bool(true),
            ));
            close(Json::Object(fields))
        },
        other => close(other),
    };
    if allow.len() == 0 {
        (helper, prepared)
    } else {
        (helper, filter_mcp_servers(prepared, allow))
    }
}

// ---------------------------------------------------------------------------
// State
// ---------------------------------------------------------------------------

/// The members of the agent's state that are safe to forward into the guest: its
/// onboarding and display preferences, and the fingerprints of approved API keys.
pub open spec fn is_forwarded(key: Seq<char>) -> bool {
    ||| key == "hasCompletedOnboarding"@
    ||| key == "lastOnboardingVersion"@
    ||| key == "showSpinnerTree"@
    ||| key == "customApiKeyResponses"@
    ||| "hasShown"@.is_prefix_of(key)
    ||| "hasCompleted"@.is_prefix_of(key)
}

/// Whether a member of the agent's state is safe to forward into the guest.
pub fn forwarded(key: &str) -> (r: bool)
    ensures
        r == is_forwarded(key@),
{
    same(key, "hasCompletedOnboarding") || same(key, "lastOnboardingVersion") || same(
        key,
        "showSpinnerTree",
    ) || same(key, "customApiKeyResponses") || starts_with(key, "hasShown") || starts_with(
        key,
        "hasCompleted",
    )
}

/// What is forwarded of the host's state.
pub open spec fn forwarded_members(host: Option<JsonView>) -> Map<Seq<char>, JsonView> {
    match host {
        Some(JsonView::Object(m)) => m.restrict(Set::new(|k: Seq<char>| is_forwarded(k))),
        _ => Map::empty(),
    }
}

/// What the state says of a project that the user trusts.
pub open spec fn trusted_project() -> JsonView {
    JsonView::Object(
        Map::<Seq<char>, JsonView>::empty().insert(
            "hasTrustDialogAccepted"@,
            JsonView::Bool(true),
        ).insert("allowedTools"@, JsonView::Array(seq![])),
    )
}

/// The state for the guest: what is forwarded of the host's, with the project
/// approved and the installation method set.
pub open spec fn guest_state(host: Option<JsonView>, project: Seq<char>) -> JsonView {
    JsonView::Object(
        forwarded_members(host).insert(
            "projects"@,
            JsonView::Object(Map::<Seq<char>, JsonView>::empty().insert(project, trusted_project())),
        ).insert("installMethod"@, JsonView::Text("system"@)),
    )
}

fn retain_forwarded(v: Vec<(String, serde_json::Value)>) -> (r: Vec<(String, serde_json::Value)>)
    requires
        unique(v@),
    ensures
        unique(r@),
        as_map(r@) == as_map(v@).restrict(Set::new(|k: Seq<char>| is_forwarded(k))),
{
    let ghost all = v@;
    let ghost keep = |k: Seq<char>| is_forwarded(k);
    let ghost f = |p: (String, serde_json::Value)| keep(p.0@);
    let mut rest = v;
    let mut r: Vec<(String, serde_json::Value)> = Vec::new();
    let ghost mut n: int = 0;
    assert(all.take(0).filter(f) == Seq::<(String, serde_json::Value)>::empty()) by {
        reveal(Seq::filter);
    }
    while rest.len() > 0
        invariant
            0 <= n <= all.len(),
            rest@ == all.skip(n),
            keep == (|k: Seq<char>| is_forwarded(k)),
            f == (|p: (String, serde_json::Value)| keep(p.0@)),
            r@ == all.take(n).filter(f),
        decreases rest.len(),
    {
        let p = rest.remove(0);
        proof {
            assert(p == all[n]);
            lemma_filter_step(all, n, f);
            n = n + 1;
        }
        if forwarded(p.0.as_str()) {
            r.push(p);
        }
    }
    proof {
        assert(all.take(n) == all);
        lemma_filter(all, keep);
    }
    r
}

/// What a document holds that may be missing.
pub open spec fn held(v: Option<serde_json::Value>) -> Option<JsonView> {
    match v {
        Some(v) => Some(json_of(v)),
        None => None,
    }
}

/// Prepare the agent's state for the guest.
pub fn prepare_state(host: Option<serde_json::Value>, project_dir: &str) -> (r: serde_json::Value)
    ensures
        json_of(r) == guest_state(held(host), project_dir@),
{
    let ghost view = held(host);
    let mut fields: Vec<(String, serde_json::Value)> = Vec::new();
    assert(keys(fields@) =~= seq![]);
    assert(members(fields@) =~= Map::empty());
    if let Some(v) = host {
        if let Json::Object(all) = open(v) {
            let ghost m = members(all@);
            fields = retain_forwarded(all);
            assert(members(fields@) =~= m.restrict(Set::new(|k: Seq<char>| is_forwarded(k))));
        }
    }
    assert(members(fields@) =~= forwarded_members(view));
    let ghost m = members(fields@);
    let mut entry: Vec<(String, serde_json::Value)> = Vec::new();
    assert(keys(entry@) =~= seq![]);
    assert(members(entry@) =~= Map::empty());
    put(&mut entry, "hasTrustDialogAccepted".to_owned(), close(Json::Bool(true)));
    assert(members(entry@) =~= Map::<Seq<char>, JsonView>::empty().insert(
        "hasTrustDialogAccepted"@,
        JsonView::Bool(true),
    ));
    let none = Json::Array(Vec::new());
    assert(none@->Array_0 =~= seq![]);
    put(&mut entry, "allowedTools".to_owned(), close(none));
    assert(members(entry@) =~= trusted_project()->Object_0);
    let entry = Json::Object(entry);
    let mut projects: Vec<(String, serde_json::Value)> = Vec::new();
    assert(keys(projects@) =~= seq![]);
    put(&mut projects, project_dir.to_owned(), close(entry));
    assert(members(projects@) =~= Map::<Seq<char>, JsonView>::empty().insert(
        project_dir@,
        trusted_project(),
    ));
    let projects = Json::Object(projects);
    put(&mut fields, "projects".to_owned(), close(projects));
    assert(members(fields@) =~= m.insert("projects"@, projects@));
    put(&mut fields, "installMethod".to_owned(), close(Json::Text("system".to_owned())));
    assert(members(fields@) =~= m.insert("projects"@, projects@).insert(
        "installMethod"@,
        JsonView::Text("system"@),
    ));
    close(Json::Object(fields))
}

// ---------------------------------------------------------------------------
// From file to file
// ---------------------------------------------------------------------------

/// Why the configuration could not be prepared.
#[derive(Debug)]
pub enum ConfigError {
    /// The file with the given path is no JSON document.
    Parse(String),
}

impl ConfigError {
    /// The error in words.
    pub fn message(&self) -> (r: String)
        ensures
            r@ == match *self {
                ConfigError::Parse(path) => "parsing "@ + path@,
            },
    {
        match self {
            ConfigError::Parse(path) => cat("parsing ", path.as_str()),
        }
    }
}

/// A settings file of the host.
pub struct SettingsFile {
    /// Where it was found.
    pub path: String,
    /// What it holds.
    pub raw: String,
}

/// The configuration that is staged for the guest.
pub struct StagedConfig {
    /// The command to run on the host for an API key.
    pub api_key_helper: Option<String>,
    /// The settings file; there is none where the host has none.
    pub settings: Option<String>,
    /// The state file.
    pub state: String,
}

/// The host's state, where its file is there and holds a JSON document.
pub open spec fn host_state(raw: Option<String>) -> Option<JsonView> {
    match raw {
        Some(s) => parsed_json(s@),
        None => None,
    }
}

/// What is staged for the guest.
pub open spec fn staged_from(
    allow: Seq<Seq<char>>,
    settings: Option<SettingsFile>,
    state_raw: Option<String>,
    project: Seq<char>,
    r: StagedConfig,
) -> bool {
    &&& match settings {
        None => r.api_key_helper is None && r.settings is None,
        Some(file) => {
            let host = parsed_json(file.raw@)->0;
            &&& r.api_key_helper is Some == key_helper(host) is Some
            &&& r.api_key_helper matches Some(s) ==> s@ == key_helper(host)->0
            &&& r.settings matches Some(s)
            &&& s@ == printed_json(guest_settings(host, allow))
        },
    }
    &&& r.state@ == printed_json(guest_state(host_state(state_raw), project))
}

/// Whether the configuration can be staged: the settings, if there are any, are a JSON
/// document.
pub open spec fn can_stage(settings: Option<SettingsFile>) -> bool {
    settings matches Some(file) ==> parsed_json(file.raw@) is Some
}

/// Whether `e` is the error of settings that are no JSON document.
pub open spec fn is_config_error(settings: Option<SettingsFile>, e: ConfigError) -> bool {
    settings matches Some(file) && e->Parse_0@ == file.path@
}

/// Prepare the agent's configuration to inject into the guest.
///
/// From the host's settings the key helper is extracted and stripped (it runs on
/// the host), and the MCP servers are filtered if `allow_tools` is non-empty. From
/// the host's state only the safe members are taken.
pub fn prepare_claude_config(
    allow_tools: &Vec<String>,
    settings: &Option<SettingsFile>,
    state_raw: &Option<String>,
    project_dir: &str,
) -> (r: Result<StagedConfig, ConfigError>)
    ensures
        r is Ok == can_stage(*settings),
        match r {
            Ok(staged) => staged_from(
                texts(allow_tools@),
                *settings,
                *state_raw,
                project_dir@,
                staged,
            ),
            Err(e) => is_config_error(*settings, e),
        },
{
    let mut api_key_helper: Option<String> = None;
    let mut settings_text: Option<String> = None;
    if let Some(file) = settings {
        match parse(file.raw.as_str()) {
            None => return Err(ConfigError::Parse(file.path.clone())),
            Some(host) => {
                let (helper, prepared) = prepare_settings(host, allow_tools);
                api_key_helper = helper;
                settings_text = print(&prepared);
            },
        }
    }
    let host = match state_raw {
        Some(raw) => parse(raw.as_str()),
        None => None,
    };
    let state = print(&prepare_state(host, project_dir)).unwrap();
    Ok(StagedConfig { api_key_helper, settings: settings_text, state })
}

/// Like [`prepare_claude_config`], but gives back just the filtered settings and
/// the path that they were found at. Without a settings file there are none.
pub fn prepare_mcp_config_with_home(
    allow_tools: &Vec<String>,
    settings: Option<SettingsFile>,
) -> (r: Result<Option<(String, serde_json::Value)>, ConfigError>)
    ensures
        match settings {
            None => r matches Ok(None),
            Some(file) => match parsed_json(file.raw@) {
                None => r matches Err(ConfigError::Parse(path)) && path@ == file.path@,
                Some(host) => r matches Ok(Some(found)) && found.0@ == file.path@ && json_of(
                    found.1,
                ) == if allow_tools.len() == 0 {
                    host
                } else {
                    allowed_only(host, texts(allow_tools@))
                },
            },
        },
{
    match settings {
        None => Ok(None),
        Some(file) => match parse(file.raw.as_str()) {
            None => Err(ConfigError::Parse(file.path)),
            Some(host) => {
                if allow_tools.len() == 0 {
                    Ok(Some((file.path, host)))
                } else {
                    Ok(Some((file.path, filter_mcp_servers(host, allow_tools))))
                }
            },
        },
    }
}

// ---------------------------------------------------------------------------
// Laws
// ---------------------------------------------------------------------------

/// The key helper stays on the host: no settings for the guest name one.
pub proof fn key_helper_stays_on_host(settings: JsonView, allow: Seq<Seq<char>>)
    ensures
        key_helper(guest_settings(settings, allow)) is None,
        guest_settings(settings, allow) matches JsonView::Object(m) ==> !m.contains_key(
            "apiKeyHelper"@,
        ),
{
    reveal_strlit("apiKeyHelper");
    reveal_strlit("skipDangerousModePermissionPrompt");
    reveal_strlit("mcpServers");
    assert("apiKeyHelper"@.len() != "skipDangerousModePermissionPrompt"@.len());
    assert("apiKeyHelper"@.len() != "mcpServers"@.len());
}

/// The guest sees an MCP server exactly where the host has it and it is allowed;
/// an empty list allows all.
pub proof fn guest_sees_allowed_servers(
    host: Map<Seq<char>, JsonView>,
    servers: Map<Seq<char>, JsonView>,
    allow: Seq<Seq<char>>,
)
    requires
        host.contains_key("mcpServers"@),
        host["mcpServers"@] == JsonView::Object(servers),
    ensures
        guest_settings(JsonView::Object(host), allow) matches JsonView::Object(m)
            && m.contains_key("mcpServers"@) && (m["mcpServers"@] matches JsonView::Object(seen)
            && (forall|k: Seq<char>| #[trigger]
            seen.contains_key(k) == (servers.contains_key(k) && (allow.len() == 0
                || allow.contains(k)))) && (forall|k: Seq<char>| #[trigger]
            seen.contains_key(k) ==> seen[k] == servers[k])),
{
    reveal_strlit("apiKeyHelper");
    reveal_strlit("skipDangerousModePermissionPrompt");
    reveal_strlit("mcpServers");
    assert("apiKeyHelper"@.len() != "mcpServers"@.len());
    assert("skipDangerousModePermissionPrompt"@.len() != "mcpServers"@.len());
}

/// Nothing of the host's state reaches the guest but what is safe to forward, and all
/// of that does: the onboarding and display preferences, and the fingerprints of
/// approved keys. The other members of the guest's state are set by the tool.
pub proof fn guest_state_is_allowlisted(host: Option<JsonView>, project: Seq<char>, key: Seq<char>)
    ensures
        ({
            let safe = {
                ||| key == "hasCompletedOnboarding"@
                ||| key == "lastOnboardingVersion"@
                ||| key == "showSpinnerTree"@
                ||| key == "customApiKeyResponses"@
                ||| "hasShown"@.is_prefix_of(key)
                ||| "hasCompleted"@.is_prefix_of(key)
            };
            guest_state(host, project) matches JsonView::Object(m) && (m.contains_key(key) ==> safe
                || key == "projects"@ || key == "installMethod"@) && (safe ==> match host {
                Some(JsonView::Object(all)) => m.contains_key(key) == all.contains_key(key) && (
                all.contains_key(key) ==> m[key] == all[key]),
                _ => !m.contains_key(key),
            })
        }),
{
    lemma_own_members_are_not_forwarded();
}

proof fn lemma_own_members_are_not_forwarded()
    ensures
        !is_forwarded("projects"@),
        !is_forwarded("installMethod"@),
        "projects"@ != "installMethod"@,
{
    reveal_strlit("projects");
    reveal_strlit("installMethod");
    reveal_strlit("hasCompletedOnboarding");
    reveal_strlit("lastOnboardingVersion");
    reveal_strlit("showSpinnerTree");
    reveal_strlit("customApiKeyResponses");
    reveal_strlit("hasShown");
    reveal_strlit("hasCompleted");
    assert("projects"@.len() != "installMethod"@.len());
    assert(!is_forwarded("projects"@)) by {
        assert("projects"@.len() == 8 && "projects"@[0] == 'p');
        assert("hasShown"@[0] == 'h');
        if "hasShown"@.is_prefix_of("projects"@) {
            assert("projects"@[0] == 'h');
        }
    }
    assert(!is_forwarded("installMethod"@)) by {
        assert("installMethod"@.len() == 13 && "installMethod"@[0] == 'i');
        if "hasShown"@.is_prefix_of("installMethod"@) {
            assert("installMethod"@[0] == "hasShown"@[0]);
        }
        if "hasCompleted"@.is_prefix_of("installMethod"@) {
            assert("installMethod"@[0] == "hasCompleted"@[0]);
        }
    }
}

/// The guest trusts the project and no other, whatever the host's state says, and takes
/// the agent as installed by the system.
pub proof fn guest_trusts_the_project_only(host: Option<JsonView>, project: Seq<char>)
    ensures
        guest_state(host, project) matches JsonView::Object(m) && m.contains_key("projects"@) && (
        m["projects"@] matches JsonView::Object(projects) && (forall|k: Seq<char>| #[trigger]
            projects.contains_key(k) == (k == project)) && (
        projects[project] matches JsonView::Object(entry) && (forall|k: Seq<char>| #[trigger]
            entry.contains_key(k) == (k == "hasTrustDialogAccepted"@ || k == "allowedTools"@))
            && entry["hasTrustDialogAccepted"@] == JsonView::Bool(true) && (
        entry["allowedTools"@] matches JsonView::Array(tools) && tools.len() == 0)))
            && m.contains_key("installMethod"@) && m["installMethod"@] == JsonView::Text(
            "system"@,
        ),
{
    lemma_own_members_are_not_forwarded();
    reveal_strlit("hasTrustDialogAccepted");
    reveal_strlit("allowedTools");
    assert("hasTrustDialogAccepted"@.len() != "allowedTools"@.len());
}

/// Every member of the host's settings reaches the guest as it is, but for the key
/// helper, the prompt about skipped permissions, which is switched off, and the MCP
/// servers, which are filtered. Settings that are no object are not touched.
pub proof fn other_settings_are_kept(m: Map<Seq<char>, JsonView>, allow: Seq<Seq<char>>, k: Seq<char>)
    requires
        k != "apiKeyHelper"@,
        k != "skipDangerousModePermissionPrompt"@,
        k != "mcpServers"@,
    ensures
        guest_settings(JsonView::Object(m), allow) matches JsonView::Object(g) && g.contains_key(k)
            == m.contains_key(k) && (m.contains_key(k) ==> g[k] == m[k]),
        allowed_only(JsonView::Object(m), allow) matches JsonView::Object(g) && g.contains_key(k)
            == m.contains_key(k) && (m.contains_key(k) ==> g[k] == m[k]),
{
}

/// In the guest the prompt about skipped permissions is always off; MCP servers that are
/// not there, or not in a table, stay so; and settings that are no object stay as they
/// are.
pub proof fn guest_is_not_asked_about_permissions(settings: JsonView, allow: Seq<Seq<char>>)
    ensures
        settings matches JsonView::Object(m) ==> (guest_settings(settings, allow) matches
            JsonView::Object(g) && g.contains_key("skipDangerousModePermissionPrompt"@)
            && g["skipDangerousModePermissionPrompt"@] == JsonView::Bool(true) && g.contains_key(
            "mcpServers"@,
        ) == m.contains_key("mcpServers"@) && (m.contains_key("mcpServers"@) && !(
        m["mcpServers"@] is Object) ==> g["mcpServers"@] == m["mcpServers"@])),
        !(settings is Object) ==> guest_settings(settings, allow) == settings && allowed_only(
            settings,
            allow,
        ) == settings,
{
    reveal_strlit("apiKeyHelper");
    reveal_strlit("skipDangerousModePermissionPrompt");
    reveal_strlit("mcpServers");
    assert("apiKeyHelper"@.len() != "mcpServers"@.len());
    assert("apiKeyHelper"@.len() != "skipDangerousModePermissionPrompt"@.len());
    assert("skipDangerousModePermissionPrompt"@.len() != "mcpServers"@.len());
}

/// The helper command is the text under `apiKeyHelper`, and only a text is one.
pub proof fn key_helper_is_the_named_text(m: Map<Seq<char>, JsonView>, command: Seq<char>)
    ensures
        key_helper(JsonView::Object(m)) == Some(command) <==> m.contains_key("apiKeyHelper"@)
            && m["apiKeyHelper"@] == JsonView::Text(command),
        !m.contains_key("apiKeyHelper"@) ==> key_helper(JsonView::Object(m)) is None,
{
}

/// Where an allowlist is given, filtering alone keeps exactly the servers on it, as they
/// are.
pub proof fn filter_keeps_allowed_servers(
    host: Map<Seq<char>, JsonView>,
    servers: Map<Seq<char>, JsonView>,
    allow: Seq<Seq<char>>,
)
    requires
        host.contains_key("mcpServers"@),
        host["mcpServers"@] == JsonView::Object(servers),
    ensures
        allowed_only(JsonView::Object(host), allow) matches JsonView::Object(m) && m.contains_key(
            "mcpServers"@,
        ) && (m["mcpServers"@] matches JsonView::Object(seen) && (forall|k: Seq<char>| #[trigger]
            seen.contains_key(k) == (servers.contains_key(k) && allow.contains(k))) && (forall|
            k: Seq<char>,
        | #[trigger]
            seen.contains_key(k) ==> seen[k] == servers[k])),
{
}

/// The places where settings and state are looked for lie in the home directory, under
/// names made of a dot and the agent's name.
pub proof fn configuration_lies_in_the_home_directory(home: Seq<char>, agent: Seq<char>)
    requires
        home.len() > 0,
        home.last() != '/',
        agent.len() > 0,
        agent.last() != '/',
    ensures
        settings_path(home, agent) == home + "/."@ + agent + "/settings.json"@,
        state_path(home, agent) == home + "/."@ + agent + ".json"@,
{
    reveal_strlit(".");
    reveal_strlit("/.");
    reveal_strlit("settings.json");
    reveal_strlit("/settings.json");
    reveal_strlit(".json");
    let dir = path_join(home, settings_dir(agent));
    assert(dir =~= home + "/."@ + agent);
    assert(dir.last() == agent.last());
    assert(settings_path(home, agent) =~= home + "/."@ + agent + "/settings.json"@);
    assert(state_path(home, agent) =~= home + "/."@ + agent + ".json"@);
}

/// What is staged is what was prepared of the host's files: without settings on the host
/// there are none and no helper, and the state is there in any case. A state that is
/// missing or no JSON document counts as empty.
pub proof fn staged_files_are_prepared_ones(
    allow: Seq<Seq<char>>,
    settings: Option<SettingsFile>,
    state_raw: Option<String>,
    project: Seq<char>,
    staged: StagedConfig,
)
    requires
        staged_from(allow, settings, state_raw, project, staged),
    ensures
        settings is None ==> staged.settings is None && staged.api_key_helper is None,
        settings matches Some(file) ==> {
            let host = parsed_json(file.raw@)->0;
            &&& staged.settings matches Some(text) && text@ == printed_json(
                guest_settings(host, allow),
            )
            &&& match key_helper(host) {
                Some(command) => staged.api_key_helper matches Some(c) && c@ == command,
                None => staged.api_key_helper is None,
            }
        },
        staged.state@ == printed_json(
            guest_state(
                match state_raw {
                    Some(raw) => parsed_json(raw@),
                    None => None,
                },
                project,
            ),
        ),
{
}

/// Settings that are no JSON document are an error that names their file, and nothing else
/// is one: without settings, or with any document, the configuration can be staged.
pub proof fn broken_settings_are_an_error(file: SettingsFile, path: String)
    ensures
        can_stage(None),
        can_stage(Some(file)) <==> parsed_json(file.raw@) is Some,
        is_config_error(Some(file), ConfigError::Parse(path)) <==> path@ == file.path@,
        !is_config_error(None, ConfigError::Parse(path)),
{
}

/// The settings are found in the agent's directory first, and else in its state file; where
/// neither is there, none are found.
pub proof fn settings_directory_comes_first(
    home: &str,
    agent: &str,
    in_dir: bool,
    in_home: bool,
    r: Option<String>,
)
    requires
        call_ensures(find_settings_file, (home, agent, in_dir, in_home), r),
    ensures
        r is Some <==> in_dir || in_home,
        in_dir ==> (r matches Some(path) && path@ == settings_path(home@, agent@)),
        !in_dir && in_home ==> (r matches Some(path) && path@ == state_path(home@, agent@)),
{
}

} // verus!
