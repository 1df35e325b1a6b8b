//! Running the agent: the name of the VM, the API key, and the command line.
use vstd::prelude::*;
use vstd::utf8::{decode_utf8, valid_utf8};

use crate::mount::{share_views, DirShare, ShareView};
use crate::names::{
    agent_path, below_root, guest_agent, guest_bin, product, product_name, vm_prefix, warm_prefix,
};
use crate::shell::{
    all_words, is_plain, lemma_arguments_read, lemma_joined_reads, lemma_plain_reads,
    lemma_quoted_reads, lemma_reads_in_a_row, lemma_words_of, quoted, reads_as, shell_escape, shell_word,
    shell_words, shell_words_of, single_words,
};
use crate::text::{
    cat, from_utf8, from_utf8_lossy, join, joined, lossy_text, starts_with, text_of, texts, trim,
    trimmed,
};

verus! {

// ---------------------------------------------------------------------------
// The name of the VM
// ---------------------------------------------------------------------------

/// Whether `c` is a lower-case hexadecimal digit.
pub open spec fn is_hex(c: char) -> bool {
    '0' <= c <= '9' || 'a' <= c <= 'f'
}

/// Whether `s` is a random UUID in its hyphenated form.
pub open spec fn is_uuid(s: Seq<char>) -> bool {
    &&& s.len() == 36
    &&& forall|i: int|
        0 <= i < 36 ==> if i == 8 || i == 13 || i == 18 || i == 23 {
            #[trigger] s[i] == '-'
        } else {
            is_hex(s[i])
        }
    &&& s[14] == '4'
}

/// `Uuid::new_v4` makes a random UUID, and its `Display` writes it in lower-case
/// hexadecimal digits with hyphens behind the 8th, 12th, 16th and 20th digit; the
/// 13th digit is the version.
#[verifier::external_body]
fn new_uuid() -> (r: String)
    ensures
        is_uuid(r@),
{
    uuid::Uuid::new_v4().to_string()
}

/// Whether `name` is a generated VM name.
pub open spec fn is_run_name(agent: Seq<char>, name: Seq<char>) -> bool {
    exists|id: Seq<char>| #[trigger] is_uuid(id) && name == vm_prefix(agent) + id
}

/// A new VM name.
pub fn generate_name(agent: &str) -> (r: String)
    ensures
        is_run_name(agent@, r@),
{
    let id = new_uuid();
    let mut r = cat(agent, "-box-");
    r.append(id.as_str());
    assert(r@ == vm_prefix(agent@) + id@);
    r
}

/// The name of the VM of a run: the one that is given, or a new one.
pub fn vm_name(agent: &str, given: &Option<String>) -> (r: String)
    ensures
        match *given {
            Some(name) => r@ == name@,
            None => is_run_name(agent@, r@),
        },
{
    match given {
        Some(name) => name.clone(),
        None => generate_name(agent),
    }
}

/// A generated name is the name of a VM of the tool, but not of a warm one, so the
/// VM is found when leftovers are looked for.
pub proof fn run_names_are_reapable(agent: Seq<char>, name: Seq<char>)
    requires
        is_run_name(agent, name),
    ensures
        (agent + "-box-"@).is_prefix_of(name),
        !(agent + "-box-warm-"@).is_prefix_of(name),
        name.len() == agent.len() + 41,
{
    let id = choose|id: Seq<char>| #[trigger] is_uuid(id) && name == vm_prefix(agent) + id;
    reveal_strlit("-box-");
    reveal_strlit("-box-warm-");
    let n = agent.len() + 5;
    assert(vm_prefix(agent) =~= name.take(n as int));
    assert(name[n as int] == id[0]);
    assert(is_hex(id[0]));
    if warm_prefix(agent).is_prefix_of(name) {
        assert(warm_prefix(agent)[n as int] == 'w');
        assert(name.take(warm_prefix(agent).len() as int)[n as int] == name[n as int]);
    }
}

// ---------------------------------------------------------------------------
// Starting the VM
// ---------------------------------------------------------------------------

/// The arguments of `tart run` for a VM with the given shares.
pub open spec fn start_args(vm_name: Seq<char>, shares: Seq<ShareView>) -> Seq<Seq<char>> {
    seq!["run"@, "--no-graphics"@] + shares.map_values(|s: ShareView| dir_arg(s)) + seq![vm_name]
}

/// The `--dir` argument for a share.
pub open spec fn dir_arg(s: ShareView) -> Seq<char> {
    "--dir="@ + (s.host_path + (if s.read_only {
        ":ro,tag="@
    } else {
        ":tag="@
    }) + s.tag)
}

/// The arguments of `tart run` for a VM with the given shares.
pub fn start_vm_with_shares(vm_name: &str, shares: &Vec<DirShare>) -> (r: Vec<String>)
    ensures
        texts(r@) == start_args(vm_name@, share_views(shares@)),
{
    let mut r: Vec<String> = Vec::new();
    r.push("run".to_owned());
    r.push("--no-graphics".to_owned());
    let ghost dirs = share_views(shares@).map_values(|s: ShareView| dir_arg(s));
    let ghost front = seq!["run"@, "--no-graphics"@];
    assert(texts(r@) == front + dirs.take(0));
    let mut i: usize = 0;
    while i < shares.len()
        invariant
            i <= shares.len(),
            dirs == share_views(shares@).map_values(|s: ShareView| dir_arg(s)),
            texts(r@) == front + dirs.take(i as int),
        decreases shares.len() - i,
    {
        let ghost before = texts(r@);
        let arg = cat("--dir=", shares[i].tart_flag().as_str());
        assert(arg@ == dirs[i as int]);
        r.push(arg);
        assert(texts(r@) == before.push(arg@));
        assert(dirs.take(i + 1) == dirs.take(i as int).push(dirs[i as int]));
        i += 1;
    }
    assert(dirs.take(i as int) == dirs);
    let ghost before = texts(r@);
    r.push(vm_name.to_owned());
    assert(texts(r@) == before.push(vm_name@));
    r
}

/// As much of the error output of a background process as is shown: at most 4 KiB,
/// without white space around it.
pub open spec fn excerpt(bytes: Seq<u8>) -> Seq<char> {
    trimmed(lossy_text(if bytes.len() > 4096 { bytes.take(4096) } else { bytes }))
}

/// What a background process wrote to its standard error, as context for an error;
/// `None` where it wrote nothing.
pub fn drain_tart_stderr(bytes: Vec<u8>) -> (r: Option<String>)
    ensures
        r is None == (excerpt(bytes@).len() == 0),
        r matches Some(s) ==> s@ == "tart run stderr:\n"@ + excerpt(bytes@),
{
    let mut bytes = bytes;
    if bytes.len() > 4096 {
        bytes.truncate(4096);
    }
    let extra = trim(from_utf8_lossy(&bytes).as_str());
    if extra.as_str().is_empty() {
        None
    } else {
        Some(cat("tart run stderr:\n", extra.as_str()))
    }
}

// ---------------------------------------------------------------------------
// The API key
// ---------------------------------------------------------------------------

/// Where an API key comes from.
#[derive(Clone, Copy, Debug, PartialEq, Eq, Structural)]
pub enum KeySource {
    /// The helper command of the host's settings.
    Helper,
    /// The environment variable `ANTHROPIC_API_KEY`.
    Environment,
    /// The macOS keychain.
    Keychain,
}

/// The source that decides about the API key: a helper goes before the environment,
/// and the environment before the keychain.
pub fn key_source(helper: bool, environment: bool) -> (r: KeySource)
    ensures
        r == if helper {
            KeySource::Helper
        } else if environment {
            KeySource::Environment
        } else {
            KeySource::Keychain
        },
{
    if helper {
        KeySource::Helper
    } else if environment {
        KeySource::Environment
    } else {
        KeySource::Keychain
    }
}

/// How the helper command ended.
pub enum HelperOutcome {
    /// It could not be started.
    NotRun,
    /// It ran to its end.
    Exited { success: bool, stdout: Vec<u8>, stderr: Vec<u8> },
}

/// The key that the helper command printed, or why there is none.
pub open spec fn helper_result(outcome: HelperOutcome) -> Result<Seq<char>, Seq<char>> {
    match outcome {
        HelperOutcome::NotRun => Err("failed to run apiKeyHelper"@),
        HelperOutcome::Exited { success, stdout, stderr } => if !success {
            Err("apiKeyHelper exited non-zero: "@ + trimmed(lossy_text(stderr@)))
        } else if !valid_utf8(stdout@) {
            Err("apiKeyHelper output not UTF-8"@)
        } else if trimmed(decode_utf8(stdout@)).len() == 0 {
            Err("apiKeyHelper returned empty output"@)
        } else {
            Ok(trimmed(decode_utf8(stdout@)))
        },
    }
}

/// The key that the helper command printed, or why there is none.
pub fn helper_key(outcome: HelperOutcome) -> (r: Result<String, String>)
    ensures
        match r {
            Ok(key) => helper_result(outcome) == Ok::<Seq<char>, Seq<char>>(key@),
            Err(e) => helper_result(outcome) == Err::<Seq<char>, Seq<char>>(e@),
        },
{
    match outcome {
        HelperOutcome::NotRun => Err("failed to run apiKeyHelper".to_owned()),
        HelperOutcome::Exited { success, stdout, stderr } => {
            if !success {
                let detail = trim(from_utf8_lossy(&stderr).as_str());
                return Err(cat("apiKeyHelper exited non-zero: ", detail.as_str()));
            }
            match from_utf8(stdout) {
                None => Err("apiKeyHelper output not UTF-8".to_owned()),
                Some(s) => {
                    let key = trim(s.as_str());
                    if key.as_str().is_empty() {
                        Err("apiKeyHelper returned empty output".to_owned())
                    } else {
                        Ok(key)
                    }
                },
            }
        },
    }
}

/// Whether the keychain's answer holds an API key.
pub open spec fn is_keychain_key(success: bool, stdout: Seq<u8>) -> bool {
    success && valid_utf8(stdout) && "sk-"@.is_prefix_of(trimmed(decode_utf8(stdout)))
}

/// The API key in the keychain's answer. Whatever is no key is none; that is no
/// error.
pub fn keychain_key(success: bool, stdout: Vec<u8>) -> (r: Option<String>)
    ensures
        r is Some == is_keychain_key(success, stdout@),
        r matches Some(key) ==> key@ == trimmed(decode_utf8(stdout@)),
{
    if !success {
        return None;
    }
    match from_utf8(stdout) {
        None => None,
        Some(s) => {
            let key = trim(s.as_str());
            if starts_with(key.as_str(), "sk-") {
                Some(key)
            } else {
                None
            }
        },
    }
}

/// The keychain's answer.
pub struct KeychainAnswer {
    pub success: bool,
    pub stdout: Vec<u8>,
}

/// The API key for the guest, or the error of the helper command.
pub open spec fn resolved_key(
    helper: Option<HelperOutcome>,
    environment: Option<Seq<char>>,
    keychain: Option<KeychainAnswer>,
) -> Result<Option<Seq<char>>, Seq<char>> {
    match (helper, environment, keychain) {
        (Some(outcome), _, _) => match helper_result(outcome) {
            Ok(key) => Ok(Some(key)),
            Err(e) => Err(e),
        },
        (None, Some(key), _) => Ok(Some(key)),
        (None, None, Some(answer)) => if is_keychain_key(answer.success, answer.stdout@) {
            Ok(Some(trimmed(decode_utf8(answer.stdout@))))
        } else {
            Ok(None)
        },
        (None, None, None) => Ok(None),
    }
}

/// Resolve an API key for the guest: the helper command of the host's settings
/// decides if there is one, then the environment, and then the keychain. Where none
/// of them has a key there is none, but a helper that fails is an error.
pub fn resolve_api_key(
    helper: Option<HelperOutcome>,
    environment: Option<String>,
    keychain: Option<KeychainAnswer>,
) -> (r: Result<Option<String>, String>)
    ensures
        match resolved_key(helper, text_of(environment), keychain) {
            Ok(Some(key)) => r matches Ok(Some(k)) && k@ == key,
            Ok(None) => r matches Ok(None),
            Err(text) => r matches Err(e) && e@ == text,
        },
{
    if let Some(outcome) = helper {
        return match helper_key(outcome) {
            Ok(key) => Ok(Some(key)),
            Err(e) => Err(e),
        };
    }
    if let Some(key) = environment {
        return Ok(Some(key));
    }
    match keychain {
        Some(answer) => Ok(keychain_key(answer.success, answer.stdout)),
        None => Ok(None),
    }
}

/// The arguments of `security` that ask for the API key of `user`, which the agent
/// keeps under its full name.
pub fn keychain_args(agent: &str, user: &str) -> (r: Vec<String>)
    ensures
        texts(r@) == seq![
            "find-generic-password"@,
            "-s"@,
            product_name(agent@),
            "-a"@,
            user@,
            "-w"@,
        ],
{
    let r = vec![
        "find-generic-password".to_owned(),
        "-s".to_owned(),
        product(agent),
        "-a".to_owned(),
        user.to_owned(),
        "-w".to_owned(),
    ];
    assert(texts(r@) =~= seq![
        "find-generic-password"@,
        "-s"@,
        product_name(agent@),
        "-a"@,
        user@,
        "-w"@,
    ]);
    r
}

// ---------------------------------------------------------------------------
// The command line
// ---------------------------------------------------------------------------

/// The directories that are put in front of the guest's `PATH`: where the agent is
/// linked to, and the symlink farm if there are binary shares.
pub open spec fn extra_path(agent: Seq<char>, binaries: bool) -> Seq<char> {
    if binaries {
        "$HOME/.local/bin:"@ + guest_bin(agent)
    } else {
        "$HOME/.local/bin"@
    }
}

/// The directories that are put in front of the guest's `PATH`.
pub fn extra_dirs(agent: &str, binaries: bool) -> (r: String)
    ensures
        r@ == extra_path(agent@, binaries),
{
    if binaries {
        cat("$HOME/.local/bin:", below_root(agent, "/bin").as_str())
    } else {
        "$HOME/.local/bin".to_owned()
    }
}

/// The parts of the command line in front of the agent's arguments.
pub open spec fn command_front(
    agent: Seq<char>,
    key: Option<Seq<char>>,
    binaries: bool,
    mount: Seq<char>,
) -> Seq<Seq<char>> {
    (match key {
        Some(k) => seq!["export ANTHROPIC_API_KEY="@ + shell_word(k) + " &&"@],
        None => seq![],
    }) + seq![
        "export PATH="@ + extra_path(agent, binaries) + ":$PATH &&"@,
        "cd "@ + shell_word(mount) + " &&"@,
        guest_agent(agent) + " --dangerously-skip-permissions"@,
    ]
}

/// The command line that runs the agent in the guest.
pub open spec fn command_line(
    agent: Seq<char>,
    key: Option<Seq<char>>,
    binaries: bool,
    mount: Seq<char>,
    args: Seq<Seq<char>>,
) -> Seq<char> {
    joined(command_front(agent, key, binaries, mount) + shell_words_of(args), " "@)
}

/// The command line that runs the agent in the guest: with the API key, if there is
/// one, in its environment, in the project directory, and with the given arguments.
/// Permissions are always skipped, as the VM is the sandbox.
pub fn exec_claude(
    agent: &str,
    api_key: &Option<String>,
    binaries: bool,
    mount: &str,
    args: &Vec<String>,
) -> (r: String)
    ensures
        r@ == command_line(
            agent@,
            text_of(*api_key),
            binaries,
            mount@,
            texts(args@),
        ),
{
    let ghost key = text_of(*api_key);
    let mut parts: Vec<String> = Vec::new();
    if let Some(k) = api_key {
        let mut p = cat("export ANTHROPIC_API_KEY=", shell_escape(k.as_str()).as_str());
        p.append(" &&");
        parts.push(p);
    }
    let mut p = cat("export PATH=", extra_dirs(agent, binaries).as_str());
    p.append(":$PATH &&");
    parts.push(p);
    let mut p = cat("cd ", shell_escape(mount).as_str());
    p.append(" &&");
    parts.push(p);
    let mut p = agent_path(agent);
    p.append(" --dangerously-skip-permissions");
    parts.push(p);
    let ghost front = command_front(agent@, key, binaries, mount@);
    assert(texts(parts@) =~= front);
    let mut i: usize = 0;
    assert(front + shell_words_of(texts(args@)).take(0) == front);
    while i < args.len()
        invariant
            i <= args.len(),
            texts(parts@) == front + shell_words_of(texts(args@)).take(i as int),
        decreases args.len() - i,
    {
        let ghost before = texts(parts@);
        let ghost quoted = shell_words_of(texts(args@));
        let arg = shell_escape(args[i].as_str());
        assert(texts(args@)[i as int] == args@[i as int]@);
        assert(arg@ == quoted[i as int]);
        parts.push(arg);
        assert(texts(parts@) == before.push(arg@));
        assert(quoted.take(i + 1) == quoted.take(i as int).push(quoted[i as int]));
        i += 1;
    }
    assert(shell_words_of(texts(args@)).take(i as int) == shell_words_of(texts(args@)));
    join(&parts, " ")
}

// ---------------------------------------------------------------------------
// Files for a warm clone
// ---------------------------------------------------------------------------

/// The command that writes a text to a file of the guest.
pub open spec fn write_command(content: Seq<char>, path: Seq<char>) -> Seq<char> {
    "printf '%s' "@ + shell_word(content) + " > "@ + path
}

/// The command that writes the agent's settings in the guest.
pub open spec fn settings_command(agent: Seq<char>, content: Seq<char>) -> Seq<char> {
    "mkdir -p ~/."@ + agent + " && "@ + write_command(
        content,
        "~/."@ + agent + "/settings.json"@,
    )
}

/// The command that writes the agent's state in the guest.
pub open spec fn state_command(agent: Seq<char>, content: Seq<char>) -> Seq<char> {
    write_command(content, "~/."@ + agent + ".json"@)
}

fn write_file(content: &str, path: &str) -> (r: String)
    ensures
        r@ == write_command(content@, path@),
{
    let mut r = cat("printf '%s' ", shell_escape(content).as_str());
    r.append(" > ");
    r.append(path);
    r
}

/// The command that writes the agent's settings in the guest.
pub fn send_settings(agent: &str, content: &str) -> (r: String)
    ensures
        r@ == settings_command(agent@, content@),
{
    let mut path = cat("~/.", agent);
    path.append("/settings.json");
    let mut r = cat("mkdir -p ~/.", agent);
    r.append(" && ");
    r.append(write_file(content, path.as_str()).as_str());
    r
}

/// The command that writes the agent's state in the guest.
pub fn send_state(agent: &str, content: &str) -> (r: String)
    ensures
        r@ == state_command(agent@, content@),
{
    let mut path = cat("~/.", agent);
    path.append(".json");
    write_file(content, path.as_str())
}

/// A text is written to a file of a guest verbatim: a shell reads the command that writes it
/// with the content exactly as it was given, whatever characters it holds.
pub proof fn content_reaches_the_file(content: Seq<char>, path: Seq<char>)
    requires
        is_plain(path),
        path.len() > 0,
    ensures
        shell_words(write_command(content, path)) == seq!["printf"@, "%s"@, content, ">"@, path],
{
    lemma_write_reads(content, path);
    lemma_words_of(
        write_command(content, path),
        seq!["printf"@, "%s"@, content, ">"@, path],
    );
}

proof fn lemma_write_reads(content: Seq<char>, path: Seq<char>)
    requires
        is_plain(path),
        path.len() > 0,
    ensures
        reads_as(
            write_command(content, path),
            seq!["printf"@, "%s"@, content, ">"@, path],
        ),
{
    reveal_strlit("printf '%s' ");
    reveal_strlit("printf");
    reveal_strlit("%s");
    reveal_strlit(" > ");
    reveal_strlit(">");
    let s = seq![' '];
    let none = Seq::<char>::empty();
    lemma_plain_reads("printf"@);
    lemma_plain_reads(">"@);
    lemma_plain_reads(path);
    lemma_quoted_reads(none, "%s"@);
    lemma_quoted_reads(none, content);
    assert(none + shell_word(content) =~= shell_word(content));
    assert(none + content =~= content);
    assert(none + shell_word("%s"@) =~= shell_word("%s"@));
    assert(none + "%s"@ =~= "%s"@);
    let format = shell_word("%s"@);
    assert(format =~= seq!['\'', '%', 's', '\'']) by {
        reveal_with_fuel(quoted, 3);
        assert("%s"@.drop_last() =~= seq!['%']);
        assert("%s"@.drop_last().drop_last() =~= seq![]);
    }
    lemma_reads_in_a_row("printf"@, seq!["printf"@], format, seq!["%s"@]);
    let a = "printf"@ + s + format;
    lemma_reads_in_a_row(a, seq!["printf"@] + seq!["%s"@], shell_word(content), seq![content]);
    let b = a + s + shell_word(content);
    lemma_reads_in_a_row(b, seq!["printf"@] + seq!["%s"@] + seq![content], ">"@, seq![">"@]);
    let c = b + s + ">"@;
    let words = seq!["printf"@] + seq!["%s"@] + seq![content] + seq![">"@];
    lemma_reads_in_a_row(c, words, path, seq![path]);
    assert(words + seq![path] =~= seq!["printf"@, "%s"@, content, ">"@, path]);
    assert(write_command(content, path) =~= c + s + path);
}

/// The words of the command line in front of the agent's arguments.
pub open spec fn front_words(
    agent: Seq<char>,
    key: Option<Seq<char>>,
    binaries: bool,
    mount: Seq<char>,
) -> Seq<Seq<char>> {
    (match key {
        Some(k) => seq!["export"@, "ANTHROPIC_API_KEY="@ + k, "&&"@],
        None => seq![],
    }) + seq![
        "export"@,
        "PATH="@ + extra_path(agent, binaries) + ":$PATH"@,
        "&&"@,
        "cd"@,
        mount,
        "&&"@,
        guest_agent(agent),
        "--dangerously-skip-permissions"@,
    ]
}

/// Everything reaches the agent verbatim: a shell splits the command line into the
/// key, the project directory and the arguments exactly as they were given, whatever
/// characters they hold. (The name of the agent is taken as it is.)
pub proof fn arguments_reach_the_agent(
    agent: Seq<char>,
    key: Option<Seq<char>>,
    binaries: bool,
    mount: Seq<char>,
    args: Seq<Seq<char>>,
)
    requires
        is_plain(agent),
    ensures
        shell_words(command_line(agent, key, binaries, mount, args)) == (match key {
            Some(k) => seq!["export"@, "ANTHROPIC_API_KEY="@ + k, "&&"@],
            None => seq![],
        }) + seq![
            "export"@,
            "PATH="@ + (if binaries {
                "$HOME/.local/bin:"@ + ("/opt/"@ + agent + "-box"@ + "/bin"@)
            } else {
                "$HOME/.local/bin"@
            }) + ":$PATH"@,
            "&&"@,
            "cd"@,
            mount,
            "&&"@,
            "/opt/"@ + agent + "-box"@ + "/"@ + agent + "/"@ + agent,
            "--dangerously-skip-permissions"@,
        ] + args,
{
    reveal_strlit(" ");
    assert(" "@ =~= seq![' ']);
    let front = command_front(agent, key, binaries, mount);
    let path = "PATH="@ + extra_path(agent, binaries) + ":$PATH"@;
    let path_words = seq!["export"@, path, "&&"@];
    let cd_words = seq!["cd"@, mount, "&&"@];
    let agent_words = seq![guest_agent(agent), "--dangerously-skip-permissions"@];
    let own = seq![path_words, cd_words, agent_words];
    let lists = match key {
        Some(k) => seq![seq!["export"@, "ANTHROPIC_API_KEY="@ + k, "&&"@]] + own,
        None => own,
    };
    lemma_path_part(agent, binaries);
    lemma_cd_part(mount);
    lemma_agent_part(agent);
    if let Some(k) = key {
        lemma_key_part(k);
    }
    assert(front.len() == lists.len());
    assert forall|i: int| 0 <= i < front.len() implies reads_as(#[trigger] front[i], lists[i]) by {
        if key is Some {
            if i > 0 {
                assert(lists[i] == own[i - 1]);
            }
        }
    }
    lemma_arguments_read(args);
    let parts = front + shell_words_of(args);
    let all = lists + single_words(args);
    assert forall|i: int| 0 <= i < parts.len() implies reads_as(#[trigger] parts[i], all[i]) by {
        if i < front.len() {
            assert(parts[i] == front[i]);
        } else {
            assert(parts[i] == shell_words_of(args)[i - front.len()]);
            assert(all[i] == single_words(args)[i - front.len()]);
        }
    }
    lemma_joined_reads(parts, all);
    lemma_all_words_concat(lists, single_words(args));
    assert(all_words(lists) =~= front_words(agent, key, binaries, mount)) by {
        reveal_with_fuel(all_words, 5);
        let n = lists.len() as int;
        assert(lists.drop_last().last() == cd_words);
        assert(lists.drop_last().drop_last().last() == path_words);
    }
    lemma_words_of(joined(parts, seq![' ']), all_words(all));
}

proof fn lemma_all_words_concat(a: Seq<Seq<Seq<char>>>, b: Seq<Seq<Seq<char>>>)
    ensures
        all_words(a + b) == all_words(a) + all_words(b),
    decreases b.len(),
{
    if b.len() == 0 {
        assert(a + b =~= a);
        assert(all_words(a) + all_words(b) =~= all_words(a));
    } else {
        lemma_all_words_concat(a, b.drop_last());
        assert((a + b).drop_last() =~= a + b.drop_last());
        assert(all_words(a + b) =~= all_words(a) + all_words(b));
    }
}

proof fn lemma_three_words(a: Seq<char>, b: Seq<char>, b_word: Seq<char>)
    requires
        is_plain(a),
        a.len() > 0,
        reads_as(b, seq![b_word]),
    ensures
        reads_as(a + seq![' '] + b + seq![' '] + "&&"@, seq![a, b_word, "&&"@]),
{
    reveal_strlit("&&");
    lemma_plain_reads(a);
    lemma_plain_reads("&&"@);
    lemma_reads_in_a_row(a, seq![a], b, seq![b_word]);
    lemma_reads_in_a_row(
        a + seq![' '] + b,
        seq![a] + seq![b_word],
        "&&"@,
        seq!["&&"@],
    );
    assert(seq![a] + seq![b_word] + seq!["&&"@] =~= seq![a, b_word, "&&"@]);
}

proof fn lemma_guest_names_plain(agent: Seq<char>)
    requires
        is_plain(agent),
    ensures
        is_plain(guest_bin(agent)),
        is_plain(guest_agent(agent)),
{
    reveal_strlit("/opt/");
    reveal_strlit("-box");
    reveal_strlit("/bin");
    reveal_strlit("/");
}

proof fn lemma_path_part(agent: Seq<char>, binaries: bool)
    requires
        is_plain(agent),
    ensures
        reads_as(
            "export PATH="@ + extra_path(agent, binaries) + ":$PATH &&"@,
            seq!["export"@, "PATH="@ + extra_path(agent, binaries) + ":$PATH"@, "&&"@],
        ),
{
    reveal_strlit("export PATH=");
    reveal_strlit("export");
    reveal_strlit("PATH=");
    reveal_strlit(":$PATH &&");
    reveal_strlit(":$PATH");
    reveal_strlit("&&");
    reveal_strlit("$HOME/.local/bin:");
    reveal_strlit("$HOME/.local/bin");
    lemma_guest_names_plain(agent);
    let path = "PATH="@ + extra_path(agent, binaries) + ":$PATH"@;
    assert(is_plain(extra_path(agent, binaries)));
    assert(is_plain(path));
    lemma_plain_reads(path);
    lemma_three_words("export"@, path, path);
    assert("export PATH="@ + extra_path(agent, binaries) + ":$PATH &&"@ =~= "export"@ + seq![' ']
        + path + seq![' '] + "&&"@);
}

proof fn lemma_cd_part(mount: Seq<char>)
    ensures
        reads_as("cd "@ + shell_word(mount) + " &&"@, seq!["cd"@, mount, "&&"@]),
{
    reveal_strlit("cd ");
    reveal_strlit("cd");
    reveal_strlit(" &&");
    reveal_strlit("&&");
    lemma_quoted_reads(seq![], mount);
    assert(Seq::<char>::empty() + shell_word(mount) =~= shell_word(mount));
    assert(Seq::<char>::empty() + mount =~= mount);
    lemma_three_words("cd"@, shell_word(mount), mount);
    assert("cd "@ + shell_word(mount) + " &&"@ =~= "cd"@ + seq![' '] + shell_word(mount) + seq![' ']
        + "&&"@);
}

proof fn lemma_key_part(k: Seq<char>)
    ensures
        reads_as(
            "export ANTHROPIC_API_KEY="@ + shell_word(k) + " &&"@,
            seq!["export"@, "ANTHROPIC_API_KEY="@ + k, "&&"@],
        ),
{
    reveal_strlit("export ANTHROPIC_API_KEY=");
    reveal_strlit("export");
    reveal_strlit("ANTHROPIC_API_KEY=");
    reveal_strlit(" &&");
    reveal_strlit("&&");
    let front = "ANTHROPIC_API_KEY="@;
    assert(is_plain(front));
    lemma_quoted_reads(front, k);
    lemma_three_words("export"@, front + shell_word(k), front + k);
    assert("export ANTHROPIC_API_KEY="@ + shell_word(k) + " &&"@ =~= "export"@ + seq![' '] + (front
        + shell_word(k)) + seq![' '] + "&&"@);
}

proof fn lemma_agent_part(agent: Seq<char>)
    requires
        is_plain(agent),
    ensures
        reads_as(
            guest_agent(agent) + " --dangerously-skip-permissions"@,
            seq![guest_agent(agent), "--dangerously-skip-permissions"@],
        ),
{
    reveal_strlit(" --dangerously-skip-permissions");
    reveal_strlit("--dangerously-skip-permissions");
    reveal_strlit("/opt/");
    lemma_guest_names_plain(agent);
    let flag = "--dangerously-skip-permissions"@;
    lemma_plain_reads(guest_agent(agent));
    lemma_plain_reads(flag);
    lemma_reads_in_a_row(guest_agent(agent), seq![guest_agent(agent)], flag, seq![flag]);
    assert(guest_agent(agent) + " --dangerously-skip-permissions"@ =~= guest_agent(agent)
        + seq![' '] + flag);
    assert(seq![guest_agent(agent)] + seq![flag] =~= seq![guest_agent(agent), flag]);
}

// ---------------------------------------------------------------------------
// Further laws
// ---------------------------------------------------------------------------

/// Every share is handed to `tart run`, with its path, its tag and whether it can be
/// written, in the order in which the shares are given. The name of the VM comes last.
pub proof fn every_share_is_handed_over(vm_name: Seq<char>, shares: Seq<ShareView>, i: int)
    ensures
        start_args(vm_name, shares).len() == shares.len() + 3,
        start_args(vm_name, shares)[0] == "run"@,
        start_args(vm_name, shares)[1] == "--no-graphics"@,
        start_args(vm_name, shares).last() == vm_name,
        0 <= i < shares.len() && shares[i].read_only ==> start_args(vm_name, shares)[i + 2]
            == "--dir="@ + (shares[i].host_path + ":ro,tag="@ + shares[i].tag),
        0 <= i < shares.len() && !shares[i].read_only ==> start_args(vm_name, shares)[i + 2]
            == "--dir="@ + (shares[i].host_path + ":tag="@ + shares[i].tag),
{
}

/// Error output is shown without the white space around it, and what lies beyond the
/// first 4096 bytes makes no difference.
pub proof fn error_output_is_cut(bytes: Seq<u8>, more: Seq<u8>)
    ensures
        bytes.len() <= 4096 ==> excerpt(bytes) == trimmed(lossy_text(bytes)),
        bytes.len() == 4096 ==> excerpt(bytes + more) == excerpt(bytes),
{
    if bytes.len() == 4096 {
        assert((bytes + more).take(4096) =~= bytes);
        assert(bytes + more == bytes || (bytes + more).len() > 4096) by {
            if more.len() == 0 {
                assert(bytes + more =~= bytes);
            }
        }
    }
}

/// A helper command gives a key exactly where it succeeds and prints some text other
/// than white space: that text, without the white space around it. A helper that fails
/// never gives one.
pub proof fn helper_keys_are_printed(
    success: bool,
    stdout: Vec<u8>,
    stderr: Vec<u8>,
    key: Seq<char>,
)
    ensures
        ({
            let r = helper_result(HelperOutcome::Exited { success, stdout, stderr });
            let text = trimmed(decode_utf8(stdout@));
            &&& r == Ok::<Seq<char>, Seq<char>>(key) <==> success && valid_utf8(stdout@)
                && key.len() > 0 && text == key
            &&& !success ==> r == Err::<Seq<char>, Seq<char>>(
                "apiKeyHelper exited non-zero: "@ + trimmed(lossy_text(stderr@)),
            )
            &&& success && !valid_utf8(stdout@) ==> r == Err::<Seq<char>, Seq<char>>(
                "apiKeyHelper output not UTF-8"@,
            )
            &&& success && valid_utf8(stdout@) && text.len() == 0 ==> r == Err::<
                Seq<char>,
                Seq<char>,
            >("apiKeyHelper returned empty output"@)
        }),
        helper_result(HelperOutcome::NotRun) == Err::<Seq<char>, Seq<char>>(
            "failed to run apiKeyHelper"@,
        ),
{
}

/// The sources of the API key have an order: where there is a helper, neither the
/// environment nor the keychain makes a difference, and its error is the error; else the
/// environment's key is taken as it is; else the keychain's, without the white space
/// around it, where the keychain's answer is a key, which starts with `sk-`.
pub proof fn key_sources_have_an_order(
    outcome: HelperOutcome,
    environment: Option<Seq<char>>,
    key: Seq<char>,
    keychain: Option<KeychainAnswer>,
    answer: KeychainAnswer,
)
    ensures
        match helper_result(outcome) {
            Ok(k) => resolved_key(Some(outcome), environment, keychain) == Ok::<
                Option<Seq<char>>,
                Seq<char>,
            >(Some(k)),
            Err(e) => resolved_key(Some(outcome), environment, keychain) == Err::<
                Option<Seq<char>>,
                Seq<char>,
            >(e),
        },
        resolved_key(None, Some(key), keychain) == Ok::<Option<Seq<char>>, Seq<char>>(Some(key)),
        resolved_key(None, None, None) == Ok::<Option<Seq<char>>, Seq<char>>(None),
        resolved_key(None, None, Some(answer)) is Ok,
        (resolved_key(None, None, Some(answer)) == Ok::<Option<Seq<char>>, Seq<char>>(Some(key)))
            == (answer.success && valid_utf8(answer.stdout@) && trimmed(
            decode_utf8(answer.stdout@),
        ) == key && "sk-"@.is_prefix_of(key)),
        is_keychain_key(answer.success, answer.stdout@) == (answer.success && valid_utf8(
            answer.stdout@,
        ) && "sk-"@.is_prefix_of(trimmed(decode_utf8(answer.stdout@)))),
{
}

/// The agent's files reach a warm clone verbatim: a shell reads the commands that write
/// them with the contents exactly as they were given and at the agent's own places below
/// the home directory, and the directory of the settings is made first.
pub proof fn files_reach_their_places(agent: Seq<char>, content: Seq<char>)
    requires
        is_plain(agent),
    ensures
        shell_words(settings_command(agent, content)) == seq![
            "mkdir"@,
            "-p"@,
            "~/."@ + agent,
            "&&"@,
            "printf"@,
            "%s"@,
            content,
            ">"@,
            "~/."@ + agent + "/settings.json"@,
        ],
        shell_words(state_command(agent, content)) == seq![
            "printf"@,
            "%s"@,
            content,
            ">"@,
            "~/."@ + agent + ".json"@,
        ],
{
    reveal_strlit("~/.");
    reveal_strlit("/settings.json");
    reveal_strlit(".json");
    reveal_strlit("mkdir -p ~/.");
    reveal_strlit("mkdir");
    reveal_strlit("-p");
    reveal_strlit(" && ");
    reveal_strlit("&&");
    let s = seq![' '];
    let dir = "~/."@ + agent;
    let path = "~/."@ + agent + "/settings.json"@;
    content_reaches_the_file(content, "~/."@ + agent + ".json"@);
    lemma_write_reads(content, path);
    lemma_plain_reads("mkdir"@);
    lemma_plain_reads("-p"@);
    lemma_plain_reads(dir);
    lemma_plain_reads("&&"@);
    lemma_reads_in_a_row("mkdir"@, seq!["mkdir"@], "-p"@, seq!["-p"@]);
    let a = "mkdir"@ + s + "-p"@;
    lemma_reads_in_a_row(a, seq!["mkdir"@] + seq!["-p"@], dir, seq![dir]);
    let b = a + s + dir;
    let b_words = seq!["mkdir"@] + seq!["-p"@] + seq![dir];
    lemma_reads_in_a_row(b, b_words, "&&"@, seq!["&&"@]);
    let c = b + s + "&&"@;
    let c_words = b_words + seq!["&&"@];
    let w = write_command(content, path);
    let w_words = seq!["printf"@, "%s"@, content, ">"@, path];
    lemma_reads_in_a_row(c, c_words, w, w_words);
    assert(settings_command(agent, content) =~= c + s + w);
    lemma_words_of(c + s + w, c_words + w_words);
    assert(c_words + w_words =~= seq![
        "mkdir"@,
        "-p"@,
        dir,
        "&&"@,
        "printf"@,
        "%s"@,
        content,
        ">"@,
        path,
    ]);
}

/// A run has the name that is given to it, and else a generated one.
pub proof fn given_names_are_kept(agent: &str, given: &Option<String>, r: String)
    requires
        call_ensures(vm_name, (agent, given), r),
    ensures
        *given matches Some(name) ==> r@ == name@,
        *given is None ==> (agent@ + "-box-"@).is_prefix_of(r@) && !(agent@
            + "-box-warm-"@).is_prefix_of(r@),
{
    if *given is None {
        run_names_are_reapable(agent@, r@);
    }
}

/// The error output of a background process is shown wherever there is any but white space.
pub proof fn error_output_is_shown(bytes: Vec<u8>, r: Option<String>)
    requires
        call_ensures(drain_tart_stderr, (bytes,), r),
        bytes@.len() <= 4096,
    ensures
        r is None <==> trimmed(lossy_text(bytes@)).len() == 0,
        r matches Some(text) ==> text@ == "tart run stderr:\n"@ + trimmed(lossy_text(bytes@)),
{
}

} // verus!
