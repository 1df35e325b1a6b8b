//! What is done in a guest before the agent is run.
use vstd::prelude::*;

use crate::agent::{extra_dirs, extra_path};
use crate::mount::{share_views, DirShare, ShareView};
use crate::names::{
    agent_path, below_root, guest_agent, guest_bin, guest_source, source, staged, staged_state,
};
use crate::text::{cat, decimal, signed_decimal, signed_text};
use crate::tools::BinaryDirShare;

verus! {

/// A command for the guest.
pub struct GuestCommand {
    /// The command line.
    pub command: String,
    /// What the error is about if the exit code is not 0; `None` where the exit code
    /// makes no difference.
    pub failure: Option<String>,
}

/// A command for the guest as plain values.
pub struct CommandView {
    pub command: Seq<char>,
    pub failure: Option<Seq<char>>,
}

impl View for GuestCommand {
    type V = CommandView;

    open spec fn view(&self) -> CommandView {
        CommandView {
            command: self.command@,
            failure: match self.failure {
                Some(s) => Some(s@),
                None => None,
            },
        }
    }
}

/// Some commands as plain values.
pub open spec fn command_views(commands: Seq<GuestCommand>) -> Seq<CommandView> {
    commands.map_values(|c: GuestCommand| c@)
}

impl GuestCommand {
    /// What the exit code of the command means: success, or an error with its text.
    pub fn check(&self, code: i32) -> (r: Result<(), String>)
        ensures
            r is Ok == (code == 0 || self.failure is None),
            r matches Err(e) ==> e@ == (self@.failure->0) + " exited "@ + signed_decimal(
                code as int,
            ),
    {
        match &self.failure {
            None => Ok(()),
            Some(what) => {
                if code == 0 {
                    return Ok(());
                }
                let mut e = cat(what.as_str(), " exited ");
                e.append(signed_text(code).as_str());
                Err(e)
            },
        }
    }
}

/// The commands that mount a share at its place in the guest.
pub open spec fn mount_commands(share: ShareView) -> Seq<CommandView> {
    seq![
        CommandView {
            command: "sudo mkdir -p '"@ + share.guest_mount + "'"@,
            failure: Some("mkdir -p "@ + share.guest_mount),
        },
        CommandView {
            command: "sudo mount_virtiofs '"@ + share.tag + "' '"@ + share.guest_mount + "'"@,
            failure: Some("mount_virtiofs "@ + share.tag + " -> "@ + share.guest_mount),
        },
    ]
}

/// The commands that mount all shares.
pub open spec fn mount_all(shares: Seq<ShareView>) -> Seq<CommandView>
    decreases shares.len(),
{
    if shares.len() == 0 {
        seq![]
    } else {
        mount_all(shares.drop_last()) + mount_commands(shares.last())
    }
}

/// The command that links the agent to the place where it looks for itself.
pub open spec fn link_command(agent: Seq<char>) -> CommandView {
    CommandView {
        command: "mkdir -p ~/.local/bin && ln -sf "@ + guest_agent(agent) + " ~/.local/bin/"@
            + agent,
        failure: None,
    }
}

/// The command that makes every zsh of the guest extend its `PATH`.
pub open spec fn path_command(agent: Seq<char>, binaries: bool) -> CommandView {
    CommandView {
        command: "echo 'export PATH="@ + extra_path(agent, binaries) + ":$PATH' >> ~/.zshenv"@,
        failure: None,
    }
}

/// The commands that copy the agent's configuration from where it is mounted.
pub open spec fn config_commands(agent: Seq<char>, config: Seq<char>) -> Seq<CommandView> {
    let settings = config + "/settings.json"@;
    let state = config + "/"@ + staged_state(agent);
    seq![
        CommandView {
            command: "if [ -f '"@ + settings + "' ]; then mkdir -p ~/."@ + agent + " && cp '"@
                + settings + "' ~/."@ + agent + "/settings.json; fi"@,
            failure: None,
        },
        CommandView {
            command: "if [ -f '"@ + state + "' ]; then cp '"@ + state + "' ~/."@ + agent
                + ".json; fi"@,
            failure: None,
        },
    ]
}

/// The command that links one allowed binary into the symlink farm.
pub open spec fn farm_link(agent: Seq<char>, i: nat, name: Seq<char>, file: Seq<char>) -> CommandView {
    let src = guest_source(agent, i) + "/"@ + file;
    let dst = guest_bin(agent) + "/"@ + name;
    CommandView {
        command: "sudo ln -sf '"@ + src + "' '"@ + dst + "'"@,
        failure: Some("ln -sf "@ + src + " "@ + dst),
    }
}

/// How many binaries a share offers.
pub open spec fn offered(share: BinaryDirShare) -> nat {
    if share.names.len() < share.canonical_filenames.len() {
        share.names.len() as nat
    } else {
        share.canonical_filenames.len() as nat
    }
}

/// The commands that link the binaries of the share number `i`.
pub open spec fn farm_links(agent: Seq<char>, i: nat, share: BinaryDirShare) -> Seq<CommandView> {
    Seq::new(
        offered(share),
        |k: int| farm_link(agent, i, share.names@[k]@, share.canonical_filenames@[k]@),
    )
}

/// The commands that link the binaries of all shares.
pub open spec fn all_farm_links(agent: Seq<char>, shares: Seq<BinaryDirShare>) -> Seq<CommandView>
    decreases shares.len(),
{
    if shares.len() == 0 {
        seq![]
    } else {
        all_farm_links(agent, shares.drop_last()) + farm_links(
            agent,
            (shares.len() - 1) as nat,
            shares.last(),
        )
    }
}

/// The commands that build the symlink farm: a plain directory that holds links to
/// the allowed binaries and nothing else.
pub open spec fn farm_commands(agent: Seq<char>, shares: Seq<BinaryDirShare>) -> Seq<CommandView> {
    if shares.len() == 0 {
        seq![]
    } else {
        seq![
            CommandView {
                command: "sudo mkdir -p "@ + guest_bin(agent),
                failure: Some("mkdir "@ + guest_bin(agent)),
            },
        ] + all_farm_links(agent, shares)
    }
}

/// All that is done in a guest before the agent is run.
pub open spec fn setup_commands(
    agent: Seq<char>,
    shares: Seq<ShareView>,
    config: Option<Seq<char>>,
    binaries: Seq<BinaryDirShare>,
) -> Seq<CommandView> {
    mount_all(shares) + seq![link_command(agent), path_command(agent, binaries.len() > 0)] + (
    match config {
        Some(c) => config_commands(agent, c),
        None => seq![],
    }) + farm_commands(agent, binaries)
}

fn plain(command: String) -> (r: GuestCommand)
    ensures
        r@ == (CommandView { command: command@, failure: None }),
{
    GuestCommand { command, failure: None }
}

fn checked(command: String, failure: String) -> (r: GuestCommand)
    ensures
        r@ == (CommandView { command: command@, failure: Some(failure@) }),
{
    GuestCommand { command, failure: Some(failure) }
}

fn push_mounts(r: &mut Vec<GuestCommand>, share: &DirShare)
    ensures
        command_views(final(r)@) == command_views(old(r)@) + mount_commands(share@),
{
    let path = share.guest_mount.as_str();
    let tag = share.tag.as_str();
    let mut mkdir = cat("sudo mkdir -p '", path);
    mkdir.append("'");
    let first = checked(mkdir, cat("mkdir -p ", path));
    let mut mount = cat("sudo mount_virtiofs '", tag);
    mount.append("' '");
    mount.append(path);
    mount.append("'");
    let mut what = cat("mount_virtiofs ", tag);
    what.append(" -> ");
    what.append(path);
    let second = checked(mount, what);
    assert(mount_commands(share@) =~= seq![first@, second@]);
    r.push(first);
    r.push(second);
    assert(command_views(r@) =~= command_views(old(r)@) + seq![first@, second@]);
}

fn push_config(r: &mut Vec<GuestCommand>, agent: &str, config: &str)
    ensures
        command_views(final(r)@) == command_views(old(r)@) + config_commands(agent@, config@),
{
    let settings = cat(config, "/settings.json");
    let mut state = cat(config, "/");
    state.append(staged(agent).as_str());
    let mut copy = cat("if [ -f '", settings.as_str());
    copy.append("' ]; then mkdir -p ~/.");
    copy.append(agent);
    copy.append(" && cp '");
    copy.append(settings.as_str());
    copy.append("' ~/.");
    copy.append(agent);
    copy.append("/settings.json; fi");
    let first = plain(copy);
    let mut copy = cat("if [ -f '", state.as_str());
    copy.append("' ]; then cp '");
    copy.append(state.as_str());
    copy.append("' ~/.");
    copy.append(agent);
    copy.append(".json; fi");
    let second = plain(copy);
    assert(config_commands(agent@, config@) =~= seq![first@, second@]);
    r.push(first);
    r.push(second);
    assert(command_views(r@) =~= command_views(old(r)@) + seq![first@, second@]);
}

fn push_links(r: &mut Vec<GuestCommand>, agent: &str, i: usize, share: &BinaryDirShare)
    ensures
        command_views(final(r)@) == command_views(old(r)@) + farm_links(agent@, i as nat, *share),
{
    let ghost before = command_views(r@);
    let ghost links = farm_links(agent@, i as nat, *share);
    let mut k: usize = 0;
    assert(before + links.take(0) == before);
    while k < share.names.len() && k < share.canonical_filenames.len()
        invariant
            k <= share.names.len(),
            k <= share.canonical_filenames.len(),
            links == farm_links(agent@, i as nat, *share),
            command_views(r@) == before + links.take(k as int),
        decreases share.names.len() - k,
    {
        let mut src = source(agent, i);
        src.append("/");
        src.append(share.canonical_filenames[k].as_str());
        let mut dst = below_root(agent, "/bin");
        dst.append("/");
        dst.append(share.names[k].as_str());
        let mut command = cat("sudo ln -sf '", src.as_str());
        command.append("' '");
        command.append(dst.as_str());
        command.append("'");
        let mut what = cat("ln -sf ", src.as_str());
        what.append(" ");
        what.append(dst.as_str());
        let link = checked(command, what);
        assert(link@ == links[k as int]);
        let ghost so_far = command_views(r@);
        r.push(link);
        assert(command_views(r@) =~= so_far.push(link@));
        assert(links.take(k + 1) =~= links.take(k as int).push(links[k as int]));
        k += 1;
    }
    assert(links.take(k as int) =~= links);
}

/// All guest-side setup after SSH is ready: mount each VirtioFS share at its place,
/// link the agent to where it looks for itself, extend the `PATH`, copy the
/// configuration if it is mounted, and build the symlink farm for allowed binaries.
pub fn setup_guest(
    agent: &str,
    shares: &Vec<DirShare>,
    mcp_config_path: &Option<String>,
    binary_shares: &Vec<BinaryDirShare>,
) -> (r: Vec<GuestCommand>)
    ensures
        command_views(r@) == setup_commands(
            agent@,
            share_views(shares@),
            crate::text::text_of(*mcp_config_path),
            binary_shares@,
        ),
{
    let mut r: Vec<GuestCommand> = Vec::new();
    let ghost views = share_views(shares@);
    let mut i: usize = 0;
    assert(command_views(r@) =~= mount_all(views.take(0)));
    while i < shares.len()
        invariant
            i <= shares.len(),
            views == share_views(shares@),
            command_views(r@) == mount_all(views.take(i as int)),
        decreases shares.len() - i,
    {
        assert(views.take(i + 1).drop_last() =~= views.take(i as int));
        assert(views.take(i + 1).last() == shares@[i as int]@);
        push_mounts(&mut r, &shares[i]);
        i += 1;
    }
    assert(views.take(i as int) =~= views);
    let ghost mounts = command_views(r@);
    let mut command = cat("mkdir -p ~/.local/bin && ln -sf ", agent_path(agent).as_str());
    command.append(" ~/.local/bin/");
    command.append(agent);
    let link = plain(command);
    assert(link@ == link_command(agent@));
    let binaries = binary_shares.len() > 0;
    let mut command = cat("echo 'export PATH=", extra_dirs(agent, binaries).as_str());
    command.append(":$PATH' >> ~/.zshenv");
    let path = plain(command);
    assert(path@ == path_command(agent@, binaries));
    r.push(link);
    r.push(path);
    assert(command_views(r@) =~= mounts + seq![link@, path@]);
    if let Some(config) = mcp_config_path {
        push_config(&mut r, agent, config.as_str());
    }
    let ghost front = command_views(r@);
    assert(front =~= mounts + seq![link@, path@] + (match crate::text::text_of(*mcp_config_path) {
        Some(c) => config_commands(agent@, c),
        None => seq![],
    }));
    if binary_shares.len() > 0 {
        let bin = below_root(agent, "/bin");
        let mkdir = checked(cat("sudo mkdir -p ", bin.as_str()), cat("mkdir ", bin.as_str()));
        r.push(mkdir);
        let ghost made = front.push(mkdir@);
        assert(command_views(r@) =~= made);
        let mut i: usize = 0;
        assert(made + all_farm_links(agent@, binary_shares@.take(0)) =~= made);
        while i < binary_shares.len()
            invariant
                i <= binary_shares.len(),
                command_views(r@) == made + all_farm_links(agent@, binary_shares@.take(i as int)),
            decreases binary_shares.len() - i,
        {
            let ghost next = binary_shares@.take(i + 1);
            assert(next.drop_last() =~= binary_shares@.take(i as int));
            assert(next.last() == binary_shares@[i as int]);
            push_links(&mut r, agent, i, &binary_shares[i]);
            assert(command_views(r@) =~= made + all_farm_links(agent@, next));
            i += 1;
        }
        assert(binary_shares@.take(i as int) =~= binary_shares@);
        assert(command_views(r@) =~= front + farm_commands(agent@, binary_shares@));
    } else {
        assert(command_views(r@) =~= front + farm_commands(agent@, binary_shares@));
    }
    r
}

// ---------------------------------------------------------------------------
// Laws
// ---------------------------------------------------------------------------

/// Every share is mounted: for each, in the order in which the shares are given, its
/// place in the guest is made and its tag is mounted there, and no command does anything
/// else. A mount that fails is an error.
pub proof fn every_share_is_mounted(shares: Seq<ShareView>, i: int)
    requires
        0 <= i < shares.len(),
    ensures
        mount_all(shares).len() == 2 * shares.len(),
        mount_all(shares)[2 * i] == (CommandView {
            command: "sudo mkdir -p '"@ + shares[i].guest_mount + "'"@,
            failure: Some("mkdir -p "@ + shares[i].guest_mount),
        }),
        mount_all(shares)[2 * i + 1] == (CommandView {
            command: "sudo mount_virtiofs '"@ + shares[i].tag + "' '"@ + shares[i].guest_mount
                + "'"@,
            failure: Some(
                "mount_virtiofs "@ + shares[i].tag + " -> "@ + shares[i].guest_mount,
            ),
        }),
    decreases shares.len(),
{
    let short = shares.drop_last();
    if short.len() > 0 {
        every_share_is_mounted(
            short,
            if i < short.len() {
                i
            } else {
                0
            },
        );
    }
    assert(mount_all(short).len() == 2 * short.len());
    if i < short.len() {
        assert(short[i] == shares[i]);
        assert(mount_all(shares)[2 * i] == mount_all(short)[2 * i]);
        assert(mount_all(shares)[2 * i + 1] == mount_all(short)[2 * i + 1]);
    }
}

/// The symlink farm enforces the allowlist: every link in it exposes a name that one
/// of the shares lists, and points to the file that the share lists for it.
pub proof fn farm_exposes_listed_names(agent: Seq<char>, shares: Seq<BinaryDirShare>, n: int)
    requires
        0 <= n < all_farm_links(agent, shares).len(),
    ensures
        exists|i: int, k: int|
            0 <= i < shares.len() && 0 <= k < shares[i].names.len() && k
                < shares[i].canonical_filenames.len() && ({
                let src = "/opt/"@ + agent + "-box"@ + "/src-"@ + decimal(i as nat) + "/"@ + (
                #[trigger] shares[i].canonical_filenames@[k])@;
                let dst = "/opt/"@ + agent + "-box"@ + "/bin"@ + "/"@ + shares[i].names@[k]@;
                all_farm_links(agent, shares)[n] == CommandView {
                    command: "sudo ln -sf '"@ + src + "' '"@ + dst + "'"@,
                    failure: Some("ln -sf "@ + src + " "@ + dst),
                }
            }),
    decreases shares.len(),
{
    let front = all_farm_links(agent, shares.drop_last());
    let last = shares.len() - 1;
    if n < front.len() {
        let short = shares.drop_last();
        farm_exposes_listed_names(agent, short, n);
        let (i, k) = choose|i: int, k: int|
            0 <= i < short.len() && 0 <= k < short[i].names.len() && k
                < short[i].canonical_filenames.len() && ({
                let src = "/opt/"@ + agent + "-box"@ + "/src-"@ + decimal(i as nat) + "/"@ + (
                #[trigger] short[i].canonical_filenames@[k])@;
                let dst = "/opt/"@ + agent + "-box"@ + "/bin"@ + "/"@ + short[i].names@[k]@;
                front[n] == CommandView {
                    command: "sudo ln -sf '"@ + src + "' '"@ + dst + "'"@,
                    failure: Some("ln -sf "@ + src + " "@ + dst),
                }
            });
        assert(shares[i].canonical_filenames@[k] == short[i].canonical_filenames@[k]);
    } else {
        let k = n - front.len();
        let share = shares[last];
        assert(all_farm_links(agent, shares)[n] == farm_links(agent, last as nat, share)[k]);
        assert(share.canonical_filenames@[k] == shares[last].canonical_filenames@[k]);
    }
}

/// The symlink farm is complete: every name that a share lists with a file is linked to
/// that file.
pub proof fn every_listed_name_is_linked(
    agent: Seq<char>,
    shares: Seq<BinaryDirShare>,
    i: int,
    k: int,
)
    requires
        0 <= i < shares.len(),
        0 <= k < shares[i].names.len(),
        k < shares[i].canonical_filenames.len(),
    ensures
        ({
            let src = "/opt/"@ + agent + "-box"@ + "/src-"@ + decimal(i as nat) + "/"@
                + shares[i].canonical_filenames@[k]@;
            let dst = "/opt/"@ + agent + "-box"@ + "/bin"@ + "/"@ + shares[i].names@[k]@;
            all_farm_links(agent, shares).contains(
                CommandView {
                    command: "sudo ln -sf '"@ + src + "' '"@ + dst + "'"@,
                    failure: Some("ln -sf "@ + src + " "@ + dst),
                },
            )
        }),
    decreases shares.len(),
{
    let short = shares.drop_last();
    let front = all_farm_links(agent, short);
    let all = all_farm_links(agent, shares);
    let src = "/opt/"@ + agent + "-box"@ + "/src-"@ + decimal(i as nat) + "/"@
        + shares[i].canonical_filenames@[k]@;
    let dst = "/opt/"@ + agent + "-box"@ + "/bin"@ + "/"@ + shares[i].names@[k]@;
    let link = CommandView {
        command: "sudo ln -sf '"@ + src + "' '"@ + dst + "'"@,
        failure: Some("ln -sf "@ + src + " "@ + dst),
    };
    if i < short.len() {
        assert(short[i] == shares[i]);
        every_listed_name_is_linked(agent, short, i, k);
        let n = choose|n: int| 0 <= n < front.len() && front[n] == link;
        assert(all[n] == link);
    } else {
        assert(farm_links(agent, i as nat, shares[i])[k] == link);
        assert(all[front.len() + k] == link);
    }
}

/// The guest is set up in this order: the mounts, the link to the agent at the place
/// where the agent looks for itself, the `PATH`, the configuration where it is mounted,
/// and the symlink farm where binaries are shared. Only a mount or a link of the farm
/// that fails is an error.
pub proof fn setup_goes_in_order(
    agent: Seq<char>,
    shares: Seq<ShareView>,
    config: Option<Seq<char>>,
    binaries: Seq<BinaryDirShare>,
)
    ensures
        ({
            let all = setup_commands(agent, shares, config, binaries);
            let root = "/opt/"@ + agent + "-box"@;
            let n = mount_all(shares).len() as int;
            let m = n + 2 + (if config is Some {
                2int
            } else {
                0
            });
            let links = all_farm_links(agent, binaries);
            &&& all.len() == m + (if binaries.len() > 0 {
                1 + links.len()
            } else {
                0
            })
            &&& all.take(n) == mount_all(shares)
            &&& all[n] == (CommandView {
                command: "mkdir -p ~/.local/bin && ln -sf "@ + (root + "/"@ + agent + "/"@ + agent)
                    + " ~/.local/bin/"@ + agent,
                failure: None,
            })
            &&& binaries.len() == 0 ==> all[n + 1] == (CommandView {
                command: "echo 'export PATH="@ + "$HOME/.local/bin"@ + ":$PATH' >> ~/.zshenv"@,
                failure: None,
            })
            &&& binaries.len() > 0 ==> all[n + 1] == (CommandView {
                command: "echo 'export PATH="@ + ("$HOME/.local/bin:"@ + (root + "/bin"@))
                    + ":$PATH' >> ~/.zshenv"@,
                failure: None,
            })
            &&& config matches Some(c) ==> all[n + 2] == (CommandView {
                command: "if [ -f '"@ + (c + "/settings.json"@) + "' ]; then mkdir -p ~/."@ + agent
                    + " && cp '"@ + (c + "/settings.json"@) + "' ~/."@ + agent
                    + "/settings.json; fi"@,
                failure: None,
            })
            &&& config matches Some(c) ==> all[n + 3] == (CommandView {
                command: "if [ -f '"@ + (c + "/"@ + (agent + ".json"@)) + "' ]; then cp '"@ + (c
                    + "/"@ + (agent + ".json"@)) + "' ~/."@ + agent + ".json; fi"@,
                failure: None,
            })
            &&& binaries.len() > 0 ==> all[m] == (CommandView {
                command: "sudo mkdir -p "@ + (root + "/bin"@),
                failure: Some("mkdir "@ + (root + "/bin"@)),
            }) && all.skip(m + 1) == links
        }),
{
    let all = setup_commands(agent, shares, config, binaries);
    let n = mount_all(shares).len() as int;
    let m = n + 2 + (if config is Some {
        2int
    } else {
        0
    });
    assert(all.take(n) =~= mount_all(shares));
    if binaries.len() > 0 {
        assert(all.skip(m + 1) =~= all_farm_links(agent, binaries));
    }
}

/// Commands are seen as they are, one by one and in their order.
pub proof fn commands_are_seen_as_they_are(commands: Seq<GuestCommand>, i: int)
    ensures
        command_views(commands).len() == commands.len(),
        0 <= i < commands.len() ==> command_views(commands)[i].command == commands[i].command@,
        0 <= i < commands.len() ==> match commands[i].failure {
            Some(s) => command_views(commands)[i].failure == Some(s@),
            None => command_views(commands)[i].failure is None,
        },
{
}

/// A command whose failure matters fails with any exit code other than 0, and any other
/// command never does.
pub proof fn exit_codes_matter(command: &GuestCommand, code: i32, r: Result<(), String>)
    requires
        call_ensures(GuestCommand::check, (command, code), r),
    ensures
        r is Err <==> code != 0 && command.failure is Some,
        r matches Err(e) ==> command.failure matches Some(what) && e@ == what@ + " exited "@
            + signed_decimal(code as int),
{
}

} // verus!
