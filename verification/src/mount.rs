//! VirtioFS shares between host and guest.
use vstd::prelude::*;

use crate::names::{
    agent_dir, agent_tag, below_root, config_tag, guest_agent_dir, guest_config, guest_source,
    product, product_name, source, tool, tool_name, PROJECT_TAG,
};
use crate::paths::{equal_paths, join_path, path_join, same_path};
use crate::text::{cat, decimal, from_utf8_lossy, lossy_text, split, split_on, text_of, texts};
use crate::tools::BinaryDirShare;

verus! {

/// A single VirtioFS directory share between host and guest.
#[derive(Debug, Clone)]
pub struct DirShare {
    /// Absolute path on the host.
    pub host_path: String,
    /// Tag under which the guest mounts the share.
    pub tag: String,
    /// The path where the share will be mounted inside the guest.
    pub guest_mount: String,
    /// Mount read-only in the guest.
    pub read_only: bool,
}

/// A share as plain values.
pub struct ShareView {
    pub host_path: Seq<char>,
    pub tag: Seq<char>,
    pub guest_mount: Seq<char>,
    pub read_only: bool,
}

impl View for DirShare {
    type V = ShareView;

    open spec fn view(&self) -> ShareView {
        ShareView {
            host_path: self.host_path@,
            tag: self.tag@,
            guest_mount: self.guest_mount@,
            read_only: self.read_only,
        }
    }
}

impl DirShare {
    /// Render as the value of the `--dir=` flag of `tart run`: `PATH:tag=TAG`, or
    /// `PATH:ro,tag=TAG` for a read-only share.
    pub fn tart_flag(&self) -> (r: String)
        ensures
            r@ == self.host_path@ + (if self.read_only {
                ":ro,tag="@
            } else {
                ":tag="@
            }) + self.tag@,
    {
        let mut r = self.host_path.clone();
        if self.read_only {
            r.append(":ro,tag=");
        } else {
            r.append(":tag=");
        }
        r.append(self.tag.as_str());
        r
    }
}

/// The project directory: read-write, at the same absolute path.
pub open spec fn project_share(project_dir: Seq<char>) -> ShareView {
    ShareView {
        host_path: project_dir,
        tag: PROJECT_TAG@,
        guest_mount: project_dir,
        read_only: false,
    }
}

/// A directory with allowed binaries: read-only. Its path is shown as text.
pub open spec fn binary_share(agent: Seq<char>, share: BinaryDirShare, i: nat) -> ShareView {
    ShareView {
        host_path: lossy_text(share.host_dir@),
        tag: share.tag@,
        guest_mount: guest_source(agent, i),
        read_only: true,
    }
}

/// The staging directory of the configuration.
pub open spec fn config_share(agent: Seq<char>, dir: Seq<char>) -> ShareView {
    ShareView {
        host_path: dir,
        tag: config_tag(agent),
        guest_mount: guest_config(agent),
        read_only: false,
    }
}

/// The directory with the agent's binary: read-only.
pub open spec fn agent_share(agent: Seq<char>, dir: Seq<char>) -> ShareView {
    ShareView {
        host_path: dir,
        tag: agent_tag(agent),
        guest_mount: guest_agent_dir(agent),
        read_only: true,
    }
}

/// Some shares as plain values.
pub open spec fn share_views(shares: Seq<DirShare>) -> Seq<ShareView> {
    shares.map_values(|s: DirShare| s@)
}

/// The shares of a sandbox run.
pub open spec fn run_shares(
    agent: Seq<char>,
    project_dir: Seq<char>,
    binaries: Seq<BinaryDirShare>,
    config_dir: Option<Seq<char>>,
    agent_dir: Seq<char>,
) -> Seq<ShareView> {
    seq![project_share(project_dir)] + Seq::new(
        binaries.len(),
        |i: int| binary_share(agent, binaries[i], i as nat),
    ) + (match config_dir {
        Some(dir) => seq![config_share(agent, dir)],
        None => seq![],
    }) + seq![agent_share(agent, agent_dir)]
}

/// The share of a project directory.
pub fn share_project(project_dir: &str) -> (r: DirShare)
    ensures
        r@ == project_share(project_dir@),
{
    DirShare {
        host_path: project_dir.to_owned(),
        tag: PROJECT_TAG.to_owned(),
        guest_mount: project_dir.to_owned(),
        read_only: false,
    }
}

/// Build the set of VirtioFS shares for a sandbox run: the project directory, one
/// share per directory with allowed binaries, the configuration if there is any,
/// and the directory with the agent's binary.
pub fn build_shares(
    agent: &str,
    project_dir: &str,
    binary_shares: &Vec<BinaryDirShare>,
    config_staging_dir: &Option<String>,
    claude_bin_dir: &str,
) -> (r: Vec<DirShare>)
    ensures
        share_views(r@) == run_shares(
            agent@,
            project_dir@,
            binary_shares@,
            text_of(*config_staging_dir),
            claude_bin_dir@,
        ),
{
    let mut shares: Vec<DirShare> = Vec::new();
    shares.push(share_project(project_dir));
    let mut i: usize = 0;
    assert(share_views(shares@) == seq![project_share(project_dir@)] + Seq::<ShareView>::empty());
    while i < binary_shares.len()
        invariant
            i <= binary_shares.len(),
            share_views(shares@) == seq![project_share(project_dir@)] + Seq::new(
                i as nat,
                |k: int| binary_share(agent@, binary_shares@[k], k as nat),
            ),
        decreases binary_shares.len() - i,
    {
        let ghost before = share_views(shares@);
        let share = DirShare {
            host_path: from_utf8_lossy(&binary_shares[i].host_dir),
            tag: binary_shares[i].tag.clone(),
            guest_mount: source(agent, i),
            read_only: true,
        };
        assert(share@ == binary_share(agent@, binary_shares@[i as int], i as nat));
        shares.push(share);
        assert(share_views(shares@) == before.push(share@));
        i += 1;
    }
    let ghost front = share_views(shares@);
    if let Some(dir) = config_staging_dir {
        let share = DirShare {
            host_path: dir.clone(),
            tag: cat(agent, "-box-config"),
            guest_mount: below_root(agent, "/config"),
            read_only: false,
        };
        assert(share@ == config_share(agent@, dir@));
        shares.push(share);
        assert(share_views(shares@) == front.push(share@));
    }
    let ghost middle = share_views(shares@);
    let mut tag = cat(agent, "-box-");
    tag.append(agent);
    let share = DirShare {
        host_path: claude_bin_dir.to_owned(),
        tag,
        guest_mount: agent_dir(agent),
        read_only: true,
    };
    assert(share@ == agent_share(agent@, claude_bin_dir@));
    shares.push(share);
    assert(share_views(shares@) == middle.push(share@));
    shares
}

// ---------------------------------------------------------------------------
// The agent's binary
// ---------------------------------------------------------------------------

/// The places where the agent's binary is looked for: one per entry of `PATH`.
pub open spec fn agent_places(agent: Seq<char>, path_var: Seq<char>) -> Seq<Seq<char>> {
    split_on(path_var, ':').map_values(|entry: Seq<char>| path_join(entry, agent))
}

/// The places where the agent's binary is looked for: one per entry of `PATH`.
pub fn claude_candidates(agent: &str, path_var: &str) -> (r: Vec<String>)
    ensures
        texts(r@) == agent_places(agent@, path_var@),
{
    let entries = split(path_var, ':');
    let mut r: Vec<String> = Vec::new();
    let mut i: usize = 0;
    while i < entries.len()
        invariant
            i <= entries.len(),
            texts(entries@) == split_on(path_var@, ':'),
            r.len() == i,
            forall|j: int|
                0 <= j < i ==> (#[trigger] r@[j])@ == path_join(texts(entries@)[j], agent@),
        decreases entries.len() - i,
    {
        assert(texts(entries@)[i as int] == entries@[i as int]@);
        r.push(join_path(entries[i].as_str(), agent));
        i += 1;
    }
    assert(texts(r@).len() == texts(entries@).len());
    assert(texts(r@) =~= agent_places(agent@, path_var@));
    r
}

/// Whether the place number `i` holds the agent: something is there, and it is not
/// the tool itself.
pub open spec fn holds_agent(resolved: Seq<Option<String>>, own_exe: Seq<char>, i: int) -> bool {
    resolved[i] matches Some(p) && !equal_paths(p@, own_exe)
}

/// The index of the first place that holds the agent, or the number of places.
pub open spec fn agent_index(resolved: Seq<Option<String>>, own_exe: Seq<char>) -> int
    decreases resolved.len(),
{
    if resolved.len() == 0 || holds_agent(resolved, own_exe, 0) {
        0
    } else {
        1 + agent_index(resolved.skip(1), own_exe)
    }
}

proof fn lemma_agent_index(resolved: Seq<Option<String>>, own_exe: Seq<char>, i: int)
    requires
        0 <= i <= resolved.len(),
        forall|j: int| 0 <= j < i ==> !#[trigger] holds_agent(resolved, own_exe, j),
        i < resolved.len() ==> holds_agent(resolved, own_exe, i),
    ensures
        agent_index(resolved, own_exe) == i,
    decreases resolved.len(),
{
    if i > 0 {
        let rest = resolved.skip(1);
        assert(!holds_agent(resolved, own_exe, 0));
        assert forall|j: int| 0 <= j < i - 1 implies !#[trigger] holds_agent(rest, own_exe, j) by {
            assert(!holds_agent(resolved, own_exe, j + 1));
        }
        lemma_agent_index(rest, own_exe, i - 1);
    }
}

/// The error where no place holds the agent.
pub open spec fn no_agent_error(agent: Seq<char>) -> Seq<char> {
    "could not find '"@ + agent + "' binary on PATH — install "@ + product_name(agent)
        + " alongside "@ + tool_name(agent)
}

/// Find the real agent binary on `PATH` (not the tool itself): the first place that
/// holds one. Each place is given by its canonical path if something is there, and so
/// is the running executable, so that a symlink to the tool is told from the agent.
pub fn find_claude_binary(
    agent: &str,
    resolved: &Vec<Option<String>>,
    own_exe: &str,
) -> (r: Result<String, String>)
    ensures
        ({
            let i = agent_index(resolved@, own_exe@);
            if i < resolved.len() {
                r matches Ok(path) && Some(path@) == text_of(resolved@[i])
            } else {
                r matches Err(e) && e@ == no_agent_error(agent@)
            }
        }),
{
    let mut i: usize = 0;
    while i < resolved.len()
        invariant
            i <= resolved.len(),
            forall|j: int| 0 <= j < i ==> !#[trigger] holds_agent(resolved@, own_exe@, j),
        decreases resolved.len() - i,
    {
        if let Some(path) = &resolved[i] {
            if !same_path(path.as_str(), own_exe) {
                proof {
                    assert(holds_agent(resolved@, own_exe@, i as int));
                    lemma_agent_index(resolved@, own_exe@, i as int);
                }
                return Ok(path.clone());
            }
        }
        i += 1;
    }
    proof {
        lemma_agent_index(resolved@, own_exe@, resolved@.len() as int);
    }
    let mut e = cat("could not find '", agent);
    e.append("' binary on PATH — install ");
    e.append(product(agent).as_str());
    e.append(" alongside ");
    e.append(tool(agent).as_str());
    Err(e)
}

// ---------------------------------------------------------------------------
// Laws
// ---------------------------------------------------------------------------

/// The tool is never taken for the agent, and no agent is overlooked: what is found
/// is a path other than that of the running executable, every place before it holds
/// nothing or the tool, and where nothing is found that is so of all places.
pub proof fn tool_is_never_taken_for_the_agent(resolved: Seq<Option<String>>, own_exe: Seq<char>)
    ensures
        ({
            let i = agent_index(resolved, own_exe);
            &&& 0 <= i <= resolved.len()
            &&& i < resolved.len() ==> (resolved[i] matches Some(p) && !equal_paths(p@, own_exe))
            &&& forall|j: int|
                0 <= j < i ==> ((#[trigger] resolved[j]) matches Some(p) ==> equal_paths(
                    p@,
                    own_exe,
                ))
        }),
    decreases resolved.len(),
{
    if resolved.len() > 0 && !holds_agent(resolved, own_exe, 0) {
        let rest = resolved.skip(1);
        tool_is_never_taken_for_the_agent(rest, own_exe);
        assert forall|j: int| 0 <= j < agent_index(resolved, own_exe) implies ((
        #[trigger] resolved[j]) matches Some(p) ==> equal_paths(p@, own_exe)) by {
            if j > 0 {
                assert(rest[j - 1] == resolved[j]);
            }
        }
    }
}

/// The shares of a run: the project at its own path, to be written; each directory with
/// allowed binaries at a numbered place, to be read only; the staged configuration, where
/// there is any; and the directory of the agent, to be read only. No other directory of
/// the host is shared.
pub proof fn run_shares_these_directories(
    agent: Seq<char>,
    project_dir: Seq<char>,
    binaries: Seq<BinaryDirShare>,
    config_dir: Option<Seq<char>>,
    agent_dir: Seq<char>,
    i: int,
)
    ensures
        ({
            let all = run_shares(agent, project_dir, binaries, config_dir, agent_dir);
            let root = "/opt/"@ + agent + "-box"@;
            let n = binaries.len();
            &&& all.len() == n + (if config_dir is Some {
                3int
            } else {
                2
            })
            &&& all[0] == (ShareView {
                host_path: project_dir,
                tag: "project"@,
                guest_mount: project_dir,
                read_only: false,
            })
            &&& 0 <= i < n ==> all[i + 1] == (ShareView {
                host_path: lossy_text(binaries[i].host_dir@),
                tag: binaries[i].tag@,
                guest_mount: root + "/src-"@ + decimal(i as nat),
                read_only: true,
            })
            &&& config_dir matches Some(dir) ==> all[n as int + 1] == (ShareView {
                host_path: dir,
                tag: agent + "-box-config"@,
                guest_mount: root + "/config"@,
                read_only: false,
            })
            &&& all.last() == (ShareView {
                host_path: agent_dir,
                tag: agent + "-box-"@ + agent,
                guest_mount: root + "/"@ + agent,
                read_only: true,
            })
        }),
{
}

/// The agent is looked for in every entry of `PATH`, in their order.
pub proof fn agent_is_looked_for_in_every_entry(
    agent: Seq<char>,
    entry: Seq<char>,
    rest: Seq<char>,
)
    requires
        !entry.contains(':'),
    ensures
        agent_places(agent, entry) == seq![path_join(entry, agent)],
        agent_places(agent, entry + seq![':'] + rest) == seq![path_join(entry, agent)]
            + agent_places(agent, rest),
{
    crate::text::split_takes_apart(entry, ':', rest);
    assert(agent_places(agent, entry) =~= seq![path_join(entry, agent)]);
    assert(agent_places(agent, entry + seq![':'] + rest) =~= seq![path_join(entry, agent)]
        + agent_places(agent, rest));
}

/// Shares are seen as they are, one by one and in their order.
pub proof fn shares_are_seen_as_they_are(shares: Seq<DirShare>, i: int)
    ensures
        share_views(shares).len() == shares.len(),
        0 <= i < shares.len() ==> {
            &&& share_views(shares)[i].host_path == shares[i].host_path@
            &&& share_views(shares)[i].tag == shares[i].tag@
            &&& share_views(shares)[i].guest_mount == shares[i].guest_mount@
            &&& share_views(shares)[i].read_only == shares[i].read_only
        },
{
}

/// Where the agent is not found, the error tells what to install, and beside what.
pub proof fn missing_agent_is_named(agent: Seq<char>)
    ensures
        no_agent_error(agent) == "could not find '"@ + agent + "' binary on PATH — install "@
            + product_name(agent) + " alongside "@ + (agent + "-box"@),
{
}

/// What is found for the agent is the first of the places at which something other than
/// the tool itself is, given as it is; where there is none, there is an error.
pub proof fn first_agent_is_found(
    agent: &str,
    resolved: &Vec<Option<String>>,
    own_exe: &str,
    r: Result<String, String>,
    i: int,
)
    requires
        call_ensures(find_claude_binary, (agent, resolved, own_exe), r),
        0 <= i <= resolved.len(),
        forall|j: int|
            0 <= j < i ==> ((#[trigger] resolved@[j]) matches Some(p) ==> equal_paths(
                p@,
                own_exe@,
            )),
    ensures
        i == resolved.len() ==> r is Err,
        i < resolved.len() ==> (resolved@[i] matches Some(p) ==> !equal_paths(p@, own_exe@)
            ==> (r matches Ok(path) && path@ == p@)),
{
    if i == resolved.len() || (resolved@[i] matches Some(p) && !equal_paths(p@, own_exe@)) {
        assert forall|j: int| 0 <= j < i implies !#[trigger] holds_agent(resolved@, own_exe@, j) by {
            assert(resolved@[j] == resolved@[j]);
        }
        lemma_agent_index(resolved@, own_exe@, i);
    }
}

} // verus!
