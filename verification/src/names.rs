//! The names that follow from the name of the agent: its files on the host, its
//! places in a guest, and the VMs and shares that belong to it.
use vstd::prelude::*;

use crate::text::{cat, chars_of, decimal, decimal_text, string_of};

verus! {

/// The tag of the share that holds the project.
pub const PROJECT_TAG: &'static str = "project";

/// The name of the tool that boxes the agent in, which is also its directory
/// below `~/.cache`.
pub open spec fn tool_name(agent: Seq<char>) -> Seq<char> {
    agent + "-box"@
}

/// The full name of the agent: its command name with an ASCII capital, followed by
/// `Code`.
pub open spec fn product_name(agent: Seq<char>) -> Seq<char> {
    (if agent.len() > 0 && 'a' <= agent[0] <= 'z' {
        seq![(agent[0] as u8 - 0x20) as u8 as char] + agent.skip(1)
    } else {
        agent
    }) + " Code"@
}

/// What the names of all VMs of the tool start with.
pub open spec fn vm_prefix(agent: Seq<char>) -> Seq<char> {
    agent + "-box-"@
}

/// What the names of the VMs of the warm pool start with.
pub open spec fn warm_prefix(agent: Seq<char>) -> Seq<char> {
    agent + "-box-warm-"@
}

/// The directory of the agent's settings, below the home directory.
pub open spec fn settings_dir(agent: Seq<char>) -> Seq<char> {
    "."@ + agent
}

/// The agent's state file, below the home directory.
pub open spec fn state_file(agent: Seq<char>) -> Seq<char> {
    "."@ + agent + ".json"@
}

/// The name of the agent's state file in a staging directory.
pub open spec fn staged_state(agent: Seq<char>) -> Seq<char> {
    agent + ".json"@
}

/// The directory in a guest that holds everything of the tool.
pub open spec fn guest_root(agent: Seq<char>) -> Seq<char> {
    "/opt/"@ + agent + "-box"@
}

/// Where the symlinks to the allowed binaries stand in a guest.
pub open spec fn guest_bin(agent: Seq<char>) -> Seq<char> {
    guest_root(agent) + "/bin"@
}

/// Where the binary share number `i` is mounted in a guest.
pub open spec fn guest_source(agent: Seq<char>, i: nat) -> Seq<char> {
    guest_root(agent) + "/src-"@ + decimal(i)
}

/// Where the configuration share is mounted in a guest.
pub open spec fn guest_config(agent: Seq<char>) -> Seq<char> {
    guest_root(agent) + "/config"@
}

/// Where the directory of the agent's binary is mounted in a guest.
pub open spec fn guest_agent_dir(agent: Seq<char>) -> Seq<char> {
    guest_root(agent) + "/"@ + agent
}

/// The agent's binary in a guest.
pub open spec fn guest_agent(agent: Seq<char>) -> Seq<char> {
    guest_agent_dir(agent) + "/"@ + agent
}

/// The tag of the binary share number `i`.
pub open spec fn binary_tag(agent: Seq<char>, i: nat) -> Seq<char> {
    agent + "-box-bin-"@ + decimal(i)
}

/// The tag of the configuration share.
pub open spec fn config_tag(agent: Seq<char>) -> Seq<char> {
    agent + "-box-config"@
}

/// The tag of the share that holds the agent's binary.
pub open spec fn agent_tag(agent: Seq<char>) -> Seq<char> {
    agent + "-box-"@ + agent
}

/// The name of the tool.
pub fn tool(agent: &str) -> (r: String)
    ensures
        r@ == tool_name(agent@),
{
    cat(agent, "-box")
}

/// The full name of the agent.
pub fn product(agent: &str) -> (r: String)
    ensures
        r@ == product_name(agent@),
{
    let v = chars_of(agent);
    let mut r = String::new();
    if v.len() > 0 && 'a' <= v[0] && v[0] <= 'z' {
        let capital = (v[0] as u8 - 0x20) as char;
        r.push(capital);
        r.append(string_of(&v, 1, v.len()).as_str());
        assert(r@ == seq![capital] + agent@.skip(1));
    } else {
        r.append(agent);
        assert(r@ == agent@);
    }
    r.append(" Code");
    r
}

/// The agent's settings directory, below the home directory.
pub fn settings(agent: &str) -> (r: String)
    ensures
        r@ == settings_dir(agent@),
{
    cat(".", agent)
}

/// The agent's state file, below the home directory.
pub fn state(agent: &str) -> (r: String)
    ensures
        r@ == state_file(agent@),
{
    let mut r = cat(".", agent);
    r.append(".json");
    r
}

/// The name of the agent's state file in a staging directory.
pub fn staged(agent: &str) -> (r: String)
    ensures
        r@ == staged_state(agent@),
{
    cat(agent, ".json")
}

/// A place below the tool's directory in a guest.
pub fn below_root(agent: &str, rest: &str) -> (r: String)
    ensures
        r@ == guest_root(agent@) + rest@,
{
    let mut r = cat("/opt/", agent);
    r.append("-box");
    r.append(rest);
    r
}

/// Where the binary share number `i` is mounted in a guest.
pub fn source(agent: &str, i: usize) -> (r: String)
    ensures
        r@ == guest_source(agent@, i as nat),
{
    let mut r = below_root(agent, "/src-");
    r.append(decimal_text(i as u64).as_str());
    r
}

/// Where the directory of the agent's binary is mounted in a guest.
pub fn agent_dir(agent: &str) -> (r: String)
    ensures
        r@ == guest_agent_dir(agent@),
{
    let mut r = below_root(agent, "/");
    r.append(agent);
    r
}

/// The agent's binary in a guest.
pub fn agent_path(agent: &str) -> (r: String)
    ensures
        r@ == guest_agent(agent@),
{
    let mut r = agent_dir(agent);
    r.append("/");
    r.append(agent);
    r
}

/// The tag of the binary share number `i`.
pub fn tag_of_binaries(agent: &str, i: usize) -> (r: String)
    ensures
        r@ == binary_tag(agent@, i as nat),
{
    let mut r = cat(agent, "-box-bin-");
    r.append(decimal_text(i as u64).as_str());
    r
}

/// Different binary shares have different tags.
pub proof fn binary_tags_differ(agent: Seq<char>, i: nat, j: nat)
    requires
        i != j,
    ensures
        binary_tag(agent, i) != binary_tag(agent, j),
{
    let front = agent + "-box-bin-"@;
    assert(binary_tag(agent, i).skip(front.len() as int) =~= decimal(i));
    assert(binary_tag(agent, j).skip(front.len() as int) =~= decimal(j));
    crate::text::decimal_is_injective(i, j);
}

/// A warm VM belongs to the tool as well: its name starts as every VM name does.
pub proof fn warm_names_are_vm_names(agent: Seq<char>, name: Seq<char>)
    requires
        warm_prefix(agent).is_prefix_of(name),
    ensures
        vm_prefix(agent).is_prefix_of(name),
{
    reveal_strlit("-box-");
    reveal_strlit("-box-warm-");
    assert(vm_prefix(agent) =~= name.take(vm_prefix(agent).len() as int)) by {
        assert forall|i: int| 0 <= i < vm_prefix(agent).len() implies vm_prefix(agent)[i] == name[i] by {
            assert(vm_prefix(agent)[i] == warm_prefix(agent)[i]);
            assert(warm_prefix(agent)[i] == name.take(warm_prefix(agent).len() as int)[i]);
        }
    }
}

/// The full name of the agent is its command name with a capital in front, where that is
/// a lower-case letter of ASCII, and ` Code` behind it.
pub proof fn full_names_start_with_a_capital(c: char, rest: Seq<char>)
    ensures
        'a' <= c <= 'z' ==> product_name(seq![c] + rest).len() == rest.len() + 6
            && product_name(seq![c] + rest)[0] as int == c as int - 32 && product_name(
            seq![c] + rest,
        ).skip(1) == rest + " Code"@,
        !('a' <= c <= 'z') ==> product_name(seq![c] + rest) == seq![c] + rest + " Code"@,
{
    reveal_strlit(" Code");
    assert((seq![c] + rest).skip(1) =~= rest);
    if 'a' <= c <= 'z' {
        assert(product_name(seq![c] + rest).skip(1) =~= rest + " Code"@);
    }
}

/// All names follow from the name of the agent: the tool is its box, which everything in a
/// guest lies below, and its files on the host are hidden ones with its name.
pub proof fn names_follow_from_the_agent(agent: Seq<char>, i: nat)
    ensures
        tool_name(agent) == agent + "-box"@,
        settings_dir(agent) == "."@ + agent,
        state_file(agent) == "."@ + agent + ".json"@,
        staged_state(agent) == agent + ".json"@,
        guest_root(agent) == "/opt/"@ + agent + "-box"@,
        guest_bin(agent) == "/opt/"@ + agent + "-box"@ + "/bin"@,
        guest_source(agent, i) == "/opt/"@ + agent + "-box"@ + "/src-"@ + decimal(i),
        guest_config(agent) == "/opt/"@ + agent + "-box"@ + "/config"@,
        guest_agent_dir(agent) == "/opt/"@ + agent + "-box"@ + "/"@ + agent,
        guest_agent(agent) == "/opt/"@ + agent + "-box"@ + "/"@ + agent + "/"@ + agent,
        binary_tag(agent, i) == agent + "-box-bin-"@ + decimal(i),
        config_tag(agent) == agent + "-box-config"@,
        agent_tag(agent) == agent + "-box-"@ + agent,
{
}

} // verus!
