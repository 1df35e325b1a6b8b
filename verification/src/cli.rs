//! The decisions of the command line: what is run, and what is done when the sandbox
//! cannot be used.
use vstd::prelude::*;

use crate::names::{tool, tool_name};
use crate::text::{
    cat, decimal, decimal_text, lower_text, lowercase, pad, padded, same, texts, trim, trimmed,
};

verus! {

/// What the first argument asks for.
#[derive(Clone, Copy, Debug, PartialEq, Eq, Structural)]
pub enum Subcommand {
    Images,
    Gc,
    Warm,
    /// A run of the sandbox.
    Run,
}

/// What the first argument asks for. `argv` starts with the name of the program.
pub fn subcommand(argv: &Vec<String>) -> (r: Subcommand)
    ensures
        r == if argv.len() > 1 && argv@[1]@ == "images"@ {
            Subcommand::Images
        } else if argv.len() > 1 && argv@[1]@ == "gc"@ {
            Subcommand::Gc
        } else if argv.len() > 1 && argv@[1]@ == "warm"@ {
            Subcommand::Warm
        } else {
            Subcommand::Run
        },
{
    if argv.len() > 1 {
        let first = argv[1].as_str();
        if same(first, "images") {
            return Subcommand::Images;
        }
        if same(first, "gc") {
            return Subcommand::Gc;
        }
        if same(first, "warm") {
            return Subcommand::Warm;
        }
    }
    Subcommand::Run
}

/// The arguments for the agent: those that were given, behind `--help` if help is
/// asked for.
pub fn inner_args(args: Vec<String>, help: bool) -> (r: Vec<String>)
    ensures
        texts(r@) == if help {
            seq!["--help"@] + texts(args@)
        } else {
            texts(args@)
        },
{
    let mut r = args;
    if help {
        r.insert(0, "--help".to_owned());
        assert(texts(r@) =~= seq!["--help"@] + texts(args@));
    }
    r
}

/// Whether an answer is a yes: it is one if it is empty.
pub open spec fn is_yes(answer: Seq<char>) -> bool {
    let a = lowercase(trimmed(answer));
    a.len() == 0 || a == "y"@ || a == "yes"@
}

/// Whether the answer to an offer to install tart is a yes.
pub fn accepts_install(answer: &str) -> (r: bool)
    ensures
        r == is_yes(answer@),
{
    let a = lower_text(trim(answer).as_str());
    a.as_str().is_empty() || same(a.as_str(), "y") || same(a.as_str(), "yes")
}

/// What is done when the sandbox cannot be used.
#[derive(Clone, Copy, Debug, PartialEq, Eq, Structural)]
pub enum Fallback {
    /// The error is reported, and nothing is run.
    Fail,
    /// The agent is run on the host, and the error is shown first.
    RunWithWarning,
    /// The agent is run on the host.
    RunOnHost,
}

/// What is done when a sandbox run has failed. A user whose interrupt cut the run short
/// gets nothing else; one who asked for the fallback gets it, even where it is
/// forbidden.
pub fn after_failure(no_fallback: bool, user_requested: bool, interrupted: bool) -> (r: Fallback)
    ensures
        r == if interrupted {
            Fallback::Fail
        } else if user_requested {
            Fallback::RunOnHost
        } else if no_fallback {
            Fallback::Fail
        } else {
            Fallback::RunWithWarning
        },
{
    if interrupted {
        Fallback::Fail
    } else if user_requested {
        Fallback::RunOnHost
    } else if no_fallback {
        Fallback::Fail
    } else {
        Fallback::RunWithWarning
    }
}

/// What is said when tart is not there: an error where the fallback is forbidden,
/// else that the agent is run on the host.
pub fn tart_missing(agent: &str, no_fallback: bool) -> (r: Result<String, String>)
    ensures
        match r {
            Err(e) => no_fallback && e@ == "tart is not installed and --no-fallback is set"@,
            Ok(s) => !no_fallback && s@ == tool_name(agent@)
                + ": tart not available, falling back to host "@ + agent@,
        },
{
    if no_fallback {
        return Err("tart is not installed and --no-fallback is set".to_owned());
    }
    let mut s = tool(agent);
    s.append(": tart not available, falling back to host ");
    s.append(agent);
    Ok(s)
}

// ---------------------------------------------------------------------------
// The `warm` subcommand
// ---------------------------------------------------------------------------

/// What the `warm` subcommand is asked to do.
#[derive(Clone, Copy, Debug, PartialEq, Eq, Structural)]
pub enum WarmCommand {
    List,
    Refresh,
    Delete,
    Usage,
}

/// What the `warm` subcommand is asked to do by its arguments.
pub fn run_warm_command(args: &Vec<String>) -> (r: WarmCommand)
    ensures
        r == if args.len() > 0 && args@[0]@ == "list"@ {
            WarmCommand::List
        } else if args.len() > 0 && args@[0]@ == "refresh"@ {
            WarmCommand::Refresh
        } else if args.len() > 0 && args@[0]@ == "delete"@ {
            WarmCommand::Delete
        } else {
            WarmCommand::Usage
        },
{
    if args.len() > 0 {
        let first = args[0].as_str();
        if same(first, "list") {
            return WarmCommand::List;
        }
        if same(first, "refresh") {
            return WarmCommand::Refresh;
        }
        if same(first, "delete") {
            return WarmCommand::Delete;
        }
    }
    WarmCommand::Usage
}

/// An age in minutes, hours or days, whichever is the largest unit that it fills.
pub open spec fn age_text(secs: u64) -> Seq<char> {
    if secs < 3600 {
        decimal((secs / 60) as nat) + "m"@
    } else if secs < 86400 {
        decimal((secs / 3600) as nat) + "h"@
    } else {
        decimal((secs / 86400) as nat) + "d"@
    }
}

/// An age in minutes, hours or days.
pub fn age_label(secs: u64) -> (r: String)
    ensures
        r@ == age_text(secs),
{
    if secs < 3600 {
        cat(decimal_text(secs / 60).as_str(), "m")
    } else if secs < 86400 {
        cat(decimal_text(secs / 3600).as_str(), "h")
    } else {
        cat(decimal_text(secs / 86400).as_str(), "d")
    }
}

/// One row of the table of warm VMs.
pub open spec fn warm_row(image: Seq<char>, name: Seq<char>, age: Seq<char>) -> Seq<char> {
    padded(image, 50) + " "@ + padded(name, 30) + " "@ + age
}

fn row(image: &str, name: &str, age: &str) -> (r: String)
    ensures
        r@ == warm_row(image@, name@, age@),
{
    let mut r = pad(image, 50);
    r.append(" ");
    r.append(pad(name, 30).as_str());
    r.append(" ");
    r.append(age);
    r
}

/// The lines of the table of warm VMs.
pub open spec fn warm_lines(vms: Seq<(String, String, u64)>) -> Seq<Seq<char>> {
    if vms.len() == 0 {
        seq!["No warm VMs found."@]
    } else {
        seq![warm_row("IMAGE"@, "VM NAME"@, "AGE"@)] + vms.map_values(
            |v: (String, String, u64)| warm_row(v.0@, v.1@, age_text(v.2)),
        )
    }
}

/// The lines of the table of warm VMs, each given by its image, its name and its age
/// in seconds.
pub fn warm_table(vms: &Vec<(String, String, u64)>) -> (r: Vec<String>)
    ensures
        texts(r@) == warm_lines(vms@),
{
    let mut r: Vec<String> = Vec::new();
    if vms.len() == 0 {
        r.push("No warm VMs found.".to_owned());
        assert(texts(r@) =~= seq!["No warm VMs found."@]);
        return r;
    }
    r.push(row("IMAGE", "VM NAME", "AGE"));
    let ghost f = |v: (String, String, u64)| warm_row(v.0@, v.1@, age_text(v.2));
    let ghost head = seq![warm_row("IMAGE"@, "VM NAME"@, "AGE"@)];
    let ghost rows = vms@.map_values(f);
    assert(texts(r@) =~= head + rows.take(0));
    let mut i: usize = 0;
    while i < vms.len()
        invariant
            i <= vms.len(),
            f == (|v: (String, String, u64)| warm_row(v.0@, v.1@, age_text(v.2))),
            rows == vms@.map_values(f),
            texts(r@) == head + rows.take(i as int),
        decreases vms.len() - i,
    {
        let v = &vms[i];
        let line = row(v.0.as_str(), v.1.as_str(), age_label(v.2).as_str());
        assert(line@ == rows[i as int]);
        let ghost before = texts(r@);
        r.push(line);
        assert(texts(r@) =~= before.push(line@));
        assert(rows.take(i + 1) =~= rows.take(i as int).push(rows[i as int]));
        i += 1;
    }
    assert(rows.take(i as int) =~= rows);
    assert(texts(r@) =~= warm_lines(vms@));
    r
}

// ---------------------------------------------------------------------------
// Laws
// ---------------------------------------------------------------------------

/// An age is told in full minutes below an hour, in full hours below a day, and in full
/// days from there on.
pub proof fn ages_are_told_in_the_largest_unit(n: u64, s: u64)
    ensures
        n < 60 && s < 60 ==> age_text((60 * n + s) as u64) == decimal(n as nat) + "m"@,
        0 < n < 24 && s < 3600 ==> age_text((3600 * n + s) as u64) == decimal(n as nat) + "h"@,
        0 < n < 1000000 && s < 86400 ==> age_text((86400 * n + s) as u64) == decimal(n as nat)
            + "d"@,
{
    if n < 60 && s < 60 {
        assert((60 * n + s) / 60 == n) by (nonlinear_arith)
            requires
                s < 60,
        ;
    }
    if 0 < n < 24 && s < 3600 {
        assert((3600 * n + s) / 3600 == n) by (nonlinear_arith)
            requires
                s < 3600,
        ;
    }
    if 0 < n < 1000000 && s < 86400 {
        assert((86400 * n + s) / 86400 == n) by (nonlinear_arith)
            requires
                s < 86400,
        ;
    }
}

/// An answer is a yes where nothing but white space is typed, or a `y` or `yes` in
/// whatever case, with or without white space around it.
pub proof fn yes_is_understood(answer: Seq<char>)
    ensures
        is_yes(answer) <==> lowercase(trimmed(answer)).len() == 0 || lowercase(trimmed(answer))
            == "y"@ || lowercase(trimmed(answer)) == "yes"@,
{
}

/// The table of warm VMs has one row per VM, in their order, with its image, its name and
/// its age; the columns start at the same place in every row. Without a VM one line says
/// so.
pub proof fn every_warm_vm_has_a_row(vms: Seq<(String, String, u64)>, i: int)
    ensures
        vms.len() == 0 ==> warm_lines(vms) == seq!["No warm VMs found."@],
        vms.len() > 0 ==> warm_lines(vms).len() == vms.len() + 1 && warm_lines(vms)[0] == padded(
            "IMAGE"@,
            50,
        ) + " "@ + padded("VM NAME"@, 30) + " "@ + "AGE"@,
        0 <= i < vms.len() ==> warm_lines(vms)[i + 1] == padded(vms[i].0@, 50) + " "@ + padded(
            vms[i].1@,
            30,
        ) + " "@ + age_text(vms[i].2),
{
}

/// The first argument alone says what is run: any word other than those of the three
/// subcommands belongs to the agent.
pub proof fn first_argument_chooses(argv: &Vec<String>, r: Subcommand)
    requires
        call_ensures(subcommand, (argv,), r),
    ensures
        r == Subcommand::Images <==> argv.len() > 1 && argv@[1]@ == "images"@,
        r == Subcommand::Gc <==> argv.len() > 1 && argv@[1]@ == "gc"@,
        r == Subcommand::Warm <==> argv.len() > 1 && argv@[1]@ == "warm"@,
{
    reveal_strlit("images");
    reveal_strlit("gc");
    reveal_strlit("warm");
    assert("images"@[0] == 'i' && "gc"@[0] == 'g' && "warm"@[0] == 'w');
}

/// Every argument reaches the agent, in its place; help that is asked for comes in front.
pub proof fn no_argument_is_lost(args: Vec<String>, help: bool, r: Vec<String>, i: int)
    requires
        call_ensures(inner_args, (args, help), r),
    ensures
        !help ==> r@.len() == args@.len() && (0 <= i < args@.len() ==> r@[i]@ == args@[i]@),
        help ==> r@.len() == args@.len() + 1 && r@[0]@ == "--help"@ && (0 <= i < args@.len()
            ==> r@[i + 1]@ == args@[i]@),
{
    assert(texts(r@).len() == r@.len());
    assert(texts(args@).len() == args@.len());
    if 0 <= i < args@.len() {
        assert(texts(args@)[i] == args@[i]@);
        if help {
            assert(texts(r@)[i + 1] == texts(args@)[i]);
        } else {
            assert(texts(r@)[i] == texts(args@)[i]);
        }
    }
    if help {
        assert(texts(r@)[0] == "--help"@);
    }
}

/// An agent is never run on the host against the user's will: not after an interrupt, and
/// not where the fallback is forbidden, unless the user asked for it.
pub proof fn fallback_needs_consent(
    no_fallback: bool,
    user_requested: bool,
    interrupted: bool,
    r: Fallback,
)
    requires
        call_ensures(after_failure, (no_fallback, user_requested, interrupted), r),
    ensures
        r != Fallback::Fail <==> !interrupted && (user_requested || !no_fallback),
        r == Fallback::RunOnHost <==> !interrupted && user_requested,
{
}

/// The first argument alone says what the `warm` subcommand does.
pub proof fn first_warm_argument_chooses(args: &Vec<String>, r: WarmCommand)
    requires
        call_ensures(run_warm_command, (args,), r),
    ensures
        r == WarmCommand::List <==> args.len() > 0 && args@[0]@ == "list"@,
        r == WarmCommand::Refresh <==> args.len() > 0 && args@[0]@ == "refresh"@,
        r == WarmCommand::Delete <==> args.len() > 0 && args@[0]@ == "delete"@,
{
    reveal_strlit("list");
    reveal_strlit("refresh");
    reveal_strlit("delete");
    assert("list"@[0] == 'l' && "refresh"@[0] == 'r' && "delete"@[0] == 'd');
}

} // verus!
