//! Leftover VMs: finding them and deleting them.
use vstd::prelude::*;

use crate::names::{tool, tool_name, vm_prefix, warm_prefix};
use crate::paths::{join_path, path_join};
use crate::table::lemma_filter_step;
use crate::text::{
    cat, decimal, decimal_text, lines, same, starts_with, texts, word_list, words,
};
use crate::vm::image::{list_tart_images, listed_names, listed_rows};

verus! {

/// VMs that are at least this many seconds old are reaped before a run.
pub const REAP_AGE_SECS: u64 = 3600;

/// Whether a name is that of a VM of the tool, other than a warm one. Warm VMs are
/// managed by the warm pool.
pub open spec fn is_run_vm(agent: Seq<char>, name: Seq<char>) -> bool {
    vm_prefix(agent).is_prefix_of(name) && !warm_prefix(agent).is_prefix_of(name)
}

/// The VMs of the tool that `tart list` has printed, without the warm ones.
pub fn list_claude_box_vms(agent: &str, stdout: &str) -> (r: Vec<String>)
    ensures
        texts(r@) == listed_names(stdout@).filter(|n: Seq<char>| is_run_vm(agent@, n)),
{
    let all = list_tart_images(stdout);
    let own = cat(agent, "-box-");
    let warm = cat(agent, "-box-warm-");
    let ghost names = texts(all@);
    let ghost keep = |n: Seq<char>| is_run_vm(agent@, n);
    let mut r: Vec<String> = Vec::new();
    let mut i: usize = 0;
    assert(names.take(0).filter(keep) =~= seq![]) by {
        reveal(Seq::filter);
    }
    assert(texts(r@) =~= seq![]);
    while i < all.len()
        invariant
            i <= all.len(),
            names == texts(all@),
            names.len() == all.len(),
            own@ == vm_prefix(agent@),
            warm@ == warm_prefix(agent@),
            keep == (|n: Seq<char>| is_run_vm(agent@, n)),
            texts(r@) == names.take(i as int).filter(keep),
        decreases all.len() - i,
    {
        let name = &all[i];
        proof {
            assert(names[i as int] == name@);
            lemma_filter_step(names, i as int, keep);
        }
        let ghost before = texts(r@);
        if starts_with(name.as_str(), own.as_str()) && !starts_with(name.as_str(), warm.as_str()) {
            r.push(name.clone());
            assert(texts(r@) =~= before.push(name@));
        }
        i += 1;
    }
    assert(names.take(i as int) =~= names);
    r
}

/// Whether a row of `tart list` is that of a stopped VM of the tool: its last column
/// is the state.
pub open spec fn is_stopped_row(agent: Seq<char>, row: Seq<char>) -> bool {
    let w = word_list(row);
    w.len() > 1 && w.last() == "stopped"@ && is_run_vm(agent, w[1])
}

/// The names of the stopped VMs of the tool among some rows of `tart list`.
pub open spec fn stopped_vms(agent: Seq<char>, rows: Seq<Seq<char>>) -> Seq<Seq<char>>
    decreases rows.len(),
{
    if rows.len() == 0 {
        seq![]
    } else {
        let front = stopped_vms(agent, rows.drop_last());
        if is_stopped_row(agent, rows.last()) {
            front.push(word_list(rows.last())[1])
        } else {
            front
        }
    }
}

/// The stopped VMs of the tool that `tart list` has printed, without the warm ones.
pub fn list_stopped_vms(agent: &str, stdout: &str) -> (r: Vec<String>)
    ensures
        texts(r@) == stopped_vms(agent@, listed_rows(stdout@)),
{
    let ls = lines(stdout);
    let own = cat(agent, "-box-");
    let warm = cat(agent, "-box-warm-");
    let ghost all = texts(ls@);
    assert(all.len() == ls.len());
    let mut r: Vec<String> = Vec::new();
    assert(texts(r@) =~= seq![]);
    if ls.len() == 0 {
        return r;
    }
    let ghost rows = all.skip(1);
    assert(rows == listed_rows(stdout@));
    let mut i: usize = 1;
    assert(rows.take(0) =~= seq![]);
    while i < ls.len()
        invariant
            1 <= i <= ls.len(),
            all == texts(ls@),
            rows == all.skip(1),
            own@ == vm_prefix(agent@),
            warm@ == warm_prefix(agent@),
            texts(r@) == stopped_vms(agent@, rows.take(i - 1)),
        decreases ls.len() - i,
    {
        let ghost next = rows.take(i as int);
        assert(next.drop_last() =~= rows.take(i - 1));
        assert(next.last() == ls@[i as int]@);
        let w = words(ls[i].as_str());
        assert(texts(w@).len() == w.len());
        let ghost before = texts(r@);
        if w.len() > 1 {
            assert(texts(w@)[1] == w@[1]@);
            assert(texts(w@).last() == w@[w.len() - 1]@);
            if same(w[w.len() - 1].as_str(), "stopped") && starts_with(w[1].as_str(), own.as_str())
                && !starts_with(w[1].as_str(), warm.as_str()) {
                r.push(w[1].clone());
                assert(texts(r@) =~= before.push(w@[1]@));
            }
        }
        i += 1;
    }
    assert(rows.take(i - 1) =~= rows);
    r
}

/// The directory of a VM, whose modification time stands for its creation.
pub fn vm_dir(home: &str, vm_name: &str) -> (r: String)
    ensures
        r@ == path_join(path_join(path_join(home@, ".tart"@), "vms"@), vm_name@),
{
    join_path(join_path(join_path(home, ".tart").as_str(), "vms").as_str(), vm_name)
}

/// A command for one of the listed VMs, given by its place in the list.
#[derive(Clone, Copy, Debug, PartialEq, Eq, Structural)]
pub enum ReapAction {
    /// Stop it; it may be stopped already.
    Stop(usize),
    /// Delete it.
    Delete(usize),
}

/// Whether a VM is to be reaped: it is not known to be younger than `max_age`.
pub open spec fn is_stale(age: Option<u128>, max_age: u128) -> bool {
    match age {
        Some(a) => a >= max_age,
        None => true,
    }
}

/// The commands that reap the stale VMs: each is stopped and then deleted.
pub open spec fn reap_plan(ages: Seq<Option<u128>>, max_age: u128) -> Seq<ReapAction>
    decreases ages.len(),
{
    if ages.len() == 0 {
        seq![]
    } else {
        let front = reap_plan(ages.drop_last(), max_age);
        let i = (ages.len() - 1) as usize;
        if is_stale(ages.last(), max_age) {
            front + seq![ReapAction::Stop(i), ReapAction::Delete(i)]
        } else {
            front
        }
    }
}

/// The deletion of some VMs. It is best-effort: a command that fails does not keep
/// the others from being run.
pub struct Reaper {
    /// The commands.
    pub plan: Vec<ReapAction>,
    /// How many of them have been run.
    pub at: usize,
    /// How many VMs have been deleted.
    pub deleted: usize,
}

impl Reaper {
    /// No more VMs have been deleted than commands have been run.
    pub open spec fn well_formed(&self) -> bool {
        self.deleted <= self.at <= self.plan.len()
    }

    /// The command to run now, if one is left.
    pub fn action(&self) -> (r: Option<ReapAction>)
        ensures
            r == if self.at < self.plan.len() {
                Some(self.plan@[self.at as int])
            } else {
                None
            },
    {
        if self.at < self.plan.len() {
            Some(self.plan[self.at])
        } else {
            None
        }
    }

    /// Take note of whether the command succeeded.
    pub fn next(&mut self, success: bool)
        requires
            old(self).well_formed(),
        ensures
            final(self).well_formed(),
            final(self).plan == old(self).plan,
            final(self).at == if old(self).at < old(self).plan.len() {
                old(self).at + 1
            } else {
                old(self).at as int
            },
            final(self).deleted == if old(self).at < old(self).plan.len() && success && old(
                self,
            ).plan@[old(self).at as int] is Delete {
                old(self).deleted + 1
            } else {
                old(self).deleted as int
            },
    {
        if self.at < self.plan.len() {
            if success {
                if let ReapAction::Delete(_) = self.plan[self.at] {
                    self.deleted = self.deleted + 1;
                }
            }
            self.at = self.at + 1;
        }
    }
}

/// Delete stopped orphan VMs that are not younger than `max_age`, given the ages of
/// the VMs that [`list_stopped_vms`] gives, as far as they are known.
pub fn reap_stale_vms(ages: &Vec<Option<u128>>, max_age: u128) -> (r: Reaper)
    ensures
        r.plan@ == reap_plan(ages@, max_age),
        r.at == 0,
        r.deleted == 0,
        r.well_formed(),
{
    let mut plan: Vec<ReapAction> = Vec::new();
    let mut i: usize = 0;
    assert(plan@ =~= reap_plan(ages@.take(0), max_age));
    while i < ages.len()
        invariant
            i <= ages.len(),
            plan@ == reap_plan(ages@.take(i as int), max_age),
        decreases ages.len() - i,
    {
        assert(ages@.take(i + 1).drop_last() =~= ages@.take(i as int));
        let ghost before = plan@;
        let stale = match ages[i] {
            Some(a) => a >= max_age,
            None => true,
        };
        if stale {
            plan.push(ReapAction::Stop(i));
            plan.push(ReapAction::Delete(i));
            assert(plan@ =~= before + seq![ReapAction::Stop(i), ReapAction::Delete(i)]);
        }
        i += 1;
    }
    assert(ages@.take(i as int) =~= ages@);
    Reaper { plan, at: 0, deleted: 0 }
}

/// How old a VM is, in words.
pub open spec fn age_words(age_secs: Option<u64>) -> Seq<char> {
    match age_secs {
        Some(s) => decimal((s / 60) as nat) + "m ago"@,
        None => "unknown age"@,
    }
}

/// One line about a VM.
pub open spec fn vm_line(name: Seq<char>, age_secs: Option<u64>) -> Seq<char> {
    "  "@ + name + " ("@ + age_words(age_secs) + ")"@
}

/// One line about a VM.
pub fn describe_vm(name: &str, age_secs: Option<u64>) -> (r: String)
    ensures
        r@ == vm_line(name@, age_secs),
{
    let age = match age_secs {
        Some(s) => cat(decimal_text(s / 60).as_str(), "m ago"),
        None => "unknown age".to_owned(),
    };
    let mut r = cat("  ", name);
    r.append(" (");
    r.append(age.as_str());
    r.append(")");
    r
}

/// What the `gc` subcommand says before it deletes anything, and the commands that
/// delete all listed VMs, whatever their age.
pub fn run_gc_command(agent: &str, vms: &Vec<String>) -> (r: (String, Reaper))
    ensures
        r.0@ == if vms.len() == 0 {
            "No "@ + tool_name(agent@) + " VMs found."@
        } else {
            "Found "@ + decimal(vms.len() as nat) + " "@ + tool_name(agent@) + " VM(s):"@
        },
        r.1.plan@ == reap_plan(Seq::new(vms.len() as nat, |i: int| None), 0),
        r.1.at == 0,
        r.1.deleted == 0,
        r.1.well_formed(),
{
    let mut ages: Vec<Option<u128>> = Vec::new();
    let mut i: usize = 0;
    while i < vms.len()
        invariant
            i <= vms.len(),
            ages@ =~= Seq::new(i as nat, |j: int| None),
        decreases vms.len() - i,
    {
        ages.push(None);
        i += 1;
    }
    assert(ages@ =~= Seq::new(vms.len() as nat, |i: int| None));
    let reaper = reap_stale_vms(&ages, 0);
    if vms.len() == 0 {
        let mut r = cat("No ", tool(agent).as_str());
        r.append(" VMs found.");
        return (r, reaper);
    }
    let mut r = cat("Found ", decimal_text(vms.len() as u64).as_str());
    r.append(" ");
    r.append(tool(agent).as_str());
    r.append(" VM(s):");
    (r, reaper)
}

/// The last line of the `gc` subcommand.
pub fn gc_summary(deleted: usize, found: usize) -> (r: String)
    ensures
        r@ == "Deleted "@ + decimal(deleted as nat) + "/"@ + decimal(found as nat) + " VM(s)."@,
{
    let mut r = cat("Deleted ", decimal_text(deleted as u64).as_str());
    r.append("/");
    r.append(decimal_text(found as u64).as_str());
    r.append(" VM(s).");
    r
}

// ---------------------------------------------------------------------------
// Laws
// ---------------------------------------------------------------------------

/// The VM that a command is for.
pub open spec fn reaped_vm(action: ReapAction) -> int {
    match action {
        ReapAction::Stop(i) => i as int,
        ReapAction::Delete(i) => i as int,
    }
}

/// Only stale VMs are touched, and every deletion comes right behind a stop of the
/// same VM.
pub proof fn young_vms_are_spared(ages: Seq<Option<u128>>, max_age: u128, k: int)
    requires
        ages.len() <= usize::MAX,
        0 <= k < reap_plan(ages, max_age).len(),
    ensures
        ({
            let plan = reap_plan(ages, max_age);
            &&& 0 <= reaped_vm(plan[k]) < ages.len()
            &&& ages[reaped_vm(plan[k])] matches Some(age) ==> age >= max_age
            &&& plan[k] is Delete ==> k > 0 && plan[k - 1] == ReapAction::Stop(
                reaped_vm(plan[k]) as usize,
            )
        }),
    decreases ages.len(),
{
    let front = reap_plan(ages.drop_last(), max_age);
    if k < front.len() {
        young_vms_are_spared(ages.drop_last(), max_age, k);
        assert(reap_plan(ages, max_age)[k] == front[k]);
    }
}

/// Every VM that is at least as old as `max_age`, and every one whose age is not known,
/// is stopped and then deleted, whatever the other VMs are.
pub proof fn stale_vms_are_reaped(ages: Seq<Option<u128>>, max_age: u128, i: int)
    requires
        ages.len() <= usize::MAX,
        0 <= i < ages.len(),
        ages[i] matches Some(age) ==> age >= max_age,
    ensures
        exists|k: int|
            0 < k < reap_plan(ages, max_age).len() && #[trigger] reap_plan(ages, max_age)[k]
                == ReapAction::Delete(i as usize) && reap_plan(ages, max_age)[k - 1]
                == ReapAction::Stop(i as usize),
        reap_plan(ages, max_age).contains(ReapAction::Delete(i as usize)),
    decreases ages.len(),
{
    let plan = reap_plan(ages, max_age);
    let front = reap_plan(ages.drop_last(), max_age);
    if i < ages.len() - 1 {
        assert(ages.drop_last()[i] == ages[i]);
        stale_vms_are_reaped(ages.drop_last(), max_age, i);
        let k = choose|k: int|
            0 < k < front.len() && #[trigger] front[k] == ReapAction::Delete(i as usize) && front[k
                - 1] == ReapAction::Stop(i as usize);
        assert(plan[k] == front[k]);
        assert(plan[k - 1] == front[k - 1]);
    } else {
        assert(plan[front.len() as int + 1] == ReapAction::Delete(i as usize));
        assert(plan[front.len() as int] == ReapAction::Stop(i as usize));
    }
}

/// No VM is touched twice: the commands go through the list from its front, so every VM
/// has at most one stop and one deletion.
pub proof fn vms_are_reaped_in_order(ages: Seq<Option<u128>>, max_age: u128, k: int, l: int)
    requires
        ages.len() <= usize::MAX,
        0 <= k < l < reap_plan(ages, max_age).len(),
    ensures
        ({
            let plan = reap_plan(ages, max_age);
            plan[l] is Stop || l > k + 1 ==> reaped_vm(plan[k]) < reaped_vm(plan[l])
        }),
        reap_plan(ages, max_age).len() <= 2 * ages.len(),
    decreases ages.len(),
{
    let plan = reap_plan(ages, max_age);
    let short = ages.drop_last();
    let front = reap_plan(short, max_age);
    if l < front.len() {
        vms_are_reaped_in_order(short, max_age, k, l);
        assert(plan[k] == front[k] && plan[l] == front[l]);
    } else if k < front.len() {
        young_vms_are_spared(short, max_age, k);
        assert(plan[k] == front[k]);
    }
    lemma_plan_len(ages, max_age);
}

proof fn lemma_plan_len(ages: Seq<Option<u128>>, max_age: u128)
    ensures
        reap_plan(ages, max_age).len() <= 2 * ages.len(),
        (forall|i: int| 0 <= i < ages.len() ==> (#[trigger] ages[i]) is None) ==> reap_plan(
            ages,
            max_age,
        ).len() == 2 * ages.len(),
    decreases ages.len(),
{
    if ages.len() > 0 {
        let short = ages.drop_last();
        lemma_plan_len(short, max_age);
        if forall|i: int| 0 <= i < ages.len() ==> (#[trigger] ages[i]) is None {
            assert forall|i: int| 0 <= i < short.len() implies (#[trigger] short[i]) is None by {
                assert(short[i] == ages[i]);
            }
            assert(ages[ages.len() - 1] is None);
        }
    }
}

/// The `gc` subcommand deletes every VM that it lists, whatever its age: its plan has a
/// stop and a deletion for each.
pub proof fn gc_deletes_all_it_lists(n: nat, i: int)
    requires
        n <= usize::MAX,
        0 <= i < n,
    ensures
        reap_plan(Seq::new(n, |j: int| None), 0).len() == 2 * n,
        reap_plan(Seq::new(n, |j: int| None), 0).contains(ReapAction::Delete(i as usize)),
        reap_plan(Seq::new(n, |j: int| None), 0).contains(ReapAction::Stop(i as usize)),
{
    let ages = Seq::<Option<u128>>::new(n, |j: int| None);
    lemma_plan_len(ages, 0);
    stale_vms_are_reaped(ages, 0, i);
    let plan = reap_plan(ages, 0);
    let k = choose|k: int|
        0 < k < plan.len() && #[trigger] plan[k] == ReapAction::Delete(i as usize) && plan[k - 1]
            == ReapAction::Stop(i as usize);
    assert(plan[k - 1] == ReapAction::Stop(i as usize));
}

/// Only stopped VMs are reaped before a run, and none of them is overlooked: the list
/// holds exactly the names of the rows that tell the state `stopped` of a VM of the
/// tool, so neither a VM that runs nor one of the warm pool is in it.
pub proof fn only_stopped_vms_are_reaped(agent: Seq<char>, rows: Seq<Seq<char>>, name: Seq<char>)
    ensures
        stopped_vms(agent, rows).contains(name) == ((exists|i: int|
            0 <= i < rows.len() && word_list(#[trigger] rows[i]).len() > 1 && word_list(rows[i])[1]
                == name && word_list(rows[i]).last() == "stopped"@) && (agent
            + "-box-"@).is_prefix_of(name) && !(agent + "-box-warm-"@).is_prefix_of(name)),
{
    lemma_stopped_vms(agent, rows, name);
    if exists|i: int|
        0 <= i < rows.len() && #[trigger] is_stopped_row(agent, rows[i]) && word_list(rows[i])[1]
            == name {
        let i = choose|i: int|
            0 <= i < rows.len() && #[trigger] is_stopped_row(agent, rows[i]) && word_list(
                rows[i],
            )[1] == name;
        assert(word_list(rows[i]).len() > 1);
    }
    if is_run_vm(agent, name) && exists|i: int|
        0 <= i < rows.len() && word_list(#[trigger] rows[i]).len() > 1 && word_list(rows[i])[1]
            == name && word_list(rows[i]).last() == "stopped"@ {
        let i = choose|i: int|
            0 <= i < rows.len() && word_list(#[trigger] rows[i]).len() > 1 && word_list(rows[i])[1]
                == name && word_list(rows[i]).last() == "stopped"@;
        assert(is_stopped_row(agent, rows[i]));
    }
}

proof fn lemma_stopped_vms(agent: Seq<char>, rows: Seq<Seq<char>>, name: Seq<char>)
    ensures
        stopped_vms(agent, rows).contains(name) == exists|i: int|
            0 <= i < rows.len() && #[trigger] is_stopped_row(agent, rows[i]) && word_list(
                rows[i],
            )[1] == name,
    decreases rows.len(),
{
    let list = stopped_vms(agent, rows);
    if rows.len() > 0 {
        let short = rows.drop_last();
        let front = stopped_vms(agent, short);
        lemma_stopped_vms(agent, short, name);
        if list.contains(name) {
            let k = choose|k: int| 0 <= k < list.len() && list[k] == name;
            if k < front.len() {
                assert(front[k] == name);
                let i = choose|i: int|
                    0 <= i < short.len() && #[trigger] is_stopped_row(agent, short[i]) && word_list(
                        short[i],
                    )[1] == name;
                assert(is_stopped_row(agent, rows[i]));
            } else {
                assert(is_stopped_row(agent, rows[rows.len() - 1]));
            }
        }
        if exists|i: int|
            0 <= i < rows.len() && #[trigger] is_stopped_row(agent, rows[i]) && word_list(rows[i])[1]
                == name {
            let i = choose|i: int|
                0 <= i < rows.len() && #[trigger] is_stopped_row(agent, rows[i]) && word_list(
                    rows[i],
                )[1] == name;
            if i < short.len() {
                assert(is_stopped_row(agent, short[i]));
                assert(front.contains(name));
                let k = choose|k: int| 0 <= k < front.len() && front[k] == name;
                assert(list[k] == name);
            } else {
                assert(list[front.len() as int] == name);
            }
        }
    }
}

/// The leftovers are exactly the listed VMs whose names start as those of the tool's
/// VMs do, but for the warm pool, of which none is ever among them.
pub proof fn warm_vms_are_never_reaped(agent: Seq<char>, stdout: Seq<char>, name: Seq<char>)
    ensures
        listed_names(stdout).filter(|n: Seq<char>| is_run_vm(agent, n)).contains(name) == (
        listed_names(stdout).contains(name) && (agent + "-box-"@).is_prefix_of(name) && !(agent
            + "-box-warm-"@).is_prefix_of(name)),
{
    let keep = |n: Seq<char>| is_run_vm(agent, n);
    let found = listed_names(stdout).filter(keep);
    broadcast use vstd::seq_lib::group_filter_ensures;

    if found.contains(name) {
        listed_names(stdout).lemma_filter_contains_rev(keep, name);
        let i = choose|i: int| 0 <= i < found.len() && found[i] == name;
        assert(keep(found[i]));
    }
    if listed_names(stdout).contains(name) && is_run_vm(agent, name) {
        let i = choose|i: int| 0 <= i < listed_names(stdout).len() && listed_names(stdout)[i] == name;
        assert(keep(listed_names(stdout)[i]));
    }
}

/// The line about a VM tells its name, and its age in full minutes where it is known.
pub proof fn vm_line_tells_the_age(name: Seq<char>, age: u64)
    ensures
        vm_line(name, Some(age)) == "  "@ + name + " ("@ + decimal((age / 60) as nat) + "m ago)"@,
        vm_line(name, None) == "  "@ + name + " (unknown age)"@,
{
    reveal_strlit("m ago");
    reveal_strlit("m ago)");
    reveal_strlit("unknown age");
    reveal_strlit(" (unknown age)");
    reveal_strlit(" (");
    reveal_strlit(")");
    assert(vm_line(name, Some(age)) =~= "  "@ + name + " ("@ + decimal((age / 60) as nat)
        + "m ago)"@);
    assert(vm_line(name, None) =~= "  "@ + name + " (unknown age)"@);
}

/// The stopped VMs are listed row by row: a row adds its second word at the end where it
/// has one, its last word is `stopped` and the name is that of a VM of the tool that is not
/// a warm one; any other row adds nothing.
pub proof fn stopped_vms_are_listed_row_by_row(
    agent: Seq<char>,
    rows: Seq<Seq<char>>,
    row: Seq<char>,
)
    ensures
        stopped_vms(agent, seq![]) == Seq::<Seq<char>>::empty(),
        stopped_vms(agent, rows.push(row)) == if word_list(row).len() > 1 && word_list(row).last()
            == "stopped"@ && (agent + "-box-"@).is_prefix_of(word_list(row)[1]) && !(agent
            + "-box-warm-"@).is_prefix_of(word_list(row)[1]) {
            stopped_vms(agent, rows).push(word_list(row)[1])
        } else {
            stopped_vms(agent, rows)
        },
{
    assert(rows.push(row).drop_last() =~= rows);
}

/// The commands of a reaper are run one by one to the last, whether or not they succeed,
/// and exactly the deletions that succeed are counted.
pub proof fn reaping_goes_on_after_failures(reaper: &mut Reaper, success: bool)
    requires
        old(reaper).well_formed(),
        call_ensures(Reaper::next, (reaper, success), ()),
    ensures
        final(reaper).plan == old(reaper).plan,
        old(reaper).at < old(reaper).plan.len() ==> final(reaper).at == old(reaper).at + 1,
        old(reaper).at < old(reaper).plan.len() ==> final(reaper).deleted - old(reaper).deleted
            == if success && old(reaper).plan@[old(reaper).at as int] is Delete {
            1int
        } else {
            0
        },
{
}

} // verus!
