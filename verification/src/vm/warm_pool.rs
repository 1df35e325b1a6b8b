//! The warm pool: suspended VMs, one per base image, whose clones come up faster than
//! a VM that boots.
//!
//! A warm VM is booted once with a single VirtioFS share, whose host path is a
//! symlink, and suspended. A run points the symlink at its project, clones the warm
//! VM and resumes the clone. The SSH key and the agent's binary are put onto the disk
//! of the warm VM when it is created; its clones have them too.
use std::collections::hash_map::DefaultHasher;
use std::hash::{Hash, Hasher};
use vstd::prelude::*;
use vstd::std_specs::hash::DefaultHasherAdditionalSpecFns;

use crate::gc::is_run_vm;
use crate::names::{warm_prefix, PROJECT_TAG};
use crate::paths::{join_path, path_join};
use crate::table::{keys_with, Table};
use crate::text::{
    cat, chars_of, from_utf8_lossy, hex, hex_text, line_list, lines, listed, lossy_text, string_of,
    texts, trim, trimmed,
};
use crate::vm::image::{second_words, second_words_from};
use crate::vm::tart::TartVm;
use crate::vm::{vm_config, Vm};

verus! {

/// A warm VM is created anew when it is older than this many seconds: a week.
pub const REFRESH_AGE: u64 = 604800;

/// How many seconds a resumed clone has to take SSH connections.
pub const RESUME_SSH_TIMEOUT_SECS: u64 = 30;

/// How many seconds a booting VM has to take SSH connections.
pub const BOOT_SSH_TIMEOUT_SECS: u64 = 120;

// ---------------------------------------------------------------------------
// Names
// ---------------------------------------------------------------------------

/// What `str::hash` writes to a hasher.
pub uninterp spec fn hash_writes(s: Seq<char>) -> Seq<Seq<u8>>;

/// `str::hash` feeds a string to a hasher; what it writes depends on the string
/// alone.
#[verifier::external_body]
fn hash_text(s: &str, hasher: &mut DefaultHasher)
    ensures
        final(hasher)@ == old(hasher)@ + hash_writes(s@),
{
    s.hash(hasher);
}

/// The hash of a string.
pub open spec fn text_hash(s: Seq<char>) -> u64 {
    DefaultHasher::spec_finish(hash_writes(s))
}

/// The hash of a string, in sixteen hexadecimal digits.
pub fn short_hash(s: &str) -> (r: String)
    ensures
        r@ == hex(text_hash(s@) as nat, 16),
{
    let mut hasher = DefaultHasher::new();
    hash_text(s, &mut hasher);
    assert(Seq::<Seq<u8>>::empty() + hash_writes(s@) =~= hash_writes(s@));
    hex_text(hasher.finish(), 16)
}

/// What stands for an image in the names of its warm VM and its key: the first eight
/// digits of the hash of its ref.
pub open spec fn image_id(image_ref: Seq<char>) -> Seq<char> {
    hex(text_hash(image_ref) as nat, 16).take(8)
}

proof fn lemma_hex_len(n: nat, width: nat)
    ensures
        hex(n, width).len() == width,
    decreases width,
{
    if width > 0 {
        lemma_hex_len(n / 16, (width - 1) as nat);
    }
}

/// What stands for an image in the names of its warm VM and its key.
pub fn id_of_image(image_ref: &str) -> (r: String)
    ensures
        r@ == image_id(image_ref@),
{
    let hash = short_hash(image_ref);
    let v = chars_of(hash.as_str());
    proof {
        lemma_hex_len(text_hash(image_ref@) as nat, 16);
    }
    let r = string_of(&v, 0, 8);
    assert(r@ =~= hash@.take(8));
    r
}

/// The name of the warm VM of an image.
pub open spec fn warm_vm_name(agent: Seq<char>, image_ref: Seq<char>) -> Seq<char> {
    warm_prefix(agent) + image_id(image_ref)
}

/// The name of the warm VM of an image.
pub fn warm_name(agent: &str, image_ref: &str) -> (r: String)
    ensures
        r@ == warm_vm_name(agent@, image_ref@),
{
    let mut r = cat(agent, "-box-warm-");
    r.append(id_of_image(image_ref).as_str());
    r
}

/// The file that holds the SSH key of the warm VM of an image.
pub open spec fn key_path(cache_dir: Seq<char>, image_ref: Seq<char>) -> Seq<char> {
    path_join(path_join(cache_dir, "warm-keys"@), image_id(image_ref) + ".pem"@)
}

/// The file that holds the SSH key of the warm VM of an image.
pub fn warm_key_path(cache_dir: &str, image_ref: &str) -> (r: String)
    ensures
        r@ == key_path(cache_dir@, image_ref@),
{
    let file = cat(id_of_image(image_ref).as_str(), ".pem");
    join_path(join_path(cache_dir, "warm-keys").as_str(), file.as_str())
}

/// The file whose lock is held while a clone is made and started.
pub fn lock_path(cache_dir: &str) -> (r: String)
    ensures
        r@ == path_join(cache_dir@, "warm-pool.lock"@),
{
    join_path(cache_dir, "warm-pool.lock")
}

/// The garbage collection leaves the warm VM of every image alone.
pub proof fn warm_vm_is_no_run_vm(agent: Seq<char>, image_ref: Seq<char>)
    ensures
        warm_prefix(agent).is_prefix_of(warm_vm_name(agent, image_ref)),
        !is_run_vm(agent, warm_vm_name(agent, image_ref)),
{
    let name = warm_vm_name(agent, image_ref);
    assert(warm_prefix(agent) =~= name.take(warm_prefix(agent).len() as int));
}

// ---------------------------------------------------------------------------
// State
// ---------------------------------------------------------------------------

/// What is known of a warm VM.
#[derive(Debug, Clone)]
pub struct WarmPoolEntry {
    /// Its name.
    pub tart_name: String,
    /// When it was created, in seconds since the Unix epoch.
    pub created_at: u64,
}

/// The warm VMs, by the refs of their images.
pub struct WarmPoolState {
    path: String,
    entries: Table<WarmPoolEntry>,
}

impl View for WarmPoolState {
    type V = Map<Seq<char>, WarmPoolEntry>;

    closed spec fn view(&self) -> Map<Seq<char>, WarmPoolEntry> {
        self.entries@
    }
}

/// How old a warm VM is, in seconds; 0 if it is from the future.
pub open spec fn age_of(entry: WarmPoolEntry, now: u64) -> u64 {
    if now >= entry.created_at {
        (now - entry.created_at) as u64
    } else {
        0
    }
}

impl WarmPoolState {
    /// The file that the state is kept in.
    pub closed spec fn file(&self) -> Seq<char> {
        self.path@
    }

    /// The refs, in the order in which they were first set.
    pub closed spec fn order(&self) -> Seq<Seq<char>> {
        self.entries.order()
    }

    /// The refs in their order are all the refs.
    pub proof fn order_lists_the_refs(self)
        ensures
            forall|k: Seq<char>| #[trigger] self@.contains_key(k) == self.order().contains(k),
    {
        self.entries.order_lists_the_keys();
    }

    /// The state of a cache directory, with the entries that its file holds.
    pub fn load(cache_dir: &str, entries: Table<WarmPoolEntry>) -> (r: Self)
        ensures
            r@ == entries@,
            r.order() == entries.order(),
            r.file() == path_join(cache_dir@, "warm-pool.json"@),
    {
        WarmPoolState { path: join_path(cache_dir, "warm-pool.json"), entries }
    }

    /// Where the state is saved: it is written to the first file, which is then
    /// renamed to the second.
    pub fn save(&self) -> (r: (String, String))
        ensures
            r.0@ == self.file() + ".tmp"@,
            r.1@ == self.file(),
    {
        (cat(self.path.as_str(), ".tmp"), self.path.clone())
    }

    /// All entries.
    pub fn entries(&self) -> (r: &Table<WarmPoolEntry>)
        ensures
            r@ == self@,
            r.order() == self.order(),
    {
        &self.entries
    }

    /// The warm VM of an image.
    pub fn get(&self, image_ref: &str) -> (r: Option<&WarmPoolEntry>)
        ensures
            r is Some == self@.contains_key(image_ref@),
            r matches Some(e) ==> *e == self@[image_ref@],
    {
        self.entries.get(image_ref)
    }

    /// Record the warm VM of an image, created at the second `now`.
    pub fn set(&mut self, image_ref: &str, tart_name: &str, now: u64)
        ensures
            final(self)@.contains_key(image_ref@),
            final(self)@[image_ref@].tart_name@ == tart_name@,
            final(self)@[image_ref@].created_at == now,
            final(self)@.remove(image_ref@) == old(self)@.remove(image_ref@),
            final(self).order() == keys_with(old(self).order(), image_ref@),
            final(self).file() == old(self).file(),
    {
        let entry = WarmPoolEntry { tart_name: tart_name.to_owned(), created_at: now };
        self.entries.insert(image_ref.to_owned(), entry);
        assert(self@.remove(image_ref@) =~= old(self)@.remove(image_ref@));
    }

    /// Forget the warm VM of an image.
    pub fn remove(&mut self, image_ref: &str)
        ensures
            final(self)@ == old(self)@.remove(image_ref@),
            final(self).order() == old(self).order().filter(|x: Seq<char>| x != image_ref@),
            final(self).file() == old(self).file(),
    {
        let _ = self.entries.remove(image_ref);
    }
}

/// List all warm VMs with their images and their ages in seconds.
pub fn list_warm_vms(state: &WarmPoolState, now: u64) -> (r: Vec<(String, String, u64)>)
    ensures
        r.len() == state.order().len(),
        forall|i: int|
            0 <= i < r.len() ==> {
                &&& (#[trigger] r@[i]).0@ == state.order()[i]
                &&& r@[i].1@ == state@[state.order()[i]].tart_name@
                &&& r@[i].2 == age_of(state@[state.order()[i]], now)
            },
{
    let entries = state.entries();
    let mut r: Vec<(String, String, u64)> = Vec::new();
    let n = entries.len();
    let mut i: usize = 0;
    while i < n
        invariant
            i <= n,
            n == state.order().len(),
            entries@ == state@,
            entries.order() == state.order(),
            r.len() == i,
            forall|j: int|
                0 <= j < i ==> {
                    &&& (#[trigger] r@[j]).0@ == state.order()[j]
                    &&& r@[j].1@ == state@[state.order()[j]].tart_name@
                    &&& r@[j].2 == age_of(state@[state.order()[j]], now)
                },
        decreases n - i,
    {
        let (image_ref, entry) = entries.at(i);
        r.push((image_ref.clone(), entry.tart_name.clone(), age(entry, now)));
        i += 1;
    }
    r
}

fn age(entry: &WarmPoolEntry, now: u64) -> (r: u64)
    ensures
        r == age_of(*entry, now),
{
    if now >= entry.created_at {
        now - entry.created_at
    } else {
        0
    }
}

/// Force the warm VM of an image to be created anew: it is forgotten, and the VM
/// with the name that is given back is to be deleted.
pub fn refresh_warm_vm(image_ref: &str, state: &mut WarmPoolState) -> (r: Option<String>)
    ensures
        r is Some == old(state)@.contains_key(image_ref@),
        r matches Some(name) ==> name@ == old(state)@[image_ref@].tart_name@,
        final(state)@ == old(state)@.remove(image_ref@),
        final(state).order() == old(state).order().filter(|x: Seq<char>| x != image_ref@),
        final(state).file() == old(state).file(),
{
    let name = match state.get(image_ref) {
        Some(entry) => Some(entry.tart_name.clone()),
        None => None,
    };
    state.remove(image_ref);
    name
}

/// Delete the next of all warm VMs: it is forgotten, and the image with its VM is
/// given back, whose VM and key are to be deleted. `None` when there are no more.
pub fn delete_all_warm_vms(state: &mut WarmPoolState) -> (r: Option<(String, String)>)
    ensures
        r is Some == (old(state).order().len() > 0),
        match r {
            Some((image_ref, name)) => {
                &&& image_ref@ == old(state).order()[0]
                &&& name@ == old(state)@[image_ref@].tart_name@
                &&& final(state)@ == old(state)@.remove(image_ref@)
                &&& final(state).order() == old(state).order().filter(
                    |x: Seq<char>| x != image_ref@,
                )
            },
            None => *final(state) == *old(state),
        },
        final(state).file() == old(state).file(),
{
    if state.entries().len() == 0 {
        return None;
    }
    let (image_ref, entry) = state.entries().at(0);
    let image_ref = image_ref.clone();
    let name = entry.tart_name.clone();
    state.remove(image_ref.as_str());
    Some((image_ref, name))
}

/// Whether a VM is among those that `tart list` has printed. The header counts as
/// one of them.
pub fn tart_vm_exists(name: &str, stdout: &str) -> (r: bool)
    ensures
        r == second_words(line_list(stdout@)).contains(name@),
{
    let ls = lines(stdout);
    assert(texts(ls@).skip(0) =~= texts(ls@));
    listed(&second_words_from(&ls, 0), name)
}

/// What is done to have a warm VM.
pub enum EnsureAction {
    /// The warm VM with this name is used.
    UseIt(String),
    /// The warm VM with this name is deleted, and a new one is created.
    Replace(String),
    /// A new one is created.
    Create,
}

/// Whether a warm VM is young enough to be used.
pub open spec fn is_fresh(entry: WarmPoolEntry, now: u64) -> bool {
    age_of(entry, now) < REFRESH_AGE
}

/// What is done to have a warm VM for an image: the recorded one is used as long as
/// it is fresh and there; otherwise it is forgotten and replaced.
pub fn ensure_warm_vm(
    image_ref: &str,
    now: u64,
    exists_there: bool,
    state: &mut WarmPoolState,
) -> (r: EnsureAction)
    ensures
        final(state).file() == old(state).file(),
        if !old(state)@.contains_key(image_ref@) {
            r is Create && *final(state) == *old(state)
        } else {
            let entry = old(state)@[image_ref@];
            if is_fresh(entry, now) && exists_there {
                &&& r matches EnsureAction::UseIt(name)
                &&& name@ == entry.tart_name@
                &&& *final(state) == *old(state)
            } else {
                &&& r matches EnsureAction::Replace(name)
                &&& name@ == entry.tart_name@
                &&& final(state)@ == old(state)@.remove(image_ref@)
                &&& final(state).order() == old(state).order().filter(
                    |x: Seq<char>| x != image_ref@,
                )
            }
        },
{
    let name = match state.get(image_ref) {
        None => return EnsureAction::Create,
        Some(entry) => {
            if age(entry, now) < REFRESH_AGE && exists_there {
                return EnsureAction::UseIt(entry.tart_name.clone());
            }
            entry.tart_name.clone()
        },
    };
    state.remove(image_ref);
    EnsureAction::Replace(name)
}

// ---------------------------------------------------------------------------
// The slot
// ---------------------------------------------------------------------------

/// The single VirtioFS slot for the project directory. Its path is part of the
/// snapshot of a warm VM; only the target of the symlink there changes.
pub struct WarmSlots {
    root: String,
    placeholder: String,
}

impl WarmSlots {
    /// The directory that holds the slot.
    pub closed spec fn root_dir(&self) -> Seq<char> {
        self.root@
    }

    /// The empty directory for an unused slot.
    pub closed spec fn placeholder_dir(&self) -> Seq<char> {
        self.placeholder@
    }

    /// The slot.
    pub open spec fn slot(&self) -> Seq<char> {
        path_join(self.root_dir(), "project"@)
    }

    /// The value of the `--dir=` flag for the slot.
    pub open spec fn dir_flag(&self) -> Seq<char> {
        self.slot() + ":tag="@ + PROJECT_TAG@
    }

    /// The slot of a cache directory.
    pub fn new(cache_dir: &str) -> (r: Self)
        ensures
            r.root_dir() == path_join(cache_dir@, "warm-slots"@),
            r.placeholder_dir() == path_join(cache_dir@, "warm-slot-placeholder"@),
    {
        WarmSlots {
            root: join_path(cache_dir, "warm-slots"),
            placeholder: join_path(cache_dir, "warm-slot-placeholder"),
        }
    }

    /// The directories that have to exist: the one that holds the slot, and the one
    /// for an unused slot.
    pub fn dirs(&self) -> (r: (String, String))
        ensures
            r.0@ == self.root_dir(),
            r.1@ == self.placeholder_dir(),
    {
        (self.root.clone(), self.placeholder.clone())
    }

    /// The path of the slot.
    pub fn project_slot(&self) -> (r: String)
        ensures
            r@ == self.slot(),
    {
        join_path(self.root.as_str(), "project")
    }

    /// The value of the `--dir=` flag for the slot.
    pub fn tart_dir_arg(&self) -> (r: String)
        ensures
            r@ == self.dir_flag(),
    {
        let mut r = self.project_slot();
        r.append(":tag=");
        r.append(PROJECT_TAG);
        r
    }

    /// The symlink for a run on `project_dir`: where it is, and what it points at.
    pub fn activate(&self, project_dir: &str) -> (r: (String, String))
        ensures
            r.0@ == self.slot(),
            r.1@ == project_dir@,
    {
        (self.project_slot(), project_dir.to_owned())
    }

    /// The symlink for the creation of a warm VM: where it is, and what it points at.
    pub fn init_placeholder(&self) -> (r: (String, String))
        ensures
            r.0@ == self.slot(),
            r.1@ == self.placeholder_dir(),
    {
        (self.project_slot(), self.placeholder.clone())
    }

    /// The arguments of `tart run` for a warm VM or a clone of one: they are the same
    /// but for the name, as a snapshot can only be resumed with the shares that it
    /// was taken with.
    pub fn run_args(&self, vm_name: &str) -> (r: Vec<String>)
        ensures
            texts(r@) == resume_args(vm_name@, *self),
    {
        let r = vec![
            "run".to_owned(),
            "--suspendable".to_owned(),
            "--no-graphics".to_owned(),
            cat("--dir=", self.tart_dir_arg().as_str()),
            vm_name.to_owned(),
        ];
        assert(texts(r@) =~= resume_args(vm_name@, *self));
        r
    }
}

/// The arguments of `tart run` for a warm VM or a clone of one.
pub open spec fn resume_args(vm_name: Seq<char>, slots: WarmSlots) -> Seq<Seq<char>> {
    seq!["run"@, "--suspendable"@, "--no-graphics"@, "--dir="@ + slots.dir_flag(), vm_name]
}

// ---------------------------------------------------------------------------
// The creation of a warm VM
// ---------------------------------------------------------------------------

/// Something that is done in the course of a creation.
#[derive(Clone, Copy, Debug, PartialEq, Eq, Structural)]
pub enum CreateStep {
    /// Stop a VM that has the name already.
    StopStale,
    /// Delete a VM that has the name already.
    DeleteStale,
    /// Point the slot at the placeholder.
    PointAtPlaceholder,
    /// Clone the base image.
    Clone,
    /// Generate the key.
    GenerateKey,
    /// Put the key and the agent's binary onto the disk.
    Inject,
    /// Save the key.
    SaveKey,
    /// Boot the VM in the background.
    Start,
    /// Get the IP address of the VM.
    GetIp,
    /// Wait until the VM takes SSH connections.
    WaitForSsh,
    /// Suspend the VM.
    Suspend,
    /// Wait for the background process.
    Wait,
    /// Record the VM.
    Record,
    /// Stop the VM after a failure.
    CleanStop,
    /// Wait for the background process after a failure.
    CleanWait,
    /// Delete the VM after a failure.
    CleanDelete,
    /// It is over.
    Done,
}

/// A warm VM being created.
#[derive(Clone, Copy, Debug, PartialEq, Eq, Structural)]
pub struct Creation {
    /// Whether the VM was created and neither recorded nor asked to be deleted.
    pub vm: bool,
    /// Whether a background process runs the VM.
    pub child: bool,
    /// What is to be done now.
    pub step: CreateStep,
    /// The step whose error is the error of the creation.
    pub failed: Option<CreateStep>,
}

/// The start of a creation.
pub open spec fn create_start() -> Creation {
    Creation { vm: false, child: false, step: CreateStep::StopStale, failed: None }
}

/// What follows where the step fails. From the moment that the VM is there, it is
/// deleted, whatever fails.
pub open spec fn create_failed(c: Creation) -> Creation {
    if c.vm {
        Creation { step: CreateStep::CleanStop, failed: Some(c.step), ..c }
    } else {
        Creation { step: CreateStep::Done, failed: Some(c.step), ..c }
    }
}

/// What follows an interrupt: the same as a failure of the step that would have been
/// next. A VM that is suspended is recorded, and a teardown goes on.
pub open spec fn create_interrupted(c: Creation) -> Creation {
    match c.step {
        CreateStep::Wait
        | CreateStep::Record
        | CreateStep::CleanStop
        | CreateStep::CleanWait
        | CreateStep::CleanDelete
        | CreateStep::Done => c,
        _ => create_failed(c),
    }
}

/// What follows a step.
pub open spec fn create_after(c: Creation, ok: bool) -> Creation {
    let failing = create_failed(c);
    match c.step {
        CreateStep::StopStale => Creation { step: CreateStep::DeleteStale, ..c },
        CreateStep::DeleteStale => Creation { step: CreateStep::PointAtPlaceholder, ..c },
        CreateStep::PointAtPlaceholder => if ok {
            Creation { step: CreateStep::Clone, ..c }
        } else {
            failing
        },
        CreateStep::Clone => if ok {
            Creation { step: CreateStep::GenerateKey, vm: true, ..c }
        } else {
            failing
        },
        CreateStep::GenerateKey => if ok {
            Creation { step: CreateStep::Inject, ..c }
        } else {
            failing
        },
        CreateStep::Inject => if ok {
            Creation { step: CreateStep::SaveKey, ..c }
        } else {
            failing
        },
        CreateStep::SaveKey => if ok {
            Creation { step: CreateStep::Start, ..c }
        } else {
            failing
        },
        CreateStep::Start => if ok {
            Creation { step: CreateStep::GetIp, child: true, ..c }
        } else {
            failing
        },
        CreateStep::GetIp => if ok {
            Creation { step: CreateStep::WaitForSsh, ..c }
        } else {
            failing
        },
        CreateStep::WaitForSsh => if ok {
            Creation { step: CreateStep::Suspend, ..c }
        } else {
            failing
        },
        CreateStep::Suspend => if ok {
            Creation { step: CreateStep::Wait, ..c }
        } else {
            failing
        },
        CreateStep::Wait => Creation { step: CreateStep::Record, child: false, ..c },
        CreateStep::Record => if ok {
            Creation { step: CreateStep::Done, vm: false, ..c }
        } else {
            failing
        },
        CreateStep::CleanStop => if c.child {
            Creation { step: CreateStep::CleanWait, ..c }
        } else {
            Creation { step: CreateStep::CleanDelete, ..c }
        },
        CreateStep::CleanWait => Creation { step: CreateStep::CleanDelete, child: false, ..c },
        CreateStep::CleanDelete => Creation { step: CreateStep::Done, vm: false, ..c },
        CreateStep::Done => c,
    }
}

/// Whether a step succeeded, and whether there was an interrupt meanwhile.
pub struct Report {
    pub ok: bool,
    pub interrupted: bool,
}

/// What follows a step.
pub open spec fn create_told(c: Creation, report: Report) -> Creation {
    if report.interrupted {
        create_interrupted(create_after(c, report.ok))
    } else {
        create_after(c, report.ok)
    }
}

/// A creation after some reports.
pub open spec fn create_through(c: Creation, reports: Seq<Report>) -> Creation
    decreases reports.len(),
{
    if reports.len() == 0 {
        c
    } else {
        create_told(create_through(c, reports.drop_last()), reports.last())
    }
}

/// Clone, inject, boot and suspend a fresh warm VM.
pub fn create_warm_vm() -> (r: Creation)
    ensures
        r == create_start(),
{
    Creation { vm: false, child: false, step: CreateStep::StopStale, failed: None }
}

impl Creation {
    fn fail(&mut self)
        ensures
            *final(self) == create_failed(*old(self)),
    {
        let step = self.step;
        self.failed = Some(step);
        self.step = if self.vm {
            CreateStep::CleanStop
        } else {
            CreateStep::Done
        };
    }

    /// Take note of a signal to end.
    pub fn interrupt(&mut self)
        ensures
            *final(self) == create_interrupted(*old(self)),
    {
        match self.step {
            CreateStep::Wait
            | CreateStep::Record
            | CreateStep::CleanStop
            | CreateStep::CleanWait
            | CreateStep::CleanDelete
            | CreateStep::Done => {},
            _ => self.fail(),
        }
    }

    /// Take note of whether the step succeeded, and move on to the next.
    pub fn next(&mut self, ok: bool)
        ensures
            *final(self) == create_after(*old(self), ok),
    {
        let step = self.step;
        let needed = match step {
            CreateStep::StopStale
            | CreateStep::DeleteStale
            | CreateStep::Wait
            | CreateStep::CleanStop
            | CreateStep::CleanWait
            | CreateStep::CleanDelete
            | CreateStep::Done => false,
            _ => true,
        };
        if needed && !ok {
            self.fail();
            return ;
        }
        match step {
            CreateStep::StopStale => {
                self.step = CreateStep::DeleteStale;
            },
            CreateStep::DeleteStale => {
                self.step = CreateStep::PointAtPlaceholder;
            },
            CreateStep::PointAtPlaceholder => {
                self.step = CreateStep::Clone;
            },
            CreateStep::Clone => {
                self.step = CreateStep::GenerateKey;
                self.vm = true;
            },
            CreateStep::GenerateKey => {
                self.step = CreateStep::Inject;
            },
            CreateStep::Inject => {
                self.step = CreateStep::SaveKey;
            },
            CreateStep::SaveKey => {
                self.step = CreateStep::Start;
            },
            CreateStep::Start => {
                self.step = CreateStep::GetIp;
                self.child = true;
            },
            CreateStep::GetIp => {
                self.step = CreateStep::WaitForSsh;
            },
            CreateStep::WaitForSsh => {
                self.step = CreateStep::Suspend;
            },
            CreateStep::Suspend => {
                self.step = CreateStep::Wait;
            },
            CreateStep::Wait => {
                self.step = CreateStep::Record;
                self.child = false;
            },
            CreateStep::CleanStop => {
                self.step = if self.child {
                    CreateStep::CleanWait
                } else {
                    CreateStep::CleanDelete
                };
            },
            CreateStep::CleanWait => {
                self.step = CreateStep::CleanDelete;
                self.child = false;
            },
            CreateStep::Record | CreateStep::CleanDelete => {
                self.step = CreateStep::Done;
                self.vm = false;
            },
            CreateStep::Done => {},
        }
    }
}

/// The arguments of the tart command that a step of a creation runs, if it runs one.
pub open spec fn create_command(
    step: CreateStep,
    vm_name: Seq<char>,
    base_image: Seq<char>,
    slots: WarmSlots,
) -> Option<Seq<Seq<char>>> {
    match step {
        CreateStep::StopStale | CreateStep::CleanStop => Some(seq!["stop"@, vm_name]),
        CreateStep::DeleteStale | CreateStep::CleanDelete => Some(seq!["delete"@, vm_name]),
        CreateStep::Clone => Some(seq!["clone"@, base_image, vm_name]),
        CreateStep::Start => Some(resume_args(vm_name, slots)),
        CreateStep::Suspend => Some(seq!["suspend"@, vm_name]),
        _ => None,
    }
}

impl CreateStep {
    /// The arguments of the tart command that the step runs, if it runs one.
    pub fn command(&self, vm_name: &str, base_image: &str, slots: &WarmSlots) -> (r: Option<
        Vec<String>,
    >)
        ensures
            match create_command(*self, vm_name@, base_image@, *slots) {
                Some(args) => r matches Some(v) && texts(v@) == args,
                None => r is None,
            },
    {
        let vm = TartVm::new();
        match self {
            CreateStep::StopStale | CreateStep::CleanStop => Some(vm.stop(vm_name)),
            CreateStep::DeleteStale | CreateStep::CleanDelete => Some(vm.delete(vm_name)),
            CreateStep::Clone => Some(vm.create(&vm_config(vm_name, base_image, &Vec::new()))),
            CreateStep::Start => Some(slots.run_args(vm_name)),
            CreateStep::Suspend => {
                let r = vec!["suspend".to_owned(), vm_name.to_owned()];
                assert(texts(r@) =~= seq!["suspend"@, vm_name@]);
                Some(r)
            },
            _ => None,
        }
    }
}

/// The error of a VM that could not be suspended; `detail` is what the command wrote
/// to its standard error.
pub fn suspend_error(vm_name: &str, detail: &Vec<u8>) -> (r: String)
    ensures
        ({
            let text = trimmed(lossy_text(detail@));
            r@ == if text.len() == 0 {
                "tart suspend failed for warm VM "@ + vm_name@
            } else {
                "tart suspend failed for warm VM "@ + vm_name@ + ":\n"@ + text
            }
        }),
{
    let text = trim(from_utf8_lossy(detail).as_str());
    let mut r = cat("tart suspend failed for warm VM ", vm_name);
    if !text.as_str().is_empty() {
        r.append(":\n");
        r.append(text.as_str());
    }
    r
}

// ---------------------------------------------------------------------------
// The boot of a clone
// ---------------------------------------------------------------------------

/// Something that is done in the course of a warm boot.
#[derive(Clone, Copy, Debug, PartialEq, Eq, Structural)]
pub enum BootStep {
    /// Have a warm VM.
    EnsureWarmVm,
    /// Load the key of the warm VM.
    LoadKey,
    /// Take the lock of the pool.
    Lock,
    /// Point the slot at the project.
    ActivateSlot,
    /// Clone the warm VM.
    Clone,
    /// Start the clone in the background.
    Start,
    /// Get the IP address of the clone.
    GetIp,
    /// Wait until the clone takes SSH connections.
    WaitForSsh,
    /// Stop the clone after a failure.
    CleanStop,
    /// Wait for the background process after a failure.
    CleanWait,
    /// Delete the clone after a failure.
    CleanDelete,
    /// It is over.
    Done,
}

/// A clone of a warm VM being booted.
#[derive(Clone, Copy, Debug, PartialEq, Eq, Structural)]
pub struct WarmBoot {
    /// Whether the lock of the pool is held.
    pub locked: bool,
    /// Whether the clone was made and not asked to be deleted.
    pub vm: bool,
    /// Whether a background process runs the clone.
    pub child: bool,
    /// What is to be done now.
    pub step: BootStep,
    /// The step whose error is the error of the boot.
    pub failed: Option<BootStep>,
}

/// The start of a warm boot.
pub open spec fn boot_start() -> WarmBoot {
    WarmBoot {
        locked: false,
        vm: false,
        child: false,
        step: BootStep::EnsureWarmVm,
        failed: None,
    }
}

/// What follows where the step fails. From the moment that the clone is there, it is
/// deleted, whatever fails.
pub open spec fn boot_failed(b: WarmBoot) -> WarmBoot {
    if b.vm {
        WarmBoot { step: BootStep::CleanStop, failed: Some(b.step), locked: false, ..b }
    } else {
        WarmBoot { step: BootStep::Done, failed: Some(b.step), locked: false, ..b }
    }
}

/// What follows an interrupt: the same as a failure of the step that would have been
/// next. A teardown goes on.
pub open spec fn boot_interrupted(b: WarmBoot) -> WarmBoot {
    match b.step {
        BootStep::CleanStop | BootStep::CleanWait | BootStep::CleanDelete | BootStep::Done => b,
        _ => boot_failed(b),
    }
}

/// What follows a step. The lock is held from before the slot is pointed at the
/// project until the clone is started.
pub open spec fn boot_after(b: WarmBoot, ok: bool) -> WarmBoot {
    let failing = boot_failed(b);
    match b.step {
        BootStep::EnsureWarmVm => if ok {
            WarmBoot { step: BootStep::LoadKey, ..b }
        } else {
            failing
        },
        BootStep::LoadKey => if ok {
            WarmBoot { step: BootStep::Lock, ..b }
        } else {
            failing
        },
        BootStep::Lock => if ok {
            WarmBoot { step: BootStep::ActivateSlot, locked: true, ..b }
        } else {
            failing
        },
        BootStep::ActivateSlot => if ok {
            WarmBoot { step: BootStep::Clone, ..b }
        } else {
            failing
        },
        BootStep::Clone => if ok {
            WarmBoot { step: BootStep::Start, vm: true, ..b }
        } else {
            failing
        },
        BootStep::Start => if ok {
            WarmBoot { step: BootStep::GetIp, child: true, locked: false, ..b }
        } else {
            failing
        },
        BootStep::GetIp => if ok {
            WarmBoot { step: BootStep::WaitForSsh, ..b }
        } else {
            failing
        },
        BootStep::WaitForSsh => if ok {
            WarmBoot { step: BootStep::Done, ..b }
        } else {
            failing
        },
        BootStep::CleanStop => if b.child {
            WarmBoot { step: BootStep::CleanWait, ..b }
        } else {
            WarmBoot { step: BootStep::CleanDelete, ..b }
        },
        BootStep::CleanWait => WarmBoot { step: BootStep::CleanDelete, child: false, ..b },
        BootStep::CleanDelete => WarmBoot { step: BootStep::Done, vm: false, ..b },
        BootStep::Done => b,
    }
}

/// What follows a step.
pub open spec fn boot_told(b: WarmBoot, report: Report) -> WarmBoot {
    if report.interrupted {
        boot_interrupted(boot_after(b, report.ok))
    } else {
        boot_after(b, report.ok)
    }
}

/// A warm boot after some reports.
pub open spec fn boot_through(b: WarmBoot, reports: Seq<Report>) -> WarmBoot
    decreases reports.len(),
{
    if reports.len() == 0 {
        b
    } else {
        boot_told(boot_through(b, reports.drop_last()), reports.last())
    }
}

/// Try to boot a sandbox run via the warm pool. Where it fails, the caller can fall
/// back to a cold boot.
pub fn try_warm_boot() -> (r: WarmBoot)
    ensures
        r == boot_start(),
{
    WarmBoot {
        locked: false,
        vm: false,
        child: false,
        step: BootStep::EnsureWarmVm,
        failed: None,
    }
}

impl WarmBoot {
    fn fail(&mut self)
        ensures
            *final(self) == boot_failed(*old(self)),
    {
        let step = self.step;
        self.failed = Some(step);
        self.locked = false;
        self.step = if self.vm {
            BootStep::CleanStop
        } else {
            BootStep::Done
        };
    }

    /// Take note of a signal to end.
    pub fn interrupt(&mut self)
        ensures
            *final(self) == boot_interrupted(*old(self)),
    {
        match self.step {
            BootStep::CleanStop | BootStep::CleanWait | BootStep::CleanDelete | BootStep::Done => {},
            _ => self.fail(),
        }
    }

    /// Take note of whether the step succeeded, and move on to the next.
    pub fn next(&mut self, ok: bool)
        ensures
            *final(self) == boot_after(*old(self), ok),
    {
        let step = self.step;
        let needed = match step {
            BootStep::CleanStop | BootStep::CleanWait | BootStep::CleanDelete | BootStep::Done =>
                false,
            _ => true,
        };
        if needed && !ok {
            self.fail();
            return ;
        }
        match step {
            BootStep::EnsureWarmVm => {
                self.step = BootStep::LoadKey;
            },
            BootStep::LoadKey => {
                self.step = BootStep::Lock;
            },
            BootStep::Lock => {
                self.step = BootStep::ActivateSlot;
                self.locked = true;
            },
            BootStep::ActivateSlot => {
                self.step = BootStep::Clone;
            },
            BootStep::Clone => {
                self.step = BootStep::Start;
                self.vm = true;
            },
            BootStep::Start => {
                self.step = BootStep::GetIp;
                self.child = true;
                self.locked = false;
            },
            BootStep::GetIp => {
                self.step = BootStep::WaitForSsh;
            },
            BootStep::WaitForSsh => {
                self.step = BootStep::Done;
            },
            BootStep::CleanStop => {
                self.step = if self.child {
                    BootStep::CleanWait
                } else {
                    BootStep::CleanDelete
                };
            },
            BootStep::CleanWait => {
                self.step = BootStep::CleanDelete;
                self.child = false;
            },
            BootStep::CleanDelete => {
                self.step = BootStep::Done;
                self.vm = false;
            },
            BootStep::Done => {},
        }
    }
}

/// The arguments of the tart command that a step of a warm boot runs, if it runs one.
pub open spec fn boot_command(
    step: BootStep,
    run_name: Seq<char>,
    warm_name: Seq<char>,
    slots: WarmSlots,
) -> Option<Seq<Seq<char>>> {
    match step {
        BootStep::Clone => Some(seq!["clone"@, warm_name, run_name]),
        BootStep::Start => Some(resume_args(run_name, slots)),
        BootStep::CleanStop => Some(seq!["stop"@, run_name]),
        BootStep::CleanDelete => Some(seq!["delete"@, run_name]),
        _ => None,
    }
}

impl BootStep {
    /// The arguments of the tart command that the step runs, if it runs one.
    pub fn command(&self, run_name: &str, warm_name: &str, slots: &WarmSlots) -> (r: Option<
        Vec<String>,
    >)
        ensures
            match boot_command(*self, run_name@, warm_name@, *slots) {
                Some(args) => r matches Some(v) && texts(v@) == args,
                None => r is None,
            },
    {
        let vm = TartVm::new();
        match self {
            BootStep::Clone => Some(vm.create(&vm_config(run_name, warm_name, &Vec::new()))),
            BootStep::Start => Some(slots.run_args(run_name)),
            BootStep::CleanStop => Some(vm.stop(run_name)),
            BootStep::CleanDelete => Some(vm.delete(run_name)),
            _ => None,
        }
    }
}

// ---------------------------------------------------------------------------
// Laws
// ---------------------------------------------------------------------------

spec fn create_inv(c: Creation) -> bool {
    &&& match c.step {
        CreateStep::StopStale
        | CreateStep::DeleteStale
        | CreateStep::PointAtPlaceholder
        | CreateStep::Clone
        | CreateStep::Done => !c.vm && !c.child,
        CreateStep::GenerateKey | CreateStep::Inject | CreateStep::SaveKey | CreateStep::Start
        | CreateStep::Record => c.vm && !c.child,
        CreateStep::GetIp | CreateStep::WaitForSsh | CreateStep::Suspend | CreateStep::Wait
        | CreateStep::CleanWait => c.vm && c.child,
        CreateStep::CleanStop => c.vm,
        CreateStep::CleanDelete => c.vm && !c.child,
    }
    &&& match c.step {
        CreateStep::CleanStop | CreateStep::CleanWait | CreateStep::CleanDelete => c.failed is Some,
        CreateStep::Done => true,
        _ => c.failed is None,
    }
}

proof fn lemma_create_inv(reports: Seq<Report>)
    ensures
        create_inv(create_through(create_start(), reports)),
    decreases reports.len(),
{
    if reports.len() > 0 {
        lemma_create_inv(reports.drop_last());
    }
}

/// No unrecorded warm VM is left behind: when a creation is over, the VM is recorded,
/// or it was asked to be deleted, and nothing runs it any more.
pub proof fn no_warm_vm_is_left_behind(reports: Seq<Report>)
    ensures
        ({
            let c = create_through(create_start(), reports);
            c.step == CreateStep::Done ==> !c.vm && !c.child
        }),
{
    lemma_create_inv(reports);
}

/// How far a creation has come.
pub open spec fn create_rank(step: CreateStep) -> nat {
    match step {
        CreateStep::StopStale => 0,
        CreateStep::DeleteStale => 1,
        CreateStep::PointAtPlaceholder => 2,
        CreateStep::Clone => 3,
        CreateStep::GenerateKey => 4,
        CreateStep::Inject => 5,
        CreateStep::SaveKey => 6,
        CreateStep::Start => 7,
        CreateStep::GetIp => 8,
        CreateStep::WaitForSsh => 9,
        CreateStep::Suspend => 10,
        CreateStep::Wait => 11,
        CreateStep::Record => 12,
        CreateStep::CleanStop => 13,
        CreateStep::CleanWait => 14,
        CreateStep::CleanDelete => 15,
        CreateStep::Done => 16,
    }
}

/// Every creation comes to an end: each report brings it closer, and after sixteen it
/// is over.
pub proof fn every_creation_ends(reports: Seq<Report>)
    ensures
        create_rank(create_through(create_start(), reports).step) >= if reports.len() < 16 {
            reports.len() as int
        } else {
            16
        },
        reports.len() >= 16 ==> create_through(create_start(), reports).step == CreateStep::Done,
    decreases reports.len(),
{
    if reports.len() > 0 {
        every_creation_ends(reports.drop_last());
    }
}

spec fn boot_inv(b: WarmBoot) -> bool {
    &&& b.locked == (b.step == BootStep::ActivateSlot || b.step == BootStep::Clone || b.step
        == BootStep::Start)
    &&& match b.step {
        BootStep::EnsureWarmVm
        | BootStep::LoadKey
        | BootStep::Lock
        | BootStep::ActivateSlot
        | BootStep::Clone => !b.vm && !b.child,
        BootStep::Start => b.vm && !b.child,
        BootStep::GetIp | BootStep::WaitForSsh | BootStep::CleanWait => b.vm && b.child,
        BootStep::CleanStop => b.vm,
        BootStep::CleanDelete => b.vm && !b.child,
        BootStep::Done => b.vm == (b.failed is None) && b.child == (b.failed is None),
    }
    &&& match b.step {
        BootStep::CleanStop | BootStep::CleanWait | BootStep::CleanDelete => b.failed is Some,
        BootStep::Done => true,
        _ => b.failed is None,
    }
}

proof fn lemma_boot_inv(reports: Seq<Report>)
    ensures
        boot_inv(boot_through(boot_start(), reports)),
    decreases reports.len(),
{
    if reports.len() > 0 {
        lemma_boot_inv(reports.drop_last());
    }
}

/// A warm boot either gives the caller a clone that runs, or leaves nothing behind.
pub proof fn warm_boot_is_all_or_nothing(reports: Seq<Report>)
    ensures
        ({
            let b = boot_through(boot_start(), reports);
            b.step == BootStep::Done ==> (if b.failed is None {
                b.vm && b.child
            } else {
                !b.vm && !b.child
            })
        }),
{
    lemma_boot_inv(reports);
}

/// How far a warm boot has come.
pub open spec fn boot_rank(step: BootStep) -> nat {
    match step {
        BootStep::EnsureWarmVm => 0,
        BootStep::LoadKey => 1,
        BootStep::Lock => 2,
        BootStep::ActivateSlot => 3,
        BootStep::Clone => 4,
        BootStep::Start => 5,
        BootStep::GetIp => 6,
        BootStep::WaitForSsh => 7,
        BootStep::CleanStop => 8,
        BootStep::CleanWait => 9,
        BootStep::CleanDelete => 10,
        BootStep::Done => 11,
    }
}

/// Every warm boot comes to an end: each report brings it closer, and after eleven it
/// is over.
pub proof fn every_warm_boot_ends(reports: Seq<Report>)
    ensures
        boot_rank(boot_through(boot_start(), reports).step) >= if reports.len() < 11 {
            reports.len() as int
        } else {
            11
        },
        reports.len() >= 11 ==> boot_through(boot_start(), reports).step == BootStep::Done,
    decreases reports.len(),
{
    if reports.len() > 0 {
        every_warm_boot_ends(reports.drop_last());
    }
}

/// A clone is resumed as its warm VM was booted: the commands that start the two are
/// the same but for the name of the VM, so the snapshot fits.
pub proof fn clones_are_resumed_as_they_were_booted(
    run_name: Seq<char>,
    warm_name: Seq<char>,
    base_image: Seq<char>,
    slots: WarmSlots,
)
    ensures
        boot_command(BootStep::Start, run_name, warm_name, slots)->0.drop_last() == create_command(
            CreateStep::Start,
            warm_name,
            base_image,
            slots,
        )->0.drop_last(),
{
    assert(resume_args(run_name, slots).drop_last() =~= resume_args(
        warm_name,
        slots,
    ).drop_last());
}

/// The slot is pointed at the project, and the clone is made and started, under the
/// lock of the pool; nothing else is.
pub proof fn slot_is_used_under_the_lock(reports: Seq<Report>)
    ensures
        ({
            let b = boot_through(boot_start(), reports);
            b.locked == (b.step == BootStep::ActivateSlot || b.step == BootStep::Clone || b.step
                == BootStep::Start)
        }),
{
    lemma_boot_inv(reports);
}

// ---------------------------------------------------------------------------
// Names, ages and steps
// ---------------------------------------------------------------------------

proof fn lemma_hex_is_no_separator(n: nat, width: nat)
    ensures
        forall|i: int| 0 <= i < hex(n, width).len() ==> #[trigger] hex(n, width)[i] != '/',
    decreases width,
{
    if width > 0 {
        let front = hex(n / 16, (width - 1) as nat);
        lemma_hex_is_no_separator(n / 16, (width - 1) as nat);
        assert(hex(n, width) == front.push(crate::text::hex_digit(n % 16)));
        assert(n % 16 < 16);
        assert forall|i: int| 0 <= i < hex(n, width).len() implies #[trigger] hex(n, width)[i]
            != '/' by {
            if i < front.len() {
                assert(hex(n, width)[i] == front[i]);
            }
        }
    }
}

/// An image is known in the names of its warm VM and its key by the first eight of the
/// sixteen digits of the hash of its ref.
pub proof fn names_hold_the_hash_of_the_image(
    agent: Seq<char>,
    image_ref: Seq<char>,
    cache_dir: Seq<char>,
)
    requires
        cache_dir.len() > 0,
        cache_dir.last() != '/',
    ensures
        ({
            let digits = hex(DefaultHasher::spec_finish(hash_writes(image_ref)) as nat, 16);
            &&& digits.len() == 16
            &&& warm_vm_name(agent, image_ref) == agent + "-box-warm-"@ + digits.take(8)
            &&& key_path(cache_dir, image_ref) == cache_dir + "/warm-keys/"@ + digits.take(8)
                + ".pem"@
        }),
{
    let n = DefaultHasher::spec_finish(hash_writes(image_ref)) as nat;
    lemma_hex_len(n, 16);
    lemma_hex_is_no_separator(n, 16);
    reveal_strlit("warm-keys");
    reveal_strlit("/warm-keys/");
    reveal_strlit(".pem");
    let id = hex(n, 16).take(8);
    assert(id[0] == hex(n, 16)[0]);
    assert((id + ".pem"@)[0] == id[0]);
    assert(key_path(cache_dir, image_ref) =~= cache_dir + "/warm-keys/"@ + id + ".pem"@);
}

/// A warm VM is used for a week from the second of its creation on. Its age is the time
/// since then, and one from the future is new.
pub proof fn warm_vms_are_used_for_a_week(entry: WarmPoolEntry, now: u64)
    ensures
        is_fresh(entry, now) <==> now < entry.created_at + 7 * 24 * 60 * 60,
        now >= entry.created_at ==> entry.created_at + age_of(entry, now) == now,
        now < entry.created_at ==> age_of(entry, now) == 0,
{
}

/// A warm VM and its clones are started without a window, so that they can be suspended,
/// and with the slot of the project as their only share, which can be written.
pub proof fn slot_is_the_only_share(vm_name: Seq<char>, slots: WarmSlots)
    ensures
        resume_args(vm_name, slots) == seq![
            "run"@,
            "--suspendable"@,
            "--no-graphics"@,
            "--dir="@ + (path_join(slots.root_dir(), "project"@) + ":tag="@ + "project"@),
            vm_name,
        ],
{
}

/// The tart commands of a creation and of a warm boot. A creation never touches another VM
/// than the warm one, and a boot none but the clone; the base image and the warm VM are
/// only cloned.
pub proof fn pool_runs_these_commands(
    create: CreateStep,
    boot: BootStep,
    run_name: Seq<char>,
    warm_name: Seq<char>,
    base_image: Seq<char>,
    slots: WarmSlots,
)
    ensures
        create_command(create, warm_name, base_image, slots) == match create {
            CreateStep::StopStale | CreateStep::CleanStop => Some(seq!["stop"@, warm_name]),
            CreateStep::DeleteStale | CreateStep::CleanDelete => Some(seq!["delete"@, warm_name]),
            CreateStep::Clone => Some(seq!["clone"@, base_image, warm_name]),
            CreateStep::Start => Some(resume_args(warm_name, slots)),
            CreateStep::Suspend => Some(seq!["suspend"@, warm_name]),
            _ => None,
        },
        boot_command(boot, run_name, warm_name, slots) == match boot {
            BootStep::Clone => Some(seq!["clone"@, warm_name, run_name]),
            BootStep::Start => Some(resume_args(run_name, slots)),
            BootStep::CleanStop => Some(seq!["stop"@, run_name]),
            BootStep::CleanDelete => Some(seq!["delete"@, run_name]),
            _ => None,
        },
{
}

/// A creation in which every step succeeds takes these steps in this order.
pub proof fn creation_takes_these_steps(reports: Seq<Report>, j: int)
    requires
        forall|k: int| 0 <= k < reports.len() ==> (#[trigger] reports[k]).ok && !reports[k].interrupted,
        0 <= j <= reports.len(),
        j < 14,
    ensures
        ({
            let list = seq![
                CreateStep::StopStale,
                CreateStep::DeleteStale,
                CreateStep::PointAtPlaceholder,
                CreateStep::Clone,
                CreateStep::GenerateKey,
                CreateStep::Inject,
                CreateStep::SaveKey,
                CreateStep::Start,
                CreateStep::GetIp,
                CreateStep::WaitForSsh,
                CreateStep::Suspend,
                CreateStep::Wait,
                CreateStep::Record,
                CreateStep::Done,
            ];
            let c = create_through(create_start(), reports.take(j));
            &&& c.step == list[j]
            &&& c.failed is None
        }),
    decreases j,
{
    lemma_create_inv(reports.take(j));
    if j > 0 {
        creation_takes_these_steps(reports, j - 1);
        lemma_create_inv(reports.take(j - 1));
        assert(reports.take(j).drop_last() =~= reports.take(j - 1));
        assert(reports.take(j).last() == reports[j - 1]);
    }
}

/// A step that fails gives the creation its error: as long as no VM was cloned it is over
/// at once, and afterwards the VM is torn down. A VM that is in the way need not be there,
/// and the suspended VM's process need not end well. A teardown is completed: the process
/// is waited for where there is one, and the VM is deleted.
pub proof fn failed_creations_are_torn_down(reports: Seq<Report>)
    requires
        reports.len() > 0,
        !reports.last().ok,
        !reports.last().interrupted,
    ensures
        ({
            let before = create_through(create_start(), reports.drop_last());
            let c = create_through(create_start(), reports);
            match before.step {
                CreateStep::StopStale => c.step == CreateStep::DeleteStale && c.failed is None,
                CreateStep::DeleteStale => c.step == CreateStep::PointAtPlaceholder
                    && c.failed is None,
                CreateStep::PointAtPlaceholder | CreateStep::Clone => c.step == CreateStep::Done
                    && c.failed == Some(before.step),
                CreateStep::GenerateKey
                | CreateStep::Inject
                | CreateStep::SaveKey
                | CreateStep::Start
                | CreateStep::GetIp
                | CreateStep::WaitForSsh
                | CreateStep::Suspend
                | CreateStep::Record => c.step == CreateStep::CleanStop && c.failed == Some(
                    before.step,
                ),
                CreateStep::Wait => c.step == CreateStep::Record && c.failed is None,
                CreateStep::CleanStop => (c.step == CreateStep::CleanWait || c.step
                    == CreateStep::CleanDelete) && c.failed == before.failed,
                CreateStep::CleanWait => c.step == CreateStep::CleanDelete && c.failed
                    == before.failed,
                CreateStep::CleanDelete | CreateStep::Done => c.step == CreateStep::Done && c.failed
                    == before.failed,
            }
        }),
{
    lemma_create_inv(reports.drop_last());
}

/// The process of a warm VM is waited for in a teardown exactly where the VM was started
/// and its process was not waited for before.
pub proof fn started_warm_vms_are_waited_for(reports: Seq<Report>, stop: Report)
    requires
        reports.len() > 0,
        !reports.last().ok,
        !reports.last().interrupted,
    ensures
        ({
            let before = create_through(create_start(), reports.drop_last());
            let next = create_through(create_start(), reports.push(stop));
            match before.step {
                CreateStep::GenerateKey
                | CreateStep::Inject
                | CreateStep::SaveKey
                | CreateStep::Start
                | CreateStep::Record => next.step == CreateStep::CleanDelete,
                CreateStep::GetIp | CreateStep::WaitForSsh | CreateStep::Suspend => next.step
                    == CreateStep::CleanWait,
                _ => true,
            }
        }),
{
    lemma_create_inv(reports.drop_last());
    assert(reports.push(stop).drop_last() =~= reports);
    reveal_with_fuel(create_through, 2);
}

/// An interrupt ends a creation as a failure of the step that would have been next would
/// have, but a VM that is suspended is recorded, and a teardown goes on.
pub proof fn interrupted_creations_are_torn_down(reports: Seq<Report>)
    requires
        reports.len() > 0,
        reports.last().interrupted,
    ensures
        ({
            let went = Report { ok: reports.last().ok, interrupted: false };
            let next = create_through(create_start(), reports.drop_last().push(went));
            let c = create_through(create_start(), reports);
            match next.step {
                CreateStep::StopStale
                | CreateStep::DeleteStale
                | CreateStep::PointAtPlaceholder
                | CreateStep::Clone => c.step == CreateStep::Done && c.failed == Some(next.step),
                CreateStep::GenerateKey
                | CreateStep::Inject
                | CreateStep::SaveKey
                | CreateStep::Start
                | CreateStep::GetIp
                | CreateStep::WaitForSsh
                | CreateStep::Suspend => c.step == CreateStep::CleanStop && c.failed == Some(
                    next.step,
                ),
                _ => c == next,
            }
        }),
{
    let went = Report { ok: reports.last().ok, interrupted: false };
    let other = reports.drop_last().push(went);
    assert(other.drop_last() =~= reports.drop_last());
    lemma_create_inv(reports.drop_last());
    lemma_create_inv(other);
}

/// A warm boot in which every step succeeds takes these steps in this order.
pub proof fn warm_boot_takes_these_steps(reports: Seq<Report>, j: int)
    requires
        forall|k: int| 0 <= k < reports.len() ==> (#[trigger] reports[k]).ok && !reports[k].interrupted,
        0 <= j <= reports.len(),
        j < 9,
    ensures
        ({
            let list = seq![
                BootStep::EnsureWarmVm,
                BootStep::LoadKey,
                BootStep::Lock,
                BootStep::ActivateSlot,
                BootStep::Clone,
                BootStep::Start,
                BootStep::GetIp,
                BootStep::WaitForSsh,
                BootStep::Done,
            ];
            let b = boot_through(boot_start(), reports.take(j));
            &&& b.step == list[j]
            &&& b.failed is None
        }),
    decreases j,
{
    lemma_boot_inv(reports.take(j));
    if j > 0 {
        warm_boot_takes_these_steps(reports, j - 1);
        lemma_boot_inv(reports.take(j - 1));
        assert(reports.take(j).drop_last() =~= reports.take(j - 1));
        assert(reports.take(j).last() == reports[j - 1]);
    }
}

/// A step that fails gives the warm boot its error: as long as there is no clone it is
/// over at once, and afterwards the clone is torn down: its process is waited for where
/// it was started, and it is deleted, whatever that reports.
pub proof fn failed_warm_boots_are_torn_down(reports: Seq<Report>, stop: Report)
    requires
        reports.len() > 0,
        !reports.last().ok,
        !reports.last().interrupted,
    ensures
        ({
            let before = boot_through(boot_start(), reports.drop_last());
            let b = boot_through(boot_start(), reports);
            let next = boot_through(boot_start(), reports.push(stop));
            match before.step {
                BootStep::EnsureWarmVm
                | BootStep::LoadKey
                | BootStep::Lock
                | BootStep::ActivateSlot
                | BootStep::Clone => b.step == BootStep::Done && b.failed == Some(before.step),
                BootStep::Start => b.step == BootStep::CleanStop && b.failed == Some(before.step)
                    && next.step == BootStep::CleanDelete,
                BootStep::GetIp | BootStep::WaitForSsh => b.step == BootStep::CleanStop && b.failed
                    == Some(before.step) && next.step == BootStep::CleanWait,
                BootStep::CleanStop => (b.step == BootStep::CleanWait || b.step
                    == BootStep::CleanDelete) && b.failed == before.failed,
                BootStep::CleanWait => b.step == BootStep::CleanDelete && b.failed == before.failed,
                BootStep::CleanDelete | BootStep::Done => b.step == BootStep::Done && b.failed
                    == before.failed,
            }
        }),
{
    lemma_boot_inv(reports.drop_last());
    assert(reports.push(stop).drop_last() =~= reports);
    reveal_with_fuel(boot_through, 2);
}

/// An interrupt ends a warm boot as a failure of the step that would have been next would
/// have. A teardown goes on, and a boot that is over stays as it is.
pub proof fn interrupted_warm_boots_are_torn_down(reports: Seq<Report>)
    requires
        reports.len() > 0,
        reports.last().interrupted,
    ensures
        ({
            let went = Report { ok: reports.last().ok, interrupted: false };
            let next = boot_through(boot_start(), reports.drop_last().push(went));
            let b = boot_through(boot_start(), reports);
            match next.step {
                BootStep::EnsureWarmVm
                | BootStep::LoadKey
                | BootStep::Lock
                | BootStep::ActivateSlot
                | BootStep::Clone => b.step == BootStep::Done && b.failed == Some(next.step),
                BootStep::Start | BootStep::GetIp | BootStep::WaitForSsh => b.step
                    == BootStep::CleanStop && b.failed == Some(next.step),
                _ => b == next,
            }
        }),
{
    let went = Report { ok: reports.last().ok, interrupted: false };
    let other = reports.drop_last().push(went);
    assert(other.drop_last() =~= reports.drop_last());
    lemma_boot_inv(reports.drop_last());
    lemma_boot_inv(other);
}

// ---------------------------------------------------------------------------
// The record of the pool
// ---------------------------------------------------------------------------

/// A recorded warm VM is used exactly where it is there and younger than a week, and the
/// record stays as it is. Otherwise it is replaced and forgotten, and no other is.
pub proof fn fresh_warm_vms_are_used(
    image_ref: &str,
    now: u64,
    exists_there: bool,
    state: &mut WarmPoolState,
    r: EnsureAction,
    other: Seq<char>,
)
    requires
        call_ensures(ensure_warm_vm, (image_ref, now, exists_there, state), r),
    ensures
        r is Create <==> !old(state)@.contains_key(image_ref@),
        r is UseIt <==> old(state)@.contains_key(image_ref@) && exists_there && now < old(state)@[image_ref@].created_at + 604800,
        r matches EnsureAction::UseIt(name) ==> name@ == old(state)@[image_ref@].tart_name@,
        r matches EnsureAction::Replace(name) ==> name@ == old(state)@[image_ref@].tart_name@
            && !final(state)@.contains_key(image_ref@),
        !(r is Replace) ==> *final(state) == *old(state),
        other != image_ref@ ==> final(state)@.contains_key(other) == old(state)@.contains_key(other)
            && (old(state)@.contains_key(other) ==> final(state)@[other] == old(state)@[other]),
{
}

/// A warm VM that is recorded is found again, with its name and its time, and all others
/// stay recorded as they were.
pub proof fn recorded_warm_vms_are_found(
    state: &mut WarmPoolState,
    image_ref: &str,
    tart_name: &str,
    now: u64,
    other: Seq<char>,
)
    requires
        call_ensures(WarmPoolState::set, (state, image_ref, tart_name, now), ()),
    ensures
        final(state)@.contains_key(image_ref@),
        final(state)@[image_ref@].tart_name@ == tart_name@,
        final(state)@[image_ref@].created_at == now,
        other != image_ref@ ==> final(state)@.contains_key(other) == old(state)@.contains_key(other)
            && (old(state)@.contains_key(other) ==> final(state)@[other] == old(state)@[other]),
{
    let a = old(state)@.remove(image_ref@);
    let b = final(state)@.remove(image_ref@);
    if other != image_ref@ {
        assert(a.contains_key(other) == b.contains_key(other));
        if a.contains_key(other) {
            assert(a[other] == b[other]);
        }
    }
}

/// A warm VM that is to be created anew is the recorded one, and is forgotten; no other
/// is.
pub proof fn refreshed_warm_vms_are_forgotten(
    image_ref: &str,
    state: &mut WarmPoolState,
    r: Option<String>,
    other: Seq<char>,
)
    requires
        call_ensures(refresh_warm_vm, (image_ref, state), r),
    ensures
        r is Some <==> old(state)@.contains_key(image_ref@),
        r matches Some(name) ==> name@ == old(state)@[image_ref@].tart_name@,
        !final(state)@.contains_key(image_ref@),
        other != image_ref@ ==> final(state)@.contains_key(other) == old(state)@.contains_key(other)
            && (old(state)@.contains_key(other) ==> final(state)@[other] == old(state)@[other]),
{
}

/// Deleting all warm VMs goes through the record one by one: as long as one is recorded,
/// one of them is given back with its name and forgotten, and the others stay. It is over
/// exactly where none is left.
pub proof fn all_warm_vms_are_deleted(
    state: &mut WarmPoolState,
    r: Option<(String, String)>,
    other: Seq<char>,
)
    requires
        call_ensures(delete_all_warm_vms, (state,), r),
    ensures
        r is None ==> !old(state)@.contains_key(other),
        r matches Some((image_ref, name)) ==> {
            &&& old(state)@.contains_key(image_ref@)
            &&& name@ == old(state)@[image_ref@].tart_name@
            &&& !final(state)@.contains_key(image_ref@)
            &&& other != image_ref@ ==> final(state)@.contains_key(other) == old(state)@.contains_key(other)
        },
{
    old(state).order_lists_the_refs();
    if let Some((image_ref, name)) = r {
        assert(old(state).order().contains(old(state).order()[0]));
    }
}

/// The list of warm VMs tells of every recorded one its image, its name and its age.
pub proof fn every_warm_vm_is_listed(
    state: &WarmPoolState,
    now: u64,
    r: Vec<(String, String, u64)>,
    image_ref: Seq<char>,
)
    requires
        call_ensures(list_warm_vms, (state, now), r),
        state@.contains_key(image_ref),
    ensures
        exists|i: int|
            0 <= i < r@.len() && (#[trigger] r@[i]).0@ == image_ref && r@[i].1@
                == state@[image_ref].tart_name@ && r@[i].2 == (if now >= state@[image_ref].created_at {
                now - state@[image_ref].created_at
            } else {
                0
            }),
{
    state.order_lists_the_refs();
    let i = choose|i: int| 0 <= i < state.order().len() && state.order()[i] == image_ref;
    assert(r@[i].0@ == image_ref);
}

/// The slot of a project is a symlink at a place that is always the same: for a run it
/// points at the project, and for the creation of a warm VM at the placeholder.
pub proof fn slot_stays_where_it_is(
    slots: &WarmSlots,
    project_dir: &str,
    active: (String, String),
    idle: (String, String),
)
    requires
        call_ensures(WarmSlots::activate, (slots, project_dir), active),
        call_ensures(WarmSlots::init_placeholder, (slots,), idle),
    ensures
        active.0@ == idle.0@,
        active.0@ == path_join(slots.root_dir(), "project"@),
        active.1@ == project_dir@,
        idle.1@ == slots.placeholder_dir(),
{
}

} // verus!
