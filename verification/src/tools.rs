//! What the agent finds in the guest: its configuration and the host binaries that
//! it may use.
use vstd::prelude::*;
use vstd::utf8::{decode_utf8, valid_utf8};

use crate::names::{below_root, binary_tag, binary_tags_differ, guest_bin, tag_of_binaries};
use crate::paths::{canonical_parts, split_canonical};
use crate::settings::{
    can_stage, is_config_error, prepare_claude_config, staged_from, ConfigError, SettingsFile,
    StagedConfig,
};
use crate::text::{cat, decimal, decimal_text, from_utf8, listed, text_of, texts};

verus! {

/// A group of host binaries from the same parent directory, to be mounted
/// as a single read-only VirtioFS share.
#[derive(Debug)]
pub struct BinaryDirShare {
    /// The host directory to mount (parent of one or more resolved binaries), by the
    /// bytes of its path.
    pub host_dir: Vec<u8>,
    /// VirtioFS share tag.
    pub tag: String,
    /// Names to expose on the guest PATH (original command names).
    pub names: Vec<String>,
    /// Canonical filenames inside `host_dir` corresponding to each entry in
    /// `names` (same length, same order). They differ where the binary is a
    /// symlink whose target has a different name.
    pub canonical_filenames: Vec<String>,
}

/// Return the guest path of the binary symlink farm.
pub fn guest_bin_path(agent: &str) -> (r: String)
    ensures
        r@ == guest_bin(agent@),
{
    below_root(agent, "/bin")
}

// ---------------------------------------------------------------------------
// Binary resolution
// ---------------------------------------------------------------------------

/// A path of the host.
#[verifier::external_type_specification]
#[verifier::external_body]
pub struct ExPathBuf(std::path::PathBuf);

/// A search for an executable: what was looked for, and what was found.
struct Search {
    name: String,
    path: Option<std::path::PathBuf>,
}

/// `which::which` looks for an executable on `PATH`; the answer is given together with
/// the name that was looked for. What it finds depends on the environment and the
/// disk, so nothing is claimed of that.
#[verifier::external_body]
fn which(name: &str) -> (r: Search)
    ensures
        r.name@ == name@,
{
    Search { name: name.to_string(), path: which::which(name).ok() }
}

/// `Path::canonicalize` resolves all symlinks of a path; the result is given by its
/// bytes. What it finds depends on the disk, so nothing is claimed of it.
#[verifier::external_body]
fn canonicalize(path: &std::path::PathBuf) -> (r: Option<Vec<u8>>) {
    path.canonicalize().ok().map(|p| p.into_os_string().into_encoded_bytes())
}

/// Why a binary cannot be offered to the guest.
#[derive(Debug)]
pub enum BinaryError {
    /// It is not on the host's `PATH`.
    NotFound(String),
    /// Its path cannot be resolved.
    NotCanonical(String),
    /// It has no parent directory.
    NoParent(String),
}

impl BinaryError {
    /// The binary that the error is about.
    pub open spec fn binary(&self) -> Seq<char> {
        match *self {
            BinaryError::NotFound(name) => name@,
            BinaryError::NotCanonical(name) => name@,
            BinaryError::NoParent(name) => name@,
        }
    }

    /// The error in words.
    pub open spec fn text(&self) -> Seq<char> {
        match *self {
            BinaryError::NotFound(name) => "binary '"@ + name@ + "' not found on host PATH"@,
            BinaryError::NotCanonical(name) => "canonicalizing path for '"@ + name@ + "'"@,
            BinaryError::NoParent(name) => "binary '"@ + name@ + "' has no parent directory"@,
        }
    }

    /// The error in words.
    pub fn message(&self) -> (r: String)
        ensures
            r@ == self.text(),
    {
        match self {
            BinaryError::NotFound(name) => {
                let mut r = cat("binary '", name.as_str());
                r.append("' not found on host PATH");
                r
            },
            BinaryError::NotCanonical(name) => {
                let mut r = cat("canonicalizing path for '", name.as_str());
                r.append("'");
                r
            },
            BinaryError::NoParent(name) => {
                let mut r = cat("binary '", name.as_str());
                r.append("' has no parent directory");
                r
            },
        }
    }
}

/// A requested binary with the place where it was found.
pub struct ResolvedBinary {
    /// The name under which it was requested.
    pub name: String,
    /// The directory that holds it, by the bytes of its path.
    pub dir: Vec<u8>,
    /// Its file name in that directory.
    pub file: String,
}

/// The directories of some binaries: each once, in the order in which they first
/// occur.
pub open spec fn dir_list(rs: Seq<ResolvedBinary>) -> Seq<Seq<u8>>
    decreases rs.len(),
{
    if rs.len() == 0 {
        seq![]
    } else {
        let front = dir_list(rs.drop_last());
        if front.contains(rs.last().dir@) {
            front
        } else {
            front.push(rs.last().dir@)
        }
    }
}

/// The first components of some pairs.
pub open spec fn firsts(e: Seq<(Seq<char>, Seq<char>)>) -> Seq<Seq<char>> {
    e.map_values(|p: (Seq<char>, Seq<char>)| p.0)
}

/// The second components of some pairs.
pub open spec fn seconds(e: Seq<(Seq<char>, Seq<char>)>) -> Seq<Seq<char>> {
    e.map_values(|p: (Seq<char>, Seq<char>)| p.1)
}

/// The names of the binaries in `dir`, each once and with the file name that it
/// had when it first occurred.
pub open spec fn entries_of(rs: Seq<ResolvedBinary>, dir: Seq<u8>) -> Seq<(Seq<char>, Seq<char>)>
    decreases rs.len(),
{
    if rs.len() == 0 {
        seq![]
    } else {
        let front = entries_of(rs.drop_last(), dir);
        let b = rs.last();
        if b.dir@ == dir && !firsts(front).contains(b.name@) {
            front.push((b.name@, b.file@))
        } else {
            front
        }
    }
}

/// Whether `share` offers the binaries in the directory number `i`.
pub open spec fn is_share_of(
    agent: Seq<char>,
    rs: Seq<ResolvedBinary>,
    i: int,
    share: BinaryDirShare,
) -> bool {
    let dir = dir_list(rs)[i];
    &&& share.host_dir@ == dir
    &&& share.tag@ == binary_tag(agent, i as nat)
    &&& texts(share.names@) == firsts(entries_of(rs, dir))
    &&& texts(share.canonical_filenames@) == seconds(entries_of(rs, dir))
}

/// Whether `shares` offers the binaries `rs`, one share per directory.
pub open spec fn are_shares_of(
    agent: Seq<char>,
    rs: Seq<ResolvedBinary>,
    shares: Seq<BinaryDirShare>,
) -> bool {
    &&& shares.len() == dir_list(rs).len()
    &&& forall|i: int|
        0 <= i < shares.len() ==> is_share_of(agent, rs, i, #[trigger] shares[i])
}

/// The bytes of each path of a sequence.
pub open spec fn byte_paths(v: Seq<Vec<u8>>) -> Seq<Seq<u8>> {
    v.map_values(|b: Vec<u8>| b@)
}

fn same_bytes(a: &Vec<u8>, b: &Vec<u8>) -> (r: bool)
    ensures
        r == (a@ == b@),
{
    if a.len() != b.len() {
        return false;
    }
    let mut i: usize = 0;
    while i < a.len()
        invariant
            i <= a.len() == b.len(),
            forall|j: int| 0 <= j < i ==> a@[j] == b@[j],
        decreases a.len() - i,
    {
        if a[i] != b[i] {
            return false;
        }
        i += 1;
    }
    assert(a@ =~= b@);
    true
}

fn has_dir(dirs: &Vec<Vec<u8>>, dir: &Vec<u8>) -> (r: bool)
    ensures
        r == byte_paths(dirs@).contains(dir@),
{
    let mut i: usize = 0;
    while i < dirs.len()
        invariant
            i <= dirs.len(),
            forall|j: int| 0 <= j < i ==> byte_paths(dirs@)[j] != dir@,
        decreases dirs.len() - i,
    {
        if same_bytes(&dirs[i], dir) {
            assert(byte_paths(dirs@)[i as int] == dir@);
            return true;
        }
        i += 1;
    }
    false
}

fn directories(rs: &Vec<ResolvedBinary>) -> (r: Vec<Vec<u8>>)
    ensures
        byte_paths(r@) == dir_list(rs@),
{
    let mut r: Vec<Vec<u8>> = Vec::new();
    let mut i: usize = 0;
    assert(dir_list(rs@.take(0)) == Seq::<Seq<u8>>::empty());
    while i < rs.len()
        invariant
            i <= rs.len(),
            byte_paths(r@) == dir_list(rs@.take(i as int)),
        decreases rs.len() - i,
    {
        assert(rs@.take(i + 1).drop_last() == rs@.take(i as int));
        let ghost before = byte_paths(r@);
        if !has_dir(&r, &rs[i].dir) {
            let dir = rs[i].dir.clone();
            assert(dir@ =~= rs@[i as int].dir@);
            r.push(dir);
            assert(byte_paths(r@) == before.push(dir@));
        }
        i += 1;
    }
    assert(rs@.take(rs@.len() as int) == rs@);
    r
}

fn names_in(rs: &Vec<ResolvedBinary>, dir: &Vec<u8>) -> (r: (Vec<String>, Vec<String>))
    ensures
        texts(r.0@) == firsts(entries_of(rs@, dir@)),
        texts(r.1@) == seconds(entries_of(rs@, dir@)),
{
    let mut names: Vec<String> = Vec::new();
    let mut files: Vec<String> = Vec::new();
    let mut i: usize = 0;
    assert(entries_of(rs@.take(0), dir@) == Seq::<(Seq<char>, Seq<char>)>::empty());
    while i < rs.len()
        invariant
            i <= rs.len(),
            texts(names@) == firsts(entries_of(rs@.take(i as int), dir@)),
            texts(files@) == seconds(entries_of(rs@.take(i as int), dir@)),
        decreases rs.len() - i,
    {
        assert(rs@.take(i + 1).drop_last() == rs@.take(i as int));
        let ghost front = entries_of(rs@.take(i as int), dir@);
        let b = &rs[i];
        if same_bytes(&b.dir, dir) && !listed(&names, b.name.as_str()) {
            let ghost names_before = texts(names@);
            let ghost files_before = texts(files@);
            names.push(b.name.clone());
            files.push(b.file.clone());
            assert(texts(names@) == names_before.push(b.name@));
            assert(texts(files@) == files_before.push(b.file@));
            assert(firsts(front.push((b.name@, b.file@))) == firsts(front).push(b.name@));
            assert(seconds(front.push((b.name@, b.file@))) == seconds(front).push(b.file@));
        }
        i += 1;
    }
    assert(rs@.take(rs@.len() as int) == rs@);
    (names, files)
}

/// Group resolved binaries by directory: one share per directory, in the order in
/// which the directories first occur.
pub fn group_binaries(agent: &str, rs: &Vec<ResolvedBinary>) -> (r: Vec<BinaryDirShare>)
    ensures
        are_shares_of(agent@, rs@, r@),
{
    let dirs = directories(rs);
    assert(byte_paths(dirs@).len() == dirs@.len());
    let mut r: Vec<BinaryDirShare> = Vec::new();
    let mut i: usize = 0;
    while i < dirs.len()
        invariant
            i <= dirs.len(),
            dirs.len() == dir_list(rs@).len(),
            byte_paths(dirs@) == dir_list(rs@),
            r.len() == i,
            forall|j: int| 0 <= j < i ==> is_share_of(agent@, rs@, j, #[trigger] r@[j]),
        decreases dirs.len() - i,
    {
        assert(byte_paths(dirs@)[i as int] == dirs@[i as int]@);
        let (names, canonical_filenames) = names_in(rs, &dirs[i]);
        let host_dir = dirs[i].clone();
        assert(host_dir@ =~= dirs@[i as int]@);
        let share = BinaryDirShare {
            host_dir,
            tag: tag_of_binaries(agent, i),
            names,
            canonical_filenames,
        };
        r.push(share);
        i += 1;
    }
    r
}

/// The directory of a binary with the given canonical path.
pub open spec fn binary_dir(path: Seq<u8>) -> Seq<u8> {
    (canonical_parts(path)->0).0
}

/// The file name of a binary with the given canonical path; one that is not UTF-8
/// is replaced by the requested name.
pub open spec fn binary_file(name: Seq<char>, path: Seq<u8>) -> Seq<char> {
    let file = (canonical_parts(path)->0).1;
    if valid_utf8(file) {
        decode_utf8(file)
    } else {
        name
    }
}

/// The place of a binary, from the bytes of its canonical path.
pub fn place_binary(name: &String, path: &Vec<u8>) -> (r: Result<ResolvedBinary, BinaryError>)
    ensures
        match r {
            Ok(b) => {
                &&& canonical_parts(path@) is Some
                &&& b.name@ == name@
                &&& b.dir@ == binary_dir(path@)
                &&& b.file@ == binary_file(name@, path@)
            },
            Err(e) => {
                &&& canonical_parts(path@) is None
                &&& e == BinaryError::NoParent(*name)
            },
        },
{
    match split_canonical(path) {
        None => Err(BinaryError::NoParent(name.clone())),
        Some((dir, file)) => {
            let file = match from_utf8(file) {
                Some(f) => f,
                None => name.clone(),
            };
            Ok(ResolvedBinary { name: name.clone(), dir, file })
        },
    }
}

/// What came of the look-up of a binary.
pub enum Place {
    /// It is not on the host's `PATH`.
    Missing,
    /// It was found, but its path cannot be resolved.
    NotCanonical,
    /// It was found; the bytes of its canonical path.
    At(Vec<u8>),
}

/// The look-up of a binary.
pub struct LookUp {
    /// The name that was looked up.
    pub name: String,
    /// What came of it.
    pub place: Place,
}

/// The names that were looked up.
pub open spec fn names_of(found: Seq<LookUp>) -> Seq<Seq<char>> {
    found.map_values(|l: LookUp| l.name@)
}

/// The error of a look-up, if it has one.
pub open spec fn failure_of(l: LookUp) -> Option<BinaryError> {
    match l.place {
        Place::Missing => Some(BinaryError::NotFound(l.name)),
        Place::NotCanonical => Some(BinaryError::NotCanonical(l.name)),
        Place::At(path) => if canonical_parts(path@) is None {
            Some(BinaryError::NoParent(l.name))
        } else {
            None
        },
    }
}

/// The error of the first look-up that has one.
pub open spec fn first_failure(found: Seq<LookUp>) -> Option<BinaryError>
    decreases found.len(),
{
    if found.len() == 0 {
        None
    } else {
        match first_failure(found.drop_last()) {
            Some(e) => Some(e),
            None => failure_of(found.last()),
        }
    }
}

/// Whether `b` is the binary that a look-up found.
pub open spec fn is_placed(l: LookUp, b: ResolvedBinary) -> bool {
    &&& b.name@ == l.name@
    &&& l.place matches Place::At(path)
    &&& b.dir@ == binary_dir(path@)
    &&& b.file@ == binary_file(l.name@, path@)
}

/// Whether `rs` are the binaries that some look-ups found, one by one.
pub open spec fn are_placed(found: Seq<LookUp>, rs: Seq<ResolvedBinary>) -> bool {
    &&& rs.len() == found.len()
    &&& forall|i: int| 0 <= i < rs.len() ==> is_placed(found[i], #[trigger] rs[i])
}

/// Whether `shares` offers exactly the binaries that some look-ups found.
pub open spec fn offers(agent: Seq<char>, found: Seq<LookUp>, shares: Seq<BinaryDirShare>) -> bool {
    exists|rs: Seq<ResolvedBinary>|
        are_placed(found, rs) && #[trigger] are_shares_of(agent, rs, shares)
}

/// Whether `r` is what some look-ups lead to: the error of the first one that fails,
/// or else the shares that offer what was found.
pub open spec fn is_resolution(
    agent: Seq<char>,
    found: Seq<LookUp>,
    r: Result<Vec<BinaryDirShare>, BinaryError>,
) -> bool {
    match first_failure(found) {
        Some(e) => r == Err::<Vec<BinaryDirShare>, BinaryError>(e),
        None => r matches Ok(shares) && offers(agent, found, shares@),
    }
}

/// The shares that offer the binaries that were looked up. Hard error if any of them
/// was not found; the first one counts.
pub fn shares_of(agent: &str, found: &Vec<LookUp>) -> (r: Result<Vec<BinaryDirShare>, BinaryError>)
    ensures
        is_resolution(agent@, found@, r),
{
    let mut rs: Vec<ResolvedBinary> = Vec::new();
    let mut i: usize = 0;
    while i < found.len()
        invariant
            i <= found.len(),
            first_failure(found@.take(i as int)) is None,
            are_placed(found@.take(i as int), rs@),
        decreases found.len() - i,
    {
        let l = &found[i];
        let ghost next = found@.take(i + 1);
        let ghost before = rs@;
        assert(next.drop_last() =~= found@.take(i as int));
        assert(next.last() == *l);
        let e = match &l.place {
            Place::Missing => Some(BinaryError::NotFound(l.name.clone())),
            Place::NotCanonical => Some(BinaryError::NotCanonical(l.name.clone())),
            Place::At(path) => match place_binary(&l.name, path) {
                Ok(b) => {
                    rs.push(b);
                    None
                },
                Err(e) => Some(e),
            },
        };
        assert(e == failure_of(*l));
        if let Some(e) = e {
            proof {
                lemma_first_failure(found@, i + 1);
            }
            return Err(e);
        }
        assert forall|j: int| 0 <= j < rs.len() implies is_placed(next[j], #[trigger] rs@[j]) by {
            if j < i {
                assert(rs@[j] == before[j]);
                assert(is_placed(found@.take(i as int)[j], before[j]));
            }
        }
        i += 1;
    }
    assert(found@.take(i as int) =~= found@);
    let shares = group_binaries(agent, &rs);
    assert(are_shares_of(agent@, rs@, shares@));
    Ok(shares)
}

proof fn lemma_first_failure(found: Seq<LookUp>, n: int)
    requires
        0 <= n <= found.len(),
        first_failure(found.take(n)) is Some,
    ensures
        first_failure(found) == first_failure(found.take(n)),
    decreases found.len() - n,
{
    if n == found.len() {
        assert(found.take(n) =~= found);
    } else {
        assert(found.take(n + 1).drop_last() =~= found.take(n));
        lemma_first_failure(found, n + 1);
    }
}

/// What came of a look-up, from whether something was found on `PATH` and from the
/// bytes of its canonical path, if that could be resolved.
pub fn place_of(on_path: bool, canonical: Option<Vec<u8>>) -> (r: Place)
    ensures
        !on_path ==> r is Missing,
        on_path && canonical is None ==> r is NotCanonical,
        on_path && canonical is Some ==> r == Place::At(canonical->0),
{
    if !on_path {
        return Place::Missing;
    }
    match canonical {
        None => Place::NotCanonical,
        Some(path) => Place::At(path),
    }
}

/// Whether a look-up is one that the host can have answered so: its place is what a
/// search for its own name, and the resolution of what that found, give.
pub closed spec fn is_answered(l: LookUp) -> bool {
    exists|name: &str, search: Search| #[trigger]
        call_ensures(which, (name,), search) && name@ == l.name@ && match search.path {
            None => l.place is Missing,
            Some(path) => exists|canonical: Option<Vec<u8>>| #[trigger]
                call_ensures(canonicalize, (&path,), canonical) && match canonical {
                    None => l.place is NotCanonical,
                    Some(bytes) => l.place == Place::At(bytes),
                },
        }
}

/// Calls `f`, and tells that the result is one that `f` can give.
fn answer<A, B, F: Fn(A) -> B>(f: F, a: A) -> (r: B)
    requires
        call_requires(f, (a,)),
    ensures
        call_ensures(f, (a,), r),
{
    f(a)
}

/// Look a binary up on `PATH`, and resolve its path. What comes of it is up to the
/// host.
fn look_up(name: &str) -> (r: LookUp)
    ensures
        r.name@ == name@,
        exists|search: Search| #[trigger]
            call_ensures(which, (name,), search) && match search.path {
                None => r.place is Missing,
                Some(path) => exists|canonical: Option<Vec<u8>>| #[trigger]
                    call_ensures(canonicalize, (&path,), canonical) && match canonical {
                        None => r.place is NotCanonical,
                        Some(bytes) => r.place == Place::At(bytes),
                    },
            },
        is_answered(r),
{
    let search = answer(which, name);
    let canonical = match &search.path {
        None => None,
        Some(path) => answer(canonicalize, path),
    };
    LookUp { name: search.name, place: place_of(search.path.is_some(), canonical) }
}

/// Whether some look-ups are those of the given names, one by one, each with a place
/// that the host gave for its own name.
pub open spec fn are_look_ups_of(names: Seq<Seq<char>>, found: Seq<LookUp>) -> bool {
    &&& found.len() == names.len()
    &&& forall|i: int|
        0 <= i < found.len() ==> (#[trigger] found[i]).name@ == names[i] && is_answered(found[i])
}

/// Whether `r` is what look-ups of the given names lead to.
pub open spec fn resolves(
    agent: Seq<char>,
    names: Seq<Seq<char>>,
    r: Result<Vec<BinaryDirShare>, BinaryError>,
) -> bool {
    exists|found: Seq<LookUp>|
        are_look_ups_of(names, found) && #[trigger] is_resolution(agent, found, r)
}

/// Resolve each requested binary to its canonical host path, group by parent
/// directory, and return one [`BinaryDirShare`] per unique directory.
///
/// Hard error if any requested binary cannot be found on `PATH`. Where a binary is
/// found is up to the host; what follows from that is up to [`shares_of`].
pub fn resolve_binaries(agent: &str, allow_binaries: &Vec<String>) -> (r: Result<
    Vec<BinaryDirShare>,
    BinaryError,
>)
    ensures
        resolves(agent@, texts(allow_binaries@), r),
        allow_binaries.len() == 0 ==> (r matches Ok(shares) && shares.len() == 0),
        r matches Err(e) ==> texts(allow_binaries@).contains(e.binary()),
{
    let mut found: Vec<LookUp> = Vec::new();
    let mut i: usize = 0;
    while i < allow_binaries.len()
        invariant
            i <= allow_binaries.len(),
            are_look_ups_of(texts(allow_binaries@).take(i as int), found@),
        decreases allow_binaries.len() - i,
    {
        let ghost before = found@;
        let l = look_up(allow_binaries[i].as_str());
        assert(texts(allow_binaries@)[i as int] == l.name@);
        found.push(l);
        assert forall|j: int| 0 <= j < found.len() implies (#[trigger] found@[j]).name@ == texts(
            allow_binaries@,
        ).take(i + 1)[j] && is_answered(found@[j]) by {
            if j < i {
                assert(found@[j] == before[j]);
            }
        }
        i += 1;
    }
    assert(texts(allow_binaries@).take(i as int) =~= texts(allow_binaries@));
    let r = shares_of(agent, &found);
    proof {
        assert(is_resolution(agent@, found@, r));
        assert(names_of(found@) =~= texts(allow_binaries@));
        if found.len() == 0 {
            let rs = choose|rs: Seq<ResolvedBinary>|
                are_placed(found@, rs) && #[trigger] are_shares_of(agent@, rs, r->Ok_0@);
            assert(dir_list(rs).len() == 0);
        }
        lemma_failure_is_of_a_name(found@);
    }
    r
}

/// The warning about a number of directories with allowed binaries, each of which is a
/// share: there is one above twelve, as tart takes about sixteen shares.
pub open spec fn share_warning(n: nat) -> Option<Seq<char>> {
    if n > 12 {
        Some(
            decimal(n)
                + " unique binary directories requested; VirtioFS share count is high (tart practical limit ~16)"@,
        )
    } else {
        None
    }
}

/// The warning about a number of directories with allowed binaries, if there is one.
pub fn warn_of_shares(n: usize) -> (r: Option<String>)
    ensures
        text_of(r) == share_warning(n as nat),
{
    if n > 12 {
        Some(
            cat(
                decimal_text(n as u64).as_str(),
                " unique binary directories requested; VirtioFS share count is high (tart practical limit ~16)",
            ),
        )
    } else {
        None
    }
}

proof fn lemma_failure_is_of_a_name(found: Seq<LookUp>)
    ensures
        first_failure(found) matches Some(e) ==> names_of(found).contains(e.binary()),
    decreases found.len(),
{
    if found.len() > 0 {
        let short = found.drop_last();
        lemma_failure_is_of_a_name(short);
        if let Some(e) = first_failure(short) {
            let k = choose|k: int| 0 <= k < names_of(short).len() && names_of(short)[k] == e.binary();
            assert(names_of(found)[k] == e.binary());
        } else {
            assert(names_of(found)[found.len() - 1] == found.last().name@);
        }
    }
}

// ---------------------------------------------------------------------------
// All tools
// ---------------------------------------------------------------------------

/// The home directory: the root where none is set.
pub fn home_dir(home: Option<String>) -> (r: String)
    ensures
        r@ == match home {
            Some(h) => h@,
            None => "/"@,
        },
{
    match home {
        Some(h) => h,
        None => "/".to_owned(),
    }
}

/// Result of preparing the tool environment for a sandbox run.
pub struct ToolEnv {
    /// The configuration to stage for the guest, with the command that yields an API
    /// key on the host.
    pub config: StagedConfig,
    /// One share per unique parent directory of the allowed binaries.
    pub binary_shares: Vec<BinaryDirShare>,
}

/// Why the tool environment could not be prepared.
#[derive(Debug)]
pub enum ToolError {
    Config(ConfigError),
    Binary(BinaryError),
}

impl ToolError {
    /// The error in words.
    pub fn message(&self) -> (r: String)
        ensures
            match *self {
                ToolError::Config(ConfigError::Parse(path)) => r@ == "parsing "@ + path@,
                ToolError::Binary(e) => r@ == e.text(),
            },
    {
        match self {
            ToolError::Config(e) => e.message(),
            ToolError::Binary(e) => e.message(),
        }
    }
}

/// Prepare the agent's configuration and resolve the allowed binaries.
pub fn prepare(
    agent: &str,
    allow_tools: &Vec<String>,
    allow_binaries: &Vec<String>,
    settings: &Option<SettingsFile>,
    state_raw: &Option<String>,
    project_dir: &str,
) -> (r: Result<ToolEnv, ToolError>)
    ensures
        r matches Err(ToolError::Config(_)) <==> !can_stage(*settings),
        match r {
            Ok(env) => {
                &&& staged_from(
                    texts(allow_tools@),
                    *settings,
                    *state_raw,
                    project_dir@,
                    env.config,
                )
                &&& resolves(agent@, texts(allow_binaries@), Ok(env.binary_shares))
            },
            Err(ToolError::Config(e)) => is_config_error(*settings, e),
            Err(ToolError::Binary(e)) => {
                &&& resolves(agent@, texts(allow_binaries@), Err(e))
                &&& texts(allow_binaries@).contains(e.binary())
            },
        },
        can_stage(*settings) && allow_binaries.len() == 0 ==> (r matches Ok(env)
            && env.binary_shares.len() == 0),
{
    let config = match prepare_claude_config(allow_tools, settings, state_raw, project_dir) {
        Ok(c) => c,
        Err(e) => return Err(ToolError::Config(e)),
    };
    match resolve_binaries(agent, allow_binaries) {
        Ok(binary_shares) => Ok(ToolEnv { config, binary_shares }),
        Err(e) => Err(ToolError::Binary(e)),
    }
}

// ---------------------------------------------------------------------------
// Laws
// ---------------------------------------------------------------------------

/// A look-up is about its own name: the host was asked for the name that was requested,
/// the path that it gave for that name was resolved, and what came of that is the place.
proof fn look_ups_ask_for_their_own_names(names: Seq<Seq<char>>, found: Seq<LookUp>, i: int)
    requires
        are_look_ups_of(names, found),
        0 <= i < names.len(),
    ensures
        found.len() == names.len(),
        found[i].name@ == names[i],
        exists|name: &str, search: Search| #[trigger]
            call_ensures(which, (name,), search) && name@ == names[i] && match search.path {
                None => found[i].place is Missing,
                Some(path) => exists|canonical: Option<Vec<u8>>| #[trigger]
                    call_ensures(canonicalize, (&path,), canonical) && match canonical {
                        None => found[i].place is NotCanonical,
                        Some(bytes) => found[i].place == Place::At(bytes),
                    },
            },
{
}

/// Binaries are offered exactly where each of them was found at a canonical path with a
/// parent directory.
pub proof fn success_needs_every_binary(found: Seq<LookUp>)
    ensures
        first_failure(found) is None <==> (forall|j: int|
            0 <= j < found.len() ==> ((#[trigger] found[j]).place matches Place::At(path)
                && canonical_parts(path@) is Some)),
    decreases found.len(),
{
    if found.len() > 0 {
        let short = found.drop_last();
        success_needs_every_binary(short);
        if first_failure(found) is None {
            assert forall|j: int| 0 <= j < found.len() implies ((
            #[trigger] found[j]).place matches Place::At(path) && canonical_parts(path@) is Some) by {
                if j < short.len() {
                    assert(short[j] == found[j]);
                }
            }
        }
        if forall|j: int|
            0 <= j < found.len() ==> ((#[trigger] found[j]).place matches Place::At(path)
                && canonical_parts(path@) is Some) {
            assert forall|j: int| 0 <= j < short.len() implies ((
            #[trigger] short[j]).place matches Place::At(path) && canonical_parts(path@) is Some) by {
                assert(short[j] == found[j]);
            }
            assert(found[found.len() - 1] == found.last());
        }
    }
}

/// The first binary that cannot be offered is the one that is reported, by what is
/// wrong with it: one that is not on `PATH` is reported as not found there, one whose path
/// cannot be resolved as such, and one without a parent directory as such.
pub proof fn first_failing_binary_is_reported(found: Seq<LookUp>, i: int)
    requires
        0 <= i < found.len(),
        forall|j: int|
            0 <= j < i ==> ((#[trigger] found[j]).place matches Place::At(path) && canonical_parts(
                path@,
            ) is Some),
    ensures
        failure_of(found[i]) is Some ==> first_failure(found) == failure_of(found[i]),
        found[i].place is Missing ==> first_failure(found) == Some(
            BinaryError::NotFound(found[i].name),
        ),
        found[i].place is NotCanonical ==> first_failure(found) == Some(
            BinaryError::NotCanonical(found[i].name),
        ),
        found[i].place matches Place::At(path) ==> canonical_parts(path@) is None ==> first_failure(
            found,
        ) == Some(BinaryError::NoParent(found[i].name)),
{
    let before = found.take(i);
    assert forall|j: int| 0 <= j < before.len() implies ((
    #[trigger] before[j]).place matches Place::At(path) && canonical_parts(path@) is Some) by {
        assert(before[j] == found[j]);
    }
    success_needs_every_binary(before);
    assert(found.take(i + 1).drop_last() =~= before);
    assert(found.take(i + 1).last() == found[i]);
    if failure_of(found[i]) is Some {
        lemma_first_failure(found, i + 1);
    }
}

/// A binary keeps its requested name and its place: its directory and its file name make
/// the canonical path at which it was found. A file name that is not UTF-8 is replaced by
/// the requested name.
pub proof fn placed_binaries_keep_their_path(l: LookUp, b: ResolvedBinary, path: Vec<u8>)
    requires
        is_placed(l, b),
        l.place == Place::At(path),
        canonical_parts(path@) is Some,
        path.len() > 1 ==> path@[1] != 0x2fu8,
    ensures
        b.name@ == l.name@,
        exists|file: Seq<u8>|
            !(#[trigger] file.contains(0x2fu8)) && (path@ == b.dir@ + seq![0x2fu8] + file || (b.dir@
                == seq![0x2fu8] && path@ == b.dir@ + file)) && (if valid_utf8(file) {
                b.file@ == decode_utf8(file)
            } else {
                b.file@ == l.name@
            }),
{
    crate::paths::directory_and_file_make_the_path(path@);
    let file = (canonical_parts(path@)->0).1;
    assert(!file.contains(0x2fu8));
}

/// There is a warning about the shares from the thirteenth on, and it tells how many
/// there are.
pub proof fn many_shares_are_warned_of(n: nat)
    ensures
        n <= 12 ==> share_warning(n) is None,
        n >= 13 ==> share_warning(n) == Some(
            decimal(n)
                + " unique binary directories requested; VirtioFS share count is high (tart practical limit ~16)"@,
        ),
{
}

/// The shares come in the order in which their directories are first requested: before a
/// binary is found in a directory, one is found in each directory of an earlier share.
pub proof fn shares_come_in_the_order_of_requests(
    agent: Seq<char>,
    rs: Seq<ResolvedBinary>,
    shares: Seq<BinaryDirShare>,
    i: int,
    j: int,
    n: int,
)
    requires
        are_shares_of(agent, rs, shares),
        0 <= i < j < shares.len(),
        0 <= n < rs.len(),
        rs[n].dir@ == shares[j].host_dir@,
    ensures
        exists|m: int| 0 <= m < n && (#[trigger] rs[m]).dir@ == shares[i].host_dir@,
{
    assert(is_share_of(agent, rs, i, shares[i]));
    assert(is_share_of(agent, rs, j, shares[j]));
    lemma_dirs_in_order(rs, i, j, n);
}

proof fn lemma_dirs_in_order(rs: Seq<ResolvedBinary>, i: int, j: int, n: int)
    requires
        0 <= i < j < dir_list(rs).len(),
        0 <= n < rs.len(),
        rs[n].dir@ == dir_list(rs)[j],
    ensures
        exists|m: int| 0 <= m < n && (#[trigger] rs[m]).dir@ == dir_list(rs)[i],
    decreases rs.len(),
{
    let short = rs.drop_last();
    let front = dir_list(short);
    assert(dir_list(rs)[i] == front[i]);
    if n == short.len() {
        lemma_dir_found(short, i);
        let m = choose|m: int| 0 <= m < short.len() && (#[trigger] short[m]).dir@ == front[i];
        assert(rs[m].dir@ == front[i]);
    } else {
        assert(short[n] == rs[n]);
        lemma_dir_listed(short, n);
        assert(j < front.len());
        lemma_dirs_in_order(short, i, j, n);
        let m = choose|m: int| 0 <= m < n && (#[trigger] short[m]).dir@ == front[i];
        assert(rs[m].dir@ == front[i]);
    }
}

proof fn lemma_dir_found(rs: Seq<ResolvedBinary>, i: int)
    requires
        0 <= i < dir_list(rs).len(),
    ensures
        exists|m: int| 0 <= m < rs.len() && (#[trigger] rs[m]).dir@ == dir_list(rs)[i],
    decreases rs.len(),
{
    let short = rs.drop_last();
    let front = dir_list(short);
    if i < front.len() {
        lemma_dir_found(short, i);
        let m = choose|m: int| 0 <= m < short.len() && (#[trigger] short[m]).dir@ == front[i];
        assert(rs[m].dir@ == front[i]);
    } else {
        assert(rs[rs.len() - 1].dir@ == dir_list(rs)[i]);
    }
}

/// A name that is requested twice in one directory is offered with the file of the first
/// request, and the names of a share come in the order in which they are first requested.
pub proof fn first_request_of_a_name_counts(
    agent: Seq<char>,
    rs: Seq<ResolvedBinary>,
    shares: Seq<BinaryDirShare>,
    i: int,
    n: int,
)
    requires
        are_shares_of(agent, rs, shares),
        0 <= i < shares.len(),
        0 <= n < rs.len(),
        rs[n].dir@ == shares[i].host_dir@,
        forall|m: int|
            0 <= m < n ==> (#[trigger] rs[m]).dir@ != rs[n].dir@ || rs[m].name@ != rs[n].name@,
    ensures
        exists|k: int|
            0 <= k < shares[i].names.len() && k < shares[i].canonical_filenames.len() && (
            #[trigger] shares[i].names@[k])@ == rs[n].name@ && shares[i].canonical_filenames@[k]@
                == rs[n].file@ && forall|l: int|
                k < l < shares[i].names.len() ==> forall|m: int|
                    0 <= m <= n && (#[trigger] rs[m]).dir@ == rs[n].dir@ ==> rs[m].name@ != (
                    #[trigger] shares[i].names@[l])@,
{
    assert(is_share_of(agent, rs, i, shares[i]));
    let dir = rs[n].dir@;
    let names = texts(shares[i].names@);
    let files = texts(shares[i].canonical_filenames@);
    let e = entries_of(rs, dir);
    lemma_first_request(rs, dir, n);
    let k = choose|k: int|
        0 <= k < e.len() && #[trigger] e[k] == (rs[n].name@, rs[n].file@) && forall|l: int|
            k < l < e.len() ==> forall|m: int|
                0 <= m <= n && (#[trigger] rs[m]).dir@ == dir ==> rs[m].name@ != (#[trigger] e[l]).0;
    assert(names.len() == e.len() && files.len() == e.len());
    assert(names[k] == e[k].0 && files[k] == e[k].1);
    assert(names[k] == shares[i].names@[k]@);
    assert(files[k] == shares[i].canonical_filenames@[k]@);
    assert forall|l: int| k < l < shares[i].names.len() implies forall|m: int|
        0 <= m <= n && (#[trigger] rs[m]).dir@ == rs[n].dir@ ==> rs[m].name@ != (
        #[trigger] shares[i].names@[l])@ by {
        assert(names[l] == e[l].0);
        assert(names[l] == shares[i].names@[l]@);
    }
}

proof fn lemma_first_request(rs: Seq<ResolvedBinary>, dir: Seq<u8>, n: int)
    requires
        0 <= n < rs.len(),
        rs[n].dir@ == dir,
        forall|m: int|
            0 <= m < n ==> (#[trigger] rs[m]).dir@ != dir || rs[m].name@ != rs[n].name@,
    ensures
        exists|k: int|
            0 <= k < entries_of(rs, dir).len() && #[trigger] entries_of(rs, dir)[k] == (
                rs[n].name@,
                rs[n].file@,
            ) && forall|l: int|
                k < l < entries_of(rs, dir).len() ==> forall|m: int|
                    0 <= m <= n && (#[trigger] rs[m]).dir@ == dir ==> rs[m].name@ != (
                    #[trigger] entries_of(rs, dir)[l]).0,
    decreases rs.len(),
{
    let short = rs.drop_last();
    let front = entries_of(short, dir);
    let e = entries_of(rs, dir);
    let b = rs.last();
    if n < short.len() {
        assert(short[n] == rs[n]);
        assert forall|m: int| 0 <= m < n implies (#[trigger] short[m]).dir@ != dir || short[m].name@
            != short[n].name@ by {
            assert(short[m] == rs[m]);
        }
        lemma_first_request(short, dir, n);
        let k = choose|k: int|
            0 <= k < front.len() && #[trigger] front[k] == (short[n].name@, short[n].file@)
                && forall|l: int|
                k < l < front.len() ==> forall|m: int|
                    0 <= m <= n && (#[trigger] short[m]).dir@ == dir ==> short[m].name@ != (
                    #[trigger] front[l]).0;
        assert(e[k] == front[k]);
        assert forall|l: int| k < l < e.len() implies forall|m: int|
            0 <= m <= n && (#[trigger] rs[m]).dir@ == dir ==> rs[m].name@ != (#[trigger] e[l]).0 by {
            assert forall|m: int| 0 <= m <= n && (#[trigger] rs[m]).dir@ == dir implies rs[m].name@
                != e[l].0 by {
                assert(short[m] == rs[m]);
                if l < front.len() {
                    assert(e[l] == front[l]);
                } else {
                    lemma_name_listed(short, m);
                }
            }
        }
    } else {
        assert(!firsts(front).contains(b.name@)) by {
            if firsts(front).contains(b.name@) {
                let q = choose|q: int| 0 <= q < firsts(front).len() && firsts(front)[q] == b.name@;
                lemma_entry_found(short, dir, q);
                let m = choose|m: int|
                    0 <= m < short.len() && (#[trigger] short[m]).dir@ == dir && (
                        short[m].name@,
                        short[m].file@,
                    ) == front[q];
                assert(rs[m] == short[m]);
            }
        }
        assert(e[front.len() as int] == (rs[n].name@, rs[n].file@));
    }
}

/// What is resolved is what was requested: the shares offer every requested name, and no
/// name that was not requested.
pub proof fn requested_binaries_are_offered(
    agent: Seq<char>,
    names: Seq<Seq<char>>,
    shares: Vec<BinaryDirShare>,
)
    requires
        resolves(agent, names, Ok(shares)),
    ensures
        forall|n: int|
            0 <= n < names.len() ==> exists|i: int|
                0 <= i < shares@.len() && texts((#[trigger] shares@[i]).names@).contains(
                    #[trigger] names[n],
                ),
        forall|i: int, k: int|
            0 <= i < shares@.len() && 0 <= k < (#[trigger] shares@[i]).names.len()
                ==> names.contains((#[trigger] shares@[i].names@[k])@),
{
    let r = Ok::<Vec<BinaryDirShare>, BinaryError>(shares);
    let found = choose|found: Seq<LookUp>|
        are_look_ups_of(names, found) && #[trigger] is_resolution(agent, found, r);
    let rs = choose|rs: Seq<ResolvedBinary>|
        are_placed(found, rs) && #[trigger] are_shares_of(agent, rs, shares@);
    shares_offer_what_was_requested(agent, rs, shares@);
    assert forall|n: int| 0 <= n < names.len() implies exists|i: int|
        0 <= i < shares@.len() && texts((#[trigger] shares@[i]).names@).contains(
            #[trigger] names[n],
        ) by {
        assert(is_placed(found[n], rs[n]));
        assert(found[n].name@ == names[n]);
    }
    assert forall|i: int, k: int|
        0 <= i < shares@.len() && 0 <= k < (#[trigger] shares@[i]).names.len() implies names.contains(
        (#[trigger] shares@[i].names@[k])@,
    ) by {
        let n = choose|n: int|
            0 <= n < rs.len() && (#[trigger] rs[n]).name@ == shares@[i].names@[k]@ && rs[n].dir@
                == shares@[i].host_dir@ && rs[n].file@ == shares@[i].canonical_filenames@[k]@;
        assert(is_placed(found[n], rs[n]));
        assert(found[n].name@ == names[n]);
    }
}

/// Every share lists as many file names as names, and no name twice; its tag tells its
/// number, and no two shares have the same tag or the same directory.
pub proof fn shares_are_separate(
    agent: Seq<char>,
    rs: Seq<ResolvedBinary>,
    shares: Seq<BinaryDirShare>,
)
    requires
        are_shares_of(agent, rs, shares),
    ensures
        forall|i: int|
            0 <= i < shares.len() ==> (#[trigger] shares[i]).names.len()
                == shares[i].canonical_filenames.len() && texts(shares[i].names@).no_duplicates()
                && shares[i].tag@ == agent + "-box-bin-"@ + decimal(i as nat),
        forall|i: int, j: int|
            0 <= i < j < shares.len() ==> (#[trigger] shares[i]).tag@ != (#[trigger] shares[j]).tag@
                && shares[i].host_dir@ != shares[j].host_dir@,
{
    lemma_dirs_differ(rs);
    assert forall|i: int| 0 <= i < shares.len() implies (#[trigger] shares[i]).names.len()
        == shares[i].canonical_filenames.len() && texts(shares[i].names@).no_duplicates()
        && shares[i].tag@ == agent + "-box-bin-"@ + decimal(i as nat) by {
        assert(is_share_of(agent, rs, i, shares[i]));
        let e = entries_of(rs, dir_list(rs)[i]);
        assert(texts(shares[i].names@).len() == e.len());
        assert(texts(shares[i].canonical_filenames@).len() == e.len());
        lemma_names_differ(rs, dir_list(rs)[i]);
    }
    assert forall|i: int, j: int| 0 <= i < j < shares.len() implies (#[trigger] shares[i]).tag@ != (
    #[trigger] shares[j]).tag@ && shares[i].host_dir@ != shares[j].host_dir@ by {
        assert(is_share_of(agent, rs, i, shares[i]));
        assert(is_share_of(agent, rs, j, shares[j]));
        binary_tags_differ(agent, i as nat, j as nat);
    }
}

/// Nothing is lost and nothing is added: each requested binary is offered by the
/// share of its directory, and each name that a share offers was requested and
/// found in that directory under that file name.
pub proof fn shares_offer_what_was_requested(
    agent: Seq<char>,
    rs: Seq<ResolvedBinary>,
    shares: Seq<BinaryDirShare>,
)
    requires
        are_shares_of(agent, rs, shares),
    ensures
        forall|n: int|
            0 <= n < rs.len() ==> exists|i: int|
                0 <= i < shares.len() && (#[trigger] shares[i]).host_dir@ == (
                #[trigger] rs[n]).dir@ && texts(shares[i].names@).contains(rs[n].name@),
        forall|i: int, k: int|
            0 <= i < shares.len() && 0 <= k < (#[trigger] shares[i]).names.len() ==> exists|n: int|
                0 <= n < rs.len() && (#[trigger] rs[n]).name@ == (
                #[trigger] shares[i].names@[k])@ && rs[n].dir@ == shares[i].host_dir@ && rs[n].file@
                    == shares[i].canonical_filenames@[k]@,
{
    assert forall|n: int| 0 <= n < rs.len() implies exists|i: int|
        0 <= i < shares.len() && (#[trigger] shares[i]).host_dir@ == (#[trigger] rs[n]).dir@
            && texts(shares[i].names@).contains(rs[n].name@) by {
        lemma_dir_listed(rs, n);
        let i = choose|i: int| 0 <= i < dir_list(rs).len() && dir_list(rs)[i] == rs[n].dir@;
        assert(is_share_of(agent, rs, i, shares[i]));
        lemma_name_listed(rs, n);
    }
    assert forall|i: int, k: int|
        0 <= i < shares.len() && 0 <= k < (#[trigger] shares[i]).names.len() implies exists|n: int|
        0 <= n < rs.len() && (#[trigger] rs[n]).name@ == (#[trigger] shares[i].names@[k])@
            && rs[n].dir@ == shares[i].host_dir@ && rs[n].file@
            == shares[i].canonical_filenames@[k]@ by {
        assert(is_share_of(agent, rs, i, shares[i]));
        let e = entries_of(rs, dir_list(rs)[i]);
        assert(texts(shares[i].names@)[k] == shares[i].names@[k]@);
        assert(texts(shares[i].names@).len() == e.len());
        assert(texts(shares[i].canonical_filenames@).len() == e.len());
        assert(texts(shares[i].canonical_filenames@)[k] == shares[i].canonical_filenames@[k]@);
        lemma_entry_found(rs, dir_list(rs)[i], k);
    }
}

proof fn lemma_dirs_differ(rs: Seq<ResolvedBinary>)
    ensures
        dir_list(rs).no_duplicates(),
    decreases rs.len(),
{
    if rs.len() > 0 {
        lemma_dirs_differ(rs.drop_last());
    }
}

proof fn lemma_names_differ(rs: Seq<ResolvedBinary>, dir: Seq<u8>)
    ensures
        firsts(entries_of(rs, dir)).no_duplicates(),
    decreases rs.len(),
{
    if rs.len() > 0 {
        lemma_names_differ(rs.drop_last(), dir);
        let front = entries_of(rs.drop_last(), dir);
        let b = rs.last();
        assert(firsts(front.push((b.name@, b.file@))) =~= firsts(front).push(b.name@));
    }
}

proof fn lemma_dir_listed(rs: Seq<ResolvedBinary>, n: int)
    requires
        0 <= n < rs.len(),
    ensures
        dir_list(rs).contains(rs[n].dir@),
    decreases rs.len(),
{
    let front = dir_list(rs.drop_last());
    if n < rs.len() - 1 {
        lemma_dir_listed(rs.drop_last(), n);
        assert(rs.drop_last()[n] == rs[n]);
        let i = choose|i: int| 0 <= i < front.len() && front[i] == rs[n].dir@;
        assert(dir_list(rs)[i] == rs[n].dir@);
    } else if !front.contains(rs.last().dir@) {
        assert(dir_list(rs)[front.len() as int] == rs[n].dir@);
    }
}

proof fn lemma_name_listed(rs: Seq<ResolvedBinary>, n: int)
    requires
        0 <= n < rs.len(),
    ensures
        firsts(entries_of(rs, rs[n].dir@)).contains(rs[n].name@),
    decreases rs.len(),
{
    let dir = rs[n].dir@;
    let front = entries_of(rs.drop_last(), dir);
    let b = rs.last();
    assert(firsts(front.push((b.name@, b.file@))) =~= firsts(front).push(b.name@));
    if n < rs.len() - 1 {
        lemma_name_listed(rs.drop_last(), n);
        assert(rs.drop_last()[n] == rs[n]);
        let i = choose|i: int| 0 <= i < firsts(front).len() && firsts(front)[i] == rs[n].name@;
        assert(firsts(entries_of(rs, dir))[i] == rs[n].name@);
    } else if !firsts(front).contains(b.name@) {
        assert(firsts(entries_of(rs, dir))[front.len() as int] == b.name@);
    }
}

proof fn lemma_entry_found(rs: Seq<ResolvedBinary>, dir: Seq<u8>, k: int)
    requires
        0 <= k < entries_of(rs, dir).len(),
    ensures
        exists|n: int|
            0 <= n < rs.len() && (#[trigger] rs[n]).dir@ == dir && (rs[n].name@, rs[n].file@)
                == entries_of(rs, dir)[k],
    decreases rs.len(),
{
    let short = rs.drop_last();
    let front = entries_of(short, dir);
    if k < front.len() {
        lemma_entry_found(short, dir, k);
        let n = choose|n: int|
            0 <= n < short.len() && (#[trigger] short[n]).dir@ == dir && (
                short[n].name@,
                short[n].file@,
            ) == front[k];
        assert(rs[n] == short[n]);
    } else {
        assert(rs[rs.len() - 1] == rs.last());
    }
}

/// The place of a binary is its canonical path taken apart; only a path without a parent
/// directory has none.
pub proof fn binaries_are_placed_by_their_paths(
    name: &String,
    path: &Vec<u8>,
    r: Result<ResolvedBinary, BinaryError>,
)
    requires
        call_ensures(place_binary, (name, path), r),
    ensures
        r is Ok <==> canonical_parts(path@) is Some,
        r matches Ok(b) ==> {
            let (dir, file) = canonical_parts(path@)->0;
            &&& b.name@ == name@
            &&& b.dir@ == dir
            &&& valid_utf8(file) ==> b.file@ == decode_utf8(file)
            &&& !valid_utf8(file) ==> b.file@ == name@
        },
        r matches Err(e) ==> e == BinaryError::NoParent(*name),
{
}

} // verus!
