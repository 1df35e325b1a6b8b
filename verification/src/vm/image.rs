//! Base images: where they come from and when they are pulled.
use vstd::prelude::*;

use crate::names::{tool, tool_name};
use crate::paths::{extension, file_stem, final_name, name_extension, name_stem};
use crate::table::keys_with;
use crate::text::{
    cat, decimal, line_list, lines, listed, lower_text, lowercase, same, texts, trim, trimmed, word_list,
    words,
};
use crate::vm::image_cache::{CacheEntry, ImageCache};

verus! {

/// The answer of a user who chose not to wait for an image.
#[derive(Debug)]
pub struct UserRequestedFallback;

impl UserRequestedFallback {
    /// The answer in words.
    pub fn message(&self, agent: &str) -> (r: String)
        ensures
            r@ == "user requested fallback to host "@ + agent@ + " (unsandboxed)"@,
    {
        let mut r = cat("user requested fallback to host ", agent);
        r.append(" (unsandboxed)");
        r
    }
}

/// Pull policy controlling when `tart pull` is invoked.
#[derive(Clone, Copy, Debug, PartialEq, Eq, Structural)]
pub enum PullPolicy {
    Always,
    Missing,
    Never,
}

impl Default for PullPolicy {
    fn default() -> (r: Self)
        ensures
            r == PullPolicy::Missing,
    {
        PullPolicy::Missing
    }
}

// ---------------------------------------------------------------------------
// The list of local images and VMs
// ---------------------------------------------------------------------------

/// The second words of some lines; lines without one are passed over.
pub open spec fn second_words(ls: Seq<Seq<char>>) -> Seq<Seq<char>>
    decreases ls.len(),
{
    if ls.len() == 0 {
        seq![]
    } else {
        let front = second_words(ls.drop_last());
        let w = word_list(ls.last());
        if w.len() > 1 {
            front.push(w[1])
        } else {
            front
        }
    }
}

/// The rows that `tart list` prints: every line behind the header.
pub open spec fn listed_rows(stdout: Seq<char>) -> Seq<Seq<char>> {
    let ls = line_list(stdout);
    if ls.len() > 0 {
        ls.skip(1)
    } else {
        ls
    }
}

/// The names that `tart list` prints: the second column of every row.
pub open spec fn listed_names(stdout: Seq<char>) -> Seq<Seq<char>> {
    second_words(listed_rows(stdout))
}

/// The second words of the lines from `from` on.
pub fn second_words_from(ls: &Vec<String>, from: usize) -> (r: Vec<String>)
    requires
        from <= ls.len(),
    ensures
        texts(r@) == second_words(texts(ls@).skip(from as int)),
{
    let ghost rest = texts(ls@).skip(from as int);
    let mut r: Vec<String> = Vec::new();
    let mut i: usize = from;
    assert(rest.take(0) =~= seq![]);
    assert(texts(r@) =~= seq![]);
    while i < ls.len()
        invariant
            from <= i <= ls.len(),
            rest == texts(ls@).skip(from as int),
            texts(r@) == second_words(rest.take(i - from)),
        decreases ls.len() - i,
    {
        let ghost next = rest.take(i - from + 1);
        assert(next.drop_last() =~= rest.take(i - from));
        assert(next.last() == ls@[i as int]@);
        let w = words(ls[i].as_str());
        assert(texts(w@).len() == w.len());
        let ghost before = texts(r@);
        if w.len() > 1 {
            assert(texts(w@)[1] == w@[1]@);
            r.push(w[1].clone());
            assert(texts(r@) =~= before.push(w@[1]@));
        }
        i += 1;
    }
    assert(rest.take(i - from) =~= rest);
    r
}

/// The names that `tart list` prints.
pub fn list_tart_images(stdout: &str) -> (r: Vec<String>)
    ensures
        texts(r@) == listed_names(stdout@),
{
    let ls = lines(stdout);
    assert(texts(ls@).len() == ls.len());
    if ls.len() == 0 {
        assert(texts(ls@).skip(0) =~= texts(ls@));
        second_words_from(&ls, 0)
    } else {
        second_words_from(&ls, 1)
    }
}

/// Check if a named image already exists in tart's local store, which `tart list`
/// has printed.
pub fn image_exists_in_tart(name: &str, stdout: &str) -> (r: bool)
    ensures
        r == listed_names(stdout@).contains(name@),
{
    listed(&list_tart_images(stdout), name)
}

// ---------------------------------------------------------------------------
// Resolution
// ---------------------------------------------------------------------------

/// Whether an image ref, which may be a path that exists, is a file to import.
pub open spec fn is_ipsw(image_ref: Seq<char>, path_exists: bool) -> bool {
    path_exists && final_name(image_ref) is Some && name_extension(final_name(image_ref)->0)
        == Some("ipsw"@)
}

/// Resolve an image reference: a path to an existing `.ipsw` file is imported
/// (`true`), anything else is an OCI ref.
pub fn resolve_image(image_ref: &str, path_exists: bool) -> (r: bool)
    ensures
        r == is_ipsw(image_ref@, path_exists),
{
    if !path_exists {
        return false;
    }
    match extension(image_ref) {
        Some(e) => same(e.as_str(), "ipsw"),
        None => false,
    }
}

/// What is done about an image.
pub enum ImageAction {
    /// The image with this name in tart's local store is used.
    Use(String),
    /// The image is pulled.
    Pull,
    /// The image is imported under this name.
    Import(String),
    /// There is no image, and this is why.
    Refuse(String),
}

/// The local name of an OCI image, if it is in tart's local store: under the name
/// that the cache has for it, or under its ref.
pub open spec fn local_image(
    image_ref: Seq<char>,
    stored: Seq<Seq<char>>,
    cache: Map<Seq<char>, CacheEntry>,
) -> Option<Seq<char>> {
    if cache.contains_key(image_ref) && stored.contains(cache[image_ref].local_name@) {
        Some(cache[image_ref].local_name@)
    } else if stored.contains(image_ref) {
        Some(image_ref)
    } else {
        None
    }
}

/// The error where an image is missing and must not be pulled.
pub open spec fn missing_error(agent: Seq<char>, image_ref: Seq<char>) -> Seq<char> {
    "image "@ + image_ref + " not found locally and --pull=never; run `"@ + tool_name(agent)
        + " images pull "@ + image_ref + "` first"@
}

/// What is done about an OCI image: it is pulled where the policy says so, and
/// otherwise only where it is missing and the policy does not forbid it.
pub fn pull_oci(
    agent: &str,
    image_ref: &str,
    policy: PullPolicy,
    stored: &Vec<String>,
    cache: &ImageCache,
) -> (r: ImageAction)
    ensures
        match (policy, local_image(image_ref@, texts(stored@), cache@)) {
            (PullPolicy::Always, _) => r is Pull,
            (_, Some(name)) => r matches ImageAction::Use(s) && s@ == name,
            (PullPolicy::Missing, None) => r is Pull,
            (PullPolicy::Never, None) => r matches ImageAction::Refuse(e) && e@ == missing_error(
                agent@,
                image_ref@,
            ),
        },
{
    if policy == PullPolicy::Always {
        return ImageAction::Pull;
    }
    if let Some(entry) = cache.get(image_ref) {
        if listed(stored, entry.local_name.as_str()) {
            return ImageAction::Use(entry.local_name.clone());
        }
    }
    if listed(stored, image_ref) {
        return ImageAction::Use(image_ref.to_owned());
    }
    if policy == PullPolicy::Never {
        let mut e = cat("image ", image_ref);
        e.append(" not found locally and --pull=never; run `");
        e.append(tool(agent).as_str());
        e.append(" images pull ");
        e.append(image_ref);
        e.append("` first");
        return ImageAction::Refuse(e);
    }
    ImageAction::Pull
}

/// What a user's answer means: `true` to wait for the pull, `false` to fall back.
/// Whatever is not a clear wish to fall back means to wait; so does no answer.
pub fn prompt_pull_or_fallback(input: &Option<String>) -> (r: bool)
    ensures
        r == match *input {
            None => true,
            Some(s) => lowercase(trimmed(s@)) != "f"@ && lowercase(trimmed(s@)) != "fallback"@,
        },
{
    match input {
        None => true,
        Some(s) => {
            let answer = lower_text(trim(s.as_str()).as_str());
            !same(answer.as_str(), "f") && !same(answer.as_str(), "fallback")
        },
    }
}

/// What is done when `tart pull` has ended: the cache learns of the image and it is
/// used, or there is an error that says how the command ended.
pub fn do_pull_oci(
    image_ref: &str,
    success: bool,
    status: &str,
    cache: &mut ImageCache,
    now: u64,
) -> (r: Result<String, String>)
    ensures
        r is Ok == success,
        match r {
            Ok(name) => {
                &&& name@ == image_ref@
                &&& final(cache)@.contains_key(image_ref@)
                &&& final(cache)@[image_ref@].local_name@ == image_ref@
                &&& final(cache)@[image_ref@].pulled_at@ == decimal(now as nat)
                &&& final(cache)@.remove(image_ref@) == old(cache)@.remove(image_ref@)
                &&& final(cache).order() == keys_with(old(cache).order(), image_ref@)
                &&& final(cache).file() == old(cache).file()
            },
            Err(e) => {
                &&& e@ == "tart pull "@ + image_ref@ + " failed with "@ + status@
                &&& *final(cache) == *old(cache)
            },
        },
{
    if !success {
        let mut e = cat("tart pull ", image_ref);
        e.append(" failed with ");
        e.append(status);
        return Err(e);
    }
    cache.insert(image_ref, image_ref, now);
    Ok(image_ref.to_owned())
}

/// The arguments of tart that pull an image.
pub fn pull_args(image_ref: &str) -> (r: Vec<String>)
    ensures
        texts(r@) == seq!["pull"@, image_ref@],
{
    let r = vec!["pull".to_owned(), image_ref.to_owned()];
    assert(texts(r@) =~= seq!["pull"@, image_ref@]);
    r
}

/// The name under which a file is imported.
pub open spec fn import_name(path: Seq<char>) -> Seq<char> {
    match final_name(path) {
        Some(name) => name_stem(name),
        None => "imported"@,
    }
}

/// Whether a file that starts with the given bytes is plausibly a macOS restore image:
/// those are zip archives.
pub open spec fn is_zip(head: Seq<u8>) -> bool {
    head.len() >= 4 && head.take(4) == seq![0x50u8, 0x4b, 0x03, 0x04]
}

/// The error of a file that cannot be imported.
pub open spec fn not_ipsw_error(path: Seq<char>) -> Seq<char> {
    "not a macOS IPSW (no zip archive): "@ + path
}

/// What is done about a file to import, which starts with the bytes `head`: nothing if
/// it was imported before, and no attempt is made with a file that is none.
pub fn import_ipsw(path: &str, head: &Vec<u8>, stored: &Vec<String>) -> (r: ImageAction)
    ensures
        if texts(stored@).contains(import_name(path@)) {
            r matches ImageAction::Use(s) && s@ == import_name(path@)
        } else if is_zip(head@) {
            r matches ImageAction::Import(s) && s@ == import_name(path@)
        } else {
            r matches ImageAction::Refuse(e) && e@ == not_ipsw_error(path@)
        },
{
    let stem = match file_stem(path) {
        Some(s) => s,
        None => "imported".to_owned(),
    };
    if listed(stored, stem.as_str()) {
        return ImageAction::Use(stem);
    }
    let zip = head.len() >= 4 && head[0] == 0x50 && head[1] == 0x4b && head[2] == 0x03 && head[3]
        == 0x04;
    proof {
        let magic = seq![0x50u8, 0x4b, 0x03, 0x04];
        if zip {
            assert(head@.take(4) =~= magic);
        } else if head.len() >= 4 && head@.take(4) == magic {
            assert(head@[0] == magic[0] && head@[1] == magic[1] && head@[2] == magic[2] && head@[3]
                == magic[3]) by {
                assert forall|k: int| 0 <= k < 4 implies head@[k] == magic[k] by {
                    assert(head@.take(4)[k] == head@[k]);
                }
            }
        }
    }
    if zip {
        ImageAction::Import(stem)
    } else {
        ImageAction::Refuse(cat("not a macOS IPSW (no zip archive): ", path))
    }
}

/// The arguments of tart that import a file.
pub fn import_args(path: &str, name: &str) -> (r: Vec<String>)
    ensures
        texts(r@) == seq!["create"@, "--from-ipsw"@, path@, name@],
{
    let r = vec!["create".to_owned(), "--from-ipsw".to_owned(), path.to_owned(), name.to_owned()];
    assert(texts(r@) =~= seq!["create"@, "--from-ipsw"@, path@, name@]);
    r
}

/// The arguments of tart that smoke-boot an image.
pub fn validate_image(name: &str) -> (r: Vec<String>)
    ensures
        texts(r@) == seq!["run"@, "--no-graphics"@, name@, "--"@, "true"@],
{
    let r = vec![
        "run".to_owned(),
        "--no-graphics".to_owned(),
        name.to_owned(),
        "--".to_owned(),
        "true".to_owned(),
    ];
    assert(texts(r@) =~= seq!["run"@, "--no-graphics"@, name@, "--"@, "true"@]);
    r
}

// ---------------------------------------------------------------------------
// Laws
// ---------------------------------------------------------------------------

/// An image that was pulled is found again: with the cache entry that a pull leaves
/// behind, and as long as the image is in the local store, its ref is its name.
pub proof fn pulled_image_is_found_again(
    image_ref: Seq<char>,
    stored: Seq<Seq<char>>,
    cache: Map<Seq<char>, CacheEntry>,
)
    requires
        cache.contains_key(image_ref),
        cache[image_ref].local_name@ == image_ref,
        stored.contains(image_ref),
    ensures
        local_image(image_ref, stored, cache) == Some(image_ref),
{
}

/// The names in a list are the second words of its rows: a row with two words or more
/// adds its second one at the end, any other adds nothing, and the header is no row.
pub proof fn names_are_second_words(rows: Seq<Seq<char>>, row: Seq<char>)
    ensures
        second_words(seq![]) == Seq::<Seq<char>>::empty(),
        word_list(row).len() >= 2 ==> second_words(rows.push(row)) == second_words(rows).push(
            word_list(row)[1],
        ),
        word_list(row).len() < 2 ==> second_words(rows.push(row)) == second_words(rows),
{
    assert(rows.push(row).drop_last() =~= rows);
}

/// The first line of a list is its header, and all the others are rows.
pub proof fn header_is_no_row(header: Seq<char>, rest: Seq<char>)
    requires
        !header.contains('\n'),
    ensures
        listed_rows(header + seq!['\n'] + rest) == line_list(rest),
        listed_rows(header) == Seq::<Seq<char>>::empty(),
{
    crate::text::lines_end_at_line_feeds(header, rest);
    assert(listed_rows(header + seq!['\n'] + rest) =~= line_list(rest));
    assert(listed_rows(header) =~= Seq::empty());
}

/// A local image is one that is in the store. It is found wherever the cache's name for
/// it or its ref is there, and the cache's name goes first.
pub proof fn local_images_are_stored(
    image_ref: Seq<char>,
    stored: Seq<Seq<char>>,
    cache: Map<Seq<char>, CacheEntry>,
)
    ensures
        local_image(image_ref, stored, cache) matches Some(name) ==> stored.contains(name),
        cache.contains_key(image_ref) && stored.contains(cache[image_ref].local_name@)
            ==> local_image(image_ref, stored, cache) == Some(cache[image_ref].local_name@),
        !cache.contains_key(image_ref) && stored.contains(image_ref) ==> local_image(
            image_ref,
            stored,
            cache,
        ) == Some(image_ref),
        stored.contains(image_ref) ==> local_image(image_ref, stored, cache) is Some,
        local_image(image_ref, stored, cache) matches Some(name) ==> name == image_ref || (
        cache.contains_key(image_ref) && name == cache[image_ref].local_name@),
{
}

/// A path is a file to import exactly where something is there and its last component is
/// a name, not empty, followed by `.ipsw`; that name is what it is imported under.
pub proof fn ipsw_files_have_their_ending(image_ref: Seq<char>, stem: Seq<char>)
    requires
        stem.len() > 0,
        final_name(image_ref) == Some(stem + ".ipsw"@),
    ensures
        is_ipsw(image_ref, true),
        !is_ipsw(image_ref, false),
        import_name(image_ref) == stem,
{
    reveal_strlit(".ipsw");
    reveal_strlit("ipsw");
    let name = stem + ".ipsw"@;
    crate::paths::lemma_last_dot(stem, "ipsw"@);
    assert(seq!['.'] + "ipsw"@ =~= ".ipsw"@);
    assert(stem + seq!['.'] + "ipsw"@ =~= name);
}

/// What is imported ends in `.ipsw`.
pub proof fn only_ipsw_files_are_imported(image_ref: Seq<char>, path_exists: bool)
    requires
        is_ipsw(image_ref, path_exists),
    ensures
        path_exists,
        final_name(image_ref) matches Some(name) && name.len() > 5 && name.skip(name.len() - 5)
            == ".ipsw"@,
{
    reveal_strlit(".ipsw");
    reveal_strlit("ipsw");
    let name = final_name(image_ref)->0;
    crate::paths::extension_and_stem_make_the_name(name);
    assert(name.skip(name.len() - 5) =~= ".ipsw"@);
}

/// A file is taken for an archive by its first four bytes alone.
pub proof fn archives_start_with_their_mark(rest: Seq<u8>, head: Seq<u8>)
    ensures
        is_zip(seq![0x50u8, 0x4b, 0x03, 0x04] + rest),
        is_zip(head) ==> head.len() >= 4 && head[0] == 0x50 && head[1] == 0x4b && head[2] == 0x03
            && head[3] == 0x04,
{
    let mark = seq![0x50u8, 0x4b, 0x03, 0x04];
    assert((mark + rest).take(4) =~= mark);
    if is_zip(head) {
        assert(head.take(4)[0] == head[0] && head.take(4)[1] == head[1] && head.take(4)[2]
            == head[2] && head.take(4)[3] == head[3]);
    }
}

/// The name under which a file is imported is its own without what stands behind the last
/// dot, or a fixed one where the path has no last component. A missing image is named in
/// the error, with the command that pulls it, and so is a file that is no archive.
pub proof fn image_errors_name_the_image(
    agent: Seq<char>,
    image_ref: Seq<char>,
    path: Seq<char>,
)
    ensures
        missing_error(agent, image_ref) == "image "@ + image_ref
            + " not found locally and --pull=never; run `"@ + (agent + "-box"@) + " images pull "@
            + image_ref + "` first"@,
        not_ipsw_error(path) == "not a macOS IPSW (no zip archive): "@ + path,
        final_name(path) is None ==> import_name(path) == "imported"@,
        final_name(path) matches Some(name) ==> (import_name(path) == name && (forall|i: int|
            0 < i < name.len() ==> name[i] != '.')) || (exists|ext: Seq<char>|
            !ext.contains('.') && #[trigger] (import_name(path) + seq!['.'] + ext) == name),
{
    if let Some(name) = final_name(path) {
        crate::paths::extension_and_stem_make_the_name(name);
        if let Some(ext) = name_extension(name) {
            assert(!ext.contains('.') && import_name(path) + seq!['.'] + ext == name);
        }
    }
}

/// The pull policy is kept: `always` pulls, whatever is stored; `never` never does, and
/// refuses an image that is not stored; otherwise an image is pulled exactly where it is not
/// stored. What is used is stored.
pub proof fn pull_policy_is_kept(
    agent: &str,
    image_ref: &str,
    policy: PullPolicy,
    stored: &Vec<String>,
    cache: &ImageCache,
    r: ImageAction,
)
    requires
        call_ensures(pull_oci, (agent, image_ref, policy, stored, cache), r),
    ensures
        policy == PullPolicy::Always ==> r is Pull,
        policy == PullPolicy::Never ==> !(r is Pull),
        policy == PullPolicy::Missing ==> !(r is Refuse),
        !(r is Import),
        r matches ImageAction::Use(name) ==> texts(stored@).contains(name@) && (name@ == image_ref@
            || (cache@.contains_key(image_ref@) && cache@[image_ref@].local_name@ == name@)),
        policy != PullPolicy::Always && texts(stored@).contains(image_ref@) ==> r is Use,
        policy != PullPolicy::Always && cache@.contains_key(image_ref@) && texts(stored@).contains(
            cache@[image_ref@].local_name@,
        ) ==> r is Use,
{
}

/// A file is imported once: under a name that is stored it is used, and otherwise imported
/// where it is an archive, and refused where it is none.
pub proof fn files_are_imported_once(
    path: &str,
    head: &Vec<u8>,
    stored: &Vec<String>,
    r: ImageAction,
)
    requires
        call_ensures(import_ipsw, (path, head, stored), r),
    ensures
        texts(stored@).contains(import_name(path@)) <==> r is Use,
        r matches ImageAction::Use(name) ==> name@ == import_name(path@),
        r matches ImageAction::Import(name) ==> name@ == import_name(path@),
        !(r is Use) && is_zip(head@) <==> r is Import,
        !(r is Pull),
{
}

/// A pull that succeeds is remembered under the ref, with its time, and one that fails
/// changes nothing; no other image is forgotten or changed in either case.
pub proof fn pulled_images_are_remembered(
    image_ref: &str,
    success: bool,
    status: &str,
    cache: &mut ImageCache,
    now: u64,
    r: Result<String, String>,
    other: Seq<char>,
)
    requires
        call_ensures(do_pull_oci, (image_ref, success, status, cache, now), r),
    ensures
        r is Ok <==> success,
        r matches Ok(name) ==> name@ == image_ref@ && final(cache)@.contains_key(image_ref@)
            && final(cache)@[image_ref@].local_name@ == image_ref@
            && final(cache)@[image_ref@].pulled_at@ == decimal(now as nat),
        !success ==> *final(cache) == *old(cache),
        other != image_ref@ ==> final(cache)@.contains_key(other) == old(cache)@.contains_key(other)
            && (old(cache)@.contains_key(other) ==> final(cache)@[other] == old(cache)@[other]),
{
    let a = old(cache)@.remove(image_ref@);
    let b = final(cache)@.remove(image_ref@);
    if success && other != image_ref@ {
        assert(a.contains_key(other) == b.contains_key(other));
        if a.contains_key(other) {
            assert(a[other] == b[other]);
        }
    }
}

/// Only `f` and `fallback`, in whatever case and with white space around them, ask for the
/// fallback; any other answer, and none, waits for the pull.
pub proof fn only_a_clear_wish_falls_back(input: &Option<String>, r: bool)
    requires
        call_ensures(prompt_pull_or_fallback, (input,), r),
    ensures
        *input is None ==> r,
        *input matches Some(s) ==> (!r <==> lowercase(trimmed(s@)) == "f"@ || lowercase(
            trimmed(s@),
        ) == "fallback"@),
{
}

} // verus!
