//! The `images` subcommand.
use vstd::prelude::*;

use crate::names::{tool, tool_name};
use crate::text::{cat, decimal, decimal_text, pad, padded, same, texts};
use crate::vm::image_cache::{CacheEntry, ImageCache};

verus! {

/// What the `images` subcommand is asked to do.
pub enum ImagesCommand {
    /// List the cached images.
    List,
    /// Pull the image with this ref.
    Pull(String),
    /// Remove the image with this ref or name.
    Rm(String),
    /// Remove all cached images.
    Prune,
    /// Nothing, as an argument is missing; the usage.
    Usage(String),
    /// Nothing, as there is no such subcommand; the complaint.
    Unknown(String),
}

/// Whether `cmd` is what the arguments ask for.
pub open spec fn asked_for(agent: Seq<char>, args: Seq<Seq<char>>, cmd: ImagesCommand) -> bool {
    if args.len() == 0 || args[0] == "list"@ {
        cmd is List
    } else if args[0] == "pull"@ {
        if args.len() > 1 {
            cmd matches ImagesCommand::Pull(s) && s@ == args[1]
        } else {
            cmd matches ImagesCommand::Usage(s) && s@ == "usage: "@ + tool_name(agent)
                + " images pull <ref>"@
        }
    } else if args[0] == "rm"@ {
        if args.len() > 1 {
            cmd matches ImagesCommand::Rm(s) && s@ == args[1]
        } else {
            cmd matches ImagesCommand::Usage(s) && s@ == "usage: "@ + tool_name(agent)
                + " images rm <ref|name>"@
        }
    } else if args[0] == "prune"@ {
        cmd is Prune
    } else {
        cmd matches ImagesCommand::Unknown(s) && s@ == "unknown images subcommand: "@ + args[0]
    }
}

fn usage(agent: &str, rest: &str) -> (r: String)
    ensures
        r@ == "usage: "@ + tool_name(agent@) + rest@,
{
    let mut r = cat("usage: ", tool(agent).as_str());
    r.append(rest);
    r
}

/// What the `images` subcommand is asked to do by its arguments.
pub fn run_images_command(agent: &str, args: &Vec<String>) -> (r: ImagesCommand)
    ensures
        asked_for(agent@, texts(args@), r),
{
    assert(texts(args@).len() == args.len());
    if args.len() == 0 {
        return ImagesCommand::List;
    }
    assert(texts(args@)[0] == args@[0]@);
    let first = args[0].as_str();
    if same(first, "list") {
        ImagesCommand::List
    } else if same(first, "pull") {
        if args.len() > 1 {
            assert(texts(args@)[1] == args@[1]@);
            ImagesCommand::Pull(args[1].clone())
        } else {
            ImagesCommand::Usage(usage(agent, " images pull <ref>"))
        }
    } else if same(first, "rm") {
        if args.len() > 1 {
            assert(texts(args@)[1] == args@[1]@);
            ImagesCommand::Rm(args[1].clone())
        } else {
            ImagesCommand::Usage(usage(agent, " images rm <ref|name>"))
        }
    } else if same(first, "prune") {
        ImagesCommand::Prune
    } else {
        ImagesCommand::Unknown(cat("unknown images subcommand: ", first))
    }
}

/// One row of the table of images.
pub open spec fn image_row(image_ref: Seq<char>, name: Seq<char>, pulled: Seq<char>) -> Seq<char> {
    padded(image_ref, 60) + " "@ + padded(name, 40) + " "@ + pulled
}

fn row(image_ref: &str, name: &str, pulled: &str) -> (r: String)
    ensures
        r@ == image_row(image_ref@, name@, pulled@),
{
    let mut r = pad(image_ref, 60);
    r.append(" ");
    r.append(pad(name, 40).as_str());
    r.append(" ");
    r.append(pulled);
    r
}

/// The lines of the table of images.
pub open spec fn image_table(
    order: Seq<Seq<char>>,
    entries: Map<Seq<char>, CacheEntry>,
) -> Seq<Seq<char>> {
    if order.len() == 0 {
        seq!["No cached images."@]
    } else {
        seq![
            image_row("IMAGE REF"@, "LOCAL NAME"@, "PULLED AT"@),
            Seq::new(110, |i: int| '-'),
        ] + order.map_values(
            |k: Seq<char>| image_row(k, entries[k].local_name@, entries[k].pulled_at@),
        )
    }
}

/// The lines of the table of images.
pub fn cmd_list(cache: &ImageCache) -> (r: Vec<String>)
    ensures
        texts(r@) == image_table(cache.order(), cache@),
{
    let entries = cache.entries();
    let mut r: Vec<String> = Vec::new();
    if entries.len() == 0 {
        r.push("No cached images.".to_owned());
        assert(texts(r@) =~= seq!["No cached images."@]);
        return r;
    }
    r.push(row("IMAGE REF", "LOCAL NAME", "PULLED AT"));
    let mut rule = String::new();
    let mut i: usize = 0;
    assert(rule@ =~= Seq::new(0, |i: int| '-'));
    while i < 110
        invariant
            i <= 110,
            rule@ == Seq::new(i as nat, |k: int| '-'),
        decreases 110 - i,
    {
        rule.push('-');
        assert(rule@ =~= Seq::new((i + 1) as nat, |k: int| '-'));
        i += 1;
    }
    r.push(rule);
    let ghost f = |k: Seq<char>| image_row(k, cache@[k].local_name@, cache@[k].pulled_at@);
    let ghost head = seq![
        image_row("IMAGE REF"@, "LOCAL NAME"@, "PULLED AT"@),
        Seq::new(110, |i: int| '-'),
    ];
    let ghost rows = cache.order().map_values(f);
    assert(rule@ =~= Seq::new(110, |i: int| '-'));
    assert(texts(r@) =~= head + rows.take(0));
    let mut i: usize = 0;
    while i < entries.len()
        invariant
            i <= rows.len(),
            entries@ == cache@,
            entries.order() == cache.order(),
            f == (|k: Seq<char>| image_row(k, cache@[k].local_name@, cache@[k].pulled_at@)),
            rows == cache.order().map_values(f),
            texts(r@) == head + rows.take(i as int),
        decreases rows.len() - i,
    {
        let (image_ref, entry) = entries.at(i);
        let line = row(image_ref.as_str(), entry.local_name.as_str(), entry.pulled_at.as_str());
        assert(line@ == rows[i as int]);
        let ghost before = texts(r@);
        r.push(line);
        assert(texts(r@) =~= before.push(line@));
        assert(rows.take(i + 1) =~= rows.take(i as int).push(rows[i as int]));
        i += 1;
    }
    assert(rows.take(i as int) =~= rows);
    assert(texts(r@) =~= image_table(cache.order(), cache@));
    r
}

/// What is said of an image that was pulled.
pub fn cmd_pull(image_ref: &str, local_name: &str) -> (r: String)
    ensures
        r@ == "Pulled "@ + image_ref@ + " → "@ + local_name@,
{
    let mut r = cat("Pulled ", image_ref);
    r.append(" → ");
    r.append(local_name);
    r
}

/// Remove an image from the cache. What has to be deleted from tart's local store
/// is the name that the cache had for it, or else the name that was given.
pub fn cmd_rm(image_ref: &str, cache: &mut ImageCache) -> (r: String)
    ensures
        r@ == if old(cache)@.contains_key(image_ref@) {
            old(cache)@[image_ref@].local_name@
        } else {
            image_ref@
        },
        final(cache)@ == old(cache)@.remove(image_ref@),
        final(cache).order() == old(cache).order().filter(|x: Seq<char>| x != image_ref@),
        final(cache).file() == old(cache).file(),
{
    let name = match cache.get(image_ref) {
        Some(entry) => entry.local_name.clone(),
        None => image_ref.to_owned(),
    };
    cache.remove(image_ref);
    name
}

/// How the deletion of an image from tart's local store went.
pub enum Deletion {
    /// The image was not there.
    Absent,
    /// It was deleted.
    Deleted,
    /// It could not be deleted; how the command ended.
    Refused(String),
}

/// What is said of an image that was removed, or the error.
pub fn rm_report(name: &str, deletion: &Deletion) -> (r: Result<String, String>)
    ensures
        match *deletion {
            Deletion::Absent => r matches Ok(s) && s@ == "Image "@ + name@
                + " not found in tart (removed from cache only)"@,
            Deletion::Deleted => r matches Ok(s) && s@ == "Deleted "@ + name@,
            Deletion::Refused(status) => r matches Err(e) && e@ == "tart delete "@ + name@
                + " failed with "@ + status@,
        },
{
    match deletion {
        Deletion::Absent => {
            let mut s = cat("Image ", name);
            s.append(" not found in tart (removed from cache only)");
            Ok(s)
        },
        Deletion::Deleted => Ok(cat("Deleted ", name)),
        Deletion::Refused(status) => {
            let mut e = cat("tart delete ", name);
            e.append(" failed with ");
            e.append(status.as_str());
            Err(e)
        },
    }
}

/// The images to prune: for each cached one its ref and its local name.
pub fn prune_list(cache: &ImageCache) -> (r: Vec<(String, String)>)
    ensures
        r.len() == cache.order().len(),
        forall|i: int|
            0 <= i < r.len() ==> (#[trigger] r@[i]).0@ == cache.order()[i] && r@[i].1@
                == cache@[cache.order()[i]].local_name@,
{
    let entries = cache.entries();
    let mut r: Vec<(String, String)> = Vec::new();
    let mut i: usize = 0;
    let n = entries.len();
    while i < n
        invariant
            i <= n,
            n == cache.order().len(),
            entries@ == cache@,
            entries.order() == cache.order(),
            r.len() == i,
            forall|j: int|
                0 <= j < i ==> (#[trigger] r@[j]).0@ == cache.order()[j] && r@[j].1@
                    == cache@[cache.order()[j]].local_name@,
        decreases n - i,
    {
        let (image_ref, entry) = entries.at(i);
        r.push((image_ref.clone(), entry.local_name.clone()));
        i += 1;
    }
    r
}

/// Prune one image: the cache forgets it, whether or not tart could delete it. What
/// is said of it, if anything; the flag tells a warning.
pub fn cmd_prune(
    image_ref: &str,
    name: &str,
    deletion: &Deletion,
    cache: &mut ImageCache,
) -> (r: Option<(String, bool)>)
    ensures
        final(cache)@ == old(cache)@.remove(image_ref@),
        final(cache).order() == old(cache).order().filter(|x: Seq<char>| x != image_ref@),
        final(cache).file() == old(cache).file(),
        match *deletion {
            Deletion::Absent => r is None,
            Deletion::Deleted => r matches Some(p) && p.0@ == "Deleted "@ + name@ && !p.1,
            Deletion::Refused(status) => r matches Some(p) && p.0@ == "warning: tart delete "@
                + name@ + " failed with "@ + status@ && p.1,
        },
{
    cache.remove(image_ref);
    match deletion {
        Deletion::Absent => None,
        Deletion::Deleted => Some((cat("Deleted ", name), false)),
        Deletion::Refused(status) => {
            let mut e = cat("warning: tart delete ", name);
            e.append(" failed with ");
            e.append(status.as_str());
            Some((e, true))
        },
    }
}

/// The last line of a pruning.
pub fn prune_summary(n: usize) -> (r: String)
    ensures
        r@ == if n == 0 {
            "Nothing to prune."@
        } else {
            "Pruned "@ + decimal(n as nat) + " image(s)."@
        },
{
    if n == 0 {
        return "Nothing to prune.".to_owned();
    }
    let mut r = cat("Pruned ", decimal_text(n as u64).as_str());
    r.append(" image(s).");
    r
}

/// What is left of a map when some keys are removed one after the other.
pub open spec fn without_keys<V>(m: Map<Seq<char>, V>, keys: Seq<Seq<char>>) -> Map<Seq<char>, V>
    decreases keys.len(),
{
    if keys.len() == 0 {
        m
    } else {
        without_keys(m, keys.drop_last()).remove(keys.last())
    }
}

/// Pruning all images leaves none: once every ref of the cache has been removed, it
/// is empty.
pub proof fn pruning_empties_the_cache(cache: ImageCache)
    ensures
        without_keys(cache@, cache.order()) == Map::<Seq<char>, CacheEntry>::empty(),
{
    cache.order_lists_the_refs();
    lemma_without_keys(cache@, cache.order());
    assert(without_keys(cache@, cache.order()) =~= Map::<Seq<char>, CacheEntry>::empty());
}

proof fn lemma_without_keys<V>(m: Map<Seq<char>, V>, keys: Seq<Seq<char>>)
    ensures
        forall|k: Seq<char>| #[trigger]
            without_keys(m, keys).contains_key(k) == (m.contains_key(k) && !keys.contains(k)),
    decreases keys.len(),
{
    if keys.len() > 0 {
        let short = keys.drop_last();
        lemma_without_keys(m, short);
        assert forall|k: Seq<char>| #[trigger]
            without_keys(m, keys).contains_key(k) == (m.contains_key(k) && !keys.contains(k)) by {
            assert(without_keys(m, short).contains_key(k) == (m.contains_key(k) && !short.contains(
                k,
            )));
            if short.contains(k) {
                let i = choose|i: int| 0 <= i < short.len() && short[i] == k;
                assert(keys[i] == k);
            }
            if k == keys.last() {
                assert(keys[keys.len() - 1] == k);
            }
            if keys.contains(k) {
                let i = choose|i: int| 0 <= i < keys.len() && keys[i] == k;
                if i < short.len() {
                    assert(short[i] == k);
                }
            }
        }
    }
}

/// Every argument of the `images` subcommand is understood in one way: without one, or
/// with `list`, the images are listed; `pull` and `rm` take the argument behind them,
/// whatever follows it, and show their usage where there is none; `prune` takes none; any
/// other word is complained about.
pub proof fn images_arguments_are_understood(
    agent: Seq<char>,
    word: Seq<char>,
    name: Seq<char>,
    rest: Seq<Seq<char>>,
    cmd: ImagesCommand,
)
    ensures
        asked_for(agent, seq![], cmd) == cmd is List,
        asked_for(agent, seq!["list"@] + rest, cmd) == cmd is List,
        asked_for(agent, seq!["prune"@] + rest, cmd) == cmd is Prune,
        asked_for(agent, seq!["pull"@, name] + rest, cmd) == (cmd matches ImagesCommand::Pull(s)
            && s@ == name),
        asked_for(agent, seq!["rm"@, name] + rest, cmd) == (cmd matches ImagesCommand::Rm(s) && s@
            == name),
        asked_for(agent, seq!["pull"@], cmd) == (cmd matches ImagesCommand::Usage(s) && s@
            == "usage: "@ + (agent + "-box"@) + " images pull <ref>"@),
        asked_for(agent, seq!["rm"@], cmd) == (cmd matches ImagesCommand::Usage(s) && s@
            == "usage: "@ + (agent + "-box"@) + " images rm <ref|name>"@),
        word != "list"@ && word != "pull"@ && word != "rm"@ && word != "prune"@ ==> asked_for(
            agent,
            seq![word] + rest,
            cmd,
        ) == (cmd matches ImagesCommand::Unknown(s) && s@ == "unknown images subcommand: "@ + word),
{
    reveal_strlit("list");
    reveal_strlit("pull");
    reveal_strlit("rm");
    reveal_strlit("prune");
    assert("list"@[0] == 'l' && "pull"@[1] == 'u' && "rm"@[0] == 'r' && "prune"@[1] == 'r');
    assert("pull"@[0] == 'p' && "prune"@[0] == 'p');
}

/// The table of images has one row per image, in their order, with its ref, its local
/// name and its time; the columns start at the same place in every row. Without an image
/// one line says so.
pub proof fn every_image_has_a_row(
    order: Seq<Seq<char>>,
    entries: Map<Seq<char>, CacheEntry>,
    i: int,
)
    ensures
        order.len() == 0 ==> image_table(order, entries) == seq!["No cached images."@],
        order.len() > 0 ==> {
            &&& image_table(order, entries).len() == order.len() + 2
            &&& image_table(order, entries)[0] == padded("IMAGE REF"@, 60) + " "@ + padded(
                "LOCAL NAME"@,
                40,
            ) + " "@ + "PULLED AT"@
            &&& image_table(order, entries)[1].len() == 110
            &&& 0 <= i < 110 ==> image_table(order, entries)[1][i] == '-'
        },
        0 <= i < order.len() ==> image_table(order, entries)[i + 2] == padded(order[i], 60) + " "@
            + padded(entries[order[i]].local_name@, 40) + " "@ + entries[order[i]].pulled_at@,
{
}

/// Removing an image forgets it and no other, and what is deleted from tart's store is the
/// name that the cache had for it, or else the name that was given.
pub proof fn removed_images_are_forgotten(
    image_ref: &str,
    cache: &mut ImageCache,
    r: String,
    other: Seq<char>,
)
    requires
        call_ensures(cmd_rm, (image_ref, cache), r),
    ensures
        !final(cache)@.contains_key(image_ref@),
        other != image_ref@ ==> final(cache)@.contains_key(other) == old(cache)@.contains_key(other)
            && (old(cache)@.contains_key(other) ==> final(cache)@[other] == old(cache)@[other]),
        old(cache)@.contains_key(image_ref@) ==> r@ == old(cache)@[image_ref@].local_name@,
        !old(cache)@.contains_key(image_ref@) ==> r@ == image_ref@,
{
}

/// Pruning forgets an image whether or not tart could delete it, and no other; a warning
/// is given exactly where tart could not.
pub proof fn pruned_images_are_forgotten(
    image_ref: &str,
    name: &str,
    deletion: &Deletion,
    cache: &mut ImageCache,
    r: Option<(String, bool)>,
    other: Seq<char>,
)
    requires
        call_ensures(cmd_prune, (image_ref, name, deletion, cache), r),
    ensures
        !final(cache)@.contains_key(image_ref@),
        other != image_ref@ ==> final(cache)@.contains_key(other) == old(cache)@.contains_key(other)
            && (old(cache)@.contains_key(other) ==> final(cache)@[other] == old(cache)@[other]),
        r is None <==> *deletion is Absent,
        (r matches Some(p) && p.1) <==> *deletion is Refused,
{
}

/// Every cached image is pruned, under its local name, and nothing else is.
pub proof fn every_image_is_pruned(
    cache: &ImageCache,
    r: Vec<(String, String)>,
    image_ref: Seq<char>,
)
    requires
        call_ensures(prune_list, (cache,), r),
    ensures
        cache@.contains_key(image_ref) <==> exists|i: int|
            0 <= i < r@.len() && (#[trigger] r@[i]).0@ == image_ref,
        forall|i: int|
            0 <= i < r@.len() ==> (#[trigger] r@[i]).1@ == cache@[r@[i].0@].local_name@,
{
    cache.order_lists_the_refs();
    if cache.order().contains(image_ref) {
        let i = choose|i: int| 0 <= i < cache.order().len() && cache.order()[i] == image_ref;
        assert(r@[i].0@ == image_ref);
    }
    if exists|i: int| 0 <= i < r@.len() && (#[trigger] r@[i]).0@ == image_ref {
        let i = choose|i: int| 0 <= i < r@.len() && (#[trigger] r@[i]).0@ == image_ref;
        assert(cache.order()[i] == image_ref);
    }
}

} // verus!
