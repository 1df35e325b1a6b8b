//! The table of pulled images.
use vstd::prelude::*;

use crate::names::{tool, tool_name};
use crate::paths::{join_path, path_join};
use crate::table::{keys_with, Table};
use crate::text::{cat, decimal, decimal_text};

verus! {

/// What is known of a pulled image.
#[derive(Debug, Clone)]
pub struct CacheEntry {
    /// The name of the image in tart's local store.
    pub local_name: String,
    /// When it was pulled, in seconds since the Unix epoch.
    pub pulled_at: String,
}

/// The cache directory of the tool below a home directory.
pub open spec fn cache_path(home: Seq<char>, agent: Seq<char>) -> Seq<char> {
    path_join(path_join(home, ".cache"@), tool_name(agent))
}

/// The cache directory of the tool below a home directory.
pub fn cache_dir(home: &str, agent: &str) -> (r: String)
    ensures
        r@ == cache_path(home@, agent@),
{
    join_path(join_path(home, ".cache").as_str(), tool(agent).as_str())
}

/// The images that were pulled, by their refs.
pub struct ImageCache {
    path: String,
    entries: Table<CacheEntry>,
}

impl View for ImageCache {
    type V = Map<Seq<char>, CacheEntry>;

    closed spec fn view(&self) -> Map<Seq<char>, CacheEntry> {
        self.entries@
    }
}

impl ImageCache {
    /// The file that the cache is kept in.
    pub closed spec fn file(&self) -> Seq<char> {
        self.path@
    }

    /// The refs, in the order in which they were first inserted.
    pub closed spec fn order(&self) -> Seq<Seq<char>> {
        self.entries.order()
    }

    /// The refs in their order are all the refs.
    pub proof fn order_lists_the_refs(self)
        ensures
            forall|k: Seq<char>| #[trigger] self@.contains_key(k) == self.order().contains(k),
    {
        self.entries.order_lists_the_keys();
    }

    /// The cache of a home directory, with the entries that its file holds.
    pub fn load(home: &str, agent: &str, entries: Table<CacheEntry>) -> (r: Self)
        ensures
            r@ == entries@,
            r.order() == entries.order(),
            r.file() == path_join(cache_path(home@, agent@), "images.json"@),
    {
        ImageCache { path: join_path(cache_dir(home, agent).as_str(), "images.json"), entries }
    }

    /// The file whose lock is held while the cache is in use.
    pub fn lock_file(home: &str, agent: &str) -> (r: String)
        ensures
            r@ == path_join(cache_path(home@, agent@), "images.lock"@),
    {
        join_path(cache_dir(home, agent).as_str(), "images.lock")
    }

    /// Where the cache is saved: it is written to the first file, which is then
    /// renamed to the second.
    pub fn save(&self) -> (r: (String, String))
        ensures
            r.0@ == self.file() + ".tmp"@,
            r.1@ == self.file(),
    {
        (cat(self.path.as_str(), ".tmp"), self.path.clone())
    }

    /// Get a cached entry by image ref.
    pub fn get(&self, image_ref: &str) -> (r: Option<&CacheEntry>)
        ensures
            r is Some == self@.contains_key(image_ref@),
            r matches Some(e) ==> *e == self@[image_ref@],
    {
        self.entries.get(image_ref)
    }

    /// Insert or update an entry, pulled at the second `now`.
    pub fn insert(&mut self, image_ref: &str, local_name: &str, now: u64)
        ensures
            final(self)@.contains_key(image_ref@),
            final(self)@[image_ref@].local_name@ == local_name@,
            final(self)@[image_ref@].pulled_at@ == decimal(now as nat),
            final(self)@.remove(image_ref@) == old(self)@.remove(image_ref@),
            final(self).order() == keys_with(old(self).order(), image_ref@),
            final(self).file() == old(self).file(),
    {
        let entry = CacheEntry { local_name: local_name.to_owned(), pulled_at: decimal_text(now) };
        self.entries.insert(image_ref.to_owned(), entry);
        assert(self@.remove(image_ref@) =~= old(self)@.remove(image_ref@));
    }

    /// Remove an entry.
    pub fn remove(&mut self, image_ref: &str)
        ensures
            final(self)@ == old(self)@.remove(image_ref@),
            final(self).order() == old(self).order().filter(|x: Seq<char>| x != image_ref@),
            final(self).file() == old(self).file(),
    {
        let _ = self.entries.remove(image_ref);
    }

    /// All entries.
    pub fn entries(&self) -> (r: &Table<CacheEntry>)
        ensures
            r@ == self@,
            r.order() == self.order(),
    {
        &self.entries
    }
}

/// The cache of the tool lies below the home directory, in the directory for caches.
pub proof fn cache_lies_below_home(home: Seq<char>, agent: Seq<char>)
    requires
        home.len() > 0,
        home.last() != '/',
        agent.len() > 0,
        agent[0] != '/',
    ensures
        cache_path(home, agent) == home + "/.cache/"@ + agent + "-box"@,
{
    reveal_strlit(".cache");
    reveal_strlit("/.cache/");
    reveal_strlit("-box");
    assert(cache_path(home, agent) =~= home + "/.cache/"@ + agent + "-box"@);
}

/// An image that is remembered is found again, with its name and its time, and all others
/// stay as they were.
pub proof fn remembered_images_are_found(
    cache: &mut ImageCache,
    image_ref: &str,
    local_name: &str,
    now: u64,
    other: Seq<char>,
)
    requires
        call_ensures(ImageCache::insert, (cache, image_ref, local_name, now), ()),
    ensures
        final(cache)@.contains_key(image_ref@),
        final(cache)@[image_ref@].local_name@ == local_name@,
        final(cache)@[image_ref@].pulled_at@ == decimal(now as nat),
        other != image_ref@ ==> final(cache)@.contains_key(other) == old(cache)@.contains_key(other)
            && (old(cache)@.contains_key(other) ==> final(cache)@[other] == old(cache)@[other]),
{
    let a = old(cache)@.remove(image_ref@);
    let b = final(cache)@.remove(image_ref@);
    if other != image_ref@ {
        assert(a.contains_key(other) == b.contains_key(other));
        if a.contains_key(other) {
            assert(a[other] == b[other]);
        }
    }
}

} // verus!
