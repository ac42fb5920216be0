//! The project file system's model: directory entries, their display order,
//! and the cache of directory listings and file contents, with its expiry.
//! Reading and writing the disk is done by the caller, which then tells the
//! cache what happened.
use vstd::prelude::*;
use vstd::string::StringSliceAdditionalSpecFns;
use crate::keyed::KeyedList;
use vstd::string::StringExecFns;
use crate::paths::{path_join, path_parent, path_key, join_path, key_of, parent_of};
use crate::text::{decimal, decimal_string};

verus! {

/// The folder whose listing a change at `path` affects: its parent, or the
/// path itself when it has none.
pub open spec fn parent_or_self(path: Seq<char>) -> Seq<char> {
    match path_parent(path) {
        Some(p) => p,
        None => path,
    }
}

fn parent_or_self_exec(path: &str) -> (r: String)
    ensures
        r@ == parent_or_self(path@),
{
    match parent_of(path) {
        Some(p) => p,
        None => String::from_str(path),
    }
}

/// An entry of a directory listing. `modified` is in milliseconds since the
/// Unix epoch (zero when the platform does not tell).
#[derive(Clone, Debug)]
pub struct DirectoryEntry {
    pub name: String,
    pub is_dir: bool,
    pub size: u64,
    pub modified: u64,
}

impl DirectoryEntry {
    /// A copy of the entry.
    pub fn copy(&self) -> (r: Self)
        ensures
            r == *self,
    {
        DirectoryEntry { name: self.name.clone(), is_dir: self.is_dir, size: self.size, modified: self.modified }
    }
}

/// `a[i..]` is at most `b[i..]` in byte-wise lexicographic order.
pub open spec fn bytes_le_from(a: Seq<u8>, b: Seq<u8>, i: int) -> bool
    decreases a.len() - i,
{
    if i >= a.len() {
        true
    } else if i >= b.len() {
        false
    } else if a[i] < b[i] {
        true
    } else if a[i] > b[i] {
        false
    } else {
        bytes_le_from(a, b, i + 1)
    }
}

/// `a` is at most `b` in byte-wise lexicographic order (the order of `String`).
pub open spec fn bytes_le(a: Seq<u8>, b: Seq<u8>) -> bool {
    bytes_le_from(a, b, 0)
}

proof fn lemma_bytes_le_total(a: Seq<u8>, b: Seq<u8>, i: int)
    requires
        0 <= i,
    ensures
        bytes_le_from(a, b, i) || bytes_le_from(b, a, i),
    decreases a.len() - i,
{
    if i < a.len() && i < b.len() && a[i] == b[i] {
        lemma_bytes_le_total(a, b, i + 1);
    }
}

proof fn lemma_bytes_le_trans(a: Seq<u8>, b: Seq<u8>, c: Seq<u8>, i: int)
    requires
        0 <= i,
        bytes_le_from(a, b, i),
        bytes_le_from(b, c, i),
    ensures
        bytes_le_from(a, c, i),
    decreases a.len() - i,
{
    if i < a.len() && i < b.len() && i < c.len() && a[i] == b[i] && b[i] == c[i] {
        lemma_bytes_le_trans(a, b, c, i + 1);
    }
}

/// `a` may stand before `b` in a listing: directories first, then by name.
pub open spec fn entry_le(a: DirectoryEntry, b: DirectoryEntry) -> bool {
    if a.is_dir == b.is_dir {
        bytes_le(name_bytes(a), name_bytes(b))
    } else {
        a.is_dir
    }
}

/// The names' bytes of an entry.
pub open spec fn name_bytes(e: DirectoryEntry) -> Seq<u8> {
    vstd::utf8::encode_utf8(e.name@)
}

proof fn lemma_entry_le_total(a: DirectoryEntry, b: DirectoryEntry)
    ensures
        entry_le(a, b) || entry_le(b, a),
{
    lemma_bytes_le_total(name_bytes(a), name_bytes(b), 0);
}

proof fn lemma_entry_le_trans(a: DirectoryEntry, b: DirectoryEntry, c: DirectoryEntry)
    requires
        entry_le(a, b),
        entry_le(b, c),
    ensures
        entry_le(a, c),
{
    if a.is_dir == b.is_dir && b.is_dir == c.is_dir {
        lemma_bytes_le_trans(name_bytes(a), name_bytes(b), name_bytes(c), 0);
    }
}

/// The entries are in listing order.
pub open spec fn listing_sorted(s: Seq<DirectoryEntry>) -> bool {
    forall|i: int, j: int| 0 <= i < j < s.len() ==> entry_le(#[trigger] s[i], #[trigger] s[j])
}

/// Whether `a` must stand before `b` (`a` before `b` and not the other way).
fn entry_before(a: &DirectoryEntry, b: &DirectoryEntry) -> (r: bool)
    ensures
        r == !entry_le(*b, *a),
{
    if a.is_dir != b.is_dir {
        return a.is_dir;
    }
    let x = b.name.as_str().as_bytes();
    let y = a.name.as_str().as_bytes();
    let mut i: usize = 0;
    while i < x.len() && i < y.len() && x[i] == y[i]
        invariant
            i <= x@.len(),
            i <= y@.len(),
            bytes_le_from(x@, y@, 0) == bytes_le_from(x@, y@, i as int),
        decreases x@.len() - i,
    {
        i = i + 1;
    }
    !(i >= x.len() || (i < y.len() && x[i] < y[i]))
}

/// The entries in listing order: directories first, then files, each group by
/// name; entries that compare equal keep their order.
pub fn sort_entries(entries: Vec<DirectoryEntry>) -> (r: Vec<DirectoryEntry>)
    ensures
        listing_sorted(r@),
        r@.to_multiset() == entries@.to_multiset(),
{
    let mut r: Vec<DirectoryEntry> = Vec::new();
    let mut i: usize = 0;
    assert(r@ =~= entries@.subrange(0, 0));
    while i < entries.len()
        invariant
            i <= entries@.len(),
            listing_sorted(r@),
            r@.to_multiset() == entries@.subrange(0, i as int).to_multiset(),
        decreases entries@.len() - i,
    {
        let x = entries[i].copy();
        let mut p = r.len();
        while p > 0 && entry_before(&x, &r[p - 1])
            invariant
                p <= r@.len(),
                forall|q: int| p <= q < r@.len() ==> !entry_le(#[trigger] r@[q], x),
            decreases p,
        {
            p = p - 1;
        }
        let ghost old_r = r@;
        r.insert(p, x);
        proof {
            assert(r@ == old_r.insert(p as int, x));
            vstd::seq_lib::to_multiset_insert(old_r, p as int, x);
            assert(entries@.subrange(0, i + 1) =~= entries@.subrange(0, i as int).push(entries@[i as int]));
            vstd::seq_lib::to_multiset_build(entries@.subrange(0, i as int), entries@[i as int]);
            assert forall|a: int, b: int| 0 <= a < b < r@.len() implies entry_le(#[trigger] r@[a], #[trigger] r@[b]) by {
                if b < p {
                    assert(r@[a] == old_r[a] && r@[b] == old_r[b]);
                } else if b == p {
                    assert(r@[a] == old_r[a]);
                    if p > 0 {
                        assert(entry_le(old_r[p - 1], x)) by {
                            lemma_entry_le_total(old_r[p - 1], x);
                        }
                        if a < p - 1 {
                            lemma_entry_le_trans(old_r[a], old_r[p - 1], x);
                        }
                    }
                } else if a == p {
                    assert(r@[b] == old_r[b - 1]);
                    lemma_entry_le_total(old_r[b - 1], x);
                } else if a < p {
                    assert(r@[a] == old_r[a] && r@[b] == old_r[b - 1]);
                } else {
                    assert(r@[a] == old_r[a - 1] && r@[b] == old_r[b - 1]);
                }
            }
        }
        i = i + 1;
    }
    assert(entries@.subrange(0, entries@.len() as int) =~= entries@);
    r
}


/// A copy of a list of entries.
pub fn copy_entries(v: &Vec<DirectoryEntry>) -> (r: Vec<DirectoryEntry>)
    ensures
        r@ == v@,
{
    let mut r: Vec<DirectoryEntry> = Vec::new();
    let mut i: usize = 0;
    while i < v.len()
        invariant
            i <= v@.len(),
            r@ == v@.subrange(0, i as int),
        decreases v@.len() - i,
    {
        r.push(v[i].copy());
        i = i + 1;
        assert(r@ =~= v@.subrange(0, i as int));
    }
    assert(v@.subrange(0, v@.len() as int) =~= v@);
    r
}

/// How long a cached listing or file content stays valid, in milliseconds.
pub const CACHE_TIMEOUT_MILLIS: u64 = 300_000;

/// Files larger than this many bytes are not opened.
pub const MAX_FILE_SIZE_BYTES: u64 = 10_000_000;

/// Something cached at `cached` is still valid at `now` (a clock that went
/// back counts as no time passed).
pub open spec fn is_fresh(cached: u64, now: u64) -> bool {
    now <= cached || now - cached < CACHE_TIMEOUT_MILLIS
}

fn fresh(cached: u64, now: u64) -> (b: bool)
    ensures
        b == is_fresh(cached, now),
{
    now <= cached || now - cached < CACHE_TIMEOUT_MILLIS
}

/// The caches: listings by directory, when each listing was cached, and file
/// contents by path with the time they were cached.
pub struct FileSystemCache {
    pub directory_contents: KeyedList<Vec<DirectoryEntry>>,
    pub last_updated: KeyedList<u64>,
    pub file_contents: KeyedList<(String, u64)>,
}

impl FileSystemCache {
    pub open spec fn wf(&self) -> bool {
        self.directory_contents.wf() && self.last_updated.wf() && self.file_contents.wf()
    }
}

/// The project file system: its directory and its caches.
pub struct FileSystem {
    pub project_directory: String,
    pub cache: FileSystemCache,
}

impl FileSystem {
    pub open spec fn wf(&self) -> bool {
        self.cache.wf()
    }

    /// The listing cached for `dir`.
    pub open spec fn listing(&self, dir: Seq<char>) -> Option<Vec<DirectoryEntry>> {
        self.cache.directory_contents.lookup(path_key(dir))
    }

    /// When the listing of `dir` was cached.
    pub open spec fn listed_at(&self, dir: Seq<char>) -> Option<u64> {
        self.cache.last_updated.lookup(path_key(dir))
    }

    /// The content cached for `path` and when it was cached.
    pub open spec fn content(&self, path: Seq<char>) -> Option<(String, u64)> {
        self.cache.file_contents.lookup(path_key(path))
    }

    /// The listing of `dir` that a read at `now` takes from the cache: the one
    /// cached less than the timeout before.
    pub open spec fn cached_listing(&self, dir: Seq<char>, now: u64) -> Option<Seq<DirectoryEntry>> {
        match self.listed_at(dir) {
            Some(t) => if is_fresh(t, now) {
                match self.listing(dir) {
                    Some(v) => Some(v@),
                    None => None,
                }
            } else {
                None
            },
            None => None,
        }
    }

    /// The content of `path` that a read at `now` takes from the cache: the
    /// one cached less than the timeout before.
    pub open spec fn cached_content(&self, path: Seq<char>, now: u64) -> Option<Seq<char>> {
        match self.content(path) {
            Some((c, t)) => if is_fresh(t, now) {
                Some(c@)
            } else {
                None
            },
            None => None,
        }
    }

    /// Only the caches of `dirs` changed their listings, and the file contents
    /// did not change.
    pub open spec fn listings_kept_except(&self, other: &FileSystem, a: Seq<char>, b: Seq<char>) -> bool {
        &&& forall|d: Seq<char>| path_key(d) != path_key(a) && path_key(d) != path_key(b) ==> #[trigger] self.listing(d) == other.listing(d)
        &&& forall|d: Seq<char>| path_key(d) != path_key(a) && path_key(d) != path_key(b) ==> #[trigger] self.listed_at(d) == other.listed_at(d)
    }

    /// A file system for `project_directory` with empty caches.
    pub fn new(project_directory: &str) -> (fs: Self)
        ensures
            fs.wf(),
            fs.project_directory@ == project_directory@,
            forall|k: Seq<char>| fs.listing(k).is_none() && fs.listed_at(k).is_none() && fs.content(k).is_none(),
    {
        FileSystem {
            project_directory: String::from_str(project_directory),
            cache: FileSystemCache {
                directory_contents: KeyedList::new(),
                last_updated: KeyedList::new(),
                file_contents: KeyedList::new(),
            },
        }
    }

    /// The project directory.
    pub fn get_project_directory(&self) -> (r: &String)
        ensures
            r@ == self.project_directory@,
    {
        &self.project_directory
    }

    /// The cached content of `path`, if it was cached less than the timeout before `now`.
    pub fn get_cached_file_content(&self, path: &str, now: u64) -> (r: Option<String>)
        requires
            self.wf(),
        ensures
            match self.content(path@) {
                Some((c, t)) => if is_fresh(t, now) {
                    r == Some(c)
                } else {
                    r.is_none()
                },
                None => r.is_none(),
            },
            match self.cached_content(path@, now) {
                Some(c) => r matches Some(x) && x@ == c,
                None => r.is_none(),
            },
    {
        match self.cache.file_contents.get(key_of(path).as_str()) {
            Some(entry) => {
                if fresh(entry.1, now) {
                    Some(entry.0.clone())
                } else {
                    None
                }
            },
            None => None,
        }
    }

    /// Caches `content` for `path` as of `now`.
    pub fn cache_file_content(&mut self, path: &str, content: &str, now: u64)
        requires
            old(self).wf(),
        ensures
            final(self).wf(),
            final(self).project_directory == old(self).project_directory,
            match final(self).content(path@) {
                Some((c, t)) => c@ == content@ && t == now,
                None => false,
            },
            forall|k: Seq<char>| path_key(k) != path_key(path@) ==> #[trigger] final(self).content(k) == old(self).content(k),
            forall|k: Seq<char>| #[trigger] final(self).listing(k) == old(self).listing(k),
            forall|k: Seq<char>| #[trigger] final(self).listed_at(k) == old(self).listed_at(k),
    {
        self.cache.file_contents.insert(key_of(path), (String::from_str(content), now));
    }

    /// The cached listing of `dir`, if it was cached less than the timeout before `now`.
    pub fn get_cached_directory_entries(&self, dir: &str, now: u64) -> (r: Option<Vec<DirectoryEntry>>)
        requires
            self.wf(),
        ensures
            match self.listed_at(dir@) {
                Some(t) => if is_fresh(t, now) {
                    match self.listing(dir@) {
                        Some(v) => r.is_some() && r.unwrap()@ == v@,
                        None => r.is_none(),
                    }
                } else {
                    r.is_none()
                },
                None => r.is_none(),
            },
            match self.cached_listing(dir@, now) {
                Some(v) => r matches Some(x) && x@ == v,
                None => r.is_none(),
            },
    {
        let key = key_of(dir);
        match self.cache.last_updated.get(key.as_str()) {
            Some(t) => {
                if fresh(*t, now) {
                    match self.cache.directory_contents.get(key.as_str()) {
                        Some(v) => Some(copy_entries(v)),
                        None => None,
                    }
                } else {
                    None
                }
            },
            None => None,
        }
    }

    /// Caches the listing of `dir` as of `now`.
    pub fn cache_directory_entries(&mut self, dir: &str, entries: &Vec<DirectoryEntry>, now: u64)
        requires
            old(self).wf(),
        ensures
            final(self).wf(),
            final(self).project_directory == old(self).project_directory,
            final(self).listing(dir@).is_some() && final(self).listing(dir@).unwrap()@ == entries@,
            final(self).listed_at(dir@) == Some(now),
            final(self).listings_kept_except(old(self), dir@, dir@),
            forall|k: Seq<char>| #[trigger] final(self).content(k) == old(self).content(k),
    {
        self.cache.directory_contents.insert(key_of(dir), copy_entries(entries));
        self.cache.last_updated.insert(key_of(dir), now);
    }

    /// Forgets the listing of `dir`.
    pub fn invalidate_directory_cache(&mut self, dir: &str)
        requires
            old(self).wf(),
        ensures
            final(self).wf(),
            final(self).project_directory == old(self).project_directory,
            final(self).listing(dir@).is_none(),
            final(self).listed_at(dir@).is_none(),
            final(self).listings_kept_except(old(self), dir@, dir@),
            forall|k: Seq<char>| #[trigger] final(self).content(k) == old(self).content(k),
    {
        let key = key_of(dir);
        self.cache.directory_contents.remove(key.as_str());
        self.cache.last_updated.remove(key.as_str());
    }

    /// Moves the cached content of `old_path` to `new_path`, stamped `now`.
    pub fn update_file_content_cache(&mut self, old_path: &str, new_path: &str, now: u64)
        requires
            old(self).wf(),
        ensures
            final(self).wf(),
            final(self).project_directory == old(self).project_directory,
            match old(self).content(old_path@) {
                Some((c, t)) => {
                    &&& final(self).content(new_path@) == Some((c, now))
                    &&& path_key(new_path@) != path_key(old_path@) ==> final(self).content(old_path@).is_none()
                    &&& forall|k: Seq<char>| path_key(k) != path_key(old_path@) && path_key(k) != path_key(new_path@) ==> #[trigger] final(self).content(k) == old(self).content(k)
                },
                None => forall|k: Seq<char>| #[trigger] final(self).content(k) == old(self).content(k),
            },
            forall|k: Seq<char>| #[trigger] final(self).listing(k) == old(self).listing(k),
            forall|k: Seq<char>| #[trigger] final(self).listed_at(k) == old(self).listed_at(k),
    {
        if let Some((content, _)) = self.cache.file_contents.remove(key_of(old_path).as_str()) {
            self.cache.file_contents.insert(key_of(new_path), (content, now));
        }
    }

    /// Forgets the cached content of `path`.
    pub fn remove_file_content_cache(&mut self, path: &str)
        requires
            old(self).wf(),
        ensures
            final(self).wf(),
            final(self).project_directory == old(self).project_directory,
            final(self).content(path@).is_none(),
            forall|k: Seq<char>| path_key(k) != path_key(path@) ==> #[trigger] final(self).content(k) == old(self).content(k),
            forall|k: Seq<char>| #[trigger] final(self).listing(k) == old(self).listing(k),
            forall|k: Seq<char>| #[trigger] final(self).listed_at(k) == old(self).listed_at(k),
    {
        self.cache.file_contents.remove(key_of(path).as_str());
    }

    /// Takes the entries just read from `dir`, puts them in listing order,
    /// caches them as of `now` and returns them.
    pub fn list_directory(&mut self, dir: &str, read: Vec<DirectoryEntry>, now: u64) -> (r: Vec<DirectoryEntry>)
        requires
            old(self).wf(),
        ensures
            final(self).wf(),
            listing_sorted(r@),
            r@.to_multiset() == read@.to_multiset(),
            final(self).listing(dir@).is_some() && final(self).listing(dir@).unwrap()@ == r@,
            final(self).listed_at(dir@) == Some(now),
            final(self).listings_kept_except(old(self), dir@, dir@),
            forall|k: Seq<char>| #[trigger] final(self).content(k) == old(self).content(k),
            final(self).project_directory == old(self).project_directory,
    {
        let entries = sort_entries(read);
        self.cache_directory_entries(dir, &entries, now);
        entries
    }

    /// After creating `filename` in `directory`: the directory's listing is
    /// dropped. Returns the new file's path.
    pub fn file_created(&mut self, directory: &str, filename: &str) -> (path: String)
        requires
            old(self).wf(),
        ensures
            path@ == path_join(directory@, filename@),
            final(self).wf(),
            final(self).project_directory == old(self).project_directory,
            final(self).listing(directory@).is_none(),
            final(self).listed_at(directory@).is_none(),
            final(self).listings_kept_except(old(self), directory@, directory@),
            forall|k: Seq<char>| #[trigger] final(self).content(k) == old(self).content(k),
    {
        let path = join_path(directory, filename);
        self.invalidate_directory_cache(directory);
        path
    }

    /// After writing `content` to `path` at `now`: the content is cached and
    /// the listing of its folder is dropped.
    pub fn file_saved(&mut self, path: &str, content: &str, now: u64)
        requires
            old(self).wf(),
        ensures
            final(self).wf(),
            final(self).project_directory == old(self).project_directory,
            final(self).content(path@) matches Some((c, t)) && c@ == content@ && t == now,
            final(self).listing(parent_or_self(path@)).is_none(),
            final(self).listed_at(parent_or_self(path@)).is_none(),
            final(self).listings_kept_except(old(self), parent_or_self(path@), parent_or_self(path@)),
    {
        self.cache_file_content(path, content, now);
        let dir = parent_or_self_exec(path);
        self.invalidate_directory_cache(dir.as_str());
    }

    /// After renaming `old_path` to `new_path` at `now`: the listings of both
    /// folders are dropped and a cached content moves to the new path.
    pub fn file_renamed(&mut self, old_path: &str, new_path: &str, now: u64)
        requires
            old(self).wf(),
        ensures
            final(self).wf(),
            final(self).project_directory == old(self).project_directory,
            final(self).listing(parent_or_self(old_path@)).is_none(),
            final(self).listing(parent_or_self(new_path@)).is_none(),
            final(self).listed_at(parent_or_self(old_path@)).is_none(),
            final(self).listed_at(parent_or_self(new_path@)).is_none(),
            final(self).listings_kept_except(old(self), parent_or_self(old_path@), parent_or_self(new_path@)),
            match old(self).content(old_path@) {
                Some((c, t)) => {
                    &&& final(self).content(new_path@) == Some((c, now))
                    &&& path_key(new_path@) != path_key(old_path@) ==> final(self).content(old_path@).is_none()
                },
                None => forall|k: Seq<char>| #[trigger] final(self).content(k) == old(self).content(k),
            },
    {
        let a = parent_or_self_exec(old_path);
        let b = parent_or_self_exec(new_path);
        self.invalidate_directory_cache(a.as_str());
        self.invalidate_directory_cache(b.as_str());
        self.update_file_content_cache(old_path, new_path, now);
    }

    /// After deleting `path`: its folder's listing and its cached content are dropped.
    pub fn file_deleted(&mut self, path: &str)
        requires
            old(self).wf(),
        ensures
            final(self).wf(),
            final(self).project_directory == old(self).project_directory,
            final(self).listing(parent_or_self(path@)).is_none(),
            final(self).listed_at(parent_or_self(path@)).is_none(),
            final(self).listings_kept_except(old(self), parent_or_self(path@), parent_or_self(path@)),
            final(self).content(path@).is_none(),
            forall|k: Seq<char>| path_key(k) != path_key(path@) ==> #[trigger] final(self).content(k) == old(self).content(k),
    {
        let dir = parent_or_self_exec(path);
        self.invalidate_directory_cache(dir.as_str());
        self.remove_file_content_cache(path);
    }

    /// After creating the directory `path`: its parent's listing is dropped.
    pub fn directory_created(&mut self, path: &str)
        requires
            old(self).wf(),
        ensures
            final(self).wf(),
            final(self).project_directory == old(self).project_directory,
            final(self).listing(parent_or_self(path@)).is_none(),
            final(self).listed_at(parent_or_self(path@)).is_none(),
            final(self).listings_kept_except(old(self), parent_or_self(path@), parent_or_self(path@)),
            forall|k: Seq<char>| #[trigger] final(self).content(k) == old(self).content(k),
    {
        let dir = parent_or_self_exec(path);
        self.invalidate_directory_cache(dir.as_str());
    }

    /// A listing cached at `t` is what reads of `d` give while it is fresh,
    /// across any calls that leave `d` alone: `states` are the file system
    /// before and after each call, and `touched[i]` the folders whose listings
    /// call `i` may change (as each changing call states), none of them `d`
    /// as paths compare.
    pub proof fn lemma_listing_cache_across_calls(
        states: Seq<FileSystem>,
        touched: Seq<(Seq<char>, Seq<char>)>,
        d: Seq<char>,
        t: u64,
        now: u64,
    )
        requires
            states.len() == touched.len() + 1,
            states[0].listing(d) is Some,
            states[0].listed_at(d) == Some(t),
            is_fresh(t, now),
            forall|i: int|
                0 <= i < touched.len() ==> #[trigger] states[i + 1].listings_kept_except(
                    &states[i],
                    touched[i].0,
                    touched[i].1,
                ) && path_key(touched[i].0) != path_key(d) && path_key(touched[i].1) != path_key(d),
        ensures
            states.last().cached_listing(d, now) == Some(states[0].listing(d).unwrap()@),
        decreases touched.len(),
    {
        if touched.len() > 0 {
            let n = touched.len() - 1;
            Self::lemma_listing_cache_across_calls(states.drop_last(), touched.drop_last(), d, t, now);
            assert(states.drop_last().last() == states[n]);
            assert(states[n + 1].listings_kept_except(&states[n], touched[n].0, touched[n].1));
            assert(states[n + 1].listing(d) == states[n].listing(d));
            assert(states[n + 1].listed_at(d) == states[n].listed_at(d));
        }
    }

    /// Once a call dropped the listing of `d`, no read takes it from the
    /// cache: the next listing reads the folder afresh.
    pub proof fn lemma_dropped_listing_is_read_afresh(fs: FileSystem, d: Seq<char>, now: u64)
        requires
            fs.listed_at(d).is_none(),
        ensures
            fs.cached_listing(d, now).is_none(),
    {
    }

    /// A text saved at `t` (or read and cached at `t`) is what reads of its
    /// path give while it is fresh, across any calls that leave that path's
    /// cached content alone: `states` are the file system before and after
    /// each call.
    pub proof fn lemma_saved_content_across_calls(states: Seq<FileSystem>, p: Seq<char>, c: Seq<char>, t: u64, now: u64)
        requires
            states.len() > 0,
            states[0].content(p) matches Some(e) && e.0@ == c && e.1 == t,
            is_fresh(t, now),
            forall|i: int| 0 <= i < states.len() - 1 ==> #[trigger] states[i + 1].content(p) == states[i].content(p),
        ensures
            states.last().cached_content(p, now) == Some(c),
        decreases states.len(),
    {
        if states.len() > 1 {
            let n = states.len() - 2;
            Self::lemma_saved_content_across_calls(states.drop_last(), p, c, t, now);
            assert(states.drop_last().last() == states[n]);
            assert(states[n + 1].content(p) == states[n].content(p));
        }
    }

    /// The error text for a file of `len` bytes that is too large to open.
    pub fn too_large_message(len: u64) -> (m: String)
        ensures
            m@ == "File too large to open ("@ + decimal(len as nat) + " bytes)"@,
    {
        let mut m = String::from_str("File too large to open (");
        m.append(decimal_string(len).as_str());
        m.append(" bytes)");
        m
    }

    /// Whether a file of `len` bytes is too large to open.
    pub fn is_too_large(len: u64) -> (b: bool)
        ensures
            b == (len > MAX_FILE_SIZE_BYTES),
    {
        len > MAX_FILE_SIZE_BYTES
    }
}

} // verus!
