//! The caches of the renderer: file contents keyed by path and checked
//! against the file's signature, and the fonts already loaded.
use std::collections::HashSet;
use std::hash::{Hash, Hasher};
use vstd::prelude::*;

verus! {

broadcast use vstd::std_specs::hash::group_hash_axioms;

/// What identifies a version of a file: its length and modification time.
#[derive(Debug, Clone, Copy, PartialEq, Eq, Structural)]
pub struct FileSignature {
    pub len: u64,
    pub modified_nanos: Option<u128>,
}

/// A file's contents as read when it had `signature`.
#[derive(Debug)]
pub struct CachedFile {
    pub path: String,
    pub signature: FileSignature,
    pub bytes: Vec<u8>,
}

/// The first entry for `path`: its signature and contents.
pub open spec fn cached_entry(entries: Seq<CachedFile>, path: Seq<char>) -> Option<
    (FileSignature, Seq<u8>),
>
    decreases entries.len(),
{
    if entries.len() == 0 {
        None
    } else if entries[0].path@ == path {
        Some((entries[0].signature, entries[0].bytes@))
    } else {
        cached_entry(entries.drop_first(), path)
    }
}

pub open spec fn distinct_paths(entries: Seq<CachedFile>) -> bool {
    forall|i: int, j: int|
        0 <= i < j < entries.len() ==> #[trigger] entries[i].path@ != #[trigger] entries[j].path@
}

proof fn lemma_entry_at(entries: Seq<CachedFile>, k: int)
    requires
        distinct_paths(entries),
        0 <= k < entries.len(),
    ensures
        cached_entry(entries, entries[k].path@) == Some((entries[k].signature, entries[k].bytes@)),
    decreases entries.len(),
{
    if k > 0 {
        let rest = entries.drop_first();
        assert(entries[0].path@ != entries[k].path@);
        assert(rest[k - 1] == entries[k]);
        assert forall|i: int, j: int| 0 <= i < j < rest.len() implies #[trigger] rest[i].path@
            != #[trigger] rest[j].path@ by {
            assert(rest[i] == entries[i + 1]);
            assert(rest[j] == entries[j + 1]);
        }
        lemma_entry_at(rest, k - 1);
    }
}

proof fn lemma_entry_absent(entries: Seq<CachedFile>, path: Seq<char>)
    requires
        forall|k: int| 0 <= k < entries.len() ==> #[trigger] entries[k].path@ != path,
    ensures
        cached_entry(entries, path) is None,
    decreases entries.len(),
{
    if entries.len() > 0 {
        let rest = entries.drop_first();
        assert forall|k: int| 0 <= k < rest.len() implies #[trigger] rest[k].path@ != path by {
            assert(rest[k] == entries[k + 1]);
        }
        lemma_entry_absent(rest, path);
    }
}

/// Entries that agree except at `k`, where the path is the same, look up
/// alike for every other path.
proof fn lemma_entry_other(before: Seq<CachedFile>, after: Seq<CachedFile>, k: int, other: Seq<char>)
    requires
        0 <= k < before.len(),
        after.len() == before.len(),
        forall|i: int| 0 <= i < before.len() && i != k ==> after[i] == before[i],
        after[k].path@ == before[k].path@,
        other != before[k].path@,
    ensures
        cached_entry(after, other) == cached_entry(before, other),
    decreases before.len(),
{
    if k > 0 {
        assert(after[0] == before[0]);
        let a = after.drop_first();
        let b = before.drop_first();
        assert forall|i: int| 0 <= i < b.len() && i != k - 1 implies a[i] == b[i] by {
            assert(a[i] == after[i + 1]);
            assert(b[i] == before[i + 1]);
        }
        assert(a[k - 1] == after[k]);
        assert(b[k - 1] == before[k]);
        lemma_entry_other(b, a, k - 1, other);
    } else {
        assert(after.drop_first() =~= before.drop_first());
    }
}

/// An entry appended under another path leaves the lookup of `other` alone.
proof fn lemma_entry_pushed(before: Seq<CachedFile>, after: Seq<CachedFile>, other: Seq<char>)
    requires
        after.len() == before.len() + 1,
        forall|i: int| 0 <= i < before.len() ==> after[i] == before[i],
        after[before.len() as int].path@ != other,
    ensures
        cached_entry(after, other) == cached_entry(before, other),
    decreases before.len(),
{
    if before.len() == 0 {
        assert(after.drop_first().len() == 0);
    } else {
        assert(after[0] == before[0]);
        let a = after.drop_first();
        let b = before.drop_first();
        assert forall|i: int| 0 <= i < b.len() implies a[i] == b[i] by {
            assert(a[i] == after[i + 1]);
            assert(b[i] == before[i + 1]);
        }
        assert(a[b.len() as int] == after[before.len() as int]);
        lemma_entry_pushed(b, a, other);
    }
}

fn same_text(a: &String, b: &str) -> (r: bool)
    ensures
        r == (a@ == b@),
{
    crate::whitespace::str_eq(a.as_str(), b)
}

fn position_of(entries: &Vec<CachedFile>, path: &str) -> (r: Option<usize>)
    ensures
        r matches Some(k) ==> k < entries@.len() && entries@[k as int].path@ == path@,
        r is None ==> forall|k: int| 0 <= k < entries@.len() ==> #[trigger] entries@[k].path@ != path@,
{
    let mut i: usize = 0;
    while i < entries.len()
        invariant
            0 <= i <= entries@.len(),
            forall|k: int| 0 <= k < i ==> #[trigger] entries@[k].path@ != path@,
        decreases entries@.len() - i,
    {
        if same_text(&entries[i].path, path) {
            return Some(i);
        }
        i += 1;
    }
    None
}

fn copy_bytes(bytes: &Vec<u8>) -> (r: Vec<u8>)
    ensures
        r@ == bytes@,
{
    let mut r: Vec<u8> = Vec::new();
    let mut i: usize = 0;
    while i < bytes.len()
        invariant
            0 <= i <= bytes@.len(),
            r@ == bytes@.subrange(0, i as int),
        decreases bytes@.len() - i,
    {
        r.push(bytes[i]);
        i += 1;
        assert(r@ =~= bytes@.subrange(0, i as int));
    }
    assert(bytes@.subrange(0, bytes@.len() as int) =~= bytes@);
    r
}

/// File contents by path, each path once, with the signature the file had
/// when it was read.
#[derive(Debug)]
pub struct FileCache {
    entries: Vec<CachedFile>,
}

impl FileCache {
    #[verifier::type_invariant]
    closed spec fn each_path_once(self) -> bool {
        distinct_paths(self.entries@)
    }

    /// The signature and contents kept for `path`.
    pub closed spec fn entry(self, path: Seq<char>) -> Option<(FileSignature, Seq<u8>)> {
        cached_entry(self.entries@, path)
    }

    /// An empty cache.
    pub fn new() -> (r: Self)
        ensures
            forall|path: Seq<char>| #[trigger] r.entry(path) is None,
    {
        FileCache { entries: Vec::new() }
    }

    /// Forgets every file.
    pub fn clear(&mut self)
        ensures
            forall|path: Seq<char>| #[trigger] final(self).entry(path) is None,
    {
        self.entries = Vec::new();
    }

    /// The contents kept for `path`, if they were read when the file had
    /// `signature`; a file that changed since is not served.
    pub fn cached(&self, path: &str, signature: FileSignature) -> (r: Option<Vec<u8>>)
        ensures
            match self.entry(path@) {
                Some((s, bytes)) => if s == signature {
                    r matches Some(b) && b@ == bytes
                } else {
                    r is None
                },
                None => r is None,
            },
    {
        proof {
            use_type_invariant(self);
        }
        let mut i: usize = 0;
        while i < self.entries.len()
            invariant
                0 <= i <= self.entries@.len(),
                distinct_paths(self.entries@),
                forall|k: int| 0 <= k < i ==> #[trigger] self.entries@[k].path@ != path@,
            decreases self.entries@.len() - i,
        {
            if same_text(&self.entries[i].path, path) {
                proof {
                    lemma_entry_at(self.entries@, i as int);
                }
                if self.entries[i].signature == signature {
                    return Some(copy_bytes(&self.entries[i].bytes));
                } else {
                    return None;
                }
            }
            i += 1;
        }
        proof {
            lemma_entry_absent(self.entries@, path@);
        }
        None
    }

    /// Keeps `bytes` as the contents of `path` read with `signature`,
    /// replacing what was kept for it.
    pub fn store(&mut self, path: String, signature: FileSignature, bytes: Vec<u8>)
        ensures
            final(self).entry(path@) == Some((signature, bytes@)),
            forall|other: Seq<char>|
                other != path@ ==> #[trigger] final(self).entry(other) == old(self).entry(other),
    {
        proof {
            use_type_invariant(&*self);
        }
        let ghost p = path@;
        let ghost b = bytes@;
        let mut entries: Vec<CachedFile> = Vec::new();
        std::mem::swap(&mut entries, &mut self.entries);
        let ghost before = entries@;
        let found = position_of(&entries, path.as_str());
        match found {
            Some(k) => {
                entries.set(k, CachedFile { path, signature, bytes });
                proof {
                    assert(distinct_paths(entries@)) by {
                        assert forall|a: int, c: int| 0 <= a < c < entries@.len() implies #[trigger] entries@[a].path@
                            != #[trigger] entries@[c].path@ by {
                            if a != k as int {
                                assert(entries@[a] == before[a]);
                            }
                            if c != k as int {
                                assert(entries@[c] == before[c]);
                            }
                        }
                    }
                    lemma_entry_at(entries@, k as int);
                    assert forall|other: Seq<char>| other != p implies #[trigger] cached_entry(
                        entries@,
                        other,
                    ) == cached_entry(before, other) by {
                        lemma_entry_other(before, entries@, k as int, other);
                    }
                }
            },
            None => {
                entries.push(CachedFile { path, signature, bytes });
                proof {
                    assert(distinct_paths(entries@)) by {
                        assert forall|a: int, c: int| 0 <= a < c < entries@.len() implies #[trigger] entries@[a].path@
                            != #[trigger] entries@[c].path@ by {
                            assert(entries@[a] == before[a]);
                            if c < before.len() {
                                assert(entries@[c] == before[c]);
                            }
                        }
                    }
                    lemma_entry_at(entries@, before.len() as int);
                    assert forall|other: Seq<char>| other != p implies #[trigger] cached_entry(
                        entries@,
                        other,
                    ) == cached_entry(before, other) by {
                        lemma_entry_pushed(before, entries@, other);
                    }
                }
            },
        }
        self.entries = entries;
    }
}

/// The fonts already loaded: the paths they were read from and the hashes
/// of their bytes.
#[derive(Debug)]
pub struct FontCache {
    loaded_paths: Vec<String>,
    loaded_hashes: HashSet<u64>,
}

/// What to do with a font file that is not known by its path.
#[derive(Debug, Clone, Copy, PartialEq, Eq, Structural)]
pub enum FontFileAction {
    /// The path is known already: nothing to do.
    AlreadyLoaded,
    /// The same bytes were loaded from elsewhere: only remember the path.
    RememberPath,
    /// New bytes: load the font, then remember its hash and path.
    Load,
}

impl FontCache {
    /// The paths of the loaded font files.
    pub closed spec fn paths(self) -> Set<Seq<char>> {
        Set::new(|p: Seq<char>| exists|i: int| 0 <= i < self.loaded_paths@.len() && #[trigger] self.loaded_paths@[i]@ == p)
    }

    /// The hashes of the loaded fonts' bytes.
    pub closed spec fn hashes(self) -> Set<u64> {
        self.loaded_hashes@
    }

    /// An empty cache.
    pub fn new() -> (r: Self)
        ensures
            r.paths() == Set::<Seq<char>>::empty(),
            r.hashes() == Set::<u64>::empty(),
    {
        let r = FontCache { loaded_paths: Vec::new(), loaded_hashes: HashSet::new() };
        assert(r.paths() =~= Set::<Seq<char>>::empty());
        r
    }

    /// Forgets every font.
    pub fn clear(&mut self)
        ensures
            final(self).paths() == Set::<Seq<char>>::empty(),
            final(self).hashes() == Set::<u64>::empty(),
    {
        self.loaded_paths = Vec::new();
        self.loaded_hashes.clear();
        assert(self.paths() =~= Set::<Seq<char>>::empty());
    }

    pub fn contains_path(&self, path: &str) -> (r: bool)
        ensures
            r == self.paths().contains(path@),
    {
        let mut i: usize = 0;
        while i < self.loaded_paths.len()
            invariant
                0 <= i <= self.loaded_paths@.len(),
                forall|k: int| 0 <= k < i ==> #[trigger] self.loaded_paths@[k]@ != path@,
            decreases self.loaded_paths@.len() - i,
        {
            if same_text(&self.loaded_paths[i], path) {
                assert(self.paths().contains(path@));
                return true;
            }
            i += 1;
        }
        false
    }

    pub fn contains_hash(&self, hash: u64) -> (r: bool)
        ensures
            r == self.hashes().contains(hash),
    {
        self.loaded_hashes.contains(&hash)
    }

    pub fn remember_path(&mut self, path: String)
        ensures
            final(self).paths() == old(self).paths().insert(path@),
            final(self).hashes() == old(self).hashes(),
    {
        let ghost p = path@;
        if !self.contains_path(path.as_str()) {
            let ghost before = *self;
            self.loaded_paths.push(path);
            proof {
                assert forall|q: Seq<char>| self.paths().contains(q) <==> before.paths().insert(p).contains(q) by {
                    if self.paths().contains(q) {
                        let i = choose|i: int| 0 <= i < self.loaded_paths@.len() && #[trigger] self.loaded_paths@[i]@ == q;
                        if i < before.loaded_paths@.len() {
                            assert(self.loaded_paths@[i] == before.loaded_paths@[i]);
                        }
                    }
                    if before.paths().contains(q) {
                        let i = choose|i: int| 0 <= i < before.loaded_paths@.len() && #[trigger] before.loaded_paths@[i]@ == q;
                        assert(self.loaded_paths@[i] == before.loaded_paths@[i]);
                    }
                    if q == p {
                        assert(self.loaded_paths@[before.loaded_paths@.len() as int]@ == p);
                    }
                }
                assert(self.paths() =~= before.paths().insert(p));
            }
        } else {
            assert(old(self).paths().insert(p) =~= old(self).paths());
        }
    }

    pub fn remember_hash(&mut self, hash: u64)
        ensures
            final(self).hashes() == old(self).hashes().insert(hash),
            final(self).paths() == old(self).paths(),
    {
        self.loaded_hashes.insert(hash);
    }

    /// How many distinct fonts were loaded.
    pub fn entry_count(&self) -> (r: usize)
        ensures
            r == self.hashes().len(),
    {
        self.loaded_hashes.len()
    }

    /// What to do with a font file at `path` whose bytes hash to `hash`.
    pub fn font_file_action(&self, path: &str, hash: u64) -> (r: FontFileAction)
        ensures
            r == font_action(*self, path@, hash),
    {
        if self.contains_path(path) {
            FontFileAction::AlreadyLoaded
        } else if self.contains_hash(hash) {
            FontFileAction::RememberPath
        } else {
            FontFileAction::Load
        }
    }
}


/// `Hash::hash` of `bytes` into a `DefaultHasher::new()` from std, and the
/// hasher's `finish`. Nothing is claimed of the value: std leaves the
/// algorithm unspecified.
#[verifier::external_body]
fn hash_bytes(bytes: &[u8]) -> (hash: u64) {
    let mut hasher = std::collections::hash_map::DefaultHasher::new();
    bytes.hash(&mut hasher);
    hasher.finish()
}

impl FontCache {
    /// Hashes a font file's bytes and decides what to do with it: the
    /// action is the one [`font_action`] gives for the hash returned.
    pub fn plan_font_file(&self, path: &str, bytes: &[u8]) -> (r: (FontFileAction, u64))
        ensures
            r.0 == font_action(*self, path@, r.1),
    {
        let hash = hash_bytes(bytes);
        (self.font_file_action(path, hash), hash)
    }

    /// Hashes font bytes and decides whether to load them: only when no
    /// font with that hash was loaded.
    pub fn plan_font_bytes(&self, bytes: &[u8]) -> (r: (bool, u64))
        ensures
            r.0 == !self.hashes().contains(r.1),
    {
        let hash = hash_bytes(bytes);
        (!self.contains_hash(hash), hash)
    }
}

/// What to do with a font file at `path` whose bytes hash to `hash`.
pub open spec fn font_action(cache: FontCache, path: Seq<char>, hash: u64) -> FontFileAction {
    if cache.paths().contains(path) {
        FontFileAction::AlreadyLoaded
    } else if cache.hashes().contains(hash) {
        FontFileAction::RememberPath
    } else {
        FontFileAction::Load
    }
}

/// Once a font's bytes are loaded, no file with the same bytes is loaded
/// again, and remembering the hash again adds no entry.
pub proof fn law_font_bytes_load_once(cache: FontCache, path: Seq<char>, hash: u64)
    requires
        cache.hashes().contains(hash),
    ensures
        font_action(cache, path, hash) != FontFileAction::Load,
        cache.hashes().insert(hash) == cache.hashes(),
{
    assert(cache.hashes().insert(hash) =~= cache.hashes());
}

} // verus!
