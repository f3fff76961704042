//! The archive registry with its per-archive decompression caches, behind
//! the three operations `load_slpk`, `read_file` and `remove`.
//!
//! Loading a name that is already loaded replaces the earlier archive and
//! drops its cache. Removing a name that is not loaded changes nothing.
//! Nothing is ever evicted: a cache lives exactly as long as its archive.
//! Failed resolutions are not cached; they are resolved anew on every read.

use vstd::prelude::*;
use crate::package::{Package, package_entries, zip_listing, open_package};
use crate::text::{last_segment, after_last};
use crate::content::{CacheError, resolve, bytes_result, resolve_entry};

verus! {

/// What the cache knows of one loaded archive: the package's entries, and
/// the paths whose content is memoised.
pub type ArchiveModel = (Map<Seq<char>, Option<Seq<u8>>>, Set<Seq<char>>);

/// What the cache knows: each loaded archive name with its model.
pub type CacheModel = Map<Seq<char>, ArchiveModel>;

/// The outcome of reading `path` from the archive `name`.
pub open spec fn read_outcome(m: CacheModel, name: Seq<char>, path: Seq<char>) -> Result<Seq<u8>, CacheError> {
    if !m.contains_key(name) {
        Err(CacheError::NotFound)
    } else {
        resolve(m[name].0, path)
    }
}

/// The model after reading `path` from the archive `name`: a content that
/// resolved is memoised, nothing else changes.
pub open spec fn after_read(m: CacheModel, name: Seq<char>, path: Seq<char>) -> CacheModel {
    if m.contains_key(name) && read_outcome(m, name, path) is Ok {
        m.insert(name, (m[name].0, m[name].1.insert(path)))
    } else {
        m
    }
}

/// Whether reading `path` from `name` runs the content resolver: exactly
/// when the archive is loaded and the path is not memoised.
pub open spec fn read_resolves(m: CacheModel, name: Seq<char>, path: Seq<char>) -> bool {
    m.contains_key(name) && !m[name].1.contains(path)
}

/// A counter that stops at its largest value.
pub open spec fn bump(n: u64) -> u64 {
    if n < u64::MAX { (n + 1) as u64 } else { n }
}

/// The resolver count after a read.
pub open spec fn runs_after_read(m: CacheModel, runs: u64, name: Seq<char>, path: Seq<char>) -> u64 {
    if read_resolves(m, name, path) { bump(runs) } else { runs }
}

/// The file name of a slash-separated storage path: its last component.
pub open spec fn base_name(p: Seq<char>) -> Seq<char> {
    last_segment(p, '/')
}

/// Whether `n` names a file: not empty, and neither `.` nor `..`.
pub open spec fn is_file_name(n: Seq<char>) -> bool {
    n.len() > 0 && n != seq!['.'] && n != seq!['.', '.']
}

/// The name an archive is registered under: the file name of its storage
/// path, extension included.
pub fn archive_name(path: &str) -> (r: String)
    ensures
        r@ == base_name(path@),
{
    after_last(path, '/')
}

/// Whether `n` names a file.
pub fn names_file(n: &str) -> (r: bool)
    ensures
        r == is_file_name(n@),
{
    let len = n.unicode_len();
    if len == 0 {
        return false;
    }
    if len > 2 {
        assert(n@.len() != seq!['.'].len() && n@.len() != seq!['.', '.'].len());
        return true;
    }
    if n.get_char(0) != '.' {
        assert(n@[0] != seq!['.'][0] && n@[0] != seq!['.', '.'][0]);
        return true;
    }
    if len == 1 {
        assert(n@ =~= seq!['.']);
        return false;
    }
    if n.get_char(1) == '.' {
        assert(n@ =~= seq!['.', '.']);
        false
    } else {
        assert(n@[1] != seq!['.', '.'][1]);
        true
    }
}

/// A memoised content.
struct CachedFile {
    path: String,
    bytes: Vec<u8>,
}

/// One loaded archive with its cache.
struct Slot {
    name: String,
    archive: Package,
    files: Vec<CachedFile>,
}

impl Slot {
    closed spec fn cached_paths(&self) -> Set<Seq<char>> {
        Set::new(|p: Seq<char>| exists|k: int| 0 <= k < self.files.len() && #[trigger] self.files[k].path@ == p)
    }

    closed spec fn model(&self) -> ArchiveModel {
        (package_entries(self.archive), self.cached_paths())
    }

    /// Every memoised content is what the resolver gives for its path.
    closed spec fn wf(&self) -> bool {
        forall|k: int| 0 <= k < self.files.len()
            ==> resolve(package_entries(self.archive), #[trigger] self.files[k].path@) == Ok::<Seq<u8>, CacheError>(self.files[k].bytes@)
    }

    fn lookup(&self, path: &String) -> (r: Option<usize>)
        ensures
            match r {
                Some(k) => k < self.files.len() && self.files[k as int].path@ == path@,
                None => !self.cached_paths().contains(path@),
            },
    {
        let mut k: usize = 0;
        while k < self.files.len()
            invariant
                k <= self.files.len(),
                forall|j: int| 0 <= j < k ==> self.files[j].path@ != path@,
            decreases self.files.len() - k,
        {
            if self.files[k].path == *path {
                return Some(k);
            }
            k = k + 1;
        }
        None
    }
}

/// The archive cache.
pub struct Cache {
    slots: Vec<Slot>,
    resolves: u64,
    model: Ghost<CacheModel>,
}

impl View for Cache {
    type V = CacheModel;

    closed spec fn view(&self) -> CacheModel {
        self.model@
    }
}

impl Cache {
    /// The cache is well formed: names are unique and the model describes
    /// the loaded archives and their memoised contents.
    pub closed spec fn wf(&self) -> bool {
        &&& forall|i: int, j: int| 0 <= i < j < self.slots.len() ==> self.slots[i].name@ != self.slots[j].name@
        &&& forall|n: Seq<char>| self.model@.contains_key(n)
            ==> exists|i: int| 0 <= i < self.slots.len() && #[trigger] self.slots[i].name@ == n
        &&& forall|i: int| 0 <= i < self.slots.len() ==> {
            &&& self.model@.contains_key(#[trigger] self.slots[i].name@)
            &&& self.model@[self.slots[i].name@] == self.slots[i].model()
            &&& self.slots[i].wf()
        }
    }

    /// How many times the content resolver has run (stopping at `u64::MAX`).
    pub closed spec fn runs(&self) -> u64 {
        self.resolves
    }

    /// An empty cache: no archive is loaded.
    pub fn new() -> (r: Cache)
        ensures
            r.wf(),
            r@ == Map::<Seq<char>, ArchiveModel>::empty(),
            r.runs() == 0,
    {
        Cache { slots: Vec::new(), resolves: 0, model: Ghost(Map::empty()) }
    }

    /// How many times the content resolver has run.
    pub fn resolver_runs(&self) -> (r: u64)
        ensures
            r == self.runs(),
    {
        self.resolves
    }

    fn find(&self, name: &String) -> (r: Option<usize>)
        requires
            self.wf(),
        ensures
            match r {
                Some(i) => i < self.slots.len() && self.slots[i as int].name@ == name@,
                None => !self@.contains_key(name@),
            },
    {
        let mut i: usize = 0;
        while i < self.slots.len()
            invariant
                i <= self.slots.len(),
                forall|j: int| 0 <= j < i ==> self.slots[j].name@ != name@,
            decreases self.slots.len() - i,
        {
            if self.slots[i].name == *name {
                return Some(i);
            }
            i = i + 1;
        }
        None
    }

    /// Registers `archive` under `name` with an empty cache, replacing any
    /// archive of that name.
    fn add(&mut self, name: String, archive: Package)
        requires
            old(self).wf(),
        ensures
            final(self).wf(),
            final(self).runs() == old(self).runs(),
            final(self)@ == old(self)@.insert(name@, (package_entries(archive), Set::<Seq<char>>::empty())),
    {
        let found = self.find(&name);
        let slot = Slot { name, archive, files: Vec::new() };
        proof {
            assert(slot.cached_paths() =~= Set::<Seq<char>>::empty());
        }
        let ghost m0 = self.model@;
        let ghost s0 = self.slots@;
        if let Some(i) = found {
            self.slots.remove(i);
        }
        let ghost s1 = self.slots@;
        self.slots.push(slot);
        self.model = Ghost(m0.insert(slot.name@, slot.model()));
        proof {
            let len = self.slots.len() as int;
            assert(self.slots@ == s1.push(slot));
            // where each surviving slot of `s0` now stands
            let pos = |i0: int| -> int {
                match found {
                    Some(i) => if i0 < i { i0 } else { i0 - 1 },
                    None => i0,
                }
            };
            assert forall|i0: int| 0 <= i0 < s0.len() && s0[i0].name@ != slot.name@
                implies 0 <= #[trigger] pos(i0) < len - 1 && self.slots[pos(i0)] == s0[i0] by {
                if let Some(i) = found {
                    assert(i0 != i);
                }
            }
            assert forall|j: int| 0 <= j < len - 1 implies #[trigger] self.slots[j].name@ != slot.name@
                && exists|i0: int| 0 <= i0 < s0.len() && self.slots[j] == #[trigger] s0[i0] by {
                match found {
                    Some(i) => {
                        let i0 = if j < i { j } else { j + 1 };
                        assert(self.slots[j] == s0[i0]);
                        assert(s0[i0].name@ != s0[i as int].name@);
                    },
                    None => {
                        assert(self.slots[j] == s0[j]);
                    },
                }
            }
            assert forall|n: Seq<char>| self.model@.contains_key(n)
                implies exists|i: int| 0 <= i < self.slots.len() && #[trigger] self.slots[i].name@ == n by {
                if n == slot.name@ {
                    assert(self.slots[len - 1].name@ == n);
                } else {
                    let i0 = choose|i: int| 0 <= i < s0.len() && #[trigger] s0[i].name@ == n;
                    assert(self.slots[pos(i0)].name@ == n);
                }
            }
            assert forall|i: int, j: int| 0 <= i < j < len
                implies self.slots[i].name@ != self.slots[j].name@ by {
                if j < len - 1 {
                    let i0 = choose|i0: int| 0 <= i0 < s0.len() && self.slots[i] == #[trigger] s0[i0];
                    let j0 = choose|j0: int| 0 <= j0 < s0.len() && self.slots[j] == #[trigger] s0[j0];
                    assert(pos(i0) == i && pos(j0) == j);
                }
            }
            assert forall|i: int| 0 <= i < len implies {
                &&& self.model@.contains_key(#[trigger] self.slots[i].name@)
                &&& self.model@[self.slots[i].name@] == self.slots[i].model()
                &&& self.slots[i].wf()
            } by {
                if i < len - 1 {
                    let i0 = choose|i0: int| 0 <= i0 < s0.len() && self.slots[i] == #[trigger] s0[i0];
                    assert(s0[i0].name@ == old(self).slots[i0].name@);
                }
            }
            assert(self.model@.dom() =~= m0.dom().insert(slot.name@));
        }
    }

    /// Opens the package held in `data` and registers it, with an empty
    /// cache, under the file name of `path`, which is returned. A name that
    /// is already loaded is replaced, and its cache dropped. Fails with
    /// `ArchiveOpen`, changing nothing, exactly where the file name of
    /// `path` is empty, `.` or `..`, or `data` is not a zip container.
    pub fn load_slpk(&mut self, path: &str, data: Vec<u8>) -> (r: Result<String, CacheError>)
        requires
            old(self).wf(),
        ensures
            final(self).wf(),
            final(self).runs() == old(self).runs(),
            match r {
                Ok(n) => {
                    &&& n@ == base_name(path@)
                    &&& is_file_name(n@)
                    &&& zip_listing(data@) is Some
                    &&& final(self)@ == old(self)@.insert(n@, (zip_listing(data@)->Some_0, Set::<Seq<char>>::empty()))
                },
                Err(e) => {
                    &&& e == CacheError::ArchiveOpen
                    &&& final(self)@ == old(self)@
                    &&& (!is_file_name(base_name(path@)) || zip_listing(data@) is None)
                },
            },
    {
        let name = archive_name(path);
        if !names_file(name.as_str()) {
            return Err(CacheError::ArchiveOpen);
        }
        let archive = match open_package(data) {
            Ok(a) => a,
            Err(_) => return Err(CacheError::ArchiveOpen),
        };
        self.add(name.clone(), archive);
        Ok(name)
    }

    /// Reads `file_name` from the archive `archive_name`: the memoised
    /// content where there is one, else the resolver's result, which is
    /// memoised when it succeeds. Fails with `NotFound` for a name that is
    /// not loaded, `EntryNotFound` for a path the archive does not list, and
    /// `Decode` for a member that cannot be read or inflated.
    pub fn read_file(&mut self, archive_name: &str, file_name: &str) -> (r: Result<Vec<u8>, CacheError>)
        requires
            old(self).wf(),
        ensures
            final(self).wf(),
            bytes_result(r) == read_outcome(old(self)@, archive_name@, file_name@),
            final(self)@ == after_read(old(self)@, archive_name@, file_name@),
            final(self).runs() == runs_after_read(old(self)@, old(self).runs(), archive_name@, file_name@),
    {
        let key = archive_name.to_owned();
        let i = match self.find(&key) {
            Some(i) => i,
            None => return Err(CacheError::NotFound),
        };
        let path = file_name.to_owned();
        let ghost m0 = self.model@;
        let ghost entries = m0[key@].0;
        assert(self.slots[i as int].model() == m0[key@]);
        if let Some(k) = self.slots[i].lookup(&path) {
            let bytes = self.slots[i].files[k].bytes.clone();
            proof {
                assert(bytes@ =~= self.slots[i as int].files[k as int].bytes@);
                assert(self.slots[i as int].cached_paths().contains(path@));
                assert(m0[key@].1.insert(path@) =~= m0[key@].1);
                assert(m0.insert(key@, (entries, m0[key@].1.insert(path@))) =~= m0);
            }
            return Ok(bytes);
        }
        self.resolves = if self.resolves < u64::MAX { self.resolves + 1 } else { self.resolves };
        let ghost s0 = self.slots@;
        let mut slot = self.slots.remove(i);
        let r = resolve_entry(&mut slot.archive, file_name);
        match r {
            Ok(bytes) => {
                let ghost old_slot = slot;
                let copy = bytes.clone();
                assert(copy@ =~= bytes@);
                slot.files.push(CachedFile { path, bytes: copy });
                proof {
                    assert(slot.cached_paths() =~= old_slot.cached_paths().insert(file_name@)) by {
                        let n = slot.files.len() - 1;
                        assert(slot.files[n].path@ == file_name@);
                        assert forall|p: Seq<char>| old_slot.cached_paths().contains(p)
                            implies slot.cached_paths().contains(p) by {
                            let k = choose|k: int| 0 <= k < old_slot.files.len() && #[trigger] old_slot.files[k].path@ == p;
                            assert(slot.files[k] == old_slot.files[k]);
                        }
                        assert forall|p: Seq<char>| slot.cached_paths().contains(p)
                            implies old_slot.cached_paths().insert(file_name@).contains(p) by {
                            let k = choose|k: int| 0 <= k < slot.files.len() && #[trigger] slot.files[k].path@ == p;
                            if k < n {
                                assert(slot.files[k] == old_slot.files[k]);
                            }
                        }
                    }
                    assert forall|k: int| 0 <= k < slot.files.len() implies
                        resolve(package_entries(slot.archive), #[trigger] slot.files[k].path@)
                            == Ok::<Seq<u8>, CacheError>(slot.files[k].bytes@) by {
                        if k < slot.files.len() - 1 {
                            assert(slot.files[k] == old_slot.files[k]);
                        }
                    }
                }
                self.slots.insert(i, slot);
                self.model = Ghost(m0.insert(key@, slot.model()));
                proof {
                    assert(self.slots@ =~= s0.update(i as int, slot));
                    self.lemma_replace_slot(s0, m0, i as int);
                }
                Ok(bytes)
            },
            Err(e) => {
                self.slots.insert(i, slot);
                proof {
                    assert(self.slots@ =~= s0.update(i as int, slot));
                    assert(slot.cached_paths() =~= s0[i as int].cached_paths());
                    assert(m0.insert(key@, slot.model()) =~= m0);
                    self.lemma_replace_slot(s0, m0, i as int);
                }
                Err(e)
            },
        }
    }

    proof fn lemma_replace_slot(&self, s0: Seq<Slot>, m0: CacheModel, i: int)
        requires
            0 <= i < s0.len(),
            self.slots@ == s0.update(i, self.slots@[i]),
            self.slots@[i].name@ == s0[i].name@,
            self.slots@[i].wf(),
            self.model@ == m0.insert(s0[i].name@, self.slots@[i].model()),
            forall|a: int, b: int| 0 <= a < b < s0.len() ==> s0[a].name@ != s0[b].name@,
            forall|n: Seq<char>| m0.contains_key(n) ==> exists|a: int| 0 <= a < s0.len() && #[trigger] s0[a].name@ == n,
            forall|a: int| 0 <= a < s0.len() ==> {
                &&& m0.contains_key(#[trigger] s0[a].name@)
                &&& m0[s0[a].name@] == s0[a].model()
                &&& s0[a].wf()
            },
        ensures
            self.wf(),
    {
        assert forall|n: Seq<char>| self.model@.contains_key(n)
            implies exists|a: int| 0 <= a < self.slots.len() && #[trigger] self.slots[a].name@ == n by {
            if n == s0[i].name@ {
                assert(self.slots[i].name@ == n);
            } else {
                let a = choose|a: int| 0 <= a < s0.len() && #[trigger] s0[a].name@ == n;
                assert(self.slots[a].name@ == n);
            }
        }
        assert forall|a: int| 0 <= a < self.slots.len() implies {
            &&& self.model@.contains_key(#[trigger] self.slots[a].name@)
            &&& self.model@[self.slots[a].name@] == self.slots[a].model()
            &&& self.slots[a].wf()
        } by {
            if a != i {
                assert(self.slots[a] == s0[a]);
                assert(s0[a].name@ != s0[i].name@);
            }
        }
    }

    /// Unregisters the archive `name` together with its cache; a name that
    /// is not loaded leaves the cache as it is.
    pub fn remove(&mut self, name: &String)
        requires
            old(self).wf(),
        ensures
            final(self).wf(),
            final(self)@ == old(self)@.remove(name@),
            final(self).runs() == old(self).runs(),
    {
        let ghost m0 = self.model@;
        let ghost s0 = self.slots@;
        match self.find(name) {
            Some(i) => {
                self.slots.remove(i);
                self.model = Ghost(m0.remove(name@));
                proof {
                    let len = self.slots.len() as int;
                    assert forall|j: int| 0 <= j < len implies
                        #[trigger] self.slots[j] == s0[if j < i { j } else { j + 1 }] by {}
                    assert forall|n: Seq<char>| self.model@.contains_key(n)
                        implies exists|a: int| 0 <= a < self.slots.len() && #[trigger] self.slots[a].name@ == n by {
                        let a0 = choose|a: int| 0 <= a < s0.len() && #[trigger] s0[a].name@ == n;
                        let a = if a0 < i { a0 } else { a0 - 1 };
                        assert(a0 != i);
                        assert(self.slots[a] == s0[if a < i { a } else { a + 1 }]);
                    }
                    assert forall|a: int, b: int| 0 <= a < b < len
                        implies self.slots[a].name@ != self.slots[b].name@ by {
                        assert(self.slots[a] == s0[if a < i { a } else { a + 1 }]);
                        assert(self.slots[b] == s0[if b < i { b } else { b + 1 }]);
                    }
                    assert forall|a: int| 0 <= a < len implies {
                        &&& self.model@.contains_key(#[trigger] self.slots[a].name@)
                        &&& self.model@[self.slots[a].name@] == self.slots[a].model()
                        &&& self.slots[a].wf()
                    } by {
                        let a0 = if a < i { a } else { a + 1 };
                        assert(self.slots[a] == s0[a0]);
                        assert(s0[a0].name@ != s0[i as int].name@);
                    }
                }
            },
            None => {
                assert(m0.remove(name@) =~= m0);
            },
        }
    }

    /// The package loaded under `name`; `NotFound` where none is.
    pub fn get(&self, name: &str) -> (r: Result<&Package, CacheError>)
        requires
            self.wf(),
        ensures
            match r {
                Ok(p) => self@.contains_key(name@) && package_entries(*p) == self@[name@].0,
                Err(e) => e == CacheError::NotFound && !self@.contains_key(name@),
            },
    {
        let key = name.to_owned();
        match self.find(&key) {
            Some(i) => {
                assert(self.slots[i as int].model() == self@[key@]);
                Ok(&self.slots[i].archive)
            },
            None => Err(CacheError::NotFound),
        }
    }
}

} // verus!
