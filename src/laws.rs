//! Laws of the cache, stated over the models that the operations' contracts
//! use, and proved.

use vstd::prelude::*;
use crate::package::gunzip_of;
use crate::content::{CacheError, is_gz};
use crate::cache::{CacheModel, read_outcome, after_read, runs_after_read};

verus! {

/// Reading an entry twice gives the same result both times, and where the
/// first read succeeds the second runs no resolver: the content of an entry
/// is resolved at most once over the two reads.
pub proof fn law_read_is_memoised(m: CacheModel, runs: u64, name: Seq<char>, path: Seq<char>)
    ensures
        read_outcome(after_read(m, name, path), name, path) == read_outcome(m, name, path),
        read_outcome(m, name, path) is Ok ==> {
            let m1 = after_read(m, name, path);
            &&& after_read(m1, name, path) == m1
            &&& runs_after_read(m1, runs, name, path) == runs
            &&& runs_after_read(m1, runs_after_read(m, runs, name, path), name, path) <= runs as int + 1
        },
{
    if read_outcome(m, name, path) is Ok {
        let m1 = after_read(m, name, path);
        assert(m1.contains_key(name) && m1[name].1.contains(path));
        assert(m1[name].1.insert(path) =~= m1[name].1);
        assert(m1.insert(name, (m1[name].0, m1[name].1.insert(path))) =~= m1);
    }
}

/// A stored member is returned inflated where its path ends with `.gz` (or
/// `Decode` where it is no gzip stream), and byte for byte otherwise.
pub proof fn law_read_content(m: CacheModel, name: Seq<char>, path: Seq<char>, raw: Seq<u8>)
    requires
        m.contains_key(name),
        m[name].0.contains_key(path),
        m[name].0[path] == Some(raw),
    ensures
        is_gz(path) ==> read_outcome(m, name, path) == match gunzip_of(raw) {
            Some(d) => Ok(d),
            None => Err(CacheError::Decode),
        },
        !is_gz(path) ==> read_outcome(m, name, path) == Ok::<Seq<u8>, CacheError>(raw),
{
}

/// An archive that is not loaded gives `NotFound`; a path that a loaded
/// archive does not list gives `EntryNotFound`.
pub proof fn law_read_failures(m: CacheModel, name: Seq<char>, path: Seq<char>)
    ensures
        !m.contains_key(name) ==> read_outcome(m, name, path) == Err::<Seq<u8>, CacheError>(CacheError::NotFound),
        m.contains_key(name) && !m[name].0.contains_key(path)
            ==> read_outcome(m, name, path) == Err::<Seq<u8>, CacheError>(CacheError::EntryNotFound),
{
}

/// After an archive is removed, every read from it gives `NotFound`,
/// whatever had been memoised under it.
pub proof fn law_removed_archive_is_gone(m: CacheModel, name: Seq<char>, path: Seq<char>)
    ensures
        read_outcome(m.remove(name), name, path) == Err::<Seq<u8>, CacheError>(CacheError::NotFound),
{
}

/// Reads do not disturb one another: a read of any entry, in the same or
/// another archive, leaves the outcome of every other read as it was.
pub proof fn law_reads_are_independent(m: CacheModel, name1: Seq<char>, path1: Seq<char>, name2: Seq<char>, path2: Seq<char>)
    ensures
        read_outcome(after_read(m, name1, path1), name2, path2) == read_outcome(m, name2, path2),
{
}

/// The model after the reads in `reads`, made one after another, each a pair
/// of archive name and entry path.
pub open spec fn after_reads(m: CacheModel, reads: Seq<(Seq<char>, Seq<char>)>) -> CacheModel
    decreases reads.len(),
{
    if reads.len() == 0 {
        m
    } else {
        after_read(after_reads(m, reads.drop_last()), reads.last().0, reads.last().1)
    }
}

/// Any run of reads leaves the outcome of every read as it was.
pub proof fn law_reads_keep_outcomes(m: CacheModel, reads: Seq<(Seq<char>, Seq<char>)>, name: Seq<char>, path: Seq<char>)
    ensures
        read_outcome(after_reads(m, reads), name, path) == read_outcome(m, name, path),
    decreases reads.len(),
{
    if reads.len() > 0 {
        law_reads_keep_outcomes(m, reads.drop_last(), name, path);
        law_reads_are_independent(after_reads(m, reads.drop_last()), reads.last().0, reads.last().1, name, path);
    }
}

/// Reads served one at a time, in any order and from any archives, each get
/// exactly what a sole read of their entry gets: no read sees another's
/// effect on its result.
pub proof fn law_serialised_reads(m: CacheModel, reads: Seq<(Seq<char>, Seq<char>)>)
    ensures
        forall|i: int| 0 <= i < reads.len()
            ==> read_outcome(after_reads(m, #[trigger] reads.take(i)), reads[i].0, reads[i].1)
                == read_outcome(m, reads[i].0, reads[i].1),
{
    assert forall|i: int| 0 <= i < reads.len()
        implies read_outcome(after_reads(m, #[trigger] reads.take(i)), reads[i].0, reads[i].1)
            == read_outcome(m, reads[i].0, reads[i].1) by {
        law_reads_keep_outcomes(m, reads.take(i), reads[i].0, reads[i].1);
    }
}

} // verus!
