//! Resolving glob matches into the file set of a run.
//!
//! Enumerating a glob yields a stream of entries: a path that is a regular
//! file, a path that is not (a directory, say), or a per-entry error. The
//! resolved file set keeps exactly the regular files, in enumeration order;
//! non-files are dropped silently and errors are reported by the caller and
//! skipped.

use vstd::prelude::*;

verus! {

/// One entry of a glob enumeration, as the filesystem reported it.
#[derive(Debug)]
pub enum GlobEntry {
    /// A matched path whose metadata says it is a regular file.
    File { path: String },
    /// A matched path that exists but is not a regular file.
    NonFile { path: String },
    /// A per-entry enumeration error, carrying its description.
    Error { message: String },
}

/// The path a file entry carries.
pub open spec fn entry_path(e: GlobEntry) -> Seq<char> {
    match e {
        GlobEntry::File { path } => path@,
        GlobEntry::NonFile { path } => path@,
        GlobEntry::Error { message } => message@,
    }
}

/// The resolved file set of an enumeration: the paths of its regular-file
/// entries, in enumeration order.
pub open spec fn resolved_files(entries: Seq<GlobEntry>) -> Seq<Seq<char>>
    decreases entries.len(),
{
    if entries.len() == 0 {
        Seq::empty()
    } else {
        let rest = resolved_files(entries.drop_last());
        if entries.last() is File {
            rest.push(entry_path(entries.last()))
        } else {
            rest
        }
    }
}

/// How many entries of an enumeration are regular files.
pub open spec fn count_files(entries: Seq<GlobEntry>) -> int
    decreases entries.len(),
{
    if entries.len() == 0 {
        0int
    } else {
        count_files(entries.drop_last()) + if entries.last() is File {
            1int
        } else {
            0int
        }
    }
}

/// Keep exactly the regular files of an enumeration, in order.
pub fn resolve_entries(entries: &Vec<GlobEntry>) -> (r: Vec<String>)
    ensures
        r.deep_view() == resolved_files(entries@),
{
    let mut r: Vec<String> = Vec::new();
    let n: usize = entries.len();
    proof {
        assert(entries@.subrange(0, 0) =~= Seq::<GlobEntry>::empty());
        assert(r.deep_view() =~= resolved_files(entries@.subrange(0, 0)));
    }
    for k in 0..n
        invariant
            n == entries@.len(),
            r.deep_view() == resolved_files(entries@.subrange(0, k as int)),
    {
        proof {
            assert(entries@.subrange(0, k + 1).drop_last() =~= entries@.subrange(0, k as int));
            assert(entries@.subrange(0, k + 1).last() == entries@[k as int]);
        }
        match &entries[k] {
            GlobEntry::File { path } => {
                r.push(path.clone());
                proof {
                    assert(r.deep_view() =~= resolved_files(entries@.subrange(0, k + 1)));
                }
            },
            GlobEntry::NonFile { path: _ } => {
                proof {
                    assert(r.deep_view() =~= resolved_files(entries@.subrange(0, k + 1)));
                }
            },
            GlobEntry::Error { message: _ } => {
                proof {
                    assert(r.deep_view() =~= resolved_files(entries@.subrange(0, k + 1)));
                }
            },
        }
    }
    proof {
        assert(entries@.subrange(0, n as int) =~= entries@);
    }
    r
}

/// The resolved file set is as large as the count of regular-file entries:
/// every regular file is kept and everything else is excluded.
pub proof fn lemma_resolved_files_count(entries: Seq<GlobEntry>)
    ensures
        resolved_files(entries).len() == count_files(entries),
        0 <= count_files(entries) <= entries.len(),
    decreases entries.len(),
{
    if entries.len() > 0 {
        lemma_resolved_files_count(entries.drop_last());
    }
}

/// When every entry of an enumeration is a regular file, the resolved file
/// set keeps them all, in order.
pub proof fn lemma_resolved_files_all_files(entries: Seq<GlobEntry>)
    requires
        forall|i: int| 0 <= i < entries.len() ==> (#[trigger] entries[i]) is File,
    ensures
        resolved_files(entries).len() == entries.len(),
        forall|i: int|
            0 <= i < entries.len() ==> (#[trigger] resolved_files(entries)[i]) == entry_path(
                entries[i],
            ),
    decreases entries.len(),
{
    if entries.len() > 0 {
        lemma_resolved_files_all_files(entries.drop_last());
    }
}

/// Every path of the resolved file set is the path of some regular-file
/// entry: a directory or an errored entry never contributes a path.
pub proof fn lemma_resolved_files_from_files(entries: Seq<GlobEntry>)
    ensures
        forall|j: int|
            #![trigger resolved_files(entries)[j]]
            0 <= j < resolved_files(entries).len() ==> exists|i: int|
                0 <= i < entries.len() && entries[i] is File && resolved_files(entries)[j] == (
                #[trigger] entry_path(entries[i])),
    decreases entries.len(),
{
    if entries.len() > 0 {
        lemma_resolved_files_from_files(entries.drop_last());
        let prior = entries.drop_last();
        let rest = resolved_files(prior);
        assert forall|j: int|
            #![trigger resolved_files(entries)[j]]
            0 <= j < resolved_files(entries).len() implies exists|i: int|
            0 <= i < entries.len() && entries[i] is File && resolved_files(entries)[j] == (
            #[trigger] entry_path(entries[i])) by {
            if j < rest.len() {
                let i = choose|i: int|
                    0 <= i < prior.len() && prior[i] is File && rest[j] == (#[trigger] entry_path(
                        prior[i],
                    ));
                assert(entries[i] == prior[i]);
                assert(entries[i] is File && resolved_files(entries)[j] == entry_path(entries[i]));
            } else {
                let i = entries.len() - 1;
                assert(entries[i] is File && resolved_files(entries)[j] == entry_path(entries[i]));
            }
        }
    }
}

} // verus!
