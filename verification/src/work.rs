//! Deferred units of filesystem work.
//!
//! The core never touches the disk itself: every effect it wants performed
//! is returned as a [`Work`] value that the surrounding scheduler executes.
//! A snapshot of the relevant part of the filesystem is handed *in* as an
//! [`Fs`] value, so freshness decisions are pure functions of the snapshot.

use vstd::prelude::*;

verus! {

/// What the scheduler observed about one file: its modification time and,
/// where it could be read, its text. `None` stands for an unreadable file.
pub struct FileEntry {
    pub mtime: u64,
    pub contents: Option<String>,
}

/// A snapshot of the part of the filesystem a freshness decision reads. A
/// path absent from the snapshot is a path whose file is absent or cannot be
/// inspected.
pub struct Fs {
    pub files: Vec<(String, FileEntry)>,
}

/// The first entry recorded for `path`, if any.
pub open spec fn spec_fs_lookup(files: Seq<(String, FileEntry)>, path: Seq<char>) -> Option<
    FileEntry,
>
    decreases files.len(),
{
    if files.len() == 0 {
        None
    } else if files[0].0@ == path {
        Some(files[0].1)
    } else {
        spec_fs_lookup(files.drop_first(), path)
    }
}

/// Appending an entry for another path leaves a lookup unchanged.
pub proof fn lemma_fs_lookup_push(
    files: Seq<(String, FileEntry)>,
    q: String,
    e: FileEntry,
    path: Seq<char>,
)
    requires
        q@ != path,
    ensures
        spec_fs_lookup(files.push((q, e)), path) == spec_fs_lookup(files, path),
    decreases files.len(),
{
    if files.len() == 0 {
        assert(files.push((q, e)).drop_first() =~= Seq::<(String, FileEntry)>::empty());
    } else {
        assert(files.push((q, e)).drop_first() =~= files.drop_first().push((q, e)));
        lemma_fs_lookup_push(files.drop_first(), q, e, path);
    }
}

impl Fs {
    /// An empty snapshot.
    pub fn new() -> (r: Fs)
        ensures
            r.files@.len() == 0,
    {
        Fs { files: Vec::new() }
    }

    /// Records what was observed at `path`.
    pub fn add_file(&mut self, path: String, mtime: u64, contents: Option<String>)
        ensures
            final(self).files@ == old(self).files@.push((path, FileEntry { mtime, contents })),
    {
        self.files.push((path, FileEntry { mtime, contents }));
    }

    /// The first entry recorded for `path`.
    pub fn lookup(&self, path: &str) -> (r: Option<&FileEntry>)
        ensures
            match r {
                Some(e) => spec_fs_lookup(self.files@, path@) == Some(*e),
                None => spec_fs_lookup(self.files@, path@) is None,
            },
    {
        let n = self.files.len();
        let mut i: usize = 0;
        proof {
            assert(self.files@.subrange(0, n as int) =~= self.files@);
        }
        while i < n
            invariant
                0 <= i <= n,
                n == self.files@.len(),
                spec_fs_lookup(self.files@.subrange(i as int, n as int), path@) == spec_fs_lookup(
                    self.files@,
                    path@,
                ),
            decreases n - i,
        {
            let ghost pre = self.files@.subrange(i as int, n as int);
            if crate::strutil::str_eq(self.files[i].0.as_str(), path) {
                proof {
                    assert(pre[0] == self.files@[i as int]);
                }
                return Some(&self.files[i].1);
            }
            proof {
                assert(pre.drop_first() =~= self.files@.subrange(i + 1, n as int));
            }
            i += 1;
        }
        proof {
            assert(self.files@.subrange(n as int, n as int) =~= Seq::<(String, FileEntry)>::empty());
        }
        None
    }
}

/// One deferred unit of filesystem work for the external scheduler.
#[derive(Debug)]
pub enum Work {
    /// Do nothing.
    Noop,
    /// Create the directory and its parents; idempotent.
    Mkdir { path: String },
    /// Atomically create or overwrite `path` with `fingerprint`.
    WriteFingerprint { path: String, fingerprint: String },
    /// Rename each `(src, dst)` pair in order.
    Promote { pairs: Vec<(String, String)> },
}

} // verus!
