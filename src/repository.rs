use vstd::prelude::*;
use vstd::utf8::encode_utf8;

verus! {

/// How a file differs from the last commit.
#[derive(Debug, Clone, Copy, PartialEq, Eq, Structural)]
pub enum FileStatus {
    Modified,
    Added,
    Deleted,
    Renamed,
    Untracked,
}

/// A file of the working tree that differs from the last commit.
pub struct ChangedFile {
    pub path: String,
    pub status: FileStatus,
}

/// The status flags that version control reports for one entry, in the
/// index and in the working tree.
#[derive(Debug, Clone, Copy, PartialEq, Eq, Structural)]
pub struct StatusFlags {
    pub index_new: bool,
    pub worktree_new: bool,
    pub index_deleted: bool,
    pub worktree_deleted: bool,
    pub index_renamed: bool,
    pub worktree_renamed: bool,
    pub index_modified: bool,
    pub worktree_modified: bool,
}

/// The status shown for an entry: a new file first, then a deleted, a
/// renamed, a modified one; an entry with none of these is not listed.
pub open spec fn status_of(f: StatusFlags) -> Option<FileStatus> {
    if f.index_new || f.worktree_new {
        Some(FileStatus::Added)
    } else if f.index_deleted || f.worktree_deleted {
        Some(FileStatus::Deleted)
    } else if f.index_renamed || f.worktree_renamed {
        Some(FileStatus::Renamed)
    } else if f.index_modified || f.worktree_modified {
        Some(FileStatus::Modified)
    } else {
        None
    }
}

/// The one-letter mark shown before a path.
pub open spec fn symbol_of(s: FileStatus) -> char {
    match s {
        FileStatus::Modified => 'M',
        FileStatus::Added => 'A',
        FileStatus::Deleted => 'D',
        FileStatus::Renamed => 'R',
        FileStatus::Untracked => '?',
    }
}

impl FileStatus {
    /// The one-letter mark shown before a path.
    pub fn symbol(self) -> (r: char)
        ensures
            r == symbol_of(self),
    {
        match self {
            FileStatus::Modified => 'M',
            FileStatus::Added => 'A',
            FileStatus::Deleted => 'D',
            FileStatus::Renamed => 'R',
            FileStatus::Untracked => '?',
        }
    }

    /// The status to show for an entry with these flags, if it is listed.
    pub fn from_flags(f: StatusFlags) -> (r: Option<FileStatus>)
        ensures
            r == status_of(f),
    {
        if f.index_new || f.worktree_new {
            Some(FileStatus::Added)
        } else if f.index_deleted || f.worktree_deleted {
            Some(FileStatus::Deleted)
        } else if f.index_renamed || f.worktree_renamed {
            Some(FileStatus::Renamed)
        } else if f.index_modified || f.worktree_modified {
            Some(FileStatus::Modified)
        } else {
            None
        }
    }
}

/// `a` comes no later than `b` in byte-wise lexicographic order, the order
/// of Rust strings.
pub open spec fn bytes_le(a: Seq<u8>, b: Seq<u8>) -> bool
    decreases a.len(),
{
    if a.len() == 0 {
        true
    } else if b.len() == 0 {
        false
    } else if a[0] != b[0] {
        a[0] < b[0]
    } else {
        bytes_le(a.drop_first(), b.drop_first())
    }
}

/// `a`'s path sorts no later than `b`'s.
pub open spec fn path_le(a: ChangedFile, b: ChangedFile) -> bool {
    bytes_le(encode_utf8(a.path@), encode_utf8(b.path@))
}

/// The files are in ascending order of path.
pub open spec fn sorted_by_path(fs: Seq<ChangedFile>) -> bool {
    forall|j: int, k: int| 0 <= j < k < fs.len() ==> #[trigger] path_le(fs[j], fs[k])
}

/// The listed entries, each with its status, in the order given.
pub open spec fn listed(entries: Seq<(String, StatusFlags)>) -> Seq<ChangedFile>
    decreases entries.len(),
{
    if entries.len() == 0 {
        seq![]
    } else {
        let rest = listed(entries.drop_last());
        let e = entries.last();
        match status_of(e.1) {
            Some(s) => rest.push(ChangedFile { path: e.0, status: s }),
            None => rest,
        }
    }
}

proof fn lemma_bytes_le_total(a: Seq<u8>, b: Seq<u8>)
    ensures
        bytes_le(a, b) || bytes_le(b, a),
    decreases a.len(),
{
    if a.len() > 0 && b.len() > 0 && a[0] == b[0] {
        lemma_bytes_le_total(a.drop_first(), b.drop_first());
    }
}

proof fn lemma_bytes_le_transitive(a: Seq<u8>, b: Seq<u8>, c: Seq<u8>)
    requires
        bytes_le(a, b),
        bytes_le(b, c),
    ensures
        bytes_le(a, c),
    decreases a.len(),
{
    if a.len() > 0 && b.len() > 0 && c.len() > 0 && a[0] == b[0] && b[0] == c[0] {
        lemma_bytes_le_transitive(a.drop_first(), b.drop_first(), c.drop_first());
    }
}

fn bytes_le_exec(a: &[u8], b: &[u8]) -> (r: bool)
    ensures
        r == bytes_le(a@, b@),
{
    let mut i: usize = 0;
    assert(a@.skip(0) =~= a@ && b@.skip(0) =~= b@);
    while i < a.len() && i < b.len() && a[i] == b[i]
        invariant
            i <= a@.len(),
            i <= b@.len(),
            bytes_le(a@, b@) == bytes_le(a@.skip(i as int), b@.skip(i as int)),
        decreases a@.len() - i,
    {
        assert(a@.skip(i as int).drop_first() =~= a@.skip(i + 1));
        assert(b@.skip(i as int).drop_first() =~= b@.skip(i + 1));
        i += 1;
    }
    if i == a.len() {
        true
    } else if i == b.len() {
        false
    } else {
        a[i] < b[i]
    }
}

/// The files of `entries` that are listed, with their status, in ascending
/// order of path.
pub fn changed_files(entries: Vec<(String, StatusFlags)>) -> (r: Vec<ChangedFile>)
    ensures
        r@.to_multiset() == listed(entries@).to_multiset(),
        sorted_by_path(r@),
{
    let mut r: Vec<ChangedFile> = Vec::new();
    let ghost src = entries@;
    let mut i: usize = 0;
    while i < entries.len()
        invariant
            i <= src.len(),
            r@.to_multiset() == listed(src.take(i as int)).to_multiset(),
            sorted_by_path(r@),
            entries@ == src,
        decreases src.len() - i,
    {
        assert(src.take(i + 1).drop_last() =~= src.take(i as int));
        assert(src.take(i + 1).last() == src[i as int]);
        let path = entries[i].0.clone();
        let flags = entries[i].1;
        let listed_status = FileStatus::from_flags(flags);
        if listed_status.is_none() {
            assert(listed(src.take(i + 1)) == listed(src.take(i as int)));
        }
        if let Some(status) = listed_status {
            let file = ChangedFile { path, status };
            let key = file.path.as_str().as_bytes();
            let mut pos: usize = 0;
            while pos < r.len() && bytes_le_exec(r[pos].path.as_str().as_bytes(), key)
                invariant
                    pos <= r@.len(),
                    key@ == encode_utf8(file.path@),
                    forall|k: int| 0 <= k < pos ==> #[trigger] path_le(r@[k], file),
                decreases r@.len() - pos,
            {
                pos += 1;
            }
            let ghost prev = r@;
            assert(listed(src.take(i + 1)) == listed(src.take(i as int)).push(file));
            proof {
                if pos < prev.len() {
                    lemma_bytes_le_total(encode_utf8(prev[pos as int].path@), encode_utf8(file.path@));
                }
            }
            let ghost g = file;
            r.insert(pos, file);
            assert(r@ == prev.insert(pos as int, g));
            proof {
                vstd::seq_lib::to_multiset_insert(prev, pos as int, g);
                vstd::seq_lib::to_multiset_build(listed(src.take(i as int)), g);
            }
            assert forall|j: int, k: int| 0 <= j < k < r@.len() implies #[trigger] path_le(r@[j], r@[k]) by {
                if k < pos {
                    assert(r@[j] == prev[j] && r@[k] == prev[k]);
                } else if k == pos {
                    assert(r@[j] == prev[j]);
                } else if j > pos {
                    assert(r@[j] == prev[j - 1] && r@[k] == prev[k - 1]);
                } else if j == pos {
                    assert(r@[k] == prev[k - 1]);
                    if k - 1 > pos {
                        assert(path_le(prev[pos as int], prev[k - 1]));
                        lemma_bytes_le_transitive(
                            encode_utf8(r@[j].path@),
                            encode_utf8(prev[pos as int].path@),
                            encode_utf8(prev[k - 1].path@),
                        );
                    }
                } else {
                    assert(r@[j] == prev[j] && r@[k] == prev[k - 1]);
                    assert(path_le(prev[j], r@[pos as int]));
                }
            }
        }
        i += 1;
    }
    assert(src.take(i as int) =~= src);
    r
}

} // verus!
