//! Paths and what is known of the files they name.
use vstd::prelude::*;
use crate::text::str_eq;

verus! {

/// Whether a (Unix) path is absolute, i.e. starts at the root.
pub open spec fn is_absolute_path(p: Seq<char>) -> bool {
    p.len() > 0 && p[0] == '/'
}

/// Joins `rel` onto `base` as pushing onto a path buffer does: an absolute `rel` replaces
/// `base`, otherwise a separator is put between them unless `base` is empty or already ends with one.
pub open spec fn join_path(base: Seq<char>, rel: Seq<char>) -> Seq<char> {
    if is_absolute_path(rel) {
        rel
    } else if base.len() == 0 || base.last() == '/' {
        base + rel
    } else {
        base + seq!['/'] + rel
    }
}

/// Joins two paths, see [`join_path`].
pub fn join_paths(base: &str, rel: &str) -> (r: String)
    ensures
        r@ == join_path(base@, rel@),
{
    let rel_len = rel.unicode_len();
    if rel_len > 0 && rel.get_char(0) == '/' {
        return rel.to_owned();
    }
    let base_len = base.unicode_len();
    let mut r = base.to_owned();
    if base_len == 0 || base.get_char(base_len - 1) == '/' {
        r.append(rel);
    } else {
        r.append("/");
        proof {
            reveal_strlit("/");
        }
        r.append(rel);
    }
    r
}

/// Root directory of a dataset, all dataset files are stored under it.
#[derive(Debug)]
pub struct DatasetRoot(pub String);

impl Clone for DatasetRoot {
    fn clone(&self) -> (r: Self)
        ensures
            r == *self,
    {
        DatasetRoot(self.0.clone())
    }
}

/// Why a path could not be made relative to a dataset root.
#[derive(Clone, Copy, Debug, PartialEq, Eq, Structural)]
pub enum RelativePathError {
    /// The path does not start with the dataset root.
    NotUnderRoot,
}

impl DatasetRoot {
    /// Absolute path of a file given by its path relative to this root.
    pub fn to_absolute(&self, path_str: &str) -> (r: String)
        requires
            !is_absolute_path(path_str@),
        ensures
            r@ == join_path(self.0@, path_str@),
    {
        join_paths(self.0.as_str(), path_str)
    }

    /// Path relative to this root of a file given by its canonical absolute path
    /// (the root must be absolute).
    pub fn to_relative(&self, canonical_path: &str) -> (r: Result<String, RelativePathError>)
        requires
            is_absolute_path(self.0@),
            canonical_path@.len() >= self.0@.len() && canonical_path@.subrange(0, self.0@.len() as int)
                == self.0@ ==> canonical_path@.len() > self.0@.len() && (
            canonical_path@[self.0@.len() as int] as u32) < 0x80,
        ensures
            r is Ok <==> (canonical_path@.len() >= self.0@.len() && canonical_path@.subrange(
                0,
                self.0@.len() as int,
            ) == self.0@),
            r matches Ok(rel) ==> rel@ == canonical_path@.subrange(
                self.0@.len() as int + 1,
                canonical_path@.len() as int,
            ),
    {
        let root = self.0.as_str();
        let root_len = root.unicode_len();
        let path_len = canonical_path.unicode_len();
        if path_len < root_len {
            return Err(RelativePathError::NotUnderRoot);
        }
        let mut i: usize = 0;
        while i < root_len
            invariant
                root_len == root@.len(),
                path_len == canonical_path@.len(),
                root_len <= path_len,
                root@ == self.0@,
                0 <= i <= root_len,
                canonical_path@.subrange(0, i as int) == root@.subrange(0, i as int),
            decreases root_len - i,
        {
            if root.get_char(i) != canonical_path.get_char(i) {
                proof {
                    assert(canonical_path@.subrange(0, root_len as int)[i as int] != root@[i as int]);
                }
                return Err(RelativePathError::NotUnderRoot);
            }
            proof {
                assert(canonical_path@.subrange(0, i + 1) =~= root@.subrange(0, i + 1));
            }
            i = i + 1;
        }
        assert(root@.subrange(0, root_len as int) =~= root@);
        Ok(canonical_path.substring_char(root_len + 1, path_len).to_owned())
    }
}

/// Size and content hash of an existing file.
#[derive(Clone, Copy, Debug, PartialEq, Eq, Structural)]
pub struct FileMeta {
    pub len: u64,
    pub hash: u128,
}

/// A file known to exist, by its absolute path.
#[derive(Debug)]
pub struct FileEntry {
    pub path: String,
    pub meta: FileMeta,
}

/// The files that exist, each with its size and content hash; a path that is not listed
/// names no file.
#[derive(Debug)]
pub struct FileIndex {
    pub entries: Vec<FileEntry>,
}

/// What is known of the file at `path`: the first entry for it, if any.
pub open spec fn lookup_file(entries: Seq<FileEntry>, path: Seq<char>) -> Option<FileMeta>
    decreases entries.len(),
{
    if entries.len() == 0 {
        None
    } else if entries[0].path@ == path {
        Some(entries[0].meta)
    } else {
        lookup_file(entries.drop_first(), path)
    }
}

/// Files are equal if their sizes and hashes are equal, or if they both don't exist.
pub open spec fn files_equal_spec(m1: Option<FileMeta>, m2: Option<FileMeta>) -> bool {
    match (m1, m2) {
        (None, None) => true,
        (Some(a), Some(b)) => a.len == b.len && a.hash == b.hash,
        _ => false,
    }
}

impl FileIndex {
    pub open spec fn meta_of(&self, path: Seq<char>) -> Option<FileMeta> {
        lookup_file(self.entries@, path)
    }

    /// What is known of the file at the given absolute path.
    pub fn lookup(&self, path: &str) -> (r: Option<FileMeta>)
        ensures
            r == self.meta_of(path@),
    {
        let mut i: usize = 0;
        assert(self.entries@.skip(0) =~= self.entries@);
        while i < self.entries.len()
            invariant
                0 <= i <= self.entries.len(),
                lookup_file(self.entries@, path@) == lookup_file(self.entries@.skip(i as int), path@),
            decreases self.entries.len() - i,
        {
            proof {
                assert(self.entries@.skip(i as int).drop_first() =~= self.entries@.skip(i + 1));
            }
            if str_eq(self.entries[i].path.as_str(), path) {
                return Some(self.entries[i].meta);
            }
            i = i + 1;
        }
        assert(self.entries@.skip(i as int).len() == 0);
        None
    }

    /// Whether a file exists at the given absolute path.
    pub fn file_exists(&self, path: &str) -> (r: bool)
        ensures
            r == self.meta_of(path@) is Some,
    {
        self.lookup(path).is_some()
    }
}

/// Files are equal if their sizes and hashes are equal, or if they both don't exist.
pub fn files_are_equal(files1: &FileIndex, f1: &str, files2: &FileIndex, f2: &str) -> (r: bool)
    ensures
        r == files_equal_spec(files1.meta_of(f1@), files2.meta_of(f2@)),
{
    match (files1.lookup(f1), files2.lookup(f2)) {
        (None, None) => true,
        (Some(m1), Some(m2)) => {
            if m1.len != m2.len {
                return false;
            }
            m1.hash == m2.hash
        },
        _ => false,
    }
}

/// A relative path made absolute under a root (which is absolute and does not end with a
/// separator) is under that root, with a separator after it, and taking it relative to the
/// root again gives back the relative path: `to_relative` undoes `to_absolute`.
pub proof fn law_to_relative_undoes_to_absolute(root: Seq<char>, rel: Seq<char>)
    requires
        is_absolute_path(root),
        root.last() != '/',
        !is_absolute_path(rel),
    ensures
        join_path(root, rel).len() > root.len(),
        join_path(root, rel).subrange(0, root.len() as int) == root,
        join_path(root, rel)[root.len() as int] == '/',
        join_path(root, rel).subrange(root.len() as int + 1, join_path(root, rel).len() as int) == rel,
{
    let abs = join_path(root, rel);
    assert(abs == root + seq!['/'] + rel);
    assert(abs.subrange(0, root.len() as int) =~= root);
    assert(abs.subrange(root.len() as int + 1, abs.len() as int) =~= rel);
}

} // verus!
