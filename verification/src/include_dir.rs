//! The dual-mode asset directory in its included form: the same shape as the
//! embedded variant, under the names its users see. In release builds the
//! asset tree is compiled into the binary; in development it is read from the
//! filesystem. Reading a path yields either a compiled-in file (bytes and
//! content hash at hand) or a filesystem file (a path whose bytes the caller
//! reads from disk).

use crate::fspath::{path_exists, path_join, path_join_str};
use crate::strutil::{clone_string, str_eq};
use vstd::prelude::*;
use vstd::slice::slice_to_vec;

verus! {

/// An asset directory: backed by the filesystem in development, compiled into
/// the binary in release.
pub enum IncludeDir {
    Fs(FsDirectory),
    Included(IncludedDirectory),
}

/// A file found in an [`IncludeDir`].
pub enum FsOrIncludedFile {
    Fs(FsFile),
    Included(IncludedFile),
}

/// A directory on the filesystem, named by its path.
pub struct FsDirectory(pub String);

/// A file on the filesystem, named by its path. Its bytes live on disk; the
/// (unverified) caller reads them.
pub struct FsFile(pub String);

/// A compiled-in directory: entries from relative path to included file.
pub struct IncludedDirectory(pub Vec<(String, IncludedFile)>);

/// A compiled-in file: its bytes and the content hash it is served with.
pub struct IncludedFile {
    pub data: Vec<u8>,
    pub hash: String,
}

/// What a successful filesystem lookup returns: the file at the joined path.
pub open spec fn fs_read_ok(dir: FsDirectory, path: Seq<char>, r: Option<FsOrIncludedFile>) -> bool {
    match r {
        Some(f) => f matches FsOrIncludedFile::Fs(ff) && ff.0@ == path_join(dir.0@, path),
        None => true,
    }
}

/// What an included lookup returns: the entry whose key is the path, or
/// `None` exactly when no entry has that key.
pub open spec fn included_read_ok(
    dir: IncludedDirectory,
    path: Seq<char>,
    r: Option<FsOrIncludedFile>,
) -> bool {
    match r {
        Some(f) => f matches FsOrIncludedFile::Included(inf) && exists|i: int|
            0 <= i < dir.0@.len() && (#[trigger] dir.0@[i]).0@ == path && inf.data@
                == dir.0@[i].1.data@ && inf.hash@ == dir.0@[i].1.hash@,
        None => forall|i: int| 0 <= i < dir.0@.len() ==> (#[trigger] dir.0@[i]).0@ != path,
    }
}

impl IncludeDir {
    /// Entry keys of an included directory are unique, as they are in the
    /// compiled-in map this models; a filesystem directory carries no entries.
    pub open spec fn wf(self) -> bool {
        match self {
            IncludeDir::Fs(_) => true,
            IncludeDir::Included(d) => d.wf(),
        }
    }

    /// Looks a path up in the directory, whichever mode it is in.
    pub fn read(&self, path: &str) -> (r: Option<FsOrIncludedFile>)
        requires
            self.wf(),
        ensures
            match self {
                IncludeDir::Fs(d) => fs_read_ok(*d, path@, r),
                IncludeDir::Included(d) => included_read_ok(*d, path@, r),
            },
    {
        match self {
            IncludeDir::Fs(s) => s.read(path),
            IncludeDir::Included(s) => s.read(path),
        }
    }
}

impl FsDirectory {
    /// Looks a path up on the filesystem: the file at the joined path when it
    /// exists there right now, `None` otherwise.
    pub fn read(&self, path: &str) -> (r: Option<FsOrIncludedFile>)
        ensures
            fs_read_ok(*self, path@, r),
    {
        let full = path_join_str(self.0.as_str(), path);
        if path_exists(full.as_str()) {
            Some(FsOrIncludedFile::Fs(FsFile(full)))
        } else {
            None
        }
    }
}

impl FsFile {
    /// A filesystem file carries no precomputed content hash.
    pub fn hash(&self) -> (r: Option<&str>)
        ensures
            r matches None,
    {
        None
    }
}

impl IncludedDirectory {
    /// Entry keys are unique.
    pub open spec fn wf(self) -> bool {
        forall|i: int, j: int|
            0 <= i < j < self.0@.len() ==> (#[trigger] self.0@[i]).0@ != (
            #[trigger] self.0@[j]).0@
    }

    /// Looks a path up among the compiled-in entries.
    pub fn read(&self, path: &str) -> (r: Option<FsOrIncludedFile>)
        requires
            self.wf(),
        ensures
            included_read_ok(*self, path@, r),
    {
        let mut i: usize = 0;
        while i < self.0.len()
            invariant
                0 <= i <= self.0@.len(),
                forall|j: int| 0 <= j < i ==> (#[trigger] self.0@[j]).0@ != path@,
            decreases self.0@.len() - i,
        {
            if str_eq(self.0[i].0.as_str(), path) {
                let found = self.0[i].1.clone();
                return Some(FsOrIncludedFile::Included(found));
            }
            i += 1;
        }
        None
    }
}

impl IncludedFile {
    /// The compiled-in bytes.
    pub fn data(&self) -> (r: Vec<u8>)
        ensures
            r@ == self.data@,
    {
        slice_to_vec(self.data.as_slice())
    }

    /// The content hash the file is served under.
    pub fn hash(&self) -> (r: Option<&str>)
        ensures
            r matches Some(h) && h@ == self.hash@,
    {
        Some(self.hash.as_str())
    }
}

impl Clone for IncludedFile {
    /// The clone holds the same bytes and the same hash.
    fn clone(&self) -> (r: Self)
        ensures
            r.data@ == self.data@,
            r.hash@ == self.hash@,
    {
        IncludedFile { data: slice_to_vec(self.data.as_slice()), hash: clone_string(&self.hash) }
    }
}

impl FsOrIncludedFile {
    /// The file's bytes when they are compiled in; a filesystem file's bytes
    /// live on disk, and the (unverified) caller reads them from the path in
    /// its `Fs` variant.
    pub fn data(&self) -> (r: Option<Vec<u8>>)
        ensures
            match self {
                FsOrIncludedFile::Fs(_) => r matches None,
                FsOrIncludedFile::Included(inf) => r matches Some(d) && d@ == inf.data@,
            },
    {
        match self {
            FsOrIncludedFile::Fs(_) => None,
            FsOrIncludedFile::Included(s) => Some(s.data()),
        }
    }

    /// The content hash: present exactly for compiled-in files.
    pub fn hash(&self) -> (r: Option<&str>)
        ensures
            match self {
                FsOrIncludedFile::Fs(_) => r matches None,
                FsOrIncludedFile::Included(inf) => r matches Some(h) && h@ == inf.hash@,
            },
    {
        match self {
            FsOrIncludedFile::Fs(s) => s.hash(),
            FsOrIncludedFile::Included(s) => s.hash(),
        }
    }
}

} // verus!
