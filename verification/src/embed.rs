//! The dual-mode asset directory in its embedded form: in release builds the
//! asset tree is compiled into the binary; in development it is read from the
//! filesystem. Reading a path yields either a compiled-in file (bytes and
//! content hash at hand) or a filesystem file (a path whose bytes the caller
//! reads from disk).

use crate::fspath::{path_exists, path_join, path_join_str};
use crate::strutil::{clone_string, str_eq};
use vstd::prelude::*;
use vstd::slice::slice_to_vec;

verus! {

/// An asset directory: backed by the filesystem in development, compiled into
/// the binary in release.
pub enum IncludeDir {
    Fs(FsDirectory),
    Embedded(EmbeddedDirectory),
}

/// A file found in an [`IncludeDir`].
pub enum FsOrEmbeddedFile {
    Fs(FsFile),
    Embedded(EmbeddedFile),
}

/// A directory on the filesystem, named by its path.
pub struct FsDirectory(pub String);

/// A file on the filesystem, named by its path. Its bytes live on disk; the
/// (unverified) caller reads them.
pub struct FsFile(pub String);

/// A compiled-in directory: entries from relative path to embedded file.
pub struct EmbeddedDirectory(pub Vec<(String, EmbeddedFile)>);

/// A compiled-in file: its bytes and the content hash it is served with.
pub struct EmbeddedFile {
    pub data: Vec<u8>,
    pub hash: String,
}

/// What a successful filesystem lookup returns: the file at the joined path.
pub open spec fn fs_read_ok(dir: FsDirectory, path: Seq<char>, r: Option<FsOrEmbeddedFile>) -> bool {
    match r {
        Some(f) => f matches FsOrEmbeddedFile::Fs(ff) && ff.0@ == path_join(dir.0@, path),
        None => true,
    }
}

/// What an embedded lookup returns: the entry whose key is the path, or
/// `None` exactly when no entry has that key.
pub open spec fn embedded_read_ok(
    dir: EmbeddedDirectory,
    path: Seq<char>,
    r: Option<FsOrEmbeddedFile>,
) -> bool {
    match r {
        Some(f) => f matches FsOrEmbeddedFile::Embedded(ef) && exists|i: int|
            0 <= i < dir.0@.len() && (#[trigger] dir.0@[i]).0@ == path && ef.data@
                == dir.0@[i].1.data@ && ef.hash@ == dir.0@[i].1.hash@,
        None => forall|i: int| 0 <= i < dir.0@.len() ==> (#[trigger] dir.0@[i]).0@ != path,
    }
}

impl IncludeDir {
    /// Entry keys of an embedded directory are unique, as they are in the
    /// compiled-in map this models; a filesystem directory carries no entries.
    pub open spec fn wf(self) -> bool {
        match self {
            IncludeDir::Fs(_) => true,
            IncludeDir::Embedded(d) => d.wf(),
        }
    }

    /// Looks a path up in the directory, whichever mode it is in.
    pub fn read(&self, path: &str) -> (r: Option<FsOrEmbeddedFile>)
        requires
            self.wf(),
        ensures
            match self {
                IncludeDir::Fs(d) => fs_read_ok(*d, path@, r),
                IncludeDir::Embedded(d) => embedded_read_ok(*d, path@, r),
            },
    {
        match self {
            IncludeDir::Fs(s) => s.read(path),
            IncludeDir::Embedded(s) => s.read(path),
        }
    }
}

impl FsDirectory {
    /// Looks a path up on the filesystem: the file at the joined path when it
    /// exists there right now, `None` otherwise.
    pub fn read(&self, path: &str) -> (r: Option<FsOrEmbeddedFile>)
        ensures
            fs_read_ok(*self, path@, r),
    {
        let full = path_join_str(self.0.as_str(), path);
        if path_exists(full.as_str()) {
            Some(FsOrEmbeddedFile::Fs(FsFile(full)))
        } else {
            None
        }
    }
}

impl FsFile {
    /// A filesystem file carries no precomputed content hash.
    pub fn hash(&self) -> (r: Option<&str>)
        ensures
            r matches None,
    {
        None
    }
}

impl EmbeddedDirectory {
    /// Entry keys are unique.
    pub open spec fn wf(self) -> bool {
        forall|i: int, j: int|
            0 <= i < j < self.0@.len() ==> (#[trigger] self.0@[i]).0@ != (
            #[trigger] self.0@[j]).0@
    }

    /// Looks a path up among the compiled-in entries.
    pub fn read(&self, path: &str) -> (r: Option<FsOrEmbeddedFile>)
        requires
            self.wf(),
        ensures
            embedded_read_ok(*self, path@, r),
    {
        let mut i: usize = 0;
        while i < self.0.len()
            invariant
                0 <= i <= self.0@.len(),
                forall|j: int| 0 <= j < i ==> (#[trigger] self.0@[j]).0@ != path@,
            decreases self.0@.len() - i,
        {
            if str_eq(self.0[i].0.as_str(), path) {
                let found = self.0[i].1.clone();
                return Some(FsOrEmbeddedFile::Embedded(found));
            }
            i += 1;
        }
        None
    }
}

impl EmbeddedFile {
    /// The compiled-in bytes.
    pub fn data(&self) -> (r: Vec<u8>)
        ensures
            r@ == self.data@,
    {
        slice_to_vec(self.data.as_slice())
    }

    /// The content hash the file is served under.
    pub fn hash(&self) -> (r: Option<&str>)
        ensures
            r matches Some(h) && h@ == self.hash@,
    {
        Some(self.hash.as_str())
    }
}

impl Clone for EmbeddedFile {
    /// The clone holds the same bytes and the same hash.
    fn clone(&self) -> (r: Self)
        ensures
            r.data@ == self.data@,
            r.hash@ == self.hash@,
    {
        EmbeddedFile { data: slice_to_vec(self.data.as_slice()), hash: clone_string(&self.hash) }
    }
}

impl FsOrEmbeddedFile {
    /// The file's bytes when they are compiled in; a filesystem file's bytes
    /// live on disk, and the (unverified) caller reads them from the path in
    /// its `Fs` variant.
    pub fn data(&self) -> (r: Option<Vec<u8>>)
        ensures
            match self {
                FsOrEmbeddedFile::Fs(_) => r matches None,
                FsOrEmbeddedFile::Embedded(ef) => r matches Some(d) && d@ == ef.data@,
            },
    {
        match self {
            FsOrEmbeddedFile::Fs(_) => None,
            FsOrEmbeddedFile::Embedded(s) => Some(s.data()),
        }
    }

    /// The content hash: present exactly for compiled-in files.
    pub fn hash(&self) -> (r: Option<&str>)
        ensures
            match self {
                FsOrEmbeddedFile::Fs(_) => r matches None,
                FsOrEmbeddedFile::Embedded(ef) => r matches Some(h) && h@ == ef.hash@,
            },
    {
        match self {
            FsOrEmbeddedFile::Fs(s) => s.hash(),
            FsOrEmbeddedFile::Embedded(s) => s.hash(),
        }
    }
}

} // verus!
