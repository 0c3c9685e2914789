//! A snapshot of the filesystem state a resolution runs against.
//!
//! The resolver never touches a disk. A caller lists, in an [`Fs`] value, the
//! regular files (with their bytes and their canonical form) and the
//! directories that matter for a resolution, and the algorithm is verified
//! against that snapshot, which it treats as authoritative.

use vstd::prelude::*;
use vstd::string::*;
use crate::paths::normalize_path;
use crate::paths::normalize_path_spec;

verus! {

/// One regular file in a filesystem snapshot.
pub struct FsFile {
    /// The path the file is reachable at (it may pass through links).
    pub path: String,
    /// The file's bytes.
    pub content: Vec<u8>,
    /// The unique real path of the file, every link resolved, or `None` where
    /// canonicalization fails.
    pub canonical: Option<String>,
}

/// The filesystem state a resolution is evaluated against: which paths are
/// regular files and which are directories. Entries are listed under their
/// path in lexical normal form (what [`normalize_path`] produces); a query is
/// normalized the same way before matching, the way a real filesystem
/// interprets `.` and `..` components itself. When a path is listed twice the
/// first entry wins.
pub struct Fs {
    pub files: Vec<FsFile>,
    pub dirs: Vec<String>,
}

/// The first file entry carrying the given path, if any.
pub open spec fn file_lookup(files: Seq<FsFile>, p: Seq<char>) -> Option<FsFile>
    decreases files.len(),
{
    if files.len() == 0 {
        None
    } else if files[0].path@ == p {
        Some(files[0])
    } else {
        file_lookup(files.drop_first(), p)
    }
}

proof fn lemma_file_lookup_step(files: Seq<FsFile>, p: Seq<char>, j: int)
    requires
        0 <= j < files.len(),
        files[j].path@ != p,
    ensures
        file_lookup(files.skip(j), p) == file_lookup(files.skip(j + 1), p),
{
    assert(files.skip(j).len() > 0);
    assert(files.skip(j)[0] == files[j]);
    assert(files.skip(j).drop_first() =~= files.skip(j + 1));
}

impl Fs {
    /// Whether `p`, in normal form, is a regular file in this snapshot.
    pub open spec fn spec_is_file(self, p: Seq<char>) -> bool {
        file_lookup(self.files@, normalize_path_spec(p)) is Some
    }

    /// Whether `p`, in normal form, is a directory in this snapshot.
    pub open spec fn spec_is_dir(self, p: Seq<char>) -> bool {
        exists|i: int| 0 <= i < self.dirs@.len() && self.dirs@[i]@ == normalize_path_spec(p)
    }

    /// The bytes of the file at `p`, if one is listed.
    pub open spec fn spec_content(self, p: Seq<char>) -> Option<Seq<u8>> {
        match file_lookup(self.files@, normalize_path_spec(p)) {
            Some(f) => Some(f.content@),
            None => None,
        }
    }

    /// The canonical form of the file at `p`: `None` when no file is listed,
    /// `Some(None)` when the file cannot be canonicalized.
    pub open spec fn spec_canonical(self, p: Seq<char>) -> Option<Option<Seq<char>>> {
        match file_lookup(self.files@, normalize_path_spec(p)) {
            Some(f) => match f.canonical {
                Some(c) => Some(Some(c@)),
                None => Some(None),
            },
            None => None,
        }
    }

    /// An empty snapshot: no files, no directories.
    pub fn new() -> (r: Fs)
        ensures
            r.files@ == Seq::<FsFile>::empty(),
            r.dirs@ == Seq::<String>::empty(),
    {
        Fs { files: Vec::new(), dirs: Vec::new() }
    }

    /// List `path` as a directory.
    pub fn add_dir(&mut self, path: String)
        ensures
            final(self).dirs@ == old(self).dirs@.push(path),
            final(self).files == old(self).files,
    {
        self.dirs.push(path);
    }

    /// List `path` as a regular file holding `content`, with the given
    /// canonical form (`None` when canonicalization fails on it).
    pub fn add_file_entry(&mut self, path: String, content: Vec<u8>, canonical: Option<String>)
        ensures
            final(self).files@ == old(self).files@.push(
                FsFile { path, content, canonical },
            ),
            final(self).dirs == old(self).dirs,
    {
        self.files.push(FsFile { path, content, canonical });
    }

    /// List `path` as a regular file holding `content` that is its own
    /// canonical form (it passes through no link).
    pub fn add_file(&mut self, path: String, content: Vec<u8>)
        ensures
            final(self).files@ == old(self).files@.push(
                FsFile { path, content, canonical: Some(path) },
            ),
            final(self).dirs == old(self).dirs,
    {
        let canon = path.clone();
        self.files.push(FsFile { path, content, canonical: Some(canon) });
    }

    /// Whether `p` is a regular file in this snapshot.
    pub fn is_file(&self, p: &String) -> (r: bool)
        ensures
            r == self.spec_is_file(p@),
    {
        let q = normalize_path(p.as_str());
        let mut j: usize = 0;
        proof {
            assert(self.files@.skip(0) =~= self.files@);
        }
        while j < self.files.len()
            invariant
                j <= self.files@.len(),
                q@ == normalize_path_spec(p@),
                file_lookup(self.files@.skip(j as int), q@) == file_lookup(self.files@, q@),
            decreases self.files@.len() - j,
        {
            if self.files[j].path == q {
                proof {
                    assert(self.files@.skip(j as int)[0] == self.files@[j as int]);
                }
                return true;
            }
            proof {
                lemma_file_lookup_step(self.files@, q@, j as int);
            }
            j = j + 1;
        }
        proof {
            assert(self.files@.skip(j as int) =~= Seq::<FsFile>::empty());
        }
        false
    }

    /// Whether `p` is a directory in this snapshot.
    pub fn is_dir(&self, p: &String) -> (r: bool)
        ensures
            r == self.spec_is_dir(p@),
    {
        let q = normalize_path(p.as_str());
        let mut j: usize = 0;
        while j < self.dirs.len()
            invariant
                j <= self.dirs@.len(),
                q@ == normalize_path_spec(p@),
                forall|t: int| 0 <= t < j ==> self.dirs@[t]@ != q@,
            decreases self.dirs@.len() - j,
        {
            if self.dirs[j] == q {
                return true;
            }
            j = j + 1;
        }
        false
    }

    /// The bytes of the file at `p`, if one is listed.
    pub fn read_file(&self, p: &String) -> (r: Option<Vec<u8>>)
        ensures
            match self.spec_content(p@) {
                Some(bytes) => r is Some && r->0@ == bytes,
                None => r is None,
            },
    {
        let q = normalize_path(p.as_str());
        let mut j: usize = 0;
        proof {
            assert(self.files@.skip(0) =~= self.files@);
        }
        while j < self.files.len()
            invariant
                j <= self.files@.len(),
                q@ == normalize_path_spec(p@),
                file_lookup(self.files@.skip(j as int), q@) == file_lookup(self.files@, q@),
            decreases self.files@.len() - j,
        {
            if self.files[j].path == q {
                proof {
                    assert(self.files@.skip(j as int)[0] == self.files@[j as int]);
                }
                let out = clone_bytes(&self.files[j].content);
                return Some(out);
            }
            proof {
                lemma_file_lookup_step(self.files@, q@, j as int);
            }
            j = j + 1;
        }
        proof {
            assert(self.files@.skip(j as int) =~= Seq::<FsFile>::empty());
        }
        None
    }

    /// The canonical form recorded for the file at `p`: `None` when no file is
    /// listed there, `Some(None)` when the file cannot be canonicalized.
    pub fn canonical_of(&self, p: &String) -> (r: Option<Option<String>>)
        ensures
            match self.spec_canonical(p@) {
                Some(Some(c)) => r matches Some(Some(s)) && (r matches Some(Some(s)) ==> s@ == c),
                Some(None) => r == Some(Option::<String>::None),
                None => r is None,
            },
    {
        let q = normalize_path(p.as_str());
        let mut j: usize = 0;
        proof {
            assert(self.files@.skip(0) =~= self.files@);
        }
        while j < self.files.len()
            invariant
                j <= self.files@.len(),
                q@ == normalize_path_spec(p@),
                file_lookup(self.files@.skip(j as int), q@) == file_lookup(self.files@, q@),
            decreases self.files@.len() - j,
        {
            if self.files[j].path == q {
                proof {
                    assert(self.files@.skip(j as int)[0] == self.files@[j as int]);
                }
                return match &self.files[j].canonical {
                    Some(c) => Some(Some(c.clone())),
                    None => Some(None),
                };
            }
            proof {
                lemma_file_lookup_step(self.files@, q@, j as int);
            }
            j = j + 1;
        }
        proof {
            assert(self.files@.skip(j as int) =~= Seq::<FsFile>::empty());
        }
        None
    }
}

/// Copy a byte vector element by element.
fn clone_bytes(v: &Vec<u8>) -> (r: Vec<u8>)
    ensures
        r@ == v@,
{
    let mut out: Vec<u8> = Vec::new();
    let mut j: usize = 0;
    while j < v.len()
        invariant
            j <= v@.len(),
            out@ == v@.take(j as int),
        decreases v@.len() - j,
    {
        out.push(v[j]);
        proof {
            assert(v@.take(j + 1) =~= v@.take(j as int).push(v@[j as int]));
        }
        j = j + 1;
    }
    proof {
        assert(v@.take(v@.len() as int) =~= v@);
    }
    out
}

} // verus!
