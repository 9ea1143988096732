//! The filesystem backend's key-to-path mapping.
//!
//! On disk a cache is a directory of files, one per entry, named by the
//! entry's key: `<root>/<key>.clbin`, holding the raw driver binary
//! verbatim — no header, no checksum, no framing.  The reading and
//! writing of those files is byte I/O and lives with the embedding
//! program; what is decided here is only where each key's bytes live.

use vstd::prelude::*;
use vstd::string::StringExecFns;

verus! {

/// A byte store rooted at a directory: each key maps to one file under
/// the root.
pub struct FileSystemCache {
    path: String,
}

impl FileSystemCache {
    /// A store rooted at `path`.  The root directory must exist before
    /// entries are read or written; the embedding program checks for it,
    /// creates it if it is missing, and constructs this value only when
    /// one of the two succeeded.
    pub fn new(path: String) -> (r: FileSystemCache)
        ensures
            r.root() == path@,
    {
        FileSystemCache { path }
    }

    /// The root directory.
    pub closed spec fn root(&self) -> Seq<char> {
        self.path@
    }

    /// The file that holds the entry of `key`: `<root>/<key>.clbin`.
    pub fn get_path(&self, key: &String) -> (r: String)
        ensures
            r@ == self.root() + "/"@ + key@ + ".clbin"@,
    {
        let mut r = String::new();
        r.append(self.path.as_str());
        r.append("/");
        r.append(key.as_str());
        r.append(".clbin");
        proof {
            assert(r@ =~= self.root() + "/"@ + key@ + ".clbin"@);
        }
        r
    }
}

} // verus!
