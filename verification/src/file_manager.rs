//! The registry of source files a compilation session knows about.
//!
//! Reading file contents is the caller's concern; the manager only assigns
//! a stable `FileId` to each registered path, handing the same identifier
//! back when a path is registered twice.

use vstd::prelude::*;

use crate::diagnostics::FileId;

verus! {

/// Registry of source-file paths, indexed by `FileId`.
pub struct FileManager {
    pub files: Vec<String>,
}

impl View for FileManager {
    type V = Seq<Seq<char>>;

    open spec fn view(&self) -> Seq<Seq<char>> {
        self.files@.map_values(|p: String| p@)
    }
}

impl FileManager {
    /// An empty registry.
    pub fn new() -> (result: FileManager)
        ensures
            result@ =~= Seq::<Seq<char>>::empty(),
    {
        FileManager { files: Vec::new() }
    }

    /// How many files are registered.
    pub fn number_of_files(&self) -> (result: usize)
        ensures
            result == self@.len(),
    {
        self.files.len()
    }

    /// Register a path, or return the identifier it already has.
    pub fn add_file(&mut self, path: String) -> (result: FileId)
        ensures
            final(self)@.len() >= old(self)@.len(),
            result.id < final(self)@.len(),
            final(self)@[result.id as int] == path@,
            old(self)@.contains(path@) ==> final(self)@ == old(self)@,
            !old(self)@.contains(path@) ==> final(self)@ =~= old(self)@.push(path@)
                && result.id == old(self)@.len(),
            forall|i: int| 0 <= i < old(self)@.len() ==> final(self)@[i] == old(self)@[i],
    {
        let mut i: usize = 0;
        while i < self.files.len()
            invariant
                *self == *old(self),
                i <= self.files@.len(),
                forall|k: int| 0 <= k < i ==> self@[k] != path@,
            decreases self.files@.len() - i,
        {
            if self.files[i] == path {
                proof {
                    assert(self@[i as int] == path@);
                }
                return FileId { id: i };
            }
            i = i + 1;
        }
        proof {
            if old(self)@.contains(path@) {
                let k = choose|k: int| 0 <= k < old(self)@.len() && old(self)@[k] == path@;
                assert(false);
            }
        }
        let id = self.files.len();
        self.files.push(path);
        FileId { id }
    }

    /// The path registered under `file_id`.
    pub fn path_of(&self, file_id: FileId) -> (result: &String)
        requires
            file_id.id < self@.len(),
        ensures
            result@ == self@[file_id.id as int],
    {
        &self.files[file_id.id]
    }
}

} // verus!
