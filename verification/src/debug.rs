//! Debug information attached to compiled artifacts, and the filtering
//! that keeps an artifact's file map proportional to the files its code
//! actually touches rather than to the whole dependency closure.

use vstd::prelude::*;

use crate::diagnostics::FileId;
use crate::file_manager::FileManager;

verus! {

/// Source-mapping information the lowering engine attaches to a compiled
/// function: the files its locations refer to.
#[derive(Debug)]
pub struct DebugInfo {
    pub file_ids: Vec<FileId>,
}

impl View for DebugInfo {
    type V = Seq<FileId>;

    open spec fn view(&self) -> Seq<FileId> {
        self.file_ids@
    }
}

impl DebugInfo {
    /// An identical copy of the debug information.
    pub fn duplicate(&self) -> (result: DebugInfo)
        ensures
            result@ == self@,
    {
        let mut out: Vec<FileId> = Vec::new();
        let mut i: usize = 0;
        while i < self.file_ids.len()
            invariant
                i <= self.file_ids@.len(),
                out@ =~= self.file_ids@.take(i as int),
            decreases self.file_ids@.len() - i,
        {
            out.push(self.file_ids[i]);
            i = i + 1;
        }
        proof {
            assert(out@ =~= self.file_ids@);
        }
        DebugInfo { file_ids: out }
    }
}

/// One entry of an artifact's file map: a referenced file and its path.
#[derive(Debug)]
pub struct DebugFile {
    pub file_id: FileId,
    pub path: String,
}

/// Mathematical value of a `DebugFile`.
#[verifier::ext_equal]
pub ghost struct DebugFileV {
    pub file_id: FileId,
    pub path: Seq<char>,
}

impl View for DebugFile {
    type V = DebugFileV;

    open spec fn view(&self) -> DebugFileV {
        DebugFileV { file_id: self.file_id, path: self.path@ }
    }
}

impl DebugFile {
    /// An identical copy of the file-map entry.
    pub fn duplicate(&self) -> (result: DebugFile)
        ensures
            result@ == self@,
    {
        DebugFile { file_id: self.file_id, path: self.path.clone() }
    }
}

/// The views of a list of debug informations, in order.
pub open spec fn debug_views(debugs: Seq<DebugInfo>) -> Seq<Seq<FileId>> {
    debugs.map_values(|d: DebugInfo| d@)
}

/// The views of a file map, in order.
pub open spec fn file_map_views(entries: Seq<DebugFile>) -> Seq<DebugFileV> {
    entries.map_values(|e: DebugFile| e@)
}

/// Some of the debug informations refers to the file numbered `id`.
pub open spec fn spec_referenced(debugs: Seq<Seq<FileId>>, id: int) -> bool {
    exists|i: int, j: int|
        0 <= i < debugs.len() && 0 <= j < debugs[i].len() && (#[trigger] debugs[i][j]).id == id
}

/// The file map over the first `n` registered files: each file that some
/// debug information references, with its path, in identifier order.
pub open spec fn spec_relevant_files(
    paths: Seq<Seq<char>>,
    debugs: Seq<Seq<FileId>>,
    n: int,
) -> Seq<DebugFileV>
    decreases n,
{
    if n <= 0 {
        Seq::empty()
    } else {
        let prefix = spec_relevant_files(paths, debugs, n - 1);
        if spec_referenced(debugs, n - 1) {
            prefix.push(DebugFileV { file_id: FileId { id: (n - 1) as usize }, path: paths[n - 1] })
        } else {
            prefix
        }
    }
}

/// Whether any of the given debug informations refers to the file.
fn is_referenced(debug_infos: &Vec<DebugInfo>, id: usize) -> (result: bool)
    ensures
        result == spec_referenced(debug_views(debug_infos@), id as int),
{
    let ghost debugs = debug_views(debug_infos@);
    let mut i: usize = 0;
    while i < debug_infos.len()
        invariant
            debugs == debug_views(debug_infos@),
            i <= debug_infos@.len(),
            forall|ii: int, j: int|
                0 <= ii < i && 0 <= j < debugs[ii].len() ==> (#[trigger] debugs[ii][j]).id != id,
        decreases debug_infos@.len() - i,
    {
        let info = &debug_infos[i];
        let mut j: usize = 0;
        while j < info.file_ids.len()
            invariant
                debugs == debug_views(debug_infos@),
                i < debug_infos@.len(),
                info == debug_infos@[i as int],
                j <= info.file_ids@.len(),
                forall|jj: int| 0 <= jj < j ==> (#[trigger] debugs[i as int][jj]).id != id,
            decreases info.file_ids@.len() - j,
    {
            if info.file_ids[j].id == id {
                proof {
                    assert(debugs[i as int][j as int].id == id);
                }
                return true;
            }
            j = j + 1;
        }
        i = i + 1;
    }
    proof {
        if spec_referenced(debugs, id as int) {
            let (ii, j) = choose|ii: int, j: int|
                0 <= ii < debugs.len() && 0 <= j < debugs[ii].len() && (#[trigger] debugs[ii][j]).id
                    == id;
            assert(false);
        }
    }
    false
}

/// Keep only the registered files that the given debug informations
/// reference, pairing each with its path, in identifier order.
pub fn filter_relevant_files(debug_infos: &Vec<DebugInfo>, file_manager: &FileManager) -> (result:
    Vec<DebugFile>)
    ensures
        file_map_views(result@) == spec_relevant_files(
            file_manager@,
            debug_views(debug_infos@),
            file_manager@.len() as int,
        ),
{
    let ghost paths = file_manager@;
    let ghost debugs = debug_views(debug_infos@);
    let mut out: Vec<DebugFile> = Vec::new();
    let mut i: usize = 0;
    while i < file_manager.files.len()
        invariant
            paths == file_manager@,
            debugs == debug_views(debug_infos@),
            i <= paths.len(),
            file_map_views(out@) == spec_relevant_files(paths, debugs, i as int),
        decreases paths.len() - i,
    {
        if is_referenced(debug_infos, i) {
            let entry = DebugFile {
                file_id: FileId { id: i },
                path: file_manager.files[i].clone(),
            };
            proof {
                assert(entry@ == (DebugFileV { file_id: FileId { id: i }, path: paths[i as int] }));
            }
            out.push(entry);
            proof {
                assert(file_map_views(out@) =~= spec_relevant_files(paths, debugs, i + 1));
            }
        } else {
            proof {
                assert(file_map_views(out@) =~= spec_relevant_files(paths, debugs, i + 1));
            }
        }
        i = i + 1;
    }
    out
}

} // verus!
