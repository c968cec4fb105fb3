//! The artifact a compiled program amounts to: its circuit, ABI, debug
//! information, content hash and producer version.

use vstd::prelude::*;

use crate::abi::{Abi, AbiV};
use crate::debug::{DebugFile, DebugFileV, DebugInfo, file_map_views};
use crate::diagnostics::{FileDiagnostic, FileDiagnosticV, FileId, duplicate_diagnostics,
    diag_views};

verus! {

/// A compiled program: the lowered circuit with its ABI and debug
/// information, the content hash of the monomorphized form it was lowered
/// from, the producer version, and the warnings found on the way.
#[derive(Debug)]
pub struct CompiledProgram {
    pub hash: u64,
    pub circuit: Vec<u8>,
    pub abi: Abi,
    pub debug: DebugInfo,
    pub file_map: Vec<DebugFile>,
    pub noir_version: String,
    pub warnings: Vec<FileDiagnostic>,
}

/// Mathematical value of a `CompiledProgram`.
#[verifier::ext_equal]
pub ghost struct CompiledProgramV {
    pub hash: u64,
    pub circuit: Seq<u8>,
    pub abi: AbiV,
    pub debug: Seq<FileId>,
    pub file_map: Seq<DebugFileV>,
    pub noir_version: Seq<char>,
    pub warnings: Seq<FileDiagnosticV>,
}

impl View for CompiledProgram {
    type V = CompiledProgramV;

    open spec fn view(&self) -> CompiledProgramV {
        CompiledProgramV {
            hash: self.hash,
            circuit: self.circuit@,
            abi: self.abi@,
            debug: self.debug@,
            file_map: file_map_views(self.file_map@),
            noir_version: self.noir_version@,
            warnings: diag_views(self.warnings@),
        }
    }
}

/// An identical copy of a byte vector.
pub fn duplicate_bytes(bytes: &Vec<u8>) -> (result: Vec<u8>)
    ensures
        result@ == bytes@,
{
    let mut out: Vec<u8> = Vec::new();
    let mut i: usize = 0;
    while i < bytes.len()
        invariant
            i <= bytes@.len(),
            out@ =~= bytes@.take(i as int),
        decreases bytes@.len() - i,
    {
        out.push(bytes[i]);
        i = i + 1;
    }
    proof {
        assert(out@ =~= bytes@);
    }
    out
}

/// An identical copy of a file map.
pub fn duplicate_file_map(entries: &Vec<DebugFile>) -> (result: Vec<DebugFile>)
    ensures
        file_map_views(result@) =~= file_map_views(entries@),
{
    let mut out: Vec<DebugFile> = Vec::new();
    let mut i: usize = 0;
    while i < entries.len()
        invariant
            i <= entries@.len(),
            out@.len() == i,
            forall|k: int| 0 <= k < i ==> out@[k]@ == entries@[k]@,
        decreases entries@.len() - i,
    {
        out.push(entries[i].duplicate());
        i = i + 1;
    }
    proof {
        assert(file_map_views(out@) =~= file_map_views(entries@));
    }
    out
}

impl CompiledProgram {
    /// An identical copy of the artifact.
    pub fn duplicate(&self) -> (result: CompiledProgram)
        ensures
            result@ =~= self@,
    {
        CompiledProgram {
            hash: self.hash,
            circuit: duplicate_bytes(&self.circuit),
            abi: self.abi.duplicate(),
            debug: self.debug.duplicate(),
            file_map: duplicate_file_map(&self.file_map),
            noir_version: self.noir_version.clone(),
            warnings: duplicate_diagnostics(&self.warnings),
        }
    }
}

} // verus!
