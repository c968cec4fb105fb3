//! The compilation session: the file manager, the crate graph, and the
//! store of resolved definitions that the check pass installs.
//!
//! The front end's lexer, parser, name resolution, type checking,
//! monomorphization and circuit lowering are outside collaborators. What
//! they resolve for a crate arrives here as a `CrateAnalysis` of plain
//! values: each function with its fully concrete (monomorphized) form and
//! the deterministic lowering outcome the engine produces for it. The check
//! pass alone installs those definitions into the interner; the compilers
//! afterwards only read them.

use vstd::prelude::*;

use crate::abi::{Abi, AbiParameterV, AbiV, AbiParameter, param_views};
use crate::debug::DebugInfo;
use crate::diagnostics::{CustomDiagnostic, CustomDiagnosticV, FileDiagnostic, FileDiagnosticV,
    FileId, RuntimeError, RuntimeErrorV};
use crate::file_manager::FileManager;
use crate::graph::{CrateGraph, CrateGraphV, CrateId};

verus! {

/// Identifier of a function in the interner.
#[derive(Clone, Copy, PartialEq, Eq, Structural, Debug)]
pub struct FuncId {
    pub idx: usize,
}

/// Identifier of a struct type in the interner.
#[derive(Clone, Copy, PartialEq, Eq, Structural, Debug)]
pub struct StructId {
    pub idx: usize,
}

/// The visibility a contract declares for one of its functions.
#[derive(Clone, Copy, PartialEq, Eq, Structural, Debug)]
pub enum ContractVisibility {
    Secret,
    Open,
}

/// Metadata the front end records about a function.
#[derive(Clone, Copy)]
pub struct FunctionModifiers {
    pub contract_function_type: Option<ContractVisibility>,
    pub is_unconstrained: bool,
    pub is_internal: Option<bool>,
}

/// What the circuit-lowering engine produces for a function: the circuit,
/// its debug information, the function's ABI, and any warnings.
pub struct LoweredArtifact {
    pub circuit: Vec<u8>,
    pub debug: DebugInfo,
    pub abi: Abi,
    pub warnings: Vec<FileDiagnostic>,
}

/// Mathematical value of a `LoweredArtifact`.
#[verifier::ext_equal]
pub ghost struct LoweredArtifactV {
    pub circuit: Seq<u8>,
    pub debug: Seq<FileId>,
    pub abi: AbiV,
    pub warnings: Seq<FileDiagnosticV>,
}

impl View for LoweredArtifact {
    type V = LoweredArtifactV;

    open spec fn view(&self) -> LoweredArtifactV {
        LoweredArtifactV {
            circuit: self.circuit@,
            debug: self.debug@,
            abi: self.abi@,
            warnings: crate::diagnostics::diag_views(self.warnings@),
        }
    }
}

/// A function as the front end resolved it: its name, its monomorphized
/// form as canonical bytes, the deterministic response of the circuit
/// engine for that form, its signature-derived ABI, and its modifiers.
pub struct FunctionRecord {
    pub name: String,
    pub monomorphized: Vec<u8>,
    pub lowering: Result<LoweredArtifact, RuntimeError>,
    pub abi: Abi,
    pub modifiers: FunctionModifiers,
}

/// Mathematical value of a `FunctionRecord`.
#[verifier::ext_equal]
pub ghost struct FunctionRecordV {
    pub name: Seq<char>,
    pub monomorphized: Seq<u8>,
    pub lowering: Result<LoweredArtifactV, RuntimeErrorV>,
    pub abi: AbiV,
    pub modifiers: FunctionModifiers,
}

impl View for FunctionRecord {
    type V = FunctionRecordV;

    open spec fn view(&self) -> FunctionRecordV {
        FunctionRecordV {
            name: self.name@,
            monomorphized: self.monomorphized@,
            lowering: match self.lowering {
                Ok(ref art) => Ok(art@),
                Err(ref e) => Err(e@),
            },
            abi: self.abi@,
            modifiers: self.modifiers,
        }
    }
}

/// A struct type as the front end resolved it: its name and field layout.
pub struct StructRecord {
    pub name: String,
    pub fields: Vec<AbiParameter>,
}

/// Mathematical value of a `StructRecord`.
#[verifier::ext_equal]
pub ghost struct StructRecordV {
    pub name: Seq<char>,
    pub fields: Seq<AbiParameterV>,
}

impl View for StructRecord {
    type V = StructRecordV;

    open spec fn view(&self) -> StructRecordV {
        StructRecordV { name: self.name@, fields: param_views(self.fields@) }
    }
}

/// The store of resolved definitions: functions and struct types.
pub struct DefInterner {
    pub functions: Vec<FunctionRecord>,
    pub structs: Vec<StructRecord>,
}

/// Mathematical value of a `DefInterner`.
#[verifier::ext_equal]
pub ghost struct DefInternerV {
    pub functions: Seq<FunctionRecordV>,
    pub structs: Seq<StructRecordV>,
}

impl View for DefInterner {
    type V = DefInternerV;

    open spec fn view(&self) -> DefInternerV {
        DefInternerV {
            functions: self.functions@.map_values(|f: FunctionRecord| f@),
            structs: self.structs@.map_values(|s: StructRecord| s@),
        }
    }
}

impl DefInternerV {
    /// The interner after appending a crate's resolved definitions.
    pub open spec fn extended(
        self,
        functions: Seq<FunctionRecordV>,
        structs: Seq<StructRecordV>,
    ) -> DefInternerV {
        DefInternerV { functions: self.functions + functions, structs: self.structs + structs }
    }
}

/// A function declared inside a contract: which interned function it is and
/// whether the contract exposes it as an entry point.
#[derive(Clone, Copy, PartialEq, Eq, Structural, Debug)]
pub struct ContractFunctionMeta {
    pub function_id: FuncId,
    pub is_entry_point: bool,
}

/// A contract declaration: its name, its functions, and the struct types it
/// marks as events.
pub struct Contract {
    pub name: String,
    pub functions: Vec<ContractFunctionMeta>,
    pub events: Vec<StructId>,
}

/// Mathematical value of a `Contract`.
#[verifier::ext_equal]
pub ghost struct ContractV {
    pub name: Seq<char>,
    pub functions: Seq<ContractFunctionMeta>,
    pub events: Seq<StructId>,
}

impl View for Contract {
    type V = ContractV;

    open spec fn view(&self) -> ContractV {
        ContractV { name: self.name@, functions: self.functions@, events: self.events@ }
    }
}

impl ContractV {
    /// Every identifier the contract mentions resolves in the interner, and
    /// every entry point carries a declared contract visibility.
    pub open spec fn wf(self, interner: DefInternerV) -> bool {
        &&& forall|k: int|
            0 <= k < self.functions.len() ==> (#[trigger] self.functions[k]).function_id.idx
                < interner.functions.len()
        &&& forall|k: int|
            0 <= k < self.functions.len() && (#[trigger] self.functions[k]).is_entry_point
                ==> interner.functions[self.functions[k].function_id.idx as int].modifiers.contract_function_type
                is Some
        &&& forall|e: int|
            0 <= e < self.events.len() ==> (#[trigger] self.events[e]).idx < interner.structs.len()
    }
}

/// What the front end resolved for one crate: the designated entry
/// function, if any, and the contracts declared in the crate.
pub struct CrateDefMap {
    pub main_function: Option<FuncId>,
    pub contracts: Vec<Contract>,
}

/// Mathematical value of a `CrateDefMap`.
#[verifier::ext_equal]
pub ghost struct CrateDefMapV {
    pub main_function: Option<FuncId>,
    pub contracts: Seq<ContractV>,
}

impl View for CrateDefMap {
    type V = CrateDefMapV;

    open spec fn view(&self) -> CrateDefMapV {
        CrateDefMapV {
            main_function: self.main_function,
            contracts: self.contracts@.map_values(|c: Contract| c@),
        }
    }
}

impl CrateDefMapV {
    /// Every identifier the definition map mentions resolves in the
    /// interner.
    pub open spec fn wf(self, interner: DefInternerV) -> bool {
        &&& (self.main_function matches Some(f) ==> f.idx < interner.functions.len())
        &&& forall|c: int|
            0 <= c < self.contracts.len() ==> (#[trigger] self.contracts[c]).wf(interner)
    }
}

/// Everything the definition-collection, name-resolution and type-checking
/// pass reports for one crate: its diagnostics, each anchored to a file,
/// and the resolved definitions to install.
pub struct CrateAnalysis {
    pub errors: Vec<(CustomDiagnostic, FileId)>,
    pub functions: Vec<FunctionRecord>,
    pub structs: Vec<StructRecord>,
    pub def_map: CrateDefMap,
}

/// Mathematical value of a `CrateAnalysis`.
#[verifier::ext_equal]
pub ghost struct CrateAnalysisV {
    pub errors: Seq<(CustomDiagnosticV, FileId)>,
    pub functions: Seq<FunctionRecordV>,
    pub structs: Seq<StructRecordV>,
    pub def_map: CrateDefMapV,
}

impl View for CrateAnalysis {
    type V = CrateAnalysisV;

    open spec fn view(&self) -> CrateAnalysisV {
        CrateAnalysisV {
            errors: self.errors@.map_values(|e: (CustomDiagnostic, FileId)| (e.0@, e.1)),
            functions: self.functions@.map_values(|f: FunctionRecord| f@),
            structs: self.structs@.map_values(|s: StructRecord| s@),
            def_map: self.def_map@,
        }
    }
}

/// The reserved name under which every crate depends on the standard
/// library.
pub open spec fn std_crate_name() -> Seq<char> {
    "std"@
}

/// The compilation session: file manager, crate graph, resolved-definition
/// interner, and the per-crate definition maps the check pass fills in.
/// The producer version string is injected at session creation so that
/// artifacts record which compiler build made them.
pub struct Context {
    pub file_manager: FileManager,
    pub crate_graph: CrateGraph,
    pub def_interner: DefInterner,
    pub def_maps: Vec<Option<CrateDefMap>>,
    pub noir_version: String,
}

/// Mathematical value of a `Context`.
#[verifier::ext_equal]
pub ghost struct ContextV {
    pub file_manager: Seq<Seq<char>>,
    pub crate_graph: CrateGraphV,
    pub def_interner: DefInternerV,
    pub def_maps: Seq<Option<CrateDefMapV>>,
    pub noir_version: Seq<char>,
}

impl View for Context {
    type V = ContextV;

    open spec fn view(&self) -> ContextV {
        ContextV {
            file_manager: self.file_manager@,
            crate_graph: self.crate_graph@,
            def_interner: self.def_interner@,
            def_maps: self.def_maps@.map_values(
                |m: Option<CrateDefMap>|
                    match m {
                        Some(dm) => Some(dm@),
                        None => None,
                    },
            ),
            noir_version: self.noir_version@,
        }
    }
}

impl ContextV {
    /// Crate `i` holds a dependency edge named `std` to the standard
    /// library crate.
    pub open spec fn has_stdlib_dep(self, i: int) -> bool {
        exists|s: int|
            self.crate_graph.valid(s) && (#[trigger] self.crate_graph.crates[s]).is_stdlib
                && self.crate_graph.has_dep(i, std_crate_name(), s)
    }

    /// The session invariant: the graph invariant holds, every crate
    /// outside the standard library is wired to it under the reserved
    /// name, the standard library depends on nothing, there is one
    /// definition-map slot per crate, and every installed definition map
    /// resolves inside the interner.
    pub open spec fn wf(self) -> bool {
        &&& self.crate_graph.wf()
        &&& forall|i: int| self.crate_graph.plain(i) ==> self.has_stdlib_dep(i)
        &&& forall|s: int|
            self.crate_graph.valid(s) && (#[trigger] self.crate_graph.crates[s]).is_stdlib
                ==> self.crate_graph.deps(s).len() == 0
        &&& self.def_maps.len() == self.crate_graph.crates.len()
        &&& forall|i: int|
            0 <= i < self.def_maps.len() ==> ((#[trigger] self.def_maps[i]) matches Some(dm)
                ==> dm.wf(self.def_interner))
    }

    /// The definition map installed for a crate, if the crate exists and
    /// the check pass ran over it.
    pub open spec fn def_map_of(self, crate_id: CrateId) -> Option<CrateDefMapV> {
        if 0 <= crate_id.idx < self.def_maps.len() {
            self.def_maps[crate_id.idx as int]
        } else {
            None
        }
    }

    /// The designated entry function of a crate, if the crate was checked
    /// and declares one.
    pub open spec fn main_function_of(self, crate_id: CrateId) -> Option<FuncId> {
        match self.def_map_of(crate_id) {
            Some(dm) => dm.main_function,
            None => None,
        }
    }

    /// The contracts a checked crate declares; an unchecked or unknown
    /// crate declares none.
    pub open spec fn contracts_of(self, crate_id: CrateId) -> Seq<ContractV> {
        match self.def_map_of(crate_id) {
            Some(dm) => dm.contracts,
            None => Seq::empty(),
        }
    }
}

impl Context {
    /// A fresh session that will stamp its artifacts with the given
    /// producer version.
    pub fn new(noir_version: String) -> (result: Context)
        ensures
            result@.wf(),
            result@.crate_graph.crates.len() == 0,
            result@.file_manager.len() == 0,
            result@.def_interner.functions.len() == 0,
            result@.def_interner.structs.len() == 0,
            result@.noir_version == noir_version@,
    {
        let result = Context {
            file_manager: FileManager::new(),
            crate_graph: CrateGraph::new(),
            def_interner: DefInterner { functions: Vec::new(), structs: Vec::new() },
            def_maps: Vec::new(),
            noir_version,
        };
        result
    }

    /// The standard library's crate identifier.
    ///
    /// The driver only asks once the standard library is registered, which
    /// `crate::prepare_crate` guarantees.
    pub fn stdlib_crate_id(&self) -> (result: CrateId)
        requires
            self@.crate_graph.has_stdlib(),
        ensures
            self@.crate_graph.valid(result.idx as int),
            self@.crate_graph.crates[result.idx as int].is_stdlib,
    {
        match self.crate_graph.stdlib_crate_id() {
            Some(c) => c,
            None => {
                proof {
                    assert(false);
                }
                CrateId { idx: 0 }
            },
        }
    }

    /// The designated entry function of a crate, if it was checked and
    /// declares one.
    pub fn get_main_function(&self, crate_id: &CrateId) -> (result: Option<FuncId>)
        ensures
            result == self@.main_function_of(*crate_id),
    {
        if crate_id.idx < self.def_maps.len() {
            match &self.def_maps[crate_id.idx] {
                Some(dm) => dm.main_function,
                None => None,
            }
        } else {
            None
        }
    }

    /// The contracts a checked crate declares.
    pub fn get_all_contracts(&self, crate_id: &CrateId) -> (result: Option<&Vec<Contract>>)
        ensures
            match result {
                Some(contracts) => contracts@.map_values(|c: Contract| c@) == self@.contracts_of(
                    *crate_id,
                ) && self@.def_map_of(*crate_id) is Some,
                None => self@.def_map_of(*crate_id) is None,
            },
    {
        if crate_id.idx < self.def_maps.len() {
            match &self.def_maps[crate_id.idx] {
                Some(dm) => Some(&dm.contracts),
                None => None,
            }
        } else {
            None
        }
    }

    /// The name of an interned function.
    pub fn function_name(&self, func_id: &FuncId) -> (result: &String)
        requires
            func_id.idx < self@.def_interner.functions.len(),
        ensures
            result@ == self@.def_interner.functions[func_id.idx as int].name,
    {
        &self.def_interner.functions[func_id.idx].name
    }

    /// The modifiers of an interned function.
    pub fn function_modifiers(&self, func_id: &FuncId) -> (result: FunctionModifiers)
        requires
            func_id.idx < self@.def_interner.functions.len(),
        ensures
            result == self@.def_interner.functions[func_id.idx as int].modifiers,
    {
        self.def_interner.functions[func_id.idx].modifiers
    }
}

} // verus!
