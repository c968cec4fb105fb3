//! The artifact a compiled contract amounts to: one independently lowered
//! function per entry point, the contract's event descriptors, and shared
//! debug information.

use vstd::prelude::*;

use crate::abi::{Abi, AbiV, ContractEvent, ContractEventV};
use crate::context::ContractVisibility;
use crate::debug::{DebugFile, DebugFileV, DebugInfo, file_map_views};
use crate::diagnostics::{FileDiagnostic, FileDiagnosticV, FileId, diag_views};

verus! {

/// How a contract function may be called: privately, publicly, or outside
/// the constraint system altogether.
#[derive(Clone, Copy, PartialEq, Eq, Structural, Debug)]
pub enum ContractFunctionType {
    Secret,
    Open,
    Unconstrained,
}

/// The tag a contract function compiles to, given its declared visibility
/// and whether it is unconstrained.
pub open spec fn spec_contract_function_type(
    kind: ContractVisibility,
    is_unconstrained: bool,
) -> ContractFunctionType {
    if is_unconstrained {
        ContractFunctionType::Unconstrained
    } else {
        match kind {
            ContractVisibility::Secret => ContractFunctionType::Secret,
            ContractVisibility::Open => ContractFunctionType::Open,
        }
    }
}

impl ContractFunctionType {
    /// Combine a declared visibility with the unconstrained flag:
    /// unconstrained functions are tagged as such regardless of
    /// visibility.
    pub fn new(kind: ContractVisibility, is_unconstrained: bool) -> (result: ContractFunctionType)
        ensures
            result == spec_contract_function_type(kind, is_unconstrained),
    {
        if is_unconstrained {
            ContractFunctionType::Unconstrained
        } else {
            match kind {
                ContractVisibility::Secret => ContractFunctionType::Secret,
                ContractVisibility::Open => ContractFunctionType::Open,
            }
        }
    }
}

/// One entry point of a compiled contract: its name, call tag, internal
/// flag, ABI, bytecode and debug information.
#[derive(Debug)]
pub struct ContractFunction {
    pub name: String,
    pub function_type: ContractFunctionType,
    pub is_internal: bool,
    pub abi: Abi,
    pub bytecode: Vec<u8>,
    pub debug: DebugInfo,
}

/// Mathematical value of a `ContractFunction`.
#[verifier::ext_equal]
pub ghost struct ContractFunctionV {
    pub name: Seq<char>,
    pub function_type: ContractFunctionType,
    pub is_internal: bool,
    pub abi: AbiV,
    pub bytecode: Seq<u8>,
    pub debug: Seq<FileId>,
}

impl View for ContractFunction {
    type V = ContractFunctionV;

    open spec fn view(&self) -> ContractFunctionV {
        ContractFunctionV {
            name: self.name@,
            function_type: self.function_type,
            is_internal: self.is_internal,
            abi: self.abi@,
            bytecode: self.bytecode@,
            debug: self.debug@,
        }
    }
}

/// The views of a list of contract functions, in order.
pub open spec fn contract_function_views(funcs: Seq<ContractFunction>) -> Seq<ContractFunctionV> {
    funcs.map_values(|f: ContractFunction| f@)
}

/// The views of a list of contract events, in order.
pub open spec fn event_views(events: Seq<ContractEvent>) -> Seq<ContractEventV> {
    events.map_values(|e: ContractEvent| e@)
}

/// A compiled contract: its name, one compiled function per entry point,
/// the events it declares, the file map of everything its functions touch,
/// the producer version, and the warnings found on the way.
#[derive(Debug)]
pub struct CompiledContract {
    pub noir_version: String,
    pub name: String,
    pub functions: Vec<ContractFunction>,
    pub events: Vec<ContractEvent>,
    pub file_map: Vec<DebugFile>,
    pub warnings: Vec<FileDiagnostic>,
}

/// Mathematical value of a `CompiledContract`.
#[verifier::ext_equal]
pub ghost struct CompiledContractV {
    pub noir_version: Seq<char>,
    pub name: Seq<char>,
    pub functions: Seq<ContractFunctionV>,
    pub events: Seq<ContractEventV>,
    pub file_map: Seq<DebugFileV>,
    pub warnings: Seq<FileDiagnosticV>,
}

impl View for CompiledContract {
    type V = CompiledContractV;

    open spec fn view(&self) -> CompiledContractV {
        CompiledContractV {
            noir_version: self.noir_version@,
            name: self.name@,
            functions: contract_function_views(self.functions@),
            events: event_views(self.events@),
            file_map: file_map_views(self.file_map@),
            warnings: diag_views(self.warnings@),
        }
    }
}

} // verus!
