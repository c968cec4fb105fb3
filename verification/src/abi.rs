//! The application binary interface of a compiled function: its ordered
//! parameters and optional return type.
//!
//! The driver never inspects the meaning of a type here; it only carries
//! ABIs from the resolved function signatures into the artifacts it
//! assembles.

use vstd::prelude::*;

verus! {

/// Whether a parameter is part of the public inputs or kept private.
#[derive(Clone, Copy, PartialEq, Eq, Structural, Debug)]
pub enum AbiVisibility {
    Public,
    Private,
}

/// A type as the ABI describes it.
#[derive(Clone, Copy, PartialEq, Eq, Structural, Debug)]
pub enum AbiType {
    Field,
    Boolean,
    Integer { width: u32 },
}

/// One named, typed parameter of a function's ABI.
#[derive(Debug)]
pub struct AbiParameter {
    pub name: String,
    pub typ: AbiType,
    pub visibility: AbiVisibility,
}

/// Mathematical value of an `AbiParameter`.
#[verifier::ext_equal]
pub ghost struct AbiParameterV {
    pub name: Seq<char>,
    pub typ: AbiType,
    pub visibility: AbiVisibility,
}

impl View for AbiParameter {
    type V = AbiParameterV;

    open spec fn view(&self) -> AbiParameterV {
        AbiParameterV { name: self.name@, typ: self.typ, visibility: self.visibility }
    }
}

impl AbiParameter {
    /// An identical copy of the parameter.
    pub fn duplicate(&self) -> (result: AbiParameter)
        ensures
            result@ == self@,
    {
        AbiParameter { name: self.name.clone(), typ: self.typ, visibility: self.visibility }
    }
}

/// The views of a list of ABI parameters, in order.
pub open spec fn param_views(params: Seq<AbiParameter>) -> Seq<AbiParameterV> {
    params.map_values(|p: AbiParameter| p@)
}

/// An identical copy of a list of ABI parameters.
pub fn duplicate_parameters(params: &Vec<AbiParameter>) -> (result: Vec<AbiParameter>)
    ensures
        param_views(result@) =~= param_views(params@),
{
    let mut out: Vec<AbiParameter> = Vec::new();
    let mut i: usize = 0;
    while i < params.len()
        invariant
            i <= params@.len(),
            out@.len() == i,
            forall|k: int| 0 <= k < i ==> out@[k]@ == params@[k]@,
        decreases params@.len() - i,
    {
        out.push(params[i].duplicate());
        i = i + 1;
    }
    proof {
        assert(param_views(out@) =~= param_views(params@));
    }
    out
}

/// The ordered parameter list and optional return type of a function.
#[derive(Debug)]
pub struct Abi {
    pub parameters: Vec<AbiParameter>,
    pub return_type: Option<AbiType>,
}

/// Mathematical value of an `Abi`.
#[verifier::ext_equal]
pub ghost struct AbiV {
    pub parameters: Seq<AbiParameterV>,
    pub return_type: Option<AbiType>,
}

impl View for Abi {
    type V = AbiV;

    open spec fn view(&self) -> AbiV {
        AbiV { parameters: param_views(self.parameters@), return_type: self.return_type }
    }
}

impl Abi {
    /// An identical copy of the ABI.
    pub fn duplicate(&self) -> (result: Abi)
        ensures
            result@ =~= self@,
    {
        Abi { parameters: duplicate_parameters(&self.parameters), return_type: self.return_type }
    }
}

/// An event a contract may emit, derived from a struct type marked as an
/// event: the type's name and its field layout.
#[derive(Debug)]
pub struct ContractEvent {
    pub name: String,
    pub fields: Vec<AbiParameter>,
}

/// Mathematical value of a `ContractEvent`.
#[verifier::ext_equal]
pub ghost struct ContractEventV {
    pub name: Seq<char>,
    pub fields: Seq<AbiParameterV>,
}

impl View for ContractEvent {
    type V = ContractEventV;

    open spec fn view(&self) -> ContractEventV {
        ContractEventV { name: self.name@, fields: param_views(self.fields@) }
    }
}

} // verus!
