//! Diagnostics produced while checking and compiling a crate.
//!
//! A diagnostic is a message classified as an error or a warning and, once
//! anchored to a file, a `FileDiagnostic`. Whether a collection of
//! diagnostics stops a compilation depends on the `deny_warnings` policy,
//! which `crate::has_errors` applies.

use vstd::prelude::*;

verus! {

/// Severity of a diagnostic: a hard error or a warning.
#[derive(Clone, Copy, PartialEq, Eq, Structural, Debug)]
pub enum DiagnosticKind {
    Error,
    Warning,
}

/// A message from one of the compiler passes, classified by severity.
#[derive(Debug)]
pub struct CustomDiagnostic {
    pub message: String,
    pub kind: DiagnosticKind,
}

/// Mathematical value of a `CustomDiagnostic`.
#[verifier::ext_equal]
pub ghost struct CustomDiagnosticV {
    pub message: Seq<char>,
    pub kind: DiagnosticKind,
}

impl CustomDiagnosticV {
    /// A diagnostic stops compilation unless it is a warning.
    pub open spec fn is_error(self) -> bool {
        self.kind == DiagnosticKind::Error
    }
}

impl View for CustomDiagnostic {
    type V = CustomDiagnosticV;

    open spec fn view(&self) -> CustomDiagnosticV {
        CustomDiagnosticV { message: self.message@, kind: self.kind }
    }
}

impl CustomDiagnostic {
    /// An error diagnostic carrying the given message.
    pub fn from_message(message: &str) -> (result: CustomDiagnostic)
        ensures
            result@ == (CustomDiagnosticV { message: message@, kind: DiagnosticKind::Error }),
    {
        CustomDiagnostic { message: message.to_owned(), kind: DiagnosticKind::Error }
    }

    /// True when the diagnostic is a hard error rather than a warning.
    pub fn is_error(&self) -> (result: bool)
        ensures
            result == self@.is_error(),
    {
        match self.kind {
            DiagnosticKind::Error => true,
            DiagnosticKind::Warning => false,
        }
    }

    /// Anchor this diagnostic to the file it was found in.
    pub fn in_file(self, file_id: FileId) -> (result: FileDiagnostic)
        ensures
            result@ == (FileDiagnosticV { file_id, diagnostic: self@ }),
    {
        FileDiagnostic { file_id, diagnostic: self }
    }

    /// An identical copy of the diagnostic.
    pub fn duplicate(&self) -> (result: CustomDiagnostic)
        ensures
            result@ == self@,
    {
        CustomDiagnostic { message: self.message.clone(), kind: self.kind }
    }
}

/// Identifier of a source file registered with the file manager.
#[derive(Clone, Copy, PartialEq, Eq, Structural, Debug)]
pub struct FileId {
    pub id: usize,
}

impl FileId {
    /// The placeholder file that diagnostics with no better anchor point at.
    pub open spec fn spec_unknown() -> FileId {
        FileId { id: 0 }
    }

    /// The placeholder file that diagnostics with no better anchor point at.
    pub fn unknown() -> (result: FileId)
        ensures
            result == FileId::spec_unknown(),
    {
        FileId { id: 0 }
    }
}

/// A diagnostic anchored to the file it concerns.
#[derive(Debug)]
pub struct FileDiagnostic {
    pub file_id: FileId,
    pub diagnostic: CustomDiagnostic,
}

/// Mathematical value of a `FileDiagnostic`.
#[verifier::ext_equal]
pub ghost struct FileDiagnosticV {
    pub file_id: FileId,
    pub diagnostic: CustomDiagnosticV,
}

impl View for FileDiagnostic {
    type V = FileDiagnosticV;

    open spec fn view(&self) -> FileDiagnosticV {
        FileDiagnosticV { file_id: self.file_id, diagnostic: self.diagnostic@ }
    }
}

impl FileDiagnostic {
    /// An identical copy of the anchored diagnostic.
    pub fn duplicate(&self) -> (result: FileDiagnostic)
        ensures
            result@ == self@,
    {
        FileDiagnostic { file_id: self.file_id, diagnostic: self.diagnostic.duplicate() }
    }
}

/// The views of a list of anchored diagnostics, in order.
pub open spec fn diag_views(diags: Seq<FileDiagnostic>) -> Seq<FileDiagnosticV> {
    diags.map_values(|d: FileDiagnostic| d@)
}

/// An identical copy of a list of anchored diagnostics.
pub fn duplicate_diagnostics(diags: &Vec<FileDiagnostic>) -> (result: Vec<FileDiagnostic>)
    ensures
        diag_views(result@) =~= diag_views(diags@),
{
    let mut out: Vec<FileDiagnostic> = Vec::new();
    let mut i: usize = 0;
    while i < diags.len()
        invariant
            i <= diags@.len(),
            out@.len() == i,
            forall|k: int| 0 <= k < i ==> out@[k]@ == diags@[k]@,
        decreases diags@.len() - i,
    {
        out.push(diags[i].duplicate());
        i = i + 1;
    }
    proof {
        assert(diag_views(out@) =~= diag_views(diags@));
    }
    out
}

/// A fatal failure reported by the circuit-lowering engine. It aborts the
/// compilation of the function it concerns and is never demoted to a warning.
#[derive(Debug)]
pub struct RuntimeError {
    pub message: String,
    pub file_id: FileId,
}

/// Mathematical value of a `RuntimeError`.
#[verifier::ext_equal]
pub ghost struct RuntimeErrorV {
    pub message: Seq<char>,
    pub file_id: FileId,
}

impl View for RuntimeError {
    type V = RuntimeErrorV;

    open spec fn view(&self) -> RuntimeErrorV {
        RuntimeErrorV { message: self.message@, file_id: self.file_id }
    }
}

impl RuntimeErrorV {
    /// The error-severity diagnostic a lowering failure turns into.
    pub open spec fn to_diagnostic(self) -> FileDiagnosticV {
        FileDiagnosticV {
            file_id: self.file_id,
            diagnostic: CustomDiagnosticV { message: self.message, kind: DiagnosticKind::Error },
        }
    }
}

impl RuntimeError {
    /// Turn a lowering failure into an error diagnostic anchored to its file.
    pub fn into_file_diagnostic(self) -> (result: FileDiagnostic)
        ensures
            result@ == self@.to_diagnostic(),
    {
        FileDiagnostic {
            file_id: self.file_id,
            diagnostic: CustomDiagnostic { message: self.message, kind: DiagnosticKind::Error },
        }
    }

    /// An identical copy of the error.
    pub fn duplicate(&self) -> (result: RuntimeError)
        ensures
            result@ == self@,
    {
        RuntimeError { message: self.message.clone(), file_id: self.file_id }
    }
}

} // verus!
