//! Front-end driver of a compiler that lowers a domain-specific language to
//! an arithmetic-circuit intermediate representation.
//!
//! The driver builds a crate graph, runs the check pass over a crate, and
//! then compiles either the designated `main` function of a program or the
//! entry points of a contract, caching lowered artifacts under a content
//! hash of the monomorphized function.

use vstd::prelude::*;

pub mod abi;
pub mod context;
pub mod contract;
pub mod debug;
pub mod diagnostics;
pub mod file_manager;
pub mod graph;
pub mod hash;
pub mod laws;
pub mod program;

use crate::abi::{AbiParameter, AbiType, duplicate_parameters, param_views};
use crate::abi::{ContractEvent, ContractEventV};
use crate::context::{Context, ContextV, ContractFunctionMeta, ContractV, ContractVisibility,
    CrateAnalysis, CrateAnalysisV, CrateDefMapV, DefInternerV, FuncId, FunctionRecordV, StructId,
    StructRecordV, std_crate_name};
use crate::contract::{CompiledContract, CompiledContractV, ContractFunction, ContractFunctionType,
    ContractFunctionV, contract_function_views, event_views, spec_contract_function_type};
use crate::debug::{DebugInfo, debug_views, filter_relevant_files, spec_relevant_files};
use crate::diagnostics::{CustomDiagnostic, CustomDiagnosticV, DiagnosticKind, FileDiagnostic,
    FileDiagnosticV, FileId, RuntimeError, RuntimeErrorV, diag_views, duplicate_diagnostics};
use crate::graph::{CrateId, lemma_no_deps_reaches_only_self};
use crate::hash::{fx_hash64, fxhash64_bytes};
use crate::program::{CompiledProgram, CompiledProgramV, duplicate_bytes};

verus! {

/// Options a compilation run is configured with.
#[derive(Clone, Copy, PartialEq, Eq, Structural, Debug)]
pub struct CompileOptions {
    /// Emit debug information for the intermediate SSA IR.
    pub show_ssa: bool,
    /// Emit debug information for the unconstrained-function IR.
    pub show_brillig: bool,
    /// Display the lowered circuit of each compiled function.
    pub print_acir: bool,
    /// Treat all warnings as errors.
    pub deny_warnings: bool,
    /// Suppress warnings.
    pub silence_warnings: bool,
}

/// The options every flag of which is off.
pub open spec fn spec_default_options() -> CompileOptions {
    CompileOptions {
        show_ssa: false,
        show_brillig: false,
        print_acir: false,
        deny_warnings: false,
        silence_warnings: false,
    }
}

impl Default for CompileOptions {
    /// Every flag off.
    fn default() -> (result: CompileOptions)
        ensures
            result == spec_default_options(),
    {
        CompileOptions {
            show_ssa: false,
            show_brillig: false,
            print_acir: false,
            deny_warnings: false,
            silence_warnings: false,
        }
    }
}

/// Diagnostics of which only warnings are expected.
pub type Warnings = Vec<FileDiagnostic>;

/// Diagnostics among which errors may appear.
pub type ErrorsAndWarnings = Vec<FileDiagnostic>;

/// A compilation artifact together with the warnings found on the way, or
/// the diagnostics that stopped the compilation.
pub type CompilationResult<T> = Result<(T, Warnings), ErrorsAndWarnings>;

/// Whether a list of diagnostics stops compilation: under `deny_warnings`
/// any diagnostic does; otherwise only a hard error does.
pub open spec fn spec_has_errors(diags: Seq<FileDiagnosticV>, deny_warnings: bool) -> bool {
    if deny_warnings {
        diags.len() > 0
    } else {
        exists|i: int| 0 <= i < diags.len() && (#[trigger] diags[i]).diagnostic.is_error()
    }
}

/// True when the diagnostics must stop compilation.
pub fn has_errors(errors: &Vec<FileDiagnostic>, deny_warnings: bool) -> (result: bool)
    ensures
        result == spec_has_errors(diag_views(errors@), deny_warnings),
{
    let ghost diags = diag_views(errors@);
    if deny_warnings {
        errors.len() > 0
    } else {
        let mut i: usize = 0;
        while i < errors.len()
            invariant
                diags == diag_views(errors@),
                i <= errors@.len(),
                forall|k: int| 0 <= k < i ==> !(#[trigger] diags[k]).diagnostic.is_error(),
            decreases errors@.len() - i,
        {
            if errors[i].diagnostic.is_error() {
                proof {
                    assert(diags[i as int].diagnostic.is_error());
                }
                return true;
            }
            i = i + 1;
        }
        proof {
            if spec_has_errors(diags, false) {
                let k = choose|k: int|
                    0 <= k < diags.len() && (#[trigger] diags[k]).diagnostic.is_error();
                assert(false);
            }
        }
        false
    }
}

/// The diagnostics the check pass reports, each anchored to its file.
pub open spec fn spec_collected_diagnostics(errors: Seq<(CustomDiagnosticV, FileId)>) -> Seq<
    FileDiagnosticV,
> {
    errors.map_values(
        |e: (CustomDiagnosticV, FileId)| FileDiagnosticV { file_id: e.1, diagnostic: e.0 },
    )
}

/// The session after the check pass installed a crate's resolved
/// definitions: the interner is extended and the crate's definition map is
/// recorded; nothing else changes.
pub open spec fn spec_install(ctx: ContextV, crate_id: CrateId, analysis: CrateAnalysisV) -> ContextV {
    ContextV {
        file_manager: ctx.file_manager,
        crate_graph: ctx.crate_graph,
        def_interner: ctx.def_interner.extended(analysis.functions, analysis.structs),
        def_maps: ctx.def_maps.update(crate_id.idx as int, Some(analysis.def_map)),
        noir_version: ctx.noir_version,
    }
}

/// A definition map that resolves in an interner still resolves after the
/// interner is extended.
proof fn lemma_def_map_wf_monotone(dm: CrateDefMapV, i1: DefInternerV, i2: DefInternerV)
    requires
        dm.wf(i1),
        i1.functions.len() <= i2.functions.len(),
        i1.structs.len() <= i2.structs.len(),
        forall|k: int| 0 <= k < i1.functions.len() ==> i2.functions[k] == i1.functions[k],
    ensures
        dm.wf(i2),
{
    assert forall|c: int| 0 <= c < dm.contracts.len() implies (#[trigger] dm.contracts[c]).wf(
        i2,
    ) by {
        let con = dm.contracts[c];
        assert(con.wf(i1));
        assert forall|k: int|
            0 <= k < con.functions.len() && (#[trigger] con.functions[k]).is_entry_point implies i2.functions[con.functions[k].function_id.idx as int].modifiers.contract_function_type
            is Some by {
            assert(con.functions[k].function_id.idx < i1.functions.len());
            assert(i2.functions[con.functions[k].function_id.idx as int]
                == i1.functions[con.functions[k].function_id.idx as int]);
        }
    }
}

/// Run the definition-collection, name-resolution and type-checking pass
/// over a crate: wrap each reported error into a file-anchored diagnostic,
/// install the resolved definitions, and decide pass or fail under the
/// `deny_warnings` policy.
///
/// On success the (possibly empty) list of warnings is returned; on failure
/// the full diagnostic list, which under a lenient policy would include the
/// warnings, so the caller can still render everything found.
pub fn check_crate(
    context: &mut Context,
    crate_id: CrateId,
    deny_warnings: bool,
    analysis: CrateAnalysis,
) -> (result: CompilationResult<()>)
    requires
        old(context)@.wf(),
        old(context)@.crate_graph.valid(crate_id.idx as int),
        analysis@.def_map.wf(
            old(context)@.def_interner.extended(analysis@.functions, analysis@.structs),
        ),
    ensures
        final(context)@.wf(),
        final(context)@ == spec_install(old(context)@, crate_id, analysis@),
        ({
            let diags = spec_collected_diagnostics(analysis@.errors);
            match result {
                Err(e) => spec_has_errors(diags, deny_warnings) && diag_views(e@) == diags,
                Ok(ok) => !spec_has_errors(diags, deny_warnings) && diag_views(ok.1@) == diags,
            }
        }),
{
    let ghost ctx0 = context@;
    let ghost analysisv = analysis@;
    let ghost diags = spec_collected_diagnostics(analysisv.errors);
    let CrateAnalysis { errors: reported, mut functions, mut structs, def_map } = analysis;
    let mut errors: Vec<FileDiagnostic> = Vec::new();
    let mut i: usize = 0;
    while i < reported.len()
        invariant
            analysisv.errors == reported@.map_values(|e: (CustomDiagnostic, FileId)| (e.0@, e.1)),
            diags == spec_collected_diagnostics(analysisv.errors),
            i <= reported@.len(),
            errors@.len() == i,
            forall|k: int| 0 <= k < i ==> (#[trigger] errors@[k])@ == diags[k],
        decreases reported@.len() - i,
    {
        let diagnostic = reported[i].0.duplicate();
        let file_id = reported[i].1;
        errors.push(diagnostic.in_file(file_id));
        i = i + 1;
    }
    proof {
        assert(diag_views(errors@) =~= diags);
    }
    context.def_interner.functions.append(&mut functions);
    context.def_interner.structs.append(&mut structs);
    let slot = &mut context.def_maps[crate_id.idx];
    *slot = Some(def_map);
    proof {
        assert(context.def_interner@.functions =~= ctx0.def_interner.functions
            + analysisv.functions);
        assert(context.def_interner@.structs =~= ctx0.def_interner.structs + analysisv.structs);
        assert(context.def_interner@ =~= ctx0.def_interner.extended(
            analysisv.functions,
            analysisv.structs,
        ));
        assert(context@.def_maps =~= ctx0.def_maps.update(
            crate_id.idx as int,
            Some(analysisv.def_map),
        ));
        assert(context@ =~= spec_install(ctx0, crate_id, analysisv));
        // the session invariant survives the installation
        assert forall|ii: int|
            0 <= ii < context@.def_maps.len() implies ((#[trigger] context@.def_maps[ii]) matches
        Some(dm) ==> dm.wf(context@.def_interner)) by {
            match context@.def_maps[ii] {
                Some(dm) => {
                    if ii == crate_id.idx as int {
                        assert(dm == analysisv.def_map);
                    } else {
                        assert(ctx0.def_maps[ii] == Some(dm));
                        assert(dm.wf(ctx0.def_interner));
                        lemma_def_map_wf_monotone(dm, ctx0.def_interner, context@.def_interner);
                    }
                },
                None => {},
            }
        }
        assert(context@.crate_graph == ctx0.crate_graph);
        assert forall|i: int| context@.crate_graph.plain(i) implies context@.has_stdlib_dep(i) by {
            assert(ctx0.crate_graph.plain(i));
            assert(ctx0.has_stdlib_dep(i));
            let s = choose|s: int|
                ctx0.crate_graph.valid(s) && (#[trigger] ctx0.crate_graph.crates[s]).is_stdlib
                    && ctx0.crate_graph.has_dep(i, std_crate_name(), s);
            assert(context@.crate_graph.crates[s].is_stdlib);
            assert(context@.crate_graph.has_dep(i, std_crate_name(), s));
        }
        assert(context@.wf());
    }
    if has_errors(&errors, deny_warnings) {
        Err(errors)
    } else {
        Ok(((), errors))
    }
}

/// Whether the cache may serve a compiled program: nothing forces
/// recompilation, no trace flag demands fresh lowering work, a cached
/// program was supplied, and its recorded hash equals the fresh one.
pub open spec fn spec_cache_hit(
    options: CompileOptions,
    force_compile: bool,
    cached: Option<CompiledProgramV>,
    hash: u64,
) -> bool {
    &&& !force_compile
    &&& !options.print_acir
    &&& !options.show_brillig
    &&& !options.show_ssa
    &&& (cached matches Some(p) && p.hash == hash)
}

/// The program assembled from the lowering engine's response for a
/// function, under the given content hash, or the fatal error the engine
/// reported. The artifact's file map keeps only the files its debug
/// information references.
pub open spec fn spec_lowered_program(
    ctx: ContextV,
    record: FunctionRecordV,
    hash: u64,
) -> Result<CompiledProgramV, RuntimeErrorV> {
    match record.lowering {
        Err(e) => Err(e),
        Ok(art) => Ok(
            CompiledProgramV {
                hash,
                circuit: art.circuit,
                abi: art.abi,
                debug: art.debug,
                file_map: spec_relevant_files(
                    ctx.file_manager,
                    seq![art.debug],
                    ctx.file_manager.len() as int,
                ),
                noir_version: ctx.noir_version,
                warnings: art.warnings,
            },
        ),
    }
}

/// What compiling an already-checked function yields: the cached program
/// when the cache may serve it, otherwise the freshly lowered artifact or
/// the engine's fatal error.
pub open spec fn spec_compile_no_check(
    ctx: ContextV,
    options: CompileOptions,
    main_function: FuncId,
    cached: Option<CompiledProgramV>,
    force_compile: bool,
) -> Result<CompiledProgramV, RuntimeErrorV>
    recommends
        main_function.idx < ctx.def_interner.functions.len(),
{
    let record = ctx.def_interner.functions[main_function.idx as int];
    let hash = fx_hash64(record.monomorphized);
    match cached {
        Some(p) => if spec_cache_hit(options, force_compile, cached, hash) {
            Ok(p)
        } else {
            spec_lowered_program(ctx, record, hash)
        },
        None => spec_lowered_program(ctx, record, hash),
    }
}

/// The view of an optional cached program.
pub open spec fn cached_view(cached: Option<CompiledProgram>) -> Option<CompiledProgramV> {
    match cached {
        Some(p) => Some(p@),
        None => None,
    }
}

/// The view of a compilation outcome.
pub open spec fn compile_result_view(result: Result<CompiledProgram, RuntimeError>) -> Result<
    CompiledProgramV,
    RuntimeErrorV,
> {
    match result {
        Ok(p) => Ok(p@),
        Err(e) => Err(e@),
    }
}

/// Compile one function of the current crate, which the check pass must
/// already have resolved.
///
/// The function's monomorphized form is hashed; if the supplied cached
/// program carries the same hash and nothing forces or traces compilation,
/// the cached program is returned unchanged. Otherwise the lowering
/// engine's response for the function becomes the artifact, or its fatal
/// error aborts this compilation.
pub fn compile_no_check(
    context: &Context,
    options: &CompileOptions,
    main_function: FuncId,
    cached_program: Option<CompiledProgram>,
    force_compile: bool,
) -> (result: Result<CompiledProgram, RuntimeError>)
    requires
        main_function.idx < context@.def_interner.functions.len(),
    ensures
        compile_result_view(result) == spec_compile_no_check(
            context@,
            *options,
            main_function,
            cached_view(cached_program),
            force_compile,
        ),
{
    let ghost ctxv = context@;
    let ghost recordv = ctxv.def_interner.functions[main_function.idx as int];
    let ghost cachedv = cached_view(cached_program);
    let record = &context.def_interner.functions[main_function.idx];
    proof {
        assert(record@ == recordv);
    }
    let hash = fxhash64_bytes(&record.monomorphized);
    // serve the cache only when neither the caller nor a trace flag forces
    // fresh lowering work
    if !(force_compile || options.print_acir || options.show_brillig || options.show_ssa) {
        match cached_program {
            Some(cached) => {
                if cached.hash == hash {
                    return Ok(cached);
                }
                proof {
                    assert(!spec_cache_hit(*options, force_compile, cachedv, hash));
                }
            },
            None => {},
        }
    }
    match &record.lowering {
        Err(e) => {
            proof {
                assert(recordv.lowering matches Err(ev) && ev == e@);
            }
            Err(e.duplicate())
        },
        Ok(art) => {
            let mut debug_infos: Vec<DebugInfo> = Vec::new();
            debug_infos.push(art.debug.duplicate());
            let file_map = filter_relevant_files(&debug_infos, &context.file_manager);
            proof {
                assert(recordv.lowering matches Ok(artv) && artv == art@);
                assert(debug_views(debug_infos@) =~= seq![art@.debug]);
            }
            let compiled = CompiledProgram {
                hash,
                circuit: duplicate_bytes(&art.circuit),
                abi: art.abi.duplicate(),
                debug: art.debug.duplicate(),
                file_map,
                noir_version: context.noir_version.clone(),
                warnings: duplicate_diagnostics(&art.warnings),
            };
            proof {
                let lowered = spec_lowered_program(ctxv, recordv, hash);
                assert(lowered matches Ok(_));
                assert(compiled@ =~= lowered->Ok_0);
            }
            Ok(compiled)
        },
    }
}

/// The diagnostic reported when a crate compiled as a program declares no
/// entry function. It is anchored to the placeholder file, not to a source
/// line.
pub open spec fn no_main_diagnostic() -> FileDiagnosticV {
    FileDiagnosticV {
        file_id: FileId::spec_unknown(),
        diagnostic: CustomDiagnosticV {
            message: "cannot compile crate into a program as it does not contain a `main` function"@,
            kind: DiagnosticKind::Error,
        },
    }
}

/// What compiling a crate's entry function yields, once the check pass has
/// installed `ctx2`: the check diagnostics when they stop compilation; a
/// terminal diagnostic when no entry function exists; the lowering
/// engine's fatal error as a diagnostic; under `deny_warnings` the
/// compilation warnings as a failure of their own; otherwise the program
/// with the check and compilation warnings merged.
pub open spec fn spec_compile_main(
    ctx2: ContextV,
    crate_id: CrateId,
    options: CompileOptions,
    cached: Option<CompiledProgramV>,
    force_compile: bool,
    diags: Seq<FileDiagnosticV>,
) -> Result<(CompiledProgramV, Seq<FileDiagnosticV>), Seq<FileDiagnosticV>> {
    if spec_has_errors(diags, options.deny_warnings) {
        Err(diags)
    } else {
        match ctx2.main_function_of(crate_id) {
            None => Err(seq![no_main_diagnostic()]),
            Some(main) => match spec_compile_no_check(ctx2, options, main, cached, force_compile) {
                Err(e) => Err(seq![e.to_diagnostic()]),
                Ok(program) => if options.deny_warnings && program.warnings.len() > 0 {
                    Err(program.warnings)
                } else {
                    Ok((program, diags + program.warnings))
                },
            },
        }
    }
}

/// The view of a program compilation outcome.
pub open spec fn program_result_view(result: CompilationResult<CompiledProgram>) -> Result<
    (CompiledProgramV, Seq<FileDiagnosticV>),
    Seq<FileDiagnosticV>,
> {
    match result {
        Ok(ok) => Ok((ok.0@, diag_views(ok.1@))),
        Err(e) => Err(diag_views(e@)),
    }
}

/// Run the check pass over the crate, then compile its designated entry
/// function if the check found nothing that stops compilation.
///
/// On success this returns the compiled program alongside any warnings
/// that were found; on failure, the non-empty list of diagnostics.
pub fn compile_main(
    context: &mut Context,
    crate_id: CrateId,
    options: &CompileOptions,
    cached_program: Option<CompiledProgram>,
    force_compile: bool,
    analysis: CrateAnalysis,
) -> (result: CompilationResult<CompiledProgram>)
    requires
        old(context)@.wf(),
        old(context)@.crate_graph.valid(crate_id.idx as int),
        analysis@.def_map.wf(
            old(context)@.def_interner.extended(analysis@.functions, analysis@.structs),
        ),
    ensures
        final(context)@.wf(),
        final(context)@ == spec_install(old(context)@, crate_id, analysis@),
        program_result_view(result) == spec_compile_main(
            spec_install(old(context)@, crate_id, analysis@),
            crate_id,
            *options,
            cached_view(cached_program),
            force_compile,
            spec_collected_diagnostics(analysis@.errors),
        ),
{
    let ghost diags = spec_collected_diagnostics(analysis@.errors);
    let ghost ctx2v = spec_install(context@, crate_id, analysis@);
    let warnings = match check_crate(context, crate_id, options.deny_warnings, analysis) {
        Ok(ok) => ok.1,
        Err(errors) => {
            return Err(errors);
        },
    };
    let main = match context.get_main_function(&crate_id) {
        Some(m) => m,
        None => {
            let err = CustomDiagnostic::from_message(
                "cannot compile crate into a program as it does not contain a `main` function",
            ).in_file(FileId::unknown());
            let mut out: Vec<FileDiagnostic> = Vec::new();
            out.push(err);
            proof {
                assert(diag_views(out@) =~= seq![no_main_diagnostic()]);
            }
            return Err(out);
        },
    };
    proof {
        assert(context@.def_maps[crate_id.idx as int] == Some(analysis@.def_map));
        assert(analysis@.def_map.wf(context@.def_interner));
        assert(main.idx < context@.def_interner.functions.len());
    }
    let compiled_program = match compile_no_check(
        context,
        options,
        main,
        cached_program,
        force_compile,
    ) {
        Ok(p) => p,
        Err(e) => {
            let ghost ev = e@;
            let mut out: Vec<FileDiagnostic> = Vec::new();
            out.push(e.into_file_diagnostic());
            proof {
                assert(diag_views(out@) =~= seq![ev.to_diagnostic()]);
            }
            return Err(out);
        },
    };
    let mut warnings = warnings;
    let mut compilation_warnings = duplicate_diagnostics(&compiled_program.warnings);
    if options.deny_warnings && compilation_warnings.len() > 0 {
        proof {
            assert(diag_views(compilation_warnings@) =~= compiled_program@.warnings);
        }
        return Err(compilation_warnings);
    }
    proof {
        assert(diag_views(compilation_warnings@) =~= compiled_program@.warnings);
    }
    warnings.append(&mut compilation_warnings);
    proof {
        assert(diag_views(warnings@) =~= diags + compiled_program@.warnings);
    }
    Ok((compiled_program, warnings))
}

/// The ABI of the crate's designated entry function, from its resolved
/// signature, or nothing when the crate was not checked or declares no
/// entry function.
pub fn compute_function_abi(context: &Context, crate_id: &CrateId) -> (result: Option<
    (Vec<AbiParameter>, Option<AbiType>),
>)
    requires
        context@.wf(),
    ensures
        match result {
            Some(r) => context@.main_function_of(*crate_id) matches Some(main)
                && main.idx < context@.def_interner.functions.len() && param_views(r.0@)
                == context@.def_interner.functions[main.idx as int].abi.parameters && r.1
                == context@.def_interner.functions[main.idx as int].abi.return_type,
            None => context@.main_function_of(*crate_id) is None,
        },
{
    let main_function = match context.get_main_function(crate_id) {
        Some(m) => m,
        None => {
            return None;
        },
    };
    proof {
        assert(context@.def_map_of(*crate_id) matches Some(dm) && dm.wf(context@.def_interner));
        assert(main_function.idx < context@.def_interner.functions.len());
    }
    let record = &context.def_interner.functions[main_function.idx];
    Some((duplicate_parameters(&record.abi.parameters), record.abi.return_type))
}

/// The contract function assembled for a successfully lowered entry point:
/// its interned name, the tag its visibility and constraint mode combine
/// to, its internal flag, and the artifact the engine produced.
pub open spec fn spec_contract_function(ctx: ContextV, meta: ContractFunctionMeta) -> ContractFunctionV
    recommends
        meta.function_id.idx < ctx.def_interner.functions.len(),
{
    let record = ctx.def_interner.functions[meta.function_id.idx as int];
    let art = record.lowering->Ok_0;
    ContractFunctionV {
        name: record.name,
        function_type: spec_contract_function_type(
            record.modifiers.contract_function_type->0,
            record.modifiers.is_unconstrained,
        ),
        is_internal: match record.modifiers.is_internal {
            Some(b) => b,
            None => false,
        },
        abi: art.abi,
        bytecode: art.circuit,
        debug: art.debug,
    }
}

/// Walking the first `n` functions a contract declares, in order:
/// a function that is not an entry point contributes nothing; an entry
/// point whose lowering fails contributes its fatal error as a diagnostic;
/// a successful one contributes its compiled function and its warnings.
pub open spec fn spec_contract_fold(ctx: ContextV, funcs: Seq<ContractFunctionMeta>, n: int) -> (
    Seq<ContractFunctionV>,
    Seq<FileDiagnosticV>,
    Seq<FileDiagnosticV>,
)
    decreases n,
{
    if n <= 0 {
        (Seq::empty(), Seq::empty(), Seq::empty())
    } else {
        let prefix = spec_contract_fold(ctx, funcs, n - 1);
        let meta = funcs[n - 1];
        if !meta.is_entry_point {
            prefix
        } else {
            match ctx.def_interner.functions[meta.function_id.idx as int].lowering {
                Err(e) => (prefix.0, prefix.1.push(e.to_diagnostic()), prefix.2),
                Ok(art) => (
                    prefix.0.push(spec_contract_function(ctx, meta)),
                    prefix.1,
                    prefix.2 + art.warnings,
                ),
            }
        }
    }
}

/// The event descriptor a struct type marked as an event turns into.
pub open spec fn spec_event_of(s: StructRecordV) -> ContractEventV {
    ContractEventV { name: s.name, fields: s.fields }
}

/// The event descriptors of a contract's declared event types, in order.
pub open spec fn spec_contract_events(ctx: ContextV, events: Seq<StructId>) -> Seq<ContractEventV> {
    events.map_values(|sid: StructId| spec_event_of(ctx.def_interner.structs[sid.idx as int]))
}

/// What compiling all functions of one contract yields: each entry point
/// is compiled independently and a failure of one does not prevent
/// attempting the rest; if any failed, all their errors are reported
/// together and even the successful functions are discarded; otherwise the
/// assembled contract, whose file map covers what all its functions touch.
pub open spec fn spec_compile_contract_inner(ctx: ContextV, con: ContractV) -> Result<
    CompiledContractV,
    Seq<FileDiagnosticV>,
> {
    let fold = spec_contract_fold(ctx, con.functions, con.functions.len() as int);
    if fold.1.len() == 0 {
        Ok(
            CompiledContractV {
                noir_version: ctx.noir_version,
                name: con.name,
                functions: fold.0,
                events: spec_contract_events(ctx, con.events),
                file_map: spec_relevant_files(
                    ctx.file_manager,
                    fold.0.map_values(|f: ContractFunctionV| f.debug),
                    ctx.file_manager.len() as int,
                ),
                warnings: fold.2,
            },
        )
    } else {
        Err(fold.1)
    }
}

/// The view of a contract-assembly outcome.
pub open spec fn contract_inner_result_view(result: Result<CompiledContract, ErrorsAndWarnings>) -> Result<
    CompiledContractV,
    Seq<FileDiagnosticV>,
> {
    match result {
        Ok(c) => Ok(c@),
        Err(e) => Err(diag_views(e@)),
    }
}

/// Every diagnostic the contract walk accumulates is a hard error.
proof fn lemma_fold_errors_are_errors(ctx: ContextV, funcs: Seq<ContractFunctionMeta>, n: int)
    ensures
        forall|k: int|
            0 <= k < spec_contract_fold(ctx, funcs, n).1.len() ==> (#[trigger] spec_contract_fold(
                ctx,
                funcs,
                n,
            ).1[k]).diagnostic.is_error(),
    decreases n,
{
    if n > 0 {
        lemma_fold_errors_are_errors(ctx, funcs, n - 1);
    }
}

/// Compile all of the functions associated with one contract, skipping
/// those that are not entry points; accumulate per-function failures and
/// report them together at the end rather than stopping at the first.
pub fn compile_contract_inner(
    context: &Context,
    con: &crate::context::Contract,
    options: &CompileOptions,
) -> (result: Result<CompiledContract, ErrorsAndWarnings>)
    requires
        con@.wf(context@.def_interner),
    ensures
        contract_inner_result_view(result) == spec_compile_contract_inner(context@, con@),
{
    let ghost ctxv = context@;
    let ghost fnsv = con@.functions;
    let mut functions: Vec<ContractFunction> = Vec::new();
    let mut errors: Vec<FileDiagnostic> = Vec::new();
    let mut warnings: Vec<FileDiagnostic> = Vec::new();
    let mut i: usize = 0;
    while i < con.functions.len()
        invariant
            ctxv == context@,
            fnsv == con@.functions,
            con@.wf(context@.def_interner),
            i <= fnsv.len(),
            contract_function_views(functions@) == spec_contract_fold(ctxv, fnsv, i as int).0,
            diag_views(errors@) == spec_contract_fold(ctxv, fnsv, i as int).1,
            diag_views(warnings@) == spec_contract_fold(ctxv, fnsv, i as int).2,
        decreases fnsv.len() - i,
    {
        let meta = con.functions[i];
        let ghost prev = spec_contract_fold(ctxv, fnsv, i as int);
        let ghost step = spec_contract_fold(ctxv, fnsv, i + 1);
        if meta.is_entry_point {
            proof {
                assert(meta.function_id.idx < ctxv.def_interner.functions.len());
            }
            // contract functions are never served from a cache
            match compile_no_check(context, options, meta.function_id, None, true) {
                Err(new_error) => {
                    let ghost ev = new_error@;
                    errors.push(new_error.into_file_diagnostic());
                    proof {
                        assert(diag_views(errors@) =~= prev.1.push(ev.to_diagnostic()));
                    }
                },
                Ok(function) => {
                    let CompiledProgram {
                        hash: _,
                        circuit,
                        abi,
                        debug,
                        file_map: _,
                        noir_version: _,
                        warnings: mut function_warnings,
                    } = function;
                    proof {
                        assert(diag_views(warnings@ + function_warnings@) =~= prev.2 + diag_views(
                            function_warnings@,
                        ));
                    }
                    warnings.append(&mut function_warnings);
                    let modifiers = context.function_modifiers(&meta.function_id);
                    let func_type = match modifiers.contract_function_type {
                        Some(t) => t,
                        None => {
                            proof {
                                assert(false);
                            }
                            ContractVisibility::Secret
                        },
                    };
                    let function_type = ContractFunctionType::new(
                        func_type,
                        modifiers.is_unconstrained,
                    );
                    let name = context.function_name(&meta.function_id).clone();
                    let compiled = ContractFunction {
                        name,
                        function_type,
                        is_internal: match modifiers.is_internal {
                            Some(b) => b,
                            None => false,
                        },
                        abi,
                        bytecode: circuit,
                        debug,
                    };
                    proof {
                        assert(compiled@ =~= spec_contract_function(ctxv, meta));
                    }
                    functions.push(compiled);
                    proof {
                        assert(contract_function_views(functions@) =~= prev.0.push(
                            spec_contract_function(ctxv, meta),
                        ));
                    }
                },
            }
        }
        i = i + 1;
    }
    let ghost fold = spec_contract_fold(ctxv, fnsv, fnsv.len() as int);
    if errors.len() == 0 {
        let mut debug_infos: Vec<DebugInfo> = Vec::new();
        let mut j: usize = 0;
        while j < functions.len()
            invariant
                j <= functions@.len(),
                contract_function_views(functions@) == fold.0,
                debug_infos@.len() == j,
                forall|k: int| 0 <= k < j ==> (#[trigger] debug_infos@[k])@ == fold.0[k].debug,
            decreases functions@.len() - j,
        {
            debug_infos.push(functions[j].debug.duplicate());
            j = j + 1;
        }
        proof {
            assert(debug_views(debug_infos@) =~= fold.0.map_values(
                |f: ContractFunctionV| f.debug,
            ));
        }
        let file_map = filter_relevant_files(&debug_infos, &context.file_manager);
        let mut events: Vec<ContractEvent> = Vec::new();
        let mut e: usize = 0;
        while e < con.events.len()
            invariant
                ctxv == context@,
                con@.wf(context@.def_interner),
                e <= con@.events.len(),
                events@.len() == e,
                forall|k: int|
                    0 <= k < e ==> (#[trigger] events@[k])@ == spec_event_of(
                        ctxv.def_interner.structs[con@.events[k].idx as int],
                    ),
            decreases con@.events.len() - e,
        {
            let struct_id = con.events[e];
            proof {
                assert(con@.events[e as int].idx < ctxv.def_interner.structs.len());
            }
            let typ = &context.def_interner.structs[struct_id.idx];
            events.push(
                ContractEvent { name: typ.name.clone(), fields: duplicate_parameters(&typ.fields) },
            );
            e = e + 1;
        }
        proof {
            assert(event_views(events@) =~= spec_contract_events(ctxv, con@.events));
        }
        let compiled = CompiledContract {
            noir_version: context.noir_version.clone(),
            name: con.name.clone(),
            functions,
            events,
            file_map,
            warnings,
        };
        proof {
            let inner = spec_compile_contract_inner(ctxv, con@);
            assert(inner matches Ok(_));
            assert(compiled@ =~= inner->Ok_0);
        }
        Ok(compiled)
    } else {
        Err(errors)
    }
}

/// The diagnostic reported when a crate compiled as a contract declares
/// none.
pub open spec fn no_contracts_diagnostic() -> FileDiagnosticV {
    FileDiagnosticV {
        file_id: FileId::spec_unknown(),
        diagnostic: CustomDiagnosticV {
            message: "cannot compile crate into a contract as it does not contain any contracts"@,
            kind: DiagnosticKind::Error,
        },
    }
}

/// The diagnostic reported when a crate declares more than one contract.
pub open spec fn multiple_contracts_diagnostic() -> FileDiagnosticV {
    FileDiagnosticV {
        file_id: FileId::spec_unknown(),
        diagnostic: CustomDiagnosticV {
            message: "Packages are limited to a single contract"@,
            kind: DiagnosticKind::Error,
        },
    }
}

/// What compiling a crate's contract yields, once the check pass has
/// installed `ctx2`: the check diagnostics when they stop compilation; a
/// terminal diagnostic when the crate declares no contract, or more than
/// one; otherwise the assembled contract, or every per-function failure
/// merged with the check warnings.
pub open spec fn spec_compile_contract(
    ctx2: ContextV,
    crate_id: CrateId,
    options: CompileOptions,
    diags: Seq<FileDiagnosticV>,
) -> Result<(CompiledContractV, Seq<FileDiagnosticV>), Seq<FileDiagnosticV>> {
    if spec_has_errors(diags, options.deny_warnings) {
        Err(diags)
    } else {
        let contracts = ctx2.contracts_of(crate_id);
        if contracts.len() > 1 {
            Err(seq![multiple_contracts_diagnostic()])
        } else if contracts.len() == 0 {
            Err(seq![no_contracts_diagnostic()])
        } else {
            match spec_compile_contract_inner(ctx2, contracts[0]) {
                Ok(c) => Ok((c, diags)),
                Err(es) => Err(diags + es),
            }
        }
    }
}

/// The view of a contract compilation outcome.
pub open spec fn contract_result_view(result: CompilationResult<CompiledContract>) -> Result<
    (CompiledContractV, Seq<FileDiagnosticV>),
    Seq<FileDiagnosticV>,
> {
    match result {
        Ok(ok) => Ok((ok.0@, diag_views(ok.1@))),
        Err(e) => Err(diag_views(e@)),
    }
}

/// Run the check pass over the crate, then compile its one contract if the
/// check found nothing that stops compilation. Exactly one contract per
/// package is permitted.
pub fn compile_contract(
    context: &mut Context,
    crate_id: CrateId,
    options: &CompileOptions,
    analysis: CrateAnalysis,
) -> (result: CompilationResult<CompiledContract>)
    requires
        old(context)@.wf(),
        old(context)@.crate_graph.valid(crate_id.idx as int),
        analysis@.def_map.wf(
            old(context)@.def_interner.extended(analysis@.functions, analysis@.structs),
        ),
    ensures
        final(context)@.wf(),
        final(context)@ == spec_install(old(context)@, crate_id, analysis@),
        contract_result_view(result) == spec_compile_contract(
            spec_install(old(context)@, crate_id, analysis@),
            crate_id,
            *options,
            spec_collected_diagnostics(analysis@.errors),
        ),
{
    let ghost diags = spec_collected_diagnostics(analysis@.errors);
    let warnings = match check_crate(context, crate_id, options.deny_warnings, analysis) {
        Ok(ok) => ok.1,
        Err(errors) => {
            return Err(errors);
        },
    };
    let ghost ctx2v = context@;
    let contracts = match context.get_all_contracts(&crate_id) {
        Some(v) => v,
        None => {
            proof {
                assert(false);
            }
            return Err(Vec::new());
        },
    };
    if contracts.len() > 1 {
        let err = CustomDiagnostic::from_message("Packages are limited to a single contract")
            .in_file(FileId::unknown());
        let mut out: Vec<FileDiagnostic> = Vec::new();
        out.push(err);
        proof {
            assert(diag_views(out@) =~= seq![multiple_contracts_diagnostic()]);
        }
        return Err(out);
    } else if contracts.len() == 0 {
        let err = CustomDiagnostic::from_message(
            "cannot compile crate into a contract as it does not contain any contracts",
        ).in_file(FileId::unknown());
        let mut out: Vec<FileDiagnostic> = Vec::new();
        out.push(err);
        proof {
            assert(diag_views(out@) =~= seq![no_contracts_diagnostic()]);
        }
        return Err(out);
    }
    let con = &contracts[0];
    proof {
        assert(context@.def_map_of(crate_id) matches Some(dm) && dm.wf(context@.def_interner));
        assert(con@ == ctx2v.contracts_of(crate_id)[0]);
        assert(con@.wf(context@.def_interner));
    }
    let mut errors = warnings;
    match compile_contract_inner(context, con, options) {
        Ok(compiled_contract) => {
            proof {
                // the accumulator holds only the check warnings, which did
                // not stop the check, so they do not stop compilation here
                assert(!spec_has_errors(diag_views(errors@), options.deny_warnings));
            }
            Ok((compiled_contract, errors))
        },
        Err(mut more_errors) => {
            let ghost es = diag_views(more_errors@);
            proof {
                let fold = spec_contract_fold(
                    ctx2v,
                    con@.functions,
                    con@.functions.len() as int,
                );
                assert(es == fold.1 && es.len() > 0);
                lemma_fold_errors_are_errors(ctx2v, con@.functions, con@.functions.len() as int);
                assert(es[0].diagnostic.is_error());
            }
            errors.append(&mut more_errors);
            proof {
                assert(diag_views(errors@) =~= diags + es);
                assert(diag_views(errors@)[diags.len() as int].diagnostic.is_error());
                assert(spec_has_errors(diag_views(errors@), options.deny_warnings));
            }
            Err(errors)
        },
    }
}

/// A crate wired to the standard library stays wired when crates are
/// appended and dependency lists only grow.
proof fn lemma_wiring_transfer(c0: ContextV, c1: ContextV, i: int)
    requires
        c0.has_stdlib_dep(i),
        c1.crate_graph.crates.len() >= c0.crate_graph.crates.len(),
        forall|k: int|
            c0.crate_graph.valid(k) ==> (#[trigger] c1.crate_graph.crates[k]).is_stdlib
                == c0.crate_graph.crates[k].is_stdlib,
        forall|k: int, j: int|
            c0.crate_graph.valid(k) && 0 <= j < c0.crate_graph.deps(k).len()
                ==> (#[trigger] c1.crate_graph.deps(k)[j]) == c0.crate_graph.deps(k)[j]
                && c1.crate_graph.deps(k).len() >= c0.crate_graph.deps(k).len(),
    ensures
        c1.has_stdlib_dep(i),
{
    let st = choose|st: int|
        c0.crate_graph.valid(st) && (#[trigger] c0.crate_graph.crates[st]).is_stdlib
            && c0.crate_graph.has_dep(i, std_crate_name(), st);
    let j = choose|j: int|
        0 <= j < c0.crate_graph.deps(i).len() && (#[trigger] c0.crate_graph.deps(i)[j]).name
            == std_crate_name() && c0.crate_graph.deps(i)[j].crate_id.idx == st;
    assert(c1.crate_graph.deps(i)[j] == c0.crate_graph.deps(i)[j]);
    assert(c1.crate_graph.has_dep(i, std_crate_name(), st));
    assert(c1.crate_graph.crates[st].is_stdlib);
}

/// Register the file at the given path as the root of a new crate, wire
/// the crate's implicit dependency on the standard library (registering
/// the standard library itself first if need be), and return the crate's
/// identifier.
pub fn prepare_crate(context: &mut Context, file_name: String) -> (result: CrateId)
    requires
        old(context)@.wf(),
    ensures
        final(context)@.wf(),
        final(context)@.crate_graph.has_stdlib(),
        final(context)@.crate_graph.plain(result.idx as int),
        final(context)@.crate_graph.crates[result.idx as int].root_file_id.id < final(context)@.file_manager.len(),
        final(context)@.file_manager[final(context)@.crate_graph.crates[result.idx as int].root_file_id.id as int] == file_name@,
        final(context)@.has_stdlib_dep(result.idx as int),
        final(context)@.def_interner == old(context)@.def_interner,
        final(context)@.noir_version == old(context)@.noir_version,
        forall|i: int|
            0 <= i < old(context)@.def_maps.len() ==> final(context)@.def_maps[i] == old(context)@.def_maps[i],
        forall|i: int|
            0 <= i < old(context)@.file_manager.len() ==> final(context)@.file_manager[i] == old(context)@.file_manager[i],
{
    let ghost ctx0 = context@;
    let std_file_id = context.file_manager.add_file("std/lib.nr".to_owned());
    let std_crate_id = context.crate_graph.add_stdlib(std_file_id);
    let ghost ctxa = context@;
    let root_file_id = context.file_manager.add_file(file_name);
    let root_crate_id = context.crate_graph.add_crate_root(root_file_id);
    let ghost ctx1 = context@;
    proof {
        assert forall|k: int| ctx0.crate_graph.valid(k) implies (
        #[trigger] ctx1.crate_graph.crates[k]) == ctx0.crate_graph.crates[k] by {
            assert(ctxa.crate_graph.crates[k] == ctx0.crate_graph.crates[k]);
            assert(ctx1.crate_graph.crates[k] == ctxa.crate_graph.crates[k]);
        }
    }
    while context.def_maps.len() < context.crate_graph.number_of_crates()
        invariant
            context@.crate_graph == ctx1.crate_graph,
            context@.file_manager == ctx1.file_manager,
            context@.def_interner == ctx1.def_interner,
            context@.noir_version == ctx1.noir_version,
            ctx0.def_maps.len() <= context@.def_maps.len(),
            context@.def_maps.len() <= context@.crate_graph.crates.len(),
            forall|i: int|
                0 <= i < ctx0.def_maps.len() ==> context@.def_maps[i] == ctx0.def_maps[i],
            forall|i: int|
                ctx0.def_maps.len() <= i < context@.def_maps.len() ==> context@.def_maps[i]
                    is None,
        decreases context.crate_graph.crates.len() - context.def_maps.len(),
    {
        let ghost before = context@.def_maps;
        context.def_maps.push(None);
        proof {
            assert(context@.def_maps =~= before.push(None));
        }
    }
    proof {
        assert(context@.def_maps.len() == context@.crate_graph.crates.len());
    }
    let ghost ctx2 = context@;
    match context.crate_graph.add_dep(root_crate_id, "std".to_owned(), std_crate_id) {
        Ok(_) => {},
        Err(_) => {
            proof {
                // the standard library depends on nothing, so it reaches
                // only itself, and the root crate is not the standard
                // library: no cycle can arise
                assert(ctx2.crate_graph.deps(std_crate_id.idx as int).len() == 0);
                if ctx2.crate_graph.reaches(std_crate_id.idx as int, root_crate_id.idx as int) {
                    lemma_no_deps_reaches_only_self(
                        ctx2.crate_graph,
                        std_crate_id.idx as int,
                        root_crate_id.idx as int,
                    );
                    assert(false);
                }
                assert(false);
            }
        },
    }
    proof {
        assert forall|i: int, j: int|
            ctx2.crate_graph.valid(i) && 0 <= j < ctx2.crate_graph.deps(i).len() implies (
        #[trigger] context@.crate_graph.deps(i)[j]) == ctx2.crate_graph.deps(i)[j]
            && context@.crate_graph.deps(i).len() >= ctx2.crate_graph.deps(i).len() by {
            if i != root_crate_id.idx as int {
                assert(context@.crate_graph.crates[i] == ctx2.crate_graph.crates[i]);
            } else if ctx2.crate_graph.has_dep(
                root_crate_id.idx as int,
                "std"@,
                std_crate_id.idx as int,
            ) {
                assert(context@.crate_graph == ctx2.crate_graph);
            } else {
                assert(context@.crate_graph.deps(i) == ctx2.crate_graph.deps(i).push(
                    crate::graph::DependencyV { name: "std"@, crate_id: std_crate_id },
                ));
            }
        }
        assert(context@.crate_graph.has_dep(
            root_crate_id.idx as int,
            "std"@,
            std_crate_id.idx as int,
        ));
        assert(context@.crate_graph.crates[std_crate_id.idx as int].is_stdlib);
        assert(context@.has_stdlib_dep(root_crate_id.idx as int));
        assert forall|i: int| context@.crate_graph.plain(i) implies context@.has_stdlib_dep(i) by {
            if i < ctx0.crate_graph.crates.len() {
                // a crate of the old session: its wiring transfers
                assert(ctx1.crate_graph.crates[i] == ctx0.crate_graph.crates[i]);
                assert(ctx0.crate_graph.plain(i));
                assert(ctx0.has_stdlib_dep(i));
                assert forall|k: int| ctx0.crate_graph.valid(k) implies (
                #[trigger] context@.crate_graph.crates[k]).is_stdlib
                    == ctx0.crate_graph.crates[k].is_stdlib by {
                    assert(ctx1.crate_graph.crates[k] == ctx0.crate_graph.crates[k]);
                }
                assert forall|k: int, j: int|
                    ctx0.crate_graph.valid(k) && 0 <= j < ctx0.crate_graph.deps(k).len() implies (
                #[trigger] context@.crate_graph.deps(k)[j]) == ctx0.crate_graph.deps(k)[j]
                    && context@.crate_graph.deps(k).len() >= ctx0.crate_graph.deps(k).len() by {
                    assert(ctx1.crate_graph.crates[k] == ctx0.crate_graph.crates[k]);
                    assert(ctx2.crate_graph.deps(k)[j] == ctx0.crate_graph.deps(k)[j]);
                }
                lemma_wiring_transfer(ctx0, context@, i);
            } else if i != root_crate_id.idx as int {
                // the only other crate this call may register is the
                // standard library itself, which is not plain
                assert(context@.crate_graph.crates[i].is_stdlib);
                assert(false);
            }
        }
        assert forall|ii: int|
            0 <= ii < context@.def_maps.len() implies ((#[trigger] context@.def_maps[ii]) matches
        Some(dm) ==> dm.wf(context@.def_interner)) by {
            match context@.def_maps[ii] {
                Some(dm) => {
                    assert(ii < ctx0.def_maps.len());
                    assert(ctx0.def_maps[ii] == Some(dm));
                },
                None => {},
            }
        }
        assert(context@.wf());
    }
    root_crate_id
}

/// Register the file at the given path as a dependency crate and wire its
/// implicit dependency on the standard library, which must already be
/// registered.
pub fn prepare_dependency(context: &mut Context, file_name: String) -> (result: CrateId)
    requires
        old(context)@.wf(),
        old(context)@.crate_graph.has_stdlib(),
    ensures
        final(context)@.wf(),
        final(context)@.crate_graph.has_stdlib(),
        final(context)@.crate_graph.plain(result.idx as int),
        final(context)@.has_stdlib_dep(result.idx as int),
        final(context)@.def_interner == old(context)@.def_interner,
        final(context)@.noir_version == old(context)@.noir_version,
        forall|i: int|
            0 <= i < old(context)@.def_maps.len() ==> final(context)@.def_maps[i] == old(context)@.def_maps[i],
{
    let ghost ctx0 = context@;
    let root_file_id = context.file_manager.add_file(file_name);
    let crate_id = context.crate_graph.add_crate(root_file_id);
    let ghost ctx1 = context@;
    while context.def_maps.len() < context.crate_graph.number_of_crates()
        invariant
            context@.crate_graph == ctx1.crate_graph,
            context@.file_manager == ctx1.file_manager,
            context@.def_interner == ctx1.def_interner,
            context@.noir_version == ctx1.noir_version,
            ctx0.def_maps.len() <= context@.def_maps.len(),
            context@.def_maps.len() <= context@.crate_graph.crates.len(),
            forall|i: int|
                0 <= i < ctx0.def_maps.len() ==> context@.def_maps[i] == ctx0.def_maps[i],
            forall|i: int|
                ctx0.def_maps.len() <= i < context@.def_maps.len() ==> context@.def_maps[i]
                    is None,
        decreases context.crate_graph.crates.len() - context.def_maps.len(),
    {
        let ghost before = context@.def_maps;
        context.def_maps.push(None);
        proof {
            assert(context@.def_maps =~= before.push(None));
        }
    }
    proof {
        assert(context@.def_maps.len() == context@.crate_graph.crates.len());
    }
    // every dependency has access to the standard library
    let std_crate_id = context.stdlib_crate_id();
    let ghost ctx2 = context@;
    match context.crate_graph.add_dep(crate_id, "std".to_owned(), std_crate_id) {
        Ok(_) => {},
        Err(_) => {
            proof {
                assert(ctx2.crate_graph.deps(std_crate_id.idx as int).len() == 0);
                if ctx2.crate_graph.reaches(std_crate_id.idx as int, crate_id.idx as int) {
                    lemma_no_deps_reaches_only_self(
                        ctx2.crate_graph,
                        std_crate_id.idx as int,
                        crate_id.idx as int,
                    );
                    assert(false);
                }
                assert(false);
            }
        },
    }
    proof {
        assert forall|i: int, j: int|
            ctx2.crate_graph.valid(i) && 0 <= j < ctx2.crate_graph.deps(i).len() implies (
        #[trigger] context@.crate_graph.deps(i)[j]) == ctx2.crate_graph.deps(i)[j]
            && context@.crate_graph.deps(i).len() >= ctx2.crate_graph.deps(i).len() by {
            if i != crate_id.idx as int {
                assert(context@.crate_graph.crates[i] == ctx2.crate_graph.crates[i]);
            } else if ctx2.crate_graph.has_dep(
                crate_id.idx as int,
                "std"@,
                std_crate_id.idx as int,
            ) {
                assert(context@.crate_graph == ctx2.crate_graph);
            } else {
                assert(context@.crate_graph.deps(i) == ctx2.crate_graph.deps(i).push(
                    crate::graph::DependencyV { name: "std"@, crate_id: std_crate_id },
                ));
            }
        }
        assert(context@.crate_graph.has_dep(crate_id.idx as int, "std"@, std_crate_id.idx as int));
        assert(context@.crate_graph.crates[std_crate_id.idx as int].is_stdlib);
        assert(context@.has_stdlib_dep(crate_id.idx as int));
        assert forall|i: int| context@.crate_graph.plain(i) implies context@.has_stdlib_dep(i) by {
            if i < ctx0.crate_graph.crates.len() {
                assert(ctx1.crate_graph.crates[i] == ctx0.crate_graph.crates[i]);
                assert(ctx0.crate_graph.plain(i));
                assert(ctx0.has_stdlib_dep(i));
                assert forall|k: int| ctx0.crate_graph.valid(k) implies (
                #[trigger] context@.crate_graph.crates[k]).is_stdlib
                    == ctx0.crate_graph.crates[k].is_stdlib by {
                    assert(ctx1.crate_graph.crates[k] == ctx0.crate_graph.crates[k]);
                }
                assert forall|k: int, j: int|
                    ctx0.crate_graph.valid(k) && 0 <= j < ctx0.crate_graph.deps(k).len() implies (
                #[trigger] context@.crate_graph.deps(k)[j]) == ctx0.crate_graph.deps(k)[j]
                    && context@.crate_graph.deps(k).len() >= ctx0.crate_graph.deps(k).len() by {
                    assert(ctx1.crate_graph.crates[k] == ctx0.crate_graph.crates[k]);
                    assert(ctx2.crate_graph.deps(k)[j] == ctx0.crate_graph.deps(k)[j]);
                }
                lemma_wiring_transfer(ctx0, context@, i);
            } else {
                // the one crate this call may register is `result`, wired
                // just above
                assert(i == crate_id.idx as int);
            }
        }
        assert forall|ii: int|
            0 <= ii < context@.def_maps.len() implies ((#[trigger] context@.def_maps[ii]) matches
        Some(dm) ==> dm.wf(context@.def_interner)) by {
            match context@.def_maps[ii] {
                Some(dm) => {
                    assert(ii < ctx0.def_maps.len());
                    assert(ctx0.def_maps[ii] == Some(dm));
                },
                None => {},
            }
        }
        assert(context@.wf());
    }
    crate_id
}

/// Record in the session's crate graph that `this_crate` depends on
/// `depends_on` under `crate_name`.
///
/// An edge that would close a cycle is a fatal misconfiguration of the
/// driver, never a user-program diagnostic; callers must not ask for one.
pub fn add_dep(context: &mut Context, this_crate: CrateId, depends_on: CrateId, crate_name: String)
    requires
        old(context)@.wf(),
        old(context)@.crate_graph.plain(this_crate.idx as int),
        old(context)@.crate_graph.valid(depends_on.idx as int),
        old(context)@.crate_graph.has_dep(
            this_crate.idx as int,
            crate_name@,
            depends_on.idx as int,
        ) || !old(context)@.crate_graph.reaches(depends_on.idx as int, this_crate.idx as int),
    ensures
        final(context)@.wf(),
        final(context)@.crate_graph.has_dep(
            this_crate.idx as int,
            crate_name@,
            depends_on.idx as int,
        ),
        final(context)@.crate_graph.crates.len() == old(context)@.crate_graph.crates.len(),
        final(context)@.file_manager == old(context)@.file_manager,
        final(context)@.def_interner == old(context)@.def_interner,
        final(context)@.def_maps == old(context)@.def_maps,
        final(context)@.noir_version == old(context)@.noir_version,
        old(context)@.crate_graph.has_dep(this_crate.idx as int, crate_name@, depends_on.idx as int)
            ==> final(context)@ == old(context)@,
{
    let ghost ctx0 = context@;
    match context.crate_graph.add_dep(this_crate, crate_name, depends_on) {
        Ok(_) => {},
        Err(_) => {
            proof {
                assert(false);
            }
        },
    }
    proof {
        assert forall|i: int, j: int|
            ctx0.crate_graph.valid(i) && 0 <= j < ctx0.crate_graph.deps(i).len() implies (
        #[trigger] context@.crate_graph.deps(i)[j]) == ctx0.crate_graph.deps(i)[j]
            && context@.crate_graph.deps(i).len() >= ctx0.crate_graph.deps(i).len() by {
            if i != this_crate.idx as int {
                assert(context@.crate_graph.crates[i] == ctx0.crate_graph.crates[i]);
            } else if ctx0.crate_graph.has_dep(
                this_crate.idx as int,
                crate_name@,
                depends_on.idx as int,
            ) {
                assert(context@.crate_graph == ctx0.crate_graph);
            } else {
                assert(context@.crate_graph.deps(i) == ctx0.crate_graph.deps(i).push(
                    crate::graph::DependencyV { name: crate_name@, crate_id: depends_on },
                ));
            }
        }
        assert forall|i: int| context@.crate_graph.plain(i) implies context@.has_stdlib_dep(i) by {
            assert(ctx0.crate_graph.plain(i));
            assert(ctx0.has_stdlib_dep(i));
            lemma_wiring_transfer(ctx0, context@, i);
        }
        assert forall|ii: int|
            0 <= ii < context@.def_maps.len() implies ((#[trigger] context@.def_maps[ii]) matches
        Some(dm) ==> dm.wf(context@.def_interner)) by {
            match context@.def_maps[ii] {
                Some(dm) => {
                    assert(ctx0.def_maps[ii] == Some(dm));
                },
                None => {},
            }
        }
        assert(context@.wf());
    }
}

/// Compile the program rooted at one source file, under default options,
/// forcing compilation: the restricted entry for callers that hold a
/// single file rather than a package.
pub fn compile_file(context: &mut Context, root_file: String, analysis: CrateAnalysis) -> (result:
    CompilationResult<CompiledProgram>)
    requires
        old(context)@.wf(),
        analysis@.def_map.wf(
            old(context)@.def_interner.extended(analysis@.functions, analysis@.structs),
        ),
    ensures
        final(context)@.wf(),
        exists|c: CrateId|
            #[trigger] final(context)@.crate_graph.plain(c.idx as int) && program_result_view(
                result,
            ) == spec_compile_main(
                final(context)@,
                c,
                spec_default_options(),
                None,
                true,
                spec_collected_diagnostics(analysis@.errors),
            ),
{
    let crate_id = prepare_crate(context, root_file);
    let result = compile_main(
        context,
        crate_id,
        &CompileOptions::default(),
        None,
        true,
        analysis,
    );
    proof {
        assert(final(context)@.crate_graph.plain(crate_id.idx as int));
    }
    result
}

/// Whether a cached artifact was produced by a different compiler build,
/// in which case recompilation must be forced: its recorded producer
/// version differs from the running session's.
pub fn cached_version_mismatch(cached: Option<&CompiledProgram>, current_version: &String) -> (result:
    bool)
    ensures
        result == match cached {
            Some(p) => p@.noir_version != current_version@,
            None => false,
        },
{
    match cached {
        Some(p) => !(p.noir_version == *current_version),
        None => false,
    }
}

} // verus!
