//! Laws the pipeline obeys, each proved from the contracts the driver
//! functions publish.

use vstd::prelude::*;

use crate::context::{ContextV, ContractFunctionMeta, ContractV, FuncId};
use crate::diagnostics::FileDiagnosticV;
use crate::graph::CrateId;
use crate::hash::fx_hash64;
use crate::program::CompiledProgramV;
use crate::{CompileOptions, multiple_contracts_diagnostic, no_contracts_diagnostic,
    spec_compile_contract, spec_compile_contract_inner, spec_compile_no_check, spec_contract_fold,
    spec_has_errors};
use crate::diagnostics::RuntimeErrorV;

verus! {

/// Idempotent caching: when compiling a function a second time with the
/// first run's output as the cached program, no force flag and no trace
/// flag, the cached program is returned unchanged — content hash, circuit
/// bytes and all.
pub proof fn lemma_idempotent_caching(
    ctx: ContextV,
    options: CompileOptions,
    main_function: FuncId,
    cached: Option<CompiledProgramV>,
    force_compile: bool,
    first: CompiledProgramV,
)
    requires
        main_function.idx < ctx.def_interner.functions.len(),
        !options.print_acir,
        !options.show_brillig,
        !options.show_ssa,
        spec_compile_no_check(ctx, options, main_function, cached, force_compile) == Ok::<
            CompiledProgramV,
            RuntimeErrorV,
        >(first),
    ensures
        spec_compile_no_check(ctx, options, main_function, Some(first), false) == Ok::<
            CompiledProgramV,
            RuntimeErrorV,
        >(first),
{
    let record = ctx.def_interner.functions[main_function.idx as int];
    let hash = fx_hash64(record.monomorphized);
    assert(first.hash == hash);
}

/// The content hash depends on the monomorphized form alone: two
/// functions whose monomorphized bytes agree — however their sources were
/// formatted or commented — compile to programs with the same hash.
pub proof fn lemma_hash_of_monomorphized_form(
    ctx1: ContextV,
    ctx2: ContextV,
    options1: CompileOptions,
    options2: CompileOptions,
    f1: FuncId,
    f2: FuncId,
    p1: CompiledProgramV,
    p2: CompiledProgramV,
)
    requires
        f1.idx < ctx1.def_interner.functions.len(),
        f2.idx < ctx2.def_interner.functions.len(),
        ctx1.def_interner.functions[f1.idx as int].monomorphized
            == ctx2.def_interner.functions[f2.idx as int].monomorphized,
        spec_compile_no_check(ctx1, options1, f1, None, true) == Ok::<
            CompiledProgramV,
            RuntimeErrorV,
        >(p1),
        spec_compile_no_check(ctx2, options2, f2, None, true) == Ok::<
            CompiledProgramV,
            RuntimeErrorV,
        >(p2),
    ensures
        p1.hash == p2.hash,
{
}

/// Stdlib auto-dependency: in a well-formed session, every crate outside
/// the standard library holds a dependency edge to it under the reserved
/// name — in particular each crate just added by `crate::prepare_crate` or
/// `crate::prepare_dependency`.
pub proof fn lemma_stdlib_auto_dependency(ctx: ContextV, i: int)
    requires
        ctx.wf(),
        ctx.crate_graph.plain(i),
    ensures
        ctx.has_stdlib_dep(i),
{
}

/// Stdlib auto-dependency, uniqueness half: a well-formed session never
/// holds the same named edge twice, so wiring a crate to the standard
/// library a second time cannot duplicate the edge.
pub proof fn lemma_no_duplicate_dependency_edge(ctx: ContextV, a: int, j: int, k: int)
    requires
        ctx.wf(),
        ctx.crate_graph.valid(a),
        0 <= j < ctx.crate_graph.deps(a).len(),
        0 <= k < ctx.crate_graph.deps(a).len(),
        ctx.crate_graph.deps(a)[j].name == ctx.crate_graph.deps(a)[k].name,
        ctx.crate_graph.deps(a)[j].crate_id == ctx.crate_graph.deps(a)[k].crate_id,
    ensures
        j == k,
{
    if j < k {
        assert(!(ctx.crate_graph.deps(a)[j].name == ctx.crate_graph.deps(a)[k].name
            && ctx.crate_graph.deps(a)[j].crate_id == ctx.crate_graph.deps(a)[k].crate_id));
    } else if k < j {
        assert(!(ctx.crate_graph.deps(a)[k].name == ctx.crate_graph.deps(a)[j].name
            && ctx.crate_graph.deps(a)[k].crate_id == ctx.crate_graph.deps(a)[j].crate_id));
    }
}

/// Contract cardinality: when the check pass found nothing that stops
/// compilation, a crate with no contract and a crate with two or more
/// both fail with their terminal diagnostic, and a crate with exactly one
/// contract proceeds to that contract's compilation.
pub proof fn lemma_contract_cardinality(
    ctx2: ContextV,
    crate_id: CrateId,
    options: CompileOptions,
    diags: Seq<FileDiagnosticV>,
)
    requires
        !spec_has_errors(diags, options.deny_warnings),
    ensures
        ctx2.contracts_of(crate_id).len() == 0 ==> spec_compile_contract(
            ctx2,
            crate_id,
            options,
            diags,
        ) == Err::<(crate::contract::CompiledContractV, Seq<FileDiagnosticV>), _>(
            seq![no_contracts_diagnostic()],
        ),
        ctx2.contracts_of(crate_id).len() > 1 ==> spec_compile_contract(
            ctx2,
            crate_id,
            options,
            diags,
        ) == Err::<(crate::contract::CompiledContractV, Seq<FileDiagnosticV>), _>(
            seq![multiple_contracts_diagnostic()],
        ),
        ctx2.contracts_of(crate_id).len() == 1 ==> ((spec_compile_contract(
            ctx2,
            crate_id,
            options,
            diags,
        ) matches Ok(_)) <==> (spec_compile_contract_inner(
            ctx2,
            ctx2.contracts_of(crate_id)[0],
        ) matches Ok(_))),
{
}

/// The walk over a contract's functions is the same wherever its inputs
/// agree on the functions walked.
proof fn lemma_fold_prefix_agree(
    ctx: ContextV,
    f1: Seq<ContractFunctionMeta>,
    f2: Seq<ContractFunctionMeta>,
    n: int,
)
    requires
        n <= f1.len(),
        n <= f2.len(),
        forall|k: int| 0 <= k < n ==> f1[k] == f2[k],
    ensures
        spec_contract_fold(ctx, f1, n) == spec_contract_fold(ctx, f2, n),
    decreases n,
{
    if n > 0 {
        lemma_fold_prefix_agree(ctx, f1, f2, n - 1);
    }
}

/// Walking a contract's functions skips one that is not an entry point
/// entirely: it contributes no compiled function, no diagnostic and no
/// warning.
proof fn lemma_fold_skips_non_entry(
    ctx: ContextV,
    before: Seq<ContractFunctionMeta>,
    skipped: ContractFunctionMeta,
    after: Seq<ContractFunctionMeta>,
)
    requires
        !skipped.is_entry_point,
    ensures
        spec_contract_fold(
            ctx,
            before + seq![skipped] + after,
            before.len() + 1 + after.len() as int,
        ) == spec_contract_fold(ctx, before + after, before.len() + after.len() as int),
    decreases after.len(),
{
    let full = before + seq![skipped] + after;
    let short = before + after;
    if after.len() == 0 {
        assert(full.len() == before.len() + 1);
        assert(full[before.len() as int] == skipped);
        assert(spec_contract_fold(ctx, full, before.len() + 1 as int) == spec_contract_fold(
            ctx,
            full,
            before.len() as int,
        ));
        assert forall|k: int| 0 <= k < before.len() implies full[k] == short[k] by {
            assert(full[k] == before[k]);
            assert(short[k] == before[k]);
        }
        lemma_fold_prefix_agree(ctx, full, short, before.len() as int);
    } else {
        let shorter = after.drop_last();
        lemma_fold_skips_non_entry(ctx, before, skipped, shorter);
        let full1 = before + seq![skipped] + shorter;
        let short1 = before + shorter;
        assert forall|k: int| 0 <= k < full.len() - 1 implies full[k] == full1[k] by {
            if k < before.len() + 1 {
            } else {
                assert(full[k] == after[k - before.len() - 1]);
                assert(full1[k] == shorter[k - before.len() - 1]);
            }
        }
        assert forall|k: int| 0 <= k < short.len() - 1 implies short[k] == short1[k] by {
            if k < before.len() {
            } else {
                assert(short[k] == after[k - before.len()]);
                assert(short1[k] == shorter[k - before.len()]);
            }
        }
        lemma_fold_prefix_agree(ctx, full, full1, full.len() - 1);
        lemma_fold_prefix_agree(ctx, short, short1, short.len() - 1);
        assert(full.last() == after.last());
        assert(short.last() == after.last());
        assert(spec_contract_fold(ctx, full, full.len() as int) == spec_contract_fold(
            ctx,
            short,
            short.len() as int,
        ));
    }
}

/// Entry-point skip: a function declared inside a contract but not marked
/// as an entry point yields no function in the compiled contract and
/// contributes no diagnostic, even if it would fail to compile standalone;
/// the contract compiles exactly as if the function were absent.
pub proof fn lemma_entry_point_skip(
    ctx: ContextV,
    with_skipped: ContractV,
    without: ContractV,
    before: Seq<ContractFunctionMeta>,
    skipped: ContractFunctionMeta,
    after: Seq<ContractFunctionMeta>,
)
    requires
        !skipped.is_entry_point,
        with_skipped.functions == before + seq![skipped] + after,
        without.functions == before + after,
        with_skipped.name == without.name,
        with_skipped.events == without.events,
    ensures
        spec_compile_contract_inner(ctx, with_skipped) == spec_compile_contract_inner(
            ctx,
            without,
        ),
{
    lemma_fold_skips_non_entry(ctx, before, skipped, after);
}

/// Partial-failure tolerance, first half: the errors the contract walk
/// reports are exactly those of its failing entry points, in declaration
/// order — one failing function does not prevent the others from being
/// attempted.
proof fn lemma_single_failure_fold(
    ctx: ContextV,
    funcs: Seq<ContractFunctionMeta>,
    bad: int,
    n: int,
)
    requires
        0 <= bad < funcs.len(),
        funcs[bad].is_entry_point,
        funcs[bad].function_id.idx < ctx.def_interner.functions.len(),
        ctx.def_interner.functions[funcs[bad].function_id.idx as int].lowering is Err,
        forall|k: int|
            0 <= k < funcs.len() && k != bad && (#[trigger] funcs[k]).is_entry_point
                ==> ctx.def_interner.functions[funcs[k].function_id.idx as int].lowering is Ok,
        n <= funcs.len(),
    ensures
        bad < n ==> spec_contract_fold(ctx, funcs, n).1 =~= seq![
            ctx.def_interner.functions[funcs[bad].function_id.idx as int].lowering->Err_0.to_diagnostic(),
        ],
        n <= bad ==> spec_contract_fold(ctx, funcs, n).1 =~= Seq::<FileDiagnosticV>::empty(),
    decreases n,
{
    if n > 0 {
        lemma_single_failure_fold(ctx, funcs, bad, n - 1);
    }
}

/// Partial-failure tolerance: in a contract with several entry points of
/// which exactly one fails lowering, compilation of the contract fails
/// with precisely that function's error — and every other entry point
/// still compiles on its own, outside the contract.
pub proof fn lemma_partial_failure_tolerance(
    ctx: ContextV,
    con: ContractV,
    options: CompileOptions,
    bad: int,
)
    requires
        con.wf(ctx.def_interner),
        0 <= bad < con.functions.len(),
        con.functions[bad].is_entry_point,
        ctx.def_interner.functions[con.functions[bad].function_id.idx as int].lowering is Err,
        forall|k: int|
            0 <= k < con.functions.len() && k != bad && (#[trigger] con.functions[k]).is_entry_point
                ==> ctx.def_interner.functions[con.functions[k].function_id.idx as int].lowering
                is Ok,
    ensures
        spec_compile_contract_inner(ctx, con) == Err::<crate::contract::CompiledContractV, _>(
            seq![
                ctx.def_interner.functions[con.functions[bad].function_id.idx as int].lowering->Err_0.to_diagnostic(),
            ],
        ),
        forall|k: int|
            0 <= k < con.functions.len() && k != bad && (#[trigger] con.functions[k]).is_entry_point
                ==> spec_compile_no_check(
                ctx,
                options,
                con.functions[k].function_id,
                None,
                true,
            ) matches Ok(_),
{
    lemma_single_failure_fold(ctx, con.functions, bad, con.functions.len() as int);
    assert forall|k: int|
        0 <= k < con.functions.len() && k != bad && (#[trigger] con.functions[k]).is_entry_point
            implies spec_compile_no_check(
        ctx,
        options,
        con.functions[k].function_id,
        None,
        true,
    ) matches Ok(_) by {
        assert(ctx.def_interner.functions[con.functions[k].function_id.idx as int].lowering
            is Ok);
    }
}

/// Warnings-as-errors: a non-empty diagnostic list holding only warnings
/// does not stop compilation under the lenient policy, and does stop it
/// when warnings are denied. Together with the contract of
/// `crate::check_crate`, the check then succeeds with exactly that list as
/// its warnings, or fails with the identical list as its payload.
pub proof fn lemma_warnings_as_errors(diags: Seq<FileDiagnosticV>)
    requires
        diags.len() > 0,
        forall|i: int| 0 <= i < diags.len() ==> !(#[trigger] diags[i]).diagnostic.is_error(),
    ensures
        !spec_has_errors(diags, false),
        spec_has_errors(diags, true),
{
    if spec_has_errors(diags, false) {
        let i = choose|i: int| 0 <= i < diags.len() && (#[trigger] diags[i]).diagnostic.is_error();
        assert(false);
    }
}

} // verus!
