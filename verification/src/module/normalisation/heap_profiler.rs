//! The instrumentation pass that reports guest allocator calls to the host.
//!
//! For each allocator function of the guest the pass imports a host hook,
//! moves the body of the allocator into a clone, and turns the allocator into
//! a wrapper that calls the clone, hands arguments and results to the hook,
//! and returns the results. As every exit of the clone leads back into the
//! wrapper, the hook sees each call exactly once.

use crate::module::ir::{
    nested_scopes, scope_count, scopes_before, seqs_view, Function, FunctionKind,
    FunctionKindView, FunctionView, Instr, InstrSeq, InstrSeqView, LocalFunction,
    LocalFunctionView, WasmModule, WasmModuleView, ValType,
};
use crate::module::normalisation::mirror::{
    bound_scopes, instr_mirrors, instr_scoped, is_clone_of, lemma_bound_scopes_update,
    lemma_instr_mirrors_frame, lemma_mirrors_frame, lemma_mirrors_size_from, mirrors, no_scopes,
    well_scoped,
};
use vstd::prelude::*;

verus! {

/// Why a module was not instrumented.
#[derive(Clone, Copy, Debug, PartialEq, Eq, Structural)]
pub enum InstrumentError {
    /// No function of the module has the name of the target.
    TargetNotFound,
    /// The target is imported: it has no body to wrap.
    TargetNotLocal,
    /// The body of the target is missing, holds a nested scope that is not
    /// stored after the scope that holds it, or holds a branch that names a
    /// scope that does not enclose the branch.
    MalformedBody,
}

/// Copies the scope `seq` of `fn_loc`, and the scopes nested in it, to the
/// end of `clone`, and returns where the copy of `seq` stands.
///
/// Every scope gets a fresh place in `clone`. While the traversal is inside a
/// scope, `jmp_ids` maps it to its copy, so that a branch is rewritten
/// to the copy of the scope it names; on the way out the entry is put back,
/// so that neither arm of an `if` sees what the other one bound.
fn clone_rec(
    fn_loc: &LocalFunction,
    seq: usize,
    clone: &mut Vec<InstrSeq>,
    jmp_ids: &mut Vec<Option<usize>>,
) -> (done: Result<usize, InstrumentError>)
    requires
        seq < fn_loc.seqs.len(),
        old(jmp_ids).len() == fn_loc.seqs.len(),
    ensures
        match done {
            Ok(copy_seq) => {
                &&& well_scoped(fn_loc@.seqs, seq as int, bound_scopes(old(jmp_ids)@))
                &&& copy_seq == old(clone).len()
                &&& final(clone).len() == old(clone).len() + 1 + scopes_before(
                    fn_loc@.seqs,
                    seq as int,
                    fn_loc@.seqs[seq as int].instrs.len() as int,
                )
                &&& forall|j: int|
                    0 <= j < old(clone).len() ==> final(clone)@[j] == old(clone)@[j]
                &&& mirrors(
                    fn_loc@.seqs,
                    seq as int,
                    seqs_view(final(clone)@),
                    copy_seq as int,
                    old(jmp_ids)@,
                )
                &&& final(jmp_ids)@ == old(jmp_ids)@
            },
            Err(error) => {
                &&& error == InstrumentError::MalformedBody
                &&& !well_scoped(fn_loc@.seqs, seq as int, bound_scopes(old(jmp_ids)@))
            },
        },
    decreases fn_loc.seqs.len() - seq,
{
    let ghost seqs = fn_loc@.seqs;
    let ghost clone0 = clone@;
    let ghost table0 = jmp_ids@;
    let copy_seq = clone.len();
    let ghost table1 = table0.update(seq as int, Some(copy_seq));
    let ghost scopes1 = bound_scopes(table0).insert(seq as int);
    proof {
        lemma_bound_scopes_update(table0, seq as int, copy_seq);
    }
    let ty = fn_loc.seqs[seq].ty;
    clone.push(InstrSeq { ty, instrs: Vec::new() });
    let saved = jmp_ids[seq];
    jmp_ids.set(seq, Some(copy_seq));
    let mut out: Vec<Instr> = Vec::new();
    let count = fn_loc.seqs[seq].instrs.len();
    let mut i: usize = 0;
    while i < count
        invariant
            seq < fn_loc.seqs.len(),
            seqs == fn_loc@.seqs,
            table0 == old(jmp_ids)@,
            clone0 == old(clone)@,
            count == seqs[seq as int].instrs.len(),
            i <= count,
            out.len() == i,
            jmp_ids@ == table1,
            table1 == table0.update(seq as int, Some(copy_seq)),
            table0.len() == fn_loc.seqs.len(),
            scopes1 == bound_scopes(table1),
            scopes1 == bound_scopes(table0).insert(seq as int),
            copy_seq == clone0.len(),
            clone.len() == copy_seq + 1 + scopes_before(seqs, seq as int, i as int),
            forall|j: int| 0 <= j < clone0.len() ==> clone@[j] == clone0[j],
            forall|k: int|
                0 <= k < i ==> instr_mirrors(
                    seqs,
                    seq as int,
                    #[trigger] seqs[seq as int].instrs[k],
                    seqs_view(clone@),
                    copy_seq as int,
                    out@[k],
                    table1,
                    copy_seq + 1 + scopes_before(seqs, seq as int, k),
                ),
            forall|k: int|
                0 <= k < i ==> instr_scoped(
                    seqs,
                    seq as int,
                    #[trigger] seqs[seq as int].instrs[k],
                    scopes1,
                ),
        decreases count - i,
    {
        let instr = fn_loc.seqs[seq].instrs[i];
        let ghost before = seqs_view(clone@);
        let ghost out_before = out@;
        let ghost slot = copy_seq + 1 + scopes_before(seqs, seq as int, i as int);
        assert(instr == seqs[seq as int].instrs[i as int]);
        assert(scopes_before(seqs, seq as int, i + 1) == scopes_before(seqs, seq as int, i as int)
            + nested_scopes(seqs, seq as int, instr));
        let copy = match instr {
            Instr::Block { seq: inner } => {
                if inner <= seq || inner >= fn_loc.seqs.len() {
                    assert(!instr_scoped(seqs, seq as int, instr, scopes1));
                    return Err(InstrumentError::MalformedBody);
                }
                match clone_rec(fn_loc, inner, clone, jmp_ids) {
                    Ok(inner_copy) => Instr::Block { seq: inner_copy },
                    Err(error) => {
                        assert(!instr_scoped(seqs, seq as int, instr, scopes1));
                        return Err(error);
                    },
                }
            },
            Instr::Loop { seq: inner } => {
                if inner <= seq || inner >= fn_loc.seqs.len() {
                    assert(!instr_scoped(seqs, seq as int, instr, scopes1));
                    return Err(InstrumentError::MalformedBody);
                }
                match clone_rec(fn_loc, inner, clone, jmp_ids) {
                    Ok(inner_copy) => Instr::Loop { seq: inner_copy },
                    Err(error) => {
                        assert(!instr_scoped(seqs, seq as int, instr, scopes1));
                        return Err(error);
                    },
                }
            },
            Instr::IfElse { consequent, alternative } => {
                if consequent <= seq || consequent >= fn_loc.seqs.len() || alternative <= seq
                    || alternative >= fn_loc.seqs.len() {
                    assert(!instr_scoped(seqs, seq as int, instr, scopes1));
                    return Err(InstrumentError::MalformedBody);
                }
                let consequent_copy = match clone_rec(fn_loc, consequent, clone, jmp_ids) {
                    Ok(inner_copy) => inner_copy,
                    Err(error) => {
                        assert(!instr_scoped(seqs, seq as int, instr, scopes1));
                        return Err(error);
                    },
                };
                let ghost between = seqs_view(clone@);
                let alternative_copy = match clone_rec(fn_loc, alternative, clone, jmp_ids) {
                    Ok(inner_copy) => inner_copy,
                    Err(error) => {
                        assert(!instr_scoped(seqs, seq as int, instr, scopes1));
                        return Err(error);
                    },
                };
                proof {
                    lemma_mirrors_frame(
                        seqs,
                        consequent as int,
                        between,
                        seqs_view(clone@),
                        consequent_copy as int,
                        table1,
                    );
                    assert(alternative_copy == slot + scope_count(
                        seqs,
                        seq as int,
                        consequent as int,
                    ));
                }
                Instr::IfElse { consequent: consequent_copy, alternative: alternative_copy }
            },
            Instr::Br { block } => {
                if block >= jmp_ids.len() {
                    assert(!instr_scoped(seqs, seq as int, instr, scopes1));
                    return Err(InstrumentError::MalformedBody);
                }
                match jmp_ids[block] {
                    Some(target) => Instr::Br { block: target },
                    None => {
                        assert(!instr_scoped(seqs, seq as int, instr, scopes1));
                        return Err(InstrumentError::MalformedBody);
                    },
                }
            },
            Instr::BrIf { block } => {
                if block >= jmp_ids.len() {
                    assert(!instr_scoped(seqs, seq as int, instr, scopes1));
                    return Err(InstrumentError::MalformedBody);
                }
                match jmp_ids[block] {
                    Some(target) => Instr::BrIf { block: target },
                    None => {
                        assert(!instr_scoped(seqs, seq as int, instr, scopes1));
                        return Err(InstrumentError::MalformedBody);
                    },
                }
            },
            _ => instr,
        };
        out.push(copy);
        proof {
            let after = seqs_view(clone@);
            assert(instr_mirrors(
                seqs,
                seq as int,
                instr,
                after,
                copy_seq as int,
                copy,
                table1,
                slot,
            ));
            assert(instr_scoped(seqs, seq as int, instr, scopes1));
            assert forall|k: int| 0 <= k < i + 1 implies instr_mirrors(
                seqs,
                seq as int,
                #[trigger] seqs[seq as int].instrs[k],
                after,
                copy_seq as int,
                out@[k],
                table1,
                copy_seq + 1 + scopes_before(seqs, seq as int, k),
            ) by {
                if k < i {
                    lemma_instr_mirrors_frame(
                        seqs,
                        seq as int,
                        seqs[seq as int].instrs[k],
                        before,
                        after,
                        copy_seq as int,
                        out_before[k],
                        table1,
                        copy_seq + 1 + scopes_before(seqs, seq as int, k),
                    );
                }
            }
        }
        i = i + 1;
    }
    jmp_ids.set(seq, saved);
    let ghost before = seqs_view(clone@);
    clone.set(copy_seq, InstrSeq { ty, instrs: out });
    proof {
        let after = seqs_view(clone@);
        assert(jmp_ids@ =~= table0);
        assert forall|k: int| 0 <= k < seqs[seq as int].instrs.len() implies instr_mirrors(
            seqs,
            seq as int,
            #[trigger] seqs[seq as int].instrs[k],
            after,
            copy_seq as int,
            after[copy_seq as int].instrs[k],
            table1,
            copy_seq + 1 + scopes_before(seqs, seq as int, k),
        ) by {
            lemma_instr_mirrors_frame(
                seqs,
                seq as int,
                seqs[seq as int].instrs[k],
                before,
                after,
                copy_seq as int,
                out@[k],
                table1,
                copy_seq + 1 + scopes_before(seqs, seq as int, k),
            );
        }
    }
    Ok(copy_seq)
}

/// A copy of `items`.
fn copy_vec<T: Copy>(items: &Vec<T>) -> (copy: Vec<T>)
    ensures
        copy@ == items@,
{
    let mut copy: Vec<T> = Vec::new();
    let mut i: usize = 0;
    while i < items.len()
        invariant
            i <= items.len(),
            copy@ == items@.take(i as int),
        decreases items.len() - i,
    {
        copy.push(items[i]);
        i = i + 1;
        proof {
            assert(copy@ =~= items@.take(i as int));
        }
    }
    proof {
        assert(copy@ =~= items@);
    }
    copy
}

/// A structural copy of the body of `function`, with fresh scopes.
pub fn clone_body(function: &LocalFunction) -> (done: Result<LocalFunction, InstrumentError>)
    ensures
        match done {
            Ok(copy) => {
                &&& function@.well_formed()
                &&& copy@.args == function@.args
                &&& copy@.entry == 0
                &&& copy@.seqs.len() == function@.scopes()
                &&& mirrors(
                    function@.seqs,
                    function@.entry as int,
                    copy@.seqs,
                    0,
                    no_scopes(function@.seqs.len()),
                )
                &&& copy@.size() == function@.size()
            },
            Err(error) => error == InstrumentError::MalformedBody && !function@.well_formed(),
        },
{
    if function.entry >= function.seqs.len() {
        return Err(InstrumentError::MalformedBody);
    }
    let mut jmp_ids: Vec<Option<usize>> = Vec::new();
    let mut i: usize = 0;
    while i < function.seqs.len()
        invariant
            i <= function.seqs.len(),
            jmp_ids@ == no_scopes(i as nat),
        decreases function.seqs.len() - i,
    {
        jmp_ids.push(None);
        i = i + 1;
        proof {
            assert(jmp_ids@ =~= no_scopes(i as nat));
        }
    }
    proof {
        assert(bound_scopes(jmp_ids@) =~= Set::<int>::empty());
    }
    let mut seqs: Vec<InstrSeq> = Vec::new();
    match clone_rec(function, function.entry, &mut seqs, &mut jmp_ids) {
        Ok(entry) => {
            let copy = LocalFunction { args: copy_vec(&function.args), seqs, entry };
            proof {
                lemma_mirrors_size_from(
                    function@.seqs,
                    function@.entry as int,
                    copy@.seqs,
                    0,
                    no_scopes(function@.seqs.len()),
                    0,
                );
            }
            Ok(copy)
        },
        Err(error) => Err(error),
    }
}

/// Whether `index` is the first function of `funcs` with the name `name`.
pub open spec fn names_first(funcs: Seq<FunctionView>, name: Seq<char>, index: int) -> bool {
    &&& 0 <= index < funcs.len()
    &&& funcs[index].name == Some(name)
    &&& forall|j: int| 0 <= j < index ==> (#[trigger] funcs[j]).name != Some(name)
}

/// Whether a function of `funcs` has the name `name`.
pub open spec fn has_named(funcs: Seq<FunctionView>, name: Seq<char>) -> bool {
    exists|i: int| 0 <= i < funcs.len() && (#[trigger] funcs[i]).name == Some(name)
}

/// The index of the first function of `funcs` with the name `name`.
pub open spec fn first_named(funcs: Seq<FunctionView>, name: Seq<char>) -> int {
    choose|i: int| names_first(funcs, name, i)
}

/// The first function with a name is found at one index only.
pub proof fn lemma_first_named(funcs: Seq<FunctionView>, name: Seq<char>, index: int)
    requires
        names_first(funcs, name, index),
    ensures
        has_named(funcs, name),
        first_named(funcs, name) == index,
{
    let chosen = first_named(funcs, name);
    assert(names_first(funcs, name, chosen));
    if chosen < index {
        assert(funcs[chosen].name != Some(name));
    } else if index < chosen {
        assert(funcs[index].name != Some(name));
    }
}

/// The index of the first function of `module` with the name `name`.
pub fn by_name(module: &WasmModule, name: &str) -> (found: Option<usize>)
    ensures
        match found {
            Some(index) => names_first(module@.funcs, name@, index as int),
            None => !has_named(module@.funcs, name@),
        },
{
    let wanted = name.to_owned();
    let mut i: usize = 0;
    while i < module.funcs.len()
        invariant
            i <= module.funcs.len(),
            wanted@ == name@,
            forall|j: int| 0 <= j < i ==> (#[trigger] module@.funcs[j]).name != Some(name@),
        decreases module.funcs.len() - i,
    {
        let is_match = match &module.funcs[i].name {
            Some(candidate) => *candidate == wanted,
            None => false,
        };
        if is_match {
            return Some(i);
        }
        i = i + 1;
    }
    None
}

/// Why the function called `name` cannot be instrumented, if it cannot.
pub open spec fn target_error(funcs: Seq<FunctionView>, name: Seq<char>) -> Option<
    InstrumentError,
> {
    if !has_named(funcs, name) {
        Some(InstrumentError::TargetNotFound)
    } else {
        match funcs[first_named(funcs, name)].kind {
            FunctionKindView::Import { .. } => Some(InstrumentError::TargetNotLocal),
            FunctionKindView::Local(body) => if body.well_formed() {
                None
            } else {
                Some(InstrumentError::MalformedBody)
            },
        }
    }
}

/// The locals `first`, `first + 1`, ... : `count` of them.
pub open spec fn fresh_locals(first: nat, count: nat) -> Seq<usize> {
    Seq::new(count, |i: int| (first + i) as usize)
}

/// One `local.get` for each of `locals`, in their order.
pub open spec fn local_gets(locals: Seq<usize>) -> Seq<Instr> {
    Seq::new(locals.len(), |i: int| Instr::LocalGet { local: locals[i] })
}

/// One `local.set` for each of `locals`, last local first: the order in
/// which values leave the stack.
pub open spec fn local_sets_reversed(locals: Seq<usize>) -> Seq<Instr> {
    Seq::new(locals.len(), |i: int| Instr::LocalSet { local: locals[locals.len() - 1 - i] })
}

/// The body of a wrapper: pass the arguments to the clone, keep its results,
/// hand arguments and results to the hook, and return the results.
pub open spec fn wrapper_instrs(
    args: Seq<usize>,
    rets: Seq<usize>,
    copy: usize,
    hook: usize,
) -> Seq<Instr> {
    local_gets(args) + seq![Instr::Call { func: copy }] + local_sets_reversed(rets) + local_gets(
        args,
    ) + local_gets(rets) + seq![Instr::Call { func: hook }] + local_gets(rets)
}

/// The hook that reports calls of `target`, an allocator called `symbol`: the
/// import `heap_profiler.<symbol>_profiler`, which takes the parameters of
/// `target` followed by its results and returns nothing.
pub open spec fn hook_import(target: FunctionView, symbol: Seq<char>) -> FunctionView {
    FunctionView {
        name: None,
        params: target.params + target.results,
        results: Seq::empty(),
        kind: FunctionKindView::Import {
            module: "heap_profiler"@,
            field: symbol + "_profiler"@,
        },
    }
}

/// The wrapper that takes the place of `target`: the same name and
/// signature, arguments in fresh locals starting at `first_local`, and a body
/// of one scope that calls the clone `copy` and the hook `hook`.
pub open spec fn wrapper_of(
    target: FunctionView,
    first_local: nat,
    hook: usize,
    copy: usize,
) -> FunctionView {
    let body = target.kind->Local_0;
    let args = fresh_locals(first_local, target.params.len());
    let rets = fresh_locals(first_local + target.params.len(), target.results.len());
    FunctionView {
        name: target.name,
        params: target.params,
        results: target.results,
        kind: FunctionKindView::Local(
            LocalFunctionView {
                args,
                seqs: seq![
                    InstrSeqView {
                        ty: body.seqs[body.entry as int].ty,
                        instrs: wrapper_instrs(args, rets, copy, hook),
                    },
                ],
                entry: 0,
            },
        ),
    }
}

/// Whether `after` is `before` with the function `target`, an allocator
/// called `symbol`, instrumented: the clone and the hook are appended to the
/// functions, in this order, the wrapper stands where the target stood, one
/// local is added for each parameter and then for each result of the target,
/// and nothing else has changed.
pub open spec fn instrumented(
    before: WasmModuleView,
    after: WasmModuleView,
    symbol: Seq<char>,
    target: int,
) -> bool {
    let copy = before.funcs.len();
    let hook = before.funcs.len() + 1;
    &&& 0 <= target < before.funcs.len()
    &&& after.funcs.len() == before.funcs.len() + 2
    &&& forall|j: int|
        0 <= j < before.funcs.len() && j != target ==> after.funcs[j] == before.funcs[j]
    &&& after.funcs[hook as int] == hook_import(before.funcs[target], symbol)
    &&& is_clone_of(before.funcs[target], after.funcs[copy as int], Some(symbol + "_wrap"@))
    &&& after.funcs[target] == wrapper_of(
        before.funcs[target],
        before.locals.len(),
        hook as usize,
        copy as usize,
    )
    &&& after.locals == before.locals + before.funcs[target].params
        + before.funcs[target].results
}

/// Appends one `local.get` for each of `locals`.
fn push_local_gets(instrs: &mut Vec<Instr>, locals: &Vec<usize>)
    ensures
        final(instrs)@ == old(instrs)@ + local_gets(locals@),
{
    let mut i: usize = 0;
    while i < locals.len()
        invariant
            i <= locals.len(),
            instrs@ == old(instrs)@ + local_gets(locals@).take(i as int),
        decreases locals.len() - i,
    {
        instrs.push(Instr::LocalGet { local: locals[i] });
        i = i + 1;
        proof {
            assert(instrs@ =~= old(instrs)@ + local_gets(locals@).take(i as int));
        }
    }
    proof {
        assert(local_gets(locals@).take(i as int) =~= local_gets(locals@));
    }
}

/// Appends one `local.set` for each of `locals`, last local first.
fn push_local_sets_reversed(instrs: &mut Vec<Instr>, locals: &Vec<usize>)
    ensures
        final(instrs)@ == old(instrs)@ + local_sets_reversed(locals@),
{
    let mut i: usize = 0;
    while i < locals.len()
        invariant
            i <= locals.len(),
            instrs@ == old(instrs)@ + local_sets_reversed(locals@).take(i as int),
        decreases locals.len() - i,
    {
        instrs.push(Instr::LocalSet { local: locals[locals.len() - 1 - i] });
        i = i + 1;
        proof {
            assert(instrs@ =~= old(instrs)@ + local_sets_reversed(locals@).take(i as int));
        }
    }
    proof {
        assert(local_sets_reversed(locals@).take(i as int) =~= local_sets_reversed(locals@));
    }
}

/// Adds one local of each of `types` and returns the new locals.
fn add_locals(locals: &mut Vec<ValType>, types: &Vec<ValType>) -> (ids: Vec<usize>)
    ensures
        final(locals)@ == old(locals)@ + types@,
        ids@ == fresh_locals(old(locals)@.len(), types@.len()),
{
    let mut ids: Vec<usize> = Vec::new();
    let mut i: usize = 0;
    while i < types.len()
        invariant
            i <= types.len(),
            locals@ == old(locals)@ + types@.take(i as int),
            ids@ == fresh_locals(old(locals)@.len(), i as nat),
        decreases types.len() - i,
    {
        ids.push(locals.len());
        locals.push(types[i]);
        i = i + 1;
        proof {
            assert(locals@ =~= old(locals)@ + types@.take(i as int));
            assert(ids@ =~= fresh_locals(old(locals)@.len(), i as nat));
        }
    }
    proof {
        assert(types@.take(i as int) =~= types@);
    }
    ids
}

/// The two lists, one after the other.
fn concat_types(first: &Vec<ValType>, second: &Vec<ValType>) -> (both: Vec<ValType>)
    ensures
        both@ == first@ + second@,
{
    let mut both = copy_vec(first);
    let mut i: usize = 0;
    while i < second.len()
        invariant
            i <= second.len(),
            both@ == first@ + second@.take(i as int),
        decreases second.len() - i,
    {
        both.push(second[i]);
        i = i + 1;
        proof {
            assert(both@ =~= first@ + second@.take(i as int));
        }
    }
    proof {
        assert(second@.take(i as int) =~= second@);
    }
    both
}

/// A copy of a function name.
fn copy_name(name: &Option<String>) -> (copy: Option<String>)
    ensures
        match (name, copy) {
            (Some(name), Some(copy)) => copy@ == name@,
            (None, None) => true,
            _ => false,
        },
{
    match name {
        Some(name) => Some(name.clone()),
        None => None,
    }
}

/// Why the function `fn_id` cannot be cloned, if it cannot.
pub open spec fn clone_error(funcs: Seq<FunctionView>, fn_id: int) -> Option<InstrumentError> {
    if !(0 <= fn_id < funcs.len()) {
        Some(InstrumentError::TargetNotFound)
    } else {
        match funcs[fn_id].kind {
            FunctionKindView::Import { .. } => Some(InstrumentError::TargetNotLocal),
            FunctionKindView::Local(body) => if body.well_formed() {
                None
            } else {
                Some(InstrumentError::MalformedBody)
            },
        }
    }
}

/// Appends to the functions of `module` a clone of the function `fn_id`
/// under the name `name`, and returns the index of the clone. The clone has
/// as many instructions as the function it was made from.
pub fn clone_function(module: &mut WasmModule, fn_id: usize, name: Option<String>) -> (done: Result<
    usize,
    InstrumentError,
>)
    ensures
        match done {
            Ok(copy_id) => {
                &&& clone_error(old(module)@.funcs, fn_id as int) is None
                &&& copy_id == old(module)@.funcs.len()
                &&& final(module)@.locals == old(module)@.locals
                &&& final(module)@.funcs.len() == old(module)@.funcs.len() + 1
                &&& forall|j: int|
                    0 <= j < old(module)@.funcs.len() ==> final(module)@.funcs[j] == old(
                        module,
                    )@.funcs[j]
                &&& is_clone_of(
                    old(module)@.funcs[fn_id as int],
                    final(module)@.funcs[copy_id as int],
                    match name {
                        Some(name) => Some(name@),
                        None => None,
                    },
                )
            },
            Err(error) => {
                &&& clone_error(old(module)@.funcs, fn_id as int) == Some(error)
                &&& final(module)@ == old(module)@
            },
        },
{
    if fn_id >= module.funcs.len() {
        return Err(InstrumentError::TargetNotFound);
    }
    let copy = match &module.funcs[fn_id].kind {
        FunctionKind::Import { .. } => {
            return Err(InstrumentError::TargetNotLocal);
        },
        FunctionKind::Local(body) => match clone_body(body) {
            Ok(copy_body) => Function {
                name,
                params: copy_vec(&module.funcs[fn_id].params),
                results: copy_vec(&module.funcs[fn_id].results),
                kind: FunctionKind::Local(copy_body),
            },
            Err(error) => {
                return Err(error);
            },
        },
    };
    let copy_id = module.funcs.len();
    module.funcs.push(copy);
    Ok(copy_id)
}

/// Instruments the allocator called `name`: moves the body of the allocator
/// into the clone `<name>_wrap`, imports the hook
/// `heap_profiler.<name>_profiler`, and makes the allocator a wrapper around
/// the two. If it cannot be done, nothing is changed.
pub fn add_profiler_to(module: &mut WasmModule, name: &str) -> (done: Result<(), InstrumentError>)
    ensures
        match done {
            Ok(()) => {
                &&& target_error(old(module)@.funcs, name@) is None
                &&& instrumented(
                    old(module)@,
                    final(module)@,
                    name@,
                    first_named(old(module)@.funcs, name@),
                )
            },
            Err(error) => {
                &&& target_error(old(module)@.funcs, name@) == Some(error)
                &&& final(module)@ == old(module)@
            },
        },
{
    // find local function in module
    let fn_id = match by_name(module, name) {
        Some(fn_id) => fn_id,
        None => {
            return Err(InstrumentError::TargetNotFound);
        },
    };
    let ghost before = module@;
    let ghost target = before.funcs[fn_id as int];
    proof {
        lemma_first_named(before.funcs, name@, fn_id as int);
    }

    // create a clone of the function
    let copy_id = match clone_function(module, fn_id, Some(name.to_owned().concat("_wrap"))) {
        Ok(copy_id) => copy_id,
        Err(error) => {
            return Err(error);
        },
    };
    let entry_ty = match &module.funcs[fn_id].kind {
        FunctionKind::Import { .. } => {
            proof {
                assert(module@.funcs[fn_id as int] == target);
            }
            return Err(InstrumentError::TargetNotLocal);
        },
        FunctionKind::Local(body) => {
            proof {
                assert(module@.funcs[fn_id as int] == target);
                assert(body@ == target.kind->Local_0);
            }
            body.seqs[body.entry].ty
        },
    };
    let params = copy_vec(&module.funcs[fn_id].params);
    let results = copy_vec(&module.funcs[fn_id].results);
    let target_name = copy_name(&module.funcs[fn_id].name);
    proof {
        assert(module@.funcs[fn_id as int] == target);
    }

    // Import profiler. Profilers don't return anything. Profilers last
    // arguments are the results of the wrapped function.
    let hook_id = module.funcs.len();
    let hook = Function {
        name: None,
        params: concat_types(&params, &results),
        results: Vec::new(),
        kind: FunctionKind::Import {
            module: "heap_profiler".to_owned(),
            field: name.to_owned().concat("_profiler"),
        },
    };
    proof {
        assert(hook@ =~~= hook_import(target, name@));
    }
    let ghost cloned = module@;
    module.funcs.push(hook);

    // create new locals for the arguments and the results of the wrapper
    let local_vars = add_locals(&mut module.locals, &params);
    let rets = add_locals(&mut module.locals, &results);

    // the wrapper: call the clone, keep its results, call the profiler with
    // arguments and results, return the results
    let mut instrs: Vec<Instr> = Vec::new();
    push_local_gets(&mut instrs, &local_vars);
    instrs.push(Instr::Call { func: copy_id });
    push_local_sets_reversed(&mut instrs, &rets);
    push_local_gets(&mut instrs, &local_vars);
    push_local_gets(&mut instrs, &rets);
    instrs.push(Instr::Call { func: hook_id });
    push_local_gets(&mut instrs, &rets);
    let mut seqs: Vec<InstrSeq> = Vec::new();
    seqs.push(InstrSeq { ty: entry_ty, instrs });
    let wrapper = Function {
        name: target_name,
        params,
        results,
        kind: FunctionKind::Local(LocalFunction { args: local_vars, seqs, entry: 0 }),
    };
    proof {
        assert(instrs@ =~= wrapper_instrs(local_vars@, rets@, copy_id, hook_id));
        let expected = wrapper_of(target, before.locals.len(), hook_id, copy_id);
        assert(wrapper@.kind->Local_0.seqs =~= expected.kind->Local_0.seqs);
        assert(wrapper@ =~~= expected);
    }
    module.funcs.set(fn_id, wrapper);
    proof {
        let after = module@;
        assert(after.locals =~= before.locals + target.params + target.results);
        assert(after.funcs[copy_id as int] == cloned.funcs[copy_id as int]);
        assert forall|j: int| 0 <= j < before.funcs.len() && j != fn_id implies after.funcs[j]
            == before.funcs[j] by {
            assert(after.funcs[j] == cloned.funcs[j]);
        }
    }
    Ok(())
}

/// The names of the allocator functions that are instrumented, in the order
/// in which they are.
pub open spec fn allocator_symbols() -> Seq<Seq<char>> {
    seq!["malloc"@, "calloc"@, "realloc"@, "free"@]
}

/// The error of the first of `symbols` that cannot be instrumented, if there
/// is one.
pub open spec fn first_error(funcs: Seq<FunctionView>, symbols: Seq<Seq<char>>) -> Option<
    InstrumentError,
>
    decreases symbols.len(),
{
    if symbols.len() == 0 {
        None
    } else {
        match target_error(funcs, symbols[0]) {
            Some(error) => Some(error),
            None => first_error(funcs, symbols.drop_first()),
        }
    }
}

/// Whether `after` is `before` with the allocators called `symbols`
/// instrumented one after the other.
pub open spec fn instrumented_all(
    before: WasmModuleView,
    after: WasmModuleView,
    symbols: Seq<Seq<char>>,
) -> bool
    decreases symbols.len(),
{
    if symbols.len() == 0 {
        after == before
    } else {
        exists|between: WasmModuleView|
            {
                &&& #[trigger] instrumented(
                    before,
                    between,
                    symbols[0],
                    first_named(before.funcs, symbols[0]),
                )
                &&& instrumented_all(between, after, symbols.drop_first())
            }
    }
}

/// The body of a wrapper is well formed: it nests no scope and does not
/// branch.
pub proof fn lemma_wrapper_well_formed(
    target: FunctionView,
    first_local: nat,
    hook: usize,
    copy: usize,
)
    ensures
        wrapper_of(target, first_local, hook, copy).kind->Local_0.well_formed(),
{
    let body = wrapper_of(target, first_local, hook, copy).kind->Local_0;
    assert forall|i: int| 0 <= i < body.seqs[0].instrs.len() implies instr_scoped(
        body.seqs,
        0,
        #[trigger] body.seqs[0].instrs[i],
        Set::<int>::empty().insert(0),
    ) by {
        let instr = body.seqs[0].instrs[i];
        assert(instr is LocalGet || instr is LocalSet || instr is Call);
    }
}

/// Instrumenting one function leaves every function that could be
/// instrumented before in that state, the instrumented one included.
pub proof fn lemma_instrumented_keeps_targets(
    before: WasmModuleView,
    after: WasmModuleView,
    symbol: Seq<char>,
    target: int,
    other: Seq<char>,
)
    requires
        instrumented(before, after, symbol, target),
        target_error(before.funcs, other) is None,
    ensures
        target_error(after.funcs, other) is None,
{
    let found = first_named(before.funcs, other);
    assert(names_first(before.funcs, other, found)) by {
        let witness = choose|i: int|
            0 <= i < before.funcs.len() && (#[trigger] before.funcs[i]).name == Some(other);
        lemma_has_first(before.funcs, other, witness);
    }
    lemma_wrapper_well_formed(
        before.funcs[target],
        before.locals.len(),
        (before.funcs.len() + 1) as usize,
        before.funcs.len() as usize,
    );
    assert forall|j: int| 0 <= j < found implies (#[trigger] after.funcs[j]).name != Some(
        other,
    ) by {
        assert(before.funcs[j].name != Some(other));
    }
    assert(names_first(after.funcs, other, found));
    lemma_first_named(after.funcs, other, found);
}

/// Where a function has a name, one function is the first with it.
pub proof fn lemma_has_first(funcs: Seq<FunctionView>, name: Seq<char>, index: int)
    requires
        0 <= index < funcs.len(),
        funcs[index].name == Some(name),
    ensures
        names_first(funcs, name, first_named(funcs, name)),
        first_named(funcs, name) <= index,
    decreases index,
{
    if forall|j: int| 0 <= j < index ==> (#[trigger] funcs[j]).name != Some(name) {
        assert(names_first(funcs, name, index));
        lemma_first_named(funcs, name, index);
    } else {
        let earlier = choose|j: int| 0 <= j < index && (#[trigger] funcs[j]).name == Some(name);
        lemma_has_first(funcs, name, earlier);
    }
}

/// Whether the allocator called `name` can be instrumented.
fn check_target(module: &WasmModule, name: &str) -> (done: Result<(), InstrumentError>)
    ensures
        match done {
            Ok(()) => target_error(module@.funcs, name@) is None,
            Err(error) => target_error(module@.funcs, name@) == Some(error),
        },
{
    let fn_id = match by_name(module, name) {
        Some(fn_id) => fn_id,
        None => {
            return Err(InstrumentError::TargetNotFound);
        },
    };
    proof {
        lemma_first_named(module@.funcs, name@, fn_id as int);
    }
    match &module.funcs[fn_id].kind {
        FunctionKind::Import { .. } => Err(InstrumentError::TargetNotLocal),
        FunctionKind::Local(body) => match clone_body(body) {
            Ok(_) => Ok(()),
            Err(error) => Err(error),
        },
    }
}

/// Instruments `malloc`, `calloc`, `realloc` and `free`, in this order. If
/// one of them cannot be instrumented, nothing is changed and the error of
/// the first such function is returned.
pub fn patch(module: &mut WasmModule) -> (done: Result<(), InstrumentError>)
    ensures
        match done {
            Ok(()) => {
                &&& first_error(old(module)@.funcs, allocator_symbols()) is None
                &&& instrumented_all(old(module)@, final(module)@, allocator_symbols())
            },
            Err(error) => {
                &&& first_error(old(module)@.funcs, allocator_symbols()) == Some(error)
                &&& final(module)@ == old(module)@
            },
        },
{
    let ghost symbols = allocator_symbols();
    let ghost m0 = module@;
    proof {
        reveal_with_fuel(first_error, 5);
        assert(symbols.drop_first() =~= seq!["calloc"@, "realloc"@, "free"@]);
        assert(symbols.drop_first().drop_first() =~= seq!["realloc"@, "free"@]);
        assert(symbols.drop_first().drop_first().drop_first() =~= seq!["free"@]);
        assert(symbols.drop_first().drop_first().drop_first().drop_first() =~= Seq::<
            Seq<char>,
        >::empty());
    }
    match check_target(module, "malloc") {
        Ok(()) => {},
        Err(error) => {
            return Err(error);
        },
    }
    match check_target(module, "calloc") {
        Ok(()) => {},
        Err(error) => {
            return Err(error);
        },
    }
    match check_target(module, "realloc") {
        Ok(()) => {},
        Err(error) => {
            return Err(error);
        },
    }
    match check_target(module, "free") {
        Ok(()) => {},
        Err(error) => {
            return Err(error);
        },
    }
    let first = add_profiler_to(module, "malloc");
    let ghost m1 = module@;
    proof {
        let target = first_named(m0.funcs, "malloc"@);
        lemma_instrumented_keeps_targets(m0, m1, "malloc"@, target, "calloc"@);
        lemma_instrumented_keeps_targets(m0, m1, "malloc"@, target, "realloc"@);
        lemma_instrumented_keeps_targets(m0, m1, "malloc"@, target, "free"@);
    }
    let second = add_profiler_to(module, "calloc");
    let ghost m2 = module@;
    proof {
        let target = first_named(m1.funcs, "calloc"@);
        lemma_instrumented_keeps_targets(m1, m2, "calloc"@, target, "realloc"@);
        lemma_instrumented_keeps_targets(m1, m2, "calloc"@, target, "free"@);
    }
    let third = add_profiler_to(module, "realloc");
    let ghost m3 = module@;
    proof {
        let target = first_named(m2.funcs, "realloc"@);
        lemma_instrumented_keeps_targets(m2, m3, "realloc"@, target, "free"@);
    }
    let fourth = add_profiler_to(module, "free");
    proof {
        let m4 = module@;
        reveal_with_fuel(instrumented_all, 5);
        assert(instrumented_all(m4, m4, Seq::<Seq<char>>::empty()));
        assert(instrumented(m3, m4, "free"@, first_named(m3.funcs, "free"@)));
        assert(instrumented_all(m3, m4, seq!["free"@]));
        assert(instrumented(m2, m3, "realloc"@, first_named(m2.funcs, "realloc"@)));
        assert(instrumented_all(m2, m4, seq!["realloc"@, "free"@]));
        assert(instrumented(m1, m2, "calloc"@, first_named(m1.funcs, "calloc"@)));
        assert(instrumented_all(m1, m4, seq!["calloc"@, "realloc"@, "free"@]));
        assert(instrumented(m0, m1, "malloc"@, first_named(m0.funcs, "malloc"@)));
        assert(instrumented_all(m0, m4, symbols));
    }
    Ok(())
}

} // verus!
