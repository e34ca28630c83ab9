//! What it means for one function body to be a clone of another.
//!
//! A clone has the shape of its source: scope for scope and instruction for
//! instruction. Its scopes are fresh: they are numbered in the order of a
//! walk through the source, and every branch names the copy of the scope
//! that the branch in the source names.

use crate::module::ir::{
    nested_size, scope_count, scopes_before, size_from, FunctionKindView, FunctionView, Instr,
    InstrSeqView, LocalFunctionView,
};
use vstd::prelude::*;

verus! {

/// The scopes that `table` maps to a scope of the clone.
pub open spec fn bound_scopes(table: Seq<Option<usize>>) -> Set<int> {
    Set::new(|scope: int| 0 <= scope < table.len() && table[scope] is Some)
}

/// Whether `instr`, an instruction of the scope `seq`, nests only scopes that
/// are stored after `seq` and are themselves well scoped, and branches only to
/// a scope of `enclosing`.
pub open spec fn instr_scoped(
    seqs: Seq<InstrSeqView>,
    seq: int,
    instr: Instr,
    enclosing: Set<int>,
) -> bool
    decreases seqs.len() - seq, 0nat,
{
    match instr {
        Instr::Block { seq: inner } => seq < inner < seqs.len() && well_scoped(
            seqs,
            inner as int,
            enclosing,
        ),
        Instr::Loop { seq: inner } => seq < inner < seqs.len() && well_scoped(
            seqs,
            inner as int,
            enclosing,
        ),
        Instr::IfElse { consequent, alternative } => {
            &&& seq < consequent < seqs.len() && well_scoped(seqs, consequent as int, enclosing)
            &&& seq < alternative < seqs.len() && well_scoped(seqs, alternative as int, enclosing)
        },
        Instr::Br { block } => enclosing.contains(block as int),
        Instr::BrIf { block } => enclosing.contains(block as int),
        _ => true,
    }
}

/// Whether, in the scope `seq` entered from the scopes `enclosing` and in the
/// scopes nested in it, every nested scope is stored after the scope that
/// holds it and every branch names the scope it stands in or one that
/// encloses it.
pub open spec fn well_scoped(seqs: Seq<InstrSeqView>, seq: int, enclosing: Set<int>) -> bool
    decreases seqs.len() - seq, 1nat,
{
    &&& 0 <= seq < seqs.len()
    &&& forall|i: int|
        0 <= i < seqs[seq].instrs.len() ==> instr_scoped(
            seqs,
            seq,
            #[trigger] seqs[seq].instrs[i],
            enclosing.insert(seq),
        )
}

/// Whether `copy`, an instruction of the scope `copy_seq` of `clone`, stands
/// for `instr`, an instruction of the scope `seq` of `seqs`: a nested scope
/// is mirrored by the scope of the clone stored at `slot`, and where `instr`
/// nests two by the scopes at `slot` and right after the scopes of the first;
/// a branch goes where `table` sends its target; any other instruction is the
/// same.
pub open spec fn instr_mirrors(
    seqs: Seq<InstrSeqView>,
    seq: int,
    instr: Instr,
    clone: Seq<InstrSeqView>,
    copy_seq: int,
    copy: Instr,
    table: Seq<Option<usize>>,
    slot: int,
) -> bool
    decreases seqs.len() - seq, 0nat,
{
    match instr {
        Instr::Block { seq: inner } => {
            &&& copy matches Instr::Block { seq: inner_copy }
            &&& inner_copy == slot
            &&& seq < inner < seqs.len()
            &&& copy_seq < slot < clone.len()
            &&& mirrors(seqs, inner as int, clone, slot, table)
        },
        Instr::Loop { seq: inner } => {
            &&& copy matches Instr::Loop { seq: inner_copy }
            &&& inner_copy == slot
            &&& seq < inner < seqs.len()
            &&& copy_seq < slot < clone.len()
            &&& mirrors(seqs, inner as int, clone, slot, table)
        },
        Instr::IfElse { consequent, alternative } => {
            let second = slot + scope_count(seqs, seq, consequent as int);
            &&& copy matches Instr::IfElse {
                consequent: consequent_copy,
                alternative: alternative_copy,
            }
            &&& consequent_copy == slot
            &&& alternative_copy == second
            &&& seq < consequent < seqs.len()
            &&& seq < alternative < seqs.len()
            &&& copy_seq < slot < clone.len()
            &&& copy_seq < second < clone.len()
            &&& mirrors(seqs, consequent as int, clone, slot, table)
            &&& mirrors(seqs, alternative as int, clone, second, table)
        },
        Instr::Br { block } => {
            &&& block < table.len()
            &&& table[block as int] matches Some(target)
            &&& copy == Instr::Br { block: target }
        },
        Instr::BrIf { block } => {
            &&& block < table.len()
            &&& table[block as int] matches Some(target)
            &&& copy == Instr::BrIf { block: target }
        },
        _ => copy == instr,
    }
}

/// Whether the scope `copy_seq` of `clone` is a structural copy of the scope
/// `seq` of `seqs`: the same type, the same number of instructions, and each
/// instruction standing for the one in its place. The scopes nested in `seq`
/// are copied to the places right after `copy_seq`, in the order of a walk
/// through `seq`. `table` maps the scopes that enclose `seq` to their copies;
/// inside, `seq` itself is mapped to `copy_seq`.
pub open spec fn mirrors(
    seqs: Seq<InstrSeqView>,
    seq: int,
    clone: Seq<InstrSeqView>,
    copy_seq: int,
    table: Seq<Option<usize>>,
) -> bool
    decreases seqs.len() - seq, 1nat,
{
    &&& 0 <= seq < seqs.len()
    &&& 0 <= copy_seq < clone.len()
    &&& table.len() == seqs.len()
    &&& clone[copy_seq].ty == seqs[seq].ty
    &&& clone[copy_seq].instrs.len() == seqs[seq].instrs.len()
    &&& forall|i: int|
        0 <= i < seqs[seq].instrs.len() ==> instr_mirrors(
            seqs,
            seq,
            #[trigger] seqs[seq].instrs[i],
            clone,
            copy_seq,
            clone[copy_seq].instrs[i],
            table.update(seq, Some(copy_seq as usize)),
            copy_seq + 1 + scopes_before(seqs, seq, i),
        )
}

/// Mapping one more scope adds it to the scopes that the table maps.
pub proof fn lemma_bound_scopes_update(table: Seq<Option<usize>>, seq: int, copy_seq: usize)
    requires
        0 <= seq < table.len(),
    ensures
        bound_scopes(table.update(seq, Some(copy_seq))) == bound_scopes(table).insert(seq),
{
    assert(bound_scopes(table.update(seq, Some(copy_seq))) =~= bound_scopes(table).insert(seq));
}

/// An instruction that stands for another keeps doing so when the clone
/// grows or changes outside the scopes stored after `copy_seq`.
pub proof fn lemma_instr_mirrors_frame(
    seqs: Seq<InstrSeqView>,
    seq: int,
    instr: Instr,
    clone: Seq<InstrSeqView>,
    later: Seq<InstrSeqView>,
    copy_seq: int,
    copy: Instr,
    table: Seq<Option<usize>>,
    slot: int,
)
    requires
        instr_mirrors(seqs, seq, instr, clone, copy_seq, copy, table, slot),
        clone.len() <= later.len(),
        forall|j: int| copy_seq < j < clone.len() ==> later[j] == clone[j],
    ensures
        instr_mirrors(seqs, seq, instr, later, copy_seq, copy, table, slot),
    decreases seqs.len() - seq, 0nat,
{
    match instr {
        Instr::Block { seq: inner } => {
            lemma_mirrors_frame(seqs, inner as int, clone, later, slot, table);
        },
        Instr::Loop { seq: inner } => {
            lemma_mirrors_frame(seqs, inner as int, clone, later, slot, table);
        },
        Instr::IfElse { consequent, alternative } => {
            let second = slot + scope_count(seqs, seq, consequent as int);
            lemma_mirrors_frame(seqs, consequent as int, clone, later, slot, table);
            lemma_mirrors_frame(seqs, alternative as int, clone, later, second, table);
        },
        _ => {},
    }
}

/// A scope that mirrors another keeps doing so when the clone grows or
/// changes outside `copy_seq` and the scopes stored after it.
pub proof fn lemma_mirrors_frame(
    seqs: Seq<InstrSeqView>,
    seq: int,
    clone: Seq<InstrSeqView>,
    later: Seq<InstrSeqView>,
    copy_seq: int,
    table: Seq<Option<usize>>,
)
    requires
        mirrors(seqs, seq, clone, copy_seq, table),
        clone.len() <= later.len(),
        forall|j: int| copy_seq <= j < clone.len() ==> later[j] == clone[j],
    ensures
        mirrors(seqs, seq, later, copy_seq, table),
    decreases seqs.len() - seq, 1nat,
{
    let inner_table = table.update(seq, Some(copy_seq as usize));
    assert forall|i: int| 0 <= i < seqs[seq].instrs.len() implies instr_mirrors(
        seqs,
        seq,
        #[trigger] seqs[seq].instrs[i],
        later,
        copy_seq,
        later[copy_seq].instrs[i],
        inner_table,
        copy_seq + 1 + scopes_before(seqs, seq, i),
    ) by {
        lemma_instr_mirrors_frame(
            seqs,
            seq,
            seqs[seq].instrs[i],
            clone,
            later,
            copy_seq,
            clone[copy_seq].instrs[i],
            inner_table,
            copy_seq + 1 + scopes_before(seqs, seq, i),
        );
    }
}

/// A scope that mirrors another holds as many instructions, nested scopes
/// included, from any position on.
pub proof fn lemma_mirrors_size_from(
    seqs: Seq<InstrSeqView>,
    seq: int,
    clone: Seq<InstrSeqView>,
    copy_seq: int,
    table: Seq<Option<usize>>,
    from: int,
)
    requires
        mirrors(seqs, seq, clone, copy_seq, table),
        0 <= from,
    ensures
        size_from(clone, copy_seq, from) == size_from(seqs, seq, from),
    decreases seqs.len() - seq, seqs[seq].instrs.len() - from,
{
    if from < seqs[seq].instrs.len() {
        let instr = seqs[seq].instrs[from];
        let copy = clone[copy_seq].instrs[from];
        let inner_table = table.update(seq, Some(copy_seq as usize));
        let slot = copy_seq + 1 + scopes_before(seqs, seq, from);
        assert(instr_mirrors(seqs, seq, instr, clone, copy_seq, copy, inner_table, slot));
        match instr {
            Instr::Block { seq: inner } => {
                lemma_mirrors_size_from(seqs, inner as int, clone, slot, inner_table, 0);
            },
            Instr::Loop { seq: inner } => {
                lemma_mirrors_size_from(seqs, inner as int, clone, slot, inner_table, 0);
            },
            Instr::IfElse { consequent, alternative } => {
                let second = slot + scope_count(seqs, seq, consequent as int);
                lemma_mirrors_size_from(seqs, consequent as int, clone, slot, inner_table, 0);
                lemma_mirrors_size_from(seqs, alternative as int, clone, second, inner_table, 0);
            },
            _ => {},
        }
        assert(nested_size(clone, copy_seq, copy) == nested_size(seqs, seq, instr));
        lemma_mirrors_size_from(seqs, seq, clone, copy_seq, table, from + 1);
    }
}

/// A table that maps no scope of a function with `len` scopes.
pub open spec fn no_scopes(len: nat) -> Seq<Option<usize>> {
    Seq::new(len, |scope: int| None::<usize>)
}

impl LocalFunctionView {
    /// Whether the body exists, every nested scope is stored after the scope
    /// that holds it, and every branch names a scope that encloses it.
    pub open spec fn well_formed(self) -> bool {
        self.entry < self.seqs.len() && well_scoped(self.seqs, self.entry as int, Set::empty())
    }
}

/// Whether `copy` is a clone of `source` under the name `name`: the same
/// signature and argument locals, and a body that starts at scope 0, mirrors
/// the body of `source` and holds as many instructions.
pub open spec fn is_clone_of(
    source: FunctionView,
    copy: FunctionView,
    name: Option<Seq<char>>,
) -> bool {
    &&& source.kind matches FunctionKindView::Local(body)
    &&& copy.kind matches FunctionKindView::Local(copy_body)
    &&& copy.name == name
    &&& copy.params == source.params
    &&& copy.results == source.results
    &&& copy_body.args == body.args
    &&& copy_body.entry == 0
    &&& copy_body.seqs.len() == body.scopes()
    &&& mirrors(body.seqs, body.entry as int, copy_body.seqs, 0, no_scopes(body.seqs.len()))
    &&& copy_body.size() == body.size()
}

/// A clone has as many instructions as the function it was made from.
pub proof fn lemma_clone_keeps_size(
    source: FunctionView,
    copy: FunctionView,
    name: Option<Seq<char>>,
)
    requires
        is_clone_of(source, copy, name),
    ensures
        copy.kind->Local_0.size() == source.kind->Local_0.size(),
{
}

} // verus!
