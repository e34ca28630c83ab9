//! The part of a guest module that the instrumentation pass reads and
//! rewrites.
//!
//! A function body is a tree of structured scopes. The scopes of one function
//! are stored in an arena; the position of a scope in the arena is its
//! identity, and branches name their target by that identity. A scope nested
//! in another is stored after it.

use vstd::prelude::*;

verus! {

/// A value type. Reference types are told apart by a number that the embedder
/// assigns.
#[derive(Clone, Copy, Debug, PartialEq, Eq, Structural)]
pub enum ValType {
    I32,
    I64,
    F32,
    F64,
    V128,
    Ref(u32),
}

/// The type of a scope: nothing or one value left on the stack, or a function
/// type that the embedder keeps under a number.
#[derive(Clone, Copy, Debug, PartialEq, Eq, Structural)]
pub enum SeqType {
    Simple(Option<ValType>),
    MultiValue(u32),
}

/// One instruction. Only the instructions that the instrumentation pass reads
/// or writes are spelled out; every other instruction is carried as the token
/// under which the embedder keeps it.
#[derive(Clone, Copy, Debug, PartialEq, Eq, Structural)]
pub enum Instr {
    /// `block`: the nested scope `seq`; a branch to it leaves the scope.
    Block { seq: usize },
    /// `loop`: the nested scope `seq`; a branch to it restarts the scope.
    Loop { seq: usize },
    /// `if`/`else` with one nested scope for each arm.
    IfElse { consequent: usize, alternative: usize },
    /// `br` to the enclosing scope `block`.
    Br { block: usize },
    /// `br_if` to the enclosing scope `block`.
    BrIf { block: usize },
    /// `call` of the function with this index.
    Call { func: usize },
    /// `local.get` of the local with this index.
    LocalGet { local: usize },
    /// `local.set` of the local with this index.
    LocalSet { local: usize },
    /// Any other instruction.
    Other { token: u64 },
}

/// One scope: its type and its instructions.
#[derive(Clone, Debug, PartialEq, Eq)]
pub struct InstrSeq {
    pub ty: SeqType,
    pub instrs: Vec<Instr>,
}

/// The mathematical content of an [`InstrSeq`].
pub struct InstrSeqView {
    pub ty: SeqType,
    pub instrs: Seq<Instr>,
}

impl View for InstrSeq {
    type V = InstrSeqView;

    open spec fn view(&self) -> InstrSeqView {
        InstrSeqView { ty: self.ty, instrs: self.instrs@ }
    }
}

/// The contents of an arena of scopes.
pub open spec fn seqs_view(seqs: Seq<InstrSeq>) -> Seq<InstrSeqView> {
    Seq::new(seqs.len(), |i: int| seqs[i]@)
}

/// A function defined in the module: the locals that receive its arguments
/// and the arena of its scopes, of which `entry` is the body.
#[derive(Clone, Debug, PartialEq, Eq)]
pub struct LocalFunction {
    pub args: Vec<usize>,
    pub seqs: Vec<InstrSeq>,
    pub entry: usize,
}

/// The mathematical content of a [`LocalFunction`].
pub struct LocalFunctionView {
    pub args: Seq<usize>,
    pub seqs: Seq<InstrSeqView>,
    pub entry: usize,
}

impl View for LocalFunction {
    type V = LocalFunctionView;

    open spec fn view(&self) -> LocalFunctionView {
        LocalFunctionView { args: self.args@, seqs: seqs_view(self.seqs@), entry: self.entry }
    }
}

/// Where the code of a function comes from.
#[derive(Clone, Debug, PartialEq, Eq)]
pub enum FunctionKind {
    /// Resolved at link time from the namespace `module` under the name
    /// `field`.
    Import { module: String, field: String },
    /// Defined in the module.
    Local(LocalFunction),
}

/// The mathematical content of a [`FunctionKind`].
pub enum FunctionKindView {
    Import { module: Seq<char>, field: Seq<char> },
    Local(LocalFunctionView),
}

impl View for FunctionKind {
    type V = FunctionKindView;

    open spec fn view(&self) -> FunctionKindView {
        match self {
            FunctionKind::Import { module, field } => FunctionKindView::Import {
                module: module@,
                field: field@,
            },
            FunctionKind::Local(local) => FunctionKindView::Local(local@),
        }
    }
}

/// A function of the module: its debug name, its signature and its code.
#[derive(Clone, Debug, PartialEq, Eq)]
pub struct Function {
    pub name: Option<String>,
    pub params: Vec<ValType>,
    pub results: Vec<ValType>,
    pub kind: FunctionKind,
}

/// The mathematical content of a [`Function`].
pub struct FunctionView {
    pub name: Option<Seq<char>>,
    pub params: Seq<ValType>,
    pub results: Seq<ValType>,
    pub kind: FunctionKindView,
}

impl View for Function {
    type V = FunctionView;

    open spec fn view(&self) -> FunctionView {
        FunctionView {
            name: match self.name {
                Some(name) => Some(name@),
                None => None,
            },
            params: self.params@,
            results: self.results@,
            kind: self.kind@,
        }
    }
}

/// The contents of a function table.
pub open spec fn funcs_view(funcs: Seq<Function>) -> Seq<FunctionView> {
    Seq::new(funcs.len(), |i: int| funcs[i]@)
}

/// A guest module: its functions, found by their index, and the types of the
/// locals of all its functions, found by theirs.
#[derive(Clone, Debug, PartialEq, Eq)]
pub struct WasmModule {
    pub funcs: Vec<Function>,
    pub locals: Vec<ValType>,
}

/// The mathematical content of a [`WasmModule`].
pub struct WasmModuleView {
    pub funcs: Seq<FunctionView>,
    pub locals: Seq<ValType>,
}

impl View for WasmModule {
    type V = WasmModuleView;

    open spec fn view(&self) -> WasmModuleView {
        WasmModuleView { funcs: funcs_view(self.funcs@), locals: self.locals@ }
    }
}

/// Number of instructions in the scope `seq` and in the scopes nested in it,
/// counted from instruction `from` of `seq` on. A nested scope that is not
/// stored after `seq` counts as empty.
pub open spec fn size_from(seqs: Seq<InstrSeqView>, seq: int, from: int) -> nat
    decreases seqs.len() - seq, seqs[seq].instrs.len() - from,
{
    if 0 <= seq < seqs.len() && 0 <= from < seqs[seq].instrs.len() {
        1 + nested_size(seqs, seq, seqs[seq].instrs[from]) + size_from(seqs, seq, from + 1)
    } else {
        0
    }
}

/// Number of instructions in the scopes that `instr`, an instruction of the
/// scope `seq`, holds.
pub open spec fn nested_size(seqs: Seq<InstrSeqView>, seq: int, instr: Instr) -> nat
    decreases seqs.len() - seq, 0nat,
{
    if 0 <= seq < seqs.len() {
        match instr {
            Instr::Block { seq: inner } => scope_size(seqs, seq, inner as int),
            Instr::Loop { seq: inner } => scope_size(seqs, seq, inner as int),
            Instr::IfElse { consequent, alternative } => scope_size(seqs, seq, consequent as int)
                + scope_size(seqs, seq, alternative as int),
            _ => 0,
        }
    } else {
        0
    }
}

/// Number of instructions in the scope `inner`, nested in `seq`.
pub open spec fn scope_size(seqs: Seq<InstrSeqView>, seq: int, inner: int) -> nat
    decreases seqs.len() - seq, 0nat, 0nat,
{
    if 0 <= seq < inner < seqs.len() {
        size_from(seqs, inner, 0)
    } else {
        0
    }
}

/// Number of scopes that the first `upto` instructions of the scope `seq`
/// hold, scopes nested in those included. A nested scope that is not stored
/// after `seq` counts as none.
pub open spec fn scopes_before(seqs: Seq<InstrSeqView>, seq: int, upto: int) -> nat
    decreases seqs.len() - seq, upto,
{
    if 0 <= seq < seqs.len() && 0 < upto <= seqs[seq].instrs.len() {
        scopes_before(seqs, seq, upto - 1) + nested_scopes(
            seqs,
            seq,
            seqs[seq].instrs[upto - 1],
        )
    } else {
        0
    }
}

/// Number of scopes that `instr`, an instruction of the scope `seq`, holds.
pub open spec fn nested_scopes(seqs: Seq<InstrSeqView>, seq: int, instr: Instr) -> nat
    decreases seqs.len() - seq, 0nat,
{
    if 0 <= seq < seqs.len() {
        match instr {
            Instr::Block { seq: inner } => scope_count(seqs, seq, inner as int),
            Instr::Loop { seq: inner } => scope_count(seqs, seq, inner as int),
            Instr::IfElse { consequent, alternative } => scope_count(seqs, seq, consequent as int)
                + scope_count(seqs, seq, alternative as int),
            _ => 0,
        }
    } else {
        0
    }
}

/// Number of scopes in the scope `inner`, nested in `seq`: `inner` itself and
/// the scopes nested in it.
pub open spec fn scope_count(seqs: Seq<InstrSeqView>, seq: int, inner: int) -> nat
    decreases seqs.len() - seq, 0nat, 0nat,
{
    if 0 <= seq < inner < seqs.len() {
        1 + scopes_before(seqs, inner, seqs[inner].instrs.len() as int)
    } else {
        0
    }
}

impl LocalFunctionView {
    /// Number of instructions of the function.
    pub open spec fn size(self) -> nat {
        size_from(self.seqs, self.entry as int, 0)
    }

    /// Number of scopes of the function: its body and the scopes nested in
    /// it.
    pub open spec fn scopes(self) -> nat {
        1 + scopes_before(
            self.seqs,
            self.entry as int,
            self.seqs[self.entry as int].instrs.len() as int,
        )
    }
}

/// Number of instructions of the scope `inner`, nested in `seq`, or `None`
/// where the number does not fit.
fn count_scope(function: &LocalFunction, seq: usize, inner: usize) -> (count: Option<u64>)
    requires
        seq < function.seqs.len(),
    ensures
        match count {
            Some(count) => count == scope_size(function@.seqs, seq as int, inner as int),
            None => scope_size(function@.seqs, seq as int, inner as int) > u64::MAX,
        },
    decreases function.seqs.len() - seq, 0nat,
{
    if seq < inner && inner < function.seqs.len() {
        count_from(function, inner)
    } else {
        Some(0)
    }
}

/// Number of instructions of the scope `seq` and of the scopes nested in it,
/// or `None` where the number does not fit.
fn count_from(function: &LocalFunction, seq: usize) -> (count: Option<u64>)
    requires
        seq < function.seqs.len(),
    ensures
        match count {
            Some(count) => count == size_from(function@.seqs, seq as int, 0),
            None => size_from(function@.seqs, seq as int, 0) > u64::MAX,
        },
    decreases function.seqs.len() - seq, 1nat,
{
    let ghost seqs = function@.seqs;
    let len = function.seqs[seq].instrs.len();
    let mut total: u64 = 0;
    let mut i: usize = len;
    while i > 0
        invariant
            seq < function.seqs.len(),
            seqs == function@.seqs,
            len == seqs[seq as int].instrs.len(),
            i <= len,
            total == size_from(seqs, seq as int, i as int),
        decreases i,
    {
        i = i - 1;
        let instr = function.seqs[seq].instrs[i];
        assert(instr == seqs[seq as int].instrs[i as int]);
        let nested = match instr {
            Instr::Block { seq: inner } => count_scope(function, seq, inner),
            Instr::Loop { seq: inner } => count_scope(function, seq, inner),
            Instr::IfElse { consequent, alternative } => {
                match (
                    count_scope(function, seq, consequent),
                    count_scope(function, seq, alternative),
                ) {
                    (Some(first), Some(second)) => first.checked_add(second),
                    _ => None,
                }
            },
            _ => Some(0),
        };
        proof {
            let nested_spec = nested_size(seqs, seq as int, instr);
            assert(match nested {
                Some(nested) => nested == nested_spec,
                None => nested_spec > u64::MAX,
            });
            assert(size_from(seqs, seq as int, i as int) == 1 + nested_spec + size_from(
                seqs,
                seq as int,
                i + 1,
            ));
        }
        let with_instr = match nested {
            Some(nested) => nested.checked_add(1),
            None => None,
        };
        let sum = match with_instr {
            Some(with_instr) => total.checked_add(with_instr),
            None => None,
        };
        match sum {
            Some(sum) => {
                total = sum;
            },
            None => {
                proof {
                    lemma_size_from_grows(seqs, seq as int, i as int);
                }
                return None;
            },
        }
    }
    Some(total)
}

/// The count from an earlier instruction on is no less than from a later
/// one.
pub proof fn lemma_size_from_grows(seqs: Seq<InstrSeqView>, seq: int, from: int)
    requires
        0 <= from,
    ensures
        size_from(seqs, seq, 0) >= size_from(seqs, seq, from),
    decreases from,
{
    if from > 0 {
        lemma_size_from_grows(seqs, seq, from - 1);
    }
}

impl LocalFunction {
    /// Number of instructions of the function, or `None` where the number
    /// does not fit.
    pub fn size(&self) -> (count: Option<u64>)
        ensures
            match count {
                Some(count) => count == self@.size(),
                None => self@.size() > u64::MAX,
            },
    {
        if self.entry < self.seqs.len() {
            count_from(self, self.entry)
        } else {
            Some(0)
        }
    }
}

} // verus!
