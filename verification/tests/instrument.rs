use lunatic_runtime::module::ir::{
    Function, FunctionKind, Instr, InstrSeq, LocalFunction, WasmModule, SeqType, ValType,
};
use lunatic_runtime::module::normalisation::heap_profiler::{
    add_profiler_to, by_name, clone_body, clone_function, patch, InstrumentError,
};

fn seq(ty: SeqType, instrs: Vec<Instr>) -> InstrSeq {
    InstrSeq { ty, instrs }
}

fn plain(instrs: Vec<Instr>) -> InstrSeq {
    seq(SeqType::Simple(None), instrs)
}

fn local(
    name: &str,
    params: Vec<ValType>,
    results: Vec<ValType>,
    args: Vec<usize>,
    seqs: Vec<InstrSeq>,
    entry: usize,
) -> Function {
    Function {
        name: Some(name.to_string()),
        params,
        results,
        kind: FunctionKind::Local(LocalFunction { args, seqs, entry }),
    }
}

fn import(name: Option<&str>, module: &str, field: &str) -> Function {
    Function {
        name: name.map(|n| n.to_string()),
        params: vec![ValType::I32],
        results: vec![],
        kind: FunctionKind::Import { module: module.to_string(), field: field.to_string() },
    }
}

/// A body whose scopes are not numbered in the order of a walk.
fn branching_body() -> LocalFunction {
    LocalFunction {
        args: vec![4, 2],
        seqs: vec![
            seq(
                SeqType::Simple(Some(ValType::I32)),
                vec![
                    Instr::LocalGet { local: 4 },
                    Instr::IfElse { consequent: 3, alternative: 1 },
                    Instr::Block { seq: 2 },
                    Instr::Other { token: 77 },
                ],
            ),
            seq(SeqType::MultiValue(9), vec![Instr::Br { block: 0 }, Instr::Br { block: 1 }]),
            plain(vec![Instr::Loop { seq: 4 }, Instr::Call { func: 12 }]),
            seq(SeqType::MultiValue(9), vec![Instr::BrIf { block: 3 }]),
            seq(
                SeqType::Simple(Some(ValType::F64)),
                vec![
                    Instr::Br { block: 2 },
                    Instr::BrIf { block: 4 },
                    Instr::Br { block: 0 },
                    Instr::LocalSet { local: 2 },
                ],
            ),
        ],
        entry: 0,
    }
}

fn branching_clone() -> LocalFunction {
    LocalFunction {
        args: vec![4, 2],
        seqs: vec![
            seq(
                SeqType::Simple(Some(ValType::I32)),
                vec![
                    Instr::LocalGet { local: 4 },
                    Instr::IfElse { consequent: 1, alternative: 2 },
                    Instr::Block { seq: 3 },
                    Instr::Other { token: 77 },
                ],
            ),
            seq(SeqType::MultiValue(9), vec![Instr::BrIf { block: 1 }]),
            seq(SeqType::MultiValue(9), vec![Instr::Br { block: 0 }, Instr::Br { block: 2 }]),
            plain(vec![Instr::Loop { seq: 4 }, Instr::Call { func: 12 }]),
            seq(
                SeqType::Simple(Some(ValType::F64)),
                vec![
                    Instr::Br { block: 3 },
                    Instr::BrIf { block: 4 },
                    Instr::Br { block: 0 },
                    Instr::LocalSet { local: 2 },
                ],
            ),
        ],
        entry: 0,
    }
}

fn allocator_module() -> WasmModule {
    WasmModule {
        funcs: vec![
            import(Some("log"), "env", "log"),
            local(
                "malloc",
                vec![ValType::I32],
                vec![ValType::I32],
                vec![0],
                vec![
                    seq(
                        SeqType::Simple(Some(ValType::I32)),
                        vec![
                            Instr::LocalGet { local: 0 },
                            Instr::Block { seq: 1 },
                            Instr::Other { token: 1 },
                        ],
                    ),
                    plain(vec![Instr::BrIf { block: 1 }, Instr::Br { block: 0 }]),
                ],
                0,
            ),
            local(
                "calloc",
                vec![ValType::I32, ValType::I32],
                vec![ValType::I32],
                vec![1, 2],
                vec![seq(SeqType::Simple(Some(ValType::I32)), vec![Instr::Call { func: 1 }])],
                0,
            ),
            local(
                "realloc",
                vec![ValType::I32, ValType::I32],
                vec![ValType::I32],
                vec![3, 4],
                vec![seq(SeqType::Simple(Some(ValType::I32)), vec![Instr::Other { token: 5 }])],
                0,
            ),
            local("free", vec![ValType::I32], vec![], vec![5], vec![plain(vec![])], 0),
            local("main", vec![], vec![], vec![], vec![plain(vec![Instr::Call { func: 1 }])], 0),
        ],
        locals: vec![
            ValType::I32,
            ValType::I32,
            ValType::I32,
            ValType::I32,
            ValType::I32,
            ValType::I32,
        ],
    }
}

#[test]
fn clone_renumbers_scopes_and_retargets_branches() {
    let body = branching_body();
    assert_eq!(clone_body(&body), Ok(branching_clone()));
}

#[test]
fn clone_of_a_clone_is_the_same() {
    let clone = clone_body(&branching_body()).unwrap();
    assert_eq!(clone_body(&clone), Ok(clone));
}

#[test]
fn clone_has_as_many_instructions_as_its_source() {
    let body = branching_body();
    let clone = clone_body(&body).unwrap();
    assert_eq!(body.size(), Some(4 + 2 + 2 + 1 + 4));
    assert_eq!(clone.size(), body.size());
}

#[test]
fn clone_leaves_out_scopes_that_the_entry_does_not_reach() {
    let body = LocalFunction {
        args: vec![],
        seqs: vec![
            plain(vec![Instr::Other { token: 1 }, Instr::Other { token: 2 }]),
            plain(vec![Instr::Block { seq: 3 }, Instr::Br { block: 1 }]),
            plain(vec![Instr::Other { token: 3 }]),
            plain(vec![Instr::Br { block: 1 }, Instr::Br { block: 3 }]),
        ],
        entry: 1,
    };
    let clone = clone_body(&body).unwrap();
    assert_eq!(
        clone,
        LocalFunction {
            args: vec![],
            seqs: vec![
                plain(vec![Instr::Block { seq: 1 }, Instr::Br { block: 0 }]),
                plain(vec![Instr::Br { block: 0 }, Instr::Br { block: 1 }]),
            ],
            entry: 0,
        }
    );
    assert_eq!(body.size(), Some(4));
    assert_eq!(clone.size(), Some(4));
}

#[test]
fn size_counts_a_shared_scope_once_for_each_use() {
    let body = LocalFunction {
        args: vec![],
        seqs: vec![
            plain(vec![Instr::IfElse { consequent: 1, alternative: 1 }]),
            plain(vec![Instr::Other { token: 1 }, Instr::Other { token: 2 }]),
        ],
        entry: 0,
    };
    assert_eq!(body.size(), Some(5));
    let clone = clone_body(&body).unwrap();
    assert_eq!(clone.seqs.len(), 3);
    assert_eq!(clone.size(), Some(5));
}

#[test]
fn size_of_a_body_without_entry_is_zero() {
    let body = LocalFunction { args: vec![], seqs: vec![], entry: 0 };
    assert_eq!(body.size(), Some(0));
    assert_eq!(clone_body(&body), Err(InstrumentError::MalformedBody));
}

#[test]
fn branch_to_a_scope_that_does_not_enclose_it_is_malformed() {
    let sibling = LocalFunction {
        args: vec![],
        seqs: vec![
            plain(vec![Instr::Block { seq: 1 }, Instr::Block { seq: 2 }]),
            plain(vec![]),
            plain(vec![Instr::Br { block: 1 }]),
        ],
        entry: 0,
    };
    assert_eq!(clone_body(&sibling), Err(InstrumentError::MalformedBody));
    let arm = LocalFunction {
        args: vec![],
        seqs: vec![
            plain(vec![Instr::IfElse { consequent: 1, alternative: 2 }]),
            plain(vec![]),
            plain(vec![Instr::BrIf { block: 1 }]),
        ],
        entry: 0,
    };
    assert_eq!(clone_body(&arm), Err(InstrumentError::MalformedBody));
    let inner = LocalFunction {
        args: vec![],
        seqs: vec![plain(vec![Instr::Block { seq: 1 }, Instr::Br { block: 1 }]), plain(vec![])],
        entry: 0,
    };
    assert_eq!(clone_body(&inner), Err(InstrumentError::MalformedBody));
    let nowhere = LocalFunction {
        args: vec![],
        seqs: vec![plain(vec![Instr::Br { block: 5 }])],
        entry: 0,
    };
    assert_eq!(clone_body(&nowhere), Err(InstrumentError::MalformedBody));
}

#[test]
fn scope_stored_before_its_parent_is_malformed() {
    let backwards = LocalFunction {
        args: vec![],
        seqs: vec![plain(vec![]), plain(vec![Instr::Block { seq: 0 }])],
        entry: 1,
    };
    assert_eq!(clone_body(&backwards), Err(InstrumentError::MalformedBody));
    let itself = LocalFunction {
        args: vec![],
        seqs: vec![plain(vec![Instr::Loop { seq: 0 }])],
        entry: 0,
    };
    assert_eq!(clone_body(&itself), Err(InstrumentError::MalformedBody));
    let missing = LocalFunction {
        args: vec![],
        seqs: vec![plain(vec![Instr::IfElse { consequent: 1, alternative: 2 }]), plain(vec![])],
        entry: 0,
    };
    assert_eq!(clone_body(&missing), Err(InstrumentError::MalformedBody));
}

#[test]
fn by_name_finds_the_first_function_with_the_name() {
    let mut module = allocator_module();
    module.funcs.push(local("malloc", vec![], vec![], vec![], vec![plain(vec![])], 0));
    assert_eq!(by_name(&module, "malloc"), Some(1));
    assert_eq!(by_name(&module, "free"), Some(4));
    assert_eq!(by_name(&module, "log"), Some(0));
    assert_eq!(by_name(&module, "mallo"), None);
    assert_eq!(by_name(&module, ""), None);
}

#[test]
fn clone_function_appends_the_clone() {
    let mut module = allocator_module();
    let before = module.clone();
    assert_eq!(clone_function(&mut module, 1, Some("copy".to_string())), Ok(6));
    assert_eq!(module.funcs.len(), 7);
    assert_eq!(module.funcs[..6], before.funcs[..]);
    assert_eq!(module.locals, before.locals);
    let FunctionKind::Local(body) = before.funcs[1].kind.clone() else { unreachable!() };
    assert_eq!(
        module.funcs[6],
        Function {
            name: Some("copy".to_string()),
            params: vec![ValType::I32],
            results: vec![ValType::I32],
            kind: FunctionKind::Local(body),
        }
    );
}

#[test]
fn clone_function_rejects_what_has_no_body() {
    let mut module = allocator_module();
    let before = module.clone();
    assert_eq!(clone_function(&mut module, 0, None), Err(InstrumentError::TargetNotLocal));
    assert_eq!(clone_function(&mut module, 6, None), Err(InstrumentError::TargetNotFound));
    assert_eq!(module, before);
}

#[test]
fn add_profiler_wraps_the_allocator() {
    let mut module = allocator_module();
    let before = module.clone();
    assert_eq!(add_profiler_to(&mut module, "malloc"), Ok(()));
    assert_eq!(module.funcs.len(), 8);
    for index in [0, 2, 3, 4, 5] {
        assert_eq!(module.funcs[index], before.funcs[index]);
    }
    let FunctionKind::Local(body) = before.funcs[1].kind.clone() else { unreachable!() };
    assert_eq!(
        module.funcs[6],
        Function {
            name: Some("malloc_wrap".to_string()),
            params: vec![ValType::I32],
            results: vec![ValType::I32],
            kind: FunctionKind::Local(body.clone()),
        }
    );
    assert_eq!(
        module.funcs[7],
        Function {
            name: None,
            params: vec![ValType::I32, ValType::I32],
            results: vec![],
            kind: FunctionKind::Import {
                module: "heap_profiler".to_string(),
                field: "malloc_profiler".to_string(),
            },
        }
    );
    assert_eq!(
        module.funcs[1],
        Function {
            name: Some("malloc".to_string()),
            params: vec![ValType::I32],
            results: vec![ValType::I32],
            kind: FunctionKind::Local(LocalFunction {
                args: vec![6],
                seqs: vec![seq(
                    SeqType::Simple(Some(ValType::I32)),
                    vec![
                        Instr::LocalGet { local: 6 },
                        Instr::Call { func: 6 },
                        Instr::LocalSet { local: 7 },
                        Instr::LocalGet { local: 6 },
                        Instr::LocalGet { local: 7 },
                        Instr::Call { func: 7 },
                        Instr::LocalGet { local: 7 },
                    ],
                )],
                entry: 0,
            }),
        }
    );
    assert_eq!(module.locals.len(), 8);
    assert_eq!(module.locals[6..], [ValType::I32, ValType::I32]);
    let FunctionKind::Local(clone) = module.funcs[6].kind.clone() else { unreachable!() };
    assert_eq!(clone.size(), body.size());
    assert_eq!(clone.size(), Some(5));
}

#[test]
fn add_profiler_reads_the_signature_of_the_target() {
    let mut module = WasmModule {
        funcs: vec![local(
            "pair",
            vec![ValType::I64, ValType::F32, ValType::Ref(3)],
            vec![ValType::F64, ValType::V128],
            vec![0, 1, 2],
            vec![seq(SeqType::MultiValue(4), vec![Instr::Other { token: 8 }])],
            0,
        )],
        locals: vec![ValType::I64, ValType::F32, ValType::Ref(3)],
    };
    assert_eq!(add_profiler_to(&mut module, "pair"), Ok(()));
    assert_eq!(
        module.locals,
        vec![
            ValType::I64,
            ValType::F32,
            ValType::Ref(3),
            ValType::I64,
            ValType::F32,
            ValType::Ref(3),
            ValType::F64,
            ValType::V128,
        ]
    );
    assert_eq!(
        module.funcs[2].params,
        vec![ValType::I64, ValType::F32, ValType::Ref(3), ValType::F64, ValType::V128]
    );
    assert_eq!(module.funcs[2].results, vec![]);
    assert_eq!(
        module.funcs[0].kind,
        FunctionKind::Local(LocalFunction {
            args: vec![3, 4, 5],
            seqs: vec![seq(
                SeqType::MultiValue(4),
                vec![
                    Instr::LocalGet { local: 3 },
                    Instr::LocalGet { local: 4 },
                    Instr::LocalGet { local: 5 },
                    Instr::Call { func: 1 },
                    Instr::LocalSet { local: 7 },
                    Instr::LocalSet { local: 6 },
                    Instr::LocalGet { local: 3 },
                    Instr::LocalGet { local: 4 },
                    Instr::LocalGet { local: 5 },
                    Instr::LocalGet { local: 6 },
                    Instr::LocalGet { local: 7 },
                    Instr::Call { func: 2 },
                    Instr::LocalGet { local: 6 },
                    Instr::LocalGet { local: 7 },
                ],
            )],
            entry: 0,
        })
    );
}

#[test]
fn add_profiler_to_a_function_without_parameters_or_results() {
    let mut module = WasmModule {
        funcs: vec![local("tick", vec![], vec![], vec![], vec![plain(vec![])], 0)],
        locals: vec![],
    };
    assert_eq!(add_profiler_to(&mut module, "tick"), Ok(()));
    assert_eq!(module.locals, vec![]);
    assert_eq!(
        module.funcs[0].kind,
        FunctionKind::Local(LocalFunction {
            args: vec![],
            seqs: vec![plain(vec![Instr::Call { func: 1 }, Instr::Call { func: 2 }])],
            entry: 0,
        })
    );
}

#[test]
fn add_profiler_fails_without_touching_the_module() {
    let mut module = allocator_module();
    module.funcs.push(local(
        "broken",
        vec![],
        vec![],
        vec![],
        vec![plain(vec![Instr::Br { block: 3 }])],
        0,
    ));
    let before = module.clone();
    assert_eq!(add_profiler_to(&mut module, "memalign"), Err(InstrumentError::TargetNotFound));
    assert_eq!(module, before);
    assert_eq!(add_profiler_to(&mut module, "log"), Err(InstrumentError::TargetNotLocal));
    assert_eq!(module, before);
    assert_eq!(add_profiler_to(&mut module, "broken"), Err(InstrumentError::MalformedBody));
    assert_eq!(module, before);
}

#[test]
fn patch_instruments_the_four_allocators() {
    let mut module = allocator_module();
    let before = module.clone();
    assert_eq!(patch(&mut module), Ok(()));
    assert_eq!(module.funcs.len(), 6 + 8);
    assert_eq!(module.funcs[0], before.funcs[0]);
    assert_eq!(module.funcs[5], before.funcs[5]);
    let names: Vec<Option<&str>> = module.funcs.iter().map(|f| f.name.as_deref()).collect();
    assert_eq!(
        names,
        vec![
            Some("log"),
            Some("malloc"),
            Some("calloc"),
            Some("realloc"),
            Some("free"),
            Some("main"),
            Some("malloc_wrap"),
            None,
            Some("calloc_wrap"),
            None,
            Some("realloc_wrap"),
            None,
            Some("free_wrap"),
            None,
        ]
    );
    let hooks: Vec<(String, String, usize)> = module
        .funcs
        .iter()
        .filter_map(|f| match &f.kind {
            FunctionKind::Import { module, field } if f.name.is_none() => {
                Some((module.clone(), field.clone(), f.params.len()))
            }
            _ => None,
        })
        .collect();
    assert_eq!(
        hooks,
        vec![
            ("heap_profiler".to_string(), "malloc_profiler".to_string(), 2),
            ("heap_profiler".to_string(), "calloc_profiler".to_string(), 3),
            ("heap_profiler".to_string(), "realloc_profiler".to_string(), 3),
            ("heap_profiler".to_string(), "free_profiler".to_string(), 1),
        ]
    );
    for (target, clone) in [(1, 6), (2, 8), (3, 10), (4, 12)] {
        let FunctionKind::Local(wrapped) = before.funcs[target].kind.clone() else {
            unreachable!()
        };
        let FunctionKind::Local(copy) = module.funcs[clone].kind.clone() else { unreachable!() };
        assert_eq!(copy, wrapped);
        assert_eq!(copy.size(), wrapped.size());
        assert_eq!(module.funcs[clone].params, before.funcs[target].params);
        assert_eq!(module.funcs[clone].results, before.funcs[target].results);
    }
    assert_eq!(
        module.funcs[4].kind,
        FunctionKind::Local(LocalFunction {
            args: vec![14],
            seqs: vec![plain(vec![
                Instr::LocalGet { local: 14 },
                Instr::Call { func: 12 },
                Instr::LocalGet { local: 14 },
                Instr::Call { func: 13 },
            ])],
            entry: 0,
        })
    );
    assert_eq!(module.locals.len(), 6 + 2 + 3 + 3 + 1);
}

#[test]
fn patch_changes_nothing_if_one_allocator_is_missing() {
    let mut module = allocator_module();
    module.funcs.remove(3);
    let before = module.clone();
    assert_eq!(patch(&mut module), Err(InstrumentError::TargetNotFound));
    assert_eq!(module, before);
}

#[test]
fn patch_reports_the_first_allocator_that_fails() {
    let mut module = allocator_module();
    module.funcs[4] = import(Some("free"), "env", "free");
    module.funcs[2] = local(
        "calloc",
        vec![],
        vec![],
        vec![],
        vec![plain(vec![Instr::Block { seq: 0 }])],
        0,
    );
    let before = module.clone();
    assert_eq!(patch(&mut module), Err(InstrumentError::MalformedBody));
    assert_eq!(module, before);
    module.funcs[2] = allocator_module().funcs[2].clone();
    let before = module.clone();
    assert_eq!(patch(&mut module), Err(InstrumentError::TargetNotLocal));
    assert_eq!(module, before);
}
