use lunatic_runtime::api::process::process::{
    step, EntryCall, FunctionLookup, MemoryChoice, ProcessAction, ProcessEvent, ProcessState,
    SPAWN_BY_INDEX, WASM_PAGE_SIZE,
};
use lunatic_runtime::api::process::table::{ProcessError, ProcessTable};

const EVENTS: [ProcessEvent; 8] = [
    ProcessEvent::Scheduled,
    ProcessEvent::Instantiated,
    ProcessEvent::LinkFailed,
    ProcessEvent::ExportMissing,
    ProcessEvent::HostCallPending,
    ProcessEvent::FutureReady,
    ProcessEvent::Returned,
    ProcessEvent::Trapped,
];

#[test]
fn named_entry_is_called_directly_without_arguments() {
    let call = FunctionLookup::Name("_start").entry_call();
    assert_eq!(
        call,
        EntryCall { export: "_start", argument: None, timed: true, keeps_output_on_trap: true }
    );
}

#[test]
fn table_index_goes_to_the_dispatcher_as_its_argument() {
    assert_eq!(SPAWN_BY_INDEX, "lunatic_spawn_by_index");
    let call = FunctionLookup::TableIndex(7).entry_call();
    assert_eq!(
        call,
        EntryCall {
            export: "lunatic_spawn_by_index",
            argument: Some(7),
            timed: false,
            keeps_output_on_trap: false,
        }
    );
    assert_eq!(FunctionLookup::TableIndex(0x7fff_ffff).entry_call().argument, Some(i32::MAX));
    assert_eq!(FunctionLookup::TableIndex(0x8000_0000).entry_call().argument, Some(i32::MIN));
    assert_eq!(FunctionLookup::TableIndex(u32::MAX).entry_call().argument, Some(-1));
}

#[test]
fn memory_choice_compares_by_value() {
    assert_eq!(MemoryChoice::New(Some(3)), MemoryChoice::New(Some(3)).clone());
    assert_ne!(MemoryChoice::New(None), MemoryChoice::Existing);
    assert_ne!(MemoryChoice::New(None), MemoryChoice::New(Some(0)));
}

#[test]
fn page_cap_is_counted_in_pages_of_64_kib() {
    assert_eq!(WASM_PAGE_SIZE, 64 * 1024);
    assert_eq!(MemoryChoice::New(Some(3)).max_bytes(), Some(196608));
    assert_eq!(MemoryChoice::New(Some(0)).max_bytes(), Some(0));
    assert_eq!(MemoryChoice::New(Some(u32::MAX)).max_bytes(), Some(281474976645120));
    assert_eq!(MemoryChoice::New(None).max_bytes(), None);
    assert_eq!(MemoryChoice::Existing.max_bytes(), None);
}

#[test]
fn process_runs_to_completion() {
    let function = FunctionLookup::Name("_start");
    let (state, action) = step(ProcessState::Created, &function, ProcessEvent::Scheduled).unwrap();
    assert_eq!((state, action), (ProcessState::Linking, ProcessAction::Link));
    let (state, action) = step(state, &function, ProcessEvent::Instantiated).unwrap();
    assert_eq!(state, ProcessState::Running);
    assert_eq!(action, ProcessAction::Invoke(function.entry_call()));
    let (state, action) = step(state, &function, ProcessEvent::HostCallPending).unwrap();
    assert_eq!((state, action), (ProcessState::Suspended, ProcessAction::Park));
    let (state, action) = step(state, &function, ProcessEvent::FutureReady).unwrap();
    assert_eq!((state, action), (ProcessState::Running, ProcessAction::Resume));
    let (state, action) = step(state, &function, ProcessEvent::Returned).unwrap();
    assert_eq!((state, action), (ProcessState::CompletedOk, ProcessAction::Deliver));
    for event in EVENTS {
        assert_eq!(step(state, &function, event), None);
    }
}

#[test]
fn trap_of_named_entry_keeps_partial_output() {
    let function = FunctionLookup::Name("main");
    let moved = step(ProcessState::Running, &function, ProcessEvent::Trapped);
    assert_eq!(
        moved,
        Some((
            ProcessState::CompletedErr { partial_output: true },
            ProcessAction::Fail { partial_output: true }
        ))
    );
}

#[test]
fn trap_of_table_entry_drops_partial_output() {
    let function = FunctionLookup::TableIndex(3);
    let moved = step(ProcessState::Running, &function, ProcessEvent::Trapped);
    assert_eq!(
        moved,
        Some((
            ProcessState::CompletedErr { partial_output: false },
            ProcessAction::Fail { partial_output: false }
        ))
    );
    let moved = step(ProcessState::Linking, &function, ProcessEvent::Instantiated);
    assert_eq!(
        moved,
        Some((
            ProcessState::Running,
            ProcessAction::Invoke(EntryCall {
                export: "lunatic_spawn_by_index",
                argument: Some(3),
                timed: false,
                keeps_output_on_trap: false,
            })
        ))
    );
}

#[test]
fn link_and_lookup_failures_complete_without_output() {
    let function = FunctionLookup::Name("_start");
    let failed = Some((
        ProcessState::CompletedErr { partial_output: false },
        ProcessAction::Fail { partial_output: false },
    ));
    assert_eq!(step(ProcessState::Linking, &function, ProcessEvent::LinkFailed), failed);
    assert_eq!(step(ProcessState::Running, &function, ProcessEvent::ExportMissing), failed);
}

#[test]
fn events_out_of_place_are_refused() {
    let function = FunctionLookup::Name("_start");
    let accepted = |state: ProcessState| -> Vec<ProcessEvent> {
        EVENTS.iter().copied().filter(|event| step(state, &function, *event).is_some()).collect()
    };
    assert_eq!(accepted(ProcessState::Created), vec![ProcessEvent::Scheduled]);
    assert_eq!(
        accepted(ProcessState::Linking),
        vec![ProcessEvent::Instantiated, ProcessEvent::LinkFailed]
    );
    assert_eq!(
        accepted(ProcessState::Running),
        vec![
            ProcessEvent::ExportMissing,
            ProcessEvent::HostCallPending,
            ProcessEvent::Returned,
            ProcessEvent::Trapped
        ]
    );
    assert_eq!(accepted(ProcessState::Suspended), vec![ProcessEvent::FutureReady]);
    assert_eq!(accepted(ProcessState::CompletedOk), vec![]);
    assert_eq!(accepted(ProcessState::CompletedErr { partial_output: true }), vec![]);
    assert_eq!(accepted(ProcessState::CompletedErr { partial_output: false }), vec![]);
}

#[test]
fn table_issues_fresh_ids() {
    let mut table: ProcessTable<&str> = ProcessTable::new();
    assert_eq!(table.len(), 0);
    assert_eq!(table.add("a"), Ok(0));
    assert_eq!(table.add("b"), Ok(1));
    assert_eq!(table.len(), 2);
    assert!(table.contains(0));
    assert!(table.contains(1));
    assert!(!table.contains(2));
}

#[test]
fn process_is_collected_exactly_once() {
    let mut table: ProcessTable<String> = ProcessTable::new();
    let first = table.add("first".to_string()).unwrap();
    let second = table.add("second".to_string()).unwrap();
    assert_eq!(table.remove(first), Ok("first".to_string()));
    assert_eq!(table.remove(first), Err(ProcessError::NotFound));
    assert!(!table.contains(first));
    assert_eq!(table.len(), 1);
    let third = table.add("third".to_string()).unwrap();
    assert_ne!(third, first);
    assert_eq!(third, 2);
    assert_eq!(table.remove(first), Err(ProcessError::NotFound));
    assert_eq!(table.remove(second), Ok("second".to_string()));
    assert_eq!(table.remove(third), Ok("third".to_string()));
    assert_eq!(table.len(), 0);
}

#[test]
fn removing_an_id_never_issued_is_an_error() {
    let mut table: ProcessTable<u8> = ProcessTable::new();
    assert_eq!(table.remove(0), Err(ProcessError::NotFound));
    assert_eq!(table.add(9), Ok(0));
    assert_eq!(table.remove(5), Err(ProcessError::NotFound));
    assert_eq!(table.len(), 1);
    assert_eq!(ProcessError::NotFound.message(), "Process not found");
}
