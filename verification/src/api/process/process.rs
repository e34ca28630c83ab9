//! The life cycle of one actor process.
//!
//! A process runs the entry point of a module instance on an auxiliary stack.
//! The embedder performs the outside work (allocating the stack, linking,
//! calling into the guest, parking and resuming the stack) and reports what
//! happened as a [`ProcessEvent`]; [`step`] decides the next state and what
//! the embedder must do next.

use vstd::prelude::*;

verus! {

/// Name of the export that dispatches a process spawned from a table index.
pub const SPAWN_BY_INDEX: &'static str = "lunatic_spawn_by_index";

/// Used to look up a function by name or table index inside of an instance.
#[derive(Clone, Copy, Debug, PartialEq, Eq)]
pub enum FunctionLookup {
    /// Entry through the dispatcher export, which receives the table index.
    TableIndex(u32),
    /// Entry through the export of this name.
    Name(&'static str),
}

/// The memory an instance runs on.
///
/// A new memory can enforce a maximum size in Wasm pages, where 1 Wasm page =
/// 64KiB memory.
#[derive(Clone, Copy, Debug, PartialEq, Eq, Structural)]
pub enum MemoryChoice {
    /// Reuse the memory of the caller.
    Existing,
    /// Allocate a fresh memory, bounded by the page cap if there is one.
    New(Option<u32>),
}

/// Bytes in one Wasm page.
pub const WASM_PAGE_SIZE: u64 = 65536;

impl MemoryChoice {
    /// The largest size in bytes that the memory may grow to, if it is a new
    /// memory with a page cap.
    pub open spec fn byte_cap(self) -> Option<u64> {
        match self {
            MemoryChoice::New(Some(pages)) => Some((pages * WASM_PAGE_SIZE) as u64),
            _ => None,
        }
    }

    /// The largest size in bytes that the memory may grow to, if it is a new
    /// memory with a page cap.
    pub fn max_bytes(&self) -> (cap: Option<u64>)
        ensures
            cap == self.byte_cap(),
    {
        match *self {
            MemoryChoice::New(Some(pages)) => Some(pages as u64 * WASM_PAGE_SIZE),
            _ => None,
        }
    }
}

/// The call that enters the guest.
#[derive(Clone, Copy, Debug, PartialEq, Eq)]
pub struct EntryCall {
    /// Name of the export to resolve and call.
    pub export: &'static str,
    /// The single argument of the call, if it takes one.
    pub argument: Option<i32>,
    /// Whether the duration of the call is measured and logged.
    pub timed: bool,
    /// Whether a trap during the call still hands over the bundle output.
    pub keeps_output_on_trap: bool,
}

/// The 32-bit two's complement reading of a table index.
pub open spec fn index_argument(index: u32) -> int {
    if index < 0x8000_0000 {
        index as int
    } else {
        index - 0x1_0000_0000
    }
}

impl FunctionLookup {
    /// Whether `call` is the entry call that this lookup stands for.
    pub open spec fn enters_by(self, call: EntryCall) -> bool {
        match self {
            FunctionLookup::Name(name) => {
                &&& call.export@ == name@
                &&& call.argument is None
                &&& call.timed
                &&& call.keeps_output_on_trap
            },
            FunctionLookup::TableIndex(index) => {
                &&& call.export@ == SPAWN_BY_INDEX@
                &&& call.argument == Some(index_argument(index) as i32)
                &&& !call.timed
                &&& !call.keeps_output_on_trap
            },
        }
    }

    /// The call that enters the guest: a named export is called directly and
    /// without arguments; a table index goes to the dispatcher export as its
    /// sole argument.
    pub fn entry_call(&self) -> (call: EntryCall)
        ensures
            self.enters_by(call),
    {
        match *self {
            FunctionLookup::Name(name) => EntryCall {
                export: name,
                argument: None,
                timed: true,
                keeps_output_on_trap: true,
            },
            FunctionLookup::TableIndex(index) => {
                assert(index as i32 == index_argument(index)) by (bit_vector);
                EntryCall {
                    export: SPAWN_BY_INDEX,
                    argument: Some(#[verifier::truncate] (index as i32)),
                    timed: false,
                    keeps_output_on_trap: false,
                }
            },
        }
    }
}

/// Where a process stands in its life.
#[derive(Clone, Copy, Debug, PartialEq, Eq, Structural)]
pub enum ProcessState {
    /// Holds its module, entry point, memory choice and capabilities; nothing
    /// has been allocated.
    Created,
    /// The scheduler has control: the auxiliary stack and the execution
    /// context are being set up, and the module is being linked and
    /// instantiated.
    Linking,
    /// The entry point executes on the auxiliary stack.
    Running,
    /// A host call waits on a future; the auxiliary stack is parked.
    Suspended,
    /// The entry point returned; the output of the capability bundle is
    /// handed over.
    CompletedOk,
    /// Linking, the lookup of the entry point or the guest failed.
    /// `partial_output` says whether the output produced up to the failure is
    /// handed over with the error.
    CompletedErr { partial_output: bool },
}

/// What the embedder observed.
#[derive(Clone, Copy, Debug, PartialEq, Eq, Structural)]
pub enum ProcessEvent {
    /// The scheduler polled the process for the first time.
    Scheduled,
    /// The stack is allocated and the module is linked and instantiated.
    Instantiated,
    /// The stack could not be allocated, or linking or instantiation failed.
    LinkFailed,
    /// The instance has no export of the name that the entry call asks for.
    ExportMissing,
    /// A host call must wait on a future.
    HostCallPending,
    /// The future that a host call waits on has resolved.
    FutureReady,
    /// The entry point returned.
    Returned,
    /// The guest trapped.
    Trapped,
}

/// What the embedder must do next.
#[derive(Clone, Copy, Debug, PartialEq, Eq)]
pub enum ProcessAction {
    /// Allocate the auxiliary stack, build the execution context, bind the
    /// capabilities and instantiate the module.
    Link,
    /// Resolve the export and call it on the auxiliary stack.
    Invoke(EntryCall),
    /// Park the auxiliary stack and give control back to the scheduler.
    Park,
    /// Switch back to the parked stack with the resolved value.
    Resume,
    /// Resolve the process with the output of the capability bundle.
    Deliver,
    /// Resolve the process with the error, and with the output produced so
    /// far if `partial_output` holds.
    Fail { partial_output: bool },
}

impl ProcessState {
    /// Whether the process has resolved.
    pub open spec fn completed(self) -> bool {
        self is CompletedOk || self is CompletedErr
    }

    /// The state that follows `self` on `event`, for a process entered by
    /// `function`; `None` where `event` cannot occur in `self`.
    pub open spec fn next(self, function: FunctionLookup, event: ProcessEvent) -> Option<
        ProcessState,
    > {
        match (self, event) {
            (ProcessState::Created, ProcessEvent::Scheduled) => Some(ProcessState::Linking),
            (ProcessState::Linking, ProcessEvent::Instantiated) => Some(ProcessState::Running),
            (ProcessState::Linking, ProcessEvent::LinkFailed) => Some(
                ProcessState::CompletedErr { partial_output: false },
            ),
            (ProcessState::Running, ProcessEvent::ExportMissing) => Some(
                ProcessState::CompletedErr { partial_output: false },
            ),
            (ProcessState::Running, ProcessEvent::HostCallPending) => Some(
                ProcessState::Suspended,
            ),
            (ProcessState::Suspended, ProcessEvent::FutureReady) => Some(ProcessState::Running),
            (ProcessState::Running, ProcessEvent::Returned) => Some(ProcessState::CompletedOk),
            (ProcessState::Running, ProcessEvent::Trapped) => Some(
                ProcessState::CompletedErr { partial_output: function is Name },
            ),
            _ => None,
        }
    }

    /// Whether `action` is what the embedder must do when the process, entered
    /// by `function`, has moved to the state `self` on `event`.
    pub open spec fn calls_for(
        self,
        function: FunctionLookup,
        event: ProcessEvent,
        action: ProcessAction,
    ) -> bool {
        match self {
            ProcessState::Created => false,
            ProcessState::Linking => action is Link,
            ProcessState::Running => if event is FutureReady {
                action is Resume
            } else {
                action matches ProcessAction::Invoke(call) && function.enters_by(call)
            },
            ProcessState::Suspended => action is Park,
            ProcessState::CompletedOk => action is Deliver,
            ProcessState::CompletedErr { partial_output } => action == (ProcessAction::Fail {
                partial_output,
            }),
        }
    }
}

/// Moves a process, entered by `function`, from `state` on `event`: the state
/// that follows and what the embedder must do, or `None` where `event`
/// cannot occur in `state` (a completed process accepts no event).
pub fn step(state: ProcessState, function: &FunctionLookup, event: ProcessEvent) -> (moved: Option<
    (ProcessState, ProcessAction),
>)
    ensures
        match moved {
            Some((next, action)) => {
                &&& state.next(*function, event) == Some(next)
                &&& next.calls_for(*function, event, action)
            },
            None => state.next(*function, event) is None,
        },
{
    match (state, event) {
        (ProcessState::Created, ProcessEvent::Scheduled) => Some(
            (ProcessState::Linking, ProcessAction::Link),
        ),
        (ProcessState::Linking, ProcessEvent::Instantiated) => Some(
            (ProcessState::Running, ProcessAction::Invoke(function.entry_call())),
        ),
        (ProcessState::Linking, ProcessEvent::LinkFailed) => Some(
            (
                ProcessState::CompletedErr { partial_output: false },
                ProcessAction::Fail { partial_output: false },
            ),
        ),
        (ProcessState::Running, ProcessEvent::ExportMissing) => Some(
            (
                ProcessState::CompletedErr { partial_output: false },
                ProcessAction::Fail { partial_output: false },
            ),
        ),
        (ProcessState::Running, ProcessEvent::HostCallPending) => Some(
            (ProcessState::Suspended, ProcessAction::Park),
        ),
        (ProcessState::Suspended, ProcessEvent::FutureReady) => Some(
            (ProcessState::Running, ProcessAction::Resume),
        ),
        (ProcessState::Running, ProcessEvent::Returned) => Some(
            (ProcessState::CompletedOk, ProcessAction::Deliver),
        ),
        (ProcessState::Running, ProcessEvent::Trapped) => {
            let partial_output = function.entry_call().keeps_output_on_trap;
            Some(
                (
                    ProcessState::CompletedErr { partial_output },
                    ProcessAction::Fail { partial_output },
                ),
            )
        },
        _ => None,
    }
}

/// A completed process accepts no event.
pub proof fn lemma_completed_is_final(
    state: ProcessState,
    function: FunctionLookup,
    event: ProcessEvent,
)
    requires
        state.completed(),
    ensures
        state.next(function, event) is None,
{
}

/// A process is suspended only while it runs and, once the future it waits
/// on resolves, runs again: parking and resuming leaves it where it was.
pub proof fn lemma_suspension_round_trip(function: FunctionLookup)
    ensures
        ProcessState::Running.next(function, ProcessEvent::HostCallPending) == Some(
            ProcessState::Suspended,
        ),
        ProcessState::Suspended.next(function, ProcessEvent::FutureReady) == Some(
            ProcessState::Running,
        ),
        forall|state: ProcessState, event: ProcessEvent|
            state.next(function, event) == Some(ProcessState::Suspended) ==> state
                == ProcessState::Running,
        forall|event: ProcessEvent, next: ProcessState|
            ProcessState::Suspended.next(function, event) == Some(next) ==> next
                == ProcessState::Running,
{
}

/// No guest code runs before the scheduler has control: a process leaves
/// `Created` only on `Scheduled`, and only for `Linking`.
pub proof fn lemma_starts_when_scheduled(
    function: FunctionLookup,
    event: ProcessEvent,
    next: ProcessState,
)
    requires
        ProcessState::Created.next(function, event) == Some(next),
    ensures
        event == ProcessEvent::Scheduled,
        next == ProcessState::Linking,
{
}

} // verus!
