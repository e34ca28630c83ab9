//! Host-side ledger of guest heap allocations.
//!
//! Instrumented guest allocators report every `malloc`, `calloc`, `realloc`
//! and `free` to this ledger. It keeps the size recorded for each live
//! pointer, the number of live bytes, the number of bytes ever requested, and
//! a bounded history of `(live bytes, elapsed time)` samples.
//!
//! Policies fixed here:
//! - the live byte count is always the sum of the recorded sizes, so a
//!   pointer reported twice without a `free` in between has its earlier
//!   record replaced, and the replaced size stops counting as live;
//! - `free` and `realloc` of a pointer that is not tracked are rejected with
//!   [`ProfilerError::UnknownPointer`] and leave the ledger untouched;
//! - `calloc` whose byte count does not fit a guest size is rejected with
//!   [`ProfilerError::SizeOverflow`] and leaves the ledger untouched;
//! - when the system clock reads earlier than the start of the ledger, the
//!   sample is stamped with zero elapsed time.

use std::collections::HashMap;
use std::collections::VecDeque;
use std::time::Duration;
use std::time::SystemTime;
use vstd::prelude::*;

verus! {

broadcast use vstd::std_specs::hash::group_hash_axioms;

/// An offset into guest linear memory.
pub type Ptr = u32;

/// A size in bytes inside guest linear memory.
pub type Size = u32;

/// Number of samples that a ledger made by [`HeapProfilerState::new`] retains.
pub const HISTORY_CAPACITY: usize = 100000;

/// One point of the heap time series.
#[derive(Clone, Copy, Debug, PartialEq, Eq, Structural)]
pub struct Sample {
    /// Live bytes right after the call that produced the sample.
    pub live_heap_size: u64,
    /// Nanoseconds between the creation of the ledger and the sample.
    pub elapsed_nanos: u128,
}

/// Why a reported allocator call was not entered in the ledger.
#[derive(Clone, Copy, Debug, PartialEq, Eq, Structural)]
pub enum ProfilerError {
    /// The byte count of a `calloc` exceeds the largest guest size.
    SizeOverflow,
    /// The pointer handed to `free` or `realloc` is not tracked.
    UnknownPointer,
}

/// Number of distinct guest pointers.
pub open spec fn pointer_space() -> nat {
    0x1_0000_0000
}

/// The size recorded for `ptr`, zero where `ptr` is not tracked.
pub open spec fn size_at(table: Map<Ptr, Size>, ptr: int) -> nat {
    if 0 <= ptr < pointer_space() && table.contains_key(ptr as Ptr) {
        table[ptr as Ptr] as nat
    } else {
        0
    }
}

/// Sum of the sizes recorded for the pointers below `bound`.
pub open spec fn bytes_below(table: Map<Ptr, Size>, bound: nat) -> nat
    decreases bound,
{
    if bound == 0 {
        0
    } else {
        bytes_below(table, (bound - 1) as nat) + size_at(table, bound - 1)
    }
}

/// Sum of all sizes recorded in `table`.
pub open spec fn table_bytes(table: Map<Ptr, Size>) -> nat {
    bytes_below(table, pointer_space())
}

/// The history after one more sample: at capacity the oldest sample leaves.
pub open spec fn push_bounded(history: Seq<Sample>, capacity: nat, sample: Sample) -> Seq<Sample> {
    if history.len() < capacity {
        history.push(sample)
    } else {
        history.drop_first().push(sample)
    }
}

/// The mathematical content of a [`HeapProfilerState`].
pub struct Ledger {
    /// Recorded size of every tracked pointer.
    pub table: Map<Ptr, Size>,
    /// Bytes currently allocated.
    pub live_heap_size: nat,
    /// Bytes requested since the ledger was created.
    pub total_allocated: nat,
    /// Retained samples, oldest first.
    pub history: Seq<Sample>,
    /// Largest number of samples retained.
    pub capacity: nat,
}

impl Ledger {
    /// The ledger invariant: the live size is the sum of the recorded sizes,
    /// never more than what was requested in total, and the history fits its
    /// capacity.
    pub open spec fn wf(self) -> bool {
        &&& self.table.dom().finite()
        &&& self.live_heap_size == table_bytes(self.table)
        &&& self.live_heap_size <= self.total_allocated
        &&& 0 < self.capacity
        &&& 0 < self.history.len() <= self.capacity
    }

    /// A ledger with nothing tracked and the initial sample `(0, 0)`.
    pub open spec fn fresh(capacity: nat) -> Ledger {
        Ledger {
            table: Map::empty(),
            live_heap_size: 0,
            total_allocated: 0,
            history: seq![Sample { live_heap_size: 0, elapsed_nanos: 0 }],
            capacity,
        }
    }

    /// Appends the sample `(live_heap_size, elapsed_nanos)` to the history.
    pub open spec fn sampled(self, elapsed_nanos: u128) -> Ledger {
        Ledger {
            history: push_bounded(
                self.history,
                self.capacity,
                Sample { live_heap_size: self.live_heap_size as u64, elapsed_nanos },
            ),
            ..self
        }
    }

    /// `malloc(size)` returned `ptr`.
    pub open spec fn on_malloc(self, size: Size, ptr: Ptr, elapsed_nanos: u128) -> Ledger {
        Ledger {
            table: self.table.insert(ptr, size),
            live_heap_size: (self.live_heap_size - size_at(self.table, ptr as int) + size) as nat,
            total_allocated: self.total_allocated + (size as nat),
            ..self
        }.sampled(elapsed_nanos)
    }

    /// Whether the byte count of `calloc(count, elem_size)` is a guest size.
    pub open spec fn calloc_fits(count: Size, elem_size: Size) -> bool {
        count * elem_size <= Size::MAX
    }

    /// `calloc(count, elem_size)` returned `ptr`.
    pub open spec fn on_calloc(
        self,
        count: Size,
        elem_size: Size,
        ptr: Ptr,
        elapsed_nanos: u128,
    ) -> Ledger {
        if Self::calloc_fits(count, elem_size) {
            self.on_malloc((count * elem_size) as Size, ptr, elapsed_nanos)
        } else {
            self
        }
    }

    /// `realloc(old_ptr, new_size)` returned `new_ptr`.
    pub open spec fn on_realloc(
        self,
        old_ptr: Ptr,
        new_size: Size,
        new_ptr: Ptr,
        elapsed_nanos: u128,
    ) -> Ledger {
        if self.table.contains_key(old_ptr) {
            let old_size = self.table[old_ptr];
            let rest = self.table.remove(old_ptr);
            Ledger {
                table: rest.insert(new_ptr, new_size),
                live_heap_size: (self.live_heap_size - old_size - size_at(rest, new_ptr as int)
                    + new_size) as nat,
                total_allocated: (self.total_allocated - old_size + new_size) as nat,
                ..self
            }.sampled(elapsed_nanos)
        } else {
            self
        }
    }

    /// Whether `free(ptr)` releases a tracked allocation.
    pub open spec fn frees(self, ptr: Ptr) -> bool {
        ptr != 0 && self.table.contains_key(ptr)
    }

    /// `free(ptr)` was called.
    pub open spec fn on_free(self, ptr: Ptr, elapsed_nanos: u128) -> Ledger {
        if self.frees(ptr) {
            Ledger {
                table: self.table.remove(ptr),
                live_heap_size: (self.live_heap_size - self.table[ptr]) as nat,
                ..self
            }.sampled(elapsed_nanos)
        } else {
            self
        }
    }
}

/// Recording `size` at `ptr` changes the sum below `bound` by the difference
/// between `size` and what was recorded at `ptr` before.
pub proof fn lemma_bytes_below_insert(table: Map<Ptr, Size>, ptr: Ptr, size: Size, bound: nat)
    requires
        bound <= pointer_space(),
    ensures
        bytes_below(table.insert(ptr, size), bound) == if ptr < bound {
            bytes_below(table, bound) - size_at(table, ptr as int) + size
        } else {
            bytes_below(table, bound) as int
        },
        ptr < bound ==> size_at(table, ptr as int) <= bytes_below(table, bound),
    decreases bound,
{
    if bound > 0 {
        lemma_bytes_below_insert(table, ptr, size, (bound - 1) as nat);
    }
}

/// Forgetting `ptr` lowers the sum below `bound` by what was recorded at `ptr`.
pub proof fn lemma_bytes_below_remove(table: Map<Ptr, Size>, ptr: Ptr, bound: nat)
    requires
        bound <= pointer_space(),
    ensures
        bytes_below(table.remove(ptr), bound) == if ptr < bound {
            bytes_below(table, bound) - size_at(table, ptr as int)
        } else {
            bytes_below(table, bound) as int
        },
        ptr < bound ==> size_at(table, ptr as int) <= bytes_below(table, bound),
    decreases bound,
{
    if bound > 0 {
        lemma_bytes_below_remove(table, ptr, (bound - 1) as nat);
    }
}

/// Every recorded size is a guest size, so the sum below `bound` is at most
/// `bound` times the largest guest size.
pub proof fn lemma_bytes_below_bounded(table: Map<Ptr, Size>, bound: nat)
    ensures
        bytes_below(table, bound) <= bound * 0xffff_ffff,
    decreases bound,
{
    if bound > 0 {
        lemma_bytes_below_bounded(table, (bound - 1) as nat);
        assert(bound * 0xffff_ffff == (bound - 1) * 0xffff_ffff + 0xffff_ffff) by (nonlinear_arith);
    }
}

/// An empty table holds no bytes.
pub proof fn lemma_bytes_below_empty(bound: nat)
    ensures
        bytes_below(Map::<Ptr, Size>::empty(), bound) == 0,
    decreases bound,
{
    if bound > 0 {
        lemma_bytes_below_empty((bound - 1) as nat);
    }
}

/// The live size of a well-formed ledger fits the counter that holds it.
pub proof fn lemma_live_fits(ledger: Ledger)
    requires
        ledger.wf(),
    ensures
        ledger.live_heap_size <= 0xffff_ffff_0000_0000,
{
    lemma_bytes_below_bounded(ledger.table, pointer_space());
}

/// A fresh ledger is well formed.
pub proof fn lemma_fresh_wf(capacity: nat)
    requires
        0 < capacity,
    ensures
        Ledger::fresh(capacity).wf(),
{
    lemma_bytes_below_empty(pointer_space());
}

/// `malloc` keeps a ledger well formed.
pub proof fn lemma_on_malloc_wf(ledger: Ledger, size: Size, ptr: Ptr, elapsed_nanos: u128)
    requires
        ledger.wf(),
    ensures
        ledger.on_malloc(size, ptr, elapsed_nanos).wf(),
        size_at(ledger.table, ptr as int) <= ledger.live_heap_size,
{
    lemma_bytes_below_insert(ledger.table, ptr, size, pointer_space());
}

/// `calloc` keeps a ledger well formed.
pub proof fn lemma_on_calloc_wf(
    ledger: Ledger,
    count: Size,
    elem_size: Size,
    ptr: Ptr,
    elapsed_nanos: u128,
)
    requires
        ledger.wf(),
    ensures
        ledger.on_calloc(count, elem_size, ptr, elapsed_nanos).wf(),
{
    if Ledger::calloc_fits(count, elem_size) {
        lemma_on_malloc_wf(ledger, (count * elem_size) as Size, ptr, elapsed_nanos);
    }
}

/// `realloc` keeps a ledger well formed.
pub proof fn lemma_on_realloc_wf(
    ledger: Ledger,
    old_ptr: Ptr,
    new_size: Size,
    new_ptr: Ptr,
    elapsed_nanos: u128,
)
    requires
        ledger.wf(),
    ensures
        ledger.on_realloc(old_ptr, new_size, new_ptr, elapsed_nanos).wf(),
        ledger.table.contains_key(old_ptr) ==> ledger.table[old_ptr] + size_at(
            ledger.table.remove(old_ptr),
            new_ptr as int,
        ) <= ledger.live_heap_size,
{
    if ledger.table.contains_key(old_ptr) {
        let rest = ledger.table.remove(old_ptr);
        lemma_bytes_below_remove(ledger.table, old_ptr, pointer_space());
        lemma_bytes_below_insert(rest, new_ptr, new_size, pointer_space());
    }
}

/// `free` keeps a ledger well formed.
pub proof fn lemma_on_free_wf(ledger: Ledger, ptr: Ptr, elapsed_nanos: u128)
    requires
        ledger.wf(),
    ensures
        ledger.on_free(ptr, elapsed_nanos).wf(),
        ledger.table.contains_key(ptr) ==> ledger.table[ptr] <= ledger.live_heap_size,
{
    lemma_bytes_below_remove(ledger.table, ptr, pointer_space());
}

/// `std::time::SystemTime`, carried through as an opaque value.
#[verifier::external_type_specification]
#[verifier::external_body]
pub struct ExSystemTime(SystemTime);

/// `SystemTime::now`: the current reading of the system clock. Nothing is
/// claimed of the value.
#[verifier::external_body]
fn system_time_now() -> (now: SystemTime) {
    SystemTime::now()
}

/// `SystemTime::elapsed`: the time that has passed since `start`, or `None`
/// where the clock now reads earlier than `start`. Nothing is claimed of the
/// value.
#[verifier::external_body]
fn system_time_elapsed(start: &SystemTime) -> (elapsed: Option<Duration>) {
    match start.elapsed() {
        Ok(elapsed) => Some(elapsed),
        Err(_) => None,
    }
}

/// `Duration::as_nanos`: the whole duration in nanoseconds. Nothing is
/// claimed of the value.
#[verifier::external_body]
fn duration_as_nanos(duration: &Duration) -> (nanos: u128) {
    duration.as_nanos()
}

/// Allocation ledger and heap time series of one guest instance.
pub struct HeapProfilerState {
    memory: HashMap<Ptr, Size>,
    live_heap_size: u64,
    total_allocated: u64,
    started: SystemTime,
    heap_history: VecDeque<Sample>,
    capacity: usize,
}

impl View for HeapProfilerState {
    type V = Ledger;

    closed spec fn view(&self) -> Ledger {
        Ledger {
            table: self.memory@,
            live_heap_size: self.live_heap_size as nat,
            total_allocated: self.total_allocated as nat,
            history: self.heap_history@,
            capacity: self.capacity as nat,
        }
    }
}

impl HeapProfilerState {
    /// The invariant every ledger handed out by this module satisfies.
    pub closed spec fn wf(&self) -> bool {
        self@.wf()
    }

    /// What [`Self::wf`] means for the content of the ledger.
    pub proof fn lemma_wf(&self)
        requires
            self.wf(),
        ensures
            self@.wf(),
            self@.live_heap_size <= u64::MAX,
            self@.total_allocated <= u64::MAX,
            self@.capacity <= usize::MAX,
    {
    }

    /// An empty ledger that retains [`HISTORY_CAPACITY`] samples; its clock
    /// starts now.
    pub fn new() -> (state: Self)
        ensures
            state.wf(),
            state@ == Ledger::fresh(HISTORY_CAPACITY as nat),
    {
        let mut history = VecDeque::with_capacity(HISTORY_CAPACITY);
        history.push_back(Sample { live_heap_size: 0, elapsed_nanos: 0 });
        let state = Self {
            memory: HashMap::new(),
            live_heap_size: 0,
            total_allocated: 0,
            started: system_time_now(),
            heap_history: history,
            capacity: HISTORY_CAPACITY,
        };
        proof {
            lemma_fresh_wf(HISTORY_CAPACITY as nat);
            assert(state@.history =~= Ledger::fresh(HISTORY_CAPACITY as nat).history);
        }
        state
    }

    /// An empty ledger that retains `capacity` samples; its clock starts now.
    pub fn with_history_capacity(capacity: usize) -> (state: Self)
        requires
            0 < capacity,
        ensures
            state.wf(),
            state@ == Ledger::fresh(capacity as nat),
    {
        let mut history = VecDeque::new();
        history.push_back(Sample { live_heap_size: 0, elapsed_nanos: 0 });
        let state = Self {
            memory: HashMap::new(),
            live_heap_size: 0,
            total_allocated: 0,
            started: system_time_now(),
            heap_history: history,
            capacity,
        };
        proof {
            lemma_fresh_wf(capacity as nat);
            assert(state@.history =~= Ledger::fresh(capacity as nat).history);
        }
        state
    }

    /// The time stamp that a reading of the clock gives: the nanoseconds
    /// read, and zero where the clock has been set back past the creation of
    /// the ledger and so gives no reading.
    pub fn stamp(reading: Option<u128>) -> (nanos: u128)
        ensures
            nanos == match reading {
                Some(elapsed) => elapsed,
                None => 0,
            },
    {
        match reading {
            Some(elapsed) => elapsed,
            None => 0,
        }
    }

    /// Nanoseconds since the ledger was created, zero where the clock has
    /// been set back past that moment. The value is what the system clock
    /// gives: nothing holds of it beforehand.
    fn elapsed_nanos(&self) -> (nanos: u128) {
        let reading = match system_time_elapsed(&self.started) {
            Some(elapsed) => Some(duration_as_nanos(&elapsed)),
            None => None,
        };
        Self::stamp(reading)
    }

    /// Appends the sample `(live_heap_size, elapsed_nanos)`, evicting the
    /// oldest sample where the history is at capacity.
    pub fn push_sample(&mut self, elapsed_nanos: u128)
        requires
            old(self).wf(),
        ensures
            final(self).wf(),
            final(self)@ == old(self)@.sampled(elapsed_nanos),
    {
        if self.heap_history.len() >= self.capacity {
            let _ = self.heap_history.pop_front();
        }
        self.heap_history.push_back(
            Sample { live_heap_size: self.live_heap_size, elapsed_nanos },
        );
        proof {
            assert(self@.history =~= old(self)@.sampled(elapsed_nanos).history);
        }
    }

    /// Appends a sample stamped with the time elapsed on the system clock.
    pub fn history_push(&mut self)
        requires
            old(self).wf(),
        ensures
            final(self).wf(),
            final(self)@ == old(self)@.sampled(final(self)@.history.last().elapsed_nanos),
    {
        let elapsed_nanos = self.elapsed_nanos();
        self.push_sample(elapsed_nanos);
    }

    /// Records that `malloc(size)` returned `ptr` at `elapsed_nanos`.
    pub fn on_malloc(&mut self, size: Size, ptr: Ptr, elapsed_nanos: u128)
        requires
            old(self).wf(),
            old(self)@.total_allocated + size <= u64::MAX,
        ensures
            final(self).wf(),
            final(self)@ == old(self)@.on_malloc(size, ptr, elapsed_nanos),
    {
        proof {
            lemma_on_malloc_wf(self@, size, ptr, elapsed_nanos);
            lemma_live_fits(self@.on_malloc(size, ptr, elapsed_nanos));
        }
        let replaced = match self.memory.insert(ptr, size) {
            Some(previous) => previous,
            None => 0,
        };
        self.total_allocated = self.total_allocated + size as u64;
        self.live_heap_size = self.live_heap_size - replaced as u64 + size as u64;
        self.push_sample(elapsed_nanos);
    }

    /// Records that `calloc(count, elem_size)` returned `ptr` at
    /// `elapsed_nanos`; rejected where `count * elem_size` is no guest size.
    pub fn on_calloc(
        &mut self,
        count: Size,
        elem_size: Size,
        ptr: Ptr,
        elapsed_nanos: u128,
    ) -> (done: Result<(), ProfilerError>)
        requires
            old(self).wf(),
            Ledger::calloc_fits(count, elem_size) ==> old(self)@.total_allocated + count
                * elem_size <= u64::MAX,
        ensures
            final(self).wf(),
            final(self)@ == old(self)@.on_calloc(count, elem_size, ptr, elapsed_nanos),
            done == if Ledger::calloc_fits(count, elem_size) {
                Ok::<(), ProfilerError>(())
            } else {
                Err(ProfilerError::SizeOverflow)
            },
    {
        match count.checked_mul(elem_size) {
            Some(size) => {
                self.on_malloc(size, ptr, elapsed_nanos);
                Ok(())
            },
            None => Err(ProfilerError::SizeOverflow),
        }
    }

    /// Records that `realloc(old_ptr, new_size)` returned `new_ptr` at
    /// `elapsed_nanos`; rejected where `old_ptr` is not tracked.
    pub fn on_realloc(
        &mut self,
        old_ptr: Ptr,
        new_size: Size,
        new_ptr: Ptr,
        elapsed_nanos: u128,
    ) -> (done: Result<(), ProfilerError>)
        requires
            old(self).wf(),
            old(self)@.table.contains_key(old_ptr) ==> old(self)@.total_allocated - old(
                self,
            )@.table[old_ptr] + new_size <= u64::MAX,
        ensures
            final(self).wf(),
            final(self)@ == old(self)@.on_realloc(old_ptr, new_size, new_ptr, elapsed_nanos),
            done == if old(self)@.table.contains_key(old_ptr) {
                Ok::<(), ProfilerError>(())
            } else {
                Err(ProfilerError::UnknownPointer)
            },
    {
        proof {
            lemma_on_realloc_wf(self@, old_ptr, new_size, new_ptr, elapsed_nanos);
            lemma_live_fits(self@.on_realloc(old_ptr, new_size, new_ptr, elapsed_nanos));
        }
        match self.memory.remove(&old_ptr) {
            Some(removed_size) => {
                let replaced = match self.memory.insert(new_ptr, new_size) {
                    Some(previous) => previous,
                    None => 0,
                };
                self.total_allocated = self.total_allocated - removed_size as u64
                    + new_size as u64;
                self.live_heap_size = self.live_heap_size - removed_size as u64 - replaced as u64
                    + new_size as u64;
                self.push_sample(elapsed_nanos);
                Ok(())
            },
            None => {
                proof {
                    assert(self@.table =~= old(self)@.table);
                }
                Err(ProfilerError::UnknownPointer)
            },
        }
    }

    /// Records that `free(ptr)` was called at `elapsed_nanos`. Freeing the
    /// null pointer changes nothing; freeing any other pointer that is not
    /// tracked is rejected.
    pub fn on_free(&mut self, ptr: Ptr, elapsed_nanos: u128) -> (done: Result<(), ProfilerError>)
        requires
            old(self).wf(),
        ensures
            final(self).wf(),
            final(self)@ == old(self)@.on_free(ptr, elapsed_nanos),
            ptr == 0 ==> final(self)@ == old(self)@,
            done == if ptr == 0 || old(self)@.table.contains_key(ptr) {
                Ok::<(), ProfilerError>(())
            } else {
                Err(ProfilerError::UnknownPointer)
            },
    {
        if ptr == 0 {
            return Ok(());
        }
        proof {
            lemma_on_free_wf(self@, ptr, elapsed_nanos);
        }
        match self.memory.remove(&ptr) {
            Some(size) => {
                self.live_heap_size = self.live_heap_size - size as u64;
                self.push_sample(elapsed_nanos);
                Ok(())
            },
            None => {
                proof {
                    assert(self@.table =~= old(self)@.table);
                }
                Err(ProfilerError::UnknownPointer)
            },
        }
    }

    /// Reports `malloc(size) -> ptr`, stamped with the system clock.
    pub fn malloc_profiler(&mut self, size: Size, ptr: Ptr)
        requires
            old(self).wf(),
            old(self)@.total_allocated + size <= u64::MAX,
        ensures
            final(self).wf(),
            final(self)@ == old(self)@.on_malloc(
                size,
                ptr,
                final(self)@.history.last().elapsed_nanos,
            ),
    {
        let elapsed_nanos = self.elapsed_nanos();
        self.on_malloc(size, ptr, elapsed_nanos);
    }

    /// Reports `calloc(len, elem_size) -> ptr`, stamped with the system clock.
    pub fn calloc_profiler(&mut self, len: Size, elem_size: Size, ptr: Ptr) -> (done: Result<
        (),
        ProfilerError,
    >)
        requires
            old(self).wf(),
            Ledger::calloc_fits(len, elem_size) ==> old(self)@.total_allocated + len * elem_size
                <= u64::MAX,
        ensures
            final(self).wf(),
            final(self)@ == old(self)@.on_calloc(
                len,
                elem_size,
                ptr,
                final(self)@.history.last().elapsed_nanos,
            ),
            done == if Ledger::calloc_fits(len, elem_size) {
                Ok::<(), ProfilerError>(())
            } else {
                Err(ProfilerError::SizeOverflow)
            },
    {
        let elapsed_nanos = self.elapsed_nanos();
        self.on_calloc(len, elem_size, ptr, elapsed_nanos)
    }

    /// Reports `realloc(old_ptr, size) -> new_ptr`, stamped with the system
    /// clock.
    pub fn realloc_profiler(&mut self, old_ptr: Ptr, size: Size, new_ptr: Ptr) -> (done: Result<
        (),
        ProfilerError,
    >)
        requires
            old(self).wf(),
            old(self)@.table.contains_key(old_ptr) ==> old(self)@.total_allocated - old(
                self,
            )@.table[old_ptr] + size <= u64::MAX,
        ensures
            final(self).wf(),
            final(self)@ == old(self)@.on_realloc(
                old_ptr,
                size,
                new_ptr,
                final(self)@.history.last().elapsed_nanos,
            ),
            done == if old(self)@.table.contains_key(old_ptr) {
                Ok::<(), ProfilerError>(())
            } else {
                Err(ProfilerError::UnknownPointer)
            },
    {
        let elapsed_nanos = self.elapsed_nanos();
        self.on_realloc(old_ptr, size, new_ptr, elapsed_nanos)
    }

    /// Reports `free(ptr)`, stamped with the system clock.
    pub fn free_profiler(&mut self, ptr: Ptr) -> (done: Result<(), ProfilerError>)
        requires
            old(self).wf(),
        ensures
            final(self).wf(),
            final(self)@ == old(self)@.on_free(ptr, final(self)@.history.last().elapsed_nanos),
            ptr == 0 ==> final(self)@ == old(self)@,
            done == if ptr == 0 || old(self)@.table.contains_key(ptr) {
                Ok::<(), ProfilerError>(())
            } else {
                Err(ProfilerError::UnknownPointer)
            },
    {
        let elapsed_nanos = self.elapsed_nanos();
        self.on_free(ptr, elapsed_nanos)
    }

    /// Bytes currently allocated.
    pub fn live_heap_size(&self) -> (bytes: u64)
        ensures
            bytes == self@.live_heap_size,
    {
        self.live_heap_size
    }

    /// Bytes requested since the ledger was created.
    pub fn total_allocated(&self) -> (bytes: u64)
        ensures
            bytes == self@.total_allocated,
    {
        self.total_allocated
    }

    /// The size recorded for `ptr`, if `ptr` is tracked.
    pub fn recorded_size(&self, ptr: Ptr) -> (size: Option<Size>)
        ensures
            size == if self@.table.contains_key(ptr) {
                Some(self@.table[ptr])
            } else {
                None
            },
    {
        match self.memory.get(&ptr) {
            Some(size) => Some(*size),
            None => None,
        }
    }

    /// Number of tracked pointers.
    pub fn tracked_pointers(&self) -> (count: usize)
        ensures
            count == self@.table.len(),
    {
        self.memory.len()
    }

    /// Largest number of samples retained.
    pub fn history_capacity(&self) -> (capacity: usize)
        ensures
            capacity == self@.capacity,
    {
        self.capacity
    }

    /// The retained samples, oldest first.
    pub fn history(&self) -> (samples: Vec<Sample>)
        ensures
            samples@ == self@.history,
    {
        let mut samples: Vec<Sample> = Vec::new();
        let mut index: usize = 0;
        while index < self.heap_history.len()
            invariant
                index <= self.heap_history@.len(),
                samples@ == self.heap_history@.take(index as int),
            decreases self.heap_history@.len() - index,
        {
            samples.push(self.heap_history[index]);
            index = index + 1;
            proof {
                assert(samples@ =~= self.heap_history@.take(index as int));
            }
        }
        proof {
            assert(samples@ =~= self.heap_history@);
        }
        samples
    }
}

} // verus!
