//! Sequences of allocator calls, and what holds of a ledger that has seen
//! one.

use crate::api::heap_profiler::{
    lemma_on_calloc_wf, lemma_on_free_wf, lemma_on_malloc_wf, lemma_on_realloc_wf,
    lemma_bytes_below_empty, pointer_space, push_bounded, Ledger, Ptr, Sample, Size,
};
use vstd::prelude::*;

verus! {

/// One allocator call as the guest reports it.
pub enum HeapCall {
    /// `malloc(size)` returned `ptr`.
    Malloc { size: Size, ptr: Ptr },
    /// `calloc(count, elem_size)` returned `ptr`.
    Calloc { count: Size, elem_size: Size, ptr: Ptr },
    /// `realloc(old_ptr, new_size)` returned `new_ptr`.
    Realloc { old_ptr: Ptr, new_size: Size, new_ptr: Ptr },
    /// `free(ptr)` was called.
    Free { ptr: Ptr },
}

/// An allocator call and the time at which it was reported.
pub struct TimedCall {
    pub call: HeapCall,
    pub elapsed_nanos: u128,
}

impl Ledger {
    /// The ledger after one reported call.
    pub open spec fn after_call(self, timed: TimedCall) -> Ledger {
        match timed.call {
            HeapCall::Malloc { size, ptr } => self.on_malloc(size, ptr, timed.elapsed_nanos),
            HeapCall::Calloc { count, elem_size, ptr } => self.on_calloc(
                count,
                elem_size,
                ptr,
                timed.elapsed_nanos,
            ),
            HeapCall::Realloc { old_ptr, new_size, new_ptr } => self.on_realloc(
                old_ptr,
                new_size,
                new_ptr,
                timed.elapsed_nanos,
            ),
            HeapCall::Free { ptr } => self.on_free(ptr, timed.elapsed_nanos),
        }
    }

    /// The ledger after the reported calls, in their order.
    pub open spec fn after_calls(self, calls: Seq<TimedCall>) -> Ledger
        decreases calls.len(),
    {
        if calls.len() == 0 {
            self
        } else {
            self.after_calls(calls.drop_last()).after_call(calls.last())
        }
    }

    /// Whether every `realloc` among `calls`, reported to `self` in their
    /// order, is rejected or asks for the size that is recorded already.
    pub open spec fn reallocs_keep_size(self, calls: Seq<TimedCall>) -> bool
        decreases calls.len(),
    {
        if calls.len() == 0 {
            true
        } else {
            let earlier = self.after_calls(calls.drop_last());
            &&& self.reallocs_keep_size(calls.drop_last())
            &&& calls.last().call matches HeapCall::Realloc { old_ptr, new_size, .. }
                ==> !earlier.table.contains_key(old_ptr) || earlier.table[old_ptr] == new_size
        }
    }
}

/// The bytes that one call asks for: the size of a `malloc`, the byte count
/// of a `calloc` that is a guest size, nothing otherwise.
pub open spec fn requested_by(call: HeapCall) -> nat {
    match call {
        HeapCall::Malloc { size, .. } => size as nat,
        HeapCall::Calloc { count, elem_size, .. } => if Ledger::calloc_fits(count, elem_size) {
            (count * elem_size) as nat
        } else {
            0
        },
        _ => 0,
    }
}

/// The bytes that `calls` ask for in all.
pub open spec fn requested(calls: Seq<TimedCall>) -> nat
    decreases calls.len(),
{
    if calls.len() == 0 {
        0
    } else {
        requested(calls.drop_last()) + requested_by(calls.last().call)
    }
}

/// The history after `samples` were appended one by one.
pub open spec fn push_all_bounded(history: Seq<Sample>, capacity: nat, samples: Seq<Sample>) -> Seq<
    Sample,
>
    decreases samples.len(),
{
    if samples.len() == 0 {
        history
    } else {
        push_bounded(
            push_all_bounded(history, capacity, samples.drop_last()),
            capacity,
            samples.last(),
        )
    }
}

/// The last `count` items of `items`, all of them if there are fewer.
pub open spec fn newest(items: Seq<Sample>, count: nat) -> Seq<Sample> {
    if items.len() <= count {
        items
    } else {
        items.subrange(items.len() - count, items.len() as int)
    }
}

/// A ledger stays well formed under every reported call.
pub proof fn lemma_after_call_wf(ledger: Ledger, timed: TimedCall)
    requires
        ledger.wf(),
    ensures
        ledger.after_call(timed).wf(),
{
    match timed.call {
        HeapCall::Malloc { size, ptr } => {
            lemma_on_malloc_wf(ledger, size, ptr, timed.elapsed_nanos);
        },
        HeapCall::Calloc { count, elem_size, ptr } => {
            lemma_on_calloc_wf(ledger, count, elem_size, ptr, timed.elapsed_nanos);
        },
        HeapCall::Realloc { old_ptr, new_size, new_ptr } => {
            lemma_on_realloc_wf(ledger, old_ptr, new_size, new_ptr, timed.elapsed_nanos);
        },
        HeapCall::Free { ptr } => {
            lemma_on_free_wf(ledger, ptr, timed.elapsed_nanos);
        },
    }
}

/// A ledger stays well formed under every sequence of reported calls: at
/// every point the live size is the sum of the recorded sizes.
pub proof fn lemma_after_calls_wf(ledger: Ledger, calls: Seq<TimedCall>)
    requires
        ledger.wf(),
    ensures
        ledger.after_calls(calls).wf(),
    decreases calls.len(),
{
    if calls.len() > 0 {
        lemma_after_calls_wf(ledger, calls.drop_last());
        lemma_after_call_wf(ledger.after_calls(calls.drop_last()), calls.last());
    }
}

/// Once every tracked pointer has been freed, no byte is live.
pub proof fn lemma_nothing_tracked_nothing_live(ledger: Ledger)
    requires
        ledger.wf(),
        ledger.table.dom() =~= Set::<Ptr>::empty(),
    ensures
        ledger.live_heap_size == 0,
{
    assert(ledger.table =~= Map::<Ptr, Size>::empty());
    lemma_bytes_below_empty(pointer_space());
}

/// After any sequence of calls in which no `realloc` changes a recorded
/// size, the bytes requested in total have grown by the sizes that the
/// calls asked for; and if no pointer is tracked any more, no byte is live.
pub proof fn lemma_matched_calls(ledger: Ledger, calls: Seq<TimedCall>)
    requires
        ledger.wf(),
        ledger.reallocs_keep_size(calls),
    ensures
        ledger.after_calls(calls).wf(),
        ledger.after_calls(calls).total_allocated == ledger.total_allocated + requested(calls),
        ledger.after_calls(calls).table.dom() =~= Set::<Ptr>::empty() ==> ledger.after_calls(
            calls,
        ).live_heap_size == 0,
    decreases calls.len(),
{
    lemma_after_calls_wf(ledger, calls);
    if calls.len() > 0 {
        lemma_matched_calls(ledger, calls.drop_last());
    }
    if ledger.after_calls(calls).table.dom() =~= Set::<Ptr>::empty() {
        lemma_nothing_tracked_nothing_live(ledger.after_calls(calls));
    }
}

/// Freeing the null pointer changes nothing, however often it is done.
pub proof fn lemma_free_null(ledger: Ledger, elapsed_nanos: u128)
    ensures
        ledger.on_free(0, elapsed_nanos) == ledger,
        ledger.on_free(0, elapsed_nanos).on_free(0, elapsed_nanos) == ledger,
{
}

/// Resizing an allocation in place changes the bytes requested in total by
/// the new size less the old one.
pub proof fn lemma_realloc_in_place(ledger: Ledger, ptr: Ptr, new_size: Size, elapsed_nanos: u128)
    requires
        ledger.wf(),
        ledger.table.contains_key(ptr),
    ensures
        ledger.on_realloc(ptr, new_size, ptr, elapsed_nanos).total_allocated
            == ledger.total_allocated + new_size - ledger.table[ptr],
        ledger.on_realloc(ptr, new_size, ptr, elapsed_nanos).live_heap_size
            == ledger.live_heap_size + new_size - ledger.table[ptr],
        ledger.on_realloc(ptr, new_size, ptr, elapsed_nanos).table == ledger.table.insert(
            ptr,
            new_size,
        ),
{
    lemma_on_realloc_wf(ledger, ptr, new_size, ptr, elapsed_nanos);
    assert(ledger.table.remove(ptr).insert(ptr, new_size) =~= ledger.table.insert(ptr, new_size));
}

/// The history never holds more samples than its capacity, and after any
/// number of samples were appended it holds the newest of them, in the order
/// in which they came: all that were there and all that were appended if
/// they fit, the last `capacity` of them otherwise.
pub proof fn lemma_history_keeps_newest(
    history: Seq<Sample>,
    capacity: nat,
    samples: Seq<Sample>,
)
    requires
        0 < capacity,
        history.len() <= capacity,
    ensures
        push_all_bounded(history, capacity, samples).len() <= capacity,
        push_all_bounded(history, capacity, samples) == newest(history + samples, capacity),
    decreases samples.len(),
{
    if samples.len() == 0 {
        assert(history + samples =~= history);
    } else {
        let earlier = samples.drop_last();
        lemma_history_keeps_newest(history, capacity, earlier);
        assert(history + samples =~= (history + earlier).push(samples.last()));
        assert(push_all_bounded(history, capacity, samples) =~= newest(
            history + samples,
            capacity,
        ));
    }
}

} // verus!
