//! What a sequence of writes leaves on disk.
//!
//! The writer never sees the bytes of its files; the ledger does. It is the
//! model of a writer at work on a file system that performs every step it
//! is asked for: each write is accepted as reported, each rotation moves
//! the active file among the archives and opens an empty one at the logical
//! path. Nothing here is executable. The ledger exists to say, and to
//! prove, what the writer's decisions add up to.
//!
//! The ledger describes writers with a threshold above zero. At a threshold
//! of zero an empty file is due for rotation at once, so that a write waits
//! for one rotation after another and is never serviced.

use crate::counters::{
    count_newlines, lemma_count_newlines_concat, lemma_credit_in_parts, lemma_due_is_exact,
    lemma_scan_counts_the_file, Counters, Recovery, RotationMode,
};
use crate::writer::{Request, WriterState};
use vstd::prelude::*;

verus! {

/// The files of one writer, and the counts that the writer holds of the
/// active one.
pub struct Ledger {
    /// The counts in the writer's state.
    pub counters: Counters,
    /// The bytes of the file at the logical path.
    pub active: Seq<u8>,
    /// The bytes of each file that was rotated out, oldest first.
    pub archived: Seq<Seq<u8>>,
}

impl Ledger {
    /// The ledger of a writer that has just been made for a file that holds
    /// `existing`, with the counts that the recovery scan gives.
    pub open spec fn opened(existing: Seq<u8>) -> Ledger {
        Ledger { counters: Counters::of(existing), active: existing, archived: Seq::empty() }
    }

    /// Whether the writer's counts are those of the active file.
    pub open spec fn consistent(self) -> bool {
        self.counters == Counters::of(self.active)
    }

    /// Every byte on disk: the archives in their order, then the active
    /// file.
    pub open spec fn everything(self) -> Seq<u8> {
        self.archived.flatten() + self.active
    }

    /// The ledger after one write request has been serviced, of which
    /// `accepted` was written. Where rotation is due the request first
    /// waits out one rotation, and its bytes go to the fresh file.
    pub open spec fn serviced(self, mode: RotationMode, accepted: Seq<u8>) -> Ledger {
        if mode.due(self.counters) {
            Ledger {
                counters: Counters::zero().credited(accepted),
                active: accepted,
                archived: self.archived.push(self.active),
            }
        } else {
            Ledger {
                counters: self.counters.credited(accepted),
                active: self.active + accepted,
                archived: self.archived,
            }
        }
    }

    /// The ledger after each of `writes` has been serviced in turn.
    pub open spec fn run(self, mode: RotationMode, writes: Seq<Seq<u8>>) -> Ledger
        decreases writes.len(),
    {
        if writes.len() == 0 {
            self
        } else {
            self.run(mode, writes.drop_last()).serviced(mode, writes.last())
        }
    }
}

/// The ledger's step is what the writer does: a write that finds rotation
/// due parks, the rotation's fresh file comes with counts of zero, the
/// write is asked again and goes through, after exactly one rotation; a
/// write that finds the file below its threshold goes through at once. In
/// both cases the writer's new counts are the ledger's.
pub proof fn lemma_serviced_follows_writer<H>(
    mode: RotationMode,
    ledger: Ledger,
    file: H,
    fresh: H,
    accepted: Seq<u8>,
)
    requires
        mode.threshold() > 0,
    ensures
        ({
            let ready = WriterState::Ready(ledger.counters, file);
            let next = ledger.serviced(mode, accepted);
            if mode.due(ledger.counters) {
                &&& ready.polled(mode, Request::Write) == WriterState::<H>::Rotating
                &&& WriterState::<H>::Rotating.resolved(Some(fresh)) == WriterState::Ready(
                    Counters::zero(),
                    fresh,
                )
                &&& !WriterState::Ready(Counters::zero(), fresh).starts_rotation(
                    mode,
                    Request::Write,
                )
                &&& WriterState::Ready(Counters::zero(), fresh).written(accepted)
                    == WriterState::Ready(next.counters, fresh)
                &&& next.archived == ledger.archived.push(ledger.active)
                &&& next.active == accepted
            } else {
                &&& ready.polled(mode, Request::Write) == ready
                &&& ready.written(accepted) == WriterState::Ready(next.counters, file)
                &&& next.archived == ledger.archived
                &&& next.active == ledger.active + accepted
            }
        }),
{
}

/// At a threshold of zero a fresh file is due for rotation at once: a
/// write that has waited out a rotation finds the next one due.
pub proof fn lemma_zero_threshold_never_writes<H>(mode: RotationMode, fresh: H)
    requires
        mode.threshold() == 0,
    ensures
        WriterState::<H>::Rotating.resolved(Some(fresh)).starts_rotation(mode, Request::Write),
{
}

/// The counts stay those of the active file.
pub proof fn lemma_serviced_consistent(mode: RotationMode, ledger: Ledger, accepted: Seq<u8>)
    requires
        ledger.consistent(),
    ensures
        ledger.serviced(mode, accepted).consistent(),
        mode.due(ledger.counters) <==> mode.reached_by(ledger.active),
{
    lemma_credit_in_parts(Counters::zero(), ledger.active, accepted);
    lemma_due_is_exact(mode, ledger.active);
}

/// The counts stay those of the active file over a whole run.
pub proof fn lemma_run_consistent(mode: RotationMode, start: Ledger, writes: Seq<Seq<u8>>)
    requires
        start.consistent(),
    ensures
        start.run(mode, writes).consistent(),
    decreases writes.len(),
{
    if writes.len() > 0 {
        lemma_run_consistent(mode, start, writes.drop_last());
        lemma_serviced_consistent(mode, start.run(mode, writes.drop_last()), writes.last());
    }
}

/// A run of one write more is the run so far, and then that write.
pub proof fn lemma_run_step(mode: RotationMode, start: Ledger, writes: Seq<Seq<u8>>, k: int)
    requires
        0 <= k < writes.len(),
    ensures
        start.run(mode, writes.take(k + 1)) == start.run(mode, writes.take(k)).serviced(
            mode,
            writes[k],
        ),
{
    assert(writes.take(k + 1).drop_last() =~= writes.take(k));
}

/// Writes that never bring the file to its threshold cause no rotation, and
/// all their bytes stand in the one file, in the order they were written.
/// It is enough that the file is below the threshold before each write.
pub proof fn lemma_below_threshold_one_file(
    mode: RotationMode,
    start: Ledger,
    writes: Seq<Seq<u8>>,
)
    requires
        start.consistent(),
        forall|k: int|
            0 <= k < writes.len() ==> !mode.reached_by(
                start.active + (#[trigger] writes.take(k)).flatten(),
            ),
    ensures
        start.run(mode, writes).archived == start.archived,
        start.run(mode, writes).active == start.active + writes.flatten(),
    decreases writes.len(),
{
    if writes.len() == 0 {
        assert(writes.flatten() =~= Seq::<u8>::empty());
        assert(start.active + writes.flatten() =~= start.active);
    } else {
        let front = writes.drop_last();
        assert forall|k: int| 0 <= k < front.len() implies !mode.reached_by(
            start.active + (#[trigger] front.take(k)).flatten(),
        ) by {
            assert(front.take(k) =~= writes.take(k));
        }
        lemma_below_threshold_one_file(mode, start, front);
        lemma_run_consistent(mode, start, front);
        let before = start.run(mode, front);
        lemma_serviced_consistent(mode, before, writes.last());
        assert(writes.take(writes.len() - 1) =~= front);
        assert(!mode.reached_by(before.active));
        front.lemma_flatten_push(writes.last());
        assert(front.push(writes.last()) =~= writes);
        assert(before.active + writes.last() =~= start.active + writes.flatten());
    }
}

/// A write that brings its file to the threshold is followed by exactly one
/// rotation, at the next write: the file moves among the archives as it
/// stands, the counts start again at zero, and the file at the logical path
/// holds nothing but what the next write wrote. A write that leaves its
/// file below the threshold is followed by none. `first` is any serviced
/// write, `second` the write after it.
pub proof fn lemma_one_rotation_per_crossing(
    mode: RotationMode,
    before: Ledger,
    first: Seq<u8>,
    second: Seq<u8>,
)
    requires
        mode.threshold() > 0,
        before.consistent(),
    ensures
        ({
            let landed_in = if mode.due(before.counters) {
                Seq::<u8>::empty()
            } else {
                before.active
            };
            let mid = before.serviced(mode, first);
            let end = mid.serviced(mode, second);
            &&& !mode.reached_by(landed_in)
            &&& mid.active == landed_in + first
            &&& mode.reached_by(mid.active) ==> {
                &&& end.archived == mid.archived.push(mid.active)
                &&& end.active == second
                &&& end.counters == Counters::zero().credited(second)
            }
            &&& !mode.reached_by(mid.active) ==> {
                &&& end.archived == mid.archived
                &&& end.active == mid.active + second
            }
        }),
{
    lemma_serviced_consistent(mode, before, first);
    lemma_serviced_consistent(mode, before.serviced(mode, first), second);
    assert(Seq::<u8>::empty() + first =~= first);
    assert(count_newlines(Seq::<u8>::empty()) == 0) by {
        reveal(Seq::filter);
    }
}

/// In a run, a rotation occurs at a write exactly when the write before it
/// brought the file to its threshold, and then it is one rotation: the
/// archives grow by the file as that write left it, and the file at the
/// logical path holds only the bytes written after.
pub proof fn lemma_rotations_follow_crossings(
    mode: RotationMode,
    start: Ledger,
    writes: Seq<Seq<u8>>,
    k: int,
)
    requires
        mode.threshold() > 0,
        start.consistent(),
        0 < k < writes.len(),
    ensures
        ({
            let left = start.run(mode, writes.take(k));
            let next = start.run(mode, writes.take(k + 1));
            if mode.reached_by(left.active) {
                &&& next.archived == left.archived.push(left.active)
                &&& next.active == writes[k]
                &&& next.counters == Counters::zero().credited(writes[k])
            } else {
                &&& next.archived == left.archived
                &&& next.active == left.active + writes[k]
            }
        }),
{
    lemma_run_step(mode, start, writes, k - 1);
    lemma_run_step(mode, start, writes, k);
    lemma_run_consistent(mode, start, writes.take(k - 1));
    lemma_one_rotation_per_crossing(
        mode,
        start.run(mode, writes.take(k - 1)),
        writes[k - 1],
        writes[k],
    );
}

/// No byte is lost or doubled across rotations: the archives in their
/// order, and then the active file, hold what was on disk at the start and
/// then every byte written since, in the order of the writes.
pub proof fn lemma_no_byte_lost(mode: RotationMode, start: Ledger, writes: Seq<Seq<u8>>)
    requires
        mode.threshold() > 0,
    ensures
        start.run(mode, writes).everything() == start.everything() + writes.flatten(),
    decreases writes.len(),
{
    if writes.len() == 0 {
        assert(writes.flatten() =~= Seq::<u8>::empty());
        assert(start.everything() + writes.flatten() =~= start.everything());
    } else {
        let front = writes.drop_last();
        let last = writes.last();
        lemma_no_byte_lost(mode, start, front);
        let before = start.run(mode, front);
        before.archived.lemma_flatten_push(before.active);
        front.lemma_flatten_push(last);
        assert(front.push(last) =~= writes);
        assert(before.serviced(mode, last).everything() =~= before.everything() + last);
        assert(before.everything() + last =~= start.everything() + writes.flatten());
    }
}

/// A writer that is made for a file which holds `existing` counts as if it
/// had written `existing` itself. The recovery scan, which reads the file in
/// `chunks` of whatever sizes to its end, is complete with the counts of
/// the file, and they are the counts that the writer starts with. After a
/// write of `accepted`, rotation is due exactly when the lines, or the
/// bytes, of both together have reached the threshold, whether or not
/// `accepted` alone would have. A file that is over its threshold when the
/// writer is made is rotated at the first write.
pub proof fn lemma_recovery_counts_the_file<H>(
    mode: RotationMode,
    chunks: Seq<Seq<u8>>,
    accepted: Seq<u8>,
    file: H,
)
    requires
        forall|i: int| 0 <= i < chunks.len() ==> (#[trigger] chunks[i]).len() > 0,
    ensures
        ({
            let existing = chunks.flatten();
            let recovered = Recovery::scan(chunks).absorbed(Some(Seq::empty()));
            let ready = WriterState::Ready(Counters::of(existing), file);
            &&& recovered == Recovery::Complete(Counters::of(existing))
            &&& Counters::of(existing).credited(accepted) == Counters::of(existing + accepted)
            &&& ready.written(accepted).starts_rotation(mode, Request::Write) <==> mode.reached(
                count_newlines(existing) + count_newlines(accepted),
                existing.len() + accepted.len(),
            )
            &&& ready.starts_rotation(mode, Request::Write) <==> mode.reached_by(existing)
        }),
{
    let existing = chunks.flatten();
    lemma_scan_counts_the_file(chunks);
    lemma_credit_in_parts(Counters::zero(), existing, accepted);
    lemma_count_newlines_concat(existing, accepted);
}

} // verus!
