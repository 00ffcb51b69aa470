//! Properties of whole runs of a `FileJob`, over any sequence of events.
use vstd::prelude::*;
use crate::file_job::{next_action_of, next_phase_of, FileJob, FileOutcome, JobAction, JobEvent, Phase};

verus! {

/// The job after one event.
pub open spec fn step_of(job: FileJob, event: JobEvent) -> FileJob {
    FileJob { phase: next_phase_of(job, event), ..job }
}

/// The job after a sequence of events, each answering the action asked for before it.
pub open spec fn state_after(job: FileJob, events: Seq<JobEvent>) -> FileJob
    decreases events.len(),
{
    if events.len() == 0 {
        job
    } else {
        step_of(state_after(job, events.drop_last()), events.last())
    }
}

/// The action that `events[k]` answers.
pub open spec fn action_at(job: FileJob, events: Seq<JobEvent>, k: int) -> JobAction {
    next_action_of(state_after(job, events.take(k)))
}

/// How far a phase lies along the job; no event moves a job back.
pub open spec fn rank(p: Phase) -> nat {
    match p {
        Phase::Start => 0,
        Phase::Sized { .. } => 1,
        Phase::Prepared { .. } => 2,
        Phase::Resizing { .. } => 3,
        Phase::Ready { .. } => 4,
        Phase::Encoded { .. } => 5,
        Phase::Measured { .. } => 6,
        Phase::Finished(_) => 7,
    }
}

proof fn lemma_take_step(events: Seq<JobEvent>, k: int)
    requires
        0 <= k < events.len(),
    ensures
        events.take(k + 1).drop_last() == events.take(k),
        events.take(k + 1).last() == events[k],
{
    assert(events.take(k + 1).drop_last() =~= events.take(k));
}

proof fn lemma_state_after_step(job: FileJob, events: Seq<JobEvent>, k: int)
    requires
        0 <= k < events.len(),
    ensures
        state_after(job, events.take(k + 1)) == step_of(state_after(job, events.take(k)), events[k]),
{
    lemma_take_step(events, k);
}

/// Only the phase changes along a run.
proof fn lemma_fields_kept(job: FileJob, events: Seq<JobEvent>)
    ensures
        state_after(job, events) == (FileJob { phase: state_after(job, events).phase, ..job }),
    decreases events.len(),
{
    if events.len() > 0 {
        lemma_fields_kept(job, events.drop_last());
    }
}

/// Ranks never decrease along a run.
proof fn lemma_rank_monotone(job: FileJob, events: Seq<JobEvent>, j: int, k: int)
    requires
        0 <= j <= k <= events.len(),
    ensures
        rank(state_after(job, events.take(j)).phase) <= rank(state_after(job, events.take(k)).phase),
    decreases k - j,
{
    if j < k {
        lemma_rank_monotone(job, events, j, k - 1);
        lemma_state_after_step(job, events, k - 1);
    }
}

/// A finished job stays finished with the same outcome.
proof fn lemma_finished_stays(job: FileJob, events: Seq<JobEvent>, j: int, k: int, o: FileOutcome)
    requires
        0 <= j <= k <= events.len(),
        state_after(job, events.take(j)).phase == Phase::Finished(o),
    ensures
        state_after(job, events.take(k)).phase == Phase::Finished(o),
    decreases k - j,
{
    if j < k {
        lemma_finished_stays(job, events, j, k - 1, o);
        lemma_state_after_step(job, events, k - 1);
    }
}

/// The original file is only ever replaced in place, after the staged file was
/// measured strictly smaller than the original.
pub proof fn lemma_replace_only_after_size_win(job: FileJob)
    requires
        job.wf(),
    ensures
        next_action_of(job) is ReplaceOriginal ==> job.in_place && (match job.phase {
            Phase::Measured { original, staged } => staged < original,
            _ => false,
        }),
{
}

/// A failed encode leaves the original untouched: a run in which the encoder's
/// action failed never asks for the original to be replaced, before or after.
pub proof fn lemma_failed_encode_never_replaces(job: FileJob, events: Seq<JobEvent>, i: int)
    requires
        0 <= i < events.len(),
        action_at(job, events, i) is Encode,
        events[i] == JobEvent::Failed,
    ensures
        forall|k: int| 0 <= k <= events.len() ==> !(#[trigger] action_at(job, events, k) is ReplaceOriginal),
{
    lemma_state_after_step(job, events, i);
    assert(state_after(job, events.take(i + 1)).phase == Phase::Finished(FileOutcome::Failed));
    assert forall|k: int| 0 <= k <= events.len() implies !(#[trigger] action_at(job, events, k) is ReplaceOriginal) by {
        if k <= i {
            lemma_rank_monotone(job, events, k, i);
        } else {
            lemma_finished_stays(job, events, i + 1, k, FileOutcome::Failed);
        }
    }
}

/// Facts that hold after every prefix of a run started from scratch.
proof fn lemma_run_facts(job: FileJob, events: Seq<JobEvent>)
    requires
        job.phase == Phase::Start,
    ensures
        ({
            let s = state_after(job, events).phase;
            &&& rank(s) >= 5 && s != Phase::Finished(FileOutcome::Failed) ==> exists|k: int|
                0 <= k < events.len() && #[trigger] action_at(job, events, k) is Encode
                    && events[k] == JobEvent::Completed
            &&& s == Phase::Finished(FileOutcome::NotSmaller) && !job.in_place ==> exists|k: int|
                0 <= k < events.len() && #[trigger] action_at(job, events, k) == JobAction::CopyOriginalToOutput
                    && events[k] == JobEvent::Completed
            &&& (s matches Phase::Finished(FileOutcome::Shrunk(_))) && job.in_place ==> exists|k: int|
                0 <= k < events.len() && #[trigger] action_at(job, events, k) == JobAction::ReplaceOriginal
                    && events[k] == JobEvent::Completed
        }),
    decreases events.len(),
{
    if events.len() > 0 {
        let n = events.len() - 1;
        let pre = events.drop_last();
        lemma_run_facts(job, pre);
        lemma_fields_kept(job, pre);
        assert(events.take(n) =~= pre);
        assert forall|k: int| 0 <= k < n implies #[trigger] action_at(job, events, k) == action_at(job, pre, k) by {
            assert(events.take(k) =~= pre.take(k));
        }
        let s = state_after(job, events).phase;
        if rank(s) >= 5 && s != Phase::Finished(FileOutcome::Failed) {
            if rank(state_after(job, pre).phase) >= 5 {
                let k = choose|k: int| 0 <= k < pre.len() && #[trigger] action_at(job, pre, k) is Encode
                    && pre[k] == JobEvent::Completed;
                assert(action_at(job, events, k) is Encode && events[k] == JobEvent::Completed);
            } else {
                assert(action_at(job, events, n) is Encode && events[n] == JobEvent::Completed);
            }
        }
        if s == Phase::Finished(FileOutcome::NotSmaller) && !job.in_place {
            if state_after(job, pre).phase == Phase::Finished(FileOutcome::NotSmaller) {
                let k = choose|k: int| 0 <= k < pre.len() && #[trigger] action_at(job, pre, k)
                    == JobAction::CopyOriginalToOutput && pre[k] == JobEvent::Completed;
                assert(action_at(job, events, k) == JobAction::CopyOriginalToOutput);
            } else {
                assert(action_at(job, events, n) == JobAction::CopyOriginalToOutput);
            }
        }
        if (s matches Phase::Finished(FileOutcome::Shrunk(_))) && job.in_place {
            if state_after(job, pre).phase matches Phase::Finished(FileOutcome::Shrunk(_)) {
                let k = choose|k: int| 0 <= k < pre.len() && #[trigger] action_at(job, pre, k)
                    == JobAction::ReplaceOriginal && pre[k] == JobEvent::Completed;
                assert(action_at(job, events, k) == JobAction::ReplaceOriginal);
            } else {
                assert(action_at(job, events, n) == JobAction::ReplaceOriginal);
            }
        }
    }
}

/// Mirroring into an output tree: a run that does not fail leaves a file at the
/// output path, written by the encoder and, when that was not smaller, overwritten
/// by a copy of the original; no staged file is ever deleted.
pub proof fn lemma_mirrored_output_written(job: FileJob, events: Seq<JobEvent>)
    requires
        job.phase == Phase::Start,
        !job.in_place,
    ensures
        (state_after(job, events).phase matches Phase::Finished(o) && o != FileOutcome::Failed)
            ==> exists|k: int| 0 <= k < events.len() && #[trigger] action_at(job, events, k) is Encode
                && events[k] == JobEvent::Completed,
        state_after(job, events).phase == Phase::Finished(FileOutcome::NotSmaller) ==> exists|k: int|
            0 <= k < events.len() && #[trigger] action_at(job, events, k) == JobAction::CopyOriginalToOutput
                && events[k] == JobEvent::Completed,
        forall|k: int| 0 <= k <= events.len() ==> #[trigger] action_at(job, events, k) != JobAction::DiscardStaged,
{
    lemma_run_facts(job, events);
    assert forall|k: int| 0 <= k <= events.len() implies #[trigger] action_at(job, events, k) != JobAction::DiscardStaged by {
        lemma_fields_kept(job, events.take(k));
    }
}

/// The original's size that a phase carries, if it carries one.
pub open spec fn carried_original(p: Phase) -> Option<u64> {
    match p {
        Phase::Sized { original } => Some(original),
        Phase::Prepared { original } => Some(original),
        Phase::Resizing { original, .. } => Some(original),
        Phase::Ready { original, .. } => Some(original),
        Phase::Encoded { original } => Some(original),
        Phase::Measured { original, .. } => Some(original),
        _ => None,
    }
}

/// Along a run whose first event reported the original's size `n`, every phase
/// carries `n` and a shrunk outcome saves between 1 and `n` bytes.
proof fn lemma_original_carried(job: FileJob, events: Seq<JobEvent>, n: u64)
    requires
        job.phase == Phase::Start,
        events.len() > 0,
        events[0] == JobEvent::Size(n),
    ensures
        ({
            let p = state_after(job, events).phase;
            &&& p != Phase::Start
            &&& carried_original(p) is Some ==> carried_original(p) == Some(n)
            &&& (p matches Phase::Finished(FileOutcome::Shrunk(s)) ==> 0 < s <= n)
        }),
    decreases events.len(),
{
    let pre = events.drop_last();
    assert(state_after(job, events) == step_of(state_after(job, pre), events.last()));
    if events.len() > 1 {
        assert(pre[0] == events[0]);
        lemma_original_carried(job, pre, n);
        lemma_fields_kept(job, pre);
    } else {
        assert(state_after(job, pre) == job);
        assert(events.last() == JobEvent::Size(n));
    }
}

/// Optimising in place never grows a file: a run whose original measured `n` bytes
/// either ends without replacing it or ends shrunk by `s` bytes with `0 < s <= n`, the
/// staged file of `n - s` bytes having replaced it. Running again on the result can
/// therefore only keep the file or shrink it further.
pub proof fn lemma_in_place_never_grows(job: FileJob, events: Seq<JobEvent>, n: u64)
    requires
        job.phase == Phase::Start,
        job.in_place,
        events.len() > 0,
        events[0] == JobEvent::Size(n),
    ensures
        state_after(job, events).phase matches Phase::Finished(FileOutcome::Shrunk(s)) ==> 0 < s <= n
            && exists|k: int| 0 <= k < events.len() && #[trigger] action_at(job, events, k)
                == JobAction::ReplaceOriginal && events[k] == JobEvent::Completed,
        !(state_after(job, events).phase matches Phase::Finished(FileOutcome::Shrunk(_)))
            ==> forall|k: int| 0 <= k < events.len() && #[trigger] action_at(job, events, k)
                == JobAction::ReplaceOriginal ==> events[k] != JobEvent::Completed,
{
    lemma_original_carried(job, events, n);
    lemma_in_place_replaced_iff_shrunk(job, events);
}

/// In place, the original is replaced exactly in the runs that end shrunk: such a
/// run asked for the replacement and saw it complete, and a run in which a
/// replacement completed ends shrunk.
pub proof fn lemma_in_place_replaced_iff_shrunk(job: FileJob, events: Seq<JobEvent>)
    requires
        job.phase == Phase::Start,
        job.in_place,
    ensures
        (state_after(job, events).phase matches Phase::Finished(FileOutcome::Shrunk(_))) ==> exists|k: int|
            0 <= k < events.len() && #[trigger] action_at(job, events, k) == JobAction::ReplaceOriginal
                && events[k] == JobEvent::Completed,
        forall|k: int| 0 <= k < events.len() && #[trigger] action_at(job, events, k) == JobAction::ReplaceOriginal
            && events[k] == JobEvent::Completed
            ==> state_after(job, events).phase matches Phase::Finished(FileOutcome::Shrunk(_)),
{
    lemma_run_facts(job, events);
    assert forall|k: int| 0 <= k < events.len() && #[trigger] action_at(job, events, k) == JobAction::ReplaceOriginal
        && events[k] == JobEvent::Completed
        implies state_after(job, events).phase matches Phase::Finished(FileOutcome::Shrunk(_)) by {
        lemma_state_after_step(job, events, k);
        let s = state_after(job, events.take(k + 1)).phase;
        let o = s->Finished_0;
        lemma_finished_stays(job, events, k + 1, events.len() as int, o);
        assert(events.take(events.len() as int) =~= events);
    }
}

} // verus!
