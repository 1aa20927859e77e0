//! What holds of a coordinator over every interleaving of producers and
//! worker: the laws are stated over traces of events, each event being one
//! call of a method of [`IntakeCoordinator`](crate::intake::IntakeCoordinator).

use crate::intake::IntakeModel;
use vstd::prelude::*;

verus! {

/// One call on a coordinator.
pub enum IntakeEvent {
    /// `ingest` with this image, from any producer.
    Ingest(Seq<u8>),
    /// `next_job`, by whoever believes to be the worker.
    NextJob,
    /// `job_done`.
    JobDone,
}

/// The state after one event.
pub open spec fn step(state: IntakeModel, event: IntakeEvent) -> IntakeModel {
    match event {
        IntakeEvent::Ingest(image) => state.ingest(image),
        IntakeEvent::NextJob => state.next_job(),
        IntakeEvent::JobDone => state.job_done(),
    }
}

/// The state after a trace of events, taken in order.
pub open spec fn run(state: IntakeModel, events: Seq<IntakeEvent>) -> IntakeModel
    decreases events.len(),
{
    if events.len() == 0 {
        state
    } else {
        step(run(state, events.drop_last()), events.last())
    }
}

/// The images handed to the worker along a trace, in order.
pub open spec fn jobs_issued(state: IntakeModel, events: Seq<IntakeEvent>) -> Seq<Seq<u8>>
    decreases events.len(),
{
    if events.len() == 0 {
        Seq::empty()
    } else {
        let earlier = jobs_issued(state, events.drop_last());
        let before = run(state, events.drop_last());
        if events.last() is NextJob && before.job() is Some {
            earlier.push(before.job()->0)
        } else {
            earlier
        }
    }
}

/// How many images in flight were reported done along a trace.
pub open spec fn jobs_finished(state: IntakeModel, events: Seq<IntakeEvent>) -> nat
    decreases events.len(),
{
    if events.len() == 0 {
        0
    } else {
        let earlier = jobs_finished(state, events.drop_last());
        let before = run(state, events.drop_last());
        if events.last() is JobDone && before.in_flight {
            earlier + 1
        } else {
            earlier
        }
    }
}

/// How many calls of `ingest` along a trace told their caller to start a
/// worker.
pub open spec fn workers_started(state: IntakeModel, events: Seq<IntakeEvent>) -> nat
    decreases events.len(),
{
    if events.len() == 0 {
        0
    } else {
        let earlier = workers_started(state, events.drop_last());
        let before = run(state, events.drop_last());
        if events.last() is Ingest && before.ingest_starts_worker() {
            earlier + 1
        } else {
            earlier
        }
    }
}

/// How many calls of `next_job` along a trace released the guard and so
/// ended a worker.
pub open spec fn workers_ended(state: IntakeModel, events: Seq<IntakeEvent>) -> nat
    decreases events.len(),
{
    if events.len() == 0 {
        0
    } else {
        let earlier = workers_ended(state, events.drop_last());
        let before = run(state, events.drop_last());
        if events.last() is NextJob && before.may_drain() && before.pending is None {
            earlier + 1
        } else {
            earlier
        }
    }
}

/// The image of the last `Ingest` of a trace, if it has one.
pub open spec fn last_ingested(events: Seq<IntakeEvent>) -> Option<Seq<u8>>
    decreases events.len(),
{
    if events.len() == 0 {
        None
    } else {
        match events.last() {
            IntakeEvent::Ingest(image) => Some(image),
            _ => last_ingested(events.drop_last()),
        }
    }
}

/// A burst: one `Ingest` for each image, in order.
pub open spec fn ingests(burst: Seq<Seq<u8>>) -> Seq<IntakeEvent> {
    Seq::new(burst.len(), |i: int| IntakeEvent::Ingest(burst[i]))
}

/// Whether a trace holds worker calls only.
pub open spec fn no_ingest(events: Seq<IntakeEvent>) -> bool {
    forall|i: int| 0 <= i < events.len() ==> !(#[trigger] events[i] is Ingest)
}

/// One as a number if `flag` holds, else zero.
pub open spec fn count_of(flag: bool) -> nat {
    if flag {
        1
    } else {
        0
    }
}

/// Every event keeps a well-formed state well-formed: after any trace a
/// staged image has a worker, and only a worker has an image in flight.
pub proof fn lemma_run_keeps_wf(state: IntakeModel, events: Seq<IntakeEvent>)
    requires
        state.wf(),
    ensures
        run(state, events).wf(),
    decreases events.len(),
{
    if events.len() > 0 {
        lemma_run_keeps_wf(state, events.drop_last());
    }
}

/// At most one recognition is in flight at any instant: along every trace
/// the images handed out, less those reported done, are the one in flight
/// at the end or none.
pub proof fn lemma_at_most_one_in_flight(state: IntakeModel, events: Seq<IntakeEvent>)
    requires
        state.wf(),
    ensures
        count_of(state.in_flight) + jobs_issued(state, events).len() - jobs_finished(
            state,
            events,
        ) == count_of(run(state, events).in_flight),
        count_of(state.in_flight) + jobs_issued(state, events).len() - jobs_finished(
            state,
            events,
        ) <= 1,
    decreases events.len(),
{
    if events.len() > 0 {
        lemma_at_most_one_in_flight(state, events.drop_last());
    }
}

/// At most one worker loop is alive at any instant: along every trace the
/// workers started, less those ended, are the one alive at the end or none.
pub proof fn lemma_at_most_one_worker(state: IntakeModel, events: Seq<IntakeEvent>)
    requires
        state.wf(),
    ensures
        count_of(state.running) + workers_started(state, events) - workers_ended(state, events)
            == count_of(run(state, events).running),
        count_of(state.running) + workers_started(state, events) - workers_ended(state, events)
            <= 1,
    decreases events.len(),
{
    if events.len() > 0 {
        lemma_at_most_one_worker(state, events.drop_last());
    }
}

/// The snapshot is the image received last, whatever the worker did in
/// between; it is untouched while nothing is received.
pub proof fn lemma_snapshot_is_last_ingested(state: IntakeModel, events: Seq<IntakeEvent>)
    ensures
        run(state, events).snapshot == match last_ingested(events) {
            Some(image) => Some(image),
            None => state.snapshot,
        },
    decreases events.len(),
{
    if events.len() > 0 {
        lemma_snapshot_is_last_ingested(state, events.drop_last());
    }
}

/// An image received is the snapshot read next, byte for byte.
pub proof fn lemma_snapshot_round_trip(state: IntakeModel, image: Seq<u8>)
    ensures
        state.ingest(image).snapshot == Some(image),
{
}

/// A staged image is what the worker gets on its next turn: it is never
/// left behind without a worker.
pub proof fn lemma_staged_image_is_next(state: IntakeModel)
    requires
        state.wf(),
        state.pending is Some,
    ensures
        state.running,
        state.job_done().job() == state.pending,
        !state.in_flight ==> state.job() == state.pending,
{
}

/// The state and the counts after a burst received while a worker is alive.
proof fn lemma_burst_state(state: IntakeModel, burst: Seq<Seq<u8>>)
    requires
        state.running,
        burst.len() > 0,
    ensures
        run(state, ingests(burst)) == (IntakeModel {
            snapshot: Some(burst.last()),
            pending: Some(burst.last()),
            ..state
        }),
        workers_started(state, ingests(burst)) == 0,
        jobs_issued(state, ingests(burst)).len() == 0,
    decreases burst.len(),
{
    let events = ingests(burst);
    assert(events.last() == IntakeEvent::Ingest(burst.last()));
    assert(events.drop_last() =~= ingests(burst.drop_last()));
    if burst.len() > 1 {
        lemma_burst_state(state, burst.drop_last());
    } else {
        let none = events.drop_last();
        assert(none.len() == 0);
        assert(run(state, none) == state);
        assert(workers_started(state, none) == 0);
        assert(jobs_issued(state, none).len() == 0);
    }
}

/// A burst of images received while the worker is busy is coalesced: no
/// second worker is started and nothing is handed out during the burst;
/// only the last image stays staged; it is what the worker takes once it
/// has reported the image in flight done; and after it the worker finds
/// the slot empty and goes idle, so no earlier image of the burst is
/// processed.
pub proof fn lemma_burst_is_coalesced(state: IntakeModel, burst: Seq<Seq<u8>>)
    requires
        state.wf(),
        state.in_flight,
        burst.len() > 0,
    ensures
        workers_started(state, ingests(burst)) == 0,
        jobs_issued(state, ingests(burst)).len() == 0,
        run(state, ingests(burst)).pending == Some(burst.last()),
        run(state, ingests(burst)).snapshot == Some(burst.last()),
        run(state, ingests(burst)).in_flight,
        ({
            let busy = run(state, ingests(burst));
            let taken = busy.job_done().next_job();
            let idle = taken.job_done().next_job();
            &&& busy.job_done().job() == Some(burst.last())
            &&& taken.in_flight
            &&& taken.pending is None
            &&& taken.job_done().job() is None
            &&& idle == IntakeModel { running: false, in_flight: false, ..taken }
        }),
{
    lemma_burst_state(state, burst);
}

/// The image received last is never dropped: whatever the worker does
/// after it was received, it is still staged with a worker alive, or it
/// has been handed out.
pub proof fn lemma_latest_is_kept(state: IntakeModel, image: Seq<u8>, events: Seq<IntakeEvent>)
    requires
        state.wf(),
        no_ingest(events),
    ensures
        ({
            let received = state.ingest(image);
            ||| (run(received, events).pending == Some(image) && run(received, events).running)
            ||| jobs_issued(received, events).contains(image)
        }),
    decreases events.len(),
{
    let received = state.ingest(image);
    if events.len() > 0 {
        let earlier = events.drop_last();
        lemma_latest_is_kept(state, image, earlier);
        lemma_run_keeps_wf(received, earlier);
        let before = run(received, earlier);
        let issued = jobs_issued(received, earlier);
        assert(!(events[events.len() - 1] is Ingest));
        if issued.contains(image) {
            let at = choose|i: int| 0 <= i < issued.len() && issued[i] == image;
            if events.last() is NextJob && before.job() is Some {
                assert(issued.push(before.job()->0)[at] == image);
            }
        } else if events.last() is NextJob && before.may_drain() {
            let after = issued.push(image);
            assert(after[issued.len() as int] == image);
        }
    }
}

/// The images that a trace receives, in order.
pub open spec fn ingested(events: Seq<IntakeEvent>) -> Seq<Seq<u8>>
    decreases events.len(),
{
    if events.len() == 0 {
        Seq::empty()
    } else {
        match events.last() {
            IntakeEvent::Ingest(image) => ingested(events.drop_last()).push(image),
            _ => ingested(events.drop_last()),
        }
    }
}

/// The images that a trace offers to the worker, in order: the one that
/// is staged at its start, if one is, then those that it receives.
pub open spec fn offered(state: IntakeModel, events: Seq<IntakeEvent>) -> Seq<Seq<u8>> {
    match state.pending {
        Some(image) => seq![image] + ingested(events),
        None => ingested(events),
    }
}

/// For each image handed to the worker along a trace, its place among the
/// images offered: the place of the image offered last before it was
/// handed out.
pub open spec fn job_sources(state: IntakeModel, events: Seq<IntakeEvent>) -> Seq<int>
    decreases events.len(),
{
    if events.len() == 0 {
        Seq::empty()
    } else {
        let earlier = job_sources(state, events.drop_last());
        let before = run(state, events.drop_last());
        if events.last() is NextJob && before.job() is Some {
            earlier.push(offered(state, events.drop_last()).len() - 1)
        } else {
            earlier
        }
    }
}

/// Whether `jobs` are taken from `offered` at the places `sources`, the
/// places strictly rising: the jobs are then a subsequence of what was
/// offered, and nothing offered is a job twice.
pub open spec fn taken_in_order(
    jobs: Seq<Seq<u8>>,
    sources: Seq<int>,
    offered: Seq<Seq<u8>>,
) -> bool {
    &&& sources.len() == jobs.len()
    &&& forall|k: int|
        0 <= k < sources.len() ==> 0 <= #[trigger] sources[k] < offered.len() && jobs[k]
            == offered[sources[k]]
    &&& forall|j: int, k: int|
        0 <= j < k < sources.len() ==> #[trigger] sources[j] < #[trigger] sources[k]
}

/// Whether the image offered last is accounted for: it is the one staged
/// and was not handed out yet, or nothing is staged and it is the one
/// handed out last.
pub open spec fn last_is_accounted_for(
    pending: Option<Seq<u8>>,
    sources: Seq<int>,
    offered: Seq<Seq<u8>>,
) -> bool {
    match pending {
        Some(image) => {
            &&& offered.len() > 0
            &&& offered.last() == image
            &&& forall|k: int|
                0 <= k < sources.len() ==> #[trigger] sources[k] < offered.len() - 1
        },
        None => offered.len() == 0 || (sources.len() > 0 && sources.last() == offered.len()
            - 1),
    }
}

/// Over every interleaving of producers and worker, the images handed to
/// the worker are a subsequence of the images offered: they come in the
/// order in which they were received, and no image is handed out twice.
/// The image received last is never skipped: it is still staged, or it is
/// the one handed out last, once.
pub proof fn lemma_jobs_are_a_subsequence(state: IntakeModel, events: Seq<IntakeEvent>)
    ensures
        taken_in_order(
            jobs_issued(state, events),
            job_sources(state, events),
            offered(state, events),
        ),
        last_is_accounted_for(
            run(state, events).pending,
            job_sources(state, events),
            offered(state, events),
        ),
    decreases events.len(),
{
    let all = offered(state, events);
    let sources = job_sources(state, events);
    let jobs = jobs_issued(state, events);
    if events.len() == 0 {
        assert(ingested(events) =~= Seq::<Seq<u8>>::empty());
        match state.pending {
            Some(image) => {
                assert(all =~= seq![image]);
            },
            None => {},
        }
    } else {
        let earlier = events.drop_last();
        lemma_jobs_are_a_subsequence(state, earlier);
        let before = run(state, earlier);
        let all0 = offered(state, earlier);
        let sources0 = job_sources(state, earlier);
        let jobs0 = jobs_issued(state, earlier);
        match events.last() {
            IntakeEvent::Ingest(image) => {
                assert(all =~= all0.push(image));
                assert(sources == sources0);
                assert(jobs == jobs0);
                assert forall|k: int| 0 <= k < sources.len() implies 0 <= #[trigger] sources[k]
                    < all.len() && jobs[k] == all[sources[k]] && sources[k] < all.len() - 1 by {
                    assert(0 <= sources0[k] < all0.len());
                    assert(jobs0[k] == all0[sources0[k]]);
                }
            },
            IntakeEvent::NextJob => {
                assert(all == all0);
                if before.job() is Some {
                    let place = all0.len() - 1;
                    assert(before.pending == before.job());
                    assert(sources == sources0.push(place));
                    assert(jobs == jobs0.push(before.job()->0));
                    assert forall|k: int| 0 <= k < sources.len() implies 0 <= #[trigger] sources[k]
                        < all.len() && jobs[k] == all[sources[k]] by {
                        if k < sources0.len() {
                            assert(sources[k] == sources0[k]);
                            assert(jobs[k] == jobs0[k]);
                        }
                    }
                    assert forall|j: int, k: int| 0 <= j < k < sources.len() implies #[trigger] sources[j]
                        < #[trigger] sources[k] by {
                        assert(sources[j] == sources0[j]);
                        if k < sources0.len() {
                            assert(sources[k] == sources0[k]);
                        }
                    }
                } else {
                    assert(run(state, events).pending == before.pending);
                }
            },
            IntakeEvent::JobDone => {
                assert(all == all0);
            },
        }
    }
}

/// When the worker has gone idle, the image offered last has been handed
/// to it: it is the job handed out last, and by the strict order of the
/// places it was handed out once.
pub proof fn lemma_idle_worker_has_taken_the_last(state: IntakeModel, events: Seq<IntakeEvent>)
    requires
        state.wf(),
        !run(state, events).running,
        offered(state, events).len() > 0,
    ensures
        taken_in_order(
            jobs_issued(state, events),
            job_sources(state, events),
            offered(state, events),
        ),
        jobs_issued(state, events).len() > 0,
        jobs_issued(state, events).last() == offered(state, events).last(),
        job_sources(state, events).last() == offered(state, events).len() - 1,
{
    lemma_run_keeps_wf(state, events);
    lemma_jobs_are_a_subsequence(state, events);
    let sources = job_sources(state, events);
    assert(run(state, events).pending is None);
    assert(sources[sources.len() - 1] == offered(state, events).len() - 1);
}

} // verus!
