//! The update queue: requests for one target that arrive close together are
//! merged into one, and one worker per target sends them.

use vstd::prelude::*;
use crate::client::{merged, ClientError, UpdateRequest, UpdateResponse};
use crate::daemon::{mark_down, same_status, DaemonState, DaemonStatus};
use crate::keyed::Keyed;
use crate::settings::{key_seq, Target};
use crate::snapshot::{
    apply_results, apply_results_spec, mark_unreachable, member_ids_spec, optimistic, patched, touch,
    Snapshot, TouchLog,
};

verus! {

/// How long a worker waits for more requests before sending, in
/// milliseconds.
pub const COALESCE_WINDOW_MS: u64 = 50;

/// How long after a failed update the lights are polled again, in
/// milliseconds.
pub const RETRY_POLL_MS: u64 = 1000;

/// The requests waiting to be sent, by target key, and the keys whose
/// worker is running.
pub struct UpdateQueue {
    pub pending: Keyed<(Target, UpdateRequest)>,
    pub active: Keyed<()>,
}

/// The pending requests after `patch` for `target` arrives: laid over the
/// request already waiting for that target, if any.
pub open spec fn enqueued(
    pending: Map<Seq<char>, (Target, UpdateRequest)>,
    target: Target,
    patch: UpdateRequest,
) -> Map<Seq<char>, (Target, UpdateRequest)> {
    let k = key_seq(target.kind@, target.id@);
    if pending.dom().contains(k) {
        pending.insert(k, (pending[k].0, merged(pending[k].1, patch)))
    } else {
        pending.insert(k, (target, patch))
    }
}

impl UpdateQueue {
    /// A queue with nothing waiting and no worker running.
    pub fn new() -> (q: UpdateQueue)
        ensures
            q.pending@ == Map::<Seq<char>, (Target, UpdateRequest)>::empty(),
            q.active@ == Map::<Seq<char>, ()>::empty(),
    {
        UpdateQueue { pending: Keyed::new(), active: Keyed::new() }
    }
}

/// Queues `patch` for `target`: shows it in the snapshot at once, notes the
/// user's touch at `now_ms`, and merges it into the request waiting for the
/// target. Tells whether a worker must be started for the target (none was
/// running).
pub fn enqueue(
    queue: &mut UpdateQueue,
    snapshot: &mut Snapshot,
    touched_log: &mut TouchLog,
    target: &Target,
    patch: UpdateRequest,
    now_ms: u64,
) -> (newly_active: bool)
    ensures
        final(queue).pending@ == enqueued(old(queue).pending@, *target, patch),
        final(queue).active@ == old(queue).active@.insert(key_seq(target.kind@, target.id@), ()),
        newly_active == !old(queue).active@.dom().contains(key_seq(target.kind@, target.id@)),
        final(touched_log)@ == old(touched_log)@.insert(key_seq(target.kind@, target.id@), now_ms),
        final(snapshot).lights@.len() == old(snapshot).lights@.len(),
        forall|i: int| 0 <= i < old(snapshot).lights@.len() ==> #[trigger] final(snapshot).lights@[i] == if member_ids_spec(
            old(snapshot).lights@,
            old(snapshot).groups@,
            target.kind@,
            target.id@,
        ).contains(old(snapshot).lights@[i].id@) {
            patched(old(snapshot).lights@[i], patch)
        } else {
            old(snapshot).lights@[i]
        },
        final(snapshot).groups@ == old(snapshot).groups@,
{
    optimistic(snapshot, target, &patch);
    touch(touched_log, target, now_ms);
    let key = target.key();
    match queue.pending.remove(key.as_str()) {
        Some((t, existing)) => {
            let mut combined = existing;
            combined.merge(&patch);
            queue.pending.insert(key.clone(), (t, combined));
        },
        None => {
            queue.pending.insert(key.clone(), (target.clone(), patch));
        },
    }
    proof {
        assert(queue.pending@ =~= enqueued(old(queue).pending@, *target, patch));
    }
    let newly_active = !queue.active.contains_key(key.as_str());
    queue.active.insert(key, ());
    newly_active
}

/// A worker's next job for `key`: the request waiting there, taken out.
/// Where none waits, the worker for `key` stops (it is no longer active).
pub fn next_job(queue: &mut UpdateQueue, key: &str) -> (job: Option<(Target, UpdateRequest)>)
    ensures
        job == if old(queue).pending@.dom().contains(key@) { Some(old(queue).pending@[key@]) } else { None },
        final(queue).pending@ == old(queue).pending@.remove(key@),
        final(queue).active@ == if job is None { old(queue).active@.remove(key@) } else { old(queue).active@ },
{
    let job = queue.pending.remove(key);
    if job.is_none() {
        queue.active.remove(key);
    }
    job
}

/// Requests that arrive for one target before its worker sends are merged:
/// the worker's next job for the target carries the first request with the
/// later one laid over it.
pub proof fn lemma_requests_coalesce(
    pending: Map<Seq<char>, (Target, UpdateRequest)>,
    target: Target,
    first: UpdateRequest,
    second: UpdateRequest,
)
    requires
        !pending.dom().contains(key_seq(target.kind@, target.id@)),
    ensures
        enqueued(enqueued(pending, target, first), target, second)[key_seq(target.kind@, target.id@)]
            == (target, merged(first, second)),
{
}

/// The follow-up an update calls for.
#[derive(Clone, Copy, Debug, PartialEq, Eq, Structural)]
pub enum UpdateFollowUp {
    /// Nothing more.
    Done,
    /// Poll the lights again after `RETRY_POLL_MS`.
    PollSoon,
}

/// Takes in the outcome of sending a request for `target` (key `key`). On
/// an answer, its states enter the snapshot unless a newer request for the
/// target already waits, and the target's lights are marked unreachable
/// where the daemon reports failure. Where the daemon could not be reached
/// it is marked down; on any other error the target's lights are marked
/// unreachable. Both errors call for an early poll.
pub fn finish_update(
    queue: &UpdateQueue,
    snapshot: &mut Snapshot,
    daemon: &mut DaemonState,
    target: &Target,
    key: &str,
    result: Result<UpdateResponse, ClientError>,
) -> (follow_up: UpdateFollowUp)
    ensures
        match result {
            Ok(response) => {
                let superseded = queue.pending@.dom().contains(key@);
                let lights = if superseded {
                    old(snapshot).lights@
                } else {
                    apply_results_spec(old(snapshot).lights@, response.results@)
                };
                &&& follow_up == UpdateFollowUp::Done
                &&& final(daemon).status == old(daemon).status
                &&& response.ok ==> final(snapshot).lights@ == lights
                &&& !response.ok ==> final(snapshot).lights@.len() == lights.len() && forall|i: int|
                    0 <= i < lights.len() ==> #[trigger] final(snapshot).lights@[i] == if member_ids_spec(
                        lights,
                        old(snapshot).groups@,
                        target.kind@,
                        target.id@,
                    ).contains(lights[i].id@) {
                        crate::client::Light { reachable: false, ..lights[i] }
                    } else {
                        lights[i]
                    }
            },
            Err(ClientError::Unreachable(why)) => {
                &&& follow_up == UpdateFollowUp::PollSoon
                &&& same_status(final(daemon).status, DaemonStatus::Down(why))
                &&& final(snapshot).lights@ == old(snapshot).lights@
            },
            Err(_) => {
                &&& follow_up == UpdateFollowUp::PollSoon
                &&& final(daemon).status == old(daemon).status
                &&& final(snapshot).lights@.len() == old(snapshot).lights@.len()
                &&& forall|i: int| 0 <= i < old(snapshot).lights@.len() ==> #[trigger] final(snapshot).lights@[i]
                    == if member_ids_spec(
                        old(snapshot).lights@,
                        old(snapshot).groups@,
                        target.kind@,
                        target.id@,
                    ).contains(old(snapshot).lights@[i].id@) {
                        crate::client::Light { reachable: false, ..old(snapshot).lights@[i] }
                    } else {
                        old(snapshot).lights@[i]
                    }
            },
        },
        final(snapshot).groups@ == old(snapshot).groups@,
{
    match result {
        Ok(response) => {
            let superseded = queue.pending.contains_key(key);
            if !superseded {
                apply_results(snapshot, &response.results);
            }
            if !response.ok {
                mark_unreachable(snapshot, target);
            }
            UpdateFollowUp::Done
        },
        Err(ClientError::Unreachable(why)) => {
            mark_down(daemon, why);
            UpdateFollowUp::PollSoon
        },
        Err(other) => {
            let _ = other;
            mark_unreachable(snapshot, target);
            UpdateFollowUp::PollSoon
        },
    }
}

} // verus!
