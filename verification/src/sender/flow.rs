//! The flow of the jobs and messages of a sender.

use crate::error::{Error, ErrorKind};
use crate::items::{Body, ConfirmationIndexes, Message};
use crate::retry::Retries;
use crate::sender::confirmations::{job_key, JobCache};
use crate::sender::controller::{control, ControllerState};
use crate::sender::reader::Job;
use std::collections::HashMap;
use vstd::prelude::*;

verus! {

/// Deals with a job after an attempt to send it at the time `now`: one that was not sent is
/// handed back to be put into the queue again, one that was sent waits for its confirmation.
pub fn after_send(
    job: Job,
    failed: bool,
    now: u64,
    cache: &mut JobCache,
    retries: &mut Retries,
) -> (unsent: Option<Job>)
    requires
        old(cache).state().wf(),
        old(retries).wf(),
        old(retries).spec_retries() < old(retries).spec_max(),
    ensures
        final(cache).state().wf(),
        final(retries).wf(),
        final(retries).spec_max() == old(retries).spec_max(),
        if failed {
            &&& unsent == Some(job)
            &&& final(cache).state() == old(cache).state()
            &&& final(retries).spec_retries() == old(retries).spec_retries() + 1
        } else {
            &&& unsent is None
            &&& final(cache).state() == old(cache).state().with_job(job, now)
            &&& final(retries).spec_retries() == 0
        },
{
    retries.record(failed);
    if failed {
        // put the job back in the queue
        Some(job)
    } else {
        // cache the job
        cache.insert(job, now);
        None
    }
}

/// The time between two permits, in nanoseconds, for a rate in permits per second.
pub fn permit_interval(rate: u64) -> (nanos: u64)
    requires
        0 < rate <= 1_000_000_000,
    ensures
        nanos == 1_000_000_000int / rate as int,
        nanos > 0,
{
    proof {
        assert(1_000_000_000int / rate as int >= 1) by (nonlinear_arith)
            requires
                0 < rate <= 1_000_000_000,
        ;
    }
    1_000_000_000 / rate
}

/// The interval is as long as the rate allows: as many permits as the rate says fit into one
/// second, and with one nanosecond more between them they would not.
pub proof fn law_permit_interval(rate: u64)
    requires
        0 < rate <= 1_000_000_000,
    ensures
        (1_000_000_000int / rate as int) * rate <= 1_000_000_000,
        1_000_000_000 < (1_000_000_000int / rate as int + 1) * rate,
{
    let nanos = 1_000_000_000int / rate as int;
    assert(nanos * rate <= 1_000_000_000 < (nanos + 1) * rate) by (nonlinear_arith)
        requires
            0 < rate,
            nanos == 1_000_000_000int / rate as int,
    ;
}

/// don't want too many permits to build up
pub fn adds_permit(available: usize) -> (adds: bool)
    ensures
        adds == (available < 1_000),
{
    available < 1_000
}

/// Where a message of the receiver goes.
#[derive(Debug)]
pub enum Route {
    Confirmations(HashMap<u32, ConfirmationIndexes>),
    Controller(Message),
}

/// split the message stream into `Confirmation` and `End + Failure` messages
pub fn route(message: Message) -> (result: Result<Route, Error>)
    ensures
        match message.message {
            Some(Body::Confirmations { indexes }) => result == Ok::<Route, Error>(
                Route::Confirmations(indexes),
            ),
            Some(Body::End { .. }) | Some(Body::Failure { .. }) => result == Ok::<Route, Error>(
                Route::Controller(message),
            ),
            _ => result matches Err(error) && error.kind == ErrorKind::UnexpectedMessage(
                Box::new(message),
            ),
        },
{
    match message.message {
        Some(Body::Confirmations { indexes }) => Ok(Route::Confirmations(indexes)),
        Some(Body::End { .. }) => Ok(Route::Controller(message)),
        Some(Body::Failure { .. }) => Ok(Route::Controller(message)),
        _ => Err(Error::unexpected_message(message)),
    }
}

/// The time between permits is as long as the rate allows: as many permits as the rate says fit
/// into one second, and with one nanosecond more between them they would not.
pub proof fn law_permits(rate: u64, nanos: u64)
    requires
        0 < rate <= 1_000_000_000,
        call_ensures(permit_interval, (rate,), nanos),
    ensures
        nanos * rate <= 1_000_000_000 < (nanos + 1) * rate,
{
    law_permit_interval(rate);
}

/// A permit is added until a thousand have built up.
pub proof fn law_adds_permit(available: usize, adds: bool)
    requires
        call_ensures(adds_permit, (available,), adds),
    ensures
        adds <==> available + 1 <= 1000,
{
}

/// A job is never lost on its way: after an attempt to send it, it is either handed back as it was,
/// or it waits for its confirmation from that time on; and the other jobs wait as before.
pub proof fn law_after_send(
    job: Job,
    failed: bool,
    now: u64,
    cache: &mut JobCache,
    retries: &mut Retries,
    unsent: Option<Job>,
    key: u128,
)
    requires
        cache.state().wf(),
        retries.wf(),
        retries.spec_retries() < retries.spec_max(),
        call_ensures(after_send, (job, failed, now, cache, retries), unsent),
    ensures
        ({
            let own = job_key(job.id, job.index);
            &&& failed ==> unsent == Some(job)
            &&& !failed ==> unsent is None && final(cache).state().jobs.contains_key(own)
                && final(cache).state().jobs[own].data == job.data
                && final(cache).state().jobs[own].cached_at == Some(now)
            &&& key != own || failed ==> {
                &&& final(cache).state().jobs.contains_key(key) <==> old(
                    cache,
                ).state().jobs.contains_key(key)
                &&& old(cache).state().jobs.contains_key(key) ==> final(cache).state().jobs[key]
                    == old(cache).state().jobs[key]
            }
            &&& final(retries).spec_max() == old(retries).spec_max()
            &&& failed ==> final(retries).spec_retries() == old(retries).spec_retries() + 1
            &&& !failed ==> final(retries).spec_retries() == 0
        }),
{
}

/// The messages go where they are understood: what the controller gets, it knows what to do with,
/// confirmations do not get there, and everything else is an error.
pub proof fn law_route(message: Message, result: Result<Route, Error>, state: ControllerState)
    requires
        call_ensures(route, (message,), result),
    ensures
        result matches Ok(Route::Controller(routed)) ==> routed == message && control(
            state,
            routed.message,
        ) is Some,
        result matches Ok(Route::Confirmations(indexes)) ==> message.message == Some(
            Body::Confirmations { indexes },
        ),
        result matches Err(error) ==> control(state, message.message) is None && error.kind
            == ErrorKind::UnexpectedMessage(Box::new(message)),
        message.message matches Some(Body::Confirmations { indexes }) ==> result is Ok,
{
}

} // verus!
