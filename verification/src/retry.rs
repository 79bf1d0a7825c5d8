//! Counts failures that follow each other.

use crate::error::{Error, ErrorKind};
use vstd::prelude::*;

verus! {

/// How many attempts in a row have failed, of how many that may.
#[derive(Debug)]
pub struct Retries {
    retries: usize,
    max: usize,
}

/// How many of the last outcomes were failures, in a row.
pub open spec fn failures_at_end(failed: Seq<bool>) -> nat
    decreases failed.len(),
{
    if failed.len() > 0 && failed.last() {
        failures_at_end(failed.drop_last()) + 1
    } else {
        0
    }
}

impl Retries {
    pub closed spec fn spec_retries(&self) -> int {
        self.retries as int
    }

    pub closed spec fn spec_max(&self) -> int {
        self.max as int
    }

    pub open spec fn wf(&self) -> bool {
        0 <= self.spec_retries() <= self.spec_max()
    }

    pub fn new(max: usize) -> (retries: Self)
        ensures
            retries.wf(),
            retries.spec_retries() == 0,
            retries.spec_max() == max,
    {
        Retries { retries: 0, max }
    }

    /// Whether there may be another attempt.
    pub fn more(&self) -> (more: bool)
        ensures
            more == (self.spec_retries() < self.spec_max()),
    {
        self.retries < self.max
    }

    /// Counts the outcome of an attempt: a success makes up for all failures before it.
    pub fn record(&mut self, failed: bool)
        requires
            old(self).wf(),
            old(self).spec_retries() < old(self).spec_max(),
        ensures
            final(self).wf(),
            final(self).spec_max() == old(self).spec_max(),
            final(self).spec_retries() == if failed {
                old(self).spec_retries() + 1
            } else {
                0
            },
    {
        if failed {
            self.retries = self.retries + 1;
        } else {
            self.retries = 0;
        }
    }

    /// The result once there may be no other attempt.
    pub fn finish(&self) -> (result: Result<(), Error>)
        requires
            self.wf(),
        ensures
            match result {
                Ok(()) => self.spec_retries() < self.spec_max(),
                Err(error) => self.spec_retries() == self.spec_max() && error.kind
                    == ErrorKind::MaxRetries,
            },
    {
        if self.retries == self.max {
            Err(Error::max_retries())
        } else {
            Ok(())
        }
    }
}

/// The counter always says how many failures in a row there were last: it is so at the start,
/// and each outcome that is counted keeps it so. An endpoint gives up, then, when as many
/// attempts in a row have failed as are allowed, and not before.
pub proof fn law_retries(failed: Seq<bool>, outcome: bool)
    ensures
        failures_at_end(Seq::empty()) == 0,
        failures_at_end(failed.push(outcome)) == if outcome {
            failures_at_end(failed) + 1
        } else {
            0
        },
        failures_at_end(failed) <= failed.len(),
        forall|i: int|
            failed.len() - failures_at_end(failed) <= i < failed.len() ==> #[trigger] failed[i],
        failures_at_end(failed) < failed.len() ==> !failed[failed.len() - failures_at_end(failed)
            - 1],
    decreases failed.len(),
{
    assert(failed.push(outcome).drop_last() =~= failed);
    if failed.len() > 0 && failed.last() {
        let earlier = failed.drop_last();
        law_retries(earlier, true);
        assert forall|i: int|
            failed.len() - failures_at_end(failed) <= i < failed.len() implies #[trigger] failed[i] by {
            if i < earlier.len() {
                assert(earlier[i]);
            }
        }
    }
}

/// Whether a counter has counted some outcomes.
pub open spec fn has_counted(retries: Retries, failed: Seq<bool>) -> bool {
    retries.spec_retries() == failures_at_end(failed)
}

/// From the start, and with each outcome, the counter has counted the outcomes.
pub proof fn law_record(retries: &mut Retries, failed: Seq<bool>, outcome: bool, new: Retries, max: usize)
    requires
        retries.wf(),
        retries.spec_retries() < retries.spec_max(),
        has_counted(*retries, failed),
        call_ensures(Retries::record, (retries, outcome), ()),
        call_ensures(Retries::new, (max,), new),
    ensures
        has_counted(*final(retries), failed.push(outcome)),
        final(retries).spec_max() == old(retries).spec_max(),
        has_counted(new, Seq::empty()),
        new.spec_max() == max,
{
    law_retries(failed, outcome);
}

/// An endpoint gives up when as many attempts in a row have failed as are allowed, and not before:
/// there is no other attempt exactly then, and exactly then the result is an error.
pub proof fn law_gives_up(
    retries: Retries,
    failed: Seq<bool>,
    more: bool,
    result: Result<(), Error>,
)
    requires
        retries.wf(),
        has_counted(retries, failed),
        call_ensures(Retries::more, (&retries,), more),
        call_ensures(Retries::finish, (&retries,), result),
    ensures
        more <==> failures_at_end(failed) < retries.spec_max(),
        more <==> result is Ok,
        result matches Err(error) ==> error.kind == ErrorKind::MaxRetries,
{
}

} // verus!
