//! Keeps what was sent until the receiver confirms it, and queues it again if that takes too
//! long.

use crate::items::ConfirmationIndexes;
use crate::keys::keys_of;
use crate::sender::reader::Job;
use std::collections::{HashMap, HashSet};
use vstd::prelude::*;

verus! {

/// The key of a chunk: the id of its file and its index.
pub open spec fn job_key(id: u32, index: u64) -> u128 {
    (id * 0x1_0000_0000_0000_0000 + index) as u128
}

/// The file id that a key holds.
pub open spec fn key_id(key: u128) -> u32 {
    (key / 0x1_0000_0000_0000_0000) as u32
}

/// Chunks of different files, or of different indexes, have different keys.
pub proof fn law_job_key(id: u32, index: u64, other_id: u32, other_index: u64)
    ensures
        job_key(id, index) == job_key(other_id, other_index) <==> id == other_id && index
            == other_index,
        key_id(job_key(id, index)) == id,
{
}

fn make_key(id: u32, index: u64) -> (key: u128)
    ensures
        key == job_key(id, index),
{
    id as u128 * 0x1_0000_0000_0000_0000 + index as u128
}

/// The keys of some chunks of a file.
pub open spec fn file_keys(id: u32, indexes: Seq<u64>) -> Seq<u128> {
    indexes.map_values(|index: u64| job_key(id, index))
}

/// Whether a key occurs more than once.
pub open spec fn twice(keys: Seq<u128>, key: u128) -> bool {
    exists|i: int, j: int|
        0 <= i < j < keys.len() && #[trigger] keys[i] == key && #[trigger] keys[j] == key
}

/// Whether a key is among the confirmations.
pub open spec fn named(indexes: Map<u32, ConfirmationIndexes>, key: u128) -> bool {
    &&& indexes.contains_key(key_id(key))
    &&& file_keys(key_id(key), indexes[key_id(key)].inner@).contains(key)
}

/// Whether a key is among the confirmations more than once.
pub open spec fn named_twice(indexes: Map<u32, ConfirmationIndexes>, key: u128) -> bool {
    &&& indexes.contains_key(key_id(key))
    &&& twice(file_keys(key_id(key), indexes[key_id(key)].inner@), key)
}

/// What waits for confirmation, and what was confirmed in vain.
#[verifier::ext_equal]
pub struct CacheState {
    /// the jobs that have been sent but not confirmed
    pub jobs: Map<u128, Job>,
    /// the keys that were confirmed while their job was not here: it had been queued again
    pub lost: Set<u128>,
}

impl CacheState {
    /// Every job is found under its key and knows when it was sent.
    pub open spec fn wf(self) -> bool {
        &&& self.jobs.dom().finite()
        &&& forall|key: u128| #[trigger]
            self.jobs.contains_key(key) ==> {
                &&& key == job_key(self.jobs[key].id, self.jobs[key].index)
                &&& self.jobs[key].cached_at is Some
            }
    }

    /// The state with a job that was just sent.
    pub open spec fn with_job(self, job: Job, now: u64) -> CacheState {
        CacheState {
            jobs: self.jobs.insert(
                job_key(job.id, job.index),
                Job { cached_at: Some(now), ..job },
            ),
            lost: self.lost,
        }
    }

    /// Whether the job of a key has been waiting for more than `interval` milliseconds.
    pub open spec fn is_stale(self, key: u128, now: u64, interval: u64) -> bool {
        &&& self.jobs.contains_key(key)
        &&& now - self.jobs[key].cached_at->0 > interval * 1_000_000
    }

    /// Whether the job of a key waits and was not confirmed.
    pub open spec fn is_unconfirmed(self, key: u128) -> bool {
        self.jobs.contains_key(key) && !self.lost.contains(key)
    }

    /// The jobs of the given keys that are to be sent again.
    pub open spec fn requeued(self, keys: Seq<u128>) -> Seq<Job> {
        keys.filter(|key: u128| self.is_unconfirmed(key)).map_values(
            |key: u128| Job { cached_at: None, ..self.jobs[key] },
        )
    }
}

/// Whether confirmations lead from one state to another: the jobs that they name wait no
/// longer, and what they name without a job, or more than once, is kept as confirmed in vain.
pub open spec fn confirms(
    before: CacheState,
    indexes: Map<u32, ConfirmationIndexes>,
    after: CacheState,
) -> bool {
    &&& forall|key: u128| #[trigger]
        after.jobs.contains_key(key) <==> before.jobs.contains_key(key) && !named(indexes, key)
    &&& forall|key: u128| #[trigger]
        after.jobs.contains_key(key) ==> after.jobs[key] == before.jobs[key]
    &&& forall|key: u128| #[trigger]
        after.lost.contains(key) <==> {
            ||| before.lost.contains(key)
            ||| named(indexes, key) && (!before.jobs.contains_key(key) || named_twice(indexes, key))
        }
}

/// A cache for the file chunks that have been sent but not confirmed.
#[derive(Debug)]
pub struct JobCache {
    jobs: HashMap<u128, Job>,
    /// this solves a problem where a confirmation is received after a job has already been
    /// requeued
    lost: HashSet<u128>,
}

/// What the check for unconfirmed jobs leads to.
#[derive(Debug)]
pub struct Requeue {
    /// the jobs to put back into the queue
    pub jobs: Vec<Job>,
    /// how many jobs turned out to be confirmed: as many permits go to the readers
    pub confirmed: usize,
}

impl JobCache {
    pub closed spec fn state(&self) -> CacheState {
        CacheState { jobs: self.jobs@, lost: self.lost@ }
    }

    pub fn new() -> (cache: Self)
        ensures
            cache.state() == (CacheState { jobs: Map::empty(), lost: Set::empty() }),
            cache.state().wf(),
    {
        broadcast use vstd::std_specs::hash::group_hash_axioms;

        JobCache { jobs: HashMap::new(), lost: HashSet::new() }
    }

    /// Keeps a job that was just sent.
    pub fn insert(&mut self, job: Job, now: u64)
        requires
            old(self).state().wf(),
        ensures
            final(self).state() == old(self).state().with_job(job, now),
            final(self).state().wf(),
    {
        broadcast use vstd::std_specs::hash::group_hash_axioms;

        let key: u128 = make_key(job.id, job.index);
        let mut job = job;
        job.cached_at = Some(now);
        self.jobs.insert(key, job);
    }

    /// Takes confirmations of chunks of one file.
    fn confirm_file(&mut self, id: u32, indexes: &Vec<u64>)
        requires
            old(self).state().wf(),
        ensures
            final(self).state().wf(),
            forall|key: u128| #[trigger]
                final(self).state().jobs.contains_key(key) <==> old(self).state().jobs.contains_key(
                    key,
                ) && !file_keys(id, indexes@).contains(key),
            forall|key: u128| #[trigger]
                final(self).state().jobs.contains_key(key) ==> final(self).state().jobs[key]
                    == old(self).state().jobs[key],
            forall|key: u128| #[trigger]
                final(self).state().lost.contains(key) <==> {
                    ||| old(self).state().lost.contains(key)
                    ||| file_keys(id, indexes@).contains(key) && (
                    !old(self).state().jobs.contains_key(key) || twice(file_keys(id, indexes@), key))
                },
    {
        broadcast use vstd::std_specs::hash::group_hash_axioms;

        let ghost keys = file_keys(id, indexes@);
        let ghost start = self.state();
        let mut i: usize = 0;
        while i < indexes.len()
            invariant
                i <= indexes.len(),
                keys == file_keys(id, indexes@),
                start == old(self).state(),
                self.state().wf(),
                forall|key: u128| #[trigger]
                    self.state().jobs.contains_key(key) <==> start.jobs.contains_key(key)
                        && !keys.take(i as int).contains(key),
                forall|key: u128| #[trigger]
                    self.state().jobs.contains_key(key) ==> self.state().jobs[key]
                        == start.jobs[key],
                forall|key: u128| #[trigger]
                    self.state().lost.contains(key) <==> {
                        ||| start.lost.contains(key)
                        ||| keys.take(i as int).contains(key) && (!start.jobs.contains_key(key)
                            || twice(keys.take(i as int), key))
                    },
            decreases indexes.len() - i,
        {
            let key: u128 = make_key(id, indexes[i]);
            let ghost before = keys.take(i as int);
            let ghost after = keys.take(i as int + 1);
            let ghost earlier = self.state();
            proof {
                assert(key == keys[i as int]);
                assert(after =~= before.push(key));
                lemma_push(before, key);
            }
            if self.jobs.remove(&key).is_none() {
                // if the index is not in the cache, it was already requeued
                self.lost.insert(key);
            }
            proof {
                assert forall|other: u128| #[trigger]
                    self.state().lost.contains(other) <==> {
                        ||| start.lost.contains(other)
                        ||| after.contains(other) && (!start.jobs.contains_key(other) || twice(
                            after,
                            other,
                        ))
                    } by {
                    assert(twice(after, other) <==> twice(before, other) || before.contains(other)
                        && other == key);
                    assert(twice(before, other) ==> before.contains(other));
                    assert(after.contains(other) <==> before.contains(other) || other == key);
                    assert(self.state().lost.contains(other) <==> earlier.lost.contains(other)
                        || other == key && !earlier.jobs.contains_key(key));
                }
            }
            i += 1;
        }
        proof {
            assert(keys.take(keys.len() as int) =~= keys);
        }
    }

    /// Takes confirmations, and says how many of them were news: so many permits are added to
    /// the readers, and so many packets are counted as confirmed.
    pub fn confirm(&mut self, indexes: &HashMap<u32, ConfirmationIndexes>) -> (confirmed: usize)
        requires
            old(self).state().wf(),
        ensures
            final(self).state().wf(),
            confirms(old(self).state(), indexes@, final(self).state()),
            confirmed == old(self).state().jobs.dom().len() - final(self).state().jobs.dom().len(),
    {
        broadcast use vstd::std_specs::hash::group_hash_axioms;

        let ghost start = self.state();
        let before: usize = self.jobs.len();
        let ids = keys_of(indexes);
        let mut n: usize = 0;
        while n < ids.len()
            invariant
                n <= ids.len(),
                ids@.no_duplicates(),
                ids@.to_set() == indexes@.dom(),
                start == old(self).state(),
                self.state().wf(),
                forall|key: u128| #[trigger]
                    self.state().jobs.contains_key(key) <==> start.jobs.contains_key(key) && !(
                    ids@.take(n as int).contains(key_id(key)) && named(indexes@, key)),
                forall|key: u128| #[trigger]
                    self.state().jobs.contains_key(key) ==> self.state().jobs[key]
                        == start.jobs[key],
                forall|key: u128| #[trigger]
                    self.state().lost.contains(key) <==> {
                        ||| start.lost.contains(key)
                        ||| ids@.take(n as int).contains(key_id(key)) && named(indexes@, key) && (
                        !start.jobs.contains_key(key) || named_twice(indexes@, key))
                    },
            decreases ids.len() - n,
        {
            let id: u32 = ids[n];
            let ghost done = ids@.take(n as int);
            proof {
                assert(ids@.to_set().contains(id));
                assert(ids@.take(n as int + 1) =~= done.push(id));
                assert forall|other: u32| #[trigger]
                    ids@.take(n as int + 1).contains(other) <==> done.contains(other) || other
                        == id by {
                    lemma_push_ids(done, id);
                }
                assert(!done.contains(id));
            }
            let list = indexes.get(&id).unwrap();
            proof {
                assert forall|key: u128| #[trigger]
                    file_keys(id, list.inner@).contains(key) implies key_id(key) == id by {
                    let i = choose|i: int|
                        0 <= i < list.inner@.len() && file_keys(id, list.inner@)[i] == key;
                    law_job_key(id, list.inner@[i], id, list.inner@[i]);
                }
            }
            self.confirm_file(id, &list.inner);
            n += 1;
        }
        proof {
            assert(ids@.take(ids@.len() as int) =~= ids@);
            assert forall|key: u128| named(indexes@, key) implies #[trigger] ids@.contains(
                key_id(key),
            ) by {
                assert(ids@.to_set().contains(key_id(key)));
            }
            assert(self.state().jobs.dom().subset_of(start.jobs.dom()));
            vstd::set_lib::lemma_len_subset(self.state().jobs.dom(), start.jobs.dom());
        }
        before - self.jobs.len()
    }

    /// The keys of the jobs that have been waiting for more than `interval` milliseconds at the
    /// time `now`, which is in nanoseconds.
    pub fn stale_keys(&self, now: u64, interval: u64) -> (keys: Vec<u128>)
        requires
            self.state().wf(),
        ensures
            keys@.no_duplicates(),
            forall|key: u128| #[trigger]
                keys@.contains(key) <==> self.state().is_stale(key, now, interval),
    {
        broadcast use vstd::std_specs::hash::group_hash_axioms;

        let all = keys_of(&self.jobs);
        let mut keys: Vec<u128> = Vec::new();
        let mut n: usize = 0;
        while n < all.len()
            invariant
                n <= all.len(),
                self.state().wf(),
                all@.no_duplicates(),
                all@.to_set() == self.jobs@.dom(),
                keys@.no_duplicates(),
                forall|key: u128| #[trigger]
                    keys@.contains(key) <==> all@.take(n as int).contains(key)
                        && self.state().is_stale(key, now, interval),
            decreases all.len() - n,
        {
            let key: u128 = all[n];
            proof {
                assert(all@.to_set().contains(key));
                assert(self.state().jobs.contains_key(key));
                assert(all@.take(n as int + 1) =~= all@.take(n as int).push(key));
                lemma_push(all@.take(n as int), key);
                lemma_push(keys@, key);
                assert(!all@.take(n as int).contains(key));
            }
            let cached_at: u64 = self.jobs.get(&key).unwrap().cached_at.unwrap();
            let elapsed: u64 = if now > cached_at {
                now - cached_at
            } else {
                0
            };
            if elapsed as u128 > interval as u128 * 1_000_000 {
                proof {
                    assert(!keys@.contains(key));
                }
                keys.push(key);
            }
            n += 1;
        }
        proof {
            assert(all@.take(all@.len() as int) =~= all@);
            assert forall|key: u128| self.state().is_stale(key, now, interval) implies #[trigger] all@.contains(
                key,
            ) by {
                assert(all@.to_set().contains(key));
            }
        }
        keys
    }

    /// Takes the jobs of the given keys out: those that were confirmed while they were outside
    /// the cache are done, the others are to be sent again.
    pub fn requeue(&mut self, keys: &Vec<u128>) -> (requeue: Requeue)
        requires
            old(self).state().wf(),
            keys@.no_duplicates(),
        ensures
            final(self).state().wf(),
            final(self).state().jobs == old(self).state().jobs.remove_keys(keys@.to_set()),
            final(self).state().lost == old(self).state().lost.difference(
                keys@.to_set().intersect(old(self).state().jobs.dom()),
            ),
            requeue.jobs@ == old(self).state().requeued(keys@),
            requeue.confirmed == old(self).state().jobs.dom().len()
                - final(self).state().jobs.dom().len() - requeue.jobs@.len(),
    {
        broadcast use vstd::std_specs::hash::group_hash_axioms;

        let ghost start = self.state();
        let before: usize = self.jobs.len();
        let mut jobs: Vec<Job> = Vec::new();
        let mut n: usize = 0;
        proof {
            assert(start.requeued(keys@.take(0)) =~= Seq::empty());
        }
        while n < keys.len()
            invariant
                n <= keys.len(),
                keys@.no_duplicates(),
                start == old(self).state(),
                start.wf(),
                self.state().wf(),
                self.state().jobs == start.jobs.remove_keys(keys@.take(n as int).to_set()),
                self.state().lost == start.lost.difference(
                    keys@.take(n as int).to_set().intersect(start.jobs.dom()),
                ),
                jobs@ == start.requeued(keys@.take(n as int)),
                jobs@.len() + self.state().jobs.dom().len() <= start.jobs.dom().len(),
            decreases keys.len() - n,
        {
            let key: u128 = keys[n];
            let ghost done = keys@.take(n as int);
            let ghost next = keys@.take(n as int + 1);
            let ghost earlier = self.state();
            proof {
                assert(next =~= done.push(key));
                lemma_push(done, key);
                assert(!done.contains(key));
                lemma_requeued_push(start, done, key);
                assert(earlier.jobs.contains_key(key) <==> start.jobs.contains_key(key));
                assert(earlier.lost.contains(key) <==> start.lost.contains(key));
            }
            if let Some(unconfirmed) = self.jobs.remove(&key) {
                if self.lost.contains(&key) {
                    // the job is not requeued because it was confirmed while outside the cache
                    self.lost.remove(&key);
                } else {
                    let mut unconfirmed = unconfirmed;
                    unconfirmed.cached_at = None;
                    jobs.push(unconfirmed);
                }
            }
            proof {
                assert(self.state().jobs =~= start.jobs.remove_keys(next.to_set()));
                assert(self.state().lost =~= start.lost.difference(
                    next.to_set().intersect(start.jobs.dom()),
                ));
            }
            n += 1;
        }
        proof {
            assert(keys@.take(keys@.len() as int) =~= keys@);
        }
        let confirmed: usize = before - self.jobs.len() - jobs.len();
        Requeue { jobs, confirmed }
    }
}

proof fn lemma_push(keys: Seq<u128>, key: u128)
    ensures
        forall|other: u128| #[trigger]
            keys.push(key).contains(other) <==> keys.contains(other) || other == key,
        forall|other: u128| #[trigger]
            twice(keys.push(key), other) <==> twice(keys, other) || keys.contains(other) && other
                == key,
{
    let longer = keys.push(key);
    assert forall|other: u128| #[trigger]
        longer.contains(other) <==> keys.contains(other) || other == key by {
        if keys.contains(other) {
            let i = choose|i: int| 0 <= i < keys.len() && keys[i] == other;
            assert(longer[i] == other);
        }
        if other == key {
            assert(longer[keys.len() as int] == other);
        }
    }
    assert forall|other: u128| #[trigger]
        twice(longer, other) <==> twice(keys, other) || keys.contains(other) && other == key by {
        if twice(keys, other) {
            let (i, j) = choose|i: int, j: int|
                0 <= i < j < keys.len() && #[trigger] keys[i] == other && #[trigger] keys[j]
                    == other;
            assert(longer[i] == other && longer[j] == other);
        }
        if keys.contains(other) && other == key {
            let i = choose|i: int| 0 <= i < keys.len() && keys[i] == other;
            assert(longer[i] == other && longer[keys.len() as int] == other);
        }
        if twice(longer, other) {
            let (i, j) = choose|i: int, j: int|
                0 <= i < j < longer.len() && #[trigger] longer[i] == other && #[trigger] longer[j]
                    == other;
            assert(keys[i] == other);
            if j < keys.len() {
                assert(keys[j] == other);
            }
        }
    }
}

proof fn lemma_push_ids(ids: Seq<u32>, id: u32)
    ensures
        forall|other: u32| #[trigger]
            ids.push(id).contains(other) <==> ids.contains(other) || other == id,
{
    let longer = ids.push(id);
    assert forall|other: u32| #[trigger]
        longer.contains(other) <==> ids.contains(other) || other == id by {
        if ids.contains(other) {
            let i = choose|i: int| 0 <= i < ids.len() && ids[i] == other;
            assert(longer[i] == other);
        }
        if other == id {
            assert(longer[ids.len() as int] == other);
        }
    }
}

proof fn lemma_requeued_push(state: CacheState, keys: Seq<u128>, key: u128)
    ensures
        state.requeued(keys.push(key)) == if state.is_unconfirmed(key) {
            state.requeued(keys).push(Job { cached_at: None, ..state.jobs[key] })
        } else {
            state.requeued(keys)
        },
{
    reveal(Seq::filter);
    assert(keys.push(key).drop_last() =~= keys);
    assert(state.requeued(keys.push(key)) =~= if state.is_unconfirmed(key) {
        state.requeued(keys).push(Job { cached_at: None, ..state.jobs[key] })
    } else {
        state.requeued(keys)
    });
}

/// A job that waits is not lost: it waits until it is confirmed or taken out; and one that is
/// taken out is either sent again or was confirmed, not both.
pub proof fn law_waiting(
    before: CacheState,
    indexes: Map<u32, ConfirmationIndexes>,
    after: CacheState,
    keys: Seq<u128>,
    key: u128,
)
    requires
        before.wf(),
        before.jobs.contains_key(key),
        confirms(before, indexes, after),
    ensures
        !named(indexes, key) ==> after.jobs.contains_key(key) && after.jobs[key]
            == before.jobs[key],
        !keys.contains(key) ==> before.jobs.remove_keys(keys.to_set()).contains_key(key),
        keys.contains(key) ==> (before.requeued(keys).contains(
            Job { cached_at: None, ..before.jobs[key] },
        ) <==> !before.lost.contains(key)),
{
    broadcast use vstd::seq_lib::group_filter_ensures;

    assert(after.jobs.contains_key(key) <==> !named(indexes, key));
    if keys.contains(key) {
        let unconfirmed = |other: u128| before.is_unconfirmed(other);
        let picked = keys.filter(unconfirmed);
        let job = Job { cached_at: None, ..before.jobs[key] };
        if !before.lost.contains(key) {
            let i = choose|i: int| 0 <= i < keys.len() && keys[i] == key;
            assert(unconfirmed(keys[i]));
            assert(picked.contains(key));
            let j = choose|j: int| 0 <= j < picked.len() && picked[j] == key;
            assert(before.requeued(keys)[j] == job);
        } else if before.requeued(keys).contains(job) {
            let j = choose|j: int|
                0 <= j < before.requeued(keys).len() && before.requeued(keys)[j] == job;
            let other = picked[j];
            assert(unconfirmed(other));
            assert(other == job_key(before.jobs[other].id, before.jobs[other].index));
        }
    }
}

/// A confirmation that arrives while its job has been queued again is not lost: when the job
/// comes back, it is not sent once more.
pub proof fn law_late_confirmation(
    before: CacheState,
    indexes: Map<u32, ConfirmationIndexes>,
    after: CacheState,
    job: Job,
    now: u64,
    keys: Seq<u128>,
)
    requires
        before.wf(),
        after.wf(),
        !before.jobs.contains_key(job_key(job.id, job.index)),
        named(indexes, job_key(job.id, job.index)),
        confirms(before, indexes, after),
    ensures
        after.lost.contains(job_key(job.id, job.index)),
        forall|i: int|
            0 <= i < after.with_job(job, now).requeued(keys).len() ==> {
                let sent = #[trigger] after.with_job(job, now).requeued(keys)[i];
                job_key(sent.id, sent.index) != job_key(job.id, job.index)
            },
{
    broadcast use vstd::seq_lib::group_filter_ensures;

    let state = after.with_job(job, now);
    let unconfirmed = |key: u128| state.is_unconfirmed(key);
    let picked = keys.filter(unconfirmed);
    assert forall|i: int| 0 <= i < state.requeued(keys).len() implies {
        let sent = #[trigger] state.requeued(keys)[i];
        job_key(sent.id, sent.index) != job_key(job.id, job.index)
    } by {
        assert(unconfirmed(picked[i]));
        assert(state.jobs.contains_key(picked[i]));
    }
}

/// The keys of the jobs that wait for too long are those of the jobs that were sent more than so
/// many milliseconds ago, of 1_000_000 nanoseconds each, and of no others.
pub proof fn law_stale_keys(
    cache: JobCache,
    now: u64,
    interval: u64,
    keys: Vec<u128>,
    id: u32,
    index: u64,
)
    requires
        cache.state().wf(),
        call_ensures(JobCache::stale_keys, (&cache, now, interval), keys),
    ensures
        ({
            let key = job_key(id, index);
            keys@.contains(key) <==> cache.state().jobs.contains_key(key)
                && cache.state().jobs[key].cached_at->0 + 1_000_000 * interval < now
        }),
{
}

/// A job that waits for too long does so from then on; and a millisecond more of the interval is
/// a million nanoseconds more of waiting.
pub proof fn law_stale_time(state: CacheState, key: u128, now: u64, interval: u64, later: u64)
    requires
        now <= later,
    ensures
        state.is_stale(key, now, interval) ==> state.is_stale(key, later, interval),
        interval < u64::MAX && now + 1_000_000 <= u64::MAX ==> (state.is_stale(
            key,
            (now + 1_000_000) as u64,
            (interval + 1) as u64,
        ) <==> state.is_stale(key, now, interval)),
        state.is_stale(key, now, 0) <==> state.jobs.contains_key(key)
            && state.jobs[key].cached_at->0 < now,
{
}

/// A datagram that was sent and not confirmed is the one to send again, once more than the
/// interval has passed since then, and not before.
pub proof fn law_sent_again(
    cache: &mut JobCache,
    job: Job,
    sent_at: u64,
    now: u64,
    interval: u64,
)
    requires
        call_ensures(JobCache::new, (), *cache),
        call_ensures(JobCache::insert, (cache, job, sent_at), ()),
    ensures
        forall|keys: Vec<u128>, key: u128| #[trigger]
            call_ensures(JobCache::stale_keys, (&*final(cache), now, interval), keys)
                && #[trigger] keys@.contains(key) ==> key == job_key(job.id, job.index) && now
                - sent_at > interval * 1_000_000,
        forall|keys: Vec<u128>| #[trigger]
            call_ensures(JobCache::stale_keys, (&*final(cache), now, interval), keys) && now
                - sent_at > interval * 1_000_000 ==> keys@.contains(job_key(job.id, job.index)),
{
}

/// A job that is kept waits from its time on, with the data that it has, and nothing else changes.
pub proof fn law_insert(cache: &mut JobCache, job: Job, now: u64, key: u128)
    requires
        cache.state().wf(),
        call_ensures(JobCache::insert, (cache, job, now), ()),
    ensures
        ({
            let before = old(cache).state();
            let after = final(cache).state();
            let own = job_key(job.id, job.index);
            &&& after.jobs.contains_key(own)
            &&& after.jobs[own].data == job.data
            &&& after.jobs[own].id == job.id
            &&& after.jobs[own].index == job.index
            &&& after.jobs[own].cached_at == Some(now)
            &&& key != own ==> (after.jobs.contains_key(key) <==> before.jobs.contains_key(key))
            &&& key != own && before.jobs.contains_key(key) ==> after.jobs[key] == before.jobs[key]
            &&& after.lost.contains(key) <==> before.lost.contains(key)
        }),
{
}

/// A chunk is among the confirmations exactly where its index is in the list of its file.
pub proof fn law_named(indexes: Map<u32, ConfirmationIndexes>, id: u32, index: u64)
    ensures
        named(indexes, job_key(id, index)) <==> indexes.contains_key(id)
            && indexes[id].inner@.contains(index),
        named_twice(indexes, job_key(id, index)) <==> indexes.contains_key(id) && exists|
            i: int,
            j: int,
        |
            0 <= i < j < indexes[id].inner@.len() && #[trigger] indexes[id].inner@[i] == index
                && #[trigger] indexes[id].inner@[j] == index,
{
    law_job_key(id, index, id, index);
    let key = job_key(id, index);
    let list = indexes[id].inner@;
    let keys = file_keys(id, list);
    assert forall|i: int| 0 <= i < list.len() implies (#[trigger] keys[i] == key <==> list[i]
        == index) by {
        law_job_key(id, list[i], id, index);
    }
    if list.contains(index) {
        let i = choose|i: int| 0 <= i < list.len() && list[i] == index;
        assert(keys[i] == key);
    }
    if keys.contains(key) {
        let i = choose|i: int| 0 <= i < keys.len() && keys[i] == key;
        assert(list[i] == index);
    }
    if exists|i: int, j: int|
        0 <= i < j < list.len() && #[trigger] list[i] == index && #[trigger] list[j] == index {
        let (i, j) = choose|i: int, j: int|
            0 <= i < j < list.len() && #[trigger] list[i] == index && #[trigger] list[j] == index;
        assert(keys[i] == key && keys[j] == key);
    }
    if twice(keys, key) {
        let (i, j) = choose|i: int, j: int|
            0 <= i < j < keys.len() && #[trigger] keys[i] == key && #[trigger] keys[j] == key;
        assert(list[i] == index && list[j] == index);
    }
}

/// After a confirmation, a chunk no longer waits, and every other one waits as before; a chunk
/// that was waiting and is named once is not kept as confirmed in vain, and one that was not
/// waiting is.
pub proof fn law_confirm(
    cache: &mut JobCache,
    indexes: HashMap<u32, ConfirmationIndexes>,
    confirmed: usize,
    id: u32,
    index: u64,
)
    requires
        cache.state().wf(),
        call_ensures(JobCache::confirm, (cache, &indexes), confirmed),
    ensures
        ({
            let before = old(cache).state();
            let after = final(cache).state();
            let key = job_key(id, index);
            let listed = indexes@.contains_key(id) && indexes@[id].inner@.contains(index);
            &&& listed ==> !after.jobs.contains_key(key)
            &&& !listed ==> (after.jobs.contains_key(key) <==> before.jobs.contains_key(key))
            &&& !listed && before.jobs.contains_key(key) ==> after.jobs[key] == before.jobs[key]
            &&& before.lost.contains(key) ==> after.lost.contains(key)
            &&& !listed ==> (after.lost.contains(key) <==> before.lost.contains(key))
            &&& listed && !before.jobs.contains_key(key) ==> after.lost.contains(key)
            &&& listed && before.jobs.contains_key(key) && !before.lost.contains(key)
                && indexes@[id].inner@.no_duplicates() ==> !after.lost.contains(key)
            &&& confirmed + after.jobs.dom().len() == before.jobs.dom().len()
        }),
{
    law_named(indexes@, id, index);
    let key = job_key(id, index);
    assert(final(cache).state().jobs.contains_key(key) <==> old(cache).state().jobs.contains_key(
        key,
    ) && !named(indexes@, key));
}

/// What is taken out of the cache is sent again as it was, unless it was confirmed meanwhile, and
/// nothing else is sent; what is not taken out stays.
pub proof fn law_requeue(
    cache: &mut JobCache,
    keys: Vec<u128>,
    requeue: Requeue,
    key: u128,
    i: int,
)
    requires
        cache.state().wf(),
        keys@.no_duplicates(),
        call_ensures(JobCache::requeue, (cache, &keys), requeue),
    ensures
        ({
            let before = old(cache).state();
            let after = final(cache).state();
            &&& after.jobs.contains_key(key) <==> before.jobs.contains_key(key) && !keys@.contains(
                key,
            )
            &&& after.jobs.contains_key(key) ==> after.jobs[key] == before.jobs[key]
            &&& after.lost.contains(key) <==> before.lost.contains(key) && !(keys@.contains(key)
                && before.jobs.contains_key(key))
            &&& before.jobs.contains_key(key) && keys@.contains(key) && !before.lost.contains(key)
                ==> exists|j: int|
                0 <= j < requeue.jobs@.len() && {
                    let job = #[trigger] requeue.jobs@[j];
                    &&& job.id == before.jobs[key].id
                    &&& job.index == before.jobs[key].index
                    &&& job.data == before.jobs[key].data
                    &&& job.cached_at is None
                }
            &&& 0 <= i < requeue.jobs@.len() ==> {
                let sent = requeue.jobs@[i];
                let own = job_key(sent.id, sent.index);
                &&& keys@.contains(own)
                &&& before.jobs.contains_key(own)
                &&& !before.lost.contains(own)
                &&& sent.data == before.jobs[own].data
                &&& sent.cached_at is None
            }
            &&& requeue.confirmed + requeue.jobs@.len() + after.jobs.dom().len()
                == before.jobs.dom().len()
        }),
{
    broadcast use vstd::seq_lib::group_filter_ensures;

    let before = old(cache).state();
    let unconfirmed = |other: u128| before.is_unconfirmed(other);
    let picked = keys@.filter(unconfirmed);
    let jobs = before.requeued(keys@);
    if before.jobs.contains_key(key) && keys@.contains(key) && !before.lost.contains(key) {
        let n = choose|n: int| 0 <= n < keys@.len() && keys@[n] == key;
        assert(unconfirmed(keys@[n]));
        assert(picked.contains(key));
        let j = choose|j: int| 0 <= j < picked.len() && picked[j] == key;
        assert(jobs[j] == (Job { cached_at: None, ..before.jobs[key] }));
        assert(requeue.jobs@[j] == jobs[j]);
    }
    if 0 <= i < requeue.jobs@.len() {
        assert(unconfirmed(picked[i]));
        assert(picked.contains(picked[i]));
        keys@.lemma_filter_contains_rev(unconfirmed, picked[i]);
    }
}

} // verus!
