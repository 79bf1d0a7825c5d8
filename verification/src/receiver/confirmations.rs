//! Gathers confirmations on their way to the sender, and chunks on their way from it.

use crate::bytes::be_value;
use crate::items::{Body, ConfirmationIndexes, Message};
use crate::packet::{datagram, law_datagram, split_datagram, Job, DATAGRAM_SIZE};
use crate::retry::Retries;
use crate::sender::confirmations::{file_keys, job_key, law_job_key, law_named, named};
use std::collections::HashMap;
use vstd::prelude::*;

verus! {

/// Tells the confirmations that are about a file.
pub open spec fn is_about(id: u32) -> spec_fn((u32, u64)) -> bool {
    |confirmation: (u32, u64)| confirmation.0 == id
}

/// The indexes that are confirmed of a file, in their order.
pub open spec fn indexes_of(confirmations: Seq<(u32, u64)>, id: u32) -> Seq<u64> {
    confirmations.filter(is_about(id)).map_values(|confirmation: (u32, u64)| confirmation.1)
}

/// Whether a map holds confirmations by file.
pub open spec fn grouped(
    confirmations: Seq<(u32, u64)>,
    indexes: Map<u32, ConfirmationIndexes>,
) -> bool {
    &&& forall|id: u32| #[trigger]
        indexes.contains_key(id) <==> indexes_of(confirmations, id).len() > 0
    &&& forall|id: u32| #[trigger]
        indexes.contains_key(id) ==> indexes[id].inner@ == indexes_of(confirmations, id)
}

proof fn lemma_indexes_push(confirmations: Seq<(u32, u64)>, confirmation: (u32, u64))
    ensures
        forall|id: u32| #[trigger]
            indexes_of(confirmations.push(confirmation), id) == if id == confirmation.0 {
                indexes_of(confirmations, id).push(confirmation.1)
            } else {
                indexes_of(confirmations, id)
            },
{
    reveal(Seq::filter);
    let longer = confirmations.push(confirmation);
    assert(longer.drop_last() =~= confirmations);
    assert forall|id: u32| #[trigger] indexes_of(longer, id) == if id == confirmation.0 {
        indexes_of(confirmations, id).push(confirmation.1)
    } else {
        indexes_of(confirmations, id)
    } by {
        assert(indexes_of(longer, id) =~= if id == confirmation.0 {
            indexes_of(confirmations, id).push(confirmation.1)
        } else {
            indexes_of(confirmations, id)
        });
    }
}

/// group the confirmations by id
pub fn group_confirmations(confirmations: &Vec<(u32, u64)>) -> (indexes: HashMap<
    u32,
    ConfirmationIndexes,
>)
    ensures
        grouped(confirmations@, indexes@),
{
    broadcast use vstd::std_specs::hash::group_hash_axioms;

    let mut map: HashMap<u32, ConfirmationIndexes> = HashMap::new();
    let mut i: usize = 0;
    proof {
        reveal(Seq::filter);
        assert(confirmations@.take(0) =~= Seq::empty());
    }
    while i < confirmations.len()
        invariant
            i <= confirmations@.len(),
            grouped(confirmations@.take(i as int), map@),
        decreases confirmations.len() - i,
    {
        let (id, index): (u32, u64) = confirmations[i];
        let ghost before = map@;
        proof {
            let taken = confirmations@.take(i as int);
            assert(confirmations@.take(i as int + 1) =~= taken.push((id, index)));
            lemma_indexes_push(taken, (id, index));
            assert(before.contains_key(id) <==> indexes_of(taken, id).len() > 0);
        }
        let mut entry = match map.remove(&id) {
            Some(entry) => entry,
            None => ConfirmationIndexes { inner: Vec::new() },
        };
        proof {
            assert(entry.inner@ =~= indexes_of(confirmations@.take(i as int), id));
        }
        entry.inner.push(index);
        map.insert(id, entry);
        i += 1;
    }
    proof {
        assert(confirmations@.take(confirmations@.len() as int) =~= confirmations@);
    }
    map
}

/// What the receiver confirms is what the sender finds confirmed: exactly the chunks that are
/// in the list are named by the message.
pub proof fn law_confirmations(
    confirmations: Seq<(u32, u64)>,
    indexes: Map<u32, ConfirmationIndexes>,
    id: u32,
    index: u64,
)
    requires
        grouped(confirmations, indexes),
    ensures
        named(indexes, job_key(id, index)) <==> confirmations.contains((id, index)),
{
    broadcast use vstd::seq_lib::group_filter_ensures;

    let key = job_key(id, index);
    law_job_key(id, index, id, index);
    let of_file = is_about(id);
    let picked = confirmations.filter(of_file);
    let list = indexes_of(confirmations, id);
    if confirmations.contains((id, index)) {
        let i = choose|i: int| 0 <= i < confirmations.len() && confirmations[i] == (id, index);
        assert(of_file(confirmations[i]));
        assert(picked.contains((id, index)));
        let j = choose|j: int| 0 <= j < picked.len() && picked[j] == (id, index);
        assert(list[j] == index);
        assert(indexes.contains_key(id));
        assert(file_keys(id, indexes[id].inner@)[j] == key);
    }
    if named(indexes, key) {
        let keys = file_keys(id, indexes[id].inner@);
        let j = choose|j: int| 0 <= j < keys.len() && keys[j] == key;
        law_job_key(id, list[j], id, index);
        assert(list[j] == index);
        assert(picked[j].1 == index);
        assert(of_file(picked[j]));
        assert(picked.contains(picked[j]));
        confirmations.lemma_filter_contains_rev(of_file, picked[j]);
        assert(picked[j] == (id, index));
    }
}

/// How often a chunk is among the confirmations of a message.
pub open spec fn times(indexes: Map<u32, ConfirmationIndexes>, confirmation: (u32, u64)) -> nat {
    if indexes.contains_key(confirmation.0) {
        indexes[confirmation.0].inner@.to_multiset().count(confirmation.1)
    } else {
        0
    }
}

proof fn lemma_times(confirmations: Seq<(u32, u64)>, confirmation: (u32, u64))
    ensures
        indexes_of(confirmations, confirmation.0).to_multiset().count(confirmation.1)
            == confirmations.to_multiset().count(confirmation),
    decreases confirmations.len(),
{
    broadcast use vstd::seq_lib::group_to_multiset_ensures;

    if confirmations.len() == 0 {
        reveal(Seq::filter);
        assert(indexes_of(confirmations, confirmation.0).len() == 0);
    } else {
        let earlier = confirmations.drop_last();
        let last = confirmations.last();
        lemma_times(earlier, confirmation);
        lemma_indexes_push(earlier, last);
        assert(confirmations =~= earlier.push(last));
    }
}

/// A message holds each chunk as often as the list of confirmations that it was made of, and no
/// file without a chunk; one that was made of something is not empty.
pub proof fn law_grouped(
    confirmations: Seq<(u32, u64)>,
    indexes: Map<u32, ConfirmationIndexes>,
    confirmation: (u32, u64),
)
    requires
        grouped(confirmations, indexes),
    ensures
        times(indexes, confirmation) == confirmations.to_multiset().count(confirmation),
        indexes.contains_key(confirmation.0) ==> indexes[confirmation.0].inner@.len() > 0,
        confirmations.len() > 0 ==> indexes.contains_key(confirmations[0].0),
{
    broadcast use vstd::seq_lib::group_to_multiset_ensures;

    let id = confirmation.0;
    lemma_times(confirmations, confirmation);
    assert(indexes.contains_key(id) <==> indexes_of(confirmations, id).len() > 0);
    if !indexes.contains_key(id) {
        let list = indexes_of(confirmations, id);
        assert(list =~= Seq::empty());
    }
    if confirmations.len() > 0 {
        let first = confirmations[0];
        lemma_times(confirmations, first);
        assert(confirmations.contains(first));
        let list = indexes_of(confirmations, first.0);
        assert(list.to_multiset().count(first.1) > 0);
        assert(list.contains(first.1));
        assert(indexes.contains_key(first.0) <==> list.len() > 0);
    }
}

/// The confirmations that have not been sent, and how many packets were counted as confirmed.
#[verifier::ext_equal]
pub struct BatchState {
    pub pending: Seq<(u32, u64)>,
    pub confirmed: int,
}

impl BatchState {
    /// The state after another confirmation was received: the counter starts again at zero
    /// behind its largest value.
    pub open spec fn with(self, confirmation: (u32, u64)) -> BatchState {
        BatchState {
            pending: self.pending.push(confirmation),
            confirmed: (self.confirmed + 1) % (usize::MAX + 1),
        }
    }

    /// The state after what was pending has been sent.
    pub open spec fn emptied(self) -> BatchState {
        BatchState { pending: Seq::empty(), ..self }
    }
}

/// Gathers the confirmations of the writers until it is time to send them.
#[derive(Debug)]
pub struct Batch {
    pending: Vec<(u32, u64)>,
    confirmed: usize,
}

impl Batch {
    pub closed spec fn state(&self) -> BatchState {
        BatchState { pending: self.pending@, confirmed: self.confirmed as int }
    }

    pub fn new() -> (batch: Self)
        ensures
            batch.state() == (BatchState { pending: Seq::empty(), confirmed: 0 }),
    {
        Batch { pending: Vec::new(), confirmed: 0 }
    }

    /// Takes the confirmation of a chunk, and counts it.
    pub fn push(&mut self, id: u32, index: u64)
        ensures
            final(self).state() == old(self).state().with((id, index)),
    {
        self.confirmed = self.confirmed.wrapping_add(1);
        self.pending.push((id, index));
        proof {
            let before = old(self).confirmed as int;
            if before == usize::MAX {
                vstd::arithmetic::div_mod::lemma_mod_self_0(usize::MAX + 1);
            } else {
                vstd::arithmetic::div_mod::lemma_small_mod(
                    (before + 1) as nat,
                    (usize::MAX + 1) as nat,
                );
            }
        }
    }

    /// How many packets were counted as confirmed.
    pub fn confirmed(&self) -> (confirmed: usize)
        ensures
            confirmed == self.state().confirmed,
    {
        self.confirmed
    }

    /// The message with all confirmations that are pending, which then are so no longer; `None`
    /// where there are none.
    pub fn take(&mut self) -> (message: Option<Message>)
        ensures
            match message {
                None => {
                    &&& old(self).state().pending.len() == 0
                    &&& final(self).state() == old(self).state()
                },
                Some(message) => {
                    &&& old(self).state().pending.len() > 0
                    &&& final(self).state() == old(self).state().emptied()
                    &&& message.message matches Some(Body::Confirmations { indexes }) && grouped(
                        old(self).state().pending,
                        indexes@,
                    )
                },
            },
    {
        if self.pending.len() == 0 {
            return None;
        }
        let indexes = group_confirmations(&self.pending);
        self.pending = Vec::new();
        Some(Message::confirmations(indexes))
    }
}

/// What happens to a batch.
pub enum BatchEvent {
    /// a confirmation is received
    Receive((u32, u64)),
    /// it is time to send, and these are sent, if any are pending
    Tick(Option<Map<u32, ConfirmationIndexes>>),
}

/// Whether an event leads from one state to another.
pub open spec fn batch_leads(before: BatchState, event: BatchEvent, after: BatchState) -> bool {
    match event {
        BatchEvent::Receive(confirmation) => after == before.with(confirmation),
        BatchEvent::Tick(None) => before.pending.len() == 0 && after == before,
        BatchEvent::Tick(Some(indexes)) => {
            &&& before.pending.len() > 0
            &&& grouped(before.pending, indexes)
            &&& after == before.emptied()
        },
    }
}

/// Whether the events lead from the first state through the others to the last one.
pub open spec fn batch_runs(states: Seq<BatchState>, events: Seq<BatchEvent>) -> bool {
    &&& states.len() == events.len() + 1
    &&& forall|i: int|
        0 <= i < events.len() ==> batch_leads(states[i], #[trigger] events[i], states[i + 1])
}

/// How often a confirmation was received.
pub open spec fn times_received(events: Seq<BatchEvent>, confirmation: (u32, u64)) -> nat
    decreases events.len(),
{
    if events.len() == 0 {
        0
    } else {
        times_received(events.drop_last(), confirmation) + match events.last() {
            BatchEvent::Receive(received) => if received == confirmation {
                1nat
            } else {
                0
            },
            BatchEvent::Tick(_) => 0,
        }
    }
}

/// How many confirmations were received.
pub open spec fn all_received(events: Seq<BatchEvent>) -> nat
    decreases events.len(),
{
    if events.len() == 0 {
        0
    } else {
        all_received(events.drop_last()) + if events.last() is Receive {
            1nat
        } else {
            0
        }
    }
}

/// How often a confirmation was sent, in all messages together.
pub open spec fn times_sent(events: Seq<BatchEvent>, confirmation: (u32, u64)) -> nat
    decreases events.len(),
{
    if events.len() == 0 {
        0
    } else {
        times_sent(events.drop_last(), confirmation) + match events.last() {
            BatchEvent::Tick(Some(indexes)) => times(indexes, confirmation),
            _ => 0,
        }
    }
}

/// Over all messages, each confirmation is sent as often as it was received, but for what is
/// pending: nothing is invented, nothing is sent twice, and whenever it is time to send, all that
/// was received until then has been sent. The counter grows by one with each that is received.
pub proof fn law_batches(
    states: Seq<BatchState>,
    events: Seq<BatchEvent>,
    confirmation: (u32, u64),
)
    requires
        batch_runs(states, events),
        states[0].pending.len() == 0,
        0 <= states[0].confirmed <= usize::MAX,
    ensures
        times_received(events, confirmation) == times_sent(events, confirmation)
            + states.last().pending.to_multiset().count(confirmation),
        events.len() > 0 && events.last() is Tick ==> times_received(events, confirmation)
            == times_sent(events, confirmation),
        states.last().confirmed == (states[0].confirmed + all_received(events)) % (usize::MAX + 1),
    decreases events.len(),
{
    broadcast use vstd::seq_lib::group_to_multiset_ensures;

    let size = usize::MAX + 1;
    if events.len() == 0 {
        assert(states.last().pending =~= Seq::empty());
        vstd::arithmetic::div_mod::lemma_small_mod(states[0].confirmed as nat, size as nat);
    } else {
        let earlier = events.drop_last();
        assert forall|i: int| 0 <= i < earlier.len() implies batch_leads(
            states.drop_last()[i],
            #[trigger] earlier[i],
            states.drop_last()[i + 1],
        ) by {
            assert(earlier[i] == events[i]);
        }
        law_batches(states.drop_last(), earlier, confirmation);
        let before = states[states.len() - 2];
        let after = states.last();
        let last = events[events.len() - 1];
        assert(batch_leads(before, last, after));
        match last {
            BatchEvent::Receive(received) => {
                let count = states[0].confirmed + all_received(earlier);
                vstd::arithmetic::div_mod::lemma_add_mod_noop(count, 1, size);
                vstd::arithmetic::div_mod::lemma_add_mod_noop(before.confirmed, 1, size);
                vstd::arithmetic::div_mod::lemma_mod_twice(count, size);
            },
            BatchEvent::Tick(None) => {
                assert(before.pending =~= Seq::empty());
            },
            BatchEvent::Tick(Some(indexes)) => {
                law_grouped(before.pending, indexes, confirmation);
            },
        }
    }
}

/// What came of waiting for a datagram.
#[derive(Clone, Copy, Debug, PartialEq, Eq, Structural)]
pub enum Reception {
    /// so many bytes were read
    Read(usize),
    /// the socket reported an error, or nothing came in time
    Failed,
}

/// Takes what came of waiting for a datagram: the file and the chunk that it carries, if one
/// came.
pub fn after_receive(buf: &Vec<u8>, reception: Reception, retries: &mut Retries) -> (job: Option<
    (u32, Job),
>)
    requires
        buf@.len() == DATAGRAM_SIZE,
        old(retries).wf(),
        old(retries).spec_retries() < old(retries).spec_max(),
    ensures
        final(retries).wf(),
        final(retries).spec_max() == old(retries).spec_max(),
        match reception {
            Reception::Read(read) => if read > 0 {
                &&& final(retries).spec_retries() == 0
                &&& job matches Some((id, job)) && {
                    &&& id == be_value(buf@.subrange(0, 4))
                    &&& job.index == be_value(buf@.subrange(4, 12))
                    &&& job.data@ == buf@.subrange(12, 1036)
                }
            } else {
                &&& final(retries).spec_retries() == old(retries).spec_retries()
                &&& job is None
            },
            Reception::Failed => {
                &&& final(retries).spec_retries() == old(retries).spec_retries() + 1
                &&& job is None
            },
        },
{
    match reception {
        Reception::Read(read) => if read > 0 {
            // reset retries
            retries.record(false);
            Some(split_datagram(buf))
        } else {
            // this should never happen
            None
        },
        Reception::Failed => {
            retries.record(true);
            None
        },
    }
}

/// A datagram that came is taken as what the sender put into it, and makes up for the failures
/// before it; one that did not come is one failure more.
pub proof fn law_after_receive(
    id: u32,
    index: u64,
    data: Seq<u8>,
    buf: Vec<u8>,
    reception: Reception,
    retries: &mut Retries,
    job: Option<(u32, Job)>,
)
    requires
        data.len() == 1024,
        buf@ == datagram(id, index, data),
        retries.wf(),
        retries.spec_retries() < retries.spec_max(),
        call_ensures(after_receive, (&buf, reception, retries), job),
    ensures
        final(retries).spec_max() == old(retries).spec_max(),
        reception matches Reception::Read(read) ==> {
            &&& job is Some <==> read > 0
            &&& read > 0 ==> final(retries).spec_retries() == 0
            &&& read == 0 ==> final(retries).spec_retries() == old(retries).spec_retries()
        },
        reception == Reception::Failed ==> job is None && final(retries).spec_retries()
            == old(retries).spec_retries() + 1,
        job matches Some((found, job)) ==> found == id && job.index == index && job.data@ == data,
{
    law_datagram(id, index, data);
}

/// A batch gives out all that it was given since it last did, once, and then has nothing.
pub proof fn law_take(batch: &mut Batch, message: Option<Message>, confirmation: (u32, u64))
    requires
        call_ensures(Batch::take, (batch,), message),
    ensures
        message is None <==> old(batch).state().pending.len() == 0,
        final(batch).state().pending.len() == 0,
        final(batch).state().confirmed == old(batch).state().confirmed,
        message matches Some(message) ==> {
            &&& message.message matches Some(Body::Confirmations { indexes }) && times(
                indexes@,
                confirmation,
            ) == old(batch).state().pending.to_multiset().count(confirmation)
        },
{
    if let Some(sent) = message {
        if let Some(Body::Confirmations { indexes }) = sent.message {
            law_grouped(old(batch).state().pending, indexes@, confirmation);
        }
    }
}

/// A batch keeps what it is given behind what it has.
pub proof fn law_push(batch: &mut Batch, id: u32, index: u64, new: Batch)
    requires
        call_ensures(Batch::push, (batch, id, index), ()),
        call_ensures(Batch::new, (), new),
        0 <= batch.state().confirmed < usize::MAX,
    ensures
        final(batch).state().pending == old(batch).state().pending.push((id, index)),
        final(batch).state().confirmed == old(batch).state().confirmed + 1,
        new.state().pending.len() == 0,
        new.state().confirmed == 0,
{
    vstd::arithmetic::div_mod::lemma_small_mod(
        (old(batch).state().confirmed + 1) as nat,
        (usize::MAX + 1) as nat,
    );
}

/// Grouping keeps every confirmation, as often as it is there, under its own file, in its order, and
/// adds none.
pub proof fn law_group_confirmations(
    confirmations: Vec<(u32, u64)>,
    indexes: HashMap<u32, ConfirmationIndexes>,
    id: u32,
    index: u64,
)
    requires
        call_ensures(group_confirmations, (&confirmations,), indexes),
    ensures
        indexes@.contains_key(id) && indexes@[id].inner@.contains(index)
            <==> confirmations@.contains((id, index)),
        times(indexes@, (id, index)) == confirmations@.to_multiset().count((id, index)),
        indexes@.contains_key(id) ==> indexes@[id].inner@.len() > 0,
{
    law_grouped(confirmations@, indexes@, (id, index));
    law_confirmations(confirmations@, indexes@, id, index);
    law_named(indexes@, id, index);
}

/// The confirmations of a file keep their order: what is received later stands behind.
pub proof fn law_indexes(first: Seq<(u32, u64)>, second: Seq<(u32, u64)>, id: u32, index: u64)
    ensures
        indexes_of(first + second, id) == indexes_of(first, id) + indexes_of(second, id),
        indexes_of(seq![(id, index)], id) == seq![index],
        forall|other: u32|
            other != id ==> #[trigger] indexes_of(seq![(id, index)], other) == Seq::<u64>::empty(),
    decreases second.len(),
{
    reveal(Seq::filter);
    let none = Seq::<(u32, u64)>::empty();
    lemma_indexes_push(none, (id, index));
    assert(none.push((id, index)) =~= seq![(id, index)]);
    assert forall|other: u32| #[trigger] indexes_of(none, other) == Seq::<u64>::empty() by {
        assert(indexes_of(none, other) =~= Seq::<u64>::empty());
    }
    assert(Seq::<u64>::empty().push(index) =~= seq![index]);
    if second.len() == 0 {
        assert(first + second =~= first);
        assert(indexes_of(second, id) =~= Seq::<u64>::empty());
        assert(indexes_of(first, id) + indexes_of(second, id) =~= indexes_of(first, id));
    } else {
        let earlier = second.drop_last();
        law_indexes(first, earlier, id, index);
        lemma_indexes_push(first + earlier, second.last());
        lemma_indexes_push(earlier, second.last());
        assert((first + earlier).push(second.last()) =~= first + second);
        assert(earlier.push(second.last()) =~= second);
        assert(indexes_of(first + second, id) =~= indexes_of(first, id) + indexes_of(second, id));
    }
}

} // verus!
