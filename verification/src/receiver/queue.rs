//! The queues between the receivers and the writers.

use std::collections::HashMap;
use vstd::prelude::*;

verus! {

/// One queue per file: the end that takes the chunks, and the end that hands them to the
/// writer.
pub struct SplitQueue<S, R> {
    senders: HashMap<u32, S>,
    receivers: HashMap<u32, R>,
}

impl<S, R> SplitQueue<S, R> {
    pub closed spec fn senders(&self) -> Map<u32, S> {
        self.senders@
    }

    pub closed spec fn receivers(&self) -> Map<u32, R> {
        self.receivers@
    }

    /// Each file has both ends of a queue or none.
    pub open spec fn wf(&self) -> bool {
        self.senders().dom() == self.receivers().dom()
    }

    pub fn new() -> (queue: Self)
        ensures
            queue.wf(),
            queue.senders() == Map::<u32, S>::empty(),
            queue.receivers() == Map::<u32, R>::empty(),
    {
        broadcast use vstd::std_specs::hash::group_hash_axioms;

        SplitQueue { senders: HashMap::new(), receivers: HashMap::new() }
    }

    /// Keeps the two ends of the queue of a file.
    pub fn push_queue(&mut self, id: u32, sender: S, receiver: R)
        requires
            old(self).wf(),
        ensures
            final(self).wf(),
            final(self).senders() == old(self).senders().insert(id, sender),
            final(self).receivers() == old(self).receivers().insert(id, receiver),
    {
        broadcast use vstd::std_specs::hash::group_hash_axioms;

        self.receivers.insert(id, receiver);
        self.senders.insert(id, sender);
    }

    /// Removes the queue of a file.
    pub fn pop_queue(&mut self, id: u32)
        requires
            old(self).wf(),
        ensures
            final(self).wf(),
            final(self).senders() == old(self).senders().remove(id),
            final(self).receivers() == old(self).receivers().remove(id),
    {
        broadcast use vstd::std_specs::hash::group_hash_axioms;

        self.receivers.remove(&id);
        self.senders.remove(&id);
        proof {
            assert(self.receivers@ =~= old(self).receivers@.remove(id));
            assert(self.senders@ =~= old(self).senders@.remove(id));
        }
    }

    /// The end that hands out the chunks of a file.
    pub fn get_receiver(&self, id: u32) -> (receiver: Option<&R>)
        ensures
            match receiver {
                Some(receiver) => self.receivers().contains_key(id) && *receiver
                    == self.receivers()[id],
                None => !self.receivers().contains_key(id),
            },
    {
        broadcast use vstd::std_specs::hash::group_hash_axioms;

        self.receivers.get(&id)
    }

    /// The end that takes the chunks of a file; a chunk of a file without a queue goes
    /// nowhere.
    pub fn get_sender(&self, id: u32) -> (sender: Option<&S>)
        ensures
            match sender {
                Some(sender) => self.senders().contains_key(id) && *sender == self.senders()[id],
                None => !self.senders().contains_key(id),
            },
    {
        broadcast use vstd::std_specs::hash::group_hash_axioms;

        self.senders.get(&id)
    }
}

/// After a queue was kept, both of its ends are found under its file, and those of the other files
/// are as before.
pub proof fn law_push_queue<S, R>(
    queue: &mut SplitQueue<S, R>,
    id: u32,
    sender: S,
    receiver: R,
    other: u32,
)
    requires
        queue.wf(),
        call_ensures(SplitQueue::<S, R>::push_queue, (queue, id, sender, receiver), ()),
    ensures
        forall|found: Option<&S>| #[trigger]
            call_ensures(SplitQueue::<S, R>::get_sender, (&*final(queue), id), found) ==> found
                == Some(&sender),
        forall|found: Option<&R>| #[trigger]
            call_ensures(SplitQueue::<S, R>::get_receiver, (&*final(queue), id), found) ==> found
                == Some(&receiver),
        other != id ==> {
            &&& final(queue).senders().contains_key(other) <==> old(queue).senders().contains_key(
                other,
            )
            &&& old(queue).senders().contains_key(other) ==> final(queue).senders()[other] == old(
                queue,
            ).senders()[other]
            &&& final(queue).receivers().contains_key(other) <==> old(
                queue,
            ).receivers().contains_key(other)
            &&& old(queue).receivers().contains_key(other) ==> final(queue).receivers()[other]
                == old(queue).receivers()[other]
        },
{
}

/// After a queue was removed, neither of its ends is found, and those of the other files are as
/// before.
pub proof fn law_pop_queue<S, R>(queue: &mut SplitQueue<S, R>, id: u32, other: u32)
    requires
        queue.wf(),
        call_ensures(SplitQueue::<S, R>::pop_queue, (queue, id), ()),
    ensures
        forall|found: Option<&S>| #[trigger]
            call_ensures(SplitQueue::<S, R>::get_sender, (&*final(queue), id), found)
                ==> found is None,
        forall|found: Option<&R>| #[trigger]
            call_ensures(SplitQueue::<S, R>::get_receiver, (&*final(queue), id), found)
                ==> found is None,
        other != id ==> {
            &&& final(queue).senders().contains_key(other) <==> old(queue).senders().contains_key(
                other,
            )
            &&& old(queue).senders().contains_key(other) ==> final(queue).senders()[other] == old(
                queue,
            ).senders()[other]
            &&& final(queue).receivers().contains_key(other) <==> old(
                queue,
            ).receivers().contains_key(other)
            &&& old(queue).receivers().contains_key(other) ==> final(queue).receivers()[other]
                == old(queue).receivers()[other]
        },
{
}

} // verus!
