//! Decides which file is sent next, and what the messages of the receiver lead to.

use crate::cipher::{crypto_ready, stream_key, unknown_cipher_text};
use crate::error::{Error, ErrorKind};
use crate::items::{cipher_of_number, Body, Cipher, FileDetail, Message, StartIndex};
use crate::packet::TRANSFER_BUFFER_SIZE;
use crate::sender::reader::Reader;
use std::collections::HashMap;
use vstd::prelude::*;

verus! {

/// Where the sending of the files stands.
pub struct ControllerState {
    /// no file below this id waits
    pub id: int,
    /// the files that wait
    pub files: Map<u32, FileDetail>,
    /// the files that are on their way
    pub active: Map<u32, FileDetail>,
    /// how many files may be on their way at a time
    pub max: int,
}

impl ControllerState {
    /// The files that wait have ids from `id` on, those on their way have ids below it, and
    /// there are not too many of these.
    pub open spec fn wf(self) -> bool {
        &&& 0 <= self.id <= u32::MAX
        &&& self.files.dom().finite()
        &&& self.active.dom().finite()
        &&& self.active.dom().len() <= self.max
        &&& forall|id: u32| #[trigger]
            self.files.contains_key(id) ==> self.id <= id < u32::MAX
        &&& forall|id: u32| #[trigger] self.active.contains_key(id) ==> id < self.id
    }

    /// Whether another file can be started.
    pub open spec fn can_start(self) -> bool {
        self.active.dom().len() < self.max && self.files.dom() != Set::<u32>::empty()
    }

    /// Whether `id` is the lowest id that waits.
    pub open spec fn is_next(self, id: u32) -> bool {
        &&& self.files.contains_key(id)
        &&& forall|other: u32| #[trigger] self.files.contains_key(other) ==> id <= other
    }

    /// The state once the file `id` was started.
    pub open spec fn started(self, id: u32) -> ControllerState {
        ControllerState {
            id: id + 1,
            files: self.files.remove(id),
            active: self.active.insert(id, self.files[id]),
            max: self.max,
        }
    }

    /// Whether nothing waits and nothing is on its way.
    pub open spec fn finished(self) -> bool {
        self.files.dom() == Set::<u32>::empty() && self.active.dom() == Set::<u32>::empty()
    }

    /// Whether the file `id` is still to be sent or on its way.
    pub open spec fn pending(self, id: u32) -> bool {
        self.files.contains_key(id) || self.active.contains_key(id)
    }
}

/// What a message leads to.
#[derive(Debug)]
pub enum ControllerAction {
    /// a file has arrived
    Ended(u32),
    /// the message is about a file that is not on its way
    Unknown(u32),
    /// the file failed signature verification: count its size in again and send it again
    Retry { id: u32, size: u64 },
    /// the writer of the file failed: it is given up
    GivenUp(u32),
    /// a failure of a kind that is not known
    Ignored,
}

/// What a message leads to, and the state after it; `None` for a message that is not expected.
pub open spec fn control(state: ControllerState, message: Option<Body>) -> Option<
    (ControllerState, ControllerAction),
> {
    match message {
        Some(Body::End { id }) => if state.active.contains_key(id) {
            Some(
                (
                    ControllerState { active: state.active.remove(id), ..state },
                    ControllerAction::Ended(id),
                ),
            )
        } else {
            Some((state, ControllerAction::Unknown(id)))
        },
        Some(Body::Failure { id, reason, description }) => if reason != 0 && reason != 2 {
            Some((state, ControllerAction::Ignored))
        } else if !state.active.contains_key(id) {
            Some((state, ControllerAction::Unknown(id)))
        } else if reason == 0 {
            Some((state, ControllerAction::Retry { id, size: state.active[id].size }))
        } else {
            Some(
                (
                    ControllerState { active: state.active.remove(id), ..state },
                    ControllerAction::GivenUp(id),
                ),
            )
        },
        _ => None,
    }
}

/// Keeps the files of a transfer moving.
#[derive(Debug)]
pub struct Controller {
    id: u32,
    files: HashMap<u32, FileDetail>,
    active: HashMap<u32, FileDetail>,
    max: usize,
}

impl Controller {
    pub closed spec fn state(&self) -> ControllerState {
        ControllerState {
            id: self.id as int,
            files: self.files@,
            active: self.active@,
            max: self.max as int,
        }
    }

    /// At most `max` of the files will be on their way at a time.
    pub fn new(files: HashMap<u32, FileDetail>, max: usize) -> (controller: Self)
        requires
            forall|id: u32| #[trigger] files@.contains_key(id) ==> id < u32::MAX,
        ensures
            controller.state() == (ControllerState {
                id: 0,
                files: files@,
                active: Map::empty(),
                max: max as int,
            }),
            controller.state().wf(),
    {
        broadcast use vstd::std_specs::hash::group_hash_axioms;

        let controller = Controller { id: 0, files, active: HashMap::new(), max };
        controller
    }

    /// The id of the file to start now; `None` where as many as allowed are on their way, or
    /// where none waits.
    pub fn next_start(&mut self) -> (started: Option<u32>)
        requires
            old(self).state().wf(),
        ensures
            final(self).state().wf(),
            match started {
                None => !old(self).state().can_start() && final(self).state() == old(self).state(),
                Some(id) => {
                    &&& old(self).state().can_start()
                    &&& old(self).state().is_next(id)
                    &&& final(self).state() == old(self).state().started(id)
                },
            },
    {
        broadcast use vstd::std_specs::hash::group_hash_axioms;

        if self.active.len() >= self.max || self.files.is_empty() {
            proof {
                assert(self.files@.is_empty() <==> self.files@.dom() =~= Set::<u32>::empty());
            }
            return None;
        }
        proof {
            assert(self.files@.is_empty() <==> self.files@.dom() =~= Set::<u32>::empty());
        }
        loop
            invariant
                self.files@ == old(self).files@,
                self.active == old(self).active,
                self.max == old(self).max,
                self.state().wf(),
                self.files@.dom() != Set::<u32>::empty(),
                old(self).state().can_start(),
            decreases u32::MAX - self.id,
        {
            let id: u32 = self.id;
            let ghost before = self.files@;
            match self.files.remove(&id) {
                None => {
                    proof {
                        assert(self.files@ =~= before);
                        assert(exists|other: u32| before.contains_key(other)) by {
                            if forall|other: u32| !before.contains_key(other) {
                                assert(before.dom() =~= Set::<u32>::empty());
                            }
                        }
                    }
                    self.id = id + 1;
                },
                Some(details) => {
                    self.active.insert(id, details);
                    self.id = id + 1;
                    return Some(id);
                },
            }
        }
    }

    /// The file of the given id, while it is on its way.
    pub fn details(&self, id: u32) -> (details: Option<&FileDetail>)
        ensures
            match details {
                Some(details) => self.state().active.contains_key(id) && *details
                    == self.state().active[id],
                None => !self.state().active.contains_key(id),
            },
    {
        broadcast use vstd::std_specs::hash::group_hash_axioms;

        self.active.get(&id)
    }

    /// What a message of the receiver leads to.
    pub fn receive(&mut self, message: Message) -> (result: Result<ControllerAction, Error>)
        requires
            old(self).state().wf(),
        ensures
            final(self).state().wf(),
            match result {
                Ok(action) => control(old(self).state(), message.message) == Some(
                    (final(self).state(), action),
                ),
                Err(error) => {
                    &&& control(old(self).state(), message.message) is None
                    &&& error.kind == ErrorKind::UnexpectedMessage(Box::new(message))
                    &&& final(self).state() == old(self).state()
                },
            },
    {
        broadcast use vstd::std_specs::hash::group_hash_axioms;

        match &message.message {
            Some(Body::End { id }) => {
                let id: u32 = *id;
                if self.active.remove(&id).is_none() {
                    proof {
                        assert(self.active@ =~= old(self).active@);
                    }
                    Ok(ControllerAction::Unknown(id))
                } else {
                    Ok(ControllerAction::Ended(id))
                }
            },
            Some(Body::Failure { id, reason, description }) => {
                let id: u32 = *id;
                if *reason == 0 {
                    match self.active.get(&id) {
                        Some(details) => Ok(ControllerAction::Retry { id, size: details.size }),
                        None => Ok(ControllerAction::Unknown(id)),
                    }
                } else if *reason == 2 {
                    if self.active.remove(&id).is_some() {
                        Ok(ControllerAction::GivenUp(id))
                    } else {
                        proof {
                            assert(self.active@ =~= old(self).active@);
                        }
                        Ok(ControllerAction::Unknown(id))
                    }
                } else {
                    Ok(ControllerAction::Ignored)
                }
            },
            _ => Err(Error::unexpected_message(message)),
        }
    }

    /// Whether all files have been dealt with.
    pub fn is_finished(&self) -> (finished: bool)
        ensures
            finished == self.state().finished(),
    {
        broadcast use vstd::std_specs::hash::group_hash_axioms;

        proof {
            assert(self.files@.is_empty() <==> self.files@.dom() =~= Set::<u32>::empty());
            assert(self.active@.is_empty() <==> self.active@.dom() =~= Set::<u32>::empty());
        }
        self.files.is_empty() && self.active.is_empty()
    }
}

/// The reader for a file that the receiver wants from the start index on.
pub fn start_file_transfer(id: u32, details: &FileDetail, start: StartIndex) -> (result: Result<
    Reader,
    Error,
>)
    requires
        details@.crypto is Some,
        cipher_of_number(details@.crypto->0.cipher) is Some ==> crypto_ready(details@.crypto->0),
        cipher_of_number(details@.crypto->0.cipher) == Some(Cipher::Chacha8) || cipher_of_number(
            details@.crypto->0.cipher,
        ) == Some(Cipher::Chacha20) ==> start.index < 64 * 0x1_0000_0000,
    ensures
        match result {
            Ok(reader) => {
                &&& reader.wf()
                &&& reader.spec_id() == id
                &&& reader.spec_index() == start.index
                &&& crypto_ready(details@.crypto->0)
                &&& reader.spec_key() == stream_key(details@.crypto->0)
                &&& reader.spec_data() == Seq::new(TRANSFER_BUFFER_SIZE as nat, |i: int| 0u8)
            },
            Err(error) => {
                &&& cipher_of_number(details@.crypto->0.cipher) is None
                &&& error.kind matches ErrorKind::Decode(text) && text@ == unknown_cipher_text()
            },
        },
{
    match details.crypto.as_ref().unwrap().make_cipher() {
        Ok(cipher) => Ok(Reader::new(start.index, id, cipher)),
        Err(error) => Err(error),
    }
}

/// What happens to the controller.
pub enum ControllerEvent {
    /// it starts a file
    Start(u32),
    /// a message arrives
    Receive(Option<Body>),
}

/// Whether an event leads from one state to another.
pub open spec fn leads(
    before: ControllerState,
    event: ControllerEvent,
    after: ControllerState,
) -> bool {
    match event {
        ControllerEvent::Start(id) => {
            &&& before.can_start()
            &&& before.is_next(id)
            &&& after == before.started(id)
        },
        ControllerEvent::Receive(message) => match control(before, message) {
            Some((next, action)) => after == next,
            None => false,
        },
    }
}

/// Whether a message ends the transfer of a file: it has arrived, or its writer has failed.
pub open spec fn ends(event: ControllerEvent, id: u32) -> bool {
    match event {
        ControllerEvent::Receive(Some(Body::End { id: ended })) => ended == id,
        ControllerEvent::Receive(Some(Body::Failure { id: failed, reason, description })) => failed
            == id && reason == 2,
        _ => false,
    }
}

/// Every event keeps the state in order, and a file stays to be sent or on its way until a
/// message ends its transfer while it is on its way.
pub proof fn law_controller_event(
    before: ControllerState,
    event: ControllerEvent,
    after: ControllerState,
    id: u32,
)
    requires
        before.wf(),
        leads(before, event, after),
    ensures
        after.wf(),
        after.max == before.max,
        after.pending(id) <==> before.pending(id) && !(ends(event, id)
            && before.active.contains_key(id)),
{
}

/// A file that the receiver refuses, since its hash is not the one that was sent, is sent once
/// more; one that has arrived, or whose writer has failed, is not.
pub proof fn law_refused_file(state: ControllerState, id: u32, description: Option<String>)
    requires
        state.active.contains_key(id),
    ensures
        control(state, Some(Body::Failure { id, reason: 0, description })) == Some(
            (state, ControllerAction::Retry { id, size: state.active[id].size }),
        ),
        control(state, Some(Body::Failure { id, reason: 2, description })) matches Some(
            (after, action),
        ) && !after.active.contains_key(id) && action == ControllerAction::GivenUp(id),
        control(state, Some(Body::End { id })) matches Some((after, action))
            && !after.active.contains_key(id) && action == ControllerAction::Ended(id),
{
}

/// Whether the events lead from the first state through the others to the last one.
pub open spec fn runs(states: Seq<ControllerState>, events: Seq<ControllerEvent>) -> bool {
    &&& states.len() == events.len() + 1
    &&& forall|i: int|
        0 <= i < events.len() ==> leads(states[i], #[trigger] events[i], states[i + 1])
}

/// Whatever happens, there are never more files on their way than allowed, and a file that is
/// no longer pending has been ended by a message: in particular, when all is finished, every
/// file has been.
pub proof fn law_controller_run(
    states: Seq<ControllerState>,
    events: Seq<ControllerEvent>,
    id: u32,
)
    requires
        runs(states, events),
        states[0].wf(),
    ensures
        states.last().wf(),
        states.last().max == states[0].max,
        states.last().active.dom().len() <= states[0].max,
        states[0].pending(id) && !states.last().pending(id) ==> exists|i: int|
            0 <= i < events.len() && ends(#[trigger] events[i], id),
        states.last().finished() ==> !states.last().pending(id),
    decreases events.len(),
{
    if events.len() > 0 {
        let earlier = events.drop_last();
        assert forall|i: int| 0 <= i < earlier.len() implies leads(
            states.drop_last()[i],
            #[trigger] earlier[i],
            states.drop_last()[i + 1],
        ) by {
            assert(earlier[i] == events[i]);
        }
        law_controller_run(states.drop_last(), earlier, id);
        let last = events[events.len() - 1];
        law_controller_event(states[states.len() - 2], last, states.last(), id);
        if states[0].pending(id) && !states.last().pending(id) {
            if !states[states.len() - 2].pending(id) {
                let i = choose|i: int| 0 <= i < earlier.len() && ends(#[trigger] earlier[i], id);
                assert(events[i] == earlier[i]);
            }
        }
    }
}

/// Files are started in the order of their ids, each at most once.
pub proof fn law_controller_order(
    states: Seq<ControllerState>,
    events: Seq<ControllerEvent>,
    first: int,
    second: int,
)
    requires
        runs(states, events),
        states[0].wf(),
        0 <= first < second < events.len(),
        events[first] is Start,
        events[second] is Start,
    ensures
        events[first]->Start_0 < events[second]->Start_0,
{
    lemma_ids_grow(states, events, first + 1, second);
    lemma_ids_grow(states, events, 0, first);
    assert(leads(states[first], events[first], states[first + 1]));
    assert(leads(states[second], events[second], states[second + 1]));
}

proof fn lemma_ids_grow(
    states: Seq<ControllerState>,
    events: Seq<ControllerEvent>,
    from: int,
    to: int,
)
    requires
        runs(states, events),
        states[0].wf(),
        0 <= from <= to <= events.len(),
    ensures
        states[from].wf(),
        states[to].wf(),
        states[from].id <= states[to].id,
    decreases to,
{
    if to > 0 {
        lemma_ids_grow(states, events, 0, to - 1);
        if from < to {
            lemma_ids_grow(states, events, from, to - 1);
        }
        assert(leads(states[to - 1], events[to - 1], states[to]));
        law_controller_event(states[to - 1], events[to - 1], states[to], 0);
    }
}

/// A file is started whenever one waits and fewer than allowed are on their way: the one with the
/// lowest id of those that wait. It then is on its way, with the details that it had, and nothing
/// else changes. Else nothing is started, and nothing changes.
pub proof fn law_next_start(controller: &mut Controller, started: Option<u32>, other: u32)
    requires
        controller.state().wf(),
        call_ensures(Controller::next_start, (controller,), started),
    ensures
        ({
            let before = old(controller).state();
            let after = final(controller).state();
            &&& before.files.contains_key(other) && before.active.dom().len() < before.max ==> {
                &&& started matches Some(id) && id <= other && before.files.contains_key(id)
            }
            &&& before.active.dom().len() >= before.max ==> started is None
            &&& started matches Some(id) ==> {
                &&& before.files.contains_key(id)
                &&& !after.files.contains_key(id)
                &&& after.active.contains_key(id)
                &&& after.active[id] == before.files[id]
                &&& after.active.dom().len() == before.active.dom().len() + 1
            }
            &&& started != Some(other) ==> {
                &&& after.files.contains_key(other) <==> before.files.contains_key(other)
                &&& before.files.contains_key(other) ==> after.files[other] == before.files[other]
                &&& after.active.contains_key(other) <==> before.active.contains_key(other)
                &&& before.active.contains_key(other) ==> after.active[other]
                    == before.active[other]
            }
            &&& after.max == before.max
        }),
{
    let before = old(controller).state();
    if before.files.contains_key(other) {
        assert(before.files.dom().contains(other));
    }
    if let Some(id) = started {
        assert(!before.active.contains_key(id));
    }
}

/// Something goes on until all is finished: as long as a file is pending, one is on its way, or
/// one can be started, if any may be on their way at all.
pub proof fn law_progress(state: ControllerState, id: u32)
    requires
        state.wf(),
        state.pending(id),
        state.max > 0,
    ensures
        !state.finished(),
        (exists|other: u32| #[trigger] state.active.contains_key(other)) || state.can_start(),
        state.files.contains_key(id) && state.active.dom().len() < state.max ==> state.can_start(),
        state.can_start() ==> exists|next: u32|
            #[trigger] state.is_next(next) && leads(
                state,
                ControllerEvent::Start(next),
                state.started(next),
            ),
{
    if state.files.contains_key(id) {
        assert(state.files.dom().contains(id));
        if forall|other: u32| !state.active.contains_key(other) {
            assert(state.active.dom() =~= Set::<u32>::empty());
        }
    } else {
        assert(state.active.dom().contains(id));
    }
    if state.can_start() {
        if forall|other: u32| !state.files.contains_key(other) {
            assert(state.files.dom() =~= Set::<u32>::empty());
        }
        let some = choose|some: u32| state.files.contains_key(some);
        lemma_lowest(state.files, some);
        let next = choose|next: u32|
            state.files.contains_key(next) && forall|other: u32| #[trigger]
                state.files.contains_key(other) ==> next <= other;
        assert(state.is_next(next));
    }
}

proof fn lemma_lowest(files: Map<u32, FileDetail>, some: u32)
    requires
        files.contains_key(some),
    ensures
        exists|next: u32|
            files.contains_key(next) && forall|other: u32| #[trigger]
                files.contains_key(other) ==> next <= other,
    decreases some,
{
    if exists|other: u32| #[trigger] files.contains_key(other) && other < some {
        let other = choose|other: u32| #[trigger] files.contains_key(other) && other < some;
        lemma_lowest(files, other);
    } else {
        assert(files.contains_key(some));
    }
}

/// All is finished exactly when no file is pending.
pub proof fn law_finished(controller: Controller, finished: bool, id: u32)
    requires
        call_ensures(Controller::is_finished, (&controller,), finished),
    ensures
        controller.state().files.contains_key(id) || controller.state().active.contains_key(id)
            ==> !finished,
        (forall|other: u32|
            !#[trigger] controller.state().files.contains_key(other)
                && !controller.state().active.contains_key(other)) ==> finished,
{
    let state = controller.state();
    if state.files.contains_key(id) {
        assert(state.files.dom().contains(id));
    }
    if state.active.contains_key(id) {
        assert(state.active.dom().contains(id));
    }
    if forall|other: u32|
        !#[trigger] state.files.contains_key(other) && !state.active.contains_key(other) {
        assert(state.files.dom() =~= Set::<u32>::empty());
        assert forall|other: u32| !#[trigger] state.active.contains_key(other) by {
            assert(!state.files.contains_key(other));
        }
        assert(state.active.dom() =~= Set::<u32>::empty());
    }
}

/// The first file to be started is the one with the lowest id of all, if there are files and if
/// any may be on their way; and there is nothing to do where there are no files.
pub proof fn law_first_start(
    files: HashMap<u32, FileDetail>,
    max: usize,
    controller: &mut Controller,
    started: Option<u32>,
    id: u32,
)
    requires
        forall|id: u32| #[trigger] files@.contains_key(id) ==> id < u32::MAX,
        call_ensures(Controller::new, (files, max), *controller),
        call_ensures(Controller::next_start, (controller,), started),
    ensures
        files@.contains_key(id) && max > 0 ==> {
            started matches Some(first) && files@.contains_key(first) && first <= id
        },
        max == 0 ==> started is None,
        started matches Some(first) ==> files@.contains_key(first),
{
    assert(old(controller).state().active.dom() =~= Set::<u32>::empty());
    law_next_start(controller, started, id);
}

/// What a message of the receiver does to the files: the end of a file that is on its way, and the
/// failure of its writer, take it off; the refusal of its hash leaves it, to be sent again; and
/// whatever is about another file, or of another kind, changes nothing.
pub proof fn law_receive(
    controller: &mut Controller,
    message: Message,
    result: Result<ControllerAction, Error>,
    id: u32,
    other: u32,
)
    requires
        controller.state().wf(),
        call_ensures(Controller::receive, (controller, message), result),
    ensures
        ({
            let before = old(controller).state();
            let after = final(controller).state();
            let on_way = before.active.contains_key(id);
            &&& after.files == before.files
            &&& after.max == before.max
            &&& after.active.contains_key(other) ==> before.active.contains_key(other)
                && after.active[other] == before.active[other]
            &&& message.message == Some(Body::End { id }) ==> {
                &&& !after.active.contains_key(id)
                &&& other != id && before.active.contains_key(other) ==> after.active.contains_key(
                    other,
                )
                &&& result == Ok::<ControllerAction, Error>(
                    if on_way {
                        ControllerAction::Ended(id)
                    } else {
                        ControllerAction::Unknown(id)
                    },
                )
            }
            &&& message.message matches Some(Body::Failure { id: failed, reason, description })
                ==> failed == id ==> {
                &&& reason == 2 ==> !after.active.contains_key(id)
                &&& reason != 2 ==> (after.active.contains_key(id) <==> on_way)
                &&& other != id && before.active.contains_key(other) ==> after.active.contains_key(
                    other,
                )
                &&& result == Ok::<ControllerAction, Error>(
                    if reason != 0 && reason != 2 {
                        ControllerAction::Ignored
                    } else if !on_way {
                        ControllerAction::Unknown(id)
                    } else if reason == 0 {
                        ControllerAction::Retry { id, size: before.active[id].size }
                    } else {
                        ControllerAction::GivenUp(id)
                    },
                )
            }
            &&& !(message.message matches Some(Body::End { .. })) && !(message.message matches Some(
                Body::Failure { .. },
            )) ==> {
                &&& result matches Err(error) && error.kind == ErrorKind::UnexpectedMessage(
                    Box::new(message),
                )
                &&& after.active == before.active
            }
        }),
{
}

/// The details of a file are at hand while it is on its way, and only then.
pub proof fn law_details(controller: Controller, id: u32, details: Option<&FileDetail>)
    requires
        call_ensures(Controller::details, (&controller, id), details),
    ensures
        details is Some <==> controller.state().active.contains_key(id),
        details matches Some(details) ==> *details == controller.state().active[id],
{
}

} // verus!
