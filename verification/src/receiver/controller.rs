//! What the sender's messages lead to.

use crate::error::{Error, ErrorKind};
use crate::items::{Body, Message, StartIndex};
use crate::receiver::files::FileDetails;
use std::collections::HashMap;
use vstd::prelude::*;

verus! {

/// What a message of the sender leads to.
#[derive(Clone, Copy, Debug, PartialEq, Eq, Structural)]
pub enum ControllerEvent {
    /// the sender starts with a file
    Start(u32),
    /// the sender has nothing more to send
    Done,
}

/// Takes a message of the sender.
pub fn receive(message: Message) -> (result: Result<ControllerEvent, Error>)
    ensures
        match message.message {
            Some(Body::Start { id }) => result == Ok::<ControllerEvent, Error>(
                ControllerEvent::Start(id),
            ),
            Some(Body::Done { reason }) if reason == 1 || reason == 2 => result == Ok::<
                ControllerEvent,
                Error,
            >(ControllerEvent::Done),
            _ => result matches Err(error) && error.kind == ErrorKind::UnexpectedMessage(
                Box::new(message),
            ),
        },
{
    match &message.message {
        Some(Body::Start { id }) => Ok(ControllerEvent::Start(*id)),
        Some(Body::Done { reason }) => match *reason {
            // all transfers were completed before execution
            1 => Ok(ControllerEvent::Done),
            // remote client completed all transfers
            2 => Ok(ControllerEvent::Done),
            _ => Err(Error::unexpected_message(message)),
        },
        _ => Err(Error::unexpected_message(message)),
    }
}

/// The files that are wanted.
#[derive(Debug)]
pub struct Controller {
    files: HashMap<u32, FileDetails>,
}

impl Controller {
    pub closed spec fn files(&self) -> Map<u32, FileDetails> {
        self.files@
    }

    pub fn new(files: HashMap<u32, FileDetails>) -> (controller: Self)
        ensures
            controller.files() == files@,
    {
        Controller { files }
    }

    /// The details of a file.
    pub fn details(&self, id: u32) -> (details: Option<&FileDetails>)
        ensures
            match details {
                Some(details) => self.files().contains_key(id) && *details == self.files()[id],
                None => !self.files().contains_key(id),
            },
    {
        broadcast use vstd::std_specs::hash::group_hash_axioms;

        self.files.get(&id)
    }

    /// Starts a file, and says from where on the sender should send it; `None` for a file that
    /// is not known. A file that was partially transferred, failed and needs to be retried
    /// has no partial file any more, and starts from the beginning.
    pub fn start(&mut self, id: u32, partial_exists: bool) -> (start: Option<StartIndex>)
        ensures
            match start {
                None => !old(self).files().contains_key(id) && final(self).files()
                    == old(self).files(),
                Some(start) => {
                    &&& old(self).files().contains_key(id)
                    &&& start.index == if partial_exists {
                        old(self).files()[id].start_index
                    } else {
                        0
                    }
                    &&& final(self).files() == old(self).files().insert(
                        id,
                        FileDetails { start_index: start.index, ..old(self).files()[id] },
                    )
                },
            },
    {
        broadcast use vstd::std_specs::hash::group_hash_axioms;

        match self.files.remove(&id) {
            None => {
                proof {
                    assert(self.files@ =~= old(self).files@);
                }
                None
            },
            Some(details) => {
                let mut details = details;
                if details.start_index > 0 && !partial_exists {
                    details.start_index = 0;
                }
                let start = StartIndex::new(details.start_index);
                self.files.insert(id, details);
                proof {
                    assert(self.files@ =~= old(self).files@.insert(id, details));
                }
                Some(start)
            },
        }
    }
}

/// A file goes on where its partial file ends, and from the beginning where there is none any more;
/// what is known of it and of the others stays.
pub proof fn law_start(
    controller: &mut Controller,
    id: u32,
    partial_exists: bool,
    start: Option<StartIndex>,
    other: u32,
)
    requires
        call_ensures(Controller::start, (controller, id, partial_exists), start),
    ensures
        ({
            let before = old(controller).files();
            let after = final(controller).files();
            &&& start is Some <==> before.contains_key(id)
            &&& start matches Some(start) ==> {
                &&& partial_exists ==> start.index == before[id].start_index
                &&& !partial_exists ==> start.index == 0
                &&& after[id].start_index == start.index
                &&& after[id].id == before[id].id
                &&& after[id].size == before[id].size
                &&& after[id].signature == before[id].signature
                &&& after[id].crypto == before[id].crypto
            }
            &&& after.contains_key(other) <==> before.contains_key(other)
            &&& other != id && before.contains_key(other) ==> after[other] == before[other]
        }),
{
}

/// The messages of the sender are understood: the start of a file as the start of that file, and
/// the end of all, for either of its reasons, as the end.
pub proof fn law_sender_messages(
    id: u32,
    start: Message,
    started: Result<ControllerEvent, Error>,
    reason: u32,
    done: Message,
    ended: Result<ControllerEvent, Error>,
)
    requires
        call_ensures(Message::start, (id,), start),
        call_ensures(receive, (start,), started),
        call_ensures(Message::done, (reason,), done),
        call_ensures(receive, (done,), ended),
    ensures
        started == Ok::<ControllerEvent, Error>(ControllerEvent::Start(id)),
        reason == 1 || reason == 2 ==> ended == Ok::<ControllerEvent, Error>(ControllerEvent::Done),
        reason != 1 && reason != 2 ==> ended is Err,
{
}

/// Nothing but the start of a file and the end of all is expected.
pub proof fn law_unexpected(message: Message, result: Result<ControllerEvent, Error>)
    requires
        call_ensures(receive, (message,), result),
    ensures
        result is Ok ==> message.message is Some && (message.message->0 is Start
            || message.message->0 is Done),
        result matches Err(error) ==> error.kind == ErrorKind::UnexpectedMessage(Box::new(message)),
{
}

/// The details of a file are at hand where the file is known, and only then.
pub proof fn law_details(
    files: HashMap<u32, FileDetails>,
    controller: Controller,
    id: u32,
    details: Option<&FileDetails>,
)
    requires
        call_ensures(Controller::new, (files,), controller),
        call_ensures(Controller::details, (&controller, id), details),
    ensures
        details is Some <==> files@.contains_key(id),
        details matches Some(details) ==> *details == files@[id],
{
}

} // verus!
