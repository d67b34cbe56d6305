//! The bounded mailbox between caller threads and the runtime loop, and the messages it carries.
//!
//! Producers never wait: a message sent to a full or closed mailbox is handed back at once with
//! the reason, so that a busy loop can never be deadlocked by its own callers. Messages leave in
//! the order in which they were accepted.
use vstd::prelude::*;

verus! {

/// A message for the runtime loop.
#[derive(Debug)]
pub enum RuntimeMessage<T> {
    /// Run a task.
    NewTask(T),
    /// Load the source file at this path into the interpreter's main namespace.
    IncludeFile(String),
    /// Stop accepting work, finish what was accepted, and tear the interpreter down.
    Shutdown,
}

/// Why a message was not accepted; the message is handed back.
#[derive(Debug)]
pub enum SendError<T> {
    /// The backlog is at its capacity.
    Full(T),
    /// The mailbox was closed.
    Closed(T),
}

/// The abstract state of a mailbox.
pub struct MailboxModel<T> {
    pub capacity: nat,
    /// The accepted messages that were not received yet, oldest first.
    pub queue: Seq<T>,
    pub closed: bool,
}

/// A bounded first-in first-out queue of messages that fails fast when full.
pub struct Mailbox<T> {
    capacity: usize,
    queue: Vec<T>,
    closed: bool,
}

impl<T> View for Mailbox<T> {
    type V = MailboxModel<T>;

    closed spec fn view(&self) -> MailboxModel<T> {
        MailboxModel { capacity: self.capacity as nat, queue: self.queue@, closed: self.closed }
    }
}

impl<T> Mailbox<T> {
    /// The backlog never exceeds the capacity.
    pub open spec fn wf(&self) -> bool {
        self@.queue.len() <= self@.capacity
    }

    /// An open, empty mailbox that holds at most `capacity` messages.
    pub fn new(capacity: usize) -> (r: Self)
        ensures
            r.wf(),
            r@.capacity == capacity,
            r@.queue.len() == 0,
            !r@.closed,
    {
        Mailbox { capacity, queue: Vec::new(), closed: false }
    }

    /// Appends `msg` to the backlog without waiting. A closed mailbox refuses it; an open one at
    /// its capacity refuses it as full. A refused message comes back and the mailbox is
    /// unchanged.
    pub fn try_send(&mut self, msg: T) -> (r: Result<(), SendError<T>>)
        requires
            old(self).wf(),
        ensures
            final(self).wf(),
            old(self)@.closed ==> r == Err::<(), SendError<T>>(SendError::Closed(msg))
                && final(self)@ == old(self)@,
            !old(self)@.closed && old(self)@.queue.len() == old(self)@.capacity ==> r == Err::<
                (),
                SendError<T>,
            >(SendError::Full(msg)) && final(self)@ == old(self)@,
            !old(self)@.closed && old(self)@.queue.len() < old(self)@.capacity ==> r == Ok::<
                (),
                SendError<T>,
            >(()) && final(self)@ == (MailboxModel { queue: old(self)@.queue.push(msg), ..old(self)@ }),
    {
        if self.closed {
            return Err(SendError::Closed(msg));
        }
        if self.queue.len() >= self.capacity {
            return Err(SendError::Full(msg));
        }
        self.queue.push(msg);
        Ok(())
    }

    /// Takes the oldest message of the backlog, if there is one. Receiving goes on after the
    /// mailbox was closed, until the backlog is drained.
    pub fn recv(&mut self) -> (r: Option<T>)
        requires
            old(self).wf(),
        ensures
            final(self).wf(),
            old(self)@.queue.len() == 0 ==> r is None && final(self)@ == old(self)@,
            old(self)@.queue.len() > 0 ==> r == Some(old(self)@.queue[0]) && final(self)@ == (
            MailboxModel { queue: old(self)@.queue.drop_first(), ..old(self)@ }),
    {
        if self.queue.len() == 0 {
            return None;
        }
        let ghost before = self@;
        let msg = self.queue.remove(0);
        proof {
            assert(self@.queue =~= before.queue.drop_first());
        }
        Some(msg)
    }

    /// Closes the mailbox: later messages are refused, those already accepted stay.
    pub fn close(&mut self)
        requires
            old(self).wf(),
        ensures
            final(self).wf(),
            final(self)@ == (MailboxModel { closed: true, ..old(self)@ }),
    {
        self.closed = true;
    }

    /// The number of messages waiting.
    pub fn len(&self) -> (r: usize)
        ensures
            r == self@.queue.len(),
    {
        self.queue.len()
    }

    /// The maximum number of messages waiting.
    pub fn capacity(&self) -> (r: usize)
        ensures
            r == self@.capacity,
    {
        self.capacity
    }

    /// Whether the mailbox was closed.
    pub fn is_closed(&self) -> (r: bool)
        ensures
            r == self@.closed,
    {
        self.closed
    }
}

} // verus!
