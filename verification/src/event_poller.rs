//! The decisions of the event loop.
//!
//! The loop itself waits on the sources of the process, which this library
//! does not touch. It hands each thing that happens to the poller as an
//! `Event` and does what the `Action` says.

use crate::result::Error;
use std::collections::HashMap;
use vstd::prelude::*;
use vstd::string::StringExecFns;

verus! {

/// The token under which the listener of the command socket is registered.
pub const COMMAND_TOKEN: usize = 0;

/// The token under which the source of the termination signal is registered.
pub const SIGNAL_TOKEN: usize = 1;

/// The path of the socket on which the daemon listens.
pub const SOCKET_PATH: &'static str = "/tmp/solanum";

/// What stands behind a token.
#[derive(Clone, Copy, Debug, PartialEq, Eq, Structural)]
pub enum Subscriber {
    /// The listener: a connection waits to be accepted and served.
    Connection,
    /// The signal source: the daemon was told to end.
    Signal,
}

/// A subscriber and the token that names it in the loop.
#[derive(Clone, Copy, Debug, PartialEq, Eq, Structural)]
pub struct EventSubscriptionDescriptor {
    pub token: usize,
    pub subscriber: Subscriber,
}

impl EventSubscriptionDescriptor {
    pub fn new(subscriber: Subscriber, token: usize) -> (descriptor: EventSubscriptionDescriptor)
        ensures
            descriptor.token == token,
            descriptor.subscriber == subscriber,
    {
        EventSubscriptionDescriptor { token, subscriber }
    }
}

/// What happened in the loop.
#[derive(Debug)]
pub enum Event {
    /// The source of this token is ready.
    Ready(usize),
    /// Waiting for the sources failed; holds the cause.
    PollFailed(String),
    /// The subscriber that was asked to handle its source has done so, or
    /// failed.
    Handled(Result<(), Error>),
}

/// What the loop does next.
#[derive(Debug)]
pub enum Action {
    /// Go on: to the next event, or wait again.
    Continue,
    /// Let this subscriber handle its source, and hand back how it went.
    Handle(Subscriber),
    /// Leave the loop with this result, and clean up.
    Return(Result<(), Error>),
}

/// What the loop does after `event`, with the subscribers of `subscriptions`.
///
/// The signal ends the loop in good order. A ready listener is handled. A
/// token that names no subscriber, a failed wait and a subscriber's failure
/// end the loop with an error.
pub open spec fn decided(
    subscriptions: Map<usize, Subscriber>,
    event: Event,
    action: Action,
) -> bool {
    match event {
        Event::Ready(token) => if subscriptions.contains_key(token) {
            match subscriptions[token] {
                Subscriber::Connection => action matches Action::Handle(s) && s
                    == Subscriber::Connection,
                Subscriber::Signal => action matches Action::Return(r) && r is Ok,
            }
        } else {
            &&& action matches Action::Return(r)
            &&& r matches Err(e)
            &&& e matches Error::SystemError(cause)
            &&& cause@ == "Received event from unknown source"@
        },
        Event::PollFailed(reason) => {
            &&& action matches Action::Return(r)
            &&& r matches Err(e)
            &&& e matches Error::SystemError(cause)
            &&& cause@ == reason@
        },
        Event::Handled(result) => match result {
            Ok(_) => action is Continue,
            Err(failure) => {
                &&& action matches Action::Return(r)
                &&& r matches Err(e)
                &&& e == failure
            },
        },
    }
}

/// The subscribers of the loop, by token.
pub struct EventPoller {
    subscriptions: HashMap<usize, Subscriber>,
}

impl View for EventPoller {
    type V = Map<usize, Subscriber>;

    closed spec fn view(&self) -> Map<usize, Subscriber> {
        self.subscriptions@
    }
}

impl EventPoller {
    /// A poller without subscribers.
    pub fn new() -> (poller: EventPoller)
        ensures
            poller@ == Map::<usize, Subscriber>::empty(),
    {
        EventPoller { subscriptions: HashMap::new() }
    }

    /// A poller with the two subscribers of the daemon: the listener under
    /// token 0 and the signal source under token 1.
    pub fn for_daemon() -> (poller: EventPoller)
        ensures
            poller@ == Map::<usize, Subscriber>::empty().insert(
                COMMAND_TOKEN,
                Subscriber::Connection,
            ).insert(SIGNAL_TOKEN, Subscriber::Signal),
    {
        let mut poller = EventPoller::new();
        poller.listen_for(EventSubscriptionDescriptor::new(Subscriber::Connection, COMMAND_TOKEN));
        poller.listen_for(EventSubscriptionDescriptor::new(Subscriber::Signal, SIGNAL_TOKEN));
        poller
    }

    /// Registers a subscriber under its token. A subscriber that was there
    /// under the token gives way.
    pub fn listen_for(&mut self, descriptor: EventSubscriptionDescriptor)
        ensures
            final(self)@ == old(self)@.insert(descriptor.token, descriptor.subscriber),
    {
        broadcast use vstd::std_specs::hash::group_hash_axioms;

        self.subscriptions.insert(descriptor.token, descriptor.subscriber);
    }

    /// The subscriber of a token, if there is one.
    pub fn subscriber(&self, token: usize) -> (r: Option<Subscriber>)
        ensures
            r == (if self@.contains_key(token) {
                Some(self@[token])
            } else {
                None
            }),
    {
        broadcast use vstd::std_specs::hash::group_hash_axioms;

        match self.subscriptions.get(&token) {
            Some(subscriber) => Some(*subscriber),
            None => None,
        }
    }

    /// What the loop does after `event`.
    pub fn start_polling(&self, event: Event) -> (action: Action)
        ensures
            decided(self@, event, action),
    {
        match event {
            Event::Ready(token) => match self.subscriber(token) {
                Some(Subscriber::Connection) => Action::Handle(Subscriber::Connection),
                Some(Subscriber::Signal) => Action::Return(Ok(())),
                None => Action::Return(
                    Err(Error::SystemError(String::from_str("Received event from unknown source"))),
                ),
            },
            Event::PollFailed(reason) => Action::Return(Err(Error::SystemError(reason))),
            Event::Handled(result) => match result {
                Ok(_) => Action::Continue,
                Err(failure) => Action::Return(Err(failure)),
            },
        }
    }
}

} // verus!
