//! The life of a server: the phases it goes through and what each event
//! leads to. The socket, the tasks and the clock belong to the caller.

use crate::dispatch::{entries_after, handle_request, outcome_of, store_after};
use crate::error::DatabaseError;
use crate::resource::{Payload, ResourceView};
use crate::store::Database;
use crate::text::{decode_lossy, lossy_text};
use vstd::prelude::*;

verus! {

/// Where a server is in its life. A server starts as `Created`, runs once,
/// and stays `Stopped` for good.
#[derive(Debug, Clone, Copy, PartialEq, Eq, Structural)]
pub enum Phase {
    Created,
    Running,
    Stopped,
}

/// What can happen to a server.
#[derive(Debug, Clone, PartialEq)]
pub enum Event {
    /// The server was told to run.
    Start,
    /// A datagram came in.
    Datagram(Vec<u8>),
    /// The server was told to shut down.
    Shutdown,
    /// Receiving from the socket failed.
    TransportError,
    /// The task that sends the responses ended.
    ResponsePathClosed,
    /// The time allowed for a bounded run is over.
    Deadline,
}

/// An event as contracts see it.
pub ghost enum EventView {
    Start,
    Datagram(Seq<u8>),
    Shutdown,
    TransportError,
    ResponsePathClosed,
    Deadline,
}

impl View for Event {
    type V = EventView;

    open spec fn view(&self) -> EventView {
        match self {
            Event::Start => EventView::Start,
            Event::Datagram(bytes) => EventView::Datagram(bytes@),
            Event::Shutdown => EventView::Shutdown,
            Event::TransportError => EventView::TransportError,
            Event::ResponsePathClosed => EventView::ResponsePathClosed,
            Event::Deadline => EventView::Deadline,
        }
    }
}

/// What the caller is to do after an event.
#[derive(Debug, Clone, PartialEq)]
pub enum Action {
    /// Nothing.
    Idle,
    /// Start to receive datagrams and to send responses.
    Listen,
    /// Send this response to the sender of the datagram.
    Reply(String),
    /// Stop receiving and sending, and give up the work in flight.
    Halt,
}

/// An action as contracts see it.
pub ghost enum ActionView {
    Idle,
    Listen,
    Reply(Seq<char>),
    Halt,
}

impl View for Action {
    type V = ActionView;

    open spec fn view(&self) -> ActionView {
        match self {
            Action::Idle => ActionView::Idle,
            Action::Listen => ActionView::Listen,
            Action::Reply(text) => ActionView::Reply(text@),
            Action::Halt => ActionView::Halt,
        }
    }
}

/// The phase after an event. Only `Start` leads out of `Created` into
/// `Running`; a shutdown or a deadline stops the server wherever it is; a
/// failure of the transport or of the response path stops a running server;
/// nothing leads out of `Stopped`.
pub open spec fn next_phase(phase: Phase, event: EventView) -> Phase {
    match phase {
        Phase::Created => match event {
            EventView::Start => Phase::Running,
            EventView::Shutdown | EventView::Deadline => Phase::Stopped,
            _ => Phase::Created,
        },
        Phase::Running => match event {
            EventView::Start | EventView::Datagram(_) => Phase::Running,
            _ => Phase::Stopped,
        },
        Phase::Stopped => Phase::Stopped,
    }
}

/// The request that a datagram holds: its bytes read as UTF-8, with the
/// replacement character in place of what is not.
pub open spec fn request_in(bytes: Seq<u8>) -> Seq<char> {
    lossy_text(bytes)
}

/// A key-value server without its socket: the store, and the phase that
/// decides what an event leads to.
pub struct Server<T: Payload> {
    db: Database<T>,
    phase: Phase,
}

impl<T: Payload> Server<T> {
    /// The store.
    pub closed spec fn db(&self) -> Database<T> {
        self.db
    }

    /// The phase.
    pub closed spec fn phase(&self) -> Phase {
        self.phase
    }

    /// Whether the store is well formed.
    pub open spec fn wf(&self) -> bool {
        self.db().wf()
    }

    /// What the caller is to do after `event`.
    pub open spec fn action_for(&self, event: EventView) -> ActionView {
        match (self.phase(), event) {
            (Phase::Created, EventView::Start) => ActionView::Listen,
            (Phase::Running, EventView::Datagram(bytes)) => ActionView::Reply(
                outcome_of::<T>(self.db()@, request_in(bytes)).response,
            ),
            (Phase::Stopped, _) => ActionView::Idle,
            _ => if next_phase(self.phase(), event) == Phase::Stopped {
                ActionView::Halt
            } else {
                ActionView::Idle
            },
        }
    }

    /// The store after `event`: only a datagram that reaches a running
    /// server can change it.
    pub open spec fn store_for(&self, event: EventView) -> Map<Seq<char>, ResourceView<T::V>> {
        match (self.phase(), event) {
            (Phase::Running, EventView::Datagram(bytes)) => store_after(
                self.db()@,
                outcome_of::<T>(self.db()@, request_in(bytes)).effect,
            ),
            _ => self.db()@,
        }
    }

    /// A server around `db` that has not run yet.
    pub fn new(db: Database<T>) -> (r: Self)
        requires
            db.wf(),
        ensures
            r.wf(),
            r.db() == db,
            r.phase() == Phase::Created,
    {
        Server { db, phase: Phase::Created }
    }

    /// The phase that the server is in.
    pub fn current_phase(&self) -> (r: Phase)
        ensures
            r == self.phase(),
    {
        self.phase
    }

    /// The store.
    pub fn database(&self) -> (r: &Database<T>)
        ensures
            *r == self.db(),
    {
        &self.db
    }

    /// Takes one event, moves to the next phase and says what is to be done.
    pub fn step(&mut self, event: Event) -> (action: Action)
        requires
            old(self).wf(),
        ensures
            final(self).wf(),
            final(self).phase() == next_phase(old(self).phase(), event@),
            action@ == old(self).action_for(event@),
            final(self).db()@ == old(self).store_for(event@),
            final(self).db().path() == old(self).db().path(),
            !(old(self).phase() == Phase::Running && event@ is Datagram) ==> final(self).db()
                == old(self).db(),
            old(self).phase() == Phase::Running ==> match event@ {
                EventView::Datagram(bytes) => {
                    let effect = outcome_of::<T>(old(self).db()@, request_in(bytes)).effect;
                    &&& final(self).db().entries() == entries_after(
                        old(self).db().entries(),
                        effect,
                    )
                    &&& final(self).db().owes_save() == if effect is Keep {
                        old(self).db().owes_save()
                    } else {
                        old(self).db().persistent()
                    }
                },
                _ => true,
            },
    {
        match self.phase {
            Phase::Created => match event {
                Event::Start => {
                    self.phase = Phase::Running;
                    Action::Listen
                },
                Event::Shutdown | Event::Deadline => {
                    self.phase = Phase::Stopped;
                    Action::Halt
                },
                _ => Action::Idle,
            },
            Phase::Running => match event {
                Event::Start => Action::Idle,
                Event::Datagram(bytes) => {
                    let request = decode_lossy(bytes.as_slice());
                    Action::Reply(handle_request(&mut self.db, request.as_str()))
                },
                _ => {
                    self.phase = Phase::Stopped;
                    Action::Halt
                },
            },
            Phase::Stopped => Action::Idle,
        }
    }

    /// Stops the server. A server that is stopped stays as it is.
    pub fn shutdown(&mut self)
        requires
            old(self).wf(),
        ensures
            final(self).wf(),
            final(self).phase() == Phase::Stopped,
            final(self).db() == old(self).db(),
    {
        self.phase = Phase::Stopped;
    }

    /// Ends a bounded run whose time is over: the server stops, and the run
    /// counts as a success.
    pub fn deadline_passed(&mut self) -> (r: Result<(), DatabaseError>)
        requires
            old(self).wf(),
        ensures
            final(self).wf(),
            r is Ok,
            final(self).phase() == Phase::Stopped,
            final(self).db() == old(self).db(),
    {
        self.shutdown();
        Ok(())
    }

    /// Records that the store was written out as it stands.
    pub fn mark_saved(&mut self)
        requires
            old(self).wf(),
        ensures
            final(self).wf(),
            final(self).phase() == old(self).phase(),
            final(self).db()@ == old(self).db()@,
            final(self).db().entries() == old(self).db().entries(),
            final(self).db().path() == old(self).db().path(),
            !final(self).db().owes_save(),
    {
        self.db.mark_saved();
    }
}

} // verus!
