//! The life of one device connection on a gateway node.
//!
//! ```text
//! Accepted -> Identified(device) -> Active(device) -> Closing -> Closed
//! ```
//!
//! A connection is accepted without a device. The identification frame,
//! `uid:` followed by the device id, binds it to that id, once; from then on
//! every frame read is forwarded under the id. Who may identify as which
//! device is not decided here. Every read, identified or not, refreshes the
//! liveness record. A failed read (an error or the end of the stream) and a
//! shutdown forced by the sweeper both start the closing, from any live
//! state. Closing shuts the socket down and, whether or not that went
//! well, ends by unregistering the connection and cleaning up its session.

use vstd::prelude::*;
use crate::text::chars_of;

verus! {

/// Where a connection is in its life.
#[derive(Debug, Clone, PartialEq, Eq)]
pub enum ConnectionState {
    Accepted,
    Identified { device_id: String },
    Active { device_id: String },
    Closing,
    Closed,
}

/// What happens to a connection.
#[derive(Debug, Clone, PartialEq, Eq)]
pub enum ConnectionEvent {
    /// A valid identification frame was read.
    Identification { device_id: String },
    /// Any other frame was read.
    Data,
    /// A read failed, or the stream ended.
    ReadFailed,
    /// The sweeper found the connection stale.
    ForcedShutdown,
    /// The shutdown of the socket is over, well or badly.
    ShutdownFinished,
}

/// What the server is to do for a connection.
#[derive(Debug, Clone, PartialEq, Eq)]
pub enum ConnectionAction {
    /// Write the time of the read into the liveness record.
    RefreshLiveness,
    /// Write the pair of address and device into the session index.
    BindSession { device_id: String },
    /// Hand the frame on to the pipeline as a message of the device.
    Forward { device_id: String },
    /// Shut the socket down.
    Shutdown,
    /// Take the connection out of the registry.
    Unregister,
    /// Take the session of the connection out of the session index.
    CleanupSession,
}

/// A state as a mathematical value.
pub enum Phase {
    Accepted,
    Identified(Seq<char>),
    Active(Seq<char>),
    Closing,
    Closed,
}

/// An event as a mathematical value.
pub enum Event {
    Identification(Seq<char>),
    Data,
    ReadFailed,
    ForcedShutdown,
    ShutdownFinished,
}

/// An action as a mathematical value.
pub enum Action {
    RefreshLiveness,
    BindSession(Seq<char>),
    Forward(Seq<char>),
    Shutdown,
    Unregister,
    CleanupSession,
}

impl View for ConnectionState {
    type V = Phase;

    open spec fn view(&self) -> Phase {
        match self {
            ConnectionState::Accepted => Phase::Accepted,
            ConnectionState::Identified { device_id } => Phase::Identified(device_id@),
            ConnectionState::Active { device_id } => Phase::Active(device_id@),
            ConnectionState::Closing => Phase::Closing,
            ConnectionState::Closed => Phase::Closed,
        }
    }
}

impl View for ConnectionEvent {
    type V = Event;

    open spec fn view(&self) -> Event {
        match self {
            ConnectionEvent::Identification { device_id } => Event::Identification(device_id@),
            ConnectionEvent::Data => Event::Data,
            ConnectionEvent::ReadFailed => Event::ReadFailed,
            ConnectionEvent::ForcedShutdown => Event::ForcedShutdown,
            ConnectionEvent::ShutdownFinished => Event::ShutdownFinished,
        }
    }
}

impl View for ConnectionAction {
    type V = Action;

    open spec fn view(&self) -> Action {
        match self {
            ConnectionAction::RefreshLiveness => Action::RefreshLiveness,
            ConnectionAction::BindSession { device_id } => Action::BindSession(device_id@),
            ConnectionAction::Forward { device_id } => Action::Forward(device_id@),
            ConnectionAction::Shutdown => Action::Shutdown,
            ConnectionAction::Unregister => Action::Unregister,
            ConnectionAction::CleanupSession => Action::CleanupSession,
        }
    }
}

impl Phase {
    /// Whether the connection can still be read from.
    pub open spec fn is_live(self) -> bool {
        self is Accepted || self is Identified || self is Active
    }

    /// The device that the connection is bound to, if any.
    pub open spec fn device(self) -> Option<Seq<char>> {
        match self {
            Phase::Identified(device) => Some(device),
            Phase::Active(device) => Some(device),
            _ => None,
        }
    }

    /// The state after `event`.
    pub open spec fn next(self, event: Event) -> Phase {
        match (self, event) {
            (Phase::Accepted, Event::Identification(device)) => Phase::Identified(device),
            (Phase::Accepted, Event::Data) => Phase::Accepted,
            (Phase::Identified(device), Event::Identification(_)) => Phase::Active(device),
            (Phase::Identified(device), Event::Data) => Phase::Active(device),
            (Phase::Active(device), Event::Identification(_)) => Phase::Active(device),
            (Phase::Active(device), Event::Data) => Phase::Active(device),
            (Phase::Closing, Event::ShutdownFinished) => Phase::Closed,
            (Phase::Closing, _) => Phase::Closing,
            (Phase::Closed, _) => Phase::Closed,
            (_, Event::ReadFailed) => Phase::Closing,
            (_, Event::ForcedShutdown) => Phase::Closing,
            (_, Event::ShutdownFinished) => self,
        }
    }

    /// What is to be done on `event`, in order.
    pub open spec fn actions(self, event: Event) -> Seq<Action> {
        match (self, event) {
            (Phase::Accepted, Event::Identification(device)) => seq![
                Action::RefreshLiveness,
                Action::BindSession(device),
            ],
            (Phase::Accepted, Event::Data) => seq![Action::RefreshLiveness],
            (Phase::Identified(device), Event::Identification(_)) => seq![
                Action::RefreshLiveness,
                Action::Forward(device),
            ],
            (Phase::Identified(device), Event::Data) => seq![
                Action::RefreshLiveness,
                Action::Forward(device),
            ],
            (Phase::Active(device), Event::Identification(_)) => seq![
                Action::RefreshLiveness,
                Action::Forward(device),
            ],
            (Phase::Active(device), Event::Data) => seq![
                Action::RefreshLiveness,
                Action::Forward(device),
            ],
            (Phase::Closing, Event::ShutdownFinished) => seq![
                Action::Unregister,
                Action::CleanupSession,
            ],
            (Phase::Closing, _) => Seq::empty(),
            (Phase::Closed, _) => Seq::empty(),
            (_, Event::ReadFailed) => seq![Action::Shutdown],
            (_, Event::ForcedShutdown) => seq![Action::Shutdown],
            (_, Event::ShutdownFinished) => Seq::empty(),
        }
    }

    /// The state after the events of `events`, in order.
    pub open spec fn run(self, events: Seq<Event>) -> Phase
        decreases events.len(),
    {
        if events.len() == 0 {
            self
        } else {
            self.run(events.drop_last()).next(events.last())
        }
    }
}

/// The actions of a list as mathematical values.
pub open spec fn actions_of(list: Seq<ConnectionAction>) -> Seq<Action> {
    Seq::new(list.len(), |i: int| list[i]@)
}

/// A closed connection stays closed and asks for nothing.
pub proof fn lemma_closed_is_final(event: Event)
    ensures
        Phase::Closed.next(event) == Phase::Closed,
        Phase::Closed.actions(event) == Seq::<Action>::empty(),
{
}

/// A device, once bound, stays bound for as long as the connection is live,
/// and frames are forwarded under no other id.
pub proof fn lemma_device_is_bound_once(phase: Phase, event: Event)
    requires
        phase.device() is Some,
    ensures
        phase.next(event).is_live() ==> phase.next(event).device() == phase.device(),
        forall|i: int|
            0 <= i < phase.actions(event).len() ==> !(#[trigger] phase.actions(event)[i]
                is BindSession),
        forall|i: int|
            0 <= i < phase.actions(event).len() && (#[trigger] phase.actions(event)[i])
                is Forward ==> phase.actions(event)[i] == Action::Forward(phase.device()->0),
{
}

/// Every read on a live connection refreshes its liveness record, and
/// nothing else does.
pub proof fn lemma_reads_refresh(phase: Phase, event: Event)
    ensures
        phase.actions(event).contains(Action::RefreshLiveness) <==> phase.is_live() && (event
            is Identification || event is Data),
{
    let list = phase.actions(event);
    if phase.is_live() && (event is Identification || event is Data) {
        assert(list[0] == Action::RefreshLiveness);
    }
}

/// A live connection starts closing exactly on a failed read or a forced
/// shutdown, and is then told to shut its socket down.
pub proof fn lemma_closing_starts(phase: Phase, event: Event)
    requires
        phase.is_live(),
    ensures
        phase.next(event) is Closing <==> event is ReadFailed || event is ForcedShutdown,
        phase.next(event) is Closing ==> phase.actions(event) == seq![Action::Shutdown],
        !(phase.next(event) is Closed),
{
}

/// The connection is unregistered and its session cleaned up on the step
/// that closes it, and on no other.
pub proof fn lemma_cleanup_on_close(phase: Phase, event: Event)
    ensures
        (phase.next(event) is Closed && !(phase is Closed)) <==> phase.actions(event) == seq![
            Action::Unregister,
            Action::CleanupSession,
        ],
        phase.actions(event).contains(Action::Unregister) <==> phase.actions(event).contains(
            Action::CleanupSession,
        ),
        phase.actions(event).contains(Action::Unregister) ==> phase is Closing && event
            is ShutdownFinished,
{
    let list = phase.actions(event);
    let both = seq![Action::Unregister, Action::CleanupSession];
    if phase is Closing && event is ShutdownFinished {
        assert(list[0] == Action::Unregister);
        assert(list[1] == Action::CleanupSession);
    } else {
        assert(list.len() > 0 ==> list[0] != both[0]);
        if list.contains(Action::Unregister) {
            let i = list.index_of(Action::Unregister);
        }
        if list.contains(Action::CleanupSession) {
            let i = list.index_of(Action::CleanupSession);
        }
    }
}

/// A connection is closed only after a step that unregistered it: whatever
/// happens to a connection that is not closed, if it ends closed, some
/// event of the run found it closing and finished its shutdown.
pub proof fn lemma_closed_after_cleanup(phase: Phase, events: Seq<Event>)
    requires
        !(phase is Closed),
        phase.run(events) is Closed,
    ensures
        exists|i: int|
            0 <= i < events.len() && #[trigger] phase.run(events.take(i)) is Closing && events[i]
                is ShutdownFinished,
    decreases events.len(),
{
    if events.len() > 0 {
        let earlier = events.drop_last();
        let last = events.len() - 1;
        if phase.run(earlier) is Closed {
            lemma_closed_after_cleanup(phase, earlier);
            let i = choose|i: int|
                0 <= i < earlier.len() && #[trigger] phase.run(earlier.take(i)) is Closing
                    && earlier[i] is ShutdownFinished;
            assert(earlier.take(i) =~= events.take(i));
        } else {
            assert(events.take(last) =~= earlier);
            assert(phase.run(events.take(last)) is Closing);
        }
    }
}

/// The event that a frame read from the socket stands for: an
/// identification if it is `uid:` followed by a device id that is not
/// empty, data otherwise.
pub open spec fn event_of_frame(frame: Seq<char>) -> Event {
    if frame.len() > 4 && frame.take(4) == "uid:"@ {
        Event::Identification(frame.skip(4))
    } else {
        Event::Data
    }
}

/// Tells what a frame read from the socket is.
pub fn frame_event(frame: &str) -> (event: ConnectionEvent)
    ensures
        event@ == event_of_frame(frame@),
{
    let chars = chars_of(frame);
    proof {
        reveal_strlit("uid:");
        if chars@.len() >= 4 {
            assert(chars@.take(4) == "uid:"@ <==> chars@[0] == 'u' && chars@[1] == 'i' && chars@[2]
                == 'd' && chars@[3] == ':') by {
                if chars@[0] == 'u' && chars@[1] == 'i' && chars@[2] == 'd' && chars@[3] == ':' {
                    assert(chars@.take(4) =~= "uid:"@);
                } else {
                    assert(chars@.take(4)[0] == chars@[0] && chars@.take(4)[1] == chars@[1]
                        && chars@.take(4)[2] == chars@[2] && chars@.take(4)[3] == chars@[3]);
                }
            }
        }
    }
    if chars.len() > 4 && chars[0] == 'u' && chars[1] == 'i' && chars[2] == 'd' && chars[3] == ':' {
        let mut device_id = String::new();
        let mut i: usize = 4;
        while i < chars.len()
            invariant
                4 <= i <= chars.len(),
                device_id@ == chars@.subrange(4, i as int),
            decreases chars.len() - i,
        {
            device_id.push(chars[i]);
            proof {
                assert(chars@.subrange(4, i + 1) =~= chars@.subrange(4, i as int).push(
                    chars@[i as int],
                ));
            }
            i += 1;
        }
        proof {
            assert(chars@.subrange(4, i as int) =~= chars@.skip(4));
        }
        ConnectionEvent::Identification { device_id }
    } else {
        ConnectionEvent::Data
    }
}

/// Moves a connection on by one event: returns the state after the event
/// and what the server is to do, in order.
pub fn step(state: ConnectionState, event: ConnectionEvent) -> (out: (
    ConnectionState,
    Vec<ConnectionAction>,
))
    ensures
        out.0@ == state@.next(event@),
        actions_of(out.1@) == state@.actions(event@),
{
    let mut actions: Vec<ConnectionAction> = Vec::new();
    let next = match state {
        ConnectionState::Closed => ConnectionState::Closed,
        ConnectionState::Closing => match event {
            ConnectionEvent::ShutdownFinished => {
                actions.push(ConnectionAction::Unregister);
                actions.push(ConnectionAction::CleanupSession);
                ConnectionState::Closed
            },
            _ => ConnectionState::Closing,
        },
        live => match event {
            ConnectionEvent::ReadFailed | ConnectionEvent::ForcedShutdown => {
                actions.push(ConnectionAction::Shutdown);
                ConnectionState::Closing
            },
            ConnectionEvent::ShutdownFinished => live,
            read => {
                actions.push(ConnectionAction::RefreshLiveness);
                match live {
                    ConnectionState::Identified { device_id } | ConnectionState::Active {
                        device_id,
                    } => {
                        actions.push(ConnectionAction::Forward { device_id: device_id.clone() });
                        ConnectionState::Active { device_id }
                    },
                    _ => match read {
                        ConnectionEvent::Identification { device_id } => {
                            actions.push(
                                ConnectionAction::BindSession { device_id: device_id.clone() },
                            );
                            ConnectionState::Identified { device_id }
                        },
                        _ => ConnectionState::Accepted,
                    },
                }
            },
        },
    };
    proof {
        assert(actions_of(actions@) =~= state@.actions(event@));
    }
    (next, actions)
}

} // verus!
