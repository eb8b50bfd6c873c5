//! One peer's connection, from admission to departure.
//!
//! A session is admitted to a room, relays frames in both directions while it
//! is active, and leaves the room when either direction ends. The decisions
//! are made here; reading and writing the socket is the caller's part, which
//! reports what it read as an [`Incoming`] or a [`Received`] and carries out
//! the [`Action`] that comes back.

use crate::channel::publish;
use crate::json::{json_quoted, quote};
use crate::protocol::{spec_decode, spec_encode, Envelope, EnvelopeView};
use crate::registry::{
    after_join, after_leave, spec_admission, within_capacity, Admission, Registry,
};
use tokio::sync::broadcast::{Receiver, Sender};
use vstd::prelude::*;
use vstd::string::*;

verus! {

/// Where a session stands in its life.
#[derive(Clone, Copy, Debug, PartialEq, Eq, Structural)]
pub enum Phase {
    /// The peer has connected and asks for its room.
    Admitting,
    /// The peer is a member of its room; frames flow both ways.
    Active,
    /// One direction has ended; the peer is being taken out of its room.
    Draining,
    /// The session is over.
    Closed,
}

/// What a read from the peer's socket gave.
#[derive(Clone, Debug, PartialEq, Eq)]
pub enum Incoming {
    /// A text frame.
    Text { text: String },
    /// A binary frame, which is no part of the protocol.
    Binary,
    /// A ping or a pong.
    Control,
    /// A close frame, or the end of the stream.
    Closed,
    /// The read failed.
    Failed,
}

/// What a read from the room's channel gave.
#[derive(Clone, Debug, PartialEq, Eq)]
pub enum Received {
    /// A frame that was published in the room.
    Frame { text: String },
    /// The receiver fell behind and missed this many frames.
    Lagged { missed: u64 },
    /// The channel is closed.
    Closed,
}

/// What happened on a connection.
#[derive(Clone, Debug, PartialEq, Eq)]
pub enum Event {
    /// The registry answered the request for the room.
    Answered { admission: Admission },
    /// A text frame arrived from the peer.
    Frame { text: String },
    /// A frame published in the room arrived from its channel.
    Published { text: String },
    /// Reading from the peer, writing to it, or the room's channel ended.
    Ended,
    /// The peer has been taken out of its room.
    Left,
}

/// What to do next on a connection.
#[derive(Clone, Debug, PartialEq, Eq)]
pub enum Action {
    /// Send the alert of a full room to the peer itself, then close the
    /// connection. Nothing goes to the room.
    Reject,
    /// Subscribe the peer to the room and publish the notice of its
    /// admission there.
    Announce { admission: Admission },
    /// Publish this frame in the room, as it is.
    Relay { frame: String },
    /// Write this frame to the peer, as it is.
    Deliver { frame: String },
    /// Stop both directions and take the peer out of its room.
    Leave,
    /// Nothing.
    Nothing,
}

/// The mathematical value of an [`Incoming`].
pub enum IncomingView {
    Text { text: Seq<char> },
    Binary,
    Control,
    Closed,
    Failed,
}

/// The mathematical value of a [`Received`].
pub enum ReceivedView {
    Frame { text: Seq<char> },
    Lagged { missed: u64 },
    Closed,
}

/// The mathematical value of an [`Event`].
pub enum EventView {
    Answered { admission: Admission },
    Frame { text: Seq<char> },
    Published { text: Seq<char> },
    Ended,
    Left,
}

/// The mathematical value of an [`Action`].
pub enum ActionView {
    Reject,
    Announce { admission: Admission },
    Relay { frame: Seq<char> },
    Deliver { frame: Seq<char> },
    Leave,
    Nothing,
}

impl View for Incoming {
    type V = IncomingView;

    open spec fn view(&self) -> IncomingView {
        match self {
            Incoming::Text { text } => IncomingView::Text { text: text@ },
            Incoming::Binary => IncomingView::Binary,
            Incoming::Control => IncomingView::Control,
            Incoming::Closed => IncomingView::Closed,
            Incoming::Failed => IncomingView::Failed,
        }
    }
}

impl View for Received {
    type V = ReceivedView;

    open spec fn view(&self) -> ReceivedView {
        match self {
            Received::Frame { text } => ReceivedView::Frame { text: text@ },
            Received::Lagged { missed } => ReceivedView::Lagged { missed: *missed },
            Received::Closed => ReceivedView::Closed,
        }
    }
}

impl View for Event {
    type V = EventView;

    open spec fn view(&self) -> EventView {
        match self {
            Event::Answered { admission } => EventView::Answered { admission: *admission },
            Event::Frame { text } => EventView::Frame { text: text@ },
            Event::Published { text } => EventView::Published { text: text@ },
            Event::Ended => EventView::Ended,
            Event::Left => EventView::Left,
        }
    }
}

impl View for Action {
    type V = ActionView;

    open spec fn view(&self) -> ActionView {
        match self {
            Action::Reject => ActionView::Reject,
            Action::Announce { admission } => ActionView::Announce { admission: *admission },
            Action::Relay { frame } => ActionView::Relay { frame: frame@ },
            Action::Deliver { frame } => ActionView::Deliver { frame: frame@ },
            Action::Leave => ActionView::Leave,
            Action::Nothing => ActionView::Nothing,
        }
    }
}

/// The event that a read from the socket stands for: a text frame is a
/// frame, and anything else ends the direction.
pub open spec fn spec_from_socket(incoming: IncomingView) -> EventView {
    match incoming {
        IncomingView::Text { text } => EventView::Frame { text },
        _ => EventView::Ended,
    }
}

/// The event that a read from the room's channel stands for: a frame is
/// published, and a receiver that lagged or a closed channel ends the
/// direction.
pub open spec fn spec_from_channel(received: ReceivedView) -> EventView {
    match received {
        ReceivedView::Frame { text } => EventView::Published { text },
        _ => EventView::Ended,
    }
}

/// Whether a frame from a peer goes on to its room: every frame does that
/// decodes to an envelope other than `Unknown`.
pub open spec fn spec_forwards(text: Seq<char>) -> bool {
    !(spec_decode(text) is Unknown)
}

/// The phase that follows `phase` on `event`, and what is to be done.
///
/// An event that its phase has no use for changes nothing.
pub open spec fn spec_step(phase: Phase, event: EventView) -> (Phase, ActionView) {
    match (phase, event) {
        (Phase::Admitting, EventView::Answered { admission }) => match admission {
            Admission::Full => (Phase::Closed, ActionView::Reject),
            _ => (Phase::Active, ActionView::Announce { admission }),
        },
        (Phase::Active, EventView::Frame { text }) => if spec_forwards(text) {
            (Phase::Active, ActionView::Relay { frame: text })
        } else {
            (Phase::Active, ActionView::Nothing)
        },
        (Phase::Active, EventView::Published { text }) => (
            Phase::Active,
            ActionView::Deliver { frame: text },
        ),
        (Phase::Active, EventView::Ended) => (Phase::Draining, ActionView::Leave),
        (Phase::Draining, EventView::Left) => (Phase::Closed, ActionView::Nothing),
        _ => (phase, ActionView::Nothing),
    }
}

/// How far a phase is along the life of a session.
pub open spec fn spec_rank(phase: Phase) -> nat {
    match phase {
        Phase::Admitting => 0,
        Phase::Active => 1,
        Phase::Draining => 2,
        Phase::Closed => 3,
    }
}

/// How an admission is written in a notice.
pub open spec fn spec_label(admission: Admission) -> Seq<char> {
    match admission {
        Admission::Created => "\"Created\""@,
        Admission::Joined => "\"Joined\""@,
        Admission::Full => "\"Failed\""@,
    }
}

/// The text of a notice: a JSON object that names the peer, the room and how
/// the admission ended.
pub open spec fn spec_detail(peer: Seq<char>, room: Seq<char>, admission: Admission) -> Seq<char> {
    "{\"ip\":"@ + json_quoted(peer) + ",\"room\":"@ + json_quoted(room)
        + ",\"connection_result\":"@ + spec_label(admission) + "}"@
}

/// The notice of an admission: an alert for the peer that was turned away,
/// else a text for the room.
pub open spec fn spec_notice(
    peer: Seq<char>,
    room: Seq<char>,
    admission: Admission,
) -> EnvelopeView {
    match admission {
        Admission::Full => EnvelopeView::Alert { detail: spec_detail(peer, room, admission) },
        _ => EnvelopeView::Text { body: spec_detail(peer, room, admission) },
    }
}

/// A closed session stays closed and does nothing, whatever happens.
pub proof fn lemma_closed_is_terminal(event: EventView)
    ensures
        spec_step(Phase::Closed, event) == (Phase::Closed, ActionView::Nothing),
{
}

/// A session never goes back to an earlier phase.
pub proof fn lemma_phases_advance(phase: Phase, event: EventView)
    ensures
        spec_rank(phase) <= spec_rank(spec_step(phase, event).0),
{
}

/// A frame that one peer's session relays reaches the other peer's session
/// as the very same text: neither session changes a character of it.
pub proof fn lemma_relay_is_verbatim(text: Seq<char>)
    requires
        spec_forwards(text),
    ensures
        spec_step(Phase::Active, spec_from_socket(IncomingView::Text { text })) == (
            Phase::Active,
            ActionView::Relay { frame: text },
        ),
        spec_step(Phase::Active, spec_from_channel(ReceivedView::Frame { text })) == (
            Phase::Active,
            ActionView::Deliver { frame: text },
        ),
{
}

/// A frame goes on to the room only from an active session, only where it
/// decodes to something other than `Unknown`, and only as it came.
pub proof fn lemma_unknown_is_never_relayed(phase: Phase, event: EventView)
    ensures
        spec_step(phase, event).1 matches ActionView::Relay { frame } ==> {
            &&& phase == Phase::Active
            &&& event == EventView::Frame { text: frame }
            &&& !(spec_decode(frame) is Unknown)
        },
{
}

/// A peer is taken out of its room only when an active session ends; only a
/// peer that was admitted is announced; and a peer is turned away only from
/// a full room, with its session closed at once.
pub proof fn lemma_membership_follows_phase(phase: Phase, event: EventView)
    ensures
        spec_step(phase, event).1 is Leave ==> phase == Phase::Active && event
            == EventView::Ended,
        spec_step(phase, event).1 is Announce ==> phase == Phase::Admitting && (event
            == (EventView::Answered { admission: Admission::Created }) || event
            == (EventView::Answered { admission: Admission::Joined })),
        spec_step(phase, event).1 is Reject ==> phase == Phase::Admitting && event
            == (EventView::Answered { admission: Admission::Full }) && spec_step(phase, event).0
            == Phase::Closed,
{
}

/// An active session stays active on a text frame and on a published frame,
/// and on nothing else that a read can give.
pub proof fn lemma_reads_that_end(incoming: IncomingView, received: ReceivedView)
    ensures
        spec_step(Phase::Active, spec_from_socket(incoming)).0 == if incoming is Text {
            Phase::Active
        } else {
            Phase::Draining
        },
        spec_step(Phase::Active, spec_from_channel(received)).0 == if received is Frame {
            Phase::Active
        } else {
            Phase::Draining
        },
{
}

/// Writes an admission as a notice spells it.
fn label(admission: Admission) -> (text: &'static str)
    ensures
        text@ == spec_label(admission),
{
    match admission {
        Admission::Created => "\"Created\"",
        Admission::Joined => "\"Joined\"",
        Admission::Full => "\"Failed\"",
    }
}

/// Writes the notice of an admission.
pub fn notice(peer_id: &str, room_id: &str, admission: Admission) -> (envelope: Envelope)
    ensures
        envelope@ == spec_notice(peer_id@, room_id@, admission),
{
    let mut detail = String::from_str("{\"ip\":");
    detail.append(quote(peer_id).as_str());
    detail.append(",\"room\":");
    detail.append(quote(room_id).as_str());
    detail.append(",\"connection_result\":");
    detail.append(label(admission));
    detail.append("}");
    match admission {
        Admission::Full => Envelope::Alert { detail },
        _ => Envelope::Text { body: detail },
    }
}

/// Turns what a read from the socket gave into an event.
pub fn from_socket(incoming: Incoming) -> (event: Event)
    ensures
        event@ == spec_from_socket(incoming@),
{
    match incoming {
        Incoming::Text { text } => Event::Frame { text },
        _ => Event::Ended,
    }
}

/// Turns what a read from the room's channel gave into an event.
pub fn from_channel(received: Received) -> (event: Event)
    ensures
        event@ == spec_from_channel(received@),
{
    match received {
        Received::Frame { text } => Event::Published { text },
        _ => Event::Ended,
    }
}

/// Hands a frame from a peer back, unchanged, where it is to go on to the
/// room, and holds it back where it decodes to `Unknown`.
pub fn screen(frame: String) -> (passed: Option<String>)
    ensures
        match passed {
            Some(text) => spec_forwards(frame@) && text@ == frame@,
            None => !spec_forwards(frame@),
        },
{
    match Envelope::decode(frame.as_str()) {
        Envelope::Unknown => None,
        _ => Some(frame),
    }
}

/// Decides what a session in `phase` does on `event`, and which phase it is
/// in afterwards.
pub fn step(phase: Phase, event: Event) -> (next: (Phase, Action))
    ensures
        next.0 == spec_step(phase, event@).0,
        next.1@ == spec_step(phase, event@).1,
{
    match phase {
        Phase::Admitting => match event {
            Event::Answered { admission } => match admission {
                Admission::Full => (Phase::Closed, Action::Reject),
                _ => (Phase::Active, Action::Announce { admission }),
            },
            _ => (phase, Action::Nothing),
        },
        Phase::Active => match event {
            Event::Frame { text } => match screen(text) {
                Some(frame) => (Phase::Active, Action::Relay { frame }),
                None => (Phase::Active, Action::Nothing),
            },
            Event::Published { text } => (Phase::Active, Action::Deliver { frame: text }),
            Event::Ended => (Phase::Draining, Action::Leave),
            _ => (phase, Action::Nothing),
        },
        Phase::Draining => match event {
            Event::Left => (Phase::Closed, Action::Nothing),
            _ => (phase, Action::Nothing),
        },
        Phase::Closed => (phase, Action::Nothing),
    }
}

/// Takes one read from the socket of an active session through its step:
/// a frame that is to go on is published in the room through `sender`.
/// Returns the phase afterwards, which is `Active` exactly where the read
/// gave a text frame, and whether that frame went on to the room.
pub fn relay(sender: &Sender<String>, incoming: Incoming) -> (done: (Phase, bool))
    ensures
        done.0 == spec_step(Phase::Active, spec_from_socket(incoming@)).0,
        done.1 == (spec_step(Phase::Active, spec_from_socket(incoming@)).1 is Relay),
{
    let (next, action) = step(Phase::Active, from_socket(incoming));
    match action {
        Action::Relay { frame } => {
            publish(sender, frame);
            (next, true)
        },
        _ => (next, false),
    }
}

/// What a peer is handed when it asks for its room.
pub enum Entry {
    /// The peer is a member: its handle for publishing in the room, and its
    /// receiver for what is published there.
    Admitted { admission: Admission, sender: Sender<String>, receiver: Receiver<String> },
    /// The room is full: the frame to send to the peer before closing.
    Rejected { alert: String },
}

/// The session of one peer in one room.
pub struct Session {
    phase: Phase,
    room_id: String,
    peer_id: String,
}

/// The mathematical value of a [`Session`].
pub struct SessionView {
    pub phase: Phase,
    pub room: Seq<char>,
    pub peer: Seq<char>,
}

impl View for Session {
    type V = SessionView;

    closed spec fn view(&self) -> SessionView {
        SessionView { phase: self.phase, room: self.room_id@, peer: self.peer_id@ }
    }
}

impl Session {
    /// Asks `registry` to admit `peer_id` to `room_id`.
    ///
    /// A peer that is admitted subscribes to the room and is then announced
    /// there, so that its notice reaches everyone in the room, itself
    /// included; its session is active. A peer that is turned away is handed
    /// the alert to be sent to it alone; its session is closed and the room
    /// is as it was.
    pub fn open(registry: &mut Registry, room_id: String, peer_id: String) -> (opened: (
        Session,
        Entry,
    ))
        ensures
            final(registry)@ == after_join(old(registry)@, room_id@, peer_id@),
            within_capacity(final(registry)@),
            opened.0@.room == room_id@,
            opened.0@.peer == peer_id@,
            match opened.1 {
                Entry::Admitted { admission, .. } => {
                    &&& admission == spec_admission(old(registry)@, room_id@)
                    &&& admission != Admission::Full
                    &&& opened.0@.phase == Phase::Active
                },
                Entry::Rejected { alert } => {
                    &&& spec_admission(old(registry)@, room_id@) == Admission::Full
                    &&& opened.0@.phase == Phase::Closed
                    &&& alert@ == spec_encode(spec_notice(peer_id@, room_id@, Admission::Full))
                },
            },
    {
        let admission = registry.join_or_create(room_id.as_str(), peer_id.as_str());
        let (phase, action) = step(Phase::Admitting, Event::Answered { admission });
        if let Action::Announce { admission } = action {
            // The room exists now, so both handles are there.
            let sender = registry.sender(room_id.as_str());
            let receiver = registry.subscribe(room_id.as_str());
            if let (Some(sender), Some(receiver)) = (sender, receiver) {
                let announcement = notice(peer_id.as_str(), room_id.as_str(), admission);
                registry.broadcast(room_id.as_str(), &announcement);
                return (
                    Session { phase, room_id, peer_id },
                    Entry::Admitted { admission, sender, receiver },
                );
            }
        }
        let alert = notice(peer_id.as_str(), room_id.as_str(), Admission::Full).encode();
        (Session { phase, room_id, peer_id }, Entry::Rejected { alert })
    }

    /// Where the session stands.
    pub fn phase(&self) -> (phase: Phase)
        ensures
            phase == self@.phase,
    {
        self.phase
    }

    /// The room of the session.
    pub fn room_id(&self) -> (room_id: &str)
        ensures
            room_id@ == self@.room,
    {
        self.room_id.as_str()
    }

    /// The peer of the session.
    pub fn peer_id(&self) -> (peer_id: &str)
        ensures
            peer_id@ == self@.peer,
    {
        self.peer_id.as_str()
    }

    /// Ends the session. An active session takes its peer out of the room
    /// first; a session that is over already leaves the registry alone.
    pub fn close(&mut self, registry: &mut Registry)
        ensures
            final(self)@ == (SessionView { phase: Phase::Closed, ..old(self)@ }),
            final(registry)@ == if old(self)@.phase == Phase::Active {
                after_leave(old(registry)@, old(self)@.room, old(self)@.peer)
            } else {
                old(registry)@
            },
            old(self)@.phase == Phase::Active ==> within_capacity(final(registry)@),
    {
        let (draining, action) = step(self.phase, Event::Ended);
        if let Action::Leave = action {
            registry.leave(self.room_id.as_str(), self.peer_id.as_str());
            let (closed, _) = step(draining, Event::Left);
            self.phase = closed;
        } else {
            self.phase = Phase::Closed;
        }
    }
}

} // verus!
