//! The chat server's shared room and the per-connection session logic.
//!
//! A connection first sends a nickname line; once a non-blank nickname has
//! arrived the client is registered in the room and every later non-blank
//! line is broadcast to all other clients. When the connection ends the
//! client is removed and a departure notice is broadcast.

use std::collections::HashMap;
use vstd::prelude::*;
use crate::text::{push_decimal, spec_decimal, spec_trim, trim};

verus! {

broadcast use vstd::std_specs::hash::group_hash_axioms;

/// A message travelling through the broadcast channel.
#[derive(Clone, Debug)]
pub struct ChatMessage {
    /// Nickname of the author, or `SERVER` for notices.
    pub from: String,
    /// Connection the message came from; it is never echoed back there.
    pub sender: u64,
    pub body: String,
    /// `HH:MM:SS` time stamp.
    pub timestamp: String,
}

/// The mathematical content of a [`ChatMessage`].
pub struct ChatMessageView {
    pub from: Seq<char>,
    pub sender: u64,
    pub body: Seq<char>,
    pub timestamp: Seq<char>,
}

impl View for ChatMessage {
    type V = ChatMessageView;

    open spec fn view(&self) -> ChatMessageView {
        ChatMessageView {
            from: self.from@,
            sender: self.sender,
            body: self.body@,
            timestamp: self.timestamp@,
        }
    }
}

/// Name under which the server signs arrival and departure notices.
pub open spec fn server_name() -> Seq<char> {
    "SERVER"@
}

/// Body of the notice that `nick` joined, leaving `count` clients online.
pub open spec fn join_body(nick: Seq<char>, count: nat) -> Seq<char> {
    "["@ + nick + "] 입장 (현재 "@ + spec_decimal(count) + "명)"@
}

/// Body of the notice that `nick` left, leaving `count` clients online.
pub open spec fn leave_body(nick: Seq<char>, count: nat) -> Seq<char> {
    "["@ + nick + "] 퇴장 (현재 "@ + spec_decimal(count) + "명)"@
}

/// The line written to a client's socket for a message:
/// `[timestamp] from: body` and a line feed.
pub open spec fn delivery_text(m: ChatMessageView) -> Seq<char> {
    "["@ + m.timestamp + "] "@ + m.from + ": "@ + m.body + "\n"@
}

fn notice_body(nick: &str, joined: bool, count: usize) -> (b: String)
    ensures
        b@ == if joined {
            join_body(nick@, count as nat)
        } else {
            leave_body(nick@, count as nat)
        },
{
    let mut b = String::from_str("[");
    b.append(nick);
    if joined {
        b.append("] 입장 (현재 ");
    } else {
        b.append("] 퇴장 (현재 ");
    }
    push_decimal(&mut b, count as u64);
    b.append("명)");
    b
}

/// The registry of clients currently in the room, and the number of chat
/// lines posted so far.
pub struct ChatRoom {
    members: HashMap<u64, String>,
    posted: usize,
}

impl ChatRoom {
    /// Nicknames of the registered clients, by connection.
    pub closed spec fn members(&self) -> Map<u64, Seq<char>> {
        self.members@.map_values(|s: String| s@)
    }

    /// Number of chat lines broadcast so far (wrapping, as an atomic
    /// counter does).
    pub closed spec fn posted(&self) -> nat {
        self.posted as nat
    }

    /// An empty room.
    pub fn new() -> (r: ChatRoom)
        ensures
            r.members() == Map::<u64, Seq<char>>::empty(),
            r.posted() == 0,
    {
        let r = ChatRoom { members: HashMap::new(), posted: 0 };
        assert(r.members() =~= Map::<u64, Seq<char>>::empty());
        r
    }

    /// Number of clients online.
    pub fn online(&self) -> (n: usize)
        ensures
            n == self.members().len(),
    {
        proof {
            assert(self.members().dom() =~= self.members@.dom());
        }
        self.members.len()
    }

    /// Number of chat lines broadcast so far.
    pub fn posted_count(&self) -> (n: usize)
        ensures
            n == self.posted(),
    {
        self.posted
    }

    /// Whether connection `id` is registered.
    pub fn is_member(&self, id: u64) -> (b: bool)
        ensures
            b == self.members().contains_key(id),
    {
        self.members.contains_key(&id)
    }

    /// Registers connection `id` under `nick` and returns the arrival
    /// notice, which counts the clients online afterwards.
    pub fn join(&mut self, id: u64, nick: String, stamp: String) -> (m: ChatMessage)
        ensures
            final(self).members() == old(self).members().insert(id, nick@),
            final(self).posted() == old(self).posted(),
            m@ == (ChatMessageView {
                from: server_name(),
                sender: id,
                body: join_body(nick@, final(self).members().len()),
                timestamp: stamp@,
            }),
    {
        let ghost nv = nick@;
        let body_nick = nick.clone();
        self.members.insert(id, nick);
        proof {
            assert(self.members() =~= old(self).members().insert(id, nv));
        }
        let count = self.online();
        let body = notice_body(body_nick.as_str(), true, count);
        ChatMessage { from: String::from_str("SERVER"), sender: id, body, timestamp: stamp }
    }

    /// Removes connection `id` and returns the departure notice, which
    /// counts the clients online afterwards.
    pub fn leave(&mut self, id: u64, nick: &str, stamp: String) -> (m: ChatMessage)
        ensures
            final(self).members() == old(self).members().remove(id),
            final(self).posted() == old(self).posted(),
            m@ == (ChatMessageView {
                from: server_name(),
                sender: id,
                body: leave_body(nick@, final(self).members().len()),
                timestamp: stamp@,
            }),
    {
        self.members.remove(&id);
        proof {
            assert(self.members() =~= old(self).members().remove(id));
        }
        let count = self.online();
        let body = notice_body(nick, false, count);
        ChatMessage { from: String::from_str("SERVER"), sender: id, body, timestamp: stamp }
    }

    /// Handles one line typed by connection `id` (nicknamed `nick`): a line
    /// that is blank once trimmed is dropped; any other is counted and
    /// returned, trimmed, as a message to broadcast.
    pub fn post(&mut self, id: u64, nick: &str, line: &str, stamp: String) -> (m: Option<
        ChatMessage,
    >)
        ensures
            final(self).members() == old(self).members(),
            spec_trim(line@).len() == 0 ==> m is None && final(self).posted() == old(self).posted(),
            spec_trim(line@).len() != 0 ==> {
                &&& m matches Some(msg) && msg@ == (ChatMessageView {
                    from: nick@,
                    sender: id,
                    body: spec_trim(line@),
                    timestamp: stamp@,
                })
                &&& final(self).posted() == if old(self).posted() < usize::MAX {
                    old(self).posted() + 1
                } else {
                    0
                }
            },
    {
        let body = trim(line);
        if body.as_str().unicode_len() == 0 {
            return None;
        }
        self.posted = self.posted.wrapping_add(1);
        Some(ChatMessage { from: String::from_str(nick), sender: id, body, timestamp: stamp })
    }
}

/// The online count that the notices report moves by one: a client that
/// arrives adds one to it, and when that client departs again the registry
/// is exactly as it was before the arrival, count included.
pub proof fn lemma_arrival_then_departure(room: &ChatRoom, id: u64, nick: Seq<char>)
    requires
        !room.members().contains_key(id),
    ensures
        room.members().insert(id, nick).len() == room.members().len() + 1,
        room.members().insert(id, nick).remove(id) == room.members(),
{
    assert(room.members().dom() =~= room.members@.dom());
    assert(room.members().insert(id, nick).dom() =~= room.members().dom().insert(id));
    assert(room.members().insert(id, nick).remove(id) =~= room.members());
}

/// A session's step touches only its own entry of the registry: any other
/// connection's session that agreed with the room before agrees with it
/// afterwards.
pub proof fn lemma_other_sessions_unaffected(
    before: Map<u64, Seq<char>>,
    after: Map<u64, Seq<char>>,
    id: u64,
    other: u64,
    phase: PhaseView,
)
    requires
        after.remove(id) == before.remove(id),
        other != id,
        agrees(before, other, phase),
    ensures
        agrees(after, other, phase),
{
    assert(after.remove(id).contains_key(other) == after.contains_key(other));
    assert(before.remove(id).contains_key(other) == before.contains_key(other));
    if after.contains_key(other) {
        assert(after.remove(id)[other] == after[other]);
        assert(before.remove(id)[other] == before[other]);
    }
}

/// What a client's writer task takes from the broadcast channel.
pub enum Incoming {
    /// A message that was broadcast.
    Message(ChatMessage),
    /// The receiver fell behind and this many messages were skipped.
    Lagged(u64),
    /// The channel is closed.
    Closed,
}

/// What a client's writer task does next.
pub enum Delivery {
    /// Write this line to the client's socket.
    Write(String),
    /// The client's own message: it is not echoed back.
    Skip,
    /// Report that this many messages were skipped, and go on.
    ReportLag(u64),
    /// Stop the writer.
    Stop,
}

/// Decides what the writer task of connection `me` does with what it took
/// from the broadcast channel.
pub fn deliver(incoming: Incoming, me: u64) -> (d: Delivery)
    ensures
        match incoming {
            Incoming::Message(m) => if m.sender == me {
                d is Skip
            } else {
                d matches Delivery::Write(line) && line@ == delivery_text(m@)
            },
            Incoming::Lagged(n) => d == Delivery::ReportLag(n),
            Incoming::Closed => d is Stop,
        },
{
    match incoming {
        Incoming::Message(m) => {
            if m.sender == me {
                Delivery::Skip
            } else {
                let mut line = String::from_str("[");
                line.append(m.timestamp.as_str());
                line.append("] ");
                line.append(m.from.as_str());
                line.append(": ");
                line.append(m.body.as_str());
                line.append("\n");
                Delivery::Write(line)
            }
        },
        Incoming::Lagged(n) => Delivery::ReportLag(n),
        Incoming::Closed => Delivery::Stop,
    }
}

/// What reading one line from a client's socket gave.
pub enum ReadOutcome {
    /// A line (with its line ending, if any).
    Line(String),
    /// The peer closed the connection.
    Eof,
    /// Reading failed.
    Failed,
}

/// Where a connection stands.
pub enum Phase {
    /// Connected; the nickname line has not arrived yet.
    AwaitingNick,
    /// Registered in the room under this nickname.
    Chatting(String),
    /// The connection is over.
    Finished,
}

/// The mathematical content of a [`Phase`].
pub enum PhaseView {
    AwaitingNick,
    Chatting(Seq<char>),
    Finished,
}

impl View for Phase {
    type V = PhaseView;

    open spec fn view(&self) -> PhaseView {
        match self {
            Phase::AwaitingNick => PhaseView::AwaitingNick,
            Phase::Chatting(n) => PhaseView::Chatting(n@),
            Phase::Finished => PhaseView::Finished,
        }
    }
}

/// What the connection handler does after a read.
pub enum SessionAction {
    /// The client has joined: broadcast this arrival notice, start the
    /// client's writer task, and keep reading.
    Arrive(ChatMessage),
    /// Broadcast this message and keep reading.
    Broadcast(ChatMessage),
    /// Nothing to send; keep reading.
    Ignore,
    /// Broadcast this departure notice, stop the writer task and end.
    Depart(ChatMessage),
    /// End the connection without any notice.
    Close,
}

/// The server side of one client connection.
pub struct Session {
    id: u64,
    phase: Phase,
}

/// A session's phase agrees with the room's registry: the connection is
/// registered, under its nickname, exactly while it is chatting.
pub open spec fn agrees(members: Map<u64, Seq<char>>, id: u64, phase: PhaseView) -> bool {
    match phase {
        PhaseView::Chatting(nick) => members.contains_key(id) && members[id] == nick,
        _ => !members.contains_key(id),
    }
}

impl Session {
    /// The connection this session serves.
    pub closed spec fn id(&self) -> u64 {
        self.id
    }

    /// Where the session stands.
    pub closed spec fn phase(&self) -> PhaseView {
        self.phase@
    }

    /// A session for a newly accepted connection `id`, waiting for its
    /// nickname.
    pub fn new(id: u64) -> (s: Session)
        ensures
            s.id() == id,
            s.phase() == PhaseView::AwaitingNick,
    {
        Session { id, phase: Phase::AwaitingNick }
    }

    /// The connection this session serves.
    pub fn connection(&self) -> (id: u64)
        ensures
            id == self.id(),
    {
        self.id
    }

    /// Whether the client is registered and chatting.
    pub fn is_chatting(&self) -> (b: bool)
        ensures
            b == (self.phase() is Chatting),
    {
        match self.phase {
            Phase::Chatting(_) => true,
            _ => false,
        }
    }

    /// Whether the connection is over.
    pub fn is_finished(&self) -> (b: bool)
        ensures
            b == (self.phase() is Finished),
    {
        match self.phase {
            Phase::Finished => true,
            _ => false,
        }
    }

    /// Takes the outcome of one read from the socket and decides what
    /// happens: the first line names the client (a blank name, or no line,
    /// ends the connection unregistered); later lines are posted; the end of
    /// the input removes the client and announces the departure. `stamp` is
    /// the time stamp for any message this produces.
    pub fn step(&mut self, room: &mut ChatRoom, event: ReadOutcome, stamp: String) -> (a:
        SessionAction)
        ensures
            final(self).id() == old(self).id(),
            agrees(old(room).members(), old(self).id(), old(self).phase()) ==> agrees(
                final(room).members(),
                final(self).id(),
                final(self).phase(),
            ),
            final(room).members().remove(old(self).id()) == old(room).members().remove(
                old(self).id(),
            ),
            (room_state(&*final(room)), final(self).phase()) == session_next(
                room_state(&*old(room)),
                old(self).id(),
                old(self).phase(),
                event@,
            ),
            match (old(self).phase(), event) {
                (PhaseView::AwaitingNick, ReadOutcome::Line(l)) => if spec_trim(l@).len() == 0 {
                    &&& a is Close
                    &&& final(self).phase() is Finished
                    &&& final(room).members() == old(room).members()
                    &&& final(room).posted() == old(room).posted()
                } else {
                    &&& final(self).phase() == PhaseView::Chatting(spec_trim(l@))
                    &&& final(room).members() == old(room).members().insert(old(self).id(), spec_trim(l@))
                    &&& final(room).posted() == old(room).posted()
                    &&& a matches SessionAction::Arrive(m) && m@ == (ChatMessageView {
                        from: server_name(),
                        sender: old(self).id(),
                        body: join_body(spec_trim(l@), final(room).members().len()),
                        timestamp: stamp@,
                    })
                },
                (PhaseView::AwaitingNick, _) => {
                    &&& a is Close
                    &&& final(self).phase() is Finished
                    &&& final(room).members() == old(room).members()
                    &&& final(room).posted() == old(room).posted()
                },
                (PhaseView::Chatting(nick), ReadOutcome::Line(l)) => {
                    &&& final(self).phase() == old(self).phase()
                    &&& final(room).members() == old(room).members()
                    &&& if spec_trim(l@).len() == 0 {
                        a is Ignore && final(room).posted() == old(room).posted()
                    } else {
                        &&& a matches SessionAction::Broadcast(m) && m@ == (ChatMessageView {
                            from: nick,
                            sender: old(self).id(),
                            body: spec_trim(l@),
                            timestamp: stamp@,
                        })
                        &&& final(room).posted() == if old(room).posted() < usize::MAX {
                            old(room).posted() + 1
                        } else {
                            0
                        }
                    }
                },
                (PhaseView::Chatting(nick), _) => {
                    &&& final(self).phase() is Finished
                    &&& final(room).members() == old(room).members().remove(old(self).id())
                    &&& final(room).posted() == old(room).posted()
                    &&& a matches SessionAction::Depart(m) && m@ == (ChatMessageView {
                        from: server_name(),
                        sender: old(self).id(),
                        body: leave_body(nick, final(room).members().len()),
                        timestamp: stamp@,
                    })
                },
                (PhaseView::Finished, _) => {
                    &&& a is Close
                    &&& final(self).phase() is Finished
                    &&& final(room).members() == old(room).members()
                    &&& final(room).posted() == old(room).posted()
                },
            },
    {
        let id = self.id;
        match self.phase {
            Phase::AwaitingNick => match event {
                ReadOutcome::Line(l) => {
                    let nick = trim(l.as_str());
                    if nick.as_str().unicode_len() == 0 {
                        self.phase = Phase::Finished;
                        SessionAction::Close
                    } else {
                        let kept = nick.clone();
                        let m = room.join(id, nick, stamp);
                        self.phase = Phase::Chatting(kept);
                        proof {
                            assert(room.members().remove(id) =~= old(room).members().remove(id));
                        }
                        SessionAction::Arrive(m)
                    }
                },
                _ => {
                    self.phase = Phase::Finished;
                    SessionAction::Close
                },
            },
            Phase::Chatting(ref nick) => match event {
                ReadOutcome::Line(l) => match room.post(id, nick.as_str(), l.as_str(), stamp) {
                    Some(m) => SessionAction::Broadcast(m),
                    None => SessionAction::Ignore,
                },
                _ => {
                    let m = room.leave(id, nick.as_str(), stamp);
                    proof {
                        assert(room.members().remove(id) =~= old(room).members().remove(id));
                    }
                    self.phase = Phase::Finished;
                    SessionAction::Depart(m)
                },
            },
            Phase::Finished => SessionAction::Close,
        }
    }
}

/// The mathematical content of a [`ReadOutcome`].
pub enum ReadEvent {
    Line(Seq<char>),
    Eof,
    Failed,
}

impl View for ReadOutcome {
    type V = ReadEvent;

    open spec fn view(&self) -> ReadEvent {
        match self {
            ReadOutcome::Line(l) => ReadEvent::Line(l@),
            ReadOutcome::Eof => ReadEvent::Eof,
            ReadOutcome::Failed => ReadEvent::Failed,
        }
    }
}

/// What the room holds: nicknames by connection, and lines posted.
pub struct RoomState {
    pub members: Map<u64, Seq<char>>,
    pub posted: nat,
}

/// The state of `room` as a mathematical value.
pub open spec fn room_state(room: &ChatRoom) -> RoomState {
    RoomState { members: room.members(), posted: room.posted() }
}

/// `n` reduced as a `usize` counter wraps it.
pub open spec fn wrapped(n: nat) -> nat {
    (n as int % (usize::MAX as int + 1)) as nat
}

/// The posted-line counter after one more line (it wraps like a `usize`).
pub open spec fn next_posted(p: nat) -> nat {
    if p < usize::MAX {
        p + 1
    } else {
        0
    }
}

/// The room and the session's phase after connection `id`, at `phase`,
/// reads `ev` (what [`Session::step`] does to them).
pub open spec fn session_next(r: RoomState, id: u64, phase: PhaseView, ev: ReadEvent) -> (
    RoomState,
    PhaseView,
) {
    match (phase, ev) {
        (PhaseView::AwaitingNick, ReadEvent::Line(l)) => if spec_trim(l).len() == 0 {
            (r, PhaseView::Finished)
        } else {
            (
                RoomState { members: r.members.insert(id, spec_trim(l)), ..r },
                PhaseView::Chatting(spec_trim(l)),
            )
        },
        (PhaseView::AwaitingNick, _) => (r, PhaseView::Finished),
        (PhaseView::Chatting(n), ReadEvent::Line(l)) => if spec_trim(l).len() == 0 {
            (r, phase)
        } else {
            (RoomState { posted: next_posted(r.posted), ..r }, phase)
        },
        (PhaseView::Chatting(n), _) => (
            RoomState { members: r.members.remove(id), ..r },
            PhaseView::Finished,
        ),
        (PhaseView::Finished, _) => (r, PhaseView::Finished),
    }
}

/// The phase of connection `id` among `phases`; a connection not seen yet
/// is waiting for its nickname.
pub open spec fn phase_of(phases: Map<u64, PhaseView>, id: u64) -> PhaseView {
    if phases.contains_key(id) {
        phases[id]
    } else {
        PhaseView::AwaitingNick
    }
}

/// The room and the phases of all connections after the reads `events`,
/// each the connection it came from and what was read, handled in order
/// (any interleaving of the connections' reads).
pub open spec fn run_room(r: RoomState, phases: Map<u64, PhaseView>, events: Seq<(u64, ReadEvent)>) -> (
    RoomState,
    Map<u64, PhaseView>,
)
    decreases events.len(),
{
    if events.len() == 0 {
        (r, phases)
    } else {
        let (r1, p1) = run_room(r, phases, events.drop_last());
        let (id, ev) = events.last();
        let (r2, ph) = session_next(r1, id, phase_of(p1, id), ev);
        (r2, p1.insert(id, ph))
    }
}

/// Whether reading `ev` at `phase` posts a chat line.
pub open spec fn is_chat_line(phase: PhaseView, ev: ReadEvent) -> bool {
    &&& phase is Chatting
    &&& ev matches ReadEvent::Line(l) && spec_trim(l).len() != 0
}

/// How many of `events` were chat lines posted by a chatting client.
pub open spec fn chat_lines(r: RoomState, phases: Map<u64, PhaseView>, events: Seq<(u64, ReadEvent)>) -> nat
    decreases events.len(),
{
    if events.len() == 0 {
        0
    } else {
        let p1 = run_room(r, phases, events.drop_last()).1;
        let (id, ev) = events.last();
        chat_lines(r, phases, events.drop_last()) + if is_chat_line(phase_of(p1, id), ev) {
            1nat
        } else {
            0nat
        }
    }
}

/// The connections that are chatting.
pub open spec fn chatting(phases: Map<u64, PhaseView>) -> Set<u64> {
    Set::new(|id: u64| phase_of(phases, id) is Chatting)
}

/// Every connection agrees with the room's registry.
pub open spec fn all_agree(r: RoomState, phases: Map<u64, PhaseView>) -> bool {
    forall|id: u64| #[trigger] agrees(r.members, id, phase_of(phases, id))
}

proof fn lemma_one_read(r: RoomState, phases: Map<u64, PhaseView>, id: u64, ev: ReadEvent)
    requires
        all_agree(r, phases),
        r.posted <= usize::MAX,
    ensures
        ({
            let (r2, ph) = session_next(r, id, phase_of(phases, id), ev);
            &&& all_agree(r2, phases.insert(id, ph))
            &&& r2.posted <= usize::MAX
            &&& r2.posted == if is_chat_line(phase_of(phases, id), ev) {
                next_posted(r.posted)
            } else {
                r.posted
            }
        }),
{
    let (r2, ph) = session_next(r, id, phase_of(phases, id), ev);
    let p2 = phases.insert(id, ph);
    assert(agrees(r.members, id, phase_of(phases, id)));
    assert forall|o: u64| #[trigger] agrees(r2.members, o, phase_of(p2, o)) by {
        if o != id {
            assert(agrees(r.members, o, phase_of(phases, o)));
            assert(phase_of(p2, o) == phase_of(phases, o));
            assert(r2.members.remove(id) =~= r.members.remove(id));
            lemma_other_sessions_unaffected(r.members, r2.members, id, o, phase_of(phases, o));
        } else {
            assert(phase_of(p2, o) == ph);
        }
    }
}

/// Over any interleaving of reads on any connections, starting from an
/// empty room: the registry holds exactly the connections that are
/// chatting, each under its nickname, so the online count reported in the
/// notices is the number of clients that have joined and not yet left;
/// and the posted-line counter is the number of chat lines posted, as a
/// wrapping `usize` counter gives it.
pub proof fn lemma_room_tracks_sessions(events: Seq<(u64, ReadEvent)>)
    ensures
        ({
            let empty = RoomState { members: Map::empty(), posted: 0 };
            let (r, p) = run_room(empty, Map::empty(), events);
            &&& r.members.dom() == chatting(p)
            &&& r.members.len() == chatting(p).len()
            &&& (forall|id: u64|
                #[trigger] phase_of(p, id) is Chatting ==> r.members[id] == phase_of(p, id)->0)
            &&& r.posted == wrapped(chat_lines(empty, Map::empty(), events))
        }),
{
    let empty = RoomState { members: Map::empty(), posted: 0 };
    lemma_run_keeps_agreement(empty, Map::empty(), events);
    let (r, p) = run_room(empty, Map::empty(), events);
    assert forall|id: u64| r.members.dom().contains(id) == chatting(p).contains(id) by {
        assert(agrees(r.members, id, phase_of(p, id)));
    }
    assert(r.members.dom() =~= chatting(p));
    assert forall|id: u64| #[trigger] phase_of(p, id) is Chatting implies r.members[id] == phase_of(
        p,
        id,
    )->0 by {
        assert(agrees(r.members, id, phase_of(p, id)));
    }
}

proof fn lemma_run_keeps_agreement(r: RoomState, phases: Map<u64, PhaseView>, events: Seq<(u64, ReadEvent)>)
    requires
        all_agree(r, phases),
        r.posted <= usize::MAX,
    ensures
        all_agree(run_room(r, phases, events).0, run_room(r, phases, events).1),
        run_room(r, phases, events).0.posted <= usize::MAX,
        run_room(r, phases, events).0.posted == wrapped(r.posted + chat_lines(r, phases, events)),
    decreases events.len(),
{
    if events.len() == 0 {
        assert(wrapped(r.posted) == r.posted) by {
            vstd::arithmetic::div_mod::lemma_small_mod(r.posted, (usize::MAX + 1) as nat);
        }
    } else {
        lemma_run_keeps_agreement(r, phases, events.drop_last());
        let (r1, p1) = run_room(r, phases, events.drop_last());
        let (id, ev) = events.last();
        lemma_one_read(r1, p1, id, ev);
        let c0 = chat_lines(r, phases, events.drop_last());
        let m: int = usize::MAX + 1;
        if is_chat_line(phase_of(p1, id), ev) {
            assert(r1.posted == wrapped(r.posted + c0));
            vstd::arithmetic::div_mod::lemma_add_mod_noop((r.posted + c0) as int, 1, m);
            vstd::arithmetic::div_mod::lemma_small_mod(1, m as nat);
            if r1.posted < usize::MAX {
                vstd::arithmetic::div_mod::lemma_small_mod((r1.posted + 1) as nat, m as nat);
            } else {
                vstd::arithmetic::div_mod::lemma_mod_self_0(m);
            }
        }
    }
}

} // verus!
