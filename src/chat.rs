//! The chat's shared state and what each request and frame does to it.
//!
//! All live state sits in one [`Chat`]: the message log, the session
//! bindings, and the two buses that fan events and keystrokes out. Every
//! binding points to a message that exists, so a keystroke that is accepted
//! always lands in the store. Each bus keeps, as its view, the sequence of
//! everything published on it, and every operation says what it adds there.
use vstd::prelude::*;
use vstd::utf8::encode_utf8;

use crate::bus::{Bus, EventBus, KeyBus, BUS_CAPACITY};
use crate::frame::{decode_inbound, encode_outbound, inbound_key, outbound_frame, FrameFault};
use crate::message::{Event, Keystroke, Message, MessageModel};
use crate::sessions::{SessionId, SessionMap};
use crate::store::{
    appended, char_pushed, ids_dense, lemma_utf8_push, max_messages, MessageStore, StoreError,
};

verus! {

/// Why a request was refused.
#[derive(Clone, Copy, Debug, PartialEq, Eq, Structural)]
pub enum ApiError {
    /// The request carries no session, and it needs one.
    SessionRequired,
    /// The next message id would not fit in 32 bits.
    CapacityExceeded,
    /// The messages could not be reached without waiting; the client may retry.
    MessagesBusy,
}

impl ApiError {
    /// The HTTP status code that reports this error.
    pub fn status(&self) -> (r: u16)
        ensures
            *self == ApiError::SessionRequired ==> r == 400,
            *self == ApiError::CapacityExceeded ==> r == 500,
            *self == ApiError::MessagesBusy ==> r == 503,
    {
        match self {
            ApiError::SessionRequired => 400,
            ApiError::CapacityExceeded => 500,
            ApiError::MessagesBusy => 503,
        }
    }
}

/// A frame received from a client on an upgraded connection.
#[derive(Clone, Debug)]
pub enum Incoming {
    /// A binary frame and its payload.
    Binary(Vec<u8>),
    /// The client closed the connection.
    Close,
    /// Any other frame: text, ping, pong.
    Other,
}

/// What became of one frame received on the keystroke channel.
#[derive(Clone, Copy, Debug, PartialEq, Eq, Structural)]
pub enum InboundOutcome {
    /// The keystroke was published on the keystroke bus, then appended to
    /// its message.
    Accepted(Keystroke),
    /// The frame was dropped; the connection goes on.
    Dropped(FrameFault),
    /// The session is not authoring any message: the connection must close.
    Unbound,
    /// The client closed the connection.
    Closed,
}

/// What the chat's state is, mathematically.
pub struct ChatModel {
    pub messages: Seq<MessageModel>,
    pub bindings: Map<SessionId, u32>,
}

/// Ids are dense and fit in 32 bits, and every binding points to a message
/// that exists.
pub open spec fn model_wf(m: ChatModel) -> bool {
    &&& ids_dense(m.messages)
    &&& m.messages.len() <= max_messages()
    &&& forall|s: SessionId| #[trigger]
        m.bindings.contains_key(s) ==> m.bindings[s] < m.messages.len()
}

/// The state after `session` starts a new message.
pub open spec fn opened(m: ChatModel, session: SessionId) -> ChatModel {
    ChatModel {
        messages: appended(m.messages, Seq::empty()),
        bindings: m.bindings.insert(session, m.messages.len() as u32),
    }
}

/// The state after one new message for each entry of `sessions`, in order:
/// what that many successful calls of [`Chat::new_message`] leave, since each
/// one takes the state to [`opened`] of the state before.
pub open spec fn opened_all(m: ChatModel, sessions: Seq<SessionId>) -> ChatModel
    decreases sessions.len(),
{
    if sessions.len() == 0 {
        m
    } else {
        opened(opened_all(m, sessions.drop_last()), sessions.last())
    }
}

/// The state after `session` is reset: it authors nothing.
pub open spec fn reset(m: ChatModel, session: SessionId) -> ChatModel {
    ChatModel { messages: m.messages, bindings: m.bindings.remove(session) }
}

/// What becomes of `frame`, received on the keystroke channel of `session`.
pub open spec fn inbound_outcome(m: ChatModel, session: SessionId, frame: Incoming) -> InboundOutcome {
    match frame {
        Incoming::Close => InboundOutcome::Closed,
        Incoming::Other => InboundOutcome::Dropped(FrameFault::NotBinary),
        Incoming::Binary(payload) => match inbound_key(payload@) {
            Err(fault) => InboundOutcome::Dropped(fault),
            Ok(key) => if m.bindings.contains_key(session) {
                InboundOutcome::Accepted(Keystroke { message_id: m.bindings[session], key })
            } else {
                InboundOutcome::Unbound
            },
        },
    }
}

/// The state after `frame` is received on the keystroke channel of `session`.
pub open spec fn after_inbound(m: ChatModel, session: SessionId, frame: Incoming) -> ChatModel {
    match inbound_outcome(m, session, frame) {
        InboundOutcome::Accepted(k) => ChatModel {
            messages: char_pushed(m.messages, k.message_id as int, k.key),
            bindings: m.bindings,
        },
        _ => m,
    }
}

/// What a frame with this outcome puts on the keystroke bus: the accepted
/// keystroke, once, and otherwise nothing.
pub open spec fn published_by(o: InboundOutcome) -> Seq<Keystroke> {
    match o {
        InboundOutcome::Accepted(k) => seq![k],
        _ => Seq::empty(),
    }
}

/// Whether the connection goes on after a frame with this outcome.
pub open spec fn continues(o: InboundOutcome) -> bool {
    o is Accepted || o is Dropped
}

/// Whether `e` announces a new message `m`.
pub open spec fn announces(e: Event, m: MessageModel) -> bool {
    match e {
        Event::MessageNew(x) => x@ == m,
        Event::MessageEnd => false,
    }
}

/// The live state of the chat: the message log, the session bindings, and
/// the buses.
pub struct Chat {
    store: MessageStore,
    sessions: SessionMap,
    events: EventBus,
    keys: KeyBus,
}

impl View for Chat {
    type V = ChatModel;

    closed spec fn view(&self) -> ChatModel {
        ChatModel { messages: self.store@, bindings: self.sessions@ }
    }
}

impl Chat {
    /// Well-formed: see [`model_wf`]; and both buses have the default
    /// capacity.
    pub open spec fn wf(&self) -> bool {
        &&& model_wf(self@)
        &&& self.event_capacity() == BUS_CAPACITY
        &&& self.key_capacity() == BUS_CAPACITY
    }

    /// How far behind a subscriber of the event bus may fall, at the least.
    pub closed spec fn event_capacity(&self) -> usize {
        self.events.capacity()
    }

    /// How far behind a subscriber of the keystroke bus may fall, at the least.
    pub closed spec fn key_capacity(&self) -> usize {
        self.keys.capacity()
    }

    /// Every event published on the event bus so far, in order.
    pub closed spec fn event_log(&self) -> Seq<Event> {
        self.events@
    }

    /// Every keystroke published on the keystroke bus so far, in order.
    pub closed spec fn key_log(&self) -> Seq<Keystroke> {
        self.keys@
    }

    /// A chat with no messages and no bindings, whose buses have the default
    /// capacity and have published nothing.
    pub fn new() -> (r: Chat)
        ensures
            r.wf(),
            r@.messages == Seq::<MessageModel>::empty(),
            r@.bindings == Map::<SessionId, u32>::empty(),
            r.event_log() == Seq::<Event>::empty(),
            r.key_log() == Seq::<Keystroke>::empty(),
            r.event_capacity() == BUS_CAPACITY,
            r.key_capacity() == BUS_CAPACITY,
    {
        Chat {
            store: MessageStore::new(),
            sessions: SessionMap::new(),
            events: Bus::new(BUS_CAPACITY),
            keys: Bus::new(BUS_CAPACITY),
        }
    }

    /// The event bus, through which events are subscribed to.
    pub fn event_bus(&self) -> (r: &EventBus)
        ensures
            r@ == self.event_log(),
            r.capacity() == self.event_capacity(),
    {
        &self.events
    }

    /// The keystroke bus, through which keystrokes are subscribed to.
    pub fn key_bus(&self) -> (r: &KeyBus)
        ensures
            r@ == self.key_log(),
            r.capacity() == self.key_capacity(),
    {
        &self.keys
    }

    /// Appends a message with the given text that no session authors, such as
    /// a greeting present from the start, and returns its id. Nothing is
    /// published.
    pub fn seed(&mut self, text: String) -> (r: Result<u32, StoreError>)
        requires
            old(self).wf(),
        ensures
            final(self).wf(),
            final(self)@.bindings == old(self)@.bindings,
            final(self).event_log() == old(self).event_log(),
            final(self).key_log() == old(self).key_log(),
            old(self)@.messages.len() < max_messages() ==> r == Ok::<u32, StoreError>(
                old(self)@.messages.len() as u32,
            ) && final(self)@.messages == appended(old(self)@.messages, text@),
            old(self)@.messages.len() >= max_messages() ==> r == Err::<u32, StoreError>(
                StoreError::CapacityExceeded,
            ) && final(self)@ == old(self)@,
    {
        let r = self.store.append_text(text);
        assert forall|t: SessionId| #[trigger]
            self@.bindings.contains_key(t) implies self@.bindings[t] < self@.messages.len() by {
            assert(old(self)@.bindings.contains_key(t));
        }
        r
    }

    /// A copy of every message, in id order; each message's id is its
    /// position.
    pub fn messages(&self) -> (r: Vec<Message>)
        requires
            self.wf(),
        ensures
            r@.len() == self@.messages.len(),
            forall|i: int| 0 <= i < r@.len() ==> (#[trigger] r@[i])@ == self@.messages[i],
            forall|i: int| 0 <= i < r@.len() ==> (#[trigger] r@[i]).id == i,
    {
        let r = self.store.snapshot();
        assert forall|i: int| 0 <= i < r@.len() implies (#[trigger] r@[i])@ == self@.messages[i] by {
            assert(r@.map_values(|m: Message| m@)[i] == r@[i]@);
        }
        r
    }

    /// The message that `session` is authoring, if any.
    pub fn binding(&self, session: SessionId) -> (r: Option<u32>)
        ensures
            r == (if self@.bindings.contains_key(session) {
                Some(self@.bindings[session])
            } else {
                None::<u32>
            }),
    {
        self.sessions.lookup(session)
    }

    /// Starts a new, empty message authored by `session`: the message is
    /// appended under the next id, the session is bound to it, and then, with
    /// the message in the log, exactly one `MessageNew` carrying it is
    /// published on the event bus. A refused request publishes nothing.
    ///
    /// The session is checked before anything is allocated, so a refused
    /// request leaves no empty message behind.
    pub fn new_message(&mut self, session: Option<SessionId>) -> (r: Result<Message, ApiError>)
        requires
            old(self).wf(),
        ensures
            final(self).wf(),
            final(self).key_log() == old(self).key_log(),
            match r {
                Ok(m) => {
                    &&& session is Some
                    &&& old(self)@.messages.len() < max_messages()
                    &&& m@ == MessageModel {
                        id: old(self)@.messages.len() as u32,
                        text: Seq::empty(),
                    }
                    &&& final(self)@ == opened(old(self)@, session->Some_0)
                    &&& final(self).event_log().len() == old(self).event_log().len() + 1
                    &&& final(self).event_log().drop_last() == old(self).event_log()
                    &&& announces(final(self).event_log().last(), m@)
                },
                Err(e) => {
                    &&& final(self)@ == old(self)@
                    &&& final(self).event_log() == old(self).event_log()
                    &&& session is None ==> e == ApiError::SessionRequired
                    &&& session is Some ==> e == ApiError::CapacityExceeded
                        && old(self)@.messages.len() >= max_messages()
                },
            },
    {
        let s = match session {
            Some(s) => s,
            None => return Err(ApiError::SessionRequired),
        };
        let id = match self.store.append_empty() {
            Ok(id) => id,
            Err(_) => return Err(ApiError::CapacityExceeded),
        };
        self.sessions.bind(s, id);
        proof {
            lemma_opened_wf(old(self)@, s);
            assert(self@ == opened(old(self)@, s));
        }
        let m = Message { id, text: String::new() };
        self.events.publish(Event::MessageNew(m.duplicate()));
        assert(self.event_log().drop_last() =~= old(self).event_log());
        Ok(m)
    }

    /// Ends what `session` is authoring: it is bound to no message afterwards.
    /// Nothing is published.
    pub fn reset_session(&mut self, session: SessionId)
        requires
            old(self).wf(),
        ensures
            final(self).wf(),
            final(self)@ == reset(old(self)@, session),
            final(self).event_log() == old(self).event_log(),
            final(self).key_log() == old(self).key_log(),
    {
        self.sessions.clear(session);
        assert forall|t: SessionId| #[trigger]
            self@.bindings.contains_key(t) implies self@.bindings[t] < self@.messages.len() by {
            assert(old(self)@.bindings.contains_key(t));
        }
    }

    /// Handles one frame received on the keystroke channel of `session`.
    ///
    /// A binary frame of 4 bytes carries a key as a little-endian scalar
    /// value. When the session is authoring a message, the keystroke is first
    /// published on the keystroke bus, once, then appended to that message. A
    /// frame that is not binary, not 4 bytes, or not a scalar value is
    /// dropped; a key from a session that authors nothing means the
    /// connection must close. Either way the state is left as it was and
    /// nothing is published. The event bus is never touched.
    pub fn receive(&mut self, session: SessionId, frame: &Incoming) -> (r: InboundOutcome)
        requires
            old(self).wf(),
        ensures
            final(self).wf(),
            r == inbound_outcome(old(self)@, session, *frame),
            final(self)@ == after_inbound(old(self)@, session, *frame),
            final(self).key_log() == old(self).key_log() + published_by(r),
            final(self).event_log() == old(self).event_log(),
    {
        match frame {
            Incoming::Close => {
                assert(self.key_log() =~= old(self).key_log() + published_by(InboundOutcome::Closed));
                InboundOutcome::Closed
            },
            Incoming::Other => {
                let r = InboundOutcome::Dropped(FrameFault::NotBinary);
                assert(self.key_log() =~= old(self).key_log() + published_by(r));
                r
            },
            Incoming::Binary(payload) => match decode_inbound(payload.as_slice()) {
                Err(fault) => {
                    let r = InboundOutcome::Dropped(fault);
                    assert(self.key_log() =~= old(self).key_log() + published_by(r));
                    r
                },
                Ok(key) => match self.sessions.lookup(session) {
                    None => {
                        let r = InboundOutcome::Unbound;
                        assert(self.key_log() =~= old(self).key_log() + published_by(r));
                        r
                    },
                    Some(message_id) => {
                        let k = Keystroke { message_id, key };
                        self.keys.publish(k);
                        let stored = self.store.push_char(message_id, key);
                        assert(stored is Ok);
                        assert(self@.messages == after_inbound(old(self)@, session, *frame).messages);
                        let r = InboundOutcome::Accepted(k);
                        assert(self.key_log() =~= old(self).key_log() + published_by(r));
                        r
                    },
                },
            },
        }
    }
}

/// The key a frame carries, if any: none for a frame that is dropped or
/// closes the connection.
pub open spec fn key_in(frame: Incoming) -> Seq<char> {
    match frame {
        Incoming::Binary(payload) => match inbound_key(payload@) {
            Ok(key) => seq![key],
            Err(_) => Seq::empty(),
        },
        _ => Seq::empty(),
    }
}

/// Whether some frame of `frames` is a close.
pub open spec fn has_close(frames: Seq<Incoming>) -> bool {
    exists|i: int| 0 <= i < frames.len() && #[trigger] frames[i] is Close
}

/// The keys carried by `frames`, in order, up to the first close: frames that
/// are dropped carry none.
pub open spec fn keys_until_close(frames: Seq<Incoming>) -> Seq<char>
    decreases frames.len(),
{
    if frames.len() == 0 {
        Seq::empty()
    } else if has_close(frames.drop_last()) {
        keys_until_close(frames.drop_last())
    } else {
        keys_until_close(frames.drop_last()) + key_in(frames.last())
    }
}

/// One keystroke connection of `session` that receives `frames`, one at a
/// time and in order, each by a call of [`Chat::receive`]: the state it
/// leaves, the keystrokes those calls publish, in order, and whether the
/// connection is still open. It stops at the first frame after which it must
/// close. Each call on a connection that is still open is one step of this
/// recursion: the state and what was published after the call on frame
/// `frames.last()` are those for `frames`, given those for
/// `frames.drop_last()`.
pub open spec fn run_connection(m: ChatModel, session: SessionId, frames: Seq<Incoming>) -> (
    ChatModel,
    Seq<Keystroke>,
    bool,
)
    decreases frames.len(),
{
    if frames.len() == 0 {
        (m, Seq::empty(), true)
    } else {
        let (m1, published, open) = run_connection(m, session, frames.drop_last());
        if !open {
            (m1, published, false)
        } else {
            let f = frames.last();
            let o = inbound_outcome(m1, session, f);
            (after_inbound(m1, session, f), published + published_by(o), continues(o))
        }
    }
}

/// Whether `published` are the keystrokes that type `keys` into message
/// `message_id`, in order.
pub open spec fn types_keys(published: Seq<Keystroke>, keys: Seq<char>, message_id: u32) -> bool {
    &&& published.len() == keys.len()
    &&& forall|i: int|
        0 <= i < keys.len() ==> #[trigger] published[i] == Keystroke { message_id, key: keys[i] }
}

/// Starting a message keeps the state well-formed.
pub proof fn lemma_opened_wf(m: ChatModel, session: SessionId)
    requires
        model_wf(m),
        m.messages.len() < max_messages(),
    ensures
        model_wf(opened(m, session)),
{
    let o = opened(m, session);
    assert forall|t: SessionId| #[trigger]
        o.bindings.contains_key(t) implies o.bindings[t] < o.messages.len() by {
        if t != session {
            assert(m.bindings.contains_key(t));
        }
    }
}

/// Starting from a well-formed state with `k` messages, `N` successful new
/// messages leave `N + k` messages whose ids are exactly `0, 1, ..., N + k - 1`;
/// the `j`-th of them (counting from 0) made the empty message with id `k + j`.
pub proof fn lemma_new_messages_dense(m: ChatModel, sessions: Seq<SessionId>)
    requires
        model_wf(m),
        m.messages.len() + sessions.len() <= max_messages(),
    ensures
        opened_all(m, sessions).messages.len() == m.messages.len() + sessions.len(),
        forall|i: int|
            0 <= i < opened_all(m, sessions).messages.len() ==> (#[trigger] opened_all(
                m,
                sessions,
            ).messages[i]).id == i,
        forall|j: int|
            0 <= j < sessions.len() ==> #[trigger] opened_all(m, sessions).messages[m.messages.len()
                + j] == (MessageModel { id: (m.messages.len() + j) as u32, text: Seq::empty() }),
        forall|i: int|
            0 <= i < m.messages.len() ==> #[trigger] opened_all(m, sessions).messages[i]
                == m.messages[i],
        model_wf(opened_all(m, sessions)),
    decreases sessions.len(),
{
    if sessions.len() > 0 {
        let prev = sessions.drop_last();
        lemma_new_messages_dense(m, prev);
        let before = opened_all(m, prev);
        lemma_opened_wf(before, sessions.last());
        let after = opened_all(m, sessions);
        assert(after == opened(before, sessions.last()));
        assert forall|j: int| 0 <= j < sessions.len() implies #[trigger] after.messages[m.messages.len()
            + j] == MessageModel { id: (m.messages.len() + j) as u32, text: Seq::empty() } by {
            if j < prev.len() {
                assert(after.messages[m.messages.len() + j] == before.messages[m.messages.len() + j]);
            }
        }
    }
}

/// A new message binds its author to an id above every id bound so far:
/// bindings only move forward.
pub proof fn lemma_binding_moves_forward(m: ChatModel, session: SessionId, other: SessionId)
    requires
        model_wf(m),
        m.messages.len() < max_messages(),
        m.bindings.contains_key(other),
    ensures
        opened(m, session).bindings[session] > m.bindings[other],
{
    assert(m.bindings[other] < m.messages.len());
}

/// The keystrokes of one author keep their order. While `session` authors a
/// message, a connection that receives `frames` publishes on the keystroke
/// bus exactly the keys that they carry up to the first close, each once, in
/// the order they were sent, each tagged with that message's id; the
/// message's text grows by exactly those keys, in that order; every other
/// message and every binding stays as it was; and the connection is still
/// open exactly when no frame was a close.
pub proof fn lemma_author_order(m: ChatModel, session: SessionId, frames: Seq<Incoming>)
    requires
        model_wf(m),
        m.bindings.contains_key(session),
    ensures
        ({
            let (m2, published, open) = run_connection(m, session, frames);
            let mid = m.bindings[session] as int;
            let keys = keys_until_close(frames);
            &&& model_wf(m2)
            &&& m2.bindings == m.bindings
            &&& m2.messages.len() == m.messages.len()
            &&& types_keys(published, keys, mid as u32)
            &&& m2.messages[mid].id == m.messages[mid].id
            &&& m2.messages[mid].text == m.messages[mid].text + keys
            &&& forall|j: int| 0 <= j < m.messages.len() && j != mid ==> m2.messages[j] == m.messages[j]
            &&& open == !has_close(frames)
        }),
    decreases frames.len(),
{
    let mid = m.bindings[session] as int;
    if frames.len() == 0 {
        assert(m.messages[mid].text + Seq::<char>::empty() =~= m.messages[mid].text);
    } else {
        let prev = frames.drop_last();
        let f = frames.last();
        lemma_author_order(m, session, prev);
        let (m1, ks, open1) = run_connection(m, session, prev);
        let (m2, published, open) = run_connection(m, session, frames);
        let kp = keys_until_close(prev);
        let keys = keys_until_close(frames);
        assert(has_close(prev) ==> has_close(frames)) by {
            if has_close(prev) {
                let i = choose|i: int| 0 <= i < prev.len() && #[trigger] prev[i] is Close;
                assert(frames[i] == prev[i]);
            }
        }
        if !open1 {
            assert(keys == kp);
        } else {
            assert(!has_close(prev));
            assert(keys == kp + key_in(f));
            let o = inbound_outcome(m1, session, f);
            assert(has_close(frames) <==> f is Close) by {
                if has_close(frames) {
                    let i = choose|i: int| 0 <= i < frames.len() && #[trigger] frames[i] is Close;
                    if i < prev.len() {
                        assert(prev[i] == frames[i]);
                    }
                }
                if f is Close {
                    assert(frames[frames.len() - 1] is Close);
                }
            }
            match o {
                InboundOutcome::Accepted(k) => {
                    assert(model_wf(m2)) by {
                        assert forall|t: SessionId| #[trigger]
                            m2.bindings.contains_key(t) implies m2.bindings[t] < m2.messages.len() by {
                            assert(m1.bindings.contains_key(t));
                        }
                    }
                    assert(key_in(f) == seq![k.key]);
                    assert(k.message_id == mid as u32);
                    assert(m2.messages[mid].text =~= m.messages[mid].text + keys);
                    assert(published == ks + seq![k]);
                    assert forall|i: int| 0 <= i < keys.len() implies #[trigger] published[i]
                        == Keystroke { message_id: mid as u32, key: keys[i] } by {
                        if i < ks.len() {
                            assert(published[i] == ks[i]);
                            assert(keys[i] == kp[i]);
                        }
                    }
                },
                _ => {
                    assert(key_in(f) =~= Seq::<char>::empty());
                    assert(keys =~= kp);
                    assert(published =~= ks);
                },
            }
        }
    }
}

/// After a keystroke is accepted, the bytes of its message's text end with
/// the UTF-8 encoding of its key.
pub proof fn lemma_accepted_key_ends_text(m: ChatModel, session: SessionId, frame: Incoming)
    requires
        model_wf(m),
        inbound_outcome(m, session, frame) is Accepted,
    ensures
        ({
            let k = inbound_outcome(m, session, frame)->Accepted_0;
            let bytes = encode_utf8(after_inbound(m, session, frame).messages[k.message_id as int].text);
            let tail = encode_utf8(seq![k.key]);
            &&& tail.len() <= bytes.len()
            &&& bytes.subrange(bytes.len() - tail.len(), bytes.len() as int) == tail
        }),
{
    let k = inbound_outcome(m, session, frame)->Accepted_0;
    let old_text = m.messages[k.message_id as int].text;
    let text = after_inbound(m, session, frame).messages[k.message_id as int].text;
    assert(text == old_text.push(k.key));
    lemma_utf8_push(old_text, k.key);
    let bytes = encode_utf8(text);
    let tail = encode_utf8(seq![k.key]);
    assert(bytes.subrange(bytes.len() - tail.len(), bytes.len() as int) =~= tail);
}

/// What a subscriber's receive from a bus produced.
#[derive(Clone, Debug)]
pub enum Received<T> {
    /// The next value.
    Value(T),
    /// The subscriber fell behind and this many values were lost to it.
    Lagged(u64),
    /// The bus is gone.
    Closed,
}

/// What an outbound loop does next.
#[derive(Clone, Debug)]
pub enum Delivery<T> {
    /// Send this to the client.
    Send(T),
    /// Send nothing and wait for the next value.
    Skip,
    /// End the connection.
    Stop,
}

/// What the events channel sends for what its subscription produced: each
/// event as it comes; after a lag it goes on with the events that are left,
/// and it ends when the bus is gone.
pub fn event_delivery(r: Received<Event>) -> (d: Delivery<Event>)
    ensures
        match r {
            Received::Value(e) => d == Delivery::Send(e),
            Received::Lagged(_) => d is Skip,
            Received::Closed => d is Stop,
        },
{
    match r {
        Received::Value(e) => Delivery::Send(e),
        Received::Lagged(_) => Delivery::Skip,
        Received::Closed => Delivery::Stop,
    }
}

/// What the keystroke channel sends for what its subscription produced: each
/// keystroke, from any session including the client's own, as its 8-byte
/// frame; after a lag it goes on with the keystrokes that are left, and it
/// ends when the bus is gone.
pub fn key_delivery(r: Received<Keystroke>) -> (d: Delivery<Vec<u8>>)
    ensures
        match r {
            Received::Value(k) => d matches Delivery::Send(f) && f@ == outbound_frame(k),
            Received::Lagged(_) => d is Skip,
            Received::Closed => d is Stop,
        },
{
    match r {
        Received::Value(k) => Delivery::Send(encode_outbound(k)),
        Received::Lagged(_) => Delivery::Skip,
        Received::Closed => Delivery::Stop,
    }
}

/// Whether the events channel stays open after receiving `frame`: it reads
/// frames only to notice that the client closed it.
pub fn events_channel_open_after(frame: &Incoming) -> (r: bool)
    ensures
        r == !(*frame is Close),
{
    match frame {
        Incoming::Close => false,
        _ => true,
    }
}

} // verus!
