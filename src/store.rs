use vstd::pervasive::VecAdditionalExecFns;
use vstd::prelude::*;
use vstd::utf8::encode_utf8;

use crate::message::{Message, MessageModel};
use crate::text::push_char;

verus! {

/// Why a store operation was refused.
#[derive(Clone, Copy, Debug, PartialEq, Eq, Structural)]
pub enum StoreError {
    /// The next id would not fit in 32 bits.
    CapacityExceeded,
    /// No message has the id given.
    UnknownMessage,
}

/// The largest number of messages a store can hold: ids are 32-bit.
pub open spec fn max_messages() -> nat {
    u32::MAX as nat + 1
}

/// Every message's id is its position.
pub open spec fn ids_dense(msgs: Seq<MessageModel>) -> bool {
    forall|i: int| 0 <= i < msgs.len() ==> (#[trigger] msgs[i]).id == i
}

/// The log after one message with the given text is appended.
pub open spec fn appended(msgs: Seq<MessageModel>, text: Seq<char>) -> Seq<MessageModel> {
    msgs.push(MessageModel { id: msgs.len() as u32, text })
}

/// The log after `c` is appended to the text of message `id`.
pub open spec fn char_pushed(msgs: Seq<MessageModel>, id: int, c: char) -> Seq<MessageModel> {
    msgs.update(id, MessageModel { id: msgs[id].id, text: msgs[id].text.push(c) })
}

/// Appending a character to a text appends its UTF-8 encoding to the text's
/// bytes.
pub proof fn lemma_utf8_push(text: Seq<char>, c: char)
    ensures
        encode_utf8(text.push(c)) == encode_utf8(text) + encode_utf8(seq![c]),
    decreases text.len(),
{
    let one = seq![c];
    assert(one.drop_first() =~= Seq::<char>::empty());
    assert(encode_utf8(one) == vstd::utf8::encode_scalar(c as u32) + encode_utf8(Seq::<char>::empty()));
    if text.len() == 0 {
        assert(text.push(c) =~= one);
        assert(encode_utf8(text) =~= Seq::<u8>::empty());
        assert(encode_utf8(text) + encode_utf8(one) =~= encode_utf8(one));
    } else {
        lemma_utf8_push(text.drop_first(), c);
        assert(text.push(c).drop_first() =~= text.drop_first().push(c));
        assert(text.push(c)[0] == text[0]);
        assert(encode_utf8(text.push(c)) =~= encode_utf8(text) + encode_utf8(one));
    }
}

/// The in-memory message log.
pub struct MessageStore {
    messages: Vec<Message>,
}

impl View for MessageStore {
    type V = Seq<MessageModel>;

    closed spec fn view(&self) -> Seq<MessageModel> {
        self.messages@.map_values(|m: Message| m@)
    }
}

impl MessageStore {
    /// Well-formed: ids are dense and zero-based, and all of them fit in 32 bits.
    pub open spec fn wf(&self) -> bool {
        &&& ids_dense(self@)
        &&& self@.len() <= max_messages()
    }

    /// An empty store.
    pub fn new() -> (r: MessageStore)
        ensures
            r.wf(),
            r@ == Seq::<MessageModel>::empty(),
    {
        MessageStore { messages: Vec::new() }
    }

    /// Appends a message with the given text, under the next id, and returns
    /// that id.
    pub fn append_text(&mut self, text: String) -> (r: Result<u32, StoreError>)
        requires
            old(self).wf(),
        ensures
            final(self).wf(),
            old(self)@.len() < max_messages() ==> r == Ok::<u32, StoreError>(old(self)@.len() as u32)
                && final(self)@ == appended(old(self)@, text@),
            old(self)@.len() >= max_messages() ==> r == Err::<u32, StoreError>(
                StoreError::CapacityExceeded,
            ) && final(self)@ == old(self)@,
    {
        let n = self.messages.len();
        if n as u64 > u32::MAX as u64 {
            return Err(StoreError::CapacityExceeded);
        }
        let id = n as u32;
        self.messages.push(Message { id, text });
        assert(self@ =~= appended(old(self)@, text@));
        Ok(id)
    }

    /// Appends a message with empty text, under the next id, and returns that id.
    pub fn append_empty(&mut self) -> (r: Result<u32, StoreError>)
        requires
            old(self).wf(),
        ensures
            final(self).wf(),
            old(self)@.len() < max_messages() ==> r == Ok::<u32, StoreError>(old(self)@.len() as u32)
                && final(self)@ == appended(old(self)@, Seq::empty()),
            old(self)@.len() >= max_messages() ==> r == Err::<u32, StoreError>(
                StoreError::CapacityExceeded,
            ) && final(self)@ == old(self)@,
    {
        self.append_text(String::new())
    }

    /// Appends `c` to the text of message `id`.
    pub fn push_char(&mut self, id: u32, c: char) -> (r: Result<(), StoreError>)
        requires
            old(self).wf(),
        ensures
            final(self).wf(),
            id < old(self)@.len() ==> r == Ok::<(), StoreError>(()) && final(self)@ == char_pushed(
                old(self)@,
                id as int,
                c,
            ),
            id >= old(self)@.len() ==> r == Err::<(), StoreError>(StoreError::UnknownMessage)
                && final(self)@ == old(self)@,
    {
        let i = id as usize;
        if i >= self.messages.len() {
            return Err(StoreError::UnknownMessage);
        }
        let mut m = Message { id, text: String::new() };
        self.messages.set_and_swap(i, &mut m);
        push_char(&mut m.text, c);
        self.messages.set_and_swap(i, &mut m);
        assert(self@ =~= char_pushed(old(self)@, id as int, c));
        Ok(())
    }

    /// A copy of every message, in id order.
    pub fn snapshot(&self) -> (r: Vec<Message>)
        ensures
            r@.map_values(|m: Message| m@) == self@,
    {
        let mut out: Vec<Message> = Vec::new();
        let n = self.messages.len();
        for i in 0..n
            invariant
                n == self.messages@.len(),
                out@.len() == i,
                forall|j: int| 0 <= j < i ==> (#[trigger] out@[j])@ == self.messages@[j]@,
        {
            out.push(self.messages[i].duplicate());
        }
        assert(out@.map_values(|m: Message| m@) =~= self@);
        out
    }
}

} // verus!
