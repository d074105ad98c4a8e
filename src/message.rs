use vstd::prelude::*;

verus! {

/// What a [`Message`] is, mathematically: its id and the characters of its
/// raw authoring log.
pub struct MessageModel {
    pub id: u32,
    pub text: Seq<char>,
}

/// A chat message.
///
/// `text` is the raw authoring log: every character the author typed, in
/// order, with backspaces (`'\u{8}'`) kept as characters of their own.
#[derive(Clone, Debug)]
pub struct Message {
    pub id: u32,
    pub text: String,
}

impl View for Message {
    type V = MessageModel;

    open spec fn view(&self) -> MessageModel {
        MessageModel { id: self.id, text: self.text@ }
    }
}

impl Message {
    /// A copy of this message, with the same id and text.
    pub fn duplicate(&self) -> (r: Message)
        ensures
            r@ == self@,
    {
        Message { id: self.id, text: self.text.clone() }
    }
}

/// The backspace character, which a client renders by deleting the
/// character before it.
pub const BACKSPACE: char = '\u{8}';

/// One keystroke: the key typed and the message it was typed into.
#[derive(Clone, Copy, Debug, PartialEq, Eq, Structural)]
pub struct Keystroke {
    pub message_id: u32,
    pub key: char,
}

/// A notification that goes out to every subscriber of the event bus.
#[derive(Clone, Debug)]
pub enum Event {
    /// A message was started; it carries the message as it was created.
    MessageNew(Message),
    /// A message was finished. Reserved by the protocol; nothing sends it yet.
    MessageEnd,
}

} // verus!
