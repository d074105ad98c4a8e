//! The client's side of a message: how it shows the raw authoring log, with
//! each backspace deleting the character before it, and which key it sends
//! when the author edits the input box.
use vstd::prelude::*;
use vstd::string::StrSliceExecFns;
use vstd::utf8::encode_utf8;

use crate::message::BACKSPACE;
use crate::text::{pop_char, push_char};

verus! {

/// The visible text after `key` is typed into visible text `visible`: a
/// backspace deletes the last character, if there is one; any other key is
/// appended.
pub open spec fn typed(visible: Seq<char>, key: char) -> Seq<char> {
    if key == BACKSPACE {
        if visible.len() > 0 {
            visible.drop_last()
        } else {
            visible
        }
    } else {
        visible.push(key)
    }
}

/// The visible text of a raw authoring log: its keys typed one after another
/// into an empty text.
pub open spec fn rendered(log: Seq<char>) -> Seq<char>
    decreases log.len(),
{
    if log.len() == 0 {
        Seq::empty()
    } else {
        typed(rendered(log.drop_last()), log.last())
    }
}

/// Types `key` into the visible text `visible`.
pub fn apply_key(visible: &mut String, key: char)
    ensures
        final(visible)@ == typed(old(visible)@, key),
{
    if key == BACKSPACE {
        pop_char(visible);
    } else {
        push_char(visible, key);
    }
}

/// The visible text of the raw authoring log `log`.
pub fn render(log: &str) -> (r: String)
    ensures
        r@ == rendered(log@),
{
    let mut out = String::new();
    for c in it: log.chars()
        invariant
            it.seq() == log@,
            out@ == rendered(it.seq().take(it.index() as int)),
    {
        proof {
            let done = it.seq().take(it.index() as int + 1);
            assert(done.drop_last() =~= it.seq().take(it.index() as int));
        }
        apply_key(&mut out, c);
    }
    proof {
        assert(log@.take(log@.len() as int) =~= log@);
    }
    out
}

/// The key sent when the input box goes from `before` to `after`: nothing
/// when it did not change; a backspace when it got shorter in bytes; else
/// its last character.
pub open spec fn key_for_edit(before: Seq<char>, after: Seq<char>) -> Option<char> {
    if after == before {
        None
    } else if encode_utf8(after).len() < encode_utf8(before).len() {
        Some(BACKSPACE)
    } else {
        Some(after.last())
    }
}

/// A text with a character in it has at least one byte.
proof fn lemma_utf8_nonempty(text: Seq<char>)
    requires
        text.len() > 0,
    ensures
        encode_utf8(text).len() > 0,
{
    assert(vstd::utf8::encode_scalar(text[0] as u32).len() > 0);
}

/// The key to send when the input box goes from `before` to `after`.
pub fn edit_key(before: &String, after: &String) -> (r: Option<char>)
    ensures
        r == key_for_edit(before@, after@),
{
    if *after == *before {
        return None;
    }
    if after.as_str().as_bytes().len() < before.as_str().as_bytes().len() {
        return Some(BACKSPACE);
    }
    proof {
        if after@.len() == 0 {
            if before@.len() > 0 {
                lemma_utf8_nonempty(before@);
            }
            assert(before@ =~= after@);
        }
    }
    let n = after.as_str().unicode_len();
    Some(after.as_str().get_char(n - 1))
}

} // verus!
