//! The assistant chat panel's decisions: which messages are sent, what the
//! reply adds, which files are in the chat's context, and how each message
//! is shown.

use crate::text::{append, chars_of, str_eq, trim, trim_exec};
use vstd::prelude::*;

verus! {

/// A chat message: who wrote it (`user` or `assistant`) and what it says.
#[derive(Debug, Clone)]
pub struct ChatMessage {
    pub role: String,
    pub content: String,
}

/// Sends `message`: a blank one is not sent; otherwise it is added as the
/// user's, and `true` says the assistant is to be asked.
pub fn send_message(messages: &mut Vec<ChatMessage>, message: &str) -> (r: bool)
    ensures
        r == (trim(message@).len() > 0),
        !r ==> final(messages)@ == old(messages)@,
        r ==> final(messages)@.len() == old(messages)@.len() + 1
            && final(messages)@.drop_last() == old(messages)@
            && final(messages)@.last().role@ == "user"@
            && final(messages)@.last().content@ == message@,
{
    let cs = chars_of(message);
    let t = trim_exec(cs.as_slice());
    if t.len() == 0 {
        return false;
    }
    messages.push(ChatMessage { role: "user".to_string(), content: message.to_string() });
    assert(messages@.drop_last() =~= old(messages)@);
    true
}

/// Adds the assistant's reply, or `Error: ` and what went wrong.
pub fn receive_reply(messages: &mut Vec<ChatMessage>, reply: Result<String, String>)
    ensures
        final(messages)@.len() == old(messages)@.len() + 1,
        final(messages)@.drop_last() == old(messages)@,
        final(messages)@.last().role@ == "assistant"@,
        match reply {
            Ok(text) => final(messages)@.last().content@ == text@,
            Err(e) => final(messages)@.last().content@ == "Error: "@ + e@,
        },
{
    let content = match reply {
        Ok(text) => text,
        Err(e) => append("Error: ".to_string(), e.as_str()),
    };
    messages.push(ChatMessage { role: "assistant".to_string(), content });
    assert(messages@.drop_last() =~= old(messages)@);
}

/// Adds `path` to the chat's context files, unless it is there already.
pub fn add_context_file(files: &mut Vec<String>, path: String)
    ensures
        (exists|i: int| 0 <= i < old(files)@.len() && (#[trigger] old(files)@[i])@ == path@)
            ==> final(files)@ == old(files)@,
        !(exists|i: int| 0 <= i < old(files)@.len() && (#[trigger] old(files)@[i])@ == path@)
            ==> final(files)@ == old(files)@.push(path),
{
    let mut i: usize = 0;
    while i < files.len()
        invariant
            i <= files@.len(),
            files@ == old(files)@,
            forall|j: int| 0 <= j < i ==> (#[trigger] files@[j])@ != path@,
        decreases files@.len() - i,
    {
        if str_eq(files[i].as_str(), path.as_str()) {
            return;
        }
        i += 1;
    }
    files.push(path);
}

/// How a message is shown: its background and border colors and who it is
/// from.
pub open spec fn message_look(role: Seq<char>) -> (Seq<char>, Seq<char>, Seq<char>) {
    if role == "user"@ {
        ("#2B2D30"@, "#365880"@, "You"@)
    } else {
        ("#1E1F22"@, "#4A7A3C"@, "BerryCode"@)
    }
}

/// The background, border color and author label of a message.
pub fn message_style(message: &ChatMessage) -> (r: (&'static str, &'static str, &'static str))
    ensures
        (r.0@, r.1@, r.2@) == message_look(message.role@),
{
    if str_eq(message.role.as_str(), "user") {
        ("#2B2D30", "#365880", "You")
    } else {
        ("#1E1F22", "#4A7A3C", "BerryCode")
    }
}

/// Whether the send button can be pressed: there is something to send and
/// no reply is awaited.
pub fn can_send(input: &str, is_loading: bool) -> (r: bool)
    ensures
        r == (trim(input@).len() > 0 && !is_loading),
{
    let cs = chars_of(input);
    let t = trim_exec(cs.as_slice());
    t.len() > 0 && !is_loading
}

} // verus!
