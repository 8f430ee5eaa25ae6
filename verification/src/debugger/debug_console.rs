//! The debug console: its messages, how each is shown, and what entering
//! an expression and getting its value add.

use crate::text::append;
use vstd::prelude::*;

verus! {

/// The kind of a console message.
#[derive(Debug, Clone, Copy, PartialEq, Eq, Structural)]
pub enum MessageType {
    Output,
    Input,
    Error,
    Info,
}

/// A console message: its kind, its text, and the local time it was made
/// (`HH:MM:SS`).
#[derive(Debug, Clone)]
pub struct ConsoleMessage {
    pub message_type: MessageType,
    pub content: String,
    pub timestamp: String,
}

/// Whether `t` is a time of day written `HH:MM:SS`: eight characters, the
/// third and sixth a colon, the others digits.
pub open spec fn is_clock_text(t: Seq<char>) -> bool {
    &&& t.len() == 8
    &&& t[2] == ':' && t[5] == ':'
    &&& forall|i: int| 0 <= i < 8 && i != 2 && i != 5 ==> '0' <= #[trigger] t[i] <= '9'
}

/// `chrono::Local::now()` formatted with `%H:%M:%S`: the local time of day.
/// What time it is, and the machine's time zone, are not stated; chrono's
/// format documentation gives each field as two zero-padded digits.
#[verifier::external_body]
fn local_clock_text() -> (r: String)
    ensures
        is_clock_text(r@),
{
    chrono::Local::now().format("%H:%M:%S").to_string()
}

impl ConsoleMessage {
    /// A message of kind `message_type` holding `content`, stamped with the
    /// local time.
    pub fn new(message_type: MessageType, content: String) -> (r: Self)
        ensures
            r.message_type == message_type,
            r.content@ == content@,
            is_clock_text(r.timestamp@),
    {
        Self { message_type, content, timestamp: local_clock_text() }
    }

    /// The time shown before the message: the timestamp in brackets.
    pub fn timestamp_label(&self) -> (r: String)
        ensures
            r@ == "["@ + self.timestamp@ + "]"@,
    {
        append(append("[".to_string(), self.timestamp.as_str()), "]")
    }

    /// The text shown: the prefix of the kind, then the content.
    pub fn display_text(&self) -> (r: String)
        ensures
            r@ == prefix_text(self.message_type) + self.content@,
    {
        append(message_prefix(self.message_type).to_string(), self.content.as_str())
    }
}

/// The prefix of each kind of message.
pub open spec fn prefix_text(t: MessageType) -> Seq<char> {
    match t {
        MessageType::Output => ""@,
        MessageType::Input => "> "@,
        MessageType::Error => "Error: "@,
        MessageType::Info => "Info: "@,
    }
}

/// The prefix shown before a message of kind `t`.
pub fn message_prefix(t: MessageType) -> (r: &'static str)
    ensures
        r@ == prefix_text(t),
{
    match t {
        MessageType::Output => "",
        MessageType::Input => "> ",
        MessageType::Error => "Error: ",
        MessageType::Info => "Info: ",
    }
}

/// The style class of a message of kind `t`.
pub fn message_class(t: MessageType) -> (r: &'static str)
    ensures
        t == MessageType::Output ==> r@ == "berry-console-message berry-console-output"@,
        t == MessageType::Input ==> r@ == "berry-console-message berry-console-input"@,
        t == MessageType::Error ==> r@ == "berry-console-message berry-console-error"@,
        t == MessageType::Info ==> r@ == "berry-console-message berry-console-info"@,
{
    match t {
        MessageType::Output => "berry-console-message berry-console-output",
        MessageType::Input => "berry-console-message berry-console-input",
        MessageType::Error => "berry-console-message berry-console-error",
        MessageType::Info => "berry-console-message berry-console-info",
    }
}

/// Enters an expression: an empty one is ignored; otherwise it is added as
/// an input message and `true` says it is to be evaluated.
pub fn enter_expression(messages: &mut Vec<ConsoleMessage>, expr: &str) -> (r: bool)
    ensures
        r == (expr@.len() > 0),
        !r ==> final(messages)@ == old(messages)@,
        r ==> final(messages)@.len() == old(messages)@.len() + 1
            && final(messages)@.drop_last() == old(messages)@
            && final(messages)@.last().message_type == MessageType::Input
            && final(messages)@.last().content@ == expr@,
{
    if expr.is_empty() {
        return false;
    }
    messages.push(ConsoleMessage::new(MessageType::Input, expr.to_string()));
    assert(messages@.drop_last() =~= old(messages)@);
    true
}

/// Adds what an evaluation gave: its value as output, or its error.
pub fn evaluation_result(messages: &mut Vec<ConsoleMessage>, result: Result<String, String>)
    ensures
        final(messages)@.len() == old(messages)@.len() + 1,
        final(messages)@.drop_last() == old(messages)@,
        match result {
            Ok(v) => final(messages)@.last().message_type == MessageType::Output && final(messages)@.last().content@ == v@,
            Err(e) => final(messages)@.last().message_type == MessageType::Error && final(messages)@.last().content@ == e@,
        },
{
    match result {
        Ok(v) => messages.push(ConsoleMessage::new(MessageType::Output, v)),
        Err(e) => messages.push(ConsoleMessage::new(MessageType::Error, e)),
    }
    assert(messages@.drop_last() =~= old(messages)@);
}

} // verus!
