//! The lines of the chat box.

use vstd::prelude::*;

verus! {

/// What a user said, as the others see it: the handle, a colon, a space,
/// and the message.
pub open spec fn chat_line_text(handle: Seq<char>, message: Seq<char>) -> Seq<char> {
    handle + seq![':', ' '] + message
}

/// The notice that a user joined.
pub open spec fn join_notice_text(handle: Seq<char>) -> Seq<char> {
    "<join> "@ + handle
}

/// The first `count` messages, one per line: a line feed between each two.
pub open spec fn transcript_text(messages: Seq<Seq<char>>, count: int) -> Seq<char>
    decreases count,
{
    if count <= 0 {
        Seq::empty()
    } else if count == 1 {
        messages[0]
    } else {
        transcript_text(messages, count - 1) + seq!['\n'] + messages[count - 1]
    }
}

/// The line that the chat shows for a message.
pub fn chat_line(handle: &str, message: &str) -> (line: String)
    ensures
        line@ == chat_line_text(handle@, message@),
{
    proof {
        reveal_strlit(": ");
    }
    let mut line = String::new();
    line.append(handle);
    line.append(": ");
    line.append(message);
    assert(line@ =~= chat_line_text(handle@, message@));
    line
}

/// The line that the chat shows when a user joins.
pub fn join_notice(handle: &str) -> (line: String)
    ensures
        line@ == join_notice_text(handle@),
{
    let mut line = String::new();
    line.append("<join> ");
    line.append(handle);
    assert(line@ =~= join_notice_text(handle@));
    line
}

/// The text of the chat box: the messages, one per line.
pub fn transcript(messages: &Vec<String>) -> (text: String)
    ensures
        text@ == transcript_text(messages@.map_values(|m: String| m@), messages@.len() as int),
{
    proof {
        reveal_strlit("\n");
    }
    let ghost all = messages@.map_values(|m: String| m@);
    let mut text = String::new();
    let mut i: usize = 0;
    while i < messages.len()
        invariant
            i <= messages.len(),
            all == messages@.map_values(|m: String| m@),
            "\n"@ == seq!['\n'],
            text@ == transcript_text(all, i as int),
        decreases messages.len() - i,
    {
        if i > 0 {
            text.append("\n");
        }
        text.append(messages[i].as_str());
        i += 1;
        assert(text@ =~= transcript_text(all, i as int));
    }
    text
}

} // verus!
