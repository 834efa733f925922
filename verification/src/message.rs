//! What a command leaves of the message that invoked it, and what is
//! logged when an answer cannot be delivered.

use crate::text::{chars_of, find, find_first, remove_all, string_of, trim, trimmed, without};
use vstd::prelude::*;
use vstd::string::StringExecFns;

verus! {

/// The name under which the bot is mentioned.
pub const BOT_NAME: &'static str = "WikiBot#3868";

/// The mark after which the rest of a message is talk, not argument: a
/// space and two pipes.
pub open spec fn talk_mark() -> Seq<char> {
    seq![' ', '|', '|']
}

/// The text by which a message mentions the bot: `@` and its name.
pub open spec fn mention() -> Seq<char> {
    seq!['@'] + BOT_NAME@
}

/// `message` up to its first talk mark, or all of it if it has none.
pub open spec fn before_talk(message: Seq<char>) -> Seq<char> {
    match find_first(message, talk_mark()) {
        Some(i) => message.take(i),
        None => message,
    }
}

/// The argument that `fix_message` leaves of a message.
pub open spec fn fixed_message(message: Seq<char>, command: Seq<char>, prefix: Seq<char>) -> Seq<
    char,
> {
    trimmed(without(without(without(before_talk(message), command), prefix), mention()))
}

/// The argument of a command, taken out of the message that invoked it.
///
/// Everything from the first talk mark on is cut off. Of what is left, each
/// occurrence of the command goes, then each occurrence of the prefix, then
/// each mention of the bot; last, white space at both ends is trimmed.
pub fn fix_message(message: String, command: &str, prefix: &str) -> (r: String)
    ensures
        r@ == fixed_message(message@, command@, prefix@),
{
    let mut content = chars_of(message.as_str());
    let mut mark: Vec<char> = Vec::new();
    mark.push(' ');
    mark.push('|');
    mark.push('|');
    assert(mark@ =~= talk_mark());
    match find(content.as_slice(), mark.as_slice()) {
        Some(index) => {
            content.truncate(index);
            assert(content@ =~= message@.take(index as int));
        },
        None => {},
    }
    let command_chars = chars_of(command);
    let prefix_chars = chars_of(prefix);
    let mut name: Vec<char> = Vec::new();
    name.push('@');
    let mut bot = chars_of(BOT_NAME);
    name.append(&mut bot);
    assert(name@ =~= mention());
    let content = remove_all(content.as_slice(), command_chars.as_slice());
    let content = remove_all(content.as_slice(), prefix_chars.as_slice());
    let content = remove_all(content.as_slice(), name.as_slice());
    let content = trim(content.as_slice());
    string_of(content.as_slice())
}

/// The entry that is logged when a message could not be delivered.
pub open spec fn undelivered(speech: Seq<char>, error: Seq<char>) -> Seq<char> {
    "Unable to send reply message: "@ + speech + ". Error is "@ + error
}

/// The log entry for a message that could not be delivered.
fn undelivered_entry(speech: &str, error: &str) -> (entry: String)
    ensures
        entry@ == undelivered(speech@, error@),
{
    let mut entry = String::from_str("Unable to send reply message: ");
    entry.append(speech);
    entry.append(". Error is ");
    entry.append(error);
    entry
}

/// What is left to do after a reply to the author of a message was
/// attempted: nothing if it went out, and the entry to log, with the error
/// that came back, if it did not.
pub fn reply_into_chat(speech: &str, sent: Result<(), String>) -> (entry: Option<String>)
    ensures
        sent is Ok ==> entry is None,
        sent matches Err(error) ==> entry matches Some(e) && e@ == undelivered(speech@, error@),
{
    match sent {
        Ok(_) => None,
        Err(error) => Some(undelivered_entry(speech, error.as_str())),
    }
}

/// What is left to do after a message to the channel was attempted: nothing
/// if it went out, and the entry to log, with the error that came back, if
/// it did not.
pub fn say_into_chat(speech: &str, sent: Result<(), String>) -> (entry: Option<String>)
    ensures
        sent is Ok ==> entry is None,
        sent matches Err(error) ==> entry matches Some(e) && e@ == undelivered(speech@, error@),
{
    match sent {
        Ok(_) => None,
        Err(error) => Some(undelivered_entry(speech, error.as_str())),
    }
}

/// What the bot may answer to a ping.
pub open spec fn ping_replies() -> Seq<Seq<char>> {
    seq![
        "Pong!"@,
        "Marco!"@,
        "Roger!"@,
        "I hear ya!"@,
        "Good day."@,
        "Hello!"@,
        "What's up?"@,
        "I'm alive!"@,
        "Hearing you loud and clear."@,
        "PiNg!"@,
        "Yep, still here."@,
        "Nah, totally offline."@,
        "Sup?"@,
        "What's a bot gotta do to get some sleep around here?"@,
        "Running."@,
        "Uptime is my prime focus."@,
        "It... It's not like I wanted to be pinged by you... :blush:"@,
        "!gniP"@,
        "*Snore* :zzz:"@,
        "Cheers!"@,
        "Yes?"@,
    ]
}

/// The number of answers to a ping.
pub const PING_REPLIES: usize = 21;

/// The answer to a ping that the caller's choice picks: the answer at that
/// place, or nothing where the choice is not below the number of answers.
pub fn ping_reply(choice: usize) -> (reply: Option<&'static str>)
    ensures
        ping_replies().len() == PING_REPLIES,
        match reply {
            Some(text) => choice < PING_REPLIES && text@ == ping_replies()[choice as int],
            None => choice >= PING_REPLIES,
        },
{
    if choice == 0 {
        Some("Pong!")
    } else if choice == 1 {
        Some("Marco!")
    } else if choice == 2 {
        Some("Roger!")
    } else if choice == 3 {
        Some("I hear ya!")
    } else if choice == 4 {
        Some("Good day.")
    } else if choice == 5 {
        Some("Hello!")
    } else if choice == 6 {
        Some("What's up?")
    } else if choice == 7 {
        Some("I'm alive!")
    } else if choice == 8 {
        Some("Hearing you loud and clear.")
    } else if choice == 9 {
        Some("PiNg!")
    } else if choice == 10 {
        Some("Yep, still here.")
    } else if choice == 11 {
        Some("Nah, totally offline.")
    } else if choice == 12 {
        Some("Sup?")
    } else if choice == 13 {
        Some("What's a bot gotta do to get some sleep around here?")
    } else if choice == 14 {
        Some("Running.")
    } else if choice == 15 {
        Some("Uptime is my prime focus.")
    } else if choice == 16 {
        Some("It... It's not like I wanted to be pinged by you... :blush:")
    } else if choice == 17 {
        Some("!gniP")
    } else if choice == 18 {
        Some("*Snore* :zzz:")
    } else if choice == 19 {
        Some("Cheers!")
    } else if choice == 20 {
        Some("Yes?")
    } else {
        None
    }
}

/// A line of the log: the kind of entry and the time in brackets, then the
/// entry.
pub open spec fn log_line(kind: Seq<char>, timestamp: Seq<char>, entry: Seq<char>) -> Seq<char> {
    seq!['['] + kind + " at "@ + timestamp + "] "@ + entry
}

/// The line that records `entry` in the log, given the time as text.
pub fn make_log_entry(entry: &str, kind: &str, timestamp: &str) -> (line: String)
    ensures
        line@ == log_line(kind@, timestamp@, entry@),
{
    let mut line = String::from_str("[");
    proof {
        reveal_strlit("[");
        assert("["@ =~= seq!['[']);
    }
    line.append(kind);
    line.append(" at ");
    line.append(timestamp);
    line.append("] ");
    line.append(entry);
    line
}

} // verus!
