//! The fixed texts of the wire protocol: the handshake prompts and the
//! notices that frame what one session says to the others.

use vstd::prelude::*;

verus! {

/// The characters of the greeting prompt sent when a client connects.
pub open spec fn greeting_text() -> Seq<char> {
    "Welcome to the server, what will your username be? "@
}

/// The characters of the retry prompt sent after an invalid name.
pub open spec fn invalid_name_text() -> Seq<char> {
    "That is not a valid username. What will your username be? "@
}

/// The characters of the acknowledgement sent when a name is accepted.
pub open spec fn success_text() -> Seq<char> {
    "Username is valid, joining session\n"@
}

/// The join notice broadcast when `name` enters the chat.
pub open spec fn join_notice_text(name: Seq<char>) -> Seq<char> {
    name + " has joined\n"@
}

/// The departure notice broadcast when `name` disconnects.
pub open spec fn depart_notice_text(name: Seq<char>) -> Seq<char> {
    name + " has left\n"@
}

/// The frame in which a chat line from `name` is delivered to the others.
pub open spec fn chat_frame_text(name: Seq<char>, line: Seq<char>) -> Seq<char> {
    name + ": "@ + line + "\n"@
}

/// The greeting prompt as an owned string.
pub fn greeting() -> (r: String)
    ensures
        r@ == greeting_text(),
{
    String::from_str("Welcome to the server, what will your username be? ")
}

/// The retry prompt as an owned string.
pub fn invalid_name_prompt() -> (r: String)
    ensures
        r@ == invalid_name_text(),
{
    String::from_str("That is not a valid username. What will your username be? ")
}

/// The acceptance acknowledgement as an owned string.
pub fn success_message() -> (r: String)
    ensures
        r@ == success_text(),
{
    String::from_str("Username is valid, joining session\n")
}

/// Builds the join notice for `name`.
pub fn join_notice(name: &str) -> (r: String)
    ensures
        r@ == join_notice_text(name@),
{
    let mut r = name.to_owned();
    r.append(" has joined\n");
    r
}

/// Builds the departure notice for `name`.
pub fn depart_notice(name: &str) -> (r: String)
    ensures
        r@ == depart_notice_text(name@),
{
    let mut r = name.to_owned();
    r.append(" has left\n");
    r
}

/// Frames one chat line from `name` for delivery to the other sessions.
pub fn chat_frame(name: &str, line: &str) -> (r: String)
    ensures
        r@ == chat_frame_text(name@, line@),
{
    let mut r = name.to_owned();
    r.append(": ");
    r.append(line);
    r.append("\n");
    r
}

} // verus!
