use vstd::prelude::*;
use vstd::string::StringExecFns;

verus! {

/// The text sent to every other participant when `name` joins.
pub open spec fn joined_text(name: Seq<char>) -> Seq<char> {
    "* "@ + name + " has entered the room\n"@
}

/// The text sent to every other participant when `name` leaves.
pub open spec fn left_text(name: Seq<char>) -> Seq<char> {
    "* "@ + name + " has left the room\n"@
}

/// The text sent to every other participant when `name` says `text`.
pub open spec fn chat_text(name: Seq<char>, text: Seq<char>) -> Seq<char> {
    "["@ + name + "] "@ + text + "\n"@
}

/// An event on the broadcast bus: the identifier of the session that
/// published it and the line, already rendered, that other sessions write
/// to their clients.
#[derive(Clone, Debug)]
pub struct Message {
    pub session_id: u32,
    pub msg: String,
}

impl Message {
    /// The announcement that session `session_id`, named `name`, joined.
    pub fn user_joined(session_id: u32, name: String) -> (r: Self)
        ensures
            r.session_id == session_id,
            r.msg@ == joined_text(name@),
    {
        let mut msg = String::from_str("* ");
        msg.append(name.as_str());
        msg.append(" has entered the room\n");
        Message { session_id, msg }
    }

    /// The announcement that session `session_id`, named `name`, left.
    pub fn user_left(session_id: u32, name: String) -> (r: Self)
        ensures
            r.session_id == session_id,
            r.msg@ == left_text(name@),
    {
        let mut msg = String::from_str("* ");
        msg.append(name.as_str());
        msg.append(" has left the room\n");
        Message { session_id, msg }
    }

    /// The chat line `msg` said by session `session_id`, named `name`.
    pub fn from_user(session_id: u32, name: String, msg: String) -> (r: Self)
        ensures
            r.session_id == session_id,
            r.msg@ == chat_text(name@, msg@),
    {
        let mut out = String::from_str("[");
        out.append(name.as_str());
        out.append("] ");
        out.append(msg.as_str());
        out.append("\n");
        Message { session_id, msg: out }
    }
}

} // verus!
