use vstd::prelude::*;
use vstd::hash_map::StringHashMap;

use crate::frame::{frame_fields, parse_frame};
use crate::identity::{is_simple_uuid, random_identity};

verus! {

/// The verbs whose frames are forwarded; any other verb is accepted and ignored.
pub open spec fn is_routed_verb(verb: Seq<char>) -> bool {
    verb == "OFFER"@ || verb == "ANSWER"@ || verb == "ICE"@
}

/// The session that a frame from `sender` asks to reach: the frame is
/// well-formed, claims `sender` as its source, and carries a routed verb.
pub open spec fn target_of(sender: Seq<char>, text: Seq<char>) -> Option<Seq<char>> {
    match frame_fields(text) {
        Some(f) => if f.1 == sender && is_routed_verb(f.0) {
            Some(f.2)
        } else {
            None
        },
        None => None,
    }
}

/// The connection that receives the frame `text` sent by `sender`, if any.
pub open spec fn delivery<H>(sessions: Map<Seq<char>, H>, sender: Seq<char>, text: Seq<char>) -> Option<H> {
    match target_of(sender, text) {
        Some(t) => if sessions.contains_key(t) {
            Some(sessions[t])
        } else {
            None
        },
        None => None,
    }
}

/// A frame to write, unchanged, to the connection `to`.
pub struct Delivery<'a, H> {
    pub to: &'a H,
    pub frame: &'a str,
}

/// The registry of live sessions: each identity maps to its connection handle.
#[verifier::reject_recursive_types(H)]
pub struct Relay<H> {
    sessions: StringHashMap<H>,
}

impl<H> View for Relay<H> {
    type V = Map<Seq<char>, H>;

    closed spec fn view(&self) -> Map<Seq<char>, H> {
        self.sessions@
    }
}

fn is_routed(verb: &String) -> (r: bool)
    ensures
        r == is_routed_verb(verb@),
{
    let offer = "OFFER".to_owned();
    let answer = "ANSWER".to_owned();
    let ice = "ICE".to_owned();
    *verb == offer || *verb == answer || *verb == ice
}

impl<H> Relay<H> {
    /// A relay with no session.
    pub fn new() -> (r: Self)
        ensures
            r@ == Map::<Seq<char>, H>::empty(),
    {
        Relay { sessions: StringHashMap::new() }
    }

    /// Registers `conn` under `id` (replacing any session already there) and
    /// returns the first frame to send on `conn`: the identity itself.
    pub fn on_connect(&mut self, id: String, conn: H) -> (greeting: String)
        ensures
            greeting@ == id@,
            final(self)@ == old(self)@.insert(id@, conn),
    {
        let greeting = id.clone();
        self.sessions.insert(id, conn);
        greeting
    }

    /// Gives `conn` a fresh random identity, registers it, and returns the
    /// identity as the first frame to send on `conn`.
    pub fn connect(&mut self, conn: H) -> (greeting: String)
        ensures
            is_simple_uuid(greeting@),
            final(self)@ == old(self)@.insert(greeting@, conn),
    {
        let id = random_identity();
        self.on_connect(id, conn)
    }

    /// Routes the frame `text` received from the session `sender`: a
    /// well-formed OFFER, ANSWER or ICE frame whose source is `sender` goes,
    /// unchanged, to the session its target names, if that session is live.
    /// Everything else is dropped.
    pub fn on_message<'a>(&'a self, sender: &str, text: &'a str) -> (r: Option<Delivery<'a, H>>)
        ensures
            match r {
                Some(d) => delivery(self@, sender@, text@) == Some(*d.to) && d.frame@ == text@,
                None => delivery(self@, sender@, text@) is None,
            },
    {
        let frame = match parse_frame(text) {
            Some(f) => f,
            None => return None,
        };
        let sender = sender.to_owned();
        if !(frame.source == sender) {
            return None;
        }
        if !is_routed(&frame.verb) {
            return None;
        }
        match self.sessions.get(frame.target.as_str()) {
            Some(conn) => Some(Delivery { to: conn, frame: text }),
            None => None,
        }
    }

    /// Removes the session `id`; nothing happens if it is not registered.
    pub fn on_close(&mut self, id: &str)
        ensures
            final(self)@ == old(self)@.remove(id@),
    {
        self.sessions.remove(id);
    }

    /// Whether `id` names a live session.
    pub fn is_connected(&self, id: &str) -> (r: bool)
        ensures
            r == self@.contains_key(id@),
    {
        self.sessions.contains_key(id)
    }

    /// The number of live sessions.
    pub fn len(&self) -> (r: usize)
        ensures
            r == self@.len(),
    {
        self.sessions.len()
    }
}

} // verus!
