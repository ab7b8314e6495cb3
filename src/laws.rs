use vstd::prelude::*;

use crate::frame::{frame_fields, lemma_fields_of_split, splits_into};
use crate::relay::{delivery, is_routed_verb};

verus! {

/// A change to the registry: a session opens under an identity, or closes.
pub enum SessionEvent<H> {
    Open(Seq<char>, H),
    Close(Seq<char>),
}

/// The registry after one event, as `Relay::on_connect` and `Relay::on_close` change it.
pub open spec fn apply_event<H>(sessions: Map<Seq<char>, H>, e: SessionEvent<H>) -> Map<Seq<char>, H> {
    match e {
        SessionEvent::Open(id, conn) => sessions.insert(id, conn),
        SessionEvent::Close(id) => sessions.remove(id),
    }
}

/// The registry after a run of events, oldest first.
pub open spec fn apply_events<H>(sessions: Map<Seq<char>, H>, events: Seq<SessionEvent<H>>) -> Map<
    Seq<char>,
    H,
>
    decreases events.len(),
{
    if events.len() == 0 {
        sessions
    } else {
        apply_event(apply_events(sessions, events.drop_last()), events.last())
    }
}

pub open spec fn opens<H>(e: SessionEvent<H>, id: Seq<char>) -> bool {
    e matches SessionEvent::Open(opened, _) && opened == id
}

/// A frame that names an identity with no live session as its target reaches
/// no connection.
pub proof fn law_absent_target_dropped<H>(
    sessions: Map<Seq<char>, H>,
    sender: Seq<char>,
    text: Seq<char>,
    target: Seq<char>,
)
    requires
        !sessions.contains_key(target),
        frame_fields(text) matches Some(f) && f.2 == target,
    ensures
        delivery(sessions, sender, text) is None,
{
}

/// A well-formed OFFER, ANSWER or ICE frame whose source is its sender and
/// whose target is live goes to the target's connection.
pub proof fn law_valid_frame_delivered<H>(
    sessions: Map<Seq<char>, H>,
    sender: Seq<char>,
    text: Seq<char>,
    verb: Seq<char>,
    target: Seq<char>,
    payload: Seq<char>,
)
    requires
        splits_into(text, (verb, sender, target, payload)),
        is_routed_verb(verb),
        sessions.contains_key(target),
    ensures
        delivery(sessions, sender, text) == Some(sessions[target]),
{
    lemma_fields_of_split(text, (verb, sender, target, payload));
}

/// A frame whose source is not its sender's identity is never forwarded,
/// whatever its verb and target.
pub proof fn law_spoofed_source_dropped<H>(
    sessions: Map<Seq<char>, H>,
    sender: Seq<char>,
    text: Seq<char>,
)
    requires
        frame_fields(text) matches Some(f) && f.1 != sender,
    ensures
        delivery(sessions, sender, text) is None,
{
}

proof fn lemma_stays_closed<H>(sessions: Map<Seq<char>, H>, gone: Seq<char>, events: Seq<SessionEvent<H>>)
    requires
        !sessions.contains_key(gone),
        forall|i: int| 0 <= i < events.len() ==> !opens(#[trigger] events[i], gone),
    ensures
        !apply_events(sessions, events).contains_key(gone),
    decreases events.len(),
{
    if events.len() > 0 {
        let rest = events.drop_last();
        assert forall|i: int| 0 <= i < rest.len() implies !opens(#[trigger] rest[i], gone) by {
            assert(rest[i] == events[i]);
        }
        lemma_stays_closed(sessions, gone, rest);
        assert(!opens(events[events.len() - 1], gone));
    }
}

/// Once the session `gone` has closed, frames addressed to it are dropped,
/// whatever sessions under other identities open or close afterwards.
pub proof fn law_closed_session_unreachable<H>(
    sessions: Map<Seq<char>, H>,
    gone: Seq<char>,
    later: Seq<SessionEvent<H>>,
    sender: Seq<char>,
    text: Seq<char>,
)
    requires
        forall|i: int| 0 <= i < later.len() ==> !opens(#[trigger] later[i], gone),
        frame_fields(text) matches Some(f) && f.2 == gone,
    ensures
        delivery(apply_events(sessions.remove(gone), later), sender, text) is None,
{
    lemma_stays_closed(sessions.remove(gone), gone, later);
}

/// Closing a session twice leaves the registry as closing it once does,
/// without the session.
pub proof fn law_close_idempotent<H>(sessions: Map<Seq<char>, H>, id: Seq<char>)
    ensures
        sessions.remove(id).remove(id) == sessions.remove(id),
        !sessions.remove(id).contains_key(id),
{
    assert(sessions.remove(id).remove(id) =~= sessions.remove(id));
}

} // verus!
