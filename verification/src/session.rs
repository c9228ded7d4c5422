//! The per-session rules: what one line from the client does, and how the
//! session's event loop reacts to each event it can wake up on. The
//! surrounding program runs the loop itself (it owns the socket and the
//! broadcast channel); every decision is taken here.

use vstd::prelude::*;
use crate::registry::Registry;
use crate::text::is_nick_line;
use crate::text::line_is_nick_command;
use crate::text::nick_argument;
use crate::text::parse_nick;
use crate::text::render_message;
use crate::text::rendered_text;

verus! {

/// What one line from the client led to.
pub enum LineOutcome {
    /// The line was a nickname command; the registry was updated and
    /// nothing is broadcast.
    NickSet,
    /// The line was a chat line; the carried text is what must be published
    /// on the bus, paired with this session's identifier.
    Broadcast(String),
    /// The line was a chat line but the sender had no registry entry. This
    /// is unreachable while the registry invariant holds; the session
    /// treats it as a local fault and closes.
    SenderUnknown,
}

/// Applies the message-handling rule to one line received from the client
/// of session `client_id`.
///
/// A line that begins with `/nick ` sets the session's display name to the
/// trimmed remainder and is never broadcast. Any other line is rendered
/// with the display name current at this very moment and handed back for
/// publication; the registry is left untouched.
pub fn handle_client_message(client_id: u64, line: &str, registry: &mut Registry) -> (r:
    LineOutcome)
    ensures
        is_nick_line(line@) ==> r is NickSet && final(registry)@ == old(registry)@.insert(
            client_id,
            nick_argument(line@),
        ),
        !is_nick_line(line@) ==> final(registry)@ == old(registry)@ && {
            &&& old(registry)@.contains_key(client_id) ==> (r matches LineOutcome::Broadcast(m)
                && m@ == rendered_text(old(registry)@[client_id], line@))
            &&& !old(registry)@.contains_key(client_id) ==> r is SenderUnknown
        },
{
    if line_is_nick_command(line) {
        let nick = parse_nick(line);
        registry.insert(client_id, nick);
        LineOutcome::NickSet
    } else {
        match registry.get(client_id) {
            Ok(name) => {
                let msg = render_message(name.as_str(), line);
                LineOutcome::Broadcast(msg)
            },
            Err(_) => LineOutcome::SenderUnknown,
        }
    }
}

/// One event the session's loop can wake up on.
pub enum SessionEvent {
    /// A full line arrived from the client.
    LineRead(String),
    /// The client closed its write half: clean disconnect.
    ReadClosed,
    /// Reading from the client failed.
    ReadFailed,
    /// A broadcast message arrived from the bus: its origin's session
    /// identifier and its rendered text.
    BusMessage(u64, String),
    /// The bus was closed.
    BusClosed,
    /// This subscriber lagged and the bus dropped messages for it: a
    /// recoverable signal, not a fault.
    BusLagged,
}

/// What the loop must do next after one event.
pub enum SessionReaction {
    /// Write the carried text to the client and flush.
    Forward(String),
    /// Publish the carried text on the bus under this session's identifier.
    Publish(String),
    /// Nothing to do; wait for the next event.
    Ignore,
    /// Leave the loop: remove the registry entry and release the stream.
    Close,
}

/// One step of the session's `ACTIVE` loop: reacts to a single event.
///
/// A broadcast message is forwarded to the client exactly when its origin is
/// another session; a message this session published itself is discarded
/// silently. End-of-stream, a read error and a closed bus all end the loop;
/// lag is logged and survived. Only a nickname line moves the registry.
pub fn session_step(client_id: u64, event: SessionEvent, registry: &mut Registry) -> (r:
    SessionReaction)
    ensures
        match event {
            SessionEvent::LineRead(line) => {
                &&& is_nick_line(line@) ==> r is Ignore && final(registry)@ == old(
                    registry,
                )@.insert(client_id, nick_argument(line@))
                &&& !is_nick_line(line@) ==> final(registry)@ == old(registry)@ && {
                    &&& old(registry)@.contains_key(client_id) ==> (r matches
                        SessionReaction::Publish(m) && m@ == rendered_text(
                        old(registry)@[client_id],
                        line@,
                    ))
                    &&& !old(registry)@.contains_key(client_id) ==> r is Close
                }
            },
            SessionEvent::BusMessage(origin, text) => {
                &&& final(registry)@ == old(registry)@
                &&& origin == client_id ==> r is Ignore
                &&& origin != client_id ==> (r matches SessionReaction::Forward(m) && m@ == text@)
            },
            SessionEvent::BusLagged => r is Ignore && final(registry)@ == old(registry)@,
            _ => r is Close && final(registry)@ == old(registry)@,
        },
{
    match event {
        SessionEvent::LineRead(line) => {
            match handle_client_message(client_id, line.as_str(), registry) {
                LineOutcome::NickSet => SessionReaction::Ignore,
                LineOutcome::Broadcast(msg) => SessionReaction::Publish(msg),
                LineOutcome::SenderUnknown => SessionReaction::Close,
            }
        },
        SessionEvent::BusMessage(origin, text) => {
            if origin != client_id {
                SessionReaction::Forward(text)
            } else {
                SessionReaction::Ignore
            }
        },
        SessionEvent::BusLagged => SessionReaction::Ignore,
        SessionEvent::ReadClosed => SessionReaction::Close,
        SessionEvent::ReadFailed => SessionReaction::Close,
        SessionEvent::BusClosed => SessionReaction::Close,
    }
}

/// Self-exclusion: whatever the registry holds and whatever the text, a
/// session that receives a message carrying its own identifier as origin
/// never forwards it to its client — the step reacts with `Ignore`, so the
/// message is discarded and nothing is written back.
pub proof fn lemma_self_exclusion(client_id: u64, text: String, registry: Registry, r:
    SessionReaction, registry_after: Registry)
    requires
        session_step_spec_holds(client_id, SessionEvent::BusMessage(client_id, text), registry, r,
            registry_after),
    ensures
        r is Ignore,
        registry_after@ == registry@,
{
}

/// What `session_step`'s contract says of one call: `registry` the value
/// before, `registry_after` the value after, `r` the reaction returned.
pub open spec fn session_step_spec_holds(client_id: u64, event: SessionEvent, registry: Registry,
    r: SessionReaction, registry_after: Registry) -> bool {
    match event {
        SessionEvent::LineRead(line) => {
            &&& is_nick_line(line@) ==> r is Ignore && registry_after@ == registry@.insert(
                client_id,
                nick_argument(line@),
            )
            &&& !is_nick_line(line@) ==> registry_after@ == registry@ && {
                &&& registry@.contains_key(client_id) ==> (r matches SessionReaction::Publish(m)
                    && m@ == rendered_text(registry@[client_id], line@))
                &&& !registry@.contains_key(client_id) ==> r is Close
            }
        },
        SessionEvent::BusMessage(origin, text) => {
            &&& registry_after@ == registry@
            &&& origin == client_id ==> r is Ignore
            &&& origin != client_id ==> (r matches SessionReaction::Forward(m) && m@ == text@)
        },
        SessionEvent::BusLagged => r is Ignore && registry_after@ == registry@,
        _ => r is Close && registry_after@ == registry@,
    }
}

/// Rendering happens at publish time. A chat line published while the
/// registry holds name `n` for the sender is rendered with `n`; a nickname
/// command issued afterwards changes only the registry, so a chat line
/// published after it is rendered with the new name while the text already
/// rendered is exactly what it was — the update is visible to subsequent
/// publishes and never retroactive.
pub proof fn lemma_nick_update_not_retroactive(client_id: u64, reg: Map<u64, Seq<char>>,
    first_line: Seq<char>, nick_line: Seq<char>, second_line: Seq<char>)
    requires
        reg.contains_key(client_id),
        !is_nick_line(first_line),
        is_nick_line(nick_line),
        !is_nick_line(second_line),
    ensures
        published_text(reg, client_id, first_line) == rendered_text(reg[client_id], first_line),
        published_text(reg.insert(client_id, nick_argument(nick_line)), client_id, second_line)
            == rendered_text(nick_argument(nick_line), second_line),
{
}

/// The text a chat line is published as, given the registry at the moment
/// of publication: the rendering uses the display name current then.
pub open spec fn published_text(reg: Map<u64, Seq<char>>, client_id: u64, line: Seq<char>) -> Seq<
    char,
>
    recommends
        reg.contains_key(client_id),
        !is_nick_line(line),
{
    rendered_text(reg[client_id], line)
}

} // verus!
