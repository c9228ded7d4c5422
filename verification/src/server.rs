//! The relay as one sequential state: the listener's id counter, the
//! registry, and the bus. The accept loop's decisions (assign the next
//! identifier, register the default name, subscribe, greet) and the
//! per-session operations are modelled as steps on this state; the real
//! program interleaves the same steps from its concurrent tasks.

use vstd::prelude::*;
use crate::bus::Bus;
use crate::bus::Message;
use crate::registry::Registry;
use crate::session::LineOutcome;
use crate::session::handle_client_message;
use crate::text::default_name;
use crate::text::is_nick_line;
use crate::text::make_default_name;
use crate::text::nick_argument;
use crate::text::rendered_text;
use crate::text::welcome_message;
use crate::text::welcome_text;

verus! {

/// The whole relay: id counter, registry and bus.
pub struct Server {
    next_id: u64,
    registry: Registry,
    bus: Bus,
}

/// The first message a subscriber would see from its queue `q`, skipping
/// every message it published itself: the deliverable text and the part of
/// the queue left behind it, or `None` when nothing forwardable is queued.
pub open spec fn next_for(q: Seq<(u64, Seq<char>)>, id: u64) -> Option<
    (Seq<char>, Seq<(u64, Seq<char>)>),
>
    decreases q.len(),
{
    if q.len() == 0 {
        None
    } else if q[0].0 != id {
        Some((q[0].1, q.drop_first()))
    } else {
        next_for(q.drop_first(), id)
    }
}

impl Server {
    /// The value of the listener's id counter: the identifier most recently
    /// handed out, `0` before the first connection.
    pub closed spec fn counter(&self) -> u64 {
        self.next_id
    }

    /// The registry's contents.
    pub closed spec fn names(&self) -> Map<u64, Seq<char>> {
        self.registry@
    }

    /// The bus subscribers, in subscription order.
    pub closed spec fn subscribers(&self) -> Seq<u64> {
        self.bus.subscriber_ids()
    }

    /// The queue of the subscriber at position `i`.
    pub closed spec fn queue(&self, i: int) -> Seq<(u64, Seq<char>)> {
        self.bus.pending(i)
    }

    /// The position of the subscription held by session `id`.
    pub closed spec fn sub_index(&self, id: u64) -> int {
        choose|i: int| 0 <= i < self.subscribers().len() && self.subscribers()[i] == id
    }

    /// Every subscriber's identifier was handed out by the counter, and no
    /// two subscriptions share one.
    pub closed spec fn wf(&self) -> bool {
        &&& self.bus.wf()
        &&& forall|i: int|
            0 <= i < self.subscribers().len() ==> 1 <= #[trigger] self.subscribers()[i]
                <= self.counter()
    }

    /// A relay that has accepted nothing yet.
    pub fn new() -> (r: Server)
        ensures
            r.wf(),
            r.counter() == 0,
            r.names() == Map::<u64, Seq<char>>::empty(),
            r.subscribers() == Seq::<u64>::empty(),
    {
        Server { next_id: 0, registry: Registry::new(), bus: Bus::new() }
    }

    /// Accepts one connection: assigns the next identifier, inserts the
    /// default display name into the registry before anything else can run
    /// for the session, subscribes it to the bus, and returns the
    /// identifier with the welcome line to send.
    pub fn connect(&mut self) -> (r: (u64, String))
        requires
            old(self).wf(),
            old(self).counter() < u64::MAX,
        ensures
            final(self).wf(),
            r.0 == old(self).counter() + 1,
            final(self).counter() == r.0,
            final(self).names() == old(self).names().insert(r.0, default_name(r.0 as nat)),
            final(self).subscribers() == old(self).subscribers().push(r.0),
            forall|i: int|
                0 <= i < old(self).subscribers().len() ==> final(self).queue(i) == old(self).queue(
                    i,
                ),
            final(self).queue(old(self).subscribers().len() as int) == Seq::<(
                u64,
                Seq<char>,
            )>::empty(),
            r.1@ == welcome_text(r.0 as nat),
    {
        let id = self.next_id + 1;
        self.next_id = id;
        let name = make_default_name(id);
        self.registry.insert(id, name);
        proof {
            if self.bus.subscriber_ids().contains(id) {
                let i = choose|i: int|
                    0 <= i < self.bus.subscriber_ids().len() && self.bus.subscriber_ids()[i] == id;
                assert(self.bus.subscriber_ids()[i] <= old(self).counter());
            }
        }
        self.bus.subscribe(id);
        let welcome = welcome_message(id);
        (id, welcome)
    }

    /// Feeds one line received from session `client_id` through the
    /// message-handling rule. A nickname command only moves the registry; a
    /// chat line is rendered with the sender's name as of this moment and
    /// appended to every subscriber's queue. Returns whether the session
    /// stays active: only a sender without a registry entry — unreachable
    /// while entries are inserted before the handler runs — closes it.
    pub fn client_line(&mut self, client_id: u64, line: &str) -> (r: bool)
        requires
            old(self).wf(),
        ensures
            final(self).wf(),
            final(self).counter() == old(self).counter(),
            final(self).subscribers() == old(self).subscribers(),
            is_nick_line(line@) ==> r && final(self).names() == old(self).names().insert(
                client_id,
                nick_argument(line@),
            ) && forall|i: int|
                0 <= i < old(self).subscribers().len() ==> final(self).queue(i) == old(self).queue(
                    i,
                ),
            !is_nick_line(line@) ==> final(self).names() == old(self).names() && {
                &&& old(self).names().contains_key(client_id) ==> r && forall|i: int|
                    0 <= i < old(self).subscribers().len() ==> final(self).queue(i) == old(
                        self,
                    ).queue(i).push(
                        (client_id, rendered_text(old(self).names()[client_id], line@)),
                    )
                &&& !old(self).names().contains_key(client_id) ==> !r && forall|i: int|
                    0 <= i < old(self).subscribers().len() ==> final(self).queue(i) == old(
                        self,
                    ).queue(i)
            },
    {
        match handle_client_message(client_id, line, &mut self.registry) {
            LineOutcome::NickSet => true,
            LineOutcome::Broadcast(msg) => {
                self.bus.publish(client_id, msg.as_str());
                true
            },
            LineOutcome::SenderUnknown => false,
        }
    }

    /// Hands session `client_id` the next broadcast message it must relay
    /// to its client: its queue is drained front-first, messages the
    /// session published itself are discarded silently on the way, and the
    /// first one with another origin comes out. `None` once nothing
    /// forwardable is left.
    pub fn next_delivery(&mut self, client_id: u64) -> (r: Option<String>)
        requires
            old(self).wf(),
            old(self).subscribers().contains(client_id),
        ensures
            final(self).wf(),
            final(self).counter() == old(self).counter(),
            final(self).names() == old(self).names(),
            final(self).subscribers() == old(self).subscribers(),
            forall|j: int|
                0 <= j < old(self).subscribers().len() && j != old(self).sub_index(client_id)
                    ==> final(self).queue(j) == old(self).queue(j),
            match next_for(old(self).queue(old(self).sub_index(client_id)), client_id) {
                Some(p) => r matches Some(text) && text@ == p.0 && final(self).queue(
                    old(self).sub_index(client_id),
                ) == p.1,
                None => r is None && final(self).queue(old(self).sub_index(client_id)) == Seq::<(
                    u64,
                    Seq<char>,
                )>::empty(),
            },
    {
        let ghost orig = *self;
        let ghost gi = old(self).sub_index(client_id);
        let idx = match self.bus.find_subscriber(client_id) {
            Some(i) => i,
            None => {
                proof {
                    let w = choose|i: int|
                        0 <= i < self.subscribers().len() && self.subscribers()[i] == client_id;
                    assert(self.subscribers()[w] == client_id);
                    assert(false);
                }
                return None;
            },
        };
        proof {
            assert(orig.subscribers()[gi] == client_id);
            assert(idx as int == gi);
        }
        loop
            invariant
                orig == *old(self),
                orig.wf(),
                gi == orig.sub_index(client_id),
                idx < self.bus.subscriber_ids().len(),
                self.bus.subscriber_ids() == orig.subscribers(),
                self.bus.wf(),
                self.next_id == orig.next_id,
                self.registry@ == orig.names(),
                idx as int == gi,
                forall|j: int|
                    0 <= j < orig.subscribers().len() && j != gi ==> self.queue(j) == orig.queue(j),
                next_for(self.queue(gi), client_id) == next_for(orig.queue(gi), client_id),
            decreases self.queue(gi).len(),
        {
            let ghost q = self.queue(gi);
            match self.bus.try_recv(idx) {
                None => {
                    return None;
                },
                Some(m) => {
                    proof {
                        assert(q[0] == m@);
                        assert(self.queue(gi) == q.drop_first());
                    }
                    if m.origin != client_id {
                        return Some(m.text);
                    }
                    proof {
                        assert(next_for(q, client_id) == next_for(q.drop_first(), client_id));
                    }
                },
            }
        }
    }

    /// Ends session `client_id`: its registry entry is removed and its
    /// subscription dropped, so no further receives occur for it. A no-op
    /// on the registry side if the entry is already gone.
    pub fn disconnect(&mut self, client_id: u64)
        requires
            old(self).wf(),
        ensures
            final(self).wf(),
            final(self).counter() == old(self).counter(),
            final(self).names() == old(self).names().remove(client_id),
            !old(self).subscribers().contains(client_id) ==> final(self).subscribers() == old(
                self,
            ).subscribers() && forall|j: int|
                0 <= j < old(self).subscribers().len() ==> final(self).queue(j) == old(self).queue(
                    j,
                ),
            old(self).subscribers().contains(client_id) ==> {
                &&& final(self).subscribers() == old(self).subscribers().remove(
                    old(self).sub_index(client_id),
                )
                &&& forall|j: int|
                    0 <= j < old(self).sub_index(client_id) ==> final(self).queue(j) == old(
                        self,
                    ).queue(j)
                &&& forall|j: int|
                    old(self).sub_index(client_id) <= j < old(self).subscribers().len() - 1
                        ==> final(self).queue(j) == old(self).queue(j + 1)
            },
    {
        self.registry.remove(client_id);
        let ghost gi = old(self).sub_index(client_id);
        match self.bus.find_subscriber(client_id) {
            Some(i) => {
                proof {
                    assert(self.subscribers().contains(client_id));
                    assert(self.subscribers()[gi] == client_id);
                    assert(i as int == gi);
                }
                self.bus.unsubscribe(i);
                proof {
                    assert forall|k: int|
                        0 <= k < self.subscribers().len() implies 1 <= #[trigger] self.subscribers()[k]
                        <= self.counter() by {
                        assert(self.subscribers() == old(self).subscribers().remove(gi));
                        if k < gi {
                            assert(self.subscribers()[k] == old(self).subscribers()[k]);
                        } else {
                            assert(self.subscribers()[k] == old(self).subscribers()[k + 1]);
                        }
                    }
                }
            },
            None => {
                proof {
                    if old(self).subscribers().contains(client_id) {
                        let w = choose|i: int|
                            0 <= i < old(self).subscribers().len() && old(self).subscribers()[i]
                                == client_id;
                        assert(self.subscribers()[w] == client_id);
                    }
                }
            },
        }
    }
}

/// Every live session has exactly one registry entry and every entry
/// belongs to a live session: the registry's domain is exactly the set of
/// subscribed identifiers.
pub open spec fn entries_match_subscriptions(s: Server) -> bool {
    forall|id: u64| s.names().contains_key(id) <==> s.subscribers().contains(id)
}

/// Accepting a connection keeps the correspondence between registry entries
/// and live sessions: the new identifier gains both its entry and its
/// subscription, and nobody else is touched.
pub proof fn lemma_connect_keeps_correspondence(pre: Server, post: Server, id: u64)
    requires
        entries_match_subscriptions(pre),
        post.names() == pre.names().insert(id, default_name(id as nat)),
        post.subscribers() == pre.subscribers().push(id),
    ensures
        entries_match_subscriptions(post),
{
    assert forall|x: u64| post.names().contains_key(x) <==> post.subscribers().contains(x) by {
        let n = pre.subscribers().len() as int;
        if x == id {
            assert(post.subscribers()[n] == id);
        } else {
            if pre.subscribers().contains(x) {
                let w = choose|i: int| 0 <= i < n && pre.subscribers()[i] == x;
                assert(post.subscribers()[w] == x);
            }
            if post.subscribers().contains(x) {
                let w = choose|i: int| 0 <= i < n + 1 && post.subscribers()[i] == x;
                assert(pre.subscribers()[w] == x);
            }
        }
    }
}

/// A nickname change for a live session moves only that session's entry:
/// the correspondence between registry entries and live sessions survives.
pub proof fn lemma_rename_keeps_correspondence(pre: Server, post: Server, id: u64, name: Seq<
    char,
>)
    requires
        entries_match_subscriptions(pre),
        pre.subscribers().contains(id),
        post.names() == pre.names().insert(id, name),
        post.subscribers() == pre.subscribers(),
    ensures
        entries_match_subscriptions(post),
{
}

/// Ending a session removes both its registry entry and its subscription,
/// and nothing else: no entry is left behind for a session whose connection
/// has closed, and every other session keeps its one entry.
pub proof fn lemma_disconnect_keeps_correspondence(pre: Server, post: Server, id: u64)
    requires
        pre.wf(),
        entries_match_subscriptions(pre),
        pre.subscribers().contains(id),
        post.names() == pre.names().remove(id),
        post.subscribers() == pre.subscribers().remove(pre.sub_index(id)),
    ensures
        entries_match_subscriptions(post),
        !post.names().contains_key(id),
{
    let n = pre.subscribers().len() as int;
    let gi = pre.sub_index(id);
    assert(0 <= gi < n && pre.subscribers()[gi] == id);
    assert forall|x: u64| post.names().contains_key(x) <==> post.subscribers().contains(x) by {
        if x == id {
            if post.subscribers().contains(id) {
                let w = choose|i: int| 0 <= i < n - 1 && post.subscribers()[i] == id;
                if w < gi {
                    assert(pre.subscribers()[w] == id);
                } else {
                    assert(pre.subscribers()[w + 1] == id);
                }
                assert(false);
            }
        } else {
            if pre.subscribers().contains(x) {
                let w = choose|i: int| 0 <= i < n && pre.subscribers()[i] == x;
                if w < gi {
                    assert(post.subscribers()[w] == x);
                } else {
                    assert(post.subscribers()[w - 1] == x);
                }
            }
            if post.subscribers().contains(x) {
                let w = choose|i: int| 0 <= i < n - 1 && post.subscribers()[i] == x;
                if w < gi {
                    assert(pre.subscribers()[w] == x);
                } else {
                    assert(pre.subscribers()[w + 1] == x);
                }
            }
        }
    }
}

/// What `connect`'s contract says of one accepted connection: the state
/// before, the state after, and the identifier handed out.
pub open spec fn accepted(pre: Server, post: Server, id: u64) -> bool {
    &&& pre.counter() < u64::MAX
    &&& id == pre.counter() + 1
    &&& post.counter() == id
}

/// Identifiers follow acceptance order, strictly increasing and therefore
/// distinct: whatever happens between two accepted connections, the counter
/// never shrinks, so the later connection's identifier is the larger one.
pub proof fn lemma_ids_strictly_increase(a0: Server, a1: Server, id1: u64, b0: Server, b1: Server,
    id2: u64)
    requires
        accepted(a0, a1, id1),
        a1.counter() <= b0.counter(),
        accepted(b0, b1, id2),
    ensures
        id1 < id2,
        id1 != id2,
{
}

/// A session that disconnects leaves the registry, so a later connection —
/// whatever identifier it is handed — starts over with the fresh default
/// name `user:<new id>`, and the departed identifier stays unknown until
/// reassigned.
pub proof fn lemma_fresh_default_after_disconnect(s0: Server, s1: Server, gone: u64, s2: Server,
    new_id: u64)
    requires
        s1.names() == s0.names().remove(gone),
        s2.names() == s1.names().insert(new_id, default_name(new_id as nat)),
    ensures
        s2.names().contains_key(new_id),
        s2.names()[new_id] == default_name(new_id as nat),
        gone != new_id ==> !s2.names().contains_key(gone),
{
}

/// A message published on the bus while another session is subscribed lands
/// in that session's queue, exactly once, behind what was queued before; the
/// session's own copy is the one its step discards. This restates the bus
/// guarantee at the server's level.
pub proof fn lemma_publish_reaches_every_subscriber(pre: Server, post: Server, sender: u64,
    text: Seq<char>, i: int)
    requires
        post.subscribers() == pre.subscribers(),
        forall|j: int|
            0 <= j < pre.subscribers().len() ==> post.queue(j) == pre.queue(j).push(
                (sender, text),
            ),
        0 <= i < pre.subscribers().len(),
    ensures
        post.queue(i) == pre.queue(i).push((sender, text)),
        crate::bus::occurrences(post.queue(i), (sender, text)) == crate::bus::occurrences(
            pre.queue(i),
            (sender, text),
        ) + 1,
{
    let q = pre.queue(i);
    let m = (sender, text);
    assert(q.push(m).drop_last() =~= q);
    assert(q.push(m).last() == m);
}

/// One deliverable message comes out of a queue at most once: taking the
/// next delivery hands the text over and leaves only the part of the queue
/// behind it, so the same queued copy can never be handed out again.
pub proof fn lemma_delivery_consumes_message(q: Seq<(u64, Seq<char>)>, id: u64, text: Seq<char>,
    rest: Seq<(u64, Seq<char>)>)
    requires
        next_for(q, id) == Some::<(Seq<char>, Seq<(u64, Seq<char>)>)>((text, rest)),
    ensures
        rest.len() < q.len(),
    decreases q.len(),
{
    if q.len() > 0 && q[0].0 == id {
        lemma_delivery_consumes_message(q.drop_first(), id, text, rest);
    }
}

} // verus!
