//! An in-memory model of the broadcast bus: one FIFO queue of pending
//! messages per subscriber, in subscription order. Publishing appends the
//! message to every subscriber's queue; each subscriber drains its own queue
//! front-first. The model carries the fan-out rules the relay depends on —
//! the real program wires the same decisions to an asynchronous channel.

use vstd::prelude::*;
use vstd::string::StringExecFns;

verus! {

/// One broadcast message: the identifier of the session that published it,
/// and the rendered text.
pub struct Message {
    pub origin: u64,
    pub text: String,
}

impl View for Message {
    type V = (u64, Seq<char>);

    open spec fn view(&self) -> (u64, Seq<char>) {
        (self.origin, self.text@)
    }
}

struct Subscription {
    id: u64,
    pending: Vec<Message>,
}

/// The fan-out bus: a queue of undelivered messages for every subscriber.
pub struct Bus {
    queues: Vec<Subscription>,
}

spec fn msg_views(q: Seq<Message>) -> Seq<(u64, Seq<char>)> {
    q.map_values(|m: Message| m@)
}

impl Bus {
    /// The subscribers' identifiers, in subscription order.
    pub closed spec fn subscriber_ids(&self) -> Seq<u64> {
        self.queues@.map_values(|s: Subscription| s.id)
    }

    /// The messages still queued for the subscriber at position `i`,
    /// oldest first.
    pub closed spec fn pending(&self, i: int) -> Seq<(u64, Seq<char>)> {
        msg_views(self.queues@[i].pending@)
    }

    /// No two subscriptions share an identifier.
    pub open spec fn wf(&self) -> bool {
        forall|i: int, j: int|
            0 <= i < j < self.subscriber_ids().len() ==> self.subscriber_ids()[i]
                != self.subscriber_ids()[j]
    }

    /// A bus with no subscribers.
    pub fn new() -> (r: Bus)
        ensures
            r.subscriber_ids() == Seq::<u64>::empty(),
            r.wf(),
    {
        let r = Bus { queues: Vec::new() };
        proof {
            assert(r.subscriber_ids() =~= Seq::<u64>::empty());
        }
        r
    }

    /// Adds a subscriber with an empty queue. A subscription misses nothing
    /// published after it exists.
    pub fn subscribe(&mut self, id: u64)
        requires
            !old(self).subscriber_ids().contains(id),
        ensures
            final(self).subscriber_ids() == old(self).subscriber_ids().push(id),
            forall|i: int|
                0 <= i < old(self).subscriber_ids().len() ==> final(self).pending(i) == old(
                    self,
                ).pending(i),
            final(self).pending(old(self).subscriber_ids().len() as int) == Seq::<(
                u64,
                Seq<char>,
            )>::empty(),
            old(self).wf() ==> final(self).wf(),
    {
        let ghost old_ids = self.subscriber_ids();
        self.queues.push(Subscription { id, pending: Vec::new() });
        proof {
            assert(self.subscriber_ids() =~= old_ids.push(id));
            assert(self.pending(old_ids.len() as int) =~= Seq::<(u64, Seq<char>)>::empty());
            assert forall|i: int| 0 <= i < old_ids.len() implies self.pending(i) == old(
                self,
            ).pending(i) by {
                assert(self.queues@[i] == old(self).queues@[i]);
                assert(self.pending(i) =~= old(self).pending(i));
            }
        }
    }

    /// Publishes `(origin, text)`: the message is appended, exactly once, to
    /// the queue of every current subscriber — the publisher's own included,
    /// since self-exclusion is applied by the receiving session, not here.
    pub fn publish(&mut self, origin: u64, text: &str)
        ensures
            final(self).subscriber_ids() == old(self).subscriber_ids(),
            forall|i: int|
                0 <= i < old(self).subscriber_ids().len() ==> final(self).pending(i) == old(
                    self,
                ).pending(i).push((origin, text@)),
            old(self).wf() ==> final(self).wf(),
    {
        let ghost orig = *self;
        let n = self.queues.len();
        let mut k: usize = 0;
        while k < n
            invariant
                n == self.queues.len(),
                n == orig.queues.len(),
                k <= n,
                forall|j: int| k <= j < n ==> self.queues@[j] == orig.queues@[j],
                forall|j: int| 0 <= j < k ==> (#[trigger] self.queues@[j]).id == orig.queues@[j].id,
                forall|j: int|
                    0 <= j < k ==> #[trigger] self.pending(j) == orig.pending(j).push(
                        (origin, text@),
                    ),
            decreases n - k,
        {
            let ghost entry = *self;
            let mut sub = self.queues.remove(k);
            let ghost before = sub.pending@;
            sub.pending.push(Message { origin, text: String::from_str(text) });
            proof {
                assert(msg_views(sub.pending@) =~= msg_views(before).push((origin, text@)));
            }
            self.queues.insert(k, sub);
            proof {
                assert(self.queues@ =~= entry.queues@.update(k as int, sub));
                assert(self.pending(k as int) =~= orig.pending(k as int).push((origin, text@)));
                assert forall|j: int|
                    0 <= j < k + 1 implies (#[trigger] self.queues@[j]).id == orig.queues@[j].id by {
                    if j < k {
                        assert(self.queues@[j] == entry.queues@[j]);
                    }
                }
                assert forall|j: int|
                    0 <= j < k + 1 implies #[trigger] self.pending(j) == orig.pending(j).push(
                        (origin, text@),
                    ) by {
                    if j < k {
                        assert(entry.pending(j) == orig.pending(j).push((origin, text@)));
                        assert(self.queues@[j] == entry.queues@[j]);
                    }
                }
            }
            k = k + 1;
        }
        proof {
            assert(self.subscriber_ids() =~= orig.subscriber_ids());
        }
    }

    /// The position of the subscriber with identifier `id`, if any.
    pub fn find_subscriber(&self, id: u64) -> (r: Option<usize>)
        ensures
            match r {
                Some(i) => i < self.subscriber_ids().len() && self.subscriber_ids()[i as int]
                    == id,
                None => !self.subscriber_ids().contains(id),
            },
    {
        let n = self.queues.len();
        let mut k: usize = 0;
        while k < n
            invariant
                n == self.queues.len(),
                k <= n,
                forall|j: int| 0 <= j < k ==> self.subscriber_ids()[j] != id,
            decreases n - k,
        {
            if self.queues[k].id == id {
                return Some(k);
            }
            k = k + 1;
        }
        proof {
            assert forall|j: int| 0 <= j < self.subscriber_ids().len() implies self.subscriber_ids()[j]
                != id by {}
        }
        None
    }

    /// Takes the oldest message queued for the subscriber at position `i`,
    /// if there is one. Messages come out front-first, in publication order.
    pub fn try_recv(&mut self, i: usize) -> (r: Option<Message>)
        requires
            i < old(self).subscriber_ids().len(),
        ensures
            final(self).subscriber_ids() == old(self).subscriber_ids(),
            forall|j: int|
                0 <= j < old(self).subscriber_ids().len() && j != i ==> final(self).pending(j)
                    == old(self).pending(j),
            match r {
                Some(m) => old(self).pending(i as int).len() > 0 && m@ == old(self).pending(
                    i as int,
                )[0] && final(self).pending(i as int) == old(self).pending(i as int).drop_first(),
                None => old(self).pending(i as int).len() == 0 && final(self).pending(i as int)
                    == old(self).pending(i as int),
            },
            old(self).wf() ==> final(self).wf(),
    {
        let ghost orig = *self;
        let mut sub = self.queues.remove(i);
        let r: Option<Message>;
        if sub.pending.len() > 0 {
            let ghost before = sub.pending@;
            let m = sub.pending.remove(0);
            proof {
                assert(msg_views(sub.pending@) =~= msg_views(before).drop_first());
            }
            r = Some(m);
        } else {
            r = None;
        }
        self.queues.insert(i, sub);
        proof {
            assert(self.queues@ =~= orig.queues@.update(i as int, sub));
            assert(self.subscriber_ids() =~= orig.subscriber_ids());
            assert forall|j: int|
                0 <= j < orig.subscriber_ids().len() && j != i implies self.pending(j)
                == orig.pending(j) by {
                assert(self.pending(j) =~= orig.pending(j));
            }
        }
        r
    }

    /// Ends the subscription at position `i`: its queue is dropped, later
    /// subscribers shift down one position, and no further receives occur
    /// for it.
    pub fn unsubscribe(&mut self, i: usize)
        requires
            i < old(self).subscriber_ids().len(),
        ensures
            final(self).subscriber_ids() == old(self).subscriber_ids().remove(i as int),
            forall|j: int| 0 <= j < i ==> final(self).pending(j) == old(self).pending(j),
            forall|j: int|
                i <= j < old(self).subscriber_ids().len() - 1 ==> final(self).pending(j) == old(
                    self,
                ).pending(j + 1),
            old(self).wf() ==> final(self).wf(),
    {
        let ghost orig = *self;
        self.queues.remove(i);
        proof {
            assert(self.subscriber_ids() =~= orig.subscriber_ids().remove(i as int));
            assert forall|j: int| 0 <= j < i implies self.pending(j) == orig.pending(j) by {
                assert(self.pending(j) =~= orig.pending(j));
            }
            assert forall|j: int|
                i <= j < orig.subscriber_ids().len() - 1 implies self.pending(j) == orig.pending(
                j + 1,
            ) by {
                assert(self.pending(j) =~= orig.pending(j + 1));
            }
        }
    }
}

/// How many times message `m` sits in queue `q`.
pub open spec fn occurrences(q: Seq<(u64, Seq<char>)>, m: (u64, Seq<char>)) -> nat
    decreases q.len(),
{
    if q.len() == 0 {
        0
    } else {
        occurrences(q.drop_last(), m) + if q.last() == m {
            1nat
        } else {
            0nat
        }
    }
}

/// Delivery is exactly-once at the bus: a publish hands every subscriber —
/// whatever its position, the publisher's own subscription included — one
/// new copy of the message at the tail of its queue, and the count of
/// copies of that message in the queue grows by exactly one.
pub proof fn lemma_publish_delivers_exactly_once(pre: Bus, post: Bus, origin: u64, text: Seq<
    char,
>, i: int)
    requires
        post.subscriber_ids() == pre.subscriber_ids(),
        forall|j: int|
            0 <= j < pre.subscriber_ids().len() ==> post.pending(j) == pre.pending(j).push(
                (origin, text),
            ),
        0 <= i < pre.subscriber_ids().len(),
    ensures
        post.pending(i) == pre.pending(i).push((origin, text)),
        occurrences(post.pending(i), (origin, text)) == occurrences(pre.pending(i), (origin, text))
            + 1,
{
    let q = pre.pending(i);
    let m = (origin, text);
    assert(q.push(m).drop_last() =~= q);
    assert(q.push(m).last() == m);
}

} // verus!
