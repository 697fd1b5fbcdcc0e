//! In-process fan-out hub with per-subscriber bounded buffering.
//!
//! `publish` delivers a message to the buffer of every active subscriber.
//! A buffer holds at most `cap` pending messages; when a publish finds a
//! buffer full, the oldest pending entry is evicted first (drop-oldest), so
//! one stalled consumer never blocks the publisher or other consumers.
//! A subscriber sees only messages published after its subscription was
//! created, in publish order; unsubscribing is idempotent.
//!
//! The ghost `log` records every published message. Each subscriber carries
//! the ghost history of its removals: every message that left its buffer,
//! in order, flagged `true` when the consumer received it and `false` when
//! a full buffer evicted it. The well-formedness invariant pins the buffer
//! to be exactly the suffix of the log that was published after the
//! subscription's birth and not yet removed.

use vstd::prelude::*;

verus! {

/// View of a buffer of messages as a sequence of character sequences.
pub open spec fn msgs_view(b: Seq<String>) -> Seq<Seq<char>> {
    b.map_values(|m: String| m@)
}

/// Messages of a removal history, in removal order.
pub open spec fn removed_msgs(t: Seq<(Seq<char>, bool)>) -> Seq<Seq<char>> {
    t.map_values(|r: (Seq<char>, bool)| r.0)
}

/// Messages of a removal history that the consumer received, in order.
pub open spec fn received_msgs(t: Seq<(Seq<char>, bool)>) -> Seq<Seq<char>> {
    t.filter(|r: (Seq<char>, bool)| r.1).map_values(|r: (Seq<char>, bool)| r.0)
}

/// One registered consumer inside the hub.
pub struct Subscriber {
    pub id: u64,
    pub buf: Vec<String>,
    /// Length of the hub log when this subscriber was created.
    pub birth: Ghost<nat>,
    /// Every message that left the buffer, in order, with `true` when the
    /// consumer popped it and `false` when an overflow evicted it.
    pub taken: Ghost<Seq<(Seq<char>, bool)>>,
}

/// Handle returned by `subscribe`; owned by exactly one consumer.
#[derive(Debug)]
pub struct Subscription {
    pub id: u64,
}

/// Multi-producer fan-out hub with drop-oldest bounded buffers.
pub struct BroadcastHub {
    pub cap: usize,
    pub subs: Vec<Subscriber>,
    pub next_id: u64,
    /// Every message ever published, in publish order.
    pub log: Ghost<Seq<Seq<char>>>,
    /// How many pending messages overflow has evicted, saturating.
    pub dropped: u64,
}

/// There is a subscriber with this id.
pub open spec fn seq_has_sub(subs: Seq<Subscriber>, id: u64) -> bool {
    exists|i: int| 0 <= i < subs.len() && subs[i].id == id
}

/// Index of the subscriber with this id (meaningful when ids are unique).
pub open spec fn seq_sub_ix(subs: Seq<Subscriber>, id: u64) -> int {
    choose|i: int| 0 <= i < subs.len() && subs[i].id == id
}

/// No two subscribers share an id.
pub open spec fn unique_ids(subs: Seq<Subscriber>) -> bool {
    forall|i: int, j: int|
        #![trigger subs[i].id, subs[j].id]
        0 <= i < j < subs.len() ==> subs[i].id != subs[j].id
}

/// The subscriber's buffer is exactly the not-yet-removed suffix of the log
/// published since its birth, and its removal history is exactly the removed
/// prefix of that suffix.
pub open spec fn sub_wf(s: Subscriber, log: Seq<Seq<char>>, cap: nat) -> bool {
    &&& s.birth@ + s.taken@.len() + s.buf@.len() == log.len()
    &&& removed_msgs(s.taken@) == log.subrange(
        s.birth@ as int,
        (s.birth@ + s.taken@.len()) as int,
    )
    &&& msgs_view(s.buf@) == log.subrange((s.birth@ + s.taken@.len()) as int, log.len() as int)
    &&& s.buf@.len() <= cap
}

/// How one subscriber changes when a message is delivered to it.
pub open spec fn deliver_rel(pre: Subscriber, post: Subscriber, m: Seq<char>, cap: nat) -> bool {
    &&& post.id == pre.id
    &&& post.birth@ == pre.birth@
    &&& if pre.buf@.len() >= cap {
        &&& post.taken@ == pre.taken@.push((pre.buf@[0]@, false))
        &&& msgs_view(post.buf@) == msgs_view(pre.buf@).skip(1).push(m)
    } else {
        &&& post.taken@ == pre.taken@
        &&& msgs_view(post.buf@) == msgs_view(pre.buf@).push(m)
    }
}

/// Overflow evictions that delivering one message to these subscribers causes.
pub open spec fn drops_in(subs: Seq<Subscriber>, cap: nat) -> nat
    decreases subs.len(),
{
    if subs.len() == 0 {
        0
    } else {
        drops_in(subs.drop_last(), cap) + if subs.last().buf@.len() >= cap {
            1nat
        } else {
            0nat
        }
    }
}

/// Saturating add of a count onto a 64-bit metric.
pub open spec fn sat_add64(a: u64, b: nat) -> u64 {
    if a + b > u64::MAX {
        u64::MAX
    } else {
        (a + b) as u64
    }
}

/// Everything `publish` does: the log grows by the message, every subscriber
/// receives it into its buffer (evicting its oldest pending entry when the
/// buffer is full), and the overflow metric counts the evictions.
pub open spec fn publish_step(pre: BroadcastHub, post: BroadcastHub, m: Seq<char>) -> bool {
    &&& post.cap == pre.cap
    &&& post.next_id == pre.next_id
    &&& post.log@ == pre.log@.push(m)
    &&& post.subs@.len() == pre.subs@.len()
    &&& forall|k: int|
        0 <= k < pre.subs@.len() ==> deliver_rel(
            pre.subs@[k],
            #[trigger] post.subs@[k],
            m,
            pre.cap as nat,
        )
    &&& post.dropped == sat_add64(pre.dropped, drops_in(pre.subs@, pre.cap as nat))
}

impl BroadcastHub {
    /// The hub invariant: positive capacity, unique subscriber ids below
    /// `next_id`, and every subscriber well-formed against the log.
    pub open spec fn wf(&self) -> bool {
        &&& self.cap >= 1
        &&& unique_ids(self.subs@)
        &&& forall|i: int|
            0 <= i < self.subs@.len() ==> sub_wf(
                #[trigger] self.subs@[i],
                self.log@,
                self.cap as nat,
            )
        &&& forall|i: int| 0 <= i < self.subs@.len() ==> #[trigger] self.subs@[i].id < self.next_id
    }

    /// Ids of the active subscribers, in registration order.
    pub open spec fn ids(&self) -> Seq<u64> {
        self.subs@.map_values(|s: Subscriber| s.id)
    }

    pub open spec fn has_sub(&self, id: u64) -> bool {
        seq_has_sub(self.subs@, id)
    }

    pub open spec fn sub(&self, id: u64) -> Subscriber {
        self.subs@[seq_sub_ix(self.subs@, id)]
    }

    /// Messages buffered for this subscriber, oldest first.
    pub open spec fn pending(&self, id: u64) -> Seq<Seq<char>> {
        msgs_view(self.sub(id).buf@)
    }

    /// Length of the log when this subscriber was created.
    pub open spec fn birth(&self, id: u64) -> nat {
        self.sub(id).birth@
    }

    /// Removal history of this subscriber.
    pub open spec fn removals(&self, id: u64) -> Seq<(Seq<char>, bool)> {
        self.sub(id).taken@
    }

    /// A fresh hub with the given per-subscriber buffer capacity.
    pub fn new(capacity: usize) -> (h: BroadcastHub)
        requires
            capacity >= 1,
        ensures
            h.wf(),
            h.cap == capacity,
            h.log@ =~= Seq::<Seq<char>>::empty(),
            h.ids() =~= Seq::<u64>::empty(),
            h.dropped == 0,
            h.next_id == 0,
    {
        BroadcastHub {
            cap: capacity,
            subs: Vec::new(),
            next_id: 0,
            log: Ghost(Seq::empty()),
            dropped: 0,
        }
    }

    /// Registers a new consumer; it observes only future publishes.
    pub fn subscribe(&mut self) -> (s: Subscription)
        requires
            old(self).wf(),
            old(self).next_id < u64::MAX,
        ensures
            final(self).wf(),
            s.id == old(self).next_id,
            final(self).next_id == old(self).next_id + 1,
            !old(self).has_sub(s.id),
            final(self).has_sub(s.id),
            final(self).cap == old(self).cap,
            final(self).log@ == old(self).log@,
            final(self).dropped == old(self).dropped,
            final(self).ids() == old(self).ids().push(s.id),
            final(self).pending(s.id) =~= Seq::<Seq<char>>::empty(),
            final(self).birth(s.id) == old(self).log@.len(),
            final(self).removals(s.id) =~= Seq::<(Seq<char>, bool)>::empty(),
            forall|id: u64|
                #[trigger] old(self).has_sub(id) ==> final(self).has_sub(id)
                    && final(self).pending(id) == old(self).pending(id) && final(self).birth(id)
                    == old(self).birth(id) && final(self).removals(id) == old(self).removals(id),
    {
        let ghost pre = *self;
        let id = self.next_id;
        self.next_id = self.next_id + 1;
        let sub = Subscriber {
            id,
            buf: Vec::new(),
            birth: Ghost(self.log@.len()),
            taken: Ghost(Seq::empty()),
        };
        self.subs.push(sub);
        proof {
            let post = *self;
            assert forall|a: int, b: int|
                #![trigger post.subs@[a].id, post.subs@[b].id]
                0 <= a < b < post.subs@.len() implies post.subs@[a].id != post.subs@[b].id by {
                if b < pre.subs@.len() as int {
                    assert(pre.subs@[a].id != pre.subs@[b].id);
                } else {
                    assert(pre.subs@[a].id < pre.next_id);
                }
            }
            let n = pre.subs@.len() as int;
            assert(post.subs@ == pre.subs@.push(post.subs@[n]));
            assert(post.subs@[n].id == id);
            assert(!seq_has_sub(pre.subs@, id));
            assert(post.ids() =~= pre.ids().push(id));
            let b = post.subs@[n].birth@ as int;
            assert(msgs_view(post.subs@[n].buf@) =~= post.log@.subrange(b, post.log@.len() as int));
            assert(removed_msgs(post.subs@[n].taken@) =~= post.log@.subrange(b, b));
            assert(sub_wf(post.subs@[n], post.log@, post.cap as nat));
            lemma_ix_is(post.subs@, id, n);
            assert forall|id2: u64| #[trigger] pre.has_sub(id2) implies post.has_sub(id2)
                && post.pending(id2) == pre.pending(id2) && post.birth(id2) == pre.birth(id2)
                && post.removals(id2) == pre.removals(id2) by {
                let i = seq_sub_ix(pre.subs@, id2);
                assert(pre.subs@[i].id == id2);
                assert(post.subs@[i] == pre.subs@[i]);
                lemma_ix_is(pre.subs@, id2, i);
                lemma_ix_is(post.subs@, id2, i);
            }
        }
        Subscription { id }
    }

    /// Delivers a message to every active subscriber, never blocking: a full
    /// buffer gives up its oldest pending entry first.
    pub fn publish(&mut self, msg: &str)
        requires
            old(self).wf(),
        ensures
            final(self).wf(),
            publish_step(*old(self), *final(self), msg@),
            final(self).ids() == old(self).ids(),
    {
        let ghost pre = *self;
        self.log = Ghost(self.log@.push(msg@));
        let cap = self.cap;
        let mut i: usize = 0;
        while i < self.subs.len()
            invariant
                pre.wf(),
                cap == pre.cap,
                self.cap == pre.cap,
                self.next_id == pre.next_id,
                self.log@ == pre.log@.push(msg@),
                self.subs@.len() == pre.subs@.len(),
                i <= self.subs@.len(),
                forall|k: int|
                    0 <= k < i ==> deliver_rel(
                        pre.subs@[k],
                        #[trigger] self.subs@[k],
                        msg@,
                        pre.cap as nat,
                    ),
                forall|k: int| i <= k < self.subs@.len() ==> #[trigger] self.subs@[k] == pre.subs@[k],
                self.dropped == sat_add64(pre.dropped, drops_in(pre.subs@.take(i as int), pre.cap as nat)),
            decreases self.subs@.len() - i,
        {
            let ghost pre_subs = self.subs@;
            let mut s = self.subs.remove(i);
            let ghost s0 = s;
            let full: bool = s.buf.len() >= cap;
            if full {
                let victim = s.buf.remove(0);
                proof {
                    s.taken@ = s.taken@.push((victim@, false));
                }
                if self.dropped < u64::MAX {
                    self.dropped = self.dropped + 1;
                }
            }
            s.buf.push(msg.to_owned());
            self.subs.insert(i, s);
            proof {
                assert(self.subs@ =~= pre_subs.update(i as int, s));
                assert(s0 == pre.subs@[i as int]);
                if full {
                    assert(msgs_view(s.buf@) =~= msgs_view(s0.buf@).skip(1).push(msg@));
                } else {
                    assert(msgs_view(s.buf@) =~= msgs_view(s0.buf@).push(msg@));
                }
                assert(deliver_rel(s0, s, msg@, pre.cap as nat));
                lemma_drops_in_step(pre.subs@, pre.cap as nat, i as int);
                assert(sub_wf(s0, pre.log@, pre.cap as nat));
            }
            i = i + 1;
        }
        proof {
            assert(pre.subs@.take(pre.subs@.len() as int) =~= pre.subs@);
            assert forall|k: int| 0 <= k < self.subs@.len() implies sub_wf(
                #[trigger] self.subs@[k],
                self.log@,
                self.cap as nat,
            ) by {
                assert(sub_wf(pre.subs@[k], pre.log@, pre.cap as nat));
                lemma_deliver_preserves_wf(
                    pre.subs@[k],
                    self.subs@[k],
                    pre.log@,
                    msg@,
                    pre.cap as nat,
                );
            }
            assert(self.ids() =~= pre.ids());
        }
    }

    /// Pops the oldest pending message of this subscription, if any.
    pub fn pop_next(&mut self, sub: &Subscription) -> (r: Option<String>)
        requires
            old(self).wf(),
        ensures
            final(self).wf(),
            final(self).cap == old(self).cap,
            final(self).log@ == old(self).log@,
            final(self).dropped == old(self).dropped,
            final(self).ids() == old(self).ids(),
            forall|id: u64|
                #![trigger final(self).has_sub(id)]
                #![trigger old(self).has_sub(id)]
                final(self).has_sub(id) == old(self).has_sub(id),
            r is Some <==> old(self).has_sub(sub.id) && old(self).pending(sub.id).len() > 0,
            r is None ==> *final(self) == *old(self),
            r matches Some(m) ==> m@ == old(self).pending(sub.id)[0] && final(self).pending(sub.id)
                =~= old(self).pending(sub.id).skip(1) && final(self).removals(sub.id) == old(
                self,
            ).removals(sub.id).push((m@, true)) && final(self).birth(sub.id) == old(self).birth(
                sub.id,
            ),
            forall|id: u64|
                id != sub.id && #[trigger] old(self).has_sub(id) ==> final(self).has_sub(id)
                    && final(self).pending(id) == old(self).pending(id) && final(self).birth(id)
                    == old(self).birth(id) && final(self).removals(id) == old(self).removals(id),
    {
        let ghost pre = *self;
        let mut i: usize = 0;
        while i < self.subs.len()
            invariant
                *self == pre,
                pre == *old(self),
                pre.wf(),
                i <= self.subs@.len(),
                forall|k: int| 0 <= k < i ==> #[trigger] self.subs@[k].id != sub.id,
            decreases self.subs@.len() - i,
        {
            if self.subs[i].id == sub.id {
                proof {
                    lemma_ix_is(pre.subs@, sub.id, i as int);
                }
                if self.subs[i].buf.len() == 0 {
                    proof {
                        assert(pre.pending(sub.id) =~= msgs_view(pre.subs@[i as int].buf@));
                    }
                    return None;
                }
                let ghost pre_subs = self.subs@;
                let mut s = self.subs.remove(i);
                let ghost s0 = s;
                let m = s.buf.remove(0);
                proof {
                    s.taken@ = s.taken@.push((m@, true));
                }
                self.subs.insert(i, s);
                proof {
                    assert(self.subs@ =~= pre_subs.update(i as int, s));
                    assert(s0 == pre.subs@[i as int]);
                    assert(sub_wf(s0, pre.log@, pre.cap as nat));
                    assert(msgs_view(s.buf@) =~= msgs_view(s0.buf@).skip(1));
                    assert(removed_msgs(s.taken@) =~= removed_msgs(s0.taken@).push(m@));
                    assert(m@ == msgs_view(s0.buf@)[0]);
                    assert(msgs_view(s0.buf@)[0] == pre.log@[(s0.birth@ + s0.taken@.len()) as int]);
                    assert(sub_wf(s, pre.log@, pre.cap as nat)) by {
                        assert(removed_msgs(s.taken@) =~= pre.log@.subrange(
                            s.birth@ as int,
                            (s.birth@ + s.taken@.len()) as int,
                        ));
                        assert(msgs_view(s.buf@) =~= pre.log@.subrange(
                            (s.birth@ + s.taken@.len()) as int,
                            pre.log@.len() as int,
                        ));
                    }
                    assert(unique_ids(self.subs@));
                    lemma_ix_is(self.subs@, sub.id, i as int);
                    assert(self.ids() =~= pre.ids());
                    assert forall|id2: u64|
                        #![trigger self.has_sub(id2)]
                        #![trigger pre.has_sub(id2)]
                        self.has_sub(id2) == pre.has_sub(id2) by {
                        if seq_has_sub(pre.subs@, id2) {
                            let j = choose|j: int|
                                0 <= j < pre.subs@.len() && pre.subs@[j].id == id2;
                            assert(self.subs@[j].id == id2);
                        }
                        if seq_has_sub(self.subs@, id2) {
                            let j = choose|j: int|
                                0 <= j < self.subs@.len() && self.subs@[j].id == id2;
                            assert(pre.subs@[j].id == id2);
                        }
                    }
                    assert forall|id2: u64| id2 != sub.id && #[trigger] pre.has_sub(id2) implies self.has_sub(
                        id2,
                    ) && self.pending(id2) == pre.pending(id2) && self.birth(id2) == pre.birth(id2)
                        && self.removals(id2) == pre.removals(id2) by {
                        let j = seq_sub_ix(pre.subs@, id2);
                        assert(pre.subs@[j].id == id2);
                        assert(j != i as int);
                        assert(self.subs@[j] == pre.subs@[j]);
                        lemma_ix_is(pre.subs@, id2, j);
                        lemma_ix_is(self.subs@, id2, j);
                    }
                }
                return Some(m);
            }
            i = i + 1;
        }
        proof {
            assert(!pre.has_sub(sub.id));
        }
        None
    }

    /// Removes a subscriber and frees its buffer. Idempotent: removing an
    /// absent subscription changes nothing and is no error.
    pub fn unsubscribe(&mut self, sub: &Subscription)
        requires
            old(self).wf(),
        ensures
            final(self).wf(),
            final(self).cap == old(self).cap,
            final(self).log@ == old(self).log@,
            final(self).dropped == old(self).dropped,
            !final(self).has_sub(sub.id),
            !old(self).has_sub(sub.id) ==> *final(self) == *old(self),
            old(self).has_sub(sub.id) ==> final(self).subs@ == old(self).subs@.remove(
                seq_sub_ix(old(self).subs@, sub.id),
            ),
            forall|id: u64|
                id != sub.id && #[trigger] old(self).has_sub(id) ==> final(self).has_sub(id)
                    && final(self).pending(id) == old(self).pending(id) && final(self).birth(id)
                    == old(self).birth(id) && final(self).removals(id) == old(self).removals(id),
    {
        let ghost pre = *self;
        let mut i: usize = 0;
        while i < self.subs.len()
            invariant
                *self == pre,
                pre == *old(self),
                pre.wf(),
                i <= self.subs@.len(),
                forall|k: int| 0 <= k < i ==> #[trigger] self.subs@[k].id != sub.id,
            decreases self.subs@.len() - i,
        {
            if self.subs[i].id == sub.id {
                proof {
                    lemma_ix_is(pre.subs@, sub.id, i as int);
                }
                self.subs.remove(i);
                proof {
                    assert forall|k: int|
                        0 <= k < self.subs@.len() implies #[trigger] self.subs@[k].id
                        != sub.id by {
                        if k < i as int {
                            assert(self.subs@[k] == pre.subs@[k]);
                        } else {
                            assert(self.subs@[k] == pre.subs@[k + 1]);
                        }
                    }
                    assert forall|id2: u64| id2 != sub.id && #[trigger] pre.has_sub(id2) implies self.has_sub(
                        id2,
                    ) && self.pending(id2) == pre.pending(id2) && self.birth(id2) == pre.birth(id2)
                        && self.removals(id2) == pre.removals(id2) by {
                        let j = seq_sub_ix(pre.subs@, id2);
                        assert(pre.subs@[j].id == id2);
                        assert(j != i as int);
                        let j2: int = if j < i as int {
                            j
                        } else {
                            j - 1
                        };
                        assert(self.subs@[j2] == pre.subs@[j]);
                        lemma_ix_is(pre.subs@, id2, j);
                        lemma_ix_is(self.subs@, id2, j2);
                    }
                }
                return ;
            }
            i = i + 1;
        }
        proof {
            assert(!pre.has_sub(sub.id));
        }
    }
}

/// With unique ids, the chosen index of an id is the index where it sits.
pub proof fn lemma_ix_is(subs: Seq<Subscriber>, id: u64, i: int)
    requires
        unique_ids(subs),
        0 <= i < subs.len(),
        subs[i].id == id,
    ensures
        seq_has_sub(subs, id),
        seq_sub_ix(subs, id) == i,
{
    assert(seq_has_sub(subs, id));
    let j = seq_sub_ix(subs, id);
    assert(0 <= j < subs.len() && subs[j].id == id);
    if i < j {
        assert(subs[i].id != subs[j].id);
    } else if j < i {
        assert(subs[j].id != subs[i].id);
    }
}

/// Delivering one message to a well-formed subscriber keeps it well-formed
/// against the grown log.
proof fn lemma_deliver_preserves_wf(
    pre: Subscriber,
    post: Subscriber,
    log: Seq<Seq<char>>,
    m: Seq<char>,
    cap: nat,
)
    requires
        cap >= 1,
        sub_wf(pre, log, cap),
        deliver_rel(pre, post, m, cap),
    ensures
        sub_wf(post, log.push(m), cap),
{
    let log2 = log.push(m);
    let front: int = (pre.birth@ + pre.taken@.len()) as int;
    if pre.buf@.len() >= cap {
        assert(pre.buf@.len() == cap);
        assert(msgs_view(pre.buf@)[0] == log[front]);
        assert(removed_msgs(post.taken@) =~= removed_msgs(pre.taken@).push(log[front]));
        assert(removed_msgs(post.taken@) =~= log2.subrange(pre.birth@ as int, front + 1));
        assert(msgs_view(post.buf@) =~= log2.subrange(front + 1, log2.len() as int));
    } else {
        assert(removed_msgs(post.taken@) =~= log2.subrange(pre.birth@ as int, front as int));
        assert(msgs_view(post.buf@) =~= log2.subrange(front as int, log2.len() as int));
    }
}

/// Peeling one subscriber off the eviction count.
proof fn lemma_drops_in_step(subs: Seq<Subscriber>, cap: nat, i: int)
    requires
        0 <= i < subs.len(),
    ensures
        drops_in(subs.take(i + 1), cap) == drops_in(subs.take(i), cap) + if subs[i].buf@.len()
            >= cap {
            1nat
        } else {
            0nat
        },
{
    assert(subs.take(i + 1).drop_last() =~= subs.take(i));
    assert(subs.take(i + 1).last() == subs[i]);
}

/// What one publish does to one subscription, by id: the message lands at
/// the back of its pending buffer, and exactly when the buffer was full the
/// oldest pending message moves to the removal history as an overflow drop.
/// In particular delivery is per subscriber: no other subscriber's state
/// plays any part.
pub proof fn lemma_publish_step_by_id(
    pre: BroadcastHub,
    post: BroadcastHub,
    m: Seq<char>,
    id: u64,
)
    requires
        pre.wf(),
        post.wf(),
        publish_step(pre, post, m),
        pre.has_sub(id),
    ensures
        post.has_sub(id),
        post.birth(id) == pre.birth(id),
        pre.pending(id).len() < pre.cap ==> post.pending(id) == pre.pending(id).push(m)
            && post.removals(id) == pre.removals(id),
        pre.pending(id).len() >= pre.cap ==> post.pending(id) == pre.pending(id).skip(1).push(m)
            && post.removals(id) == pre.removals(id).push((pre.pending(id)[0], false)),
{
    let k = seq_sub_ix(pre.subs@, id);
    assert(pre.subs@[k].id == id);
    assert(deliver_rel(pre.subs@[k], post.subs@[k], m, pre.cap as nat));
    lemma_ix_is(post.subs@, id, k);
}

/// Everything a subscription has seen or still holds is exactly the suffix of
/// the hub log published after its creation, in publish order: the removal
/// history followed by the pending buffer reconstructs that suffix, and the
/// messages the consumer received are the removal records not flagged as
/// overflow drops.
pub proof fn lemma_subscriber_sees_suffix(h: BroadcastHub, id: u64)
    requires
        h.wf(),
        h.has_sub(id),
    ensures
        h.birth(id) <= h.log@.len(),
        h.birth(id) + h.removals(id).len() + h.pending(id).len() == h.log@.len(),
        removed_msgs(h.removals(id)) + h.pending(id) == h.log@.skip(h.birth(id) as int),
        received_msgs(h.removals(id)).len() + h.removals(id).filter(
            |r: (Seq<char>, bool)| !r.1,
        ).len() + h.pending(id).len() == h.log@.len() - h.birth(id),
{
    let i = seq_sub_ix(h.subs@, id);
    let s = h.subs@[i];
    assert(sub_wf(s, h.log@, h.cap as nat));
    let b = s.birth@ as int;
    let f = b + s.taken@.len();
    let l = h.log@.len() as int;
    assert(removed_msgs(s.taken@) + msgs_view(s.buf@) =~= h.log@.skip(b));
    lemma_filter_partition(s.taken@);
}

/// Every removal record is either a receipt or an overflow drop.
proof fn lemma_filter_partition(t: Seq<(Seq<char>, bool)>)
    ensures
        t.filter(|r: (Seq<char>, bool)| r.1).len() + t.filter(|r: (Seq<char>, bool)| !r.1).len()
            == t.len(),
    decreases t.len(),
{
    reveal(Seq::filter);
    if t.len() > 0 {
        lemma_filter_partition(t.drop_last());
    }
}

} // verus!
