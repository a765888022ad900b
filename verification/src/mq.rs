//! Topic routing of the in-memory message bus, and the names that the
//! stream-backed buses give to topics.
use vstd::prelude::*;
use crate::strmap::StrMap;

verus! {

/// Settings of the in-memory bus.
#[derive(Debug, Clone, Copy)]
pub struct MemoryMqConfig {
    pub channel_capacity: usize,
}

/// The routing state of one topic: its subscribers in subscription order and
/// the round-robin cursor.
pub struct Route {
    pub subscribers: Seq<u64>,
    pub cursor: Option<usize>,
}

/// Where a message goes.
#[derive(Debug, Clone, Copy, PartialEq, Eq, Structural)]
pub enum Delivery {
    /// No open subscriber: the message is dropped.
    Dropped,
    /// Deliver to this subscriber.
    To(u64),
}

/// The position a publish on a topic with `n > 0` subscribers uses, given the cursor.
pub open spec fn pick(cursor: Option<usize>, n: nat) -> nat {
    match cursor {
        Some(c) => (c as nat) % n,
        None => 0,
    }
}

/// Message routing for an in-memory bus: each topic has an ordered list of
/// subscribers and delivers each message to exactly one of them, in turn.
/// The channels themselves live with the caller, keyed by subscriber id.
pub struct InMemoryBus {
    subscribers: StrMap<Vec<u64>>,
    cursors: StrMap<usize>,
    next_id: u64,
    capacity: usize,
}

impl InMemoryBus {
    pub closed spec fn wf(&self) -> bool {
        self.subscribers.wf() && self.cursors.wf()
    }

    /// The subscribers of each topic that has had one.
    pub closed spec fn subs(&self) -> Map<Seq<char>, Seq<u64>> {
        self.subscribers.view().map_values(|v: Vec<u64>| v@)
    }

    /// The round-robin cursor of each topic that has been published to with subscribers.
    pub closed spec fn cursors(&self) -> Map<Seq<char>, usize> {
        self.cursors.view()
    }

    /// The id the next subscriber receives.
    pub closed spec fn next_id(&self) -> u64 {
        self.next_id
    }

    /// The channel capacity for new subscribers.
    pub closed spec fn capacity(&self) -> usize {
        self.capacity
    }

    /// The subscribers of `topic` (none if it never had one).
    pub open spec fn subs_of(&self, topic: Seq<char>) -> Seq<u64> {
        if self.subs().contains_key(topic) { self.subs()[topic] } else { Seq::empty() }
    }

    pub fn new(config: &MemoryMqConfig) -> (b: InMemoryBus)
        ensures
            b.wf(),
            b.subs() == Map::<Seq<char>, Seq<u64>>::empty(),
            b.cursors() == Map::<Seq<char>, usize>::empty(),
            b.capacity() == config.channel_capacity,
            b.next_id() == 0,
    {
        let b = InMemoryBus {
            subscribers: StrMap::new(),
            cursors: StrMap::new(),
            next_id: 0,
            capacity: config.channel_capacity,
        };
        assert(b.subs() =~= Map::<Seq<char>, Seq<u64>>::empty());
        b
    }

    /// The capacity for the channel of a new subscriber.
    pub fn channel_capacity(&self) -> (c: usize)
        ensures
            c == self.capacity(),
    {
        self.capacity
    }

    /// Adds a subscriber to `topic` and returns its id; it goes last in the rotation.
    pub fn subscribe(&mut self, topic: &str) -> (id: u64)
        requires
            old(self).wf(),
            old(self).next_id() < u64::MAX,
        ensures
            final(self).wf(),
            id == old(self).next_id(),
            final(self).next_id() == old(self).next_id() + 1,
            final(self).subs() == old(self).subs().insert(topic@, old(self).subs_of(topic@).push(id)),
            final(self).cursors() == old(self).cursors(),
            final(self).capacity() == old(self).capacity(),
    {
        let id = self.next_id;
        self.next_id = self.next_id + 1;
        match self.subscribers.find(topic) {
            Some(i) => {
                let mut list = self.subscribers.replace_at(i, Vec::new());
                let ghost prev = list@;
                list.push(id);
                let ghost lv = list@;
                let _ = self.subscribers.replace_at(i, list);
                proof {
                    assert(self.subs() =~= old(self).subs().insert(topic@, prev.push(id)));
                }
            },
            None => {
                let mut list: Vec<u64> = Vec::new();
                list.push(id);
                self.subscribers.push_new(topic.to_string(), list);
                proof {
                    assert(self.subs() =~= old(self).subs().insert(topic@, Seq::<u64>::empty().push(id)));
                }
            },
        }
        id
    }

    /// The current subscribers of `topic`, in rotation order.
    pub fn subscribers(&self, topic: &str) -> (ids: Vec<u64>)
        requires
            self.wf(),
        ensures
            ids@ == self.subs_of(topic@),
    {
        match self.subscribers.get(topic) {
            Some(list) => {
                let mut out: Vec<u64> = Vec::new();
                let mut i: usize = 0;
                while i < list.len()
                    invariant
                        i <= list@.len(),
                        out@ == list@.subrange(0, i as int),
                    decreases list@.len() - i,
                {
                    out.push(list[i]);
                    assert(list@.subrange(0, i as int + 1) == list@.subrange(0, i as int).push(list@[i as int]));
                    i = i + 1;
                }
                assert(list@.subrange(0, list@.len() as int) == list@);
                out
            },
            None => Vec::new(),
        }
    }

    /// Drops the subscribers of `topic` whose channel is closed; `open[i]`
    /// tells whether the i-th current subscriber is still open. Order is kept.
    pub fn retain_open(&mut self, topic: &str, open: &Vec<bool>)
        requires
            old(self).wf(),
            open@.len() == old(self).subs_of(topic@).len(),
        ensures
            final(self).wf(),
            final(self).cursors() == old(self).cursors(),
            final(self).next_id() == old(self).next_id(),
            final(self).capacity() == old(self).capacity(),
            old(self).subs().contains_key(topic@) ==> final(self).subs() == old(self).subs().insert(
                topic@,
                filter_seq(old(self).subs_of(topic@), open@),
            ),
            !old(self).subs().contains_key(topic@) ==> final(self).subs() == old(self).subs(),
    {
        match self.subscribers.find(topic) {
            Some(i) => {
                let list = self.subscribers.replace_at(i, Vec::new());
                let mut kept: Vec<u64> = Vec::new();
                let mut j: usize = 0;
                while j < list.len()
                    invariant
                        j <= list@.len(),
                        open@.len() == list@.len(),
                        kept@ == filter_seq(list@.subrange(0, j as int), open@.subrange(0, j as int)),
                    decreases list@.len() - j,
                {
                    proof {
                        lemma_filter_by_push(list@.subrange(0, j as int), open@.subrange(0, j as int), list@[j as int], open@[j as int]);
                        assert(list@.subrange(0, j as int + 1) =~= list@.subrange(0, j as int).push(list@[j as int]));
                        assert(open@.subrange(0, j as int + 1) =~= open@.subrange(0, j as int).push(open@[j as int]));
                    }
                    if open[j] {
                        kept.push(list[j]);
                    }
                    j = j + 1;
                }
                assert(list@.subrange(0, list@.len() as int) =~= list@);
                assert(open@.subrange(0, list@.len() as int) =~= open@);
                let ghost kv = kept@;
                let _ = self.subscribers.replace_at(i, kept);
                proof {
                    assert(self.subs() =~= old(self).subs().insert(topic@, kv));
                }
            },
            None => {},
        }
    }

    /// Chooses the subscriber of `topic` that the next message goes to: the
    /// one at the cursor (taken modulo the number of subscribers, starting at
    /// the first). The cursor is created and normalised but not advanced.
    pub fn select(&mut self, topic: &str) -> (d: Delivery)
        requires
            old(self).wf(),
        ensures
            final(self).wf(),
            final(self).subs() == old(self).subs(),
            final(self).next_id() == old(self).next_id(),
            final(self).capacity() == old(self).capacity(),
            old(self).subs_of(topic@).len() == 0 ==> d == Delivery::Dropped && final(self).cursors() == old(self).cursors(),
            old(self).subs_of(topic@).len() > 0 ==> {
                let n = old(self).subs_of(topic@).len();
                let cur = if old(self).cursors().contains_key(topic@) { Some(old(self).cursors()[topic@]) } else { None::<usize> };
                let k = pick(cur, n);
                &&& d == Delivery::To(old(self).subs_of(topic@)[k as int])
                &&& final(self).cursors() == old(self).cursors().insert(topic@, k as usize)
            },
    {
        let n = match self.subscribers.get(topic) {
            Some(list) => list.len(),
            None => 0,
        };
        if n == 0 {
            return Delivery::Dropped;
        }
        let k = match self.cursors.find(topic) {
            Some(i) => {
                let c = *self.cursors.value_at(i);
                let k = c % n;
                let _ = self.cursors.replace_at(i, k);
                k
            },
            None => {
                self.cursors.push_new(topic.to_string(), 0);
                0
            },
        };
        let list = self.subscribers.get(topic).unwrap();
        Delivery::To(list[k])
    }

    /// Advances the cursor of `topic` after a successful delivery.
    pub fn commit(&mut self, topic: &str)
        requires
            old(self).wf(),
        ensures
            final(self).wf(),
            final(self).subs() == old(self).subs(),
            final(self).next_id() == old(self).next_id(),
            final(self).capacity() == old(self).capacity(),
            old(self).subs_of(topic@).len() > 0 && old(self).cursors().contains_key(topic@) ==>
                final(self).cursors() == old(self).cursors().insert(
                    topic@,
                    ((old(self).cursors()[topic@] as nat + 1) % old(self).subs_of(topic@).len()) as usize,
                ),
            !(old(self).subs_of(topic@).len() > 0 && old(self).cursors().contains_key(topic@))
                ==> final(self).cursors() == old(self).cursors(),
    {
        let n = match self.subscribers.get(topic) {
            Some(list) => list.len(),
            None => 0,
        };
        if n == 0 {
            return;
        }
        match self.cursors.find(topic) {
            Some(i) => {
                let c = *self.cursors.value_at(i);
                let next = (c % n + 1) % n;
                proof {
                    lemma_mod_succ(c as int, n as int);
                }
                let _ = self.cursors.replace_at(i, next);
            },
            None => {},
        }
    }
}

proof fn lemma_mod_succ(a: int, n: int)
    requires
        n > 0,
    ensures
        (a % n + 1) % n == (a + 1) % n,
{
    vstd::arithmetic::div_mod::lemma_add_mod_noop(a, 1, n);
    vstd::arithmetic::div_mod::lemma_mod_twice(a, n);
    if n == 1 {
        assert(1int % 1 == 0);
    } else {
        vstd::arithmetic::div_mod::lemma_small_mod(1, n as nat);
    }
}

proof fn lemma_filter_by_push(s: Seq<u64>, keep: Seq<bool>, x: u64, b: bool)
    requires
        s.len() == keep.len(),
    ensures
        filter_seq(s.push(x), keep.push(b)) == if b { filter_seq(s, keep).push(x) } else { filter_seq(s, keep) },
{
    assert(s.push(x).drop_last() =~= s);
    assert(keep.push(b).drop_last() =~= keep);
}

/// The subsequence of `s` at the positions where `keep` is true.
pub open spec fn filter_seq(s: Seq<u64>, keep: Seq<bool>) -> Seq<u64>
    decreases s.len(),
{
    if s.len() == 0 || keep.len() == 0 {
        Seq::empty()
    } else if keep.last() {
        filter_seq(s.drop_last(), keep.drop_last()).push(s.last())
    } else {
        filter_seq(s.drop_last(), keep.drop_last())
    }
}

/// Law (round robin): with a fixed set of `n` subscribers and a cursor
/// starting at the first, the `k`-th delivery goes to subscriber `k mod n`.
pub proof fn lemma_round_robin(n: nat, k: nat)
    requires
        n > 0,
    ensures
        rr_cursor(n, k) == k % n,
    decreases k,
{
    if k > 0 {
        lemma_round_robin(n, (k - 1) as nat);
        lemma_mod_succ((k - 1) as int, n as int);
        assert(rr_cursor(n, k) == (rr_cursor(n, (k - 1) as nat) + 1) % n);
        assert(((k - 1) as int) + 1 == k as int);
        assert((((k - 1) as int) % (n as int) + 1) % (n as int) == (k as int) % (n as int));
    } else {
        vstd::arithmetic::div_mod::lemma_small_mod(0, n);
    }
}

/// The cursor after `k` deliveries among `n` subscribers, starting at the first.
pub open spec fn rr_cursor(n: nat, k: nat) -> nat
    decreases k,
{
    if k == 0 { 0 } else { (rr_cursor(n, (k - 1) as nat) + 1) % n }
}

} // verus!
