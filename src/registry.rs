//! The subscription registry: subscription ids, subjects and callbacks.
//!
//! Ids are handed out from a counter that only grows, so an id is never given
//! twice, also after its subscription has been removed. Id 0 is never given.
use vstd::prelude::*;
use crate::wire::opt_bytes;

verus! {

/// A registered subscription.
pub struct Subscription<C> {
    pub sid: u64,
    pub subject: Vec<u8>,
    pub queue_group: Option<Vec<u8>>,
    pub callback: C,
}

/// What the contracts see of a subscription.
pub struct SubscriptionView<C> {
    pub sid: u64,
    pub subject: Seq<u8>,
    pub queue_group: Option<Seq<u8>>,
    pub callback: C,
}

impl<C> View for Subscription<C> {
    type V = SubscriptionView<C>;

    open spec fn view(&self) -> SubscriptionView<C> {
        SubscriptionView {
            sid: self.sid,
            subject: self.subject@,
            queue_group: opt_bytes(self.queue_group),
            callback: self.callback,
        }
    }
}

/// What the contracts see of a registry: the next id to hand out and the
/// subscriptions, in the order they were added.
pub struct RegistryView<C> {
    pub next_sid: u64,
    pub entries: Seq<SubscriptionView<C>>,
}

impl<C> RegistryView<C> {
    /// Ids grow along the entries, and all stand below the next id, which is above 0.
    pub open spec fn wf(self) -> bool {
        &&& self.next_sid >= 1
        &&& forall|i: int, j: int|
            0 <= i < j < self.entries.len() ==> self.entries[i].sid < self.entries[j].sid
        &&& forall|i: int|
            0 <= i < self.entries.len() ==> 1 <= #[trigger] self.entries[i].sid < self.next_sid
    }

    pub open spec fn holds(self, sid: u64) -> bool {
        exists|i: int| 0 <= i < self.entries.len() && #[trigger] self.entries[i].sid == sid
    }

    /// The registry after a subscription is added under the next id.
    pub open spec fn added(self, subject: Seq<u8>, queue_group: Option<Seq<u8>>, callback: C) -> Self {
        RegistryView {
            next_sid: (self.next_sid + 1) as u64,
            entries: self.entries.push(
                SubscriptionView { sid: self.next_sid, subject, queue_group, callback },
            ),
        }
    }

    /// The registry without the subscription `sid`; the next id stays.
    pub open spec fn removed(self, sid: u64) -> Self {
        RegistryView {
            next_sid: self.next_sid,
            entries: self.entries.filter(|e: SubscriptionView<C>| e.sid != sid),
        }
    }
}

/// The registry of one client.
pub struct Registry<C> {
    next_sid: u64,
    entries: Vec<Subscription<C>>,
}

impl<C> View for Registry<C> {
    type V = RegistryView<C>;

    closed spec fn view(&self) -> RegistryView<C> {
        RegistryView {
            next_sid: self.next_sid,
            entries: self.entries@.map_values(|e: Subscription<C>| e@),
        }
    }
}

impl<C> Registry<C> {
    /// An empty registry; the first id it hands out is 1.
    pub fn new() -> (r: Registry<C>)
        ensures
            r@.wf(),
            r@.next_sid == 1,
            r@.entries == Seq::<SubscriptionView<C>>::empty(),
    {
        let r = Registry { next_sid: 1, entries: Vec::new() };
        assert(r@.entries =~= Seq::<SubscriptionView<C>>::empty());
        r
    }

    /// The id that the next subscription gets.
    pub fn next_id(&self) -> (n: u64)
        ensures
            n == self@.next_sid,
    {
        self.next_sid
    }

    /// The number of subscriptions.
    pub fn len(&self) -> (n: usize)
        ensures
            n == self@.entries.len(),
    {
        self.entries.len()
    }

    /// The subscription at `i`, in the order they were added.
    pub fn entry(&self, i: usize) -> (e: &Subscription<C>)
        requires
            i < self@.entries.len(),
        ensures
            e@ == self@.entries[i as int],
    {
        &self.entries[i]
    }

    /// Adds a subscription under the next id and returns that id; `None`, and
    /// no change, where the ids are used up.
    pub fn add(&mut self, subject: Vec<u8>, queue_group: Option<Vec<u8>>, callback: C) -> (r: Option<u64>)
        requires
            old(self)@.wf(),
        ensures
            final(self)@.wf(),
            old(self)@.next_sid < u64::MAX ==> r == Some(old(self)@.next_sid) && final(self)@
                == old(self)@.added(subject@, opt_bytes(queue_group), callback),
            old(self)@.next_sid == u64::MAX ==> r is None && final(self)@ == old(self)@,
    {
        if self.next_sid == u64::MAX {
            return None;
        }
        let sid = self.next_sid;
        let ghost before = self@;
        let e = Subscription { sid, subject, queue_group, callback };
        self.entries.push(e);
        self.next_sid = sid + 1;
        assert(self@.entries =~= before.added(e.subject@, opt_bytes(e.queue_group), e.callback).entries);
        Some(sid)
    }

    /// The position of subscription `sid`, if it is registered.
    fn position(&self, sid: u64) -> (r: Option<usize>)
        ensures
            r is Some ==> r->0 < self@.entries.len() && self@.entries[r->0 as int].sid == sid,
            r is None ==> !self@.holds(sid),
    {
        let mut i: usize = 0;
        while i < self.entries.len()
            invariant
                0 <= i <= self.entries@.len(),
                forall|j: int| 0 <= j < i ==> #[trigger] self.entries@[j].sid != sid,
            decreases self.entries.len() - i,
        {
            if self.entries[i].sid == sid {
                return Some(i);
            }
            i = i + 1;
        }
        assert(!self@.holds(sid)) by {
            if self@.holds(sid) {
                let k = choose|k: int| 0 <= k < self@.entries.len() && #[trigger] self@.entries[k].sid == sid;
                assert(self.entries@[k].sid == sid);
            }
        }
        None
    }

    /// The subscription `sid`; `None` where it is not registered.
    pub fn lookup(&self, sid: u64) -> (r: Option<&Subscription<C>>)
        ensures
            r is None <==> !self@.holds(sid),
            r is Some ==> r->0@.sid == sid && self@.entries.contains(r->0@),
    {
        match self.position(sid) {
            Some(i) => {
                assert(self@.entries[i as int] == self.entries@[i as int]@);
                Some(&self.entries[i])
            },
            None => None,
        }
    }

    /// Removes subscription `sid`; returns whether it was registered. Removing
    /// an id that is not registered changes nothing.
    pub fn remove(&mut self, sid: u64) -> (r: bool)
        requires
            old(self)@.wf(),
        ensures
            final(self)@.wf(),
            r == old(self)@.holds(sid),
            final(self)@ == old(self)@.removed(sid),
    {
        let ghost before = self@;
        match self.position(sid) {
            Some(i) => {
                let ghost old_entries = self.entries@;
                self.entries.remove(i);
                proof {
                    lemma_remove_unique(before.entries, i as int);
                    assert(self@.entries =~= before.entries.remove(i as int));
                }
                true
            },
            None => {
                proof {
                    lemma_filter_keeps_all(before.entries, sid);
                }
                false
            },
        }
    }
}

/// Where ids are unique, dropping the entry at `i` is dropping its id.
proof fn lemma_remove_unique<C>(s: Seq<SubscriptionView<C>>, i: int)
    requires
        0 <= i < s.len(),
        forall|a: int, b: int| 0 <= a < b < s.len() ==> s[a].sid < s[b].sid,
    ensures
        s.filter(|e: SubscriptionView<C>| e.sid != s[i].sid) == s.remove(i),
    decreases s.len(),
{
    let sid = s[i].sid;
    let f = |e: SubscriptionView<C>| e.sid != sid;
    reveal(Seq::filter);
    if i == s.len() - 1 {
        lemma_filter_keeps_all(s.drop_last(), sid);
        assert(s.drop_last() =~= s.remove(i));
    } else {
        let t = s.drop_last();
        lemma_remove_unique(t, i);
        assert(t.remove(i).push(s.last()) =~= s.remove(i));
    }
}

/// Where no entry has id `sid`, dropping `sid` keeps every entry.
proof fn lemma_filter_keeps_all<C>(s: Seq<SubscriptionView<C>>, sid: u64)
    requires
        forall|a: int| 0 <= a < s.len() ==> #[trigger] s[a].sid != sid,
    ensures
        s.filter(|e: SubscriptionView<C>| e.sid != sid) == s,
    decreases s.len(),
{
    reveal(Seq::filter);
    if s.len() > 0 {
        lemma_filter_keeps_all(s.drop_last(), sid);
        assert(s.drop_last().push(s.last()) =~= s);
    } else {
        assert(s.filter(|e: SubscriptionView<C>| e.sid != sid) =~= s);
    }
}

/// A change to a registry, as the contracts see it.
pub enum RegistryOp<C> {
    Add { subject: Seq<u8>, queue_group: Option<Seq<u8>>, callback: C },
    Remove { sid: u64 },
}

/// The registry after `ops` (as `add` and `remove` leave it), and the ids
/// that the additions were given, in order.
pub open spec fn run_ops<C>(r: RegistryView<C>, ops: Seq<RegistryOp<C>>) -> (RegistryView<C>, Seq<u64>)
    decreases ops.len(),
{
    if ops.len() == 0 {
        (r, Seq::empty())
    } else {
        let before = run_ops(r, ops.drop_last());
        match ops.last() {
            RegistryOp::Add { subject, queue_group, callback } => if before.0.next_sid < u64::MAX {
                (
                    before.0.added(subject, queue_group, callback),
                    before.1.push(before.0.next_sid),
                )
            } else {
                before
            },
            RegistryOp::Remove { sid } => (before.0.removed(sid), before.1),
        }
    }
}

proof fn lemma_removed_wf<C>(r: RegistryView<C>, sid: u64)
    requires
        r.wf(),
    ensures
        r.removed(sid).wf(),
{
    if r.holds(sid) {
        let i = choose|i: int| 0 <= i < r.entries.len() && #[trigger] r.entries[i].sid == sid;
        lemma_remove_unique(r.entries, i);
        let t = r.entries.remove(i);
        assert forall|a: int, b: int| 0 <= a < b < t.len() implies t[a].sid < t[b].sid by {
            let a0 = if a < i { a } else { a + 1 };
            let b0 = if b < i { b } else { b + 1 };
            assert(t[a] == r.entries[a0]);
            assert(t[b] == r.entries[b0]);
        }
        assert forall|a: int| 0 <= a < t.len() implies 1 <= #[trigger] t[a].sid < r.next_sid by {
            let a0 = if a < i { a } else { a + 1 };
            assert(t[a] == r.entries[a0]);
        }
    } else {
        lemma_filter_keeps_all(r.entries, sid);
    }
}

/// Ids are handed out in strictly increasing order and each is above every id
/// that the registry held before, so no id is given twice, also after the
/// subscription that had it was removed.
pub proof fn lemma_ids_never_reused<C>(r: RegistryView<C>, ops: Seq<RegistryOp<C>>)
    requires
        r.wf(),
    ensures
        run_ops(r, ops).0.wf(),
        forall|i: int, j: int|
            0 <= i < j < run_ops(r, ops).1.len() ==> run_ops(r, ops).1[i] < run_ops(r, ops).1[j],
        forall|i: int|
            0 <= i < run_ops(r, ops).1.len() ==> r.next_sid <= #[trigger] run_ops(r, ops).1[i]
                < run_ops(r, ops).0.next_sid,
        forall|i: int, k: int|
            #![trigger r.entries[k], run_ops(r, ops).1[i]]
            0 <= i < run_ops(r, ops).1.len() && 0 <= k < r.entries.len() ==> r.entries[k].sid
                < run_ops(r, ops).1[i],
        r.next_sid <= run_ops(r, ops).0.next_sid,
    decreases ops.len(),
{
    if ops.len() > 0 {
        lemma_ids_never_reused(r, ops.drop_last());
        let before = run_ops(r, ops.drop_last());
        match ops.last() {
            RegistryOp::Add { subject, queue_group, callback } => {
                if before.0.next_sid < u64::MAX {
                    let after = before.0.added(subject, queue_group, callback);
                    assert(after.wf()) by {
                        assert forall|a: int| 0 <= a < after.entries.len() implies 1
                            <= #[trigger] after.entries[a].sid < after.next_sid by {
                            if a < before.0.entries.len() {
                                assert(after.entries[a] == before.0.entries[a]);
                            }
                        }
                        assert forall|a: int, b: int| 0 <= a < b < after.entries.len() implies after.entries[a].sid
                            < after.entries[b].sid by {
                            assert(after.entries[a] == before.0.entries[a]);
                            if b < before.0.entries.len() {
                                assert(after.entries[b] == before.0.entries[b]);
                            }
                        }
                    }
                }
            },
            RegistryOp::Remove { sid } => {
                lemma_removed_wf(before.0, sid);
            },
        }
    }
}

} // verus!
