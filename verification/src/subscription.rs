//! The correlation registry: pending waiters matched against inbound
//! events by shape.
//!
//! The protocol has no request identifiers, so a caller awaiting a reply
//! registers a predicate over decoded events together with a one-shot
//! completion slot. Each inbound event is offered to the registry, which
//! fulfills at most one waiter: the earliest-registered one whose
//! predicate matches.

use crate::protocol::{ServerPluginMessage, SServerPluginMessage, TileId};
use vstd::prelude::*;

verus! {

/// Spec view of [`EventPredicate`].
#[verifier::ext_equal]
pub enum SEventPredicate {
    IsProperties,
    IsTileProperties(Seq<char>),
}

/// A predicate over events, by shape: the forms of correlation the
/// session issues.
#[derive(Debug, PartialEq, Eq)]
pub enum EventPredicate {
    /// Matches the plugin properties event.
    IsProperties,
    /// Matches the tile properties event of the given tile.
    IsTileProperties(TileId),
}

impl View for EventPredicate {
    type V = SEventPredicate;

    open spec fn view(&self) -> SEventPredicate {
        match self {
            EventPredicate::IsProperties => SEventPredicate::IsProperties,
            EventPredicate::IsTileProperties(t) => SEventPredicate::IsTileProperties(t@),
        }
    }
}

/// Whether a predicate matches an event.
pub open spec fn pred_matches(p: SEventPredicate, e: SServerPluginMessage) -> bool {
    match p {
        SEventPredicate::IsProperties => match e {
            SServerPluginMessage::Properties { .. } => true,
            _ => false,
        },
        SEventPredicate::IsTileProperties(t) => match e {
            SServerPluginMessage::TileProperties { tile_id, .. } => tile_id == t,
            _ => false,
        },
    }
}

impl EventPredicate {
    /// Evaluates the predicate on an event.
    pub fn matches(&self, e: &ServerPluginMessage) -> (r: bool)
        ensures
            r == pred_matches(self@, e@),
    {
        match self {
            EventPredicate::IsProperties => match e {
                ServerPluginMessage::Properties { .. } => true,
                _ => false,
            },
            EventPredicate::IsTileProperties(t) => match e {
                ServerPluginMessage::TileProperties { tile_id, .. } => t.same(tile_id),
                _ => false,
            },
        }
    }
}

#[verifier::external_type_specification]
#[verifier::external_body]
#[verifier::reject_recursive_types(T)]
pub struct ExOneshotSender<T>(tokio::sync::oneshot::Sender<T>);

/// Relies on `tokio::sync::oneshot::Sender::send`: the value is placed
/// in the slot for the receiver if the receiver still exists, and comes
/// back in the error otherwise; either way the call returns at once.
#[verifier::external_body]
fn deliver(tx: tokio::sync::oneshot::Sender<ServerPluginMessage>, event: ServerPluginMessage)
    -> (r: Result<(), ServerPluginMessage>)
    ensures
        r matches Err(e) ==> e == event,
{
    tx.send(event)
}

/// A pending waiter: a number that identifies it, the shape of event it
/// waits for, and the one-shot slot the matching event is delivered to.
pub struct Subscriber {
    /// Identifies the waiter, so its owner can withdraw it.
    pub id: u64,
    /// Shape of event the waiter is waiting for.
    pub filter: EventPredicate,
    /// Slot the first matching event is delivered into.
    pub tx: tokio::sync::oneshot::Sender<ServerPluginMessage>,
}

impl Subscriber {
    /// A waiter over the given predicate delivering into the given slot.
    /// The registry assigns its identifying number when it is added.
    pub fn new(filter: EventPredicate, tx: tokio::sync::oneshot::Sender<ServerPluginMessage>)
        -> (r: Subscriber)
        ensures
            r.filter@ == filter@,
            r.id == 0,
    {
        Subscriber { id: 0, filter, tx }
    }
}

/// Spec view of a waiter list: each waiter's number and predicate, in
/// registration order.
pub open spec fn subs_view(s: Seq<Subscriber>) -> Seq<(u64, SEventPredicate)>
    decreases s,
{
    if s.len() == 0 {
        Seq::<(u64, SEventPredicate)>::empty()
    } else {
        subs_view(s.drop_last()).push((s.last().id, s.last().filter@))
    }
}

pub broadcast proof fn lemma_subs_view(s: Seq<Subscriber>)
    ensures
        #[trigger] subs_view(s).len() == s.len(),
        forall|i: int| 0 <= i < s.len() ==> subs_view(s)[i] == (s[i].id, s[i].filter@),
    decreases s.len(),
{
    if s.len() > 0 {
        lemma_subs_view(s.drop_last());
        assert(subs_view(s) == subs_view(s.drop_last()).push((s.last().id, s.last().filter@)));
        assert forall|i: int| 0 <= i < s.len() implies subs_view(s)[i]
            == (s[i].id, s[i].filter@) by {
            if i < s.len() - 1 {
                assert(s.drop_last()[i] == s[i]);
                assert(subs_view(s)[i] == subs_view(s.drop_last())[i]);
            } else {
                assert(subs_view(s)[i] == (s.last().id, s.last().filter@));
            }
        }
    }
}

/// True when some waiter in the list matches the event.
pub open spec fn has_match(v: Seq<(u64, SEventPredicate)>, e: SServerPluginMessage) -> bool {
    exists|i: int| 0 <= i < v.len() && pred_matches(v[i].1, e)
}

/// Index of the earliest waiter whose predicate matches the event.
pub open spec fn first_match(v: Seq<(u64, SEventPredicate)>, e: SServerPluginMessage) -> int
    decreases v.len(),
{
    if v.len() == 0 {
        0
    } else if pred_matches(v[0].1, e) {
        0
    } else {
        1 + first_match(v.drop_first(), e)
    }
}

/// The earliest matching waiter is indeed the first: its index is in
/// range, its predicate matches, and no earlier waiter's predicate does.
pub proof fn lemma_first_match(v: Seq<(u64, SEventPredicate)>, e: SServerPluginMessage)
    requires
        has_match(v, e),
    ensures
        0 <= first_match(v, e) < v.len(),
        pred_matches(v[first_match(v, e)].1, e),
        forall|j: int| 0 <= j < first_match(v, e) ==> !pred_matches(v[j].1, e),
    decreases v.len(),
{
    if v.len() > 0 {
        if pred_matches(v[0].1, e) {
        } else {
            assert(has_match(v.drop_first(), e)) by {
                let i = choose|i: int| 0 <= i < v.len() && pred_matches(v[i].1, e);
                assert(i >= 1);
                assert(v.drop_first()[i - 1] == v[i]);
            }
            lemma_first_match(v.drop_first(), e);
            let f = first_match(v, e);
            assert(f == 1 + first_match(v.drop_first(), e));
            assert(v.drop_first()[f - 1] == v[f]);
            assert forall|j: int| 0 <= j < f implies !pred_matches(v[j].1, e) by {
                if j >= 1 {
                    assert(v.drop_first()[j - 1] == v[j]);
                }
            }
        }
    }
}

/// In a well-formed registry every waiter's number is below the next
/// number to be handed out.
pub proof fn lemma_wf_ids_below(s: &Subscriptions)
    requires
        s.wf(),
    ensures
        forall|i: int| 0 <= i < s@.len() ==> (#[trigger] s@[i]).0 < s.next(),
{
}

proof fn lemma_wf_bound(s: &Subscriptions, i: int)
    requires
        s.wf(),
        0 <= i < s@.len(),
    ensures
        s@[i].0 < s.next(),
{
}

proof fn lemma_wf_distinct(s: &Subscriptions, i: int, j: int)
    requires
        s.wf(),
        0 <= i < j < s@.len(),
    ensures
        s@[i].0 != s@[j].0,
{
}

/// The correlation registry: the live waiters, in registration order.
/// All operations are mutually exclusive by `&mut` access; a shared
/// registry sits behind one lock owned by the embedding application.
pub struct Subscriptions {
    /// Live waiters, earliest registered first.
    subscribers: Vec<Subscriber>,
    /// Number the next added waiter receives.
    next_id: u64,
}

impl View for Subscriptions {
    type V = Seq<(u64, SEventPredicate)>;

    closed spec fn view(&self) -> Seq<(u64, SEventPredicate)> {
        subs_view(self.subscribers@)
    }
}

impl Subscriptions {
    /// Number the next added waiter will receive.
    pub closed spec fn next(&self) -> u64 {
        self.next_id
    }

    /// Waiter numbers are unique and below the next number.
    pub closed spec fn wf(&self) -> bool {
        &&& forall|i: int| 0 <= i < self@.len() ==> (#[trigger] self@[i]).0 < self.next_id
        &&& forall|i: int, j: int|
            0 <= i < j < self@.len() ==> (#[trigger] self@[i]).0 != (#[trigger] self@[j]).0
    }

    /// An empty registry.
    pub fn new() -> (r: Subscriptions)
        ensures
            r@ == Seq::<(u64, SEventPredicate)>::empty(),
            r.wf(),
    {
        let r = Subscriptions { subscribers: Vec::new(), next_id: 0 };
        proof {
            lemma_subs_view(r.subscribers@);
            assert(r@ =~= Seq::<(u64, SEventPredicate)>::empty());
        }
        r
    }

    /// Appends a waiter and hands back the number that identifies it.
    /// Never blocks and never fails.
    pub fn add(&mut self, subscriber: Subscriber) -> (id: u64)
        requires
            old(self).wf(),
            old(self).next() < 0xffff_ffff_ffff_ffff,
        ensures
            final(self)@ == old(self)@.push((id, subscriber.filter@)),
            final(self).wf(),
            final(self).next() == old(self).next() + 1,
            id == old(self).next(),
    {
        let id = self.next_id;
        let mut s = subscriber;
        s.id = id;
        let ghost filter_view = s.filter@;
        self.subscribers.push(s);
        self.next_id = id + 1;
        proof {
            lemma_subs_view(self.subscribers@);
            lemma_subs_view(old(self).subscribers@);
            assert(self.subscribers@.drop_last() =~= old(self).subscribers@);
            assert(final(self)@ =~= old(self)@.push((id, filter_view)));
            assert forall|i: int| 0 <= i < self@.len() implies (#[trigger] self@[i]).0
                < self.next() by {
                if i < old(self)@.len() {
                    assert(self@[i] == old(self)@[i]);
                    lemma_wf_bound(old(self), i);
                }
            }
            assert forall|i: int, j: int| 0 <= i < j < self@.len() implies (#[trigger] self@[i]).0
                != (#[trigger] self@[j]).0 by {
                if j < old(self)@.len() {
                    assert(self@[i] == old(self)@[i] && self@[j] == old(self)@[j]);
                    lemma_wf_distinct(old(self), i, j);
                } else {
                    assert(self@[j].0 == id);
                    assert(self@[i] == old(self)@[i]);
                    lemma_wf_bound(old(self), i);
                }
            }
        }
        id
    }

    /// Offers an event to the registry. If some waiter's predicate
    /// matches, the earliest such waiter is removed and the event is
    /// delivered into its slot, consuming the event; otherwise the
    /// registry is unchanged and the event is handed back for the
    /// general handler. At most one waiter is ever removed per call.
    pub fn apply(&mut self, msg: ServerPluginMessage) -> (r: Option<ServerPluginMessage>)
        requires
            old(self).wf(),
        ensures
            final(self).wf(),
            final(self).next() == old(self).next(),
            ({
                if has_match(old(self)@, msg@) {
                    &&& r is None
                    &&& final(self)@ == old(self)@.remove(first_match(old(self)@, msg@))
                } else {
                    &&& r == Some(msg)
                    &&& final(self)@ == old(self)@
                }
            }),
    {
        proof {
            lemma_subs_view(self.subscribers@);
        }
        let mut k: usize = 0;
        while k < self.subscribers.len()
            invariant
                old(self).wf(),
                k <= self.subscribers@.len(),
                *self == *old(self),
                forall|j: int| 0 <= j < k ==> !pred_matches(old(self)@[j].1, msg@),
            decreases self.subscribers@.len() - k,
        {
            proof {
                lemma_subs_view(self.subscribers@);
            }
            if self.subscribers[k].filter.matches(&msg) {
                proof {
                    assert(pred_matches(old(self)@[k as int].1, msg@));
                    assert(has_match(old(self)@, msg@)) by {
                        assert((k as int) < old(self)@.len());
                        assert(pred_matches(old(self)@[k as int].1, msg@));
                    }
                    lemma_first_match(old(self)@, msg@);
                    let f = first_match(old(self)@, msg@);
                    if f < k as int {
                        assert(!pred_matches(old(self)@[f].1, msg@));
                        assert(false);
                    }
                    if f > k as int {
                        assert(!pred_matches(old(self)@[k as int].1, msg@));
                        assert(false);
                    }
                    assert(f == k as int);
                }
                let sub = self.subscribers.remove(k);
                let _ = deliver(sub.tx, msg);
                proof {
                    lemma_subs_view(self.subscribers@);
                    lemma_subs_view(old(self).subscribers@);
                    assert(self.subscribers@ =~= old(self).subscribers@.remove(k as int));
                    assert(self@ =~= old(self)@.remove(k as int));
                    assert forall|i: int| 0 <= i < self@.len() implies (#[trigger] self@[i]).0
                        < self.next() by {
                        let i0: int = if i < k as int { i } else { i + 1 };
                        assert(self@[i] == old(self)@[i0]);
                        lemma_wf_bound(old(self), i0);
                    }
                    assert forall|i: int, j: int| 0 <= i < j < self@.len() implies (
                    #[trigger] self@[i]).0 != (#[trigger] self@[j]).0 by {
                        let i0: int = if i < k as int { i } else { i + 1 };
                        let j0: int = if j < k as int { j } else { j + 1 };
                        assert(self@[i] == old(self)@[i0]);
                        assert(self@[j] == old(self)@[j0]);
                        lemma_wf_distinct(old(self), i0, j0);
                    }
                }
                return None;
            }
            k = k + 1;
        }
        proof {
            assert(!has_match(old(self)@, msg@));
        }
        Some(msg)
    }

    /// Withdraws the waiter with the given number, if it is still
    /// pending, without fulfilling it; doing so again changes nothing.
    pub fn remove(&mut self, id: u64)
        requires
            old(self).wf(),
        ensures
            final(self).wf(),
            final(self).next() == old(self).next(),
            ({
                if exists|i: int| 0 <= i < old(self)@.len() && (#[trigger] old(self)@[i]).0 == id {
                    final(self)@ == old(self)@.remove(
                        choose|i: int|
                            0 <= i < old(self)@.len() && (#[trigger] old(self)@[i]).0 == id,
                    )
                } else {
                    final(self)@ == old(self)@
                }
            }),
            forall|i: int| 0 <= i < final(self)@.len() ==> (#[trigger] final(self)@[i]).0 != id,
    {
        proof {
            lemma_subs_view(self.subscribers@);
        }
        let mut k: usize = 0;
        while k < self.subscribers.len()
            invariant
                old(self).wf(),
                k <= self.subscribers@.len(),
                *self == *old(self),
                forall|j: int| 0 <= j < k ==> (#[trigger] old(self)@[j]).0 != id,
            decreases self.subscribers@.len() - k,
        {
            proof {
                lemma_subs_view(self.subscribers@);
            }
            if self.subscribers[k].id == id {
                let _sub = self.subscribers.remove(k);
                proof {
                    lemma_subs_view(self.subscribers@);
                    lemma_subs_view(old(self).subscribers@);
                    assert(self.subscribers@ =~= old(self).subscribers@.remove(k as int));
                    assert(self@ =~= old(self)@.remove(k as int));
                    assert(old(self)@[k as int].0 == id);
                    assert(exists|i: int|
                        0 <= i < old(self)@.len() && (#[trigger] old(self)@[i]).0 == id) by {
                        assert((k as int) < old(self)@.len());
                        assert(old(self)@[k as int].0 == id);
                    }
                    let w = choose|i: int|
                        0 <= i < old(self)@.len() && (#[trigger] old(self)@[i]).0 == id;
                    if w < k as int {
                        assert(old(self)@[w].0 != id);
                        assert(false);
                    }
                    if w > k as int {
                        lemma_wf_distinct(old(self), k as int, w);
                        assert(false);
                    }
                    assert(w == k as int);
                    assert forall|i: int| 0 <= i < self@.len() implies (#[trigger] self@[i]).0
                        != id by {
                        if i < k as int {
                            assert(self@[i] == old(self)@[i]);
                        } else {
                            assert(self@[i] == old(self)@[i + 1]);
                            lemma_wf_distinct(old(self), k as int, i + 1);
                        }
                    }
                    assert forall|i: int| 0 <= i < self@.len() implies (#[trigger] self@[i]).0
                        < self.next() by {
                        let i0: int = if i < k as int { i } else { i + 1 };
                        assert(self@[i] == old(self)@[i0]);
                        lemma_wf_bound(old(self), i0);
                    }
                    assert forall|i: int, j: int| 0 <= i < j < self@.len() implies (
                    #[trigger] self@[i]).0 != (#[trigger] self@[j]).0 by {
                        let i0: int = if i < k as int { i } else { i + 1 };
                        let j0: int = if j < k as int { j } else { j + 1 };
                        assert(self@[i] == old(self)@[i0]);
                        assert(self@[j] == old(self)@[j0]);
                        lemma_wf_distinct(old(self), i0, j0);
                    }
                }
                return ;
            }
            k = k + 1;
        }
        proof {
            assert(forall|i: int|
                0 <= i < old(self)@.len() ==> (#[trigger] old(self)@[i]).0 != id);
        }
    }

    /// Tears the registry down: every pending waiter is dropped without
    /// being fulfilled. Dropping a slot resolves its awaiting caller
    /// with the session-closed outcome. Calling this again is harmless.
    pub fn clear(&mut self)
        ensures
            final(self)@ == Seq::<(u64, SEventPredicate)>::empty(),
            final(self).wf(),
    {
        self.subscribers = Vec::new();
        proof {
            lemma_subs_view(self.subscribers@);
            assert(final(self)@ =~= Seq::<(u64, SEventPredicate)>::empty());
        }
    }

    /// Decides at run time whether the registry can accept another
    /// waiter: it is well-formed and its number counter has room left.
    /// The embedding tests this before registering a waiter, since
    /// nothing outside the verified core is held to the registry's
    /// obligations; on a registry built and driven through this
    /// interface it is always true.
    pub fn can_register(&self) -> (r: bool)
        ensures
            r == (self.wf() && self.next() < 0xffff_ffff_ffff_ffff),
    {
        self.next_id < 0xffff_ffff_ffff_ffff && self.coherent()
    }

    /// Decides at run time whether the registry is well-formed: every
    /// waiter's number unique and below the next to be handed out. The
    /// embedding tests this before offering an event, for the same
    /// reason as [`Subscriptions::can_register`].
    pub fn coherent(&self) -> (r: bool)
        ensures
            r == self.wf(),
    {
        proof {
            lemma_subs_view(self.subscribers@);
        }
        let n = self.subscribers.len();
        let mut i: usize = 0;
        while i < n
            invariant
                n == self.subscribers@.len(),
                i <= n,
                forall|a: int| 0 <= a < i ==> (#[trigger] self@[a]).0 < self.next(),
                forall|a: int, b: int|
                    0 <= a < b < n && a < i ==> (#[trigger] self@[a]).0 != (#[trigger] self@[b]).0,
            decreases n - i,
        {
            proof {
                lemma_subs_view(self.subscribers@);
            }
            if self.subscribers[i].id >= self.next_id {
                proof {
                    assert(self@[i as int].0 >= self.next());
                    if self.wf() {
                        lemma_wf_bound(self, i as int);
                        assert(false);
                    }
                }
                return false;
            }
            let mut j: usize = i + 1;
            while j < n
                invariant
                    n == self.subscribers@.len(),
                    i < j <= n,
                    forall|b: int| i < b < j ==> (#[trigger] self@[b]).0 != self@[i as int].0,
                decreases n - j,
            {
                proof {
                    lemma_subs_view(self.subscribers@);
                }
                if self.subscribers[j].id == self.subscribers[i].id {
                    proof {
                        assert(self@[j as int].0 == self@[i as int].0);
                        if self.wf() {
                            lemma_wf_distinct(self, i as int, j as int);
                            assert(false);
                        }
                    }
                    return false;
                }
                j = j + 1;
            }
            i = i + 1;
        }
        true
    }

    /// Number of pending waiters.
    pub fn pending(&self) -> (n: usize)
        ensures
            n == self@.len(),
    {
        proof {
            lemma_subs_view(self.subscribers@);
        }
        self.subscribers.len()
    }
}

/// For every event offered to the registry, at most one waiter is
/// fulfilled, and it is the earliest-registered waiter whose predicate
/// matches: offering removes exactly the first matching entry and no
/// other, or nothing at all when none matches.
pub proof fn lemma_offer_earliest(v: Seq<(u64, SEventPredicate)>, e: SServerPluginMessage)
    ensures
        has_match(v, e) ==> {
            let f = first_match(v, e);
            &&& 0 <= f < v.len()
            &&& pred_matches(v[f].1, e)
            &&& forall|j: int| 0 <= j < f ==> !pred_matches(v[j].1, e)
            &&& v.remove(f).len() == v.len() - 1
        },
        !has_match(v, e) ==> (forall|j: int| 0 <= j < v.len() ==> !pred_matches(v[j].1, e)),
{
    if has_match(v, e) {
        lemma_first_match(v, e);
    }
}

} // verus!
