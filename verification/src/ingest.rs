//! Ingestion of create/delete batches against the write-side store. A batch
//! is applied in order, one event at a time, as one logical unit on an
//! otherwise-untouched store value; a Create for a reference that is already
//! present re-states it (so the last event in a batch for a given reference
//! wins — the documented tie-break), and a Delete for an absent reference is
//! a no-op. Re-applying a whole batch is therefore idempotent.

use vstd::prelude::*;
use crate::feed::{PostRef, feed_sorted, key_before};

verus! {

/// What an ingestion event does with its reference.
#[derive(Debug, Clone, Copy, PartialEq, Eq, Structural)]
pub enum EventKind {
    /// Make the reference present.
    Create,
    /// Make the reference absent.
    Delete,
}

/// One upstream event: a kind and the post reference it concerns.
#[derive(Debug)]
pub struct IngestionEvent {
    /// Create or delete.
    pub kind: EventKind,
    /// The reference concerned; identified by its ordering key.
    pub reference: PostRef,
}

/// The write-side store: the authoritative post set, kept in feed order.
#[derive(Debug)]
pub struct WriteStore {
    /// Every present post reference, most recent first.
    pub posts: Vec<PostRef>,
}

impl WriteStore {
    /// The store invariant: strict feed order, hence unique ordering keys.
    pub open spec fn wf(&self) -> bool {
        feed_sorted(self.posts@)
    }
}

/// The ordering key that identifies a reference.
pub open spec fn ref_key(p: PostRef) -> (nat, nat) {
    (p.at as nat, p.uid as nat)
}

/// The key an event concerns.
pub open spec fn event_key(e: IngestionEvent) -> (nat, nat) {
    ref_key(e.reference)
}

/// The read-visible abstraction of a store: which keys are present, and the
/// content identifier each one carries.
pub open spec fn store_map(posts: Seq<PostRef>) -> Map<(nat, nat), Seq<char>>
    decreases posts.len(),
{
    if posts.len() == 0 {
        Map::empty()
    } else {
        store_map(posts.drop_last()).insert(ref_key(posts.last()), posts.last().uri@)
    }
}

/// One event's effect on the abstraction.
pub open spec fn apply_event_map(
    m: Map<(nat, nat), Seq<char>>,
    e: IngestionEvent,
) -> Map<(nat, nat), Seq<char>> {
    match e.kind {
        EventKind::Create => m.insert(event_key(e), e.reference.uri@),
        EventKind::Delete => m.remove(event_key(e)),
    }
}

/// A batch's effect: its events applied in order.
pub open spec fn apply_batch_map(
    m: Map<(nat, nat), Seq<char>>,
    events: Seq<IngestionEvent>,
) -> Map<(nat, nat), Seq<char>>
    decreases events.len(),
{
    if events.len() == 0 {
        m
    } else {
        apply_batch_map(apply_event_map(m, events[0]), events.drop_first())
    }
}

/// The last event of a batch that concerns a key, if any: the one that
/// decides that key's final state.
pub open spec fn last_event_on(events: Seq<IngestionEvent>, k: (nat, nat)) -> Option<IngestionEvent>
    decreases events.len(),
{
    if events.len() == 0 {
        None
    } else {
        let rest = last_event_on(events.drop_first(), k);
        if rest is Some {
            rest
        } else if event_key(events[0]) == k {
            Some(events[0])
        } else {
            None
        }
    }
}

/// Folding one more event onto a batch.
pub proof fn lemma_apply_batch_snoc(
    m: Map<(nat, nat), Seq<char>>,
    events: Seq<IngestionEvent>,
    e: IngestionEvent,
)
    ensures
        apply_batch_map(m, events.push(e)) == apply_event_map(apply_batch_map(m, events), e),
    decreases events.len(),
{
    if events.len() == 0 {
        assert(events.push(e).drop_first() =~= Seq::<IngestionEvent>::empty());
        assert(events.push(e)[0] == e);
        assert(apply_batch_map(m, events) == m);
        assert(apply_batch_map(apply_event_map(m, e), Seq::<IngestionEvent>::empty())
            == apply_event_map(m, e));
        assert(apply_batch_map(m, events.push(e)) == apply_batch_map(
            apply_event_map(m, events.push(e)[0]),
            events.push(e).drop_first(),
        ));
    } else {
        assert(events.push(e)[0] == events[0]);
        assert(events.push(e).drop_first() =~= events.drop_first().push(e));
        lemma_apply_batch_snoc(apply_event_map(m, events[0]), events.drop_first(), e);
        assert(apply_batch_map(m, events.push(e)) == apply_batch_map(
            apply_event_map(m, events[0]),
            events.drop_first().push(e),
        ));
        assert(apply_batch_map(m, events) == apply_batch_map(
            apply_event_map(m, events[0]),
            events.drop_first(),
        ));
    }
}

/// Pointwise: after a batch, a key holds what its last event dictates — or
/// what it held before, if no event concerned it.
pub proof fn lemma_apply_batch_pointwise(
    m: Map<(nat, nat), Seq<char>>,
    events: Seq<IngestionEvent>,
    k: (nat, nat),
)
    ensures
        match last_event_on(events, k) {
            None => apply_batch_map(m, events).contains_key(k) == m.contains_key(k) && (
            m.contains_key(k) ==> apply_batch_map(m, events)[k] == m[k]),
            Some(e) => if e.kind is Create {
                apply_batch_map(m, events).contains_key(k) && apply_batch_map(m, events)[k]
                    == e.reference.uri@
            } else {
                !apply_batch_map(m, events).contains_key(k)
            },
        },
    decreases events.len(),
{
    if events.len() == 0 {
    } else {
        lemma_apply_batch_pointwise(apply_event_map(m, events[0]), events.drop_first(), k);
    }
}

/// Re-applying the same ingestion batch leaves the read-visible state
/// exactly as one application left it: a Create of an already-present
/// reference re-states it and a Delete of an already-absent reference does
/// nothing, so the second pass changes no key.
pub proof fn lemma_apply_batch_idempotent(
    m: Map<(nat, nat), Seq<char>>,
    events: Seq<IngestionEvent>,
)
    ensures
        apply_batch_map(apply_batch_map(m, events), events) == apply_batch_map(m, events),
{
    let m1 = apply_batch_map(m, events);
    let m2 = apply_batch_map(m1, events);
    assert forall|k: (nat, nat)| #[trigger] m2.dom().contains(k) <==> m1.dom().contains(k) by {
        lemma_apply_batch_pointwise(m, events, k);
        lemma_apply_batch_pointwise(m1, events, k);
    }
    assert forall|k: (nat, nat)| m1.dom().contains(k) implies #[trigger] m2[k] == m1[k] by {
        lemma_apply_batch_pointwise(m, events, k);
        lemma_apply_batch_pointwise(m1, events, k);
    }
    assert(m2 =~= m1);
}

/// The abstraction loses nothing: two well-formed stores with the same
/// read-visible abstraction hold the same references, with the same content
/// identifiers, in the same order. Together with the idempotence of
/// re-applying a batch on the abstraction, re-application leaves the store
/// itself as one application left it.
pub proof fn lemma_store_canonical(s1: Seq<PostRef>, s2: Seq<PostRef>)
    requires
        feed_sorted(s1),
        feed_sorted(s2),
        store_map(s1) == store_map(s2),
    ensures
        s1.len() == s2.len(),
        forall|i: int|
            0 <= i < s1.len() ==> ref_key(s1[i]) == ref_key(s2[i]) && s1[i].uri@ == s2[i].uri@,
    decreases s1.len(),
{
    if s1.len() == 0 {
        if s2.len() > 0 {
            assert(store_map(s2).contains_key(ref_key(s2.last())));
            assert(!store_map(s1).contains_key(ref_key(s2.last())));
        }
    } else if s2.len() == 0 {
        assert(store_map(s1).contains_key(ref_key(s1.last())));
        assert(!store_map(s2).contains_key(ref_key(s1.last())));
    } else {
        let k1 = ref_key(s1.last());
        let k2 = ref_key(s2.last());
        assert(store_map(s1).contains_key(k1));
        assert(store_map(s2).contains_key(k2));
        lemma_store_map_contains(s2, k1);
        let i2 = choose|i: int| 0 <= i < s2.len() && ref_key(s2[i]) == k1;
        lemma_store_map_contains(s1, k2);
        let i1 = choose|i: int| 0 <= i < s1.len() && ref_key(s1[i]) == k2;
        if i2 < s2.len() - 1 {
            assert(key_before(
                s2[i2].at as nat,
                s2[i2].uid as nat,
                s2[s2.len() - 1].at as nat,
                s2[s2.len() - 1].uid as nat,
            ));
        }
        if i1 < s1.len() - 1 {
            assert(key_before(
                s1[i1].at as nat,
                s1[i1].uid as nat,
                s1[s1.len() - 1].at as nat,
                s1[s1.len() - 1].uid as nat,
            ));
        }
        assert(k1 == k2);
        assert(store_map(s1)[k1] == s1.last().uri@);
        assert(store_map(s2)[k1] == s2.last().uri@);
        assert forall|j: int| 0 <= j < s1.drop_last().len() implies ref_key(s1.drop_last()[j])
            != k1 by {
            assert(s1.drop_last()[j] == s1[j]);
            assert(key_before(
                s1[j].at as nat,
                s1[j].uid as nat,
                s1[s1.len() - 1].at as nat,
                s1[s1.len() - 1].uid as nat,
            ));
        }
        assert forall|j: int| 0 <= j < s2.drop_last().len() implies ref_key(s2.drop_last()[j])
            != k1 by {
            assert(s2.drop_last()[j] == s2[j]);
            assert(key_before(
                s2[j].at as nat,
                s2[j].uid as nat,
                s2[s2.len() - 1].at as nat,
                s2[s2.len() - 1].uid as nat,
            ));
        }
        lemma_store_map_contains(s1.drop_last(), k1);
        lemma_store_map_contains(s2.drop_last(), k1);
        assert(!store_map(s1.drop_last()).contains_key(k1));
        assert(!store_map(s2.drop_last()).contains_key(k1));
        assert(store_map(s1.drop_last()) =~= store_map(s1).remove(k1));
        assert(store_map(s2.drop_last()) =~= store_map(s2).remove(k1));
        assert(feed_sorted(s1.drop_last())) by {
            assert(forall|i: int, j: int|
                0 <= i < j < s1.drop_last().len() ==> key_before(
                    s1.drop_last()[i].at as nat,
                    s1.drop_last()[i].uid as nat,
                    s1.drop_last()[j].at as nat,
                    s1.drop_last()[j].uid as nat,
                ));
        }
        assert(feed_sorted(s2.drop_last())) by {
            assert(forall|i: int, j: int|
                0 <= i < j < s2.drop_last().len() ==> key_before(
                    s2.drop_last()[i].at as nat,
                    s2.drop_last()[i].uid as nat,
                    s2.drop_last()[j].at as nat,
                    s2.drop_last()[j].uid as nat,
                ));
        }
        lemma_store_canonical(s1.drop_last(), s2.drop_last());
        assert forall|i: int| 0 <= i < s1.len() implies ref_key(s1[i]) == ref_key(s2[i])
            && s1[i].uri@ == s2[i].uri@ by {
            if i < s1.len() - 1 {
                assert(s1.drop_last()[i] == s1[i]);
                assert(s2.drop_last()[i] == s2[i]);
            }
        }
    }
}

/// A key is in the abstraction exactly when some post carries it, and then
/// maps to that post's content identifier.
proof fn lemma_store_map_contains(posts: Seq<PostRef>, k: (nat, nat))
    ensures
        store_map(posts).contains_key(k) <==> exists|i: int|
            0 <= i < posts.len() && ref_key(posts[i]) == k,
    decreases posts.len(),
{
    if posts.len() == 0 {
    } else {
        lemma_store_map_contains(posts.drop_last(), k);
        if store_map(posts).contains_key(k) {
            if ref_key(posts.last()) == k {
                assert(ref_key(posts[posts.len() - 1]) == k);
            } else {
                let i = choose|i: int| 0 <= i < posts.drop_last().len() && ref_key(
                    posts.drop_last()[i],
                ) == k;
                assert(ref_key(posts[i]) == k);
            }
        }
        if exists|i: int| 0 <= i < posts.len() && ref_key(posts[i]) == k {
            let i = choose|i: int| 0 <= i < posts.len() && ref_key(posts[i]) == k;
            if i < posts.len() - 1 {
                assert(ref_key(posts.drop_last()[i]) == k);
            }
        }
    }
}

/// Inserting a post with a fresh key inserts exactly that key.
proof fn lemma_store_map_insert(posts: Seq<PostRef>, idx: int, p: PostRef)
    requires
        0 <= idx <= posts.len(),
        forall|i: int| 0 <= i < posts.len() ==> ref_key(posts[i]) != ref_key(p),
    ensures
        store_map(posts.insert(idx, p)) == store_map(posts).insert(ref_key(p), p.uri@),
    decreases posts.len(),
{
    let s2 = posts.insert(idx, p);
    if idx == posts.len() {
        assert(s2.drop_last() =~= posts);
        assert(s2.last() == p);
    } else {
        assert(s2.last() == posts.last());
        assert(s2.drop_last() =~= posts.drop_last().insert(idx, p));
        lemma_store_map_insert(posts.drop_last(), idx, p);
        let klast = ref_key(posts.last());
        let kp = ref_key(p);
        assert(ref_key(posts[posts.len() - 1]) != kp);
        assert(store_map(s2) == store_map(posts.drop_last()).insert(kp, p.uri@).insert(
            klast,
            posts.last().uri@,
        ));
        assert(store_map(posts.drop_last()).insert(kp, p.uri@).insert(klast, posts.last().uri@)
            =~= store_map(posts.drop_last()).insert(klast, posts.last().uri@).insert(kp, p.uri@));
    }
}

/// Removing the post that carries a key (unique in the store) removes
/// exactly that key.
proof fn lemma_store_map_remove(posts: Seq<PostRef>, idx: int)
    requires
        0 <= idx < posts.len(),
        forall|i: int|
            0 <= i < posts.len() && i != idx ==> ref_key(posts[i]) != ref_key(posts[idx]),
    ensures
        store_map(posts.remove(idx)) == store_map(posts).remove(ref_key(posts[idx])),
    decreases posts.len(),
{
    let k = ref_key(posts[idx]);
    let s2 = posts.remove(idx);
    if idx == posts.len() - 1 {
        assert(s2 =~= posts.drop_last());
        lemma_store_map_contains(posts.drop_last(), k);
        assert(forall|i: int|
            0 <= i < posts.drop_last().len() ==> posts.drop_last()[i] == posts[i]);
        assert(!store_map(posts.drop_last()).contains_key(k));
        assert(store_map(posts.drop_last()).insert(k, posts.last().uri@).remove(k)
            =~= store_map(posts.drop_last()));
    } else {
        assert(s2.last() == posts.last());
        assert(s2.drop_last() =~= posts.drop_last().remove(idx));
        assert(forall|i: int|
            0 <= i < posts.drop_last().len() && i != idx ==> ref_key(posts.drop_last()[i])
                != ref_key(posts.drop_last()[idx]));
        lemma_store_map_remove(posts.drop_last(), idx);
        let klast = ref_key(posts.last());
        assert(ref_key(posts[posts.len() - 1]) != k);
        assert(store_map(s2) == store_map(posts.drop_last()).remove(k).insert(
            klast,
            posts.last().uri@,
        ));
        assert(store_map(posts.drop_last()).remove(k).insert(klast, posts.last().uri@)
            =~= store_map(posts.drop_last()).insert(klast, posts.last().uri@).remove(k));
    }
}

/// Index of the first post not strictly newer than the key, scanning in
/// feed order: where that key lives if present, and where it belongs if not.
fn find_position(posts: &Vec<PostRef>, at: u64, uid: u64) -> (idx: usize)
    requires
        feed_sorted(posts@),
    ensures
        0 <= idx <= posts@.len(),
        forall|j: int|
            0 <= j < idx ==> key_before(posts@[j].at as nat, posts@[j].uid as nat, at as nat, uid as nat),
        idx < posts@.len() ==> !key_before(
            posts@[idx as int].at as nat,
            posts@[idx as int].uid as nat,
            at as nat,
            uid as nat,
        ),
{
    let n = posts.len();
    let mut idx: usize = 0;
    while idx < n
        invariant
            n == posts@.len(),
            0 <= idx <= n,
            forall|j: int|
                0 <= j < idx ==> key_before(
                    posts@[j].at as nat,
                    posts@[j].uid as nat,
                    at as nat,
                    uid as nat,
                ),
        ensures
            0 <= idx <= n,
            forall|j: int|
                0 <= j < idx ==> key_before(
                    posts@[j].at as nat,
                    posts@[j].uid as nat,
                    at as nat,
                    uid as nat,
                ),
            idx < n ==> !key_before(
                posts@[idx as int].at as nat,
                posts@[idx as int].uid as nat,
                at as nat,
                uid as nat,
            ),
        decreases n - idx,
    {
        let p = &posts[idx];
        if !(p.at > at || (p.at == at && p.uid > uid)) {
            break ;
        }
        idx = idx + 1;
    }
    idx
}

/// Makes one reference present in the write store: replaces the entry with
/// the same ordering key, or inserts at its position in feed order.
pub fn apply_create(store: &mut WriteStore, reference: &PostRef)
    requires
        old(store).wf(),
    ensures
        final(store).wf(),
        store_map(final(store).posts@) == store_map(old(store).posts@).insert(
            ref_key(*reference),
            reference.uri@,
        ),
{
    let at = reference.at;
    let uid = reference.uid;
    let ghost k = ref_key(*reference);
    let idx = find_position(&store.posts, at, uid);
    let n = store.posts.len();
    let fresh = PostRef { uri: reference.uri.clone(), at, uid };
    if idx < n && store.posts[idx].at == at && store.posts[idx].uid == uid {
        let ghost before = store.posts@;
        proof {
            assert(forall|i: int|
                0 <= i < before.len() && i != idx ==> ref_key(before[i]) != ref_key(
                    before[idx as int],
                ));
            lemma_store_map_remove(before, idx as int);
        }
        store.posts.remove(idx);
        let ghost mid = store.posts@;
        proof {
            assert(feed_sorted(mid)) by {
                assert(forall|i: int, j: int|
                    0 <= i < j < mid.len() ==> key_before(
                        mid[i].at as nat,
                        mid[i].uid as nat,
                        mid[j].at as nat,
                        mid[j].uid as nat,
                    ));
            }
            assert(forall|i: int| 0 <= i < mid.len() ==> ref_key(mid[i]) != k);
            lemma_store_map_insert(mid, idx as int, fresh);
        }
        store.posts.insert(idx, fresh);
        proof {
            assert(feed_sorted(store.posts@)) by {
                assert(forall|i: int|
                    0 <= i < store.posts@.len() ==> store.posts@[i] == before.remove(idx as int).insert(
                        idx as int,
                        fresh,
                    )[i]);
            }
            assert(store_map(store.posts@) =~= store_map(old(store).posts@).insert(
                k,
                reference.uri@,
            ));
        }
    } else {
        let ghost before = store.posts@;
        proof {
            assert forall|i: int| 0 <= i < before.len() implies ref_key(before[i]) != k by {
                if i < idx {
                } else if i == idx {
                } else {
                    assert(key_before(
                        before[idx as int].at as nat,
                        before[idx as int].uid as nat,
                        before[i].at as nat,
                        before[i].uid as nat,
                    ));
                }
            }
            lemma_store_map_insert(before, idx as int, fresh);
            before.insert_ensures(idx as int, fresh);
        }
        store.posts.insert(idx, fresh);
        proof {
            let s2 = store.posts@;
            assert(s2 == before.insert(idx as int, fresh));
            assert forall|i: int, j: int| 0 <= i < j < s2.len() implies key_before(
                s2[i].at as nat,
                s2[i].uid as nat,
                s2[j].at as nat,
                s2[j].uid as nat,
            ) by {
                if i < idx && j < idx {
                    assert(s2[i] == before[i]);
                    assert(s2[j] == before[j]);
                } else if i > idx && j > idx {
                    assert(s2[i] == before[i - 1]);
                    assert(s2[j] == before[j - 1]);
                } else if i < idx && j == idx {
                    assert(s2[i] == before[i]);
                    assert(s2[j] == fresh);
                } else if i == idx {
                    assert(s2[i] == fresh);
                    assert(s2[j] == before[j - 1]);
                    assert(!key_before(
                        before[idx as int].at as nat,
                        before[idx as int].uid as nat,
                        at as nat,
                        uid as nat,
                    ));
                    assert(ref_key(before[idx as int]) != k);
                    if j - 1 > idx {
                        assert(key_before(
                            before[idx as int].at as nat,
                            before[idx as int].uid as nat,
                            before[j - 1].at as nat,
                            before[j - 1].uid as nat,
                        ));
                    }
                } else {
                    assert(i < idx && j > idx);
                    assert(s2[i] == before[i]);
                    assert(s2[j] == before[j - 1]);
                    if j - 1 == idx {
                        assert(key_before(
                            before[i].at as nat,
                            before[i].uid as nat,
                            at as nat,
                            uid as nat,
                        ));
                        assert(!key_before(
                            before[idx as int].at as nat,
                            before[idx as int].uid as nat,
                            at as nat,
                            uid as nat,
                        ));
                    }
                }
            }
        }
    }
}

/// Makes the reference with the given ordering key absent from the write
/// store; a key that is not present is left as the no-op it is.
pub fn apply_delete(store: &mut WriteStore, at: u64, uid: u64)
    requires
        old(store).wf(),
    ensures
        final(store).wf(),
        store_map(final(store).posts@) == store_map(old(store).posts@).remove(
            (at as nat, uid as nat),
        ),
{
    let ghost k = (at as nat, uid as nat);
    let idx = find_position(&store.posts, at, uid);
    let n = store.posts.len();
    if idx < n && store.posts[idx].at == at && store.posts[idx].uid == uid {
        let ghost before = store.posts@;
        proof {
            assert(forall|i: int|
                0 <= i < before.len() && i != idx ==> ref_key(before[i]) != ref_key(
                    before[idx as int],
                ));
            lemma_store_map_remove(before, idx as int);
        }
        store.posts.remove(idx);
        proof {
            assert(feed_sorted(store.posts@)) by {
                assert(forall|i: int, j: int|
                    0 <= i < j < store.posts@.len() ==> key_before(
                        store.posts@[i].at as nat,
                        store.posts@[i].uid as nat,
                        store.posts@[j].at as nat,
                        store.posts@[j].uid as nat,
                    ));
            }
        }
    } else {
        proof {
            assert forall|i: int| 0 <= i < store.posts@.len() implies ref_key(store.posts@[i])
                != k by {
                if i < idx {
                } else if i == idx {
                } else {
                    assert(key_before(
                        store.posts@[idx as int].at as nat,
                        store.posts@[idx as int].uid as nat,
                        store.posts@[i].at as nat,
                        store.posts@[i].uid as nat,
                    ));
                }
            }
            lemma_store_map_contains(store.posts@, k);
            assert(store_map(store.posts@).remove(k) =~= store_map(store.posts@));
        }
    }
}

/// Applies one event.
pub fn apply_event(store: &mut WriteStore, event: &IngestionEvent)
    requires
        old(store).wf(),
    ensures
        final(store).wf(),
        store_map(final(store).posts@) == apply_event_map(store_map(old(store).posts@), *event),
{
    match event.kind {
        EventKind::Create => apply_create(store, &event.reference),
        EventKind::Delete => apply_delete(store, event.reference.at, event.reference.uid),
    }
}

/// Applies a whole batch, in order, as one logical unit: the caller hands
/// the store value in and observes only the fully-applied result.
pub fn apply_batch(store: &mut WriteStore, events: &Vec<IngestionEvent>)
    requires
        old(store).wf(),
    ensures
        final(store).wf(),
        store_map(final(store).posts@) == apply_batch_map(
            store_map(old(store).posts@),
            events@,
        ),
{
    let ghost m0 = store_map(old(store).posts@);
    let n = events.len();
    let mut i: usize = 0;
    while i < n
        invariant
            n == events@.len(),
            0 <= i <= n,
            store.wf(),
            store_map(store.posts@) == apply_batch_map(m0, events@.subrange(0, i as int)),
        decreases n - i,
    {
        proof {
            assert(events@.subrange(0, i + 1) =~= events@.subrange(0, i as int).push(
                events@[i as int],
            ));
            lemma_apply_batch_snoc(m0, events@.subrange(0, i as int), events@[i as int]);
        }
        apply_event(store, &events[i]);
        i = i + 1;
    }
    proof {
        assert(events@.subrange(0, n as int) =~= events@);
    }
}

} // verus!
