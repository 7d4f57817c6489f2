use vstd::prelude::*;

use crate::cache::{
    events_of_ids, find_event, ids_unique, index_of_id, lemma_find_absent, lemma_find_in_unique,
    lemma_index_of_id, lemma_index_of_id_finds, lemma_stored, lemma_touched, lemma_touched_all,
    lemma_unique_after_remove, stored_events, touched, without_text, CacheModel,
};
use crate::models::IndexedEvent;

verus! {

/// Evicting the least recently used event (the first one) of a non-empty
/// cache with unique ids keeps the ids unique and what every other id finds.
proof fn lemma_evict_first(m: CacheModel)
    requires
        ids_unique(m.events),
        m.events.len() > 0,
    ensures
        m.removed(m.events[0].id@).events == m.events.remove(0),
        ids_unique(m.events.remove(0)),
        find_event(m.events.remove(0), m.events[0].id@) is None,
        forall|k: int|
            1 <= k < m.events.len() ==> find_event(m.events.remove(0), #[trigger] m.events[k].id@)
                == Some(m.events[k]),
{
    let s = m.events;
    lemma_index_of_id(s, s[0].id@, 0);
    lemma_unique_after_remove(s, 0);
    let r = s.remove(0);
    assert forall|j: int| 0 <= j < r.len() implies r[j].id@ != s[0].id@ by {
        assert(r[j] == s[j + 1]);
    }
    lemma_find_absent(r, s[0].id@);
    assert forall|k: int| 1 <= k < s.len() implies find_event(r, #[trigger] s[k].id@) == Some(s[k]) by {
        assert(r[k - 1] == s[k]);
        lemma_find_in_unique(r, k - 1);
    }
}

/// The events the cache holds before `insert(e)` are stored with unique ids,
/// and the insertion keeps them unique.
proof fn lemma_inserted_unique(m: CacheModel, e: IndexedEvent)
    requires
        ids_unique(m.events),
    ensures
        ids_unique(m.inserted(e).events),
        find_event(m.inserted(e).events, e.id@) == Some(e),
        m.inserted(e).events.last() == e,
{
    if m.events.len() >= m.max_size && m.events.len() > 0 {
        lemma_evict_first(m);
        lemma_stored(m.events.remove(0), e);
    } else {
        lemma_stored(m.events, e);
    }
}

/// After `insert(e)`, looking up `e`'s id finds `e`, and `e` is the most
/// recently used event.
pub proof fn law_inserted_event_is_found(m: CacheModel, e: IndexedEvent)
    requires
        ids_unique(m.events),
    ensures
        find_event(m.inserted(e).events, e.id@) == Some(e),
        m.inserted(e).events.last() == e,
        ids_unique(m.inserted(e).events),
{
    lemma_inserted_unique(m, e);
}

/// After `insert(e)`, the last event listed for `e`'s match is `e`.
pub proof fn law_inserted_event_is_listed_for_its_match(m: CacheModel, e: IndexedEvent)
    requires
        ids_unique(m.events),
    ensures
        ({
            let after = m.inserted(e);
            let listed = events_of_ids(after.ids_of(e.match_id), after.events);
            listed.len() > 0 && listed.last() == e
        }),
{
    law_inserted_event_is_found(m, e);
    let after = m.inserted(e);
    let ids = after.ids_of(e.match_id);
    assert(ids.last() == e.id);
    assert(ids.len() > 0);
}

/// After `remove(id)`, no cached event has that id.
pub proof fn law_removed_event_is_gone(m: CacheModel, id: Seq<char>)
    requires
        ids_unique(m.events),
    ensures
        find_event(m.removed(id).events, id) is None,
        ids_unique(m.removed(id).events),
{
    let s = m.events;
    lemma_index_of_id_finds(s, id);
    let i = index_of_id(s, id);
    if i < s.len() {
        let r = s.remove(i);
        lemma_unique_after_remove(s, i);
        assert forall|j: int| 0 <= j < r.len() implies r[j].id@ != id by {
            if j < i {
                assert(r[j] == s[j]);
            } else {
                assert(r[j] == s[j + 1]);
            }
        }
        lemma_index_of_id(r, id, r.len() as int);
    } else {
        lemma_index_of_id(s, id, s.len() as int);
    }
}

/// A cache holding at most `max_size` events (with `max_size` at least one)
/// still does so after an insertion.
pub proof fn law_insert_keeps_size_bound(m: CacheModel, e: IndexedEvent)
    requires
        ids_unique(m.events),
        1 <= m.max_size,
        m.events.len() <= m.max_size,
    ensures
        m.inserted(e).events.len() <= m.max_size,
{
    if m.events.len() >= m.max_size {
        lemma_evict_first(m);
        lemma_stored(m.events.remove(0), e);
    } else {
        lemma_stored(m.events, e);
    }
}

/// Inserting a new event into a full cache evicts exactly the least recently
/// used event: the cache stays full, holds the new event, no longer holds the
/// evicted one, and still holds every other event.
pub proof fn law_full_insert_evicts_least_recently_used(m: CacheModel, e: IndexedEvent)
    requires
        ids_unique(m.events),
        1 <= m.max_size,
        m.events.len() == m.max_size,
        find_event(m.events, e.id@) is None,
    ensures
        ({
            let after = m.inserted(e).events;
            &&& after.len() == m.max_size
            &&& find_event(after, e.id@) == Some(e)
            &&& find_event(after, m.events[0].id@) is None
            &&& forall|k: int|
                1 <= k < m.events.len() ==> find_event(after, #[trigger] m.events[k].id@) == Some(
                    m.events[k],
                )
        }),
{
    let s = m.events;
    lemma_evict_first(m);
    let r = s.remove(0);
    lemma_index_of_id_finds(s, e.id@);
    if index_of_id(s, e.id@) < s.len() {
        assert(find_event(s, e.id@) is Some);
    }
    assert forall|j: int| 0 <= j < r.len() implies r[j].id@ != e.id@ by {
        assert(r[j] == s[j + 1]);
        if s[j + 1].id@ == e.id@ {
            lemma_find_in_unique(s, j + 1);
        }
    }
    lemma_find_absent(r, e.id@);
    lemma_stored(r, e);
    assert(m.inserted(e).events == stored_events(r, e));
    assert(s[0].id@ != e.id@);
    assert forall|k: int| 1 <= k < s.len() implies find_event(stored_events(r, e), #[trigger] s[k].id@)
        == Some(s[k]) by {
        assert(s[k].id@ != e.id@) by {
            if s[k].id@ == e.id@ {
                lemma_find_in_unique(s, k);
            }
        }
    }
}

/// Reading a cached event makes it the most recently used one, and changes
/// nothing that any id finds.
pub proof fn law_read_event_becomes_most_recent(m: CacheModel, id: Seq<char>)
    requires
        ids_unique(m.events),
        find_event(m.events, id) is Some,
    ensures
        m.read(id).events.last() == find_event(m.events, id)->0,
        m.read(id).events.len() == m.events.len(),
        ids_unique(m.read(id).events),
        forall|b: Seq<char>| #[trigger] find_event(m.read(id).events, b) == find_event(m.events, b),
{
    lemma_touched(m.events, id);
    assert(m.read(id).events == touched(m.events, id));
}

/// No id occurs twice in `ids`.
pub open spec fn ids_distinct(ids: Seq<String>) -> bool {
    forall|a: int, b: int| 0 <= a < b < ids.len() ==> ids[a]@ != ids[b]@
}

/// The per-match index agrees with the cached events: every id listed for a
/// match names a cached event of that match, and no match lists an id twice.
pub open spec fn index_consistent(m: CacheModel) -> bool {
    &&& forall|mid: u64, k: int|
        0 <= k < m.ids_of(mid).len() ==> (find_event(m.events, #[trigger] m.ids_of(mid)[k]@) matches Some(
            ev,
        ) && ev.match_id == mid)
    &&& forall|mid: u64| #[trigger] ids_distinct(m.ids_of(mid))
}

/// What `find_event` gives is an event carrying the id asked for.
proof fn lemma_found_has_id(s: Seq<IndexedEvent>, id: Seq<char>)
    ensures
        find_event(s, id) matches Some(ev) ==> ev.id@ == id,
{
    lemma_index_of_id_finds(s, id);
}

/// Removing the event at `i` leaves what every other id finds.
proof fn lemma_removed_find(s: Seq<IndexedEvent>, i: int)
    requires
        ids_unique(s),
        0 <= i < s.len(),
    ensures
        forall|b: Seq<char>| b != s[i].id@ ==> #[trigger] find_event(s.remove(i), b) == find_event(s, b),
{
    let r = s.remove(i);
    lemma_unique_after_remove(s, i);
    assert forall|b: Seq<char>| b != s[i].id@ implies #[trigger] find_event(r, b) == find_event(s, b) by {
        lemma_index_of_id_finds(s, b);
        let k = index_of_id(s, b);
        if k < s.len() {
            let g = if k > i { k - 1 } else { k };
            assert(r[g] == s[k]);
            lemma_find_in_unique(r, g);
        } else {
            assert forall|j: int| 0 <= j < r.len() implies r[j].id@ != b by {
                let fj = if j >= i { j + 1 } else { j };
                assert(r[j] == s[fj]);
            }
            lemma_find_absent(r, b);
        }
    }
}

/// `without_text(ids, id)` keeps only ids of `ids` other than `id`, and keeps
/// them distinct.
proof fn lemma_without_text(ids: Seq<String>, id: Seq<char>)
    ensures
        forall|k: int|
            0 <= k < without_text(ids, id).len() ==> (#[trigger] without_text(ids, id)[k])@ != id
                && exists|j: int| 0 <= j < ids.len() && ids[j] == without_text(ids, id)[k],
        ids_distinct(ids) ==> ids_distinct(without_text(ids, id)),
    decreases ids.len(),
{
    if ids.len() > 0 {
        let init = ids.drop_last();
        lemma_without_text(init, id);
        let w0 = without_text(init, id);
        assert forall|k: int| #![trigger w0[k]] 0 <= k < w0.len() implies exists|j: int| 0 <= j < ids.len() && ids[j] == w0[k] by {
            let j = choose|j: int| 0 <= j < init.len() && init[j] == w0[k];
            assert(ids[j] == init[j]);
        }
        if ids.last()@ != id {
            let w = w0.push(ids.last());
            assert(w[w0.len() as int] == ids[ids.len() - 1]);
            assert forall|k: int| 0 <= k < w.len() implies (#[trigger] w[k])@ != id && exists|j: int|
                0 <= j < ids.len() && ids[j] == w[k] by {
                if k < w0.len() {
                    assert(w[k] == w0[k]);
                }
            }
            if ids_distinct(ids) {
                assert(ids_distinct(init)) by {
                    assert forall|a: int, b: int| 0 <= a < b < init.len() implies init[a]@ != init[b]@ by {
                        assert(init[a] == ids[a]);
                        assert(init[b] == ids[b]);
                    }
                }
                assert forall|a: int, b: int| 0 <= a < b < w.len() implies w[a]@ != w[b]@ by {
                    assert(w[a] == w0[a]);
                    if b < w0.len() {
                        assert(w[b] == w0[b]);
                    } else {
                        let j = choose|j: int| 0 <= j < init.len() && init[j] == w0[a];
                        assert(ids[j] == init[j]);
                        assert(ids[ids.len() - 1] == ids.last());
                    }
                }
            }
        } else {
            if ids_distinct(ids) {
                assert forall|a: int, b: int| 0 <= a < b < init.len() implies init[a]@ != init[b]@ by {
                    assert(init[a] == ids[a]);
                    assert(init[b] == ids[b]);
                }
            }
        }
    }
}

/// An empty cache (as `new` and `clear` leave it) has a consistent index.
pub proof fn law_empty_cache_index_consistent(m: CacheModel)
    requires
        m.events.len() == 0,
        m.match_index == Map::<u64, Seq<String>>::empty(),
    ensures
        index_consistent(m),
{
    assert forall|mid: u64| #[trigger] ids_distinct(m.ids_of(mid)) by {
        assert(m.ids_of(mid).len() == 0);
    }
}

/// `remove(id)` keeps the index consistent.
pub proof fn law_remove_keeps_index_consistent(m: CacheModel, id: Seq<char>)
    requires
        ids_unique(m.events),
        index_consistent(m),
    ensures
        index_consistent(m.removed(id)),
        ids_unique(m.removed(id).events),
{
    law_removed_event_is_gone(m, id);
    let s = m.events;
    lemma_index_of_id_finds(s, id);
    let i = index_of_id(s, id);
    if i < s.len() {
        let x = s[i];
        let mx = x.match_id;
        let after = m.removed(id);
        lemma_removed_find(s, i);
        lemma_find_in_unique(s, i);
        assert(x.id@ == id);
        // An id listed for any match other than through `id` itself keeps
        // its event; `id` is listed for `mx` only.
        assert forall|mid: u64, k: int| 0 <= k < after.ids_of(mid).len() implies (find_event(
            after.events,
            #[trigger] after.ids_of(mid)[k]@,
        ) matches Some(ev) && ev.match_id == mid) by {
            if mid == mx && m.match_index.contains_key(mx) {
                lemma_without_text(m.ids_of(mx), id);
                let y = after.ids_of(mid)[k];
                let j = choose|j: int| 0 <= j < m.ids_of(mx).len() && m.ids_of(mx)[j] == y;
                assert(m.ids_of(mx)[j] == y);
                assert(y@ != id);
            } else {
                assert(after.ids_of(mid) == m.ids_of(mid));
                let y = m.ids_of(mid)[k];
                assert(find_event(s, y@) matches Some(ev) && ev.match_id == mid);
                if y@ == id {
                    assert(mid == mx);
                    assert(m.ids_of(mx).len() == 0);
                }
            }
        }
        assert forall|mid: u64| #[trigger] ids_distinct(after.ids_of(mid)) by {
            if mid == mx && m.match_index.contains_key(mx) {
                assert(ids_distinct(m.ids_of(mx)));
                lemma_without_text(m.ids_of(mx), id);
            } else {
                assert(after.ids_of(mid) == m.ids_of(mid));
                assert(ids_distinct(m.ids_of(mid)));
            }
        }
    }
}

/// Storing an event whose id is not cached keeps the index consistent.
proof fn lemma_stored_keeps_index_consistent(m: CacheModel, e: IndexedEvent)
    requires
        ids_unique(m.events),
        index_consistent(m),
        find_event(m.events, e.id@) is None,
    ensures
        index_consistent(m.stored(e)),
        ids_unique(m.stored(e).events),
{
    let after = m.stored(e);
    lemma_stored(m.events, e);
    assert forall|mid: u64, k: int| 0 <= k < after.ids_of(mid).len() implies (find_event(
        after.events,
        #[trigger] after.ids_of(mid)[k]@,
    ) matches Some(ev) && ev.match_id == mid) by {
        if mid == e.match_id && k == m.ids_of(mid).len() {
            assert(after.ids_of(mid)[k] == e.id);
        } else {
            let y = m.ids_of(mid)[k];
            assert(after.ids_of(mid)[k] == y);
            assert(find_event(m.events, y@) matches Some(ev) && ev.match_id == mid);
            assert(y@ != e.id@);
        }
    }
    assert forall|mid: u64| #[trigger] ids_distinct(after.ids_of(mid)) by {
        let old_ids = m.ids_of(mid);
        assert(ids_distinct(old_ids));
        if mid == e.match_id {
            let ids = after.ids_of(mid);
            assert(ids == old_ids.push(e.id));
            assert forall|a: int, b: int| 0 <= a < b < ids.len() implies ids[a]@ != ids[b]@ by {
                assert(ids[a] == old_ids[a]);
                if b < old_ids.len() {
                    assert(ids[b] == old_ids[b]);
                } else {
                    assert(find_event(m.events, old_ids[a]@) is Some);
                }
            }
        } else {
            assert(after.ids_of(mid) == old_ids);
        }
    }
}

/// Inserting an event whose id is not cached (each indexed event gets a
/// fresh id) keeps the index consistent, also when the least recently used
/// event is evicted first.
pub proof fn law_insert_keeps_index_consistent(m: CacheModel, e: IndexedEvent)
    requires
        ids_unique(m.events),
        index_consistent(m),
        find_event(m.events, e.id@) is None,
    ensures
        index_consistent(m.inserted(e)),
        ids_unique(m.inserted(e).events),
{
    if m.events.len() >= m.max_size && m.events.len() > 0 {
        let x = m.events[0].id@;
        law_remove_keeps_index_consistent(m, x);
        lemma_evict_first(m);
        lemma_removed_find(m.events, 0);
        lemma_find_in_unique(m.events, 0);
        assert(x != e.id@);
        assert(find_event(m.removed(x).events, e.id@) is None);
        lemma_stored_keeps_index_consistent(m.removed(x), e);
    } else {
        lemma_stored_keeps_index_consistent(m, e);
    }
}

/// Reading events (one by id, or those of a match) keeps the index consistent.
pub proof fn law_reads_keep_index_consistent(m: CacheModel, id: Seq<char>, match_id: u64)
    requires
        ids_unique(m.events),
        index_consistent(m),
    ensures
        index_consistent(m.read(id)),
        index_consistent(m.read_match(match_id)),
{
    lemma_touched(m.events, id);
    lemma_touched_all(m.events, m.ids_of(match_id));
    let r1 = m.read(id);
    let r2 = m.read_match(match_id);
    assert forall|mid: u64, k: int| 0 <= k < r1.ids_of(mid).len() implies (find_event(
        r1.events,
        #[trigger] r1.ids_of(mid)[k]@,
    ) matches Some(ev) && ev.match_id == mid) by {
        assert(r1.ids_of(mid) == m.ids_of(mid));
        assert(find_event(m.events, m.ids_of(mid)[k]@) matches Some(ev) && ev.match_id == mid);
    }
    assert forall|mid: u64| #[trigger] ids_distinct(r1.ids_of(mid)) by {
        assert(r1.ids_of(mid) == m.ids_of(mid));
        assert(ids_distinct(m.ids_of(mid)));
    }
    assert forall|mid: u64, k: int| 0 <= k < r2.ids_of(mid).len() implies (find_event(
        r2.events,
        #[trigger] r2.ids_of(mid)[k]@,
    ) matches Some(ev) && ev.match_id == mid) by {
        assert(r2.ids_of(mid) == m.ids_of(mid));
        assert(find_event(m.events, m.ids_of(mid)[k]@) matches Some(ev) && ev.match_id == mid);
    }
    assert forall|mid: u64| #[trigger] ids_distinct(r2.ids_of(mid)) by {
        assert(r2.ids_of(mid) == m.ids_of(mid));
        assert(ids_distinct(m.ids_of(mid)));
    }
}

/// Listing ids that all name cached events gives one event per id, in order.
proof fn lemma_events_of_found_ids(ids: Seq<String>, events: Seq<IndexedEvent>)
    requires
        forall|k: int| 0 <= k < ids.len() ==> #[trigger] find_event(events, ids[k]@) is Some,
    ensures
        events_of_ids(ids, events).len() == ids.len(),
        forall|k: int|
            0 <= k < ids.len() ==> #[trigger] events_of_ids(ids, events)[k] == find_event(
                events,
                ids[k]@,
            )->0,
    decreases ids.len(),
{
    if ids.len() > 0 {
        let init = ids.drop_last();
        assert forall|k: int| 0 <= k < init.len() implies #[trigger] find_event(events, init[k]@) is Some by {
            assert(init[k] == ids[k]);
            assert(find_event(events, ids[k]@) is Some);
        }
        lemma_events_of_found_ids(init, events);
        assert(find_event(events, ids[ids.len() - 1]@) is Some);
        assert forall|k: int| 0 <= k < ids.len() implies #[trigger] events_of_ids(ids, events)[k]
            == find_event(events, ids[k]@)->0 by {
            if k < init.len() {
                assert(init[k] == ids[k]);
            }
        }
    }
}

/// With a consistent index, the events listed for a match all belong to it,
/// one for each listed id, and no event is listed twice.
pub proof fn law_listed_events_belong_to_their_match(m: CacheModel, match_id: u64)
    requires
        index_consistent(m),
    ensures
        ({
            let listed = events_of_ids(m.ids_of(match_id), m.events);
            &&& listed.len() == m.ids_of(match_id).len()
            &&& forall|k: int| 0 <= k < listed.len() ==> (#[trigger] listed[k]).match_id == match_id
            &&& forall|a: int, b: int| 0 <= a < b < listed.len() ==> listed[a].id@ != listed[b].id@
        }),
{
    let ids = m.ids_of(match_id);
    assert forall|k: int| 0 <= k < ids.len() implies #[trigger] find_event(m.events, ids[k]@) is Some by {
        assert(find_event(m.events, m.ids_of(match_id)[k]@) matches Some(ev) && ev.match_id == match_id);
    }
    lemma_events_of_found_ids(ids, m.events);
    let listed = events_of_ids(ids, m.events);
    assert forall|k: int| 0 <= k < listed.len() implies (#[trigger] listed[k]).match_id == match_id by {
        assert(find_event(m.events, m.ids_of(match_id)[k]@) matches Some(ev) && ev.match_id == match_id);
    }
    assert forall|a: int, b: int| 0 <= a < b < listed.len() implies listed[a].id@ != listed[b].id@ by {
        lemma_found_has_id(m.events, ids[a]@);
        lemma_found_has_id(m.events, ids[b]@);
        assert(ids_distinct(m.ids_of(match_id)));
    }
}

/// Inserting an event whose id is not cached lists it exactly once for its
/// match: as the last event listed, and nowhere before.
pub proof fn law_inserted_event_is_listed_once(m: CacheModel, e: IndexedEvent)
    requires
        ids_unique(m.events),
        index_consistent(m),
        find_event(m.events, e.id@) is None,
    ensures
        ({
            let after = m.inserted(e);
            let listed = events_of_ids(after.ids_of(e.match_id), after.events);
            &&& listed.len() > 0
            &&& listed.last() == e
            &&& forall|k: int| 0 <= k < listed.len() - 1 ==> #[trigger] listed[k] != e
        }),
{
    law_insert_keeps_index_consistent(m, e);
    law_inserted_event_is_listed_for_its_match(m, e);
    law_listed_events_belong_to_their_match(m.inserted(e), e.match_id);
    let after = m.inserted(e);
    let listed = events_of_ids(after.ids_of(e.match_id), after.events);
    assert forall|k: int| 0 <= k < listed.len() - 1 implies #[trigger] listed[k] != e by {
        assert(listed[k].id@ != listed[listed.len() - 1].id@);
    }
}

} // verus!
