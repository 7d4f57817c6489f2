use std::collections::HashMap;
use vstd::prelude::*;

use crate::models::IndexedEvent;

verus! {

broadcast use vstd::std_specs::hash::group_hash_axioms;

/// Position of the first event with id `id` in `s`, or `s.len()` when there is none.
pub open spec fn index_of_id(s: Seq<IndexedEvent>, id: Seq<char>) -> int
    decreases s.len(),
{
    if s.len() == 0 {
        0
    } else if s[0].id@ == id {
        0
    } else {
        1 + index_of_id(s.drop_first(), id)
    }
}

/// The event with id `id` in `s`, if any.
pub open spec fn find_event(s: Seq<IndexedEvent>, id: Seq<char>) -> Option<IndexedEvent> {
    if index_of_id(s, id) < s.len() {
        Some(s[index_of_id(s, id)])
    } else {
        None
    }
}

/// `ids` without every occurrence of `id`, the rest in order.
pub open spec fn without_text(ids: Seq<String>, id: Seq<char>) -> Seq<String>
    decreases ids.len(),
{
    if ids.len() == 0 {
        ids
    } else if ids.last()@ == id {
        without_text(ids.drop_last(), id)
    } else {
        without_text(ids.drop_last(), id).push(ids.last())
    }
}

/// The events of `events` named by `ids`, in the order of `ids`, skipping ids
/// that name no event.
pub open spec fn events_of_ids(ids: Seq<String>, events: Seq<IndexedEvent>) -> Seq<IndexedEvent>
    decreases ids.len(),
{
    if ids.len() == 0 {
        Seq::empty()
    } else {
        let rest = events_of_ids(ids.drop_last(), events);
        match find_event(events, ids.last()@) {
            Some(e) => rest.push(e),
            None => rest,
        }
    }
}

/// `index_of_id` is the first matching position, or the length when nothing matches.
pub proof fn lemma_index_of_id(s: Seq<IndexedEvent>, id: Seq<char>, i: int)
    requires
        0 <= i <= s.len(),
        i < s.len() ==> s[i].id@ == id,
        forall|j: int| 0 <= j < i ==> s[j].id@ != id,
    ensures
        index_of_id(s, id) == i,
    decreases s.len(),
{
    if s.len() > 0 && i > 0 {
        lemma_index_of_id(s.drop_first(), id, i - 1);
    }
}

/// What `index_of_id` finds: a match with none before it, or no match at all.
pub proof fn lemma_index_of_id_finds(s: Seq<IndexedEvent>, id: Seq<char>)
    ensures
        0 <= index_of_id(s, id) <= s.len(),
        index_of_id(s, id) < s.len() ==> s[index_of_id(s, id)].id@ == id,
        forall|j: int| 0 <= j < index_of_id(s, id) ==> s[j].id@ != id,
    decreases s.len(),
{
    if s.len() > 0 && s[0].id@ != id {
        lemma_index_of_id_finds(s.drop_first(), id);
        assert forall|j: int| 0 <= j < index_of_id(s, id) implies s[j].id@ != id by {
            if j > 0 {
                assert(s[j] == s.drop_first()[j - 1]);
            }
        }
    }
}

/// No two cached events share an id.
pub open spec fn ids_unique(s: Seq<IndexedEvent>) -> bool {
    forall|i: int, j: int| 0 <= i < j < s.len() ==> s[i].id@ != s[j].id@
}

/// `s` after the event with id `id`, if any, was used: it moves to the
/// most recently used end.
pub open spec fn touched(s: Seq<IndexedEvent>, id: Seq<char>) -> Seq<IndexedEvent> {
    let i = index_of_id(s, id);
    if i < s.len() {
        s.remove(i).push(s[i])
    } else {
        s
    }
}

/// `s` after the events with ids `ids` were used, in that order.
pub open spec fn touched_all(s: Seq<IndexedEvent>, ids: Seq<String>) -> Seq<IndexedEvent>
    decreases ids.len(),
{
    if ids.len() == 0 {
        s
    } else {
        touched(touched_all(s, ids.drop_last()), ids.last()@)
    }
}

/// `s` with `e` stored as its most recently used event, replacing any event
/// with the same id.
pub open spec fn stored_events(s: Seq<IndexedEvent>, e: IndexedEvent) -> Seq<IndexedEvent> {
    let i = index_of_id(s, e.id@);
    if i < s.len() {
        s.remove(i).push(e)
    } else {
        s.push(e)
    }
}

/// The abstract content of an event cache.
pub ghost struct CacheModel {
    /// Cached events, least recently used first.
    pub events: Seq<IndexedEvent>,
    /// Event ids recorded per match, in insertion order.
    pub match_index: Map<u64, Seq<String>>,
    pub max_size: usize,
}

impl CacheModel {
    /// The ids recorded for `match_id`.
    pub open spec fn ids_of(self, match_id: u64) -> Seq<String> {
        if self.match_index.contains_key(match_id) {
            self.match_index[match_id]
        } else {
            Seq::empty()
        }
    }

    /// The cache after `remove(id)`.
    pub open spec fn removed(self, id: Seq<char>) -> CacheModel {
        let i = index_of_id(self.events, id);
        if i < self.events.len() {
            let m = self.events[i].match_id;
            CacheModel {
                events: self.events.remove(i),
                match_index: if self.match_index.contains_key(m) {
                    self.match_index.insert(m, without_text(self.match_index[m], id))
                } else {
                    self.match_index
                },
                max_size: self.max_size,
            }
        } else {
            self
        }
    }

    /// The cache with `e` stored under its id as the most recently used
    /// event, and recorded for its match.
    pub open spec fn stored(self, e: IndexedEvent) -> CacheModel {
        CacheModel {
            events: stored_events(self.events, e),
            match_index: self.match_index.insert(e.match_id, self.ids_of(e.match_id).push(e.id)),
            max_size: self.max_size,
        }
    }

    /// The cache after `insert(e)`: when full, the least recently used event
    /// is evicted first.
    pub open spec fn inserted(self, e: IndexedEvent) -> CacheModel {
        if self.events.len() >= self.max_size && self.events.len() > 0 {
            self.removed(self.events[0].id@).stored(e)
        } else {
            self.stored(e)
        }
    }

    /// The cache after the event with id `id` was read.
    pub open spec fn read(self, id: Seq<char>) -> CacheModel {
        CacheModel { events: touched(self.events, id), ..self }
    }

    /// The cache after the events of `match_id` were read.
    pub open spec fn read_match(self, match_id: u64) -> CacheModel {
        CacheModel { events: touched_all(self.events, self.ids_of(match_id)), ..self }
    }
}

/// Removing the event at `i` keeps the ids unique.
pub proof fn lemma_unique_after_remove(s: Seq<IndexedEvent>, i: int)
    requires
        ids_unique(s),
        0 <= i < s.len(),
    ensures
        ids_unique(s.remove(i)),
{
    let r = s.remove(i);
    assert forall|a: int, b: int| 0 <= a < b < r.len() implies r[a].id@ != r[b].id@ by {
        let aa = if a < i { a } else { a + 1 };
        let bb = if b < i { b } else { b + 1 };
        assert(r[a] == s[aa]);
        assert(r[b] == s[bb]);
    }
}

/// In a sequence with unique ids, an event is found by its id.
pub proof fn lemma_find_in_unique(s: Seq<IndexedEvent>, k: int)
    requires
        ids_unique(s),
        0 <= k < s.len(),
    ensures
        find_event(s, s[k].id@) == Some(s[k]),
{
    lemma_index_of_id(s, s[k].id@, k);
}

/// An id that no event carries is not found.
pub proof fn lemma_find_absent(s: Seq<IndexedEvent>, id: Seq<char>)
    requires
        forall|j: int| 0 <= j < s.len() ==> s[j].id@ != id,
    ensures
        find_event(s, id) is None,
{
    lemma_index_of_id(s, id, s.len() as int);
}

/// Using an event keeps the ids unique, the number of events, and what
/// every id finds.
pub proof fn lemma_touched(s: Seq<IndexedEvent>, id: Seq<char>)
    requires
        ids_unique(s),
    ensures
        ids_unique(touched(s, id)),
        touched(s, id).len() == s.len(),
        forall|b: Seq<char>| #[trigger] find_event(touched(s, id), b) == find_event(s, b),
{
    lemma_index_of_id_finds(s, id);
    let i = index_of_id(s, id);
    if i < s.len() {
        let n = s.len() as int;
        let t = s.remove(i).push(s[i]);
        assert(t == touched(s, id));
        // t[j] is s[f(j)]
        assert forall|j: int| 0 <= j < n implies #[trigger] t[j] == s[if j < i {
            j
        } else if j < n - 1 {
            j + 1
        } else {
            i
        }] by {}
        assert forall|a: int, b: int| 0 <= a < b < t.len() implies t[a].id@ != t[b].id@ by {
            let fa = if a < i { a } else if a < n - 1 { a + 1 } else { i };
            let fb = if b < i { b } else if b < n - 1 { b + 1 } else { i };
            assert(t[a] == s[fa]);
            assert(t[b] == s[fb]);
            assert(fa != fb);
        }
        assert forall|b: Seq<char>| #[trigger] find_event(t, b) == find_event(s, b) by {
            lemma_index_of_id_finds(s, b);
            let k = index_of_id(s, b);
            if k < n {
                let g = if k < i { k } else if k == i { n - 1 } else { k - 1 };
                assert(t[g] == s[k]);
                lemma_find_in_unique(t, g);
            } else {
                assert forall|j: int| 0 <= j < t.len() implies t[j].id@ != b by {
                    let fj = if j < i { j } else if j < n - 1 { j + 1 } else { i };
                    assert(t[j] == s[fj]);
                }
                lemma_find_absent(t, b);
            }
        }
    }
}

/// Using several events keeps the ids unique, the number of events, and
/// what every id finds.
pub proof fn lemma_touched_all(s: Seq<IndexedEvent>, ids: Seq<String>)
    requires
        ids_unique(s),
    ensures
        ids_unique(touched_all(s, ids)),
        touched_all(s, ids).len() == s.len(),
        forall|b: Seq<char>| #[trigger] find_event(touched_all(s, ids), b) == find_event(s, b),
    decreases ids.len(),
{
    if ids.len() > 0 {
        lemma_touched_all(s, ids.drop_last());
        let prev = touched_all(s, ids.drop_last());
        lemma_touched(prev, ids.last()@);
        assert forall|b: Seq<char>| #[trigger] find_event(touched_all(s, ids), b) == find_event(s, b) by {
            assert(find_event(touched(prev, ids.last()@), b) == find_event(prev, b));
            assert(find_event(prev, b) == find_event(s, b));
        }
    }
}

/// Storing `e` keeps the ids unique, finds `e` under its id (as the most
/// recently used event), and leaves what every other id finds.
pub proof fn lemma_stored(s: Seq<IndexedEvent>, e: IndexedEvent)
    requires
        ids_unique(s),
    ensures
        ids_unique(stored_events(s, e)),
        stored_events(s, e).last() == e,
        find_event(stored_events(s, e), e.id@) == Some(e),
        stored_events(s, e).len() == if find_event(s, e.id@) is Some {
            s.len() as int
        } else {
            s.len() + 1int
        },
        forall|b: Seq<char>| b != e.id@ ==> #[trigger] find_event(stored_events(s, e), b) == find_event(s, b),
{
    lemma_index_of_id_finds(s, e.id@);
    let i = index_of_id(s, e.id@);
    let n = s.len() as int;
    let r = if i < n { s.remove(i) } else { s };
    if i < n {
        lemma_unique_after_remove(s, i);
        assert forall|j: int| 0 <= j < r.len() implies r[j].id@ != e.id@ by {
            let fj = if j < i { j } else { j + 1 };
            assert(r[j] == s[fj]);
        }
    }
    let t = r.push(e);
    assert(t == stored_events(s, e));
    assert forall|a: int, b: int| 0 <= a < b < t.len() implies t[a].id@ != t[b].id@ by {
        assert(t[a] == r[a]);
        if b < r.len() {
            assert(t[b] == r[b]);
        }
    }
    lemma_find_in_unique(t, r.len() as int);
    assert forall|b: Seq<char>| b != e.id@ implies #[trigger] find_event(t, b) == find_event(s, b) by {
        lemma_index_of_id_finds(s, b);
        let k = index_of_id(s, b);
        if k < n {
            assert(k != i);
            let g = if i < n && k > i { k - 1 } else { k };
            assert(t[g] == s[k]);
            lemma_find_in_unique(t, g);
        } else {
            assert forall|j: int| 0 <= j < t.len() implies t[j].id@ != b by {
                if j < r.len() {
                    let fj = if i < n && j >= i { j + 1 } else { j };
                    assert(t[j] == s[fj]);
                }
            }
            lemma_find_absent(t, b);
        }
    }
}

/// An in-memory cache of indexed events, with the event ids of each match.
pub struct EventCache {
    events: Vec<IndexedEvent>,
    match_index: HashMap<u64, Vec<String>>,
    max_size: usize,
}

impl View for EventCache {
    type V = CacheModel;

    closed spec fn view(&self) -> CacheModel {
        CacheModel {
            events: self.events@,
            match_index: self.match_index@.map_values(|v: Vec<String>| v@),
            max_size: self.max_size,
        }
    }
}

/// A copy of `ids` without every occurrence of `id`.
fn without_id(ids: &Vec<String>, id: &String) -> (r: Vec<String>)
    ensures
        r@ == without_text(ids@, id@),
{
    let mut kept: Vec<String> = Vec::new();
    let n = ids.len();
    let mut i: usize = 0;
    while i < n
        invariant
            n == ids@.len(),
            i <= n,
            kept@ == without_text(ids@.take(i as int), id@),
        decreases n - i,
    {
        proof {
            assert(ids@.take(i as int + 1).drop_last() =~= ids@.take(i as int));
        }
        if ids[i] != *id {
            kept.push(ids[i].clone());
        }
        i = i + 1;
    }
    proof {
        assert(ids@.take(n as int) =~= ids@);
    }
    kept
}

impl EventCache {
    #[verifier::type_invariant]
    closed spec fn unique_ids(&self) -> bool {
        ids_unique(self.events@)
    }

    /// An empty cache that holds up to `max_size` events.
    pub fn new(max_size: usize) -> (c: Self)
        ensures
            c@.events == Seq::<IndexedEvent>::empty(),
            c@.match_index == Map::<u64, Seq<String>>::empty(),
            c@.max_size == max_size,
            ids_unique(c@.events),
    {
        let c = EventCache { events: Vec::new(), match_index: HashMap::new(), max_size };
        assert(c@.match_index =~= Map::<u64, Seq<String>>::empty());
        c
    }

    /// Position of the event with id `id`, or the number of cached events.
    fn position(&self, id: &String) -> (r: usize)
        ensures
            r == index_of_id(self@.events, id@),
    {
        let n = self.events.len();
        let mut i: usize = 0;
        while i < n
            invariant
                n == self.events@.len(),
                i <= n,
                forall|j: int| 0 <= j < i ==> self.events@[j].id@ != id@,
            decreases n - i,
        {
            if self.events[i].id == *id {
                proof {
                    lemma_index_of_id(self.events@, id@, i as int);
                }
                return i;
            }
            i = i + 1;
        }
        proof {
            lemma_index_of_id(self.events@, id@, n as int);
        }
        n
    }

    /// Remove the event with id `id`, and its id from its match's list.
    fn remove_id(&mut self, id: &String)
        ensures
            final(self)@ == old(self)@.removed(id@),
    {
        proof {
            use_type_invariant(&*self);
        }
        let pos = self.position(id);
        if pos < self.events.len() {
            let match_id = self.events[pos].match_id;
            let mut events: Vec<IndexedEvent> = Vec::new();
            let mut index: HashMap<u64, Vec<String>> = HashMap::new();
            std::mem::swap(&mut events, &mut self.events);
            std::mem::swap(&mut index, &mut self.match_index);
            let ghost before = events@;
            proof {
                assert forall|i: int, j: int|
                    0 <= i < j < before.remove(pos as int).len() implies before.remove(
                    pos as int,
                )[i].id@ != before.remove(pos as int)[j].id@ by {
                    let ii = if i < pos { i } else { i + 1 };
                    let jj = if j < pos { j } else { j + 1 };
                    assert(before.remove(pos as int)[i] == before[ii]);
                    assert(before.remove(pos as int)[j] == before[jj]);
                }
            }
            events.remove(pos);
            match index.remove(&match_id) {
                Some(ids) => {
                    let kept = without_id(&ids, id);
                    index.insert(match_id, kept);
                },
                None => {},
            }
            self.events = events;
            self.match_index = index;
            proof {
                assert(self@.match_index =~= old(self)@.removed(id@).match_index);
            }
        }
    }

    /// Move the event at `pos` to the most recently used end.
    fn touch_at(&mut self, pos: usize)
        requires
            pos < old(self)@.events.len(),
        ensures
            final(self)@ == (CacheModel {
                events: old(self)@.events.remove(pos as int).push(old(self)@.events[pos as int]),
                ..old(self)@
            }),
    {
        proof {
            use_type_invariant(&*self);
            lemma_index_of_id_finds(self@.events, self@.events[pos as int].id@);
            lemma_index_of_id(self@.events, self@.events[pos as int].id@, pos as int);
            lemma_touched(self@.events, self@.events[pos as int].id@);
        }
        let mut events: Vec<IndexedEvent> = Vec::new();
        std::mem::swap(&mut events, &mut self.events);
        let e = events.remove(pos);
        events.push(e);
        self.events = events;
    }

    /// Store an event as the most recently used one, evicting the least
    /// recently used cached event first when the cache is full.
    pub fn insert(&mut self, event: IndexedEvent)
        ensures
            final(self)@ == old(self)@.inserted(event),
            ids_unique(final(self)@.events),
    {
        proof {
            use_type_invariant(&*self);
        }
        if self.events.len() >= self.max_size && self.events.len() > 0 {
            let first = self.events[0].id.clone();
            self.remove_id(&first);
        }
        proof {
            use_type_invariant(&*self);
        }
        let ghost mid = self@;
        let event_id = event.id.clone();
        let match_id = event.match_id;
        let pos = self.position(&event_id);
        let ghost e = event;
        proof {
            lemma_index_of_id_finds(mid.events, e.id@);
            lemma_stored(mid.events, e);
        }
        let mut events: Vec<IndexedEvent> = Vec::new();
        let mut index: HashMap<u64, Vec<String>> = HashMap::new();
        std::mem::swap(&mut events, &mut self.events);
        std::mem::swap(&mut index, &mut self.match_index);
        if pos < events.len() {
            events.remove(pos);
        }
        events.push(event);
        proof {
            assert(events@ == stored_events(mid.events, e));
        }
        let mut ids = match index.remove(&match_id) {
            Some(v) => v,
            None => Vec::new(),
        };
        ids.push(event_id);
        index.insert(match_id, ids);
        self.events = events;
        self.match_index = index;
        proof {
            assert(self@.match_index =~= mid.match_index.insert(
                match_id,
                mid.ids_of(match_id).push(e.id),
            ));
        }
    }

    /// The cached event with id `event_id`, which becomes the most recently
    /// used one.
    pub fn get(&mut self, event_id: &str) -> (r: Option<IndexedEvent>)
        ensures
            r == find_event(old(self)@.events, event_id@),
            final(self)@ == old(self)@.read(event_id@),
            ids_unique(final(self)@.events),
    {
        proof {
            use_type_invariant(&*self);
        }
        let key = String::from_str(event_id);
        let pos = self.position(&key);
        if pos < self.events.len() {
            let found = self.events[pos].clone();
            self.touch_at(pos);
            proof {
                use_type_invariant(&*self);
            }
            Some(found)
        } else {
            proof {
                assert(self@.read(event_id@) =~= self@);
            }
            None
        }
    }

    /// A copy of the ids recorded for `match_id`.
    fn match_ids(&self, match_id: u64) -> (r: Vec<String>)
        ensures
            r@ == self@.ids_of(match_id),
    {
        match self.match_index.get(&match_id) {
            Some(ids) => {
                let mut out: Vec<String> = Vec::new();
                let n = ids.len();
                let mut i: usize = 0;
                while i < n
                    invariant
                        n == ids@.len(),
                        i <= n,
                        out@ == ids@.take(i as int),
                    decreases n - i,
                {
                    out.push(ids[i].clone());
                    i = i + 1;
                    proof {
                        assert(out@ =~= ids@.take(i as int));
                    }
                }
                proof {
                    assert(ids@.take(n as int) =~= ids@);
                }
                out
            },
            None => Vec::new(),
        }
    }

    /// The cached events of `match_id`, in the order they were recorded;
    /// each becomes, in that order, the most recently used one.
    pub fn get_by_match(&mut self, match_id: u64) -> (r: Vec<IndexedEvent>)
        ensures
            r@ == events_of_ids(old(self)@.ids_of(match_id), old(self)@.events),
            final(self)@ == old(self)@.read_match(match_id),
            ids_unique(final(self)@.events),
    {
        let ghost start = self@;
        let ids = self.match_ids(match_id);
        let mut out: Vec<IndexedEvent> = Vec::new();
        let n = ids.len();
        let mut i: usize = 0;
        proof {
            use_type_invariant(&*self);
            assert(ids@.take(0) =~= Seq::<String>::empty());
        }
        while i < n
            invariant
                n == ids@.len(),
                i <= n,
                ids@ == start.ids_of(match_id),
                ids_unique(start.events),
                self@ == (CacheModel { events: touched_all(start.events, ids@.take(i as int)), ..start }),
                out@ == events_of_ids(ids@.take(i as int), start.events),
            decreases n - i,
        {
            proof {
                assert(ids@.take(i as int + 1).drop_last() =~= ids@.take(i as int));
                lemma_touched_all(start.events, ids@.take(i as int));
                lemma_index_of_id_finds(self@.events, ids@[i as int]@);
                assert(find_event(self@.events, ids@[i as int]@) == find_event(start.events, ids@[i as int]@));
                assert(ids@.take(i as int + 1).last() == ids@[i as int]);
            }
            let pos = self.position(&ids[i]);
            if pos < self.events.len() {
                out.push(self.events[pos].clone());
                self.touch_at(pos);
            }
            i = i + 1;
        }
        proof {
            assert(ids@.take(n as int) =~= ids@);
            lemma_touched_all(start.events, ids@);
        }
        out
    }

    /// Remove the event with id `event_id`, if cached.
    pub fn remove(&mut self, event_id: &str)
        ensures
            final(self)@ == old(self)@.removed(event_id@),
            ids_unique(final(self)@.events),
    {
        let key = String::from_str(event_id);
        self.remove_id(&key);
        proof {
            use_type_invariant(&*self);
        }
    }

    /// Drop every cached event.
    pub fn clear(&mut self)
        ensures
            final(self)@.events == Seq::<IndexedEvent>::empty(),
            final(self)@.match_index == Map::<u64, Seq<String>>::empty(),
            final(self)@.max_size == old(self)@.max_size,
            ids_unique(final(self)@.events),
    {
        self.events = Vec::new();
        self.match_index = HashMap::new();
        proof {
            use_type_invariant(&*self);
        }
        assert(self@.match_index =~= Map::<u64, Seq<String>>::empty());
    }

    /// Number of cached events.
    pub fn size(&self) -> (n: usize)
        ensures
            n == self@.events.len(),
    {
        self.events.len()
    }
}

} // verus!
