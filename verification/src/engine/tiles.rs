//! The tile cache: a bounded store from tile identifiers to tiles that
//! evicts the least recently used entry.
//!
//! The entries live in an arena of slots that are linked into a list by
//! recency, most recent first; a hash index maps each identifier to its
//! slot. A lookup, the move of an entry to the front and the eviction of
//! the last entry each take constant time.

use vstd::prelude::*;
use vstd::arithmetic::power2::pow2;
use dashmap::DashMap;
use crate::concurrent_map::index_entries;
use crate::concurrent_map::index_get;
use crate::concurrent_map::index_insert;
use crate::concurrent_map::index_new;
use crate::concurrent_map::index_remove;
use crate::fixed::pow2_u64;
use crate::model::bounds::MAX_ZOOM_LEVEL;
use crate::model::tile::Tile;
use crate::model::tile::TileModel;

verus! {

/// The identifier of a tile: its column, its row and its zoom level.
#[derive(Clone, Copy, Debug, PartialEq, Eq, Structural)]
pub struct TileId {
    pub x: u32,
    pub y: u32,
    pub z: u8,
}

impl TileId {
    /// The key of the identifier in the index: the three parts side by side.
    pub open spec fn spec_key(self) -> u128 {
        (self.z * 0x1_0000_0000_0000_0000 + self.x * 0x1_0000_0000 + self.y) as u128
    }

    pub fn new(x: u32, y: u32, z: u8) -> (id: TileId)
        ensures
            id == (TileId { x, y, z }),
    {
        TileId { x, y, z }
    }

    /// The identifier names a tile of the grid: its zoom level is at most
    /// 20 and its column and row lie below 2^z.
    pub open spec fn spec_is_valid(&self) -> bool {
        &&& self.z <= MAX_ZOOM_LEVEL
        &&& self.x < pow2(self.z as nat)
        &&& self.y < pow2(self.z as nat)
    }

    #[verifier::when_used_as_spec(spec_is_valid)]
    pub fn is_valid(&self) -> (r: bool)
        ensures
            r == self.spec_is_valid(),
    {
        if self.z > MAX_ZOOM_LEVEL {
            return false;
        }
        let count: u64 = pow2_u64(self.z);
        (self.x as u64) < count && (self.y as u64) < count
    }

    /// The key of the identifier in the index.
    pub fn key(&self) -> (k: u128)
        ensures
            k == self.spec_key(),
    {
        (self.z as u128) * 0x1_0000_0000_0000_0000 + (self.x as u128) * 0x1_0000_0000 + (
        self.y as u128)
    }
}

/// Two identifiers with the same key are the same identifier.
pub proof fn lemma_key_injective(a: TileId, b: TileId)
    requires
        a.spec_key() == b.spec_key(),
    ensures
        a == b,
{
}

/// A tile identifier together with a number of the caller's own.
#[derive(Clone, Copy, Debug, PartialEq, Eq, Structural)]
pub struct TileInfo {
    pub id: u32,
    pub x: u32,
    pub y: u32,
    pub z: u8,
}

impl TileInfo {
    pub fn new(id: u32, x: u32, y: u32, z: u8) -> (info: TileInfo)
        ensures
            info == (TileInfo { id, x, y, z }),
    {
        Self { id, x, y, z }
    }

    /// The identifier of the tile that the record describes.
    pub fn tile_id(&self) -> (id: TileId)
        ensures
            id == (TileId { x: self.x, y: self.y, z: self.z }),
    {
        TileId { x: self.x, y: self.y, z: self.z }
    }
}

/// One entry of the arena, with its neighbours in the recency list.
struct Slot {
    id: TileId,
    tile: Tile,
    /// The slot of the next more recently used entry.
    prev: Option<usize>,
    /// The slot of the next less recently used entry.
    next: Option<usize>,
}

/// The arena, the recency list and the index together.
struct Store {
    index: DashMap<u128, usize>,
    slots: Vec<Slot>,
    head: Option<usize>,
    tail: Option<usize>,
    max_size: usize,
    /// The slots in the order of the list, most recently used first.
    order: Ghost<Seq<usize>>,
    /// For each slot its position in `order`.
    place: Ghost<Seq<int>>,
}

/// The cache as a mathematical value: its capacity and its entries from the
/// most to the least recently used.
pub struct CacheModel {
    pub capacity: nat,
    pub entries: Seq<(TileId, TileModel)>,
}

impl CacheModel {
    /// The cache holds no more entries than its capacity, and no
    /// identifier twice.
    pub open spec fn wf(self) -> bool {
        &&& self.entries.len() <= self.capacity
        &&& forall|i: int, j: int|
            0 <= i < self.entries.len() && 0 <= j < self.entries.len() && i != j
                ==> self.entries[i].0 != self.entries[j].0
    }

    /// The position of the entry of an identifier, counted from the most
    /// recently used one.
    pub open spec fn position(self, id: TileId) -> Option<int> {
        if exists|i: int| 0 <= i < self.entries.len() && self.entries[i].0 == id {
            Some(choose|i: int| 0 <= i < self.entries.len() && self.entries[i].0 == id)
        } else {
            None
        }
    }

    /// The cache after the entry at position `i` was replaced by `entry`
    /// and moved to the front.
    pub open spec fn promoted(self, i: int, entry: (TileId, TileModel)) -> CacheModel {
        CacheModel { capacity: self.capacity, entries: seq![entry] + self.entries.remove(i) }
    }

    /// The cache after a lookup at the time `now`: a hit stamps the tile
    /// and moves its entry to the front, a miss changes nothing.
    pub open spec fn looked_up(self, id: TileId, now: u64) -> CacheModel {
        match self.position(id) {
            Some(i) => self.promoted(
                i,
                (id, TileModel { last_accessed: now, ..self.entries[i].1 }),
            ),
            None => self,
        }
    }

    /// The cache after an insertion. An identifier that is present gets the
    /// new tile and moves to the front. A new identifier goes to the front
    /// after the least recently used entry has left a full cache. A cache
    /// without capacity stays empty.
    pub open spec fn inserted(self, id: TileId, tile: TileModel) -> CacheModel {
        if self.capacity == 0 {
            self
        } else {
            match self.position(id) {
                Some(i) => self.promoted(i, (id, tile)),
                None => if self.entries.len() >= self.capacity {
                    CacheModel {
                        capacity: self.capacity,
                        entries: seq![(id, tile)] + self.entries.drop_last(),
                    }
                } else {
                    CacheModel { capacity: self.capacity, entries: seq![(id, tile)] + self.entries }
                },
            }
        }
    }
}

impl Store {
    spec fn len(&self) -> int {
        self.slots@.len() as int
    }

    /// The order and the places are inverse to each other.
    spec fn order_wf(&self) -> bool {
        &&& self.order@.len() == self.len()
        &&& self.place@.len() == self.len()
        &&& forall|i: int|
            0 <= i < self.len() ==> 0 <= (#[trigger] self.order@[i]) < self.len()
                && self.place@[self.order@[i] as int] == i
        &&& forall|s: int|
            0 <= s < self.len() ==> 0 <= (#[trigger] self.place@[s]) < self.len()
                && self.order@[self.place@[s]] == s
    }

    /// The neighbour that slot `s` must name as its previous one.
    spec fn want_prev(&self, s: int) -> Option<usize> {
        if self.place@[s] == 0 {
            None
        } else {
            Some(self.order@[self.place@[s] - 1])
        }
    }

    /// The neighbour that slot `s` must name as its next one.
    spec fn want_next(&self, s: int) -> Option<usize> {
        if self.place@[s] == self.len() - 1 {
            None
        } else {
            Some(self.order@[self.place@[s] + 1])
        }
    }

    /// The links of the slots spell out the order.
    spec fn links_wf(&self) -> bool {
        &&& self.head == (if self.len() == 0 {
            None
        } else {
            Some(self.order@[0])
        })
        &&& self.tail == (if self.len() == 0 {
            None
        } else {
            Some(self.order@[self.len() - 1])
        })
        &&& forall|s: int|
            0 <= s < self.len() ==> (#[trigger] self.slots@[s]).prev == self.want_prev(s)
                && self.slots@[s].next == self.want_next(s)
    }

    /// The index maps the key of each slot's identifier to the slot, and
    /// holds nothing else.
    spec fn index_wf(&self) -> bool {
        &&& forall|s: int|
            0 <= s < self.len() ==> index_entries(self.index).contains_key(
                (#[trigger] self.slots@[s]).id.spec_key(),
            ) && index_entries(self.index)[self.slots@[s].id.spec_key()] == s
        &&& forall|k: u128| #[trigger]
            index_entries(self.index).contains_key(k) ==> index_entries(self.index)[k]
                < self.len() && self.slots@[index_entries(self.index)[k] as int].id.spec_key()
                == k
    }

    spec fn wf(&self) -> bool {
        &&& self.len() <= self.max_size
        &&& self.order_wf()
        &&& self.links_wf()
        &&& self.index_wf()
    }

    spec fn model(&self) -> CacheModel {
        CacheModel {
            capacity: self.max_size as nat,
            entries: Seq::new(
                self.len() as nat,
                |i: int| (self.slots@[self.order@[i] as int].id, self.slots@[self.order@[i] as int].tile@),
            ),
        }
    }

    /// The slots hold the same identifiers and tiles as those of `other`.
    spec fn same_contents(&self, other: &Store) -> bool {
        &&& self.len() == other.len()
        &&& self.max_size == other.max_size
        &&& forall|s: int|
            0 <= s < self.len() ==> (#[trigger] self.slots@[s]).id == other.slots@[s].id
                && self.slots@[s].tile == other.slots@[s].tile
    }

    /// The places of the slots after slot `s` has moved to the front.
    spec fn places_after_move(&self, s: int) -> Seq<int> {
        Seq::new(
            self.len() as nat,
            |t: int|
                if t == s {
                    0
                } else if self.place@[t] < self.place@[s] {
                    self.place@[t] + 1
                } else {
                    self.place@[t]
                },
        )
    }

    /// The links of `after` are those of `self` with slot `s` taken out of
    /// the list and put before the head.
    spec fn relinked(&self, after: &Store, s: int) -> bool {
        let p = self.slots@[s].prev;
        let n = self.slots@[s].next;
        let h = self.head.unwrap() as int;
        &&& after.len() == self.len()
        &&& after.head == Some(s as usize)
        &&& after.tail == (if n.is_none() {
            p
        } else {
            self.tail
        })
        &&& forall|t: int|
            0 <= t < self.len() ==> (#[trigger] after.slots@[t]).prev == (if t == s {
                None
            } else if t == h {
                Some(s as usize)
            } else if n == Some(t as usize) {
                p
            } else {
                self.slots@[t].prev
            }) && after.slots@[t].next == (if t == s {
                Some(h as usize)
            } else if p == Some(t as usize) {
                n
            } else {
                self.slots@[t].next
            })
    }

    /// Taking a slot that is not the head out of the list and putting it
    /// before the head gives the list of the new order.
    proof fn lemma_relinked(&self, after: &Store, s: int)
        requires
            self.order_wf(),
            self.links_wf(),
            0 <= s < self.len(),
            self.place@[s] > 0,
            self.relinked(after, s),
            after.order@ == seq![s as usize] + self.order@.remove(self.place@[s]),
            after.place@ == self.places_after_move(s),
        ensures
            after.order_wf(),
            after.links_wf(),
    {
        let n = self.len();
        let ps = self.place@[s];
        let order = after.order@;
        let place = after.place@;
        assert(self.slots@[s].prev == self.want_prev(s));
        assert(self.slots@[s].next == self.want_next(s));
        assert(order.len() == n);
        assert forall|i: int| 0 <= i < n implies 0 <= (#[trigger] order[i]) < n
            && place[order[i] as int] == i by {
            if i == 0 {
            } else if i - 1 < ps {
                assert(order[i] == self.order@[i - 1]);
            } else {
                assert(order[i] == self.order@[i]);
            }
        }
        assert forall|t: int| 0 <= t < n implies 0 <= (#[trigger] place[t]) < n
            && order[place[t]] == t by {
            let was = self.place@[t];
            if t == s {
            } else if was < ps {
                assert(order[was + 1] == self.order@[was]);
            } else {
                assert(order[was] == self.order@[was]);
            }
        }
        assert(after.order_wf());
        assert(order[0] == s);
        assert(order[1] == self.order@[0]);
        assert(order[n - 1] == (if ps == n - 1 {
            self.order@[n - 2]
        } else {
            self.order@[n - 1]
        }));
        assert forall|t: int| 0 <= t < n implies (#[trigger] after.slots@[t]).prev
            == after.want_prev(t) && after.slots@[t].next == after.want_next(t) by {
            let was = self.place@[t];
            assert(self.order@[was] == t);
            assert(self.slots@[t].prev == self.want_prev(t));
            assert(self.slots@[t].next == self.want_next(t));
            if t != s {
                let now = place[t];
                if now - 1 == 0 {
                } else if now - 2 < ps {
                    assert(order[now - 1] == self.order@[now - 2]);
                } else {
                    assert(order[now - 1] == self.order@[now - 1]);
                }
                if now < n - 1 {
                    if now < ps {
                        assert(order[now + 1] == self.order@[now]);
                    } else {
                        assert(order[now + 1] == self.order@[now + 1]);
                    }
                }
            }
        }
    }

    /// Moves slot `s` to the front of the recency list.
    fn move_to_front(&mut self, s: usize)
        requires
            old(self).wf(),
            s < old(self).len(),
        ensures
            final(self).wf(),
            final(self).same_contents(old(self)),
            final(self).index == old(self).index,
            final(self).order@ == seq![s] + old(self).order@.remove(old(self).place@[s as int]),
            final(self).place@[s as int] == 0,
    {
        let ghost before = *self;
        let ghost ps: int = self.place@[s as int];
        if self.head == Some(s) {
            assert(self.order@ =~= seq![s] + self.order@.remove(ps));
            return ;
        }
        let prev: Option<usize> = self.slots[s].prev;
        let next: Option<usize> = self.slots[s].next;
        assert(self.slots@[s as int].prev == self.want_prev(s as int));
        assert(self.slots@[s as int].next == self.want_next(s as int));
        let p: usize = prev.unwrap();
        let h: usize = self.head.unwrap();
        self.slots[p].next = next;
        match next {
            Some(after) => {
                self.slots[after].prev = Some(p);
            },
            None => {
                self.tail = Some(p);
            },
        }
        self.slots[h].prev = Some(s);
        self.slots[s].prev = None;
        self.slots[s].next = Some(h);
        self.head = Some(s);
        proof {
            self.order = Ghost(seq![s] + before.order@.remove(ps));
            self.place = Ghost(before.places_after_move(s as int));
            assert(before.relinked(&*self, s as int));
            before.lemma_relinked(&*self, s as int);
            assert(self.index_wf());
        }
    }

    /// A well-formed store stands for a well-formed cache.
    proof fn lemma_model_wf(&self)
        requires
            self.wf(),
        ensures
            self.model().wf(),
    {
        let m = self.model();
        assert forall|i: int, j: int|
            0 <= i < m.entries.len() && 0 <= j < m.entries.len() && i != j implies m.entries[i].0
            != m.entries[j].0 by {
            let a = self.order@[i] as int;
            let b = self.order@[j] as int;
            if self.slots@[a].id == self.slots@[b].id {
                assert(index_entries(self.index)[self.slots@[a].id.spec_key()] == a);
                assert(index_entries(self.index)[self.slots@[b].id.spec_key()] == b);
                assert(self.place@[a] == i);
                assert(self.place@[b] == j);
            }
        }
    }

    /// The entry of the identifier in slot `s` stands at the slot's place.
    proof fn lemma_position(&self, s: int)
        requires
            self.wf(),
            0 <= s < self.len(),
        ensures
            self.model().position(self.slots@[s].id) == Some(self.place@[s]),
            self.model().entries[self.place@[s]] == (self.slots@[s].id, self.slots@[s].tile@),
    {
        self.lemma_model_wf();
        let m = self.model();
        let i = self.place@[s];
        assert(self.order@[i] == s);
        assert(m.entries[i].0 == self.slots@[s].id);
    }

    /// An identifier whose key the index does not hold has no entry.
    proof fn lemma_absent(&self, id: TileId)
        requires
            self.wf(),
            !index_entries(self.index).contains_key(id.spec_key()),
        ensures
            self.model().position(id).is_none(),
    {
        let m = self.model();
        if exists|i: int| 0 <= i < m.entries.len() && m.entries[i].0 == id {
            let i = choose|i: int| 0 <= i < m.entries.len() && m.entries[i].0 == id;
            let s = self.order@[i] as int;
            assert(self.slots@[s].id == id);
        }
    }

    /// Looks an identifier up at the time `now`. A hit moves the entry to
    /// the front, stamps its tile with the time and returns a copy of it.
    fn get(&mut self, id: TileId, now: u64) -> (r: Option<Tile>)
        requires
            old(self).wf(),
        ensures
            final(self).wf(),
            match old(self).model().position(id) {
                Some(i) => r.is_some() && r.unwrap()@ == (TileModel {
                    last_accessed: now,
                    ..old(self).model().entries[i].1
                }) && final(self).model() == old(self).model().promoted(i, (id, r.unwrap()@)),
                None => r.is_none() && final(self).model() == old(self).model(),
            },
    {
        let key: u128 = id.key();
        match index_get(&self.index, key) {
            None => {
                proof {
                    self.lemma_absent(id);
                }
                None
            },
            Some(s) => {
                let ghost before = *self;
                let ghost i: int = self.place@[s as int];
                proof {
                    lemma_key_injective(self.slots@[s as int].id, id);
                    self.lemma_position(s as int);
                }
                self.move_to_front(s);
                let ghost moved = *self;
                self.slots[s].tile.touch(now);
                let copy: Tile = self.slots[s].tile.clone();
                proof {
                    assert(self.order_wf());
                    assert forall|t: int| 0 <= t < self.len() implies (#[trigger] self.slots@[t]).prev
                        == self.want_prev(t) && self.slots@[t].next == self.want_next(t) by {
                        assert(moved.slots@[t].prev == moved.want_prev(t));
                    }
                    assert forall|t: int| 0 <= t < self.len() implies index_entries(
                        self.index,
                    ).contains_key((#[trigger] self.slots@[t]).id.spec_key()) && index_entries(
                        self.index,
                    )[self.slots@[t].id.spec_key()] == t by {
                        assert(moved.slots@[t].id == self.slots@[t].id);
                    }
                    assert(self.wf());
                    let want = before.model().promoted(i, (id, copy@));
                    assert(self.model().entries.len() == want.entries.len());
                    assert forall|k: int| 0 <= k < want.entries.len() implies self.model().entries[k]
                        == want.entries[k] by {
                        if k == 0 {
                        } else if k - 1 < i {
                            assert(self.order@[k] == before.order@[k - 1]);
                            assert(moved.slots@[self.order@[k] as int].id
                                == before.slots@[self.order@[k] as int].id);
                        } else {
                            assert(self.order@[k] == before.order@[k]);
                            assert(moved.slots@[self.order@[k] as int].id
                                == before.slots@[self.order@[k] as int].id);
                        }
                    }
                    assert(self.model().entries =~= want.entries);
                }
                Some(copy)
            },
        }
    }

    /// Puts a tile into slot `s` and moves the slot to the front.
    fn replace(&mut self, s: usize, tile: Tile)
        requires
            old(self).wf(),
            s < old(self).len(),
        ensures
            final(self).wf(),
            final(self).model() == old(self).model().promoted(
                old(self).place@[s as int],
                (old(self).slots@[s as int].id, tile@),
            ),
    {
        let ghost before = *self;
        let ghost i: int = self.place@[s as int];
        self.slots[s].tile = tile;
        proof {
            assert(self.order_wf());
            assert forall|t: int| 0 <= t < self.len() implies (#[trigger] self.slots@[t]).prev
                == self.want_prev(t) && self.slots@[t].next == self.want_next(t) by {
                assert(before.slots@[t].prev == before.want_prev(t));
            }
            assert forall|t: int| 0 <= t < self.len() implies index_entries(
                self.index,
            ).contains_key((#[trigger] self.slots@[t]).id.spec_key()) && index_entries(
                self.index,
            )[self.slots@[t].id.spec_key()] == t by {
                assert(before.slots@[t].id == self.slots@[t].id);
            }
            assert(self.wf());
        }
        let ghost changed = *self;
        self.move_to_front(s);
        proof {
            let want = before.model().promoted(i, (before.slots@[s as int].id, tile@));
            assert(self.model().entries.len() == want.entries.len());
            assert forall|k: int| 0 <= k < want.entries.len() implies self.model().entries[k]
                == want.entries[k] by {
                let slot = self.order@[k] as int;
                assert(self.slots@[slot].id == changed.slots@[slot].id);
                if k == 0 {
                } else if k - 1 < i {
                    assert(self.order@[k] == before.order@[k - 1]);
                } else {
                    assert(self.order@[k] == before.order@[k]);
                }
            }
            assert(self.model().entries =~= want.entries);
        }
    }

    /// Gives the slot of the least recently used entry to a new identifier
    /// and moves it to the front.
    fn recycle(&mut self, id: TileId, tile: Tile)
        requires
            old(self).wf(),
            old(self).len() > 0,
            !index_entries(old(self).index).contains_key(id.spec_key()),
        ensures
            final(self).wf(),
            final(self).model() == (CacheModel {
                capacity: old(self).model().capacity,
                entries: seq![(id, tile@)] + old(self).model().entries.drop_last(),
            }),
    {
        let ghost before = *self;
        let ghost n: int = self.len();
        let t: usize = self.tail.unwrap();
        let old_key: u128 = self.slots[t].id.key();
        assert(before.slots@[t as int].id.spec_key() == old_key);
        index_remove(&mut self.index, old_key);
        self.slots[t].id = id;
        index_insert(&mut self.index, id.key(), t);
        proof {
            assert(self.order_wf());
            assert forall|u: int| 0 <= u < self.len() implies (#[trigger] self.slots@[u]).prev
                == self.want_prev(u) && self.slots@[u].next == self.want_next(u) by {
                assert(before.slots@[u].prev == before.want_prev(u));
            }
            assert forall|u: int| 0 <= u < self.len() implies index_entries(
                self.index,
            ).contains_key((#[trigger] self.slots@[u]).id.spec_key()) && index_entries(
                self.index,
            )[self.slots@[u].id.spec_key()] == u by {
                if u != t {
                    let k = before.slots@[u].id.spec_key();
                    assert(index_entries(before.index)[k] == u);
                    assert(k != old_key);
                    assert(k != id.spec_key());
                }
            }
            assert forall|k: u128| #[trigger]
                index_entries(self.index).contains_key(k) implies index_entries(self.index)[k]
                < self.len() && self.slots@[index_entries(self.index)[k] as int].id.spec_key()
                == k by {
                if k != id.spec_key() {
                    assert(index_entries(before.index).contains_key(k));
                    assert(k != old_key);
                    assert(index_entries(before.index)[k] != t);
                }
            }
            assert(self.wf());
            assert(self.place@[t as int] == n - 1);
        }
        let ghost renamed = *self;
        self.replace(t, tile);
        proof {
            let got = self.model().entries;
            let want = seq![(id, tile@)] + before.model().entries.drop_last();
            assert(got.len() == want.len());
            assert forall|k: int| 0 <= k < want.len() implies got[k] == want[k] by {
                if k > 0 {
                    let slot = renamed.order@[k - 1] as int;
                    assert(slot != t);
                    assert(renamed.slots@[slot] == before.slots@[slot]);
                    assert(renamed.model().entries[k - 1] == before.model().entries[k - 1]);
                }
            }
            assert(got =~= want);
        }
    }

    /// Puts a new identifier with its tile into a new slot at the front.
    fn push_front(&mut self, id: TileId, tile: Tile)
        requires
            old(self).wf(),
            old(self).len() < old(self).max_size,
            !index_entries(old(self).index).contains_key(id.spec_key()),
        ensures
            final(self).wf(),
            final(self).model() == (CacheModel {
                capacity: old(self).model().capacity,
                entries: seq![(id, tile@)] + old(self).model().entries,
            }),
    {
        let ghost before = *self;
        let ghost n: int = self.len();
        let s: usize = self.slots.len();
        self.slots.push(Slot { id, tile, prev: None, next: self.head });
        match self.head {
            Some(h) => {
                self.slots[h].prev = Some(s);
            },
            None => {
                self.tail = Some(s);
            },
        }
        self.head = Some(s);
        index_insert(&mut self.index, id.key(), s);
        proof {
            let order = seq![s] + before.order@;
            let place = Seq::new((n + 1) as nat, |u: int| if u == s { 0 } else { before.place@[u] + 1 });
            self.order = Ghost(order);
            self.place = Ghost(place);
            assert forall|i: int| 0 <= i < n + 1 implies 0 <= (#[trigger] order[i]) < n + 1
                && place[order[i] as int] == i by {
                if i > 0 {
                    assert(order[i] == before.order@[i - 1]);
                }
            }
            assert forall|u: int| 0 <= u < n + 1 implies 0 <= (#[trigger] place[u]) < n + 1
                && order[place[u]] == u by {
                if u != s {
                    assert(order[before.place@[u] + 1] == before.order@[before.place@[u]]);
                }
            }
            assert(self.order_wf());
            assert forall|u: int| 0 <= u < n + 1 implies (#[trigger] self.slots@[u]).prev
                == self.want_prev(u) && self.slots@[u].next == self.want_next(u) by {
                if u == s {
                    if n > 0 {
                        assert(order[1] == before.order@[0]);
                    }
                } else {
                    assert(before.slots@[u].prev == before.want_prev(u));
                    assert(before.slots@[u].next == before.want_next(u));
                    let was = before.place@[u];
                    if was == 0 {
                        assert(before.order@[0] == u);
                    } else {
                        assert(order[was] == before.order@[was - 1]);
                    }
                    if was < n - 1 {
                        assert(order[was + 2] == before.order@[was + 1]);
                    }
                }
            }
            assert(self.links_wf());
            assert forall|u: int| 0 <= u < n + 1 implies index_entries(self.index).contains_key(
                (#[trigger] self.slots@[u]).id.spec_key(),
            ) && index_entries(self.index)[self.slots@[u].id.spec_key()] == u by {
                if u != s {
                    assert(self.slots@[u].id == before.slots@[u].id);
                    assert(index_entries(before.index)[before.slots@[u].id.spec_key()] == u);
                }
            }
            assert forall|k: u128| #[trigger]
                index_entries(self.index).contains_key(k) implies index_entries(self.index)[k] < n
                + 1 && self.slots@[index_entries(self.index)[k] as int].id.spec_key() == k by {
                if k != id.spec_key() {
                    assert(index_entries(before.index).contains_key(k));
                    let u = index_entries(before.index)[k] as int;
                    assert(self.slots@[u].id == before.slots@[u].id);
                }
            }
            assert(self.wf());
            let got = self.model().entries;
            let want = seq![(id, tile@)] + before.model().entries;
            assert(got.len() == want.len());
            assert forall|k: int| 0 <= k < want.len() implies got[k] == want[k] by {
                if k > 0 {
                    let slot = before.order@[k - 1] as int;
                    assert(order[k] == slot);
                    assert(self.slots@[slot].id == before.slots@[slot].id);
                    assert(self.slots@[slot].tile == before.slots@[slot].tile);
                }
            }
            assert(got =~= want);
        }
    }

    /// Inserts a tile under an identifier.
    fn insert(&mut self, id: TileId, tile: Tile)
        requires
            old(self).wf(),
        ensures
            final(self).wf(),
            final(self).model() == old(self).model().inserted(id, tile@),
    {
        if self.max_size == 0 {
            return ;
        }
        let key: u128 = id.key();
        match index_get(&self.index, key) {
            Some(s) => {
                proof {
                    lemma_key_injective(self.slots@[s as int].id, id);
                    self.lemma_position(s as int);
                }
                self.replace(s, tile);
            },
            None => {
                proof {
                    self.lemma_absent(id);
                }
                if self.slots.len() >= self.max_size {
                    self.recycle(id, tile);
                } else {
                    self.push_front(id, tile);
                }
            },
        }
    }

    fn new(max_size: usize) -> (store: Store)
        ensures
            store.wf(),
            store.model() == (CacheModel { capacity: max_size as nat, entries: Seq::empty() }),
    {
        let store = Store {
            index: index_new(),
            slots: Vec::new(),
            head: None,
            tail: None,
            max_size,
            order: Ghost(Seq::empty()),
            place: Ghost(Seq::empty()),
        };
        assert(store.model().entries =~= Seq::empty());
        store
    }
}

/// The bounded tile cache.
///
/// A cache is owned by one caller at a time: a lookup changes the recency
/// order, so it takes the cache mutably like an insertion does. Callers
/// that share a cache between threads keep it behind a lock of their own.
pub struct TileCache {
    store: Store,
}

impl View for TileCache {
    type V = CacheModel;

    closed spec fn view(&self) -> CacheModel {
        self.store.model()
    }
}

impl TileCache {
    /// The arena, the recency list and the index agree with each other.
    /// Every cache that [`TileCache::new`] made and the operations of this
    /// type changed is well-formed.
    pub closed spec fn wf(&self) -> bool {
        self.store.wf()
    }

    /// A well-formed cache holds no more entries than its capacity and no
    /// identifier twice.
    pub proof fn lemma_wf_model(&self)
        requires
            self.wf(),
        ensures
            self@.wf(),
    {
        self.store.lemma_model_wf();
    }

    /// An empty cache that holds at most `max_size` tiles.
    pub fn new(max_size: usize) -> (cache: TileCache)
        ensures
            cache.wf(),
            cache@ == (CacheModel { capacity: max_size as nat, entries: Seq::empty() }),
            cache@.wf(),
    {
        let store = Store::new(max_size);
        proof {
            store.lemma_model_wf();
        }
        TileCache { store }
    }

    /// Looks a tile up at the time `now`, in seconds since the Unix epoch.
    /// On a hit the entry becomes the most recently used one, its tile is
    /// stamped with the time, and a copy of the tile is returned. On a miss
    /// nothing changes.
    pub fn get_at(&mut self, id: &TileId, now: u64) -> (r: Option<Tile>)
        requires
            old(self).wf(),
        ensures
            final(self).wf(),
            final(self)@.wf(),
            final(self)@ == old(self)@.looked_up(*id, now),
            match old(self)@.position(*id) {
                Some(i) => r.is_some() && r.unwrap()@ == (TileModel {
                    last_accessed: now,
                    ..old(self)@.entries[i].1
                }),
                None => r.is_none(),
            },
    {
        let r = self.store.get(*id, now);
        proof {
            self.store.lemma_model_wf();
        }
        r
    }

    /// Looks a tile up now, by the system clock. On a hit the entry becomes
    /// the most recently used one, its tile is stamped with the time of the
    /// access, and a copy of the tile is returned. On a miss nothing
    /// changes.
    pub fn get(&mut self, id: &TileId) -> (r: Option<Tile>)
        requires
            old(self).wf(),
        ensures
            final(self).wf(),
            final(self)@.wf(),
            match old(self)@.position(*id) {
                Some(i) => r.is_some() && r.unwrap()@ == (TileModel {
                    last_accessed: r.unwrap().last_accessed,
                    ..old(self)@.entries[i].1
                }) && final(self)@ == old(self)@.looked_up(*id, r.unwrap().last_accessed),
                None => r.is_none() && final(self)@ == old(self)@,
            },
    {
        self.get_at(id, crate::model::tile::now_seconds())
    }

    /// Inserts a tile. An identifier that is present gets the new tile; a
    /// new identifier first evicts the least recently used entry where the
    /// cache is full. Either way the entry becomes the most recently used
    /// one. A cache of capacity 0 stays empty.
    pub fn insert(&mut self, id: TileId, tile: Tile)
        requires
            old(self).wf(),
        ensures
            final(self).wf(),
            final(self)@.wf(),
            final(self)@ == old(self)@.inserted(id, tile@),
    {
        self.store.insert(id, tile);
        proof {
            self.store.lemma_model_wf();
        }
    }

    /// The number of tiles that the cache holds.
    pub fn memory_usage(&self) -> (n: usize)
        ensures
            n == self@.entries.len(),
    {
        self.store.slots.len()
    }

    /// The largest number of tiles that the cache holds.
    pub fn capacity(&self) -> (n: usize)
        ensures
            n == self@.capacity,
    {
        self.store.max_size
    }
}

/// An insertion keeps a cache within its capacity and without an
/// identifier held twice, whatever was inserted before.
pub proof fn lemma_insert_keeps_capacity(cache: CacheModel, id: TileId, tile: TileModel)
    requires
        cache.wf(),
    ensures
        cache.inserted(id, tile).wf(),
        cache.inserted(id, tile).entries.len() <= cache.capacity,
        cache.inserted(id, tile).capacity == cache.capacity,
{
    let after = cache.inserted(id, tile);
    if cache.capacity > 0 {
        match cache.position(id) {
            Some(i) => {
                assert forall|a: int, b: int|
                    0 <= a < after.entries.len() && 0 <= b < after.entries.len() && a
                        != b implies after.entries[a].0 != after.entries[b].0 by {
                    let rest = cache.entries.remove(i);
                    if a > 0 {
                        assert(after.entries[a] == rest[a - 1]);
                    }
                    if b > 0 {
                        assert(after.entries[b] == rest[b - 1]);
                    }
                }
            },
            None => {
                assert forall|a: int, b: int|
                    0 <= a < after.entries.len() && 0 <= b < after.entries.len() && a
                        != b implies after.entries[a].0 != after.entries[b].0 by {
                    if a > 0 {
                        assert(after.entries[a] == cache.entries[a - 1]);
                    }
                    if b > 0 {
                        assert(after.entries[b] == cache.entries[b - 1]);
                    }
                }
            },
        }
    }
}

/// After an insertion into a cache with capacity the inserted tile is the
/// most recently used entry.
pub proof fn lemma_inserted_is_front(cache: CacheModel, id: TileId, tile: TileModel)
    requires
        cache.wf(),
        cache.capacity > 0,
    ensures
        cache.inserted(id, tile).entries.len() > 0,
        cache.inserted(id, tile).entries[0] == (id, tile),
        cache.inserted(id, tile).position(id) == Some(0int),
{
    lemma_insert_keeps_capacity(cache, id, tile);
    let after = cache.inserted(id, tile);
    assert(after.entries[0] == (id, tile));
}

/// A new identifier inserted into a full cache evicts the least recently
/// used entry and no other: every other entry stays, one place further
/// from the front.
pub proof fn lemma_full_cache_evicts_last(cache: CacheModel, id: TileId, tile: TileModel)
    requires
        cache.wf(),
        cache.capacity > 0,
        cache.entries.len() == cache.capacity,
        cache.position(id).is_none(),
    ensures
        cache.inserted(id, tile).entries.len() == cache.capacity,
        cache.inserted(id, tile).position(cache.entries.last().0).is_none(),
        forall|i: int|
            0 <= i < cache.entries.len() - 1 ==> cache.inserted(id, tile).entries[i + 1]
                == #[trigger] cache.entries[i],
{
    let after = cache.inserted(id, tile);
    let gone = cache.entries.last().0;
    assert forall|i: int| 0 <= i < cache.entries.len() - 1 implies after.entries[i + 1]
        == #[trigger] cache.entries[i] by {
        assert(cache.entries.drop_last()[i] == cache.entries[i]);
    }
    if exists|k: int| 0 <= k < after.entries.len() && after.entries[k].0 == gone {
        let k = choose|k: int| 0 <= k < after.entries.len() && after.entries[k].0 == gone;
        if k == 0 {
            assert(cache.entries[cache.entries.len() - 1].0 == id);
        } else {
            assert(after.entries[k] == cache.entries[k - 1]);
        }
    }
}

/// The cache after a run of insertions, one after the other.
pub open spec fn spec_inserted_all(cache: CacheModel, items: Seq<(TileId, TileModel)>) -> CacheModel
    decreases items.len(),
{
    if items.len() == 0 {
        cache
    } else {
        spec_inserted_all(cache, items.drop_last()).inserted(items.last().0, items.last().1)
    }
}

/// No run of insertions takes a cache beyond its capacity.
pub proof fn lemma_insertions_keep_capacity(cache: CacheModel, items: Seq<(TileId, TileModel)>)
    requires
        cache.wf(),
    ensures
        spec_inserted_all(cache, items).wf(),
        spec_inserted_all(cache, items).capacity == cache.capacity,
        spec_inserted_all(cache, items).entries.len() <= cache.capacity,
    decreases items.len(),
{
    if items.len() > 0 {
        lemma_insertions_keep_capacity(cache, items.drop_last());
        lemma_insert_keeps_capacity(
            spec_inserted_all(cache, items.drop_last()),
            items.last().0,
            items.last().1,
        );
    }
}

/// An entry that was just used survives the next insertion into a cache
/// that holds at least two tiles, and stands right behind the new entry:
/// the cache evicts by use, not by age.
pub proof fn lemma_used_entry_survives(
    cache: CacheModel,
    used: TileId,
    seen: TileModel,
    id: TileId,
    tile: TileModel,
)
    requires
        cache.wf(),
        cache.capacity >= 2,
        cache.position(used).is_some(),
        id != used,
    ensures
        cache.promoted(cache.position(used).unwrap(), (used, seen)).inserted(id, tile).position(
            used,
        ).is_some(),
        cache.position(id).is_none() ==> cache.promoted(
            cache.position(used).unwrap(),
            (used, seen),
        ).inserted(id, tile).entries[1] == (used, seen),
{
    let i = cache.position(used).unwrap();
    let touched = cache.promoted(i, (used, seen));
    let after = touched.inserted(id, tile);
    assert(touched.entries[0] == (used, seen));
    assert forall|a: int, b: int|
        0 <= a < touched.entries.len() && 0 <= b < touched.entries.len() && a
            != b implies touched.entries[a].0 != touched.entries[b].0 by {
        let rest = cache.entries.remove(i);
        if a > 0 {
            assert(touched.entries[a] == rest[a - 1]);
        }
        if b > 0 {
            assert(touched.entries[b] == rest[b - 1]);
        }
    }
    assert(touched.wf());
    match touched.position(id) {
        Some(j) => {
            assert(j != 0);
            assert(touched.entries.remove(j)[0] == touched.entries[0]);
            assert(after.entries[1] == (used, seen));
        },
        None => {
            if touched.entries.len() >= touched.capacity {
                assert(touched.entries.drop_last()[0] == touched.entries[0]);
            }
            assert(after.entries[1] == (used, seen));
            if cache.position(id).is_some() {
                let k = cache.position(id).unwrap();
                assert(cache.entries[k].0 == id);
                if k < i {
                    assert(touched.entries[k + 1] == cache.entries[k]);
                } else {
                    assert(touched.entries[k] == cache.entries[k]);
                }
            }
        },
    }
    assert(after.entries[1].0 == used);
}

} // verus!
