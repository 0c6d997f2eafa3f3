//! The cache as a mathematical value, and what each operation does to it.
//!
//! A `CacheModel` holds, for every set and way, the tag and the bytes of the
//! line. The operations of the cache are functions from model to model. The
//! way that a replacement policy picks is an argument: the model itself
//! knows no policy.

use vstd::prelude::*;
use crate::memory::cache::CacheTag;
use crate::memory::geometry::{lemma_decomposition_round_trip, power_of_two, set_of, tag_of};

verus! {

/// The state of a cache: geometry, tags and lines, the last two by set and way.
#[verifier::ext_equal]
pub struct CacheModel {
    /// Bytes in a line.
    pub line_bytes: usize,
    /// Number of sets.
    pub num_sets: usize,
    /// Ways in a set.
    pub num_ways: usize,
    /// `tags[set][way]` is the tag of that slot.
    pub tags: Seq<Seq<CacheTag>>,
    /// `lines[set][way]` holds the bytes of that slot.
    pub lines: Seq<Seq<Seq<u8>>>,
}

impl CacheModel {
    /// The cache as it is built: every slot empty, every byte zero.
    pub open spec fn empty(line_bytes: usize, num_sets: usize, num_ways: usize) -> CacheModel {
        CacheModel {
            line_bytes,
            num_sets,
            num_ways,
            tags: Seq::new(
                num_sets as nat,
                |s: int| Seq::new(num_ways as nat, |w: int| CacheTag::empty()),
            ),
            lines: Seq::new(
                num_sets as nat,
                |s: int|
                    Seq::new(num_ways as nat, |w: int| Seq::new(line_bytes as nat, |i: int| 0u8)),
            ),
        }
    }

    /// Line size, set count and way count are each a power of two.
    pub open spec fn valid_geometry(self) -> bool {
        &&& power_of_two(self.line_bytes)
        &&& power_of_two(self.num_sets)
        &&& power_of_two(self.num_ways)
    }

    /// Tags and lines have the sizes that the geometry gives.
    pub open spec fn shaped(self) -> bool {
        &&& self.tags.len() == self.num_sets
        &&& self.lines.len() == self.num_sets
        &&& forall|s: int| 0 <= s < self.num_sets ==> (#[trigger] self.tags[s]).len() == self.num_ways
        &&& forall|s: int|
            0 <= s < self.num_sets ==> (#[trigger] self.lines[s]).len() == self.num_ways
        &&& forall|s: int, w: int|
            0 <= s < self.num_sets && 0 <= w < self.num_ways ==> (#[trigger] self.lines[s][w]).len()
                == self.line_bytes
    }

    /// Whether the slot at `set` and `way` holds the line with tag bits `tag`.
    pub open spec fn holds(self, set: int, way: int, tag: usize) -> bool {
        self.tags[set][way].valid && self.tags[set][way].tag == tag
    }

    /// No set holds two lines with the same tag bits.
    pub open spec fn unique_tags(self) -> bool {
        forall|s: int, w1: int, w2: int|
            #![trigger self.tags[s][w1], self.tags[s][w2]]
            0 <= s < self.num_sets && 0 <= w1 < self.num_ways && 0 <= w2 < self.num_ways
                && self.tags[s][w1].valid && self.tags[s][w2].valid && self.tags[s][w1].tag
                == self.tags[s][w2].tag ==> w1 == w2
    }

    /// The invariant of a cache.
    pub open spec fn wf(self) -> bool {
        &&& self.valid_geometry()
        &&& self.shaped()
        &&& self.unique_tags()
    }

    /// The set that `addr` maps to.
    pub open spec fn set_index(self, addr: usize) -> int {
        set_of(addr, self.line_bytes, self.num_sets) as int
    }

    /// The tag bits of `addr`.
    pub open spec fn tag_bits(self, addr: usize) -> usize {
        tag_of(addr, self.line_bytes, self.num_sets)
    }

    /// Whether `way` is the first way of its set, in ascending order, that
    /// holds the line of `addr`.
    pub open spec fn is_hit_way(self, addr: usize, way: int) -> bool {
        &&& 0 <= way < self.num_ways
        &&& self.holds(self.set_index(addr), way, self.tag_bits(addr))
        &&& forall|j: int| 0 <= j < way ==> !self.holds(self.set_index(addr), j, self.tag_bits(addr))
    }

    /// The way that holds the line of `addr`, if one does.
    pub open spec fn hit_way(self, addr: usize) -> Option<int> {
        if exists|w: int| self.is_hit_way(addr, w) {
            Some(choose|w: int| self.is_hit_way(addr, w))
        } else {
            None
        }
    }

    /// Set and way of the slot that holds the line of `addr`, if one does.
    pub open spec fn lookup(self, addr: usize) -> Option<(int, int)> {
        match self.hit_way(addr) {
            Some(w) => Some((self.set_index(addr), w)),
            None => None,
        }
    }

    /// The cached bytes of the line of `addr`, if the cache holds it.
    pub open spec fn read(self, addr: usize) -> Option<Seq<u8>> {
        match self.hit_way(addr) {
            Some(w) => Some(self.lines[self.set_index(addr)][w]),
            None => None,
        }
    }

    /// Whether `way` is the first empty way of `set`, in ascending order.
    pub open spec fn is_free_way(self, set: int, way: int) -> bool {
        &&& 0 <= way < self.num_ways
        &&& !self.tags[set][way].valid
        &&& forall|j: int| 0 <= j < way ==> (#[trigger] self.tags[set][j]).valid
    }

    /// The first empty way of `set`, if it has one.
    pub open spec fn free_way(self, set: int) -> Option<int> {
        if exists|w: int| self.is_free_way(set, w) {
            Some(choose|w: int| self.is_free_way(set, w))
        } else {
            None
        }
    }

    /// The cache with the line `data` of tag bits `tag` put in one slot:
    /// valid, clean, whatever the slot held before.
    pub open spec fn install(self, set: int, way: int, tag: usize, data: Seq<u8>) -> CacheModel {
        CacheModel {
            tags: self.tags.update(set, self.tags[set].update(way, CacheTag::filled(tag))),
            lines: self.lines.update(set, self.lines[set].update(way, data)),
            ..self
        }
    }

    /// Whether a fill for `addr` has to evict: the line is not there and
    /// its set has no empty way.
    pub open spec fn must_evict(self, addr: usize) -> bool {
        self.hit_way(addr) is None && self.free_way(self.set_index(addr)) is None
    }

    /// The cache after a fill of `data` for `addr`, where `victim` is the way
    /// that the policy gives up if the set is full.
    ///
    /// A line that is already there stays as it is. Otherwise the line goes
    /// to the first empty way of its set, or to `victim` if there is none.
    pub open spec fn fill(self, addr: usize, data: Seq<u8>, victim: int) -> CacheModel {
        if self.hit_way(addr) is Some {
            self
        } else {
            let set = self.set_index(addr);
            let way = match self.free_way(set) {
                Some(w) => w,
                None => victim,
            };
            self.install(set, way, self.tag_bits(addr), data)
        }
    }

    /// The cache with one slot emptied. The bytes of the slot stay.
    pub open spec fn invalidate_entry(self, set: int, way: int) -> CacheModel {
        CacheModel {
            tags: self.tags.update(set, self.tags[set].update(way, CacheTag::empty())),
            ..self
        }
    }

    /// The cache without the line of `addr`.
    pub open spec fn invalidate(self, addr: usize) -> CacheModel {
        match self.hit_way(addr) {
            Some(w) => self.invalidate_entry(self.set_index(addr), w),
            None => self,
        }
    }

    /// The cache with every slot of `set` emptied.
    pub open spec fn invalidate_set(self, set: int) -> CacheModel {
        CacheModel {
            tags: self.tags.update(set, Seq::new(self.num_ways as nat, |w: int| CacheTag::empty())),
            ..self
        }
    }

    /// The cache with every slot emptied.
    pub open spec fn invalidate_all(self) -> CacheModel {
        CacheModel {
            tags: Seq::new(
                self.num_sets as nat,
                |s: int| Seq::new(self.num_ways as nat, |w: int| CacheTag::empty()),
            ),
            ..self
        }
    }

    /// How many ways of `set` hold a line.
    pub open spec fn valid_count(self, set: int) -> nat {
        self.tags[set].filter(|tag: CacheTag| tag.valid).len()
    }

    /// On a miss no way of the set holds the line, first or not.
    pub proof fn lemma_miss(self, addr: usize)
        requires
            self.hit_way(addr) is None,
        ensures
            forall|w: int|
                0 <= w < self.num_ways ==> !self.holds(self.set_index(addr), w, self.tag_bits(addr)),
    {
        self.lemma_miss_below(addr, self.num_ways as int);
    }

    proof fn lemma_miss_below(self, addr: usize, n: int)
        requires
            self.hit_way(addr) is None,
            0 <= n <= self.num_ways,
        ensures
            forall|w: int| 0 <= w < n ==> !self.holds(self.set_index(addr), w, self.tag_bits(addr)),
        decreases n,
    {
        if n > 0 {
            self.lemma_miss_below(addr, n - 1);
            if self.holds(self.set_index(addr), n - 1, self.tag_bits(addr)) {
                assert(self.is_hit_way(addr, n - 1));
            }
        }
    }

    /// A set without a first empty way has no empty way.
    pub proof fn lemma_full(self, set: int)
        requires
            self.free_way(set) is None,
        ensures
            forall|w: int| 0 <= w < self.num_ways ==> (#[trigger] self.tags[set][w]).valid,
    {
        self.lemma_full_below(set, self.num_ways as int);
    }

    proof fn lemma_full_below(self, set: int, n: int)
        requires
            self.free_way(set) is None,
            0 <= n <= self.num_ways,
        ensures
            forall|w: int| 0 <= w < n ==> (#[trigger] self.tags[set][w]).valid,
        decreases n,
    {
        if n > 0 {
            self.lemma_full_below(set, n - 1);
            if !self.tags[set][n - 1].valid {
                assert(self.is_free_way(set, n - 1));
            }
        }
    }

    /// In a well-formed cache the way that holds a line is the way that a
    /// lookup finds.
    pub proof fn lemma_hit(self, addr: usize, way: int)
        requires
            self.wf(),
            0 <= way < self.num_ways,
            self.holds(self.set_index(addr), way, self.tag_bits(addr)),
        ensures
            self.hit_way(addr) == Some(way),
    {
        lemma_decomposition_round_trip(addr, self.line_bytes, self.num_sets);
        let set = self.set_index(addr);
        assert forall|j: int| 0 <= j < way implies !self.holds(set, j, self.tag_bits(addr)) by {
            if self.holds(set, j, self.tag_bits(addr)) {
                assert(self.tags[set][j].valid && self.tags[set][way].valid);
            }
        }
        assert(self.is_hit_way(addr, way));
        let found = choose|w: int| self.is_hit_way(addr, w);
        assert(self.tags[set][found].valid && self.tags[set][way].valid);
    }

    /// Putting a line into a slot keeps the invariant, as long as no other
    /// way of the set holds a line with the same tag bits.
    pub proof fn lemma_install_wf(self, set: int, way: int, tag: usize, data: Seq<u8>)
        requires
            self.wf(),
            0 <= set < self.num_sets,
            0 <= way < self.num_ways,
            data.len() == self.line_bytes,
            forall|w: int| 0 <= w < self.num_ways && w != way ==> !self.holds(set, w, tag),
        ensures
            self.install(set, way, tag, data).wf(),
    {
        let after = self.install(set, way, tag, data);
        assert forall|s: int, w1: int, w2: int|
            #![trigger after.tags[s][w1], after.tags[s][w2]]
            0 <= s < after.num_sets && 0 <= w1 < after.num_ways && 0 <= w2 < after.num_ways
                && after.tags[s][w1].valid && after.tags[s][w2].valid && after.tags[s][w1].tag
                == after.tags[s][w2].tag implies w1 == w2 by {
            if s == set {
                if w1 != way && w2 != way {
                    assert(self.tags[s][w1].valid && self.tags[s][w2].valid);
                } else if w1 != way {
                    assert(self.holds(set, w1, tag));
                } else if w2 != way {
                    assert(self.holds(set, w2, tag));
                }
            } else {
                assert(self.tags[s][w1].valid && self.tags[s][w2].valid);
            }
        }
    }
}

} // verus!
