//! What holds of the cache model whatever state it is in.
//!
//! The operations of `SetAssocCache` are stated over `CacheModel`, so each
//! law here is a law of the cache itself.

use vstd::prelude::*;
use vstd::relations::injective_on;
use vstd::set_lib::{lemma_int_range, lemma_len_subset, lemma_map_size, set_int_range};
use crate::memory::cache::CacheTag;
use crate::memory::geometry::lemma_decomposition_round_trip;
use crate::memory::model::CacheModel;

verus! {

/// One fill: the address, the bytes of its line, and the way that the
/// policy would give up if the set were full.
pub struct Fill {
    pub addr: usize,
    pub data: Seq<u8>,
    pub victim: int,
}

impl CacheModel {
    /// Whether `fill` is a fill that this cache can take.
    pub open spec fn accepts(self, fill: Fill) -> bool {
        fill.data.len() == self.line_bytes && 0 <= fill.victim < self.num_ways
    }

    /// The cache after a run of fills, first to last.
    pub open spec fn fill_all(self, fills: Seq<Fill>) -> CacheModel
        decreases fills.len(),
    {
        if fills.len() == 0 {
            self
        } else {
            self.fill_all(fills.drop_last()).fill(
                fills.last().addr,
                fills.last().data,
                fills.last().victim,
            )
        }
    }

    /// Whether some way of `set` holds the line with tag bits `tag` and
    /// bytes `data`.
    pub open spec fn holds_line(self, set: int, tag: usize, data: Seq<u8>) -> bool {
        exists|w: int|
            0 <= w < self.num_ways && self.holds(set, w, tag) && self.lines[set][w] == data
    }

    /// Whether the line of `addr` sits in way `way` of its set.
    pub open spec fn sits_in(self, addr: usize, way: int) -> bool {
        0 <= way < self.num_ways && self.holds(self.set_index(addr), way, self.tag_bits(addr))
    }
}

/// Every address maps to a set of the cache.
pub proof fn lemma_set_index_in_range(c: CacheModel, addr: usize)
    requires
        c.valid_geometry(),
    ensures
        0 <= c.set_index(addr) < c.num_sets,
{
    lemma_decomposition_round_trip(addr, c.line_bytes, c.num_sets);
}

/// A fill keeps the invariant of the cache.
pub proof fn lemma_fill_wf(c: CacheModel, fill: Fill)
    requires
        c.wf(),
        c.accepts(fill),
    ensures
        c.fill(fill.addr, fill.data, fill.victim).wf(),
{
    if c.hit_way(fill.addr) is None {
        let set = c.set_index(fill.addr);
        let way = match c.free_way(set) {
            Some(w) => w,
            None => fill.victim,
        };
        lemma_set_index_in_range(c, fill.addr);
        c.lemma_miss(fill.addr);
        c.lemma_install_wf(set, way, c.tag_bits(fill.addr), fill.data);
    }
}

/// Invalidation keeps the invariant of the cache.
pub proof fn lemma_invalidate_wf(c: CacheModel, addr: usize)
    requires
        c.wf(),
    ensures
        c.invalidate(addr).wf(),
{
    let after = c.invalidate(addr);
    lemma_set_index_in_range(c, addr);
    if let Some(way) = c.hit_way(addr) {
        assert(c.is_hit_way(addr, way));
    }
    assert forall|s: int, w1: int, w2: int|
        #![trigger after.tags[s][w1], after.tags[s][w2]]
        0 <= s < after.num_sets && 0 <= w1 < after.num_ways && 0 <= w2 < after.num_ways
            && after.tags[s][w1].valid && after.tags[s][w2].valid && after.tags[s][w1].tag
            == after.tags[s][w2].tag implies w1 == w2 by {
        assert(c.tags[s][w1].valid && c.tags[s][w2].valid);
    }
}

/// Invalidation is idempotent: once the line of an address is dropped, a
/// lookup of the address finds nothing, and dropping it again changes
/// nothing.
pub proof fn lemma_invalidate_idempotent(c: CacheModel, addr: usize)
    requires
        c.wf(),
    ensures
        c.invalidate(addr).hit_way(addr) is None,
        c.invalidate(addr).invalidate(addr) == c.invalidate(addr),
{
    let after = c.invalidate(addr);
    let set = c.set_index(addr);
    let tag = c.tag_bits(addr);
    lemma_set_index_in_range(c, addr);
    match c.hit_way(addr) {
        Some(way) => {
            assert(c.is_hit_way(addr, way));
            assert forall|w: int| !after.is_hit_way(addr, w) by {
                if after.is_hit_way(addr, w) {
                    assert(w != way);
                    assert(c.tags[set][w].valid && c.tags[set][way].valid);
                }
            }
        },
        None => {},
    }
}

/// Invalidation drops the line of one address and no other: an address
/// with another set index or other tag bits reads what it read before.
pub proof fn lemma_invalidate_keeps_other_lines(c: CacheModel, addr: usize, other: usize)
    requires
        c.wf(),
        c.set_index(other) != c.set_index(addr) || c.tag_bits(other) != c.tag_bits(addr),
    ensures
        c.invalidate(addr).read(other) == c.read(other),
{
    let after = c.invalidate(addr);
    lemma_invalidate_wf(c, addr);
    lemma_set_index_in_range(c, addr);
    lemma_set_index_in_range(c, other);
    if let Some(way) = c.hit_way(addr) {
        assert(c.is_hit_way(addr, way));
        match c.hit_way(other) {
            Some(held) => {
                assert(c.is_hit_way(other, held));
                assert(after.holds(after.set_index(other), held, after.tag_bits(other)));
                after.lemma_hit(other, held);
            },
            None => {
                c.lemma_miss(other);
                assert forall|w: int| !after.is_hit_way(other, w) by {
                    if after.is_hit_way(other, w) {
                        assert(c.holds(c.set_index(other), w, c.tag_bits(other)));
                    }
                }
            },
        }
    }
}

/// Once a set is emptied no address of the set hits, and every address of
/// another set reads what it read before.
pub proof fn lemma_invalidate_set_drops_the_set(c: CacheModel, set: int, other: usize)
    requires
        c.wf(),
        0 <= set < c.num_sets,
    ensures
        c.invalidate_set(set).wf(),
        c.set_index(other) == set ==> c.invalidate_set(set).read(other) is None,
        c.set_index(other) != set ==> c.invalidate_set(set).read(other) == c.read(other),
{
    let after = c.invalidate_set(set);
    lemma_set_index_in_range(c, other);
    assert forall|s: int, w1: int, w2: int|
        #![trigger after.tags[s][w1], after.tags[s][w2]]
        0 <= s < after.num_sets && 0 <= w1 < after.num_ways && 0 <= w2 < after.num_ways
            && after.tags[s][w1].valid && after.tags[s][w2].valid && after.tags[s][w1].tag
            == after.tags[s][w2].tag implies w1 == w2 by {
        assert(c.tags[s][w1].valid && c.tags[s][w2].valid);
    }
    if c.set_index(other) == set {
        assert forall|w: int| !after.is_hit_way(other, w) by {}
    } else {
        match c.hit_way(other) {
            Some(held) => {
                assert(c.is_hit_way(other, held));
                assert(after.holds(after.set_index(other), held, after.tag_bits(other)));
                after.lemma_hit(other, held);
            },
            None => {
                c.lemma_miss(other);
                assert forall|w: int| !after.is_hit_way(other, w) by {
                    if after.is_hit_way(other, w) {
                        assert(c.holds(c.set_index(other), w, c.tag_bits(other)));
                    }
                }
            },
        }
    }
}

/// A fill followed at once by a read of the same address returns the bytes
/// that were filled, unless the cache held the line before with other
/// bytes: those a fill does not replace.
pub proof fn lemma_fill_then_read(c: CacheModel, fill: Fill)
    requires
        c.wf(),
        c.accepts(fill),
        c.read(fill.addr) matches Some(held) ==> held == fill.data,
    ensures
        c.fill(fill.addr, fill.data, fill.victim).read(fill.addr) == Some(fill.data),
{
    if c.hit_way(fill.addr) is None {
        let set = c.set_index(fill.addr);
        let tag = c.tag_bits(fill.addr);
        let way = match c.free_way(set) {
            Some(w) => w,
            None => fill.victim,
        };
        let after = c.install(set, way, tag, fill.data);
        lemma_set_index_in_range(c, fill.addr);
        c.lemma_miss(fill.addr);
        c.lemma_install_wf(set, way, tag, fill.data);
        assert(after.holds(set, way, tag));
        after.lemma_hit(fill.addr, way);
    }
}

/// A fill for an address that hits leaves the cache as it is: the bytes
/// that were stored stay, and the new bytes are dropped.
pub proof fn lemma_fill_on_hit_keeps_line(c: CacheModel, fill: Fill, held: Seq<u8>)
    requires
        c.read(fill.addr) == Some(held),
    ensures
        c.fill(fill.addr, fill.data, fill.victim) == c,
        c.fill(fill.addr, fill.data, fill.victim).read(fill.addr) == Some(held),
{
}

/// While the set of an address has an empty way, a fill for the address
/// evicts nothing: every address that hit before the fill reads the same
/// bytes after it.
pub proof fn lemma_fill_with_free_way_keeps_lines(c: CacheModel, fill: Fill, other: usize)
    requires
        c.wf(),
        c.accepts(fill),
        c.free_way(c.set_index(fill.addr)) is Some,
        c.read(other) is Some,
    ensures
        c.fill(fill.addr, fill.data, fill.victim).read(other) == c.read(other),
{
    if c.hit_way(fill.addr) is None {
        let set = c.set_index(fill.addr);
        let way = c.free_way(set).unwrap();
        let after = c.fill(fill.addr, fill.data, fill.victim);
        let held = c.hit_way(other).unwrap();
        assert(c.is_free_way(set, way));
        assert(c.is_hit_way(other, held));
        lemma_fill_wf(c, fill);
        lemma_set_index_in_range(c, other);
        assert(after.holds(after.set_index(other), held, after.tag_bits(other)));
        after.lemma_hit(other, held);
    }
}

/// What a read of the address of `fill` returns after the fill: the bytes
/// that the cache held for the address before, or else the bytes filled.
pub open spec fn kept_or_filled(c: CacheModel, fill: Fill) -> Seq<u8> {
    match c.read(fill.addr) {
        Some(held) => held,
        None => fill.data,
    }
}

/// Capacity: a run of fills for addresses of one set, with tag bits that
/// all differ and no more of them than the set has ways, in whatever order
/// they come, leaves every one of the lines in the cache, as long as the set
/// held no other line before. Each address reads back the bytes of its own
/// fill, or the bytes that the cache held for it before the run.
pub proof fn lemma_capacity(c: CacheModel, set: int, fills: Seq<Fill>)
    requires
        c.wf(),
        0 <= set < c.num_sets,
        fills.len() <= c.num_ways,
        forall|i: int|
            0 <= i < fills.len() ==> c.accepts(#[trigger] fills[i]) && c.set_index(fills[i].addr)
                == set,
        forall|i: int, j: int|
            0 <= i < j < fills.len() ==> c.tag_bits(#[trigger] fills[i].addr) != c.tag_bits(
                #[trigger] fills[j].addr,
            ),
        forall|w: int|
            0 <= w < c.num_ways && (#[trigger] c.tags[set][w]).valid ==> exists|i: int|
                0 <= i < fills.len() && c.tag_bits(#[trigger] fills[i].addr) == c.tags[set][w].tag,
    ensures
        c.fill_all(fills).wf(),
        forall|i: int|
            0 <= i < fills.len() ==> c.fill_all(fills).read(#[trigger] fills[i].addr) == Some(
                kept_or_filled(c, fills[i]),
            ),
{
    let n = fills.len() as int;
    lemma_capacity_upto(c, set, fills, n);
    assert(fills.take(n) =~= fills);
    let after = c.fill_all(fills);
    assert forall|i: int| 0 <= i < n implies after.read(#[trigger] fills[i].addr) == Some(
        kept_or_filled(c, fills[i]),
    ) by {
        assert(c.accepts(fills[i]));
        let tag = c.tag_bits(fills[i].addr);
        assert(after.holds_line(set, tag, kept_or_filled(c, fills[i])));
        let w = choose|w: int|
            0 <= w < after.num_ways && after.holds(set, w, tag) && after.lines[set][w]
                == kept_or_filled(c, fills[i]);
        after.lemma_hit(fills[i].addr, w);
    }
}

/// Whether `tag` is the tag of one of the first `k` fills, or of a fill whose
/// line the cache `c` held already.
spec fn came_from(c: CacheModel, fills: Seq<Fill>, k: int, tag: usize) -> bool {
    exists|i: int|
        0 <= i < fills.len() && (i < k || c.hit_way(fills[i].addr) is Some) && c.tag_bits(
            #[trigger] fills[i].addr,
        ) == tag
}

/// What holds of the cache `s` that `c` has become after the first `k` fills.
spec fn capacity_inv(c: CacheModel, set: int, fills: Seq<Fill>, k: int, s: CacheModel) -> bool {
    &&& s.wf()
    &&& s.line_bytes == c.line_bytes
    &&& s.num_sets == c.num_sets
    &&& s.num_ways == c.num_ways
    &&& forall|w: int|
        0 <= w < s.num_ways && (#[trigger] s.tags[set][w]).valid ==> came_from(
            c,
            fills,
            k,
            s.tags[set][w].tag,
        )
    &&& forall|i: int|
        0 <= i < fills.len() && (i < k || c.hit_way((#[trigger] fills[i]).addr) is Some)
            ==> s.holds_line(set, c.tag_bits(fills[i].addr), kept_or_filled(c, fills[i]))
}

/// A one-to-one map from the ways of a set to the numbers below `n`, which
/// leaves one of them out, shows that the set has fewer ways than `n`.
proof fn lemma_pigeonhole(ways: int, n: int, k: int, f: spec_fn(int) -> int)
    requires
        0 <= ways,
        0 <= k < n,
        forall|w: int| 0 <= w < ways ==> 0 <= #[trigger] f(w) < n && f(w) != k,
        forall|w1: int, w2: int|
            0 <= w1 < ways && 0 <= w2 < ways && #[trigger] f(w1) == #[trigger] f(w2) ==> w1 == w2,
    ensures
        ways < n,
{
    let x = set_int_range(0, ways);
    let y = x.map(f);
    let z = set_int_range(0, n).remove(k);
    lemma_int_range(0, ways);
    lemma_int_range(0, n);
    assert(injective_on(f, x));
    lemma_map_size(x, y, f);
    assert(y.subset_of(z));
    lemma_len_subset(y, z);
}

proof fn lemma_capacity_upto(c: CacheModel, set: int, fills: Seq<Fill>, k: int)
    requires
        c.wf(),
        0 <= set < c.num_sets,
        fills.len() <= c.num_ways,
        forall|i: int|
            0 <= i < fills.len() ==> c.accepts(#[trigger] fills[i]) && c.set_index(fills[i].addr)
                == set,
        forall|i: int, j: int|
            0 <= i < j < fills.len() ==> c.tag_bits(#[trigger] fills[i].addr) != c.tag_bits(
                #[trigger] fills[j].addr,
            ),
        forall|w: int|
            0 <= w < c.num_ways && (#[trigger] c.tags[set][w]).valid ==> exists|i: int|
                0 <= i < fills.len() && c.tag_bits(#[trigger] fills[i].addr) == c.tags[set][w].tag,
        0 <= k <= fills.len(),
    ensures
        capacity_inv(c, set, fills, k, c.fill_all(fills.take(k))),
    decreases k,
{
    let n = fills.len() as int;
    if k == 0 {
        assert(fills.take(0) =~= Seq::<Fill>::empty());
        assert(c.fill_all(fills.take(0)) == c);
        assert forall|w: int| 0 <= w < c.num_ways && (#[trigger] c.tags[set][w]).valid implies came_from(
            c,
            fills,
            0,
            c.tags[set][w].tag,
        ) by {
            let i = choose|i: int|
                0 <= i < fills.len() && c.tag_bits(#[trigger] fills[i].addr) == c.tags[set][w].tag;
            assert(c.accepts(fills[i]));
            c.lemma_hit(fills[i].addr, w);
        }
        assert forall|i: int|
            0 <= i < fills.len() && c.hit_way((#[trigger] fills[i]).addr) is Some implies c.holds_line(
            set,
            c.tag_bits(fills[i].addr),
            kept_or_filled(c, fills[i]),
        ) by {
            let w = c.hit_way(fills[i].addr).unwrap();
            assert(c.is_hit_way(fills[i].addr, w));
        }
    } else {
        let j = k - 1;
        lemma_capacity_upto(c, set, fills, j);
        let s = c.fill_all(fills.take(j));
        let fill = fills[j];
        let tag = c.tag_bits(fill.addr);
        assert(fills.take(k).drop_last() =~= fills.take(j));
        assert(fills.take(k).last() == fill);
        let after = s.fill(fill.addr, fill.data, fill.victim);
        assert(c.fill_all(fills.take(k)) == after);
        assert(c.accepts(fill) && s.accepts(fill));
        assert(s.set_index(fill.addr) == set && s.tag_bits(fill.addr) == tag);
        lemma_fill_wf(s, fill);
        // A tag that came from among the first `j` fills came from among the first `k`.
        assert forall|t: usize| came_from(c, fills, j, t) implies came_from(c, fills, k, t) by {
            let i = choose|i: int|
                0 <= i < fills.len() && (i < j || c.hit_way(fills[i].addr) is Some) && c.tag_bits(
                    #[trigger] fills[i].addr,
                ) == t;
            assert(i < k || c.hit_way(fills[i].addr) is Some);
        }
        if s.hit_way(fill.addr) is Some {
            let w0 = s.hit_way(fill.addr).unwrap();
            assert(s.is_hit_way(fill.addr, w0));
            assert(after == s);
            if c.hit_way(fill.addr) is None {
                // The set cannot hold this line yet: no earlier fill had its tag.
                assert(came_from(c, fills, j, s.tags[set][w0].tag));
                let i = choose|i: int|
                    0 <= i < fills.len() && (i < j || c.hit_way(fills[i].addr) is Some)
                        && c.tag_bits(#[trigger] fills[i].addr) == tag;
                assert(i == j) by {
                    if i < j {
                        assert(c.tag_bits(fills[i].addr) != c.tag_bits(fills[j].addr));
                    } else if i > j {
                        assert(c.tag_bits(fills[j].addr) != c.tag_bits(fills[i].addr));
                    }
                }
                assert(false);
            }
            assert(capacity_inv(c, set, fills, k, after));
        } else {
            s.lemma_miss(fill.addr);
            if s.free_way(set) is None {
                s.lemma_full(set);
                let f = |w: int|
                    choose|i: int|
                        0 <= i < fills.len() && (i < j || c.hit_way(fills[i].addr) is Some)
                            && c.tag_bits(#[trigger] fills[i].addr) == s.tags[set][w].tag;
                assert forall|w: int| 0 <= w < s.num_ways implies 0 <= #[trigger] f(w) < n && f(w)
                    != j by {
                    assert(s.tags[set][w].valid);
                    assert(came_from(c, fills, j, s.tags[set][w].tag));
                    if f(w) == j {
                        assert(s.holds(set, w, tag));
                    }
                }
                assert forall|w1: int, w2: int|
                    0 <= w1 < s.num_ways && 0 <= w2 < s.num_ways && #[trigger] f(w1)
                        == #[trigger] f(w2) implies w1 == w2 by {
                    assert(s.tags[set][w1].valid && s.tags[set][w2].valid);
                    assert(came_from(c, fills, j, s.tags[set][w1].tag));
                    assert(came_from(c, fills, j, s.tags[set][w2].tag));
                }
                lemma_pigeonhole(s.num_ways as int, n, j, f);
                assert(false);
            }
            let free = s.free_way(set).unwrap();
            assert(s.is_free_way(set, free));
            assert(after == s.install(set, free, tag, fill.data));
            if c.hit_way(fill.addr) is Some {
                assert(s.holds_line(set, c.tag_bits(fills[j].addr), kept_or_filled(c, fills[j])));
                assert(false);
            }
            assert(kept_or_filled(c, fill) == fill.data);
            assert forall|w: int|
                0 <= w < after.num_ways && (#[trigger] after.tags[set][w]).valid implies came_from(
                c,
                fills,
                k,
                after.tags[set][w].tag,
            ) by {
                if w == free {
                    assert(c.tag_bits(fills[j].addr) == tag);
                } else {
                    assert(s.tags[set][w].valid);
                    assert(came_from(c, fills, j, s.tags[set][w].tag));
                }
            }
            assert forall|i: int|
                0 <= i < fills.len() && (i < k || c.hit_way((#[trigger] fills[i]).addr) is Some) implies after.holds_line(
                set,
                c.tag_bits(fills[i].addr),
                kept_or_filled(c, fills[i]),
            ) by {
                if i == j {
                    assert(after.holds(set, free, tag) && after.lines[set][free] == fill.data);
                } else {
                    assert(s.holds_line(set, c.tag_bits(fills[i].addr), kept_or_filled(c, fills[i])));
                    let w = choose|w: int|
                        0 <= w < s.num_ways && s.holds(set, w, c.tag_bits(fills[i].addr))
                            && s.lines[set][w] == kept_or_filled(c, fills[i]);
                    assert(w != free);
                    assert(after.holds(set, w, c.tag_bits(fills[i].addr)) && after.lines[set][w]
                        == kept_or_filled(c, fills[i]));
                }
            }
        }
    }
}

/// Fills into an empty set, for addresses of that set with tag bits that all
/// differ, take its ways in ascending order: the line of the fill at
/// position `i` sits in way `i`, and the ways beyond the last fill stay
/// empty.
pub proof fn lemma_fills_take_ways_in_order(c: CacheModel, set: int, fills: Seq<Fill>)
    requires
        c.wf(),
        0 <= set < c.num_sets,
        forall|w: int| 0 <= w < c.num_ways ==> !(#[trigger] c.tags[set][w]).valid,
        fills.len() <= c.num_ways,
        forall|i: int|
            0 <= i < fills.len() ==> c.accepts(#[trigger] fills[i]) && c.set_index(fills[i].addr)
                == set,
        forall|i: int, j: int|
            0 <= i < j < fills.len() ==> c.tag_bits(#[trigger] fills[i].addr) != c.tag_bits(
                #[trigger] fills[j].addr,
            ),
    ensures
        c.fill_all(fills).wf(),
        c.fill_all(fills).line_bytes == c.line_bytes,
        c.fill_all(fills).num_sets == c.num_sets,
        c.fill_all(fills).num_ways == c.num_ways,
        forall|i: int|
            0 <= i < fills.len() ==> (#[trigger] c.fill_all(fills).tags[set][i])
                == CacheTag::filled(c.tag_bits(fills[i].addr)),
        forall|i: int|
            0 <= i < fills.len() ==> (#[trigger] c.fill_all(fills).lines[set][i]) == fills[i].data,
        forall|w: int|
            fills.len() <= w < c.num_ways ==> !(#[trigger] c.fill_all(fills).tags[set][w]).valid,
    decreases fills.len(),
{
    if fills.len() > 0 {
        let n = fills.len() - 1;
        let init = fills.drop_last();
        let last = fills.last();
        let before = c.fill_all(init);
        assert forall|i: int| 0 <= i < init.len() implies c.accepts(#[trigger] init[i])
            && c.set_index(init[i].addr) == set by {
            assert(init[i] == fills[i]);
        }
        assert forall|i: int, j: int| 0 <= i < j < init.len() implies c.tag_bits(
            #[trigger] init[i].addr,
        ) != c.tag_bits(#[trigger] init[j].addr) by {
            assert(init[i] == fills[i] && init[j] == fills[j]);
        }
        lemma_fills_take_ways_in_order(c, set, init);
        assert(c.accepts(fills[n]));
        let tag = before.tag_bits(last.addr);
        assert(before.set_index(last.addr) == set);
        assert forall|w: int| !before.is_hit_way(last.addr, w) by {
            if before.is_hit_way(last.addr, w) {
                if w < n {
                    assert(before.tags[set][w] == CacheTag::filled(c.tag_bits(init[w].addr)));
                    assert(init[w] == fills[w]);
                    assert(c.tag_bits(fills[w].addr) != c.tag_bits(fills[n].addr));
                } else {
                    assert(!before.tags[set][w].valid);
                }
            }
        }
        assert(before.is_free_way(set, n)) by {
            assert(!before.tags[set][n].valid);
            assert forall|j: int| 0 <= j < n implies (#[trigger] before.tags[set][j]).valid by {
                assert(before.tags[set][j] == CacheTag::filled(c.tag_bits(init[j].addr)));
            }
        }
        let free = before.free_way(set).unwrap();
        assert(before.is_free_way(set, free));
        assert(free == n) by {
            if free < n {
                assert(before.tags[set][free].valid);
            } else if free > n {
                assert(before.tags[set][n].valid);
            }
        }
        let after = before.fill(last.addr, last.data, last.victim);
        assert(after == before.install(set, n, tag, last.data));
        lemma_fill_wf(before, last);
        assert forall|i: int| 0 <= i < fills.len() implies (#[trigger] after.tags[set][i])
            == CacheTag::filled(c.tag_bits(fills[i].addr)) by {
            if i < n {
                assert(before.tags[set][i] == CacheTag::filled(c.tag_bits(init[i].addr)));
                assert(init[i] == fills[i]);
            }
        }
        assert forall|i: int| 0 <= i < fills.len() implies (#[trigger] after.lines[set][i])
            == fills[i].data by {
            if i < n {
                assert(before.lines[set][i] == init[i].data);
                assert(init[i] == fills[i]);
            }
        }
        assert forall|w: int| fills.len() <= w < c.num_ways implies !(
        #[trigger] after.tags[set][w]).valid by {
            assert(!before.tags[set][w].valid);
        }
    }
}

/// Eviction: a fill for an address that misses, into a set without an
/// empty way, replaces the line in the way that the policy gave up, and that
/// line only.
///
/// Of the addresses that hit before the fill, the ones whose line sat in
/// that way now miss, and every other one reads the bytes it read before.
/// The filled address reads its new bytes.
pub proof fn lemma_fill_into_full_set_evicts_one(c: CacheModel, fill: Fill, other: usize)
    requires
        c.wf(),
        c.accepts(fill),
        c.must_evict(fill.addr),
        c.read(other) is Some,
    ensures
        c.fill(fill.addr, fill.data, fill.victim).read(fill.addr) == Some(fill.data),
        c.sits_in(other, fill.victim) && c.set_index(other) == c.set_index(fill.addr) ==> c.fill(
            fill.addr,
            fill.data,
            fill.victim,
        ).read(other) is None,
        !(c.sits_in(other, fill.victim) && c.set_index(other) == c.set_index(fill.addr)) ==> c.fill(
            fill.addr,
            fill.data,
            fill.victim,
        ).read(other) == c.read(other),
{
    let set = c.set_index(fill.addr);
    let tag = c.tag_bits(fill.addr);
    let after = c.fill(fill.addr, fill.data, fill.victim);
    let held = c.hit_way(other).unwrap();
    let other_set = c.set_index(other);
    let other_tag = c.tag_bits(other);
    lemma_fill_then_read(c, fill);
    lemma_fill_wf(c, fill);
    lemma_set_index_in_range(c, other);
    lemma_set_index_in_range(c, fill.addr);
    c.lemma_miss(fill.addr);
    assert(c.is_hit_way(other, held));
    assert(after == c.install(set, fill.victim, tag, fill.data));
    if other_set == set && held == fill.victim {
        assert(other_tag != tag);
        assert forall|w: int| !after.is_hit_way(other, w) by {
            if after.is_hit_way(other, w) {
                assert(w != fill.victim);
                assert(c.tags[set][w].valid && c.tags[set][held].valid);
            }
        }
    } else {
        assert(after.holds(other_set, held, other_tag));
        after.lemma_hit(other, held);
        if c.sits_in(other, fill.victim) && other_set == set {
            assert(c.tags[set][fill.victim].valid && c.tags[set][held].valid);
        }
    }
}

/// Eviction, way by way: a fill for an address that misses, into a set
/// without an empty way, rewrites the way that the policy gave up and no
/// other slot of the cache. The line that sat there is gone from the set,
/// and the set holds as many lines as before: one in every way.
pub proof fn lemma_eviction_replaces_one_way(c: CacheModel, fill: Fill)
    requires
        c.wf(),
        c.accepts(fill),
        c.must_evict(fill.addr),
    ensures
        ({
            let set = c.set_index(fill.addr);
            let after = c.fill(fill.addr, fill.data, fill.victim);
            &&& after.tags[set][fill.victim] == CacheTag::filled(c.tag_bits(fill.addr))
            &&& after.lines[set][fill.victim] == fill.data
            &&& forall|s: int, w: int|
                0 <= s < c.num_sets && 0 <= w < c.num_ways && !(s == set && w == fill.victim)
                    ==> after.tags[s][w] == c.tags[s][w] && after.lines[s][w] == c.lines[s][w]
            &&& c.tags[set][fill.victim].valid
            &&& forall|w: int|
                0 <= w < c.num_ways ==> !after.holds(set, w, c.tags[set][fill.victim].tag)
            &&& c.valid_count(set) == c.num_ways
            &&& after.valid_count(set) == c.num_ways
        }),
{
    let set = c.set_index(fill.addr);
    let tag = c.tag_bits(fill.addr);
    let after = c.fill(fill.addr, fill.data, fill.victim);
    lemma_set_index_in_range(c, fill.addr);
    lemma_fill_wf(c, fill);
    c.lemma_miss(fill.addr);
    c.lemma_full(set);
    assert(after == c.install(set, fill.victim, tag, fill.data));
    assert(c.tags[set][fill.victim].valid);
    assert(!c.holds(set, fill.victim, tag));
    assert forall|w: int| 0 <= w < c.num_ways implies !after.holds(
        set,
        w,
        c.tags[set][fill.victim].tag,
    ) by {
        if w != fill.victim {
            assert(c.tags[set][w].valid && c.tags[set][fill.victim].valid);
        }
    }
    assert forall|w: int| 0 <= w < after.tags[set].len() implies (#[trigger] after.tags[set][w]).valid by {
        if w != fill.victim {
            assert(c.tags[set][w].valid);
        }
    }
    lemma_count_of_full_row(c.tags[set]);
    lemma_count_of_full_row(after.tags[set]);
}

/// In a row of valid tags every tag counts.
proof fn lemma_count_of_full_row(row: Seq<CacheTag>)
    requires
        forall|w: int| 0 <= w < row.len() ==> (#[trigger] row[w]).valid,
    ensures
        row.filter(|tag: CacheTag| tag.valid).len() == row.len(),
    decreases row.len(),
{
    reveal(Seq::filter);
    if row.len() > 0 {
        lemma_count_of_full_row(row.drop_last());
    }
}

/// A set never holds more valid lines than it has ways.
pub proof fn lemma_valid_count_bounded(c: CacheModel, set: int)
    requires
        c.shaped(),
        0 <= set < c.num_sets,
    ensures
        c.valid_count(set) <= c.num_ways,
{
    c.tags[set].lemma_filter_len(|tag: CacheTag| tag.valid);
}

/// Once every slot is emptied no address hits, as in a cache just built.
pub proof fn lemma_invalidate_all_misses(c: CacheModel, addr: usize)
    requires
        c.valid_geometry(),
    ensures
        c.invalidate_all().read(addr) is None,
        CacheModel::empty(c.line_bytes, c.num_sets, c.num_ways).read(addr) is None,
{
    lemma_set_index_in_range(c, addr);
    let after = c.invalidate_all();
    assert forall|w: int| !after.is_hit_way(addr, w) by {}
    let fresh = CacheModel::empty(c.line_bytes, c.num_sets, c.num_ways);
    assert forall|w: int| !fresh.is_hit_way(addr, w) by {}
}

} // verus!
