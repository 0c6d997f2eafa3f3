//! A behavioural model of a set-associative cache.

use vstd::prelude::*;
use vstd::bits::{low_bits_mask, lemma_u64_low_bits_mask_is_mod, lemma_u64_shr_is_div};
use crate::memory::geometry::{
    is_power_of_two, lemma_mask_is_mod, lemma_pow2_log2, log2, offset_of, power_of_two, set_of,
    tag_of,
};
use crate::memory::model::CacheModel;

verus! {

/// A cache line: `NBYTES` bytes of cached data.
#[derive(Clone, Copy)]
pub struct CacheLine<const NBYTES: usize> {
    pub data: [u8; NBYTES],
}

impl<const NBYTES: usize> CacheLine<NBYTES> {
    /// Zero the whole line.
    pub fn clear(&mut self)
        ensures
            final(self).data@ == Seq::new(NBYTES as nat, |i: int| 0u8),
    {
        self.data = [0;NBYTES];
    }

    /// Replace the whole line.
    pub fn fill(&mut self, data: &[u8; NBYTES])
        ensures
            final(self).data@ == data@,
    {
        self.data = *data;
    }

    /// Replace part of the line: the bytes from `off` on, as many as `data`
    /// holds. The rest of the line keeps its bytes.
    pub fn write(&mut self, off: usize, data: &[u8])
        requires
            off + data@.len() <= NBYTES,
        ensures
            final(self).data@ == old(self).data@.subrange(0, off as int) + data@ + old(
                self,
            ).data@.subrange(off + data@.len(), NBYTES as int),
    {
        let n = data.len();
        let mut i: usize = 0;
        while i < n
            invariant
                n == data@.len(),
                i <= n,
                off + n <= NBYTES,
                self.data@ == old(self).data@.subrange(0, off as int) + data@.subrange(0, i as int)
                    + old(self).data@.subrange(off + i, NBYTES as int),
            decreases n - i,
        {
            self.data[off + i] = data[i];
            i += 1;
        }
    }
}

impl<const NBYTES: usize> Default for CacheLine<NBYTES> {
    /// A line of zeroes.
    fn default() -> (line: Self)
        ensures
            line.data@ == Seq::new(NBYTES as nat, |i: int| 0u8),
    {
        Self { data: [0;NBYTES] }
    }
}

/// What a slot knows of the line it holds: whether it holds one, whether
/// that line was modified, and the tag of the address it came from.
///
/// While `valid` is false the other two fields mean nothing.
#[derive(Clone, Copy, Debug)]
pub struct CacheTag {
    /// Whether this slot holds a line.
    pub valid: bool,
    /// Whether the line was modified since it was filled.
    pub dirty: bool,
    /// The tag bits of the address the line belongs to.
    pub tag: usize,
}

impl CacheTag {
    /// The tag of an empty slot.
    pub open spec fn empty() -> CacheTag {
        CacheTag { valid: false, dirty: false, tag: 0 }
    }

    /// The tag of a slot that was just filled from an address with tag bits `tag`.
    pub open spec fn filled(tag: usize) -> CacheTag {
        CacheTag { valid: true, dirty: false, tag }
    }

    pub fn is_valid(&self) -> (valid: bool)
        ensures
            valid == self.valid,
    {
        self.valid
    }

    pub fn is_dirty(&self) -> (dirty: bool)
        ensures
            dirty == self.dirty,
    {
        self.dirty
    }

    /// Empty the slot.
    pub fn invalidate(&mut self)
        ensures
            *final(self) == CacheTag::empty(),
    {
        self.valid = false;
        self.dirty = false;
        self.tag = 0;
    }
}

impl Default for CacheTag {
    fn default() -> (tag: Self)
        ensures
            tag == CacheTag::empty(),
    {
        CacheTag { valid: false, dirty: false, tag: 0 }
    }
}

/// A strategy that picks the way to evict from a full set of `NWAY` ways.
///
/// A policy may keep state of its own, which moves on with each choice. The
/// cache asks it only once it has found that the set has no empty way.
///
/// The choice and the state that follows are functions of the state before
/// and of the tags shown. `victim` and `next` name them, so that the cache
/// can say which way it rewrites. Here they are left open: a policy says
/// what it does by giving them bodies of its own.
pub trait ReplacementPolicy<const NWAY: usize>: Default + Copy {
    /// The way that `replace` picks when it is shown `set`.
    open spec fn victim(&self, set: Seq<CacheTag>) -> usize {
        arbitrary()
    }

    /// The state of the policy after `replace` was shown `set`.
    open spec fn next(&self, set: Seq<CacheTag>) -> Self {
        arbitrary()
    }

    /// Pick the way to evict from a set, whatever the set holds.
    fn replace(&mut self, set: &[CacheTag; NWAY]) -> (way: usize)
        requires
            power_of_two(NWAY),
        ensures
            way < NWAY,
            way == old(self).victim(set@),
            *final(self) == old(self).next(set@),
    ;
}

/// Picks ways by consuming the bits of a seed.
#[derive(Clone, Copy)]
pub struct RandomPolicy {
    /// The bits that have not been consumed yet.
    pub seed: u64,
}

/// The multiplier of the mixing step, an odd number.
pub const MIX_MULTIPLIER: u64 = 0x2545f4914f6cdd1d;

/// The inverse of the multiplier: their product is 1 modulo two to the
/// power of 64.
pub const MIX_INVERSE: u64 = 0x59071d96d81ecd35;

/// What the mixing step starts from when a seed has run out.
pub const RESEED: u64 = 0x9e3779b97f4a7c15;

/// The mixing step: three xor-shifts, then a multiplication that wraps.
pub open spec fn mix(state: u64) -> u64 {
    let a = state ^ (state >> 12u64);
    let b = a ^ (a << 25u64);
    let c = b ^ (b >> 27u64);
    c.wrapping_mul(MIX_MULTIPLIER)
}

/// The mixing step.
pub fn mixed(state: u64) -> (next: u64)
    ensures
        next == mix(state),
{
    let mut next = state;
    next ^= next >> 12;
    next ^= next << 25;
    next ^= next >> 27;
    next.wrapping_mul(MIX_MULTIPLIER)
}

/// The multiplication of the mixing step gives zero for zero only.
proof fn lemma_multiple_not_zero(c: u64)
    requires
        c != 0,
    ensures
        c.wrapping_mul(MIX_MULTIPLIER) != 0,
{
    let m = MIX_MULTIPLIER as int;
    let inv = MIX_INVERSE as int;
    let range = 0x1_0000_0000_0000_0000int;
    let product = c as int * m;
    if product % range == 0 {
        let q = product / range;
        let j = 0xcf6_5b3f_17bf_4a6bint;
        assert(m * inv == 1 + j * range);
        assert(product == q * range);
        assert(c == range * (q * inv - c * j)) by (nonlinear_arith)
            requires
                product == c * m,
                product == q * range,
                m * inv == 1 + j * range,
        ;
        let k = q * inv - c * j;
        assert(false) by (nonlinear_arith)
            requires
                c == range * k,
                0 < c < range,
        ;
    }
}

/// The mixing step gives zero for zero only.
pub proof fn lemma_mix_not_zero(state: u64)
    requires
        state != 0,
    ensures
        mix(state) != 0,
{
    let a = state ^ (state >> 12u64);
    let b = a ^ (a << 25u64);
    let c = b ^ (b >> 27u64);
    assert(a != 0) by (bit_vector)
        requires
            state != 0,
            a == state ^ (state >> 12u64),
    ;
    assert(b != 0) by (bit_vector)
        requires
            a != 0,
            b == a ^ (a << 25u64),
    ;
    assert(c != 0) by (bit_vector)
        requires
            b != 0,
            c == b ^ (b >> 27u64),
    ;
    lemma_multiple_not_zero(c);
}

impl RandomPolicy {
    /// A policy that starts from the given seed.
    pub fn from_seed(seed: u64) -> (policy: Self)
        ensures
            policy.seed == seed,
    {
        RandomPolicy { seed }
    }

    /// The way that a policy with this seed picks among `ways` ways: the
    /// low `log2(ways)` bits of the seed.
    pub open spec fn pick(seed: u64, ways: usize) -> usize {
        (seed % (ways as u64)) as usize
    }

    /// The seed after a pick among `ways` ways. A seed other than zero
    /// loses its low `log2(ways)` bits. A seed of zero has run out: the
    /// mixing step makes a new one, which is not zero.
    pub open spec fn consume(seed: u64, ways: usize) -> u64 {
        if seed == 0 {
            mix(RESEED)
        } else {
            seed / (ways as u64)
        }
    }

    /// Among a number of ways that is a power of two, the pick is the seed
    /// under the mask `ways - 1`, and a seed other than zero is then
    /// shifted right by `log2(ways)` bits.
    pub proof fn lemma_pick_and_consume_are_bitwise(seed: u64, ways: usize)
        requires
            power_of_two(ways),
        ensures
            Self::pick(seed, ways) == seed & ((ways - 1) as u64),
            Self::pick(seed, ways) < ways,
            seed != 0 ==> Self::consume(seed, ways) == seed >> (log2(ways) as u64),
    {
        lemma_pow2_log2(ways);
        lemma_u64_low_bits_mask_is_mod(seed, log2(ways));
        assert(low_bits_mask(log2(ways)) == ways - 1);
        lemma_u64_shr_is_div(seed, log2(ways) as u64);
    }
}

/// Nanoseconds on the system clock, from `std::time::SystemTime::elapsed` on
/// `UNIX_EPOCH`, cut to 64 bits. The value differs from call to call, so the
/// contract claims nothing of it.
#[verifier::external_body]
fn clock_nanos() -> u64 {
    std::time::UNIX_EPOCH.elapsed().unwrap_or_default().as_nanos() as u64
}

impl Default for RandomPolicy {
    /// A policy seeded from the clock. Use `from_seed` for a run that can be
    /// repeated.
    fn default() -> Self {
        RandomPolicy { seed: clock_nanos() }
    }
}

impl<const NWAY: usize> ReplacementPolicy<NWAY> for RandomPolicy {
    open spec fn victim(&self, set: Seq<CacheTag>) -> usize {
        Self::pick(self.seed, NWAY)
    }

    open spec fn next(&self, set: Seq<CacheTag>) -> Self {
        RandomPolicy { seed: Self::consume(self.seed, NWAY) }
    }

    /// Pick the way that the low bits of the seed name, and consume them.
    /// A seed of zero names way 0 and is then made anew, so that the policy
    /// does not stay at zero.
    fn replace(&mut self, set: &[CacheTag; NWAY]) -> (way: usize)
        ensures
            way == Self::pick(old(self).seed, NWAY),
            final(self).seed == Self::consume(old(self).seed, NWAY),
            old(self).seed == 0 ==> way == 0 && final(self).seed != 0,
    {
        let ways = NWAY as u64;
        proof {
            Self::lemma_pick_and_consume_are_bitwise(self.seed, NWAY);
            lemma_mix_not_zero(RESEED);
            assert(0u64 % ways == 0) by (nonlinear_arith)
                requires
                    ways > 0,
            ;
        }
        let res = self.seed & (ways - 1);
        if self.seed == 0 {
            self.seed = mixed(RESEED);
        } else {
            self.seed = self.seed / ways;
        }
        res as usize
    }
}

/// A set-associative cache of `NSET` sets of `NWAY` ways, each way a line of
/// `NBYTES` bytes, with replacement policy `P`.
///
/// The cache models what is held and what is evicted, not how long anything
/// takes. It never reads or writes the memory behind it: after a miss the
/// caller fetches the line and hands it to `fill`.
pub struct SetAssocCache<const NBYTES: usize, const NSET: usize, const NWAY: usize, P> where
    P: ReplacementPolicy<NWAY>,
 {
    /// Tag storage, by set and way.
    tags: [[CacheTag; NWAY]; NSET],
    /// Line storage, by set and way.
    sets: [[CacheLine<NBYTES>; NWAY]; NSET],
    /// The state of the replacement policy.
    _policy: P,
}

impl<const NBYTES: usize, const NSET: usize, const NWAY: usize, P> View for SetAssocCache<
    NBYTES,
    NSET,
    NWAY,
    P,
> where P: ReplacementPolicy<NWAY> {
    type V = CacheModel;

    closed spec fn view(&self) -> CacheModel {
        CacheModel {
            line_bytes: NBYTES,
            num_sets: NSET,
            num_ways: NWAY,
            tags: Seq::new(NSET as nat, |s: int| self.tags@[s]@),
            lines: Seq::new(
                NSET as nat,
                |s: int| Seq::new(NWAY as nat, |w: int| self.sets@[s]@[w].data@),
            ),
        }
    }
}

impl<const NBYTES: usize, const NSET: usize, const NWAY: usize, P> SetAssocCache<
    NBYTES,
    NSET,
    NWAY,
    P,
> where P: ReplacementPolicy<NWAY> {
    /// Line size, set count and way count are each a power of two.
    pub open spec fn valid_geometry() -> bool {
        &&& power_of_two(NBYTES)
        &&& power_of_two(NSET)
        &&& power_of_two(NWAY)
    }

    /// The state of the replacement policy.
    pub closed spec fn policy(&self) -> P {
        self._policy
    }

    /// The invariant of the cache: its model has the geometry of the type
    /// and is well formed.
    pub open spec fn wf(&self) -> bool {
        &&& self@.line_bytes == NBYTES
        &&& self@.num_sets == NSET
        &&& self@.num_ways == NWAY
        &&& self@.wf()
    }

    /// The way that the policy gives up if it is asked on behalf of `addr`:
    /// what it picks when shown the tags of the set of `addr`.
    pub open spec fn victim(&self, addr: usize) -> usize {
        self.policy().victim(self@.tags[self@.set_index(addr)])
    }

    /// The state of the policy once it was asked on behalf of `addr`.
    pub open spec fn policy_after(&self, addr: usize) -> P {
        self.policy().next(self@.tags[self@.set_index(addr)])
    }

    /// Whether the geometry of this type is one that a cache can have.
    pub fn check_geometry() -> (ok: bool)
        ensures
            ok == Self::valid_geometry(),
    {
        is_power_of_two(NBYTES) && is_power_of_two(NSET) && is_power_of_two(NWAY)
    }

    /// An empty cache with a policy in its default state.
    pub fn new() -> (cache: Self)
        requires
            Self::valid_geometry(),
        ensures
            cache.wf(),
            cache@ == CacheModel::empty(NBYTES, NSET, NWAY),
    {
        Self::with_policy(P::default())
    }

    /// An empty cache with the given policy.
    pub fn with_policy(policy: P) -> (cache: Self)
        requires
            Self::valid_geometry(),
        ensures
            cache.wf(),
            cache@ == CacheModel::empty(NBYTES, NSET, NWAY),
            cache.policy() == policy,
    {
        let tag = CacheTag::default();
        let line: CacheLine<NBYTES> = CacheLine::default();
        let cache = Self { tags: [[tag;NWAY];NSET], sets: [[line;NWAY];NSET], _policy: policy };
        assert(cache@ =~~= CacheModel::empty(NBYTES, NSET, NWAY));
        cache
    }

    /// The byte offset of `addr` inside its line.
    pub fn get_offset_bits(addr: usize) -> (offset: usize)
        requires
            Self::valid_geometry(),
        ensures
            offset == offset_of(addr, NBYTES),
            offset < NBYTES,
    {
        proof {
            lemma_mask_is_mod(addr, NBYTES);
        }
        addr & (NBYTES - 1)
    }

    /// The index of the set that `addr` maps to.
    pub fn get_set_bits(addr: usize) -> (set: usize)
        requires
            Self::valid_geometry(),
        ensures
            set == set_of(addr, NBYTES, NSET),
            set < NSET,
    {
        proof {
            lemma_pow2_log2(NBYTES);
            lemma_mask_is_mod(addr / NBYTES, NSET);
        }
        (addr / NBYTES) & (NSET - 1)
    }

    /// The tag bits of `addr`.
    pub fn get_tag_bits(addr: usize) -> (tag: usize)
        requires
            Self::valid_geometry(),
        ensures
            tag == tag_of(addr, NBYTES, NSET),
    {
        proof {
            lemma_pow2_log2(NBYTES);
            lemma_pow2_log2(NSET);
        }
        addr / NBYTES / NSET
    }

    /// Find the slot that holds the line of `addr`: its set and way.
    pub fn lookup(&self, addr: usize) -> (hit: Option<(usize, usize)>)
        requires
            self.wf(),
        ensures
            self@.lookup(addr) == match hit {
                Some((set, way)) => Some((set as int, way as int)),
                None => None::<(int, int)>,
            },
            hit matches Some((set, way)) ==> set < NSET && way < NWAY,
    {
        let set = Self::get_set_bits(addr);
        let tag = Self::get_tag_bits(addr);
        let mut way: usize = 0;
        while way < NWAY
            invariant
                way <= NWAY,
                set < NSET,
                set == self@.set_index(addr),
                tag == self@.tag_bits(addr),
                forall|j: int| 0 <= j < way ==> !self@.holds(set as int, j, tag),
            decreases NWAY - way,
        {
            let entry = &self.tags[set][way];
            if entry.valid && entry.tag == tag {
                assert(self@.is_hit_way(addr, way as int));
                return Some((set, way));
            }
            way += 1;
        }
        None
    }

    /// Find the first empty way of `set`.
    fn find_invalid(&self, set: usize) -> (free: Option<usize>)
        requires
            self.wf(),
            set < NSET,
        ensures
            self@.free_way(set as int) == match free {
                Some(way) => Some(way as int),
                None => None::<int>,
            },
            free matches Some(way) ==> way < NWAY,
            free is None ==> forall|w: int| 0 <= w < NWAY ==> (#[trigger] self@.tags[set as int][w]).valid,
    {
        let mut way: usize = 0;
        while way < NWAY
            invariant
                way <= NWAY,
                set < NSET,
                forall|j: int| 0 <= j < way ==> (#[trigger] self@.tags[set as int][j]).valid,
            decreases NWAY - way,
        {
            if !self.tags[set][way].valid {
                assert(self@.is_free_way(set as int, way as int));
                return Some(way);
            }
            way += 1;
        }
        None
    }

    /// Read the line of `addr` from the cache: a copy of the line on a hit,
    /// `None` on a miss. The cache stays as it is.
    pub fn read(&self, addr: usize) -> (line: Option<CacheLine<NBYTES>>)
        requires
            self.wf(),
        ensures
            self@.read(addr) == match line {
                Some(l) => Some(l.data@),
                None => None::<Seq<u8>>,
            },
    {
        match self.lookup(addr) {
            Some((set, way)) => Some(self.sets[set][way]),
            None => None,
        }
    }

    /// Put a line into one slot, whatever the slot held.
    fn install(&mut self, set: usize, way: usize, tag: usize, data: &[u8; NBYTES])
        requires
            old(self).wf(),
            set < NSET,
            way < NWAY,
            forall|w: int| 0 <= w < NWAY && w != way ==> !old(self)@.holds(set as int, w, tag),
        ensures
            final(self).wf(),
            final(self)@ == old(self)@.install(set as int, way as int, tag, data@),
            final(self).policy() == old(self).policy(),
    {
        proof {
            self@.lemma_install_wf(set as int, way as int, tag, data@);
        }
        self.tags[set][way] = CacheTag { valid: true, dirty: false, tag };
        self.sets[set][way].fill(data);
        assert(self@ =~~= old(self)@.install(set as int, way as int, tag, data@));
    }

    /// Put the line `data` of `addr` into the cache.
    ///
    /// If the cache holds the line already, nothing changes: the bytes that
    /// are there stay. Otherwise the line takes the first empty way of its
    /// set. If the set has none, the policy is shown the tags of the set and
    /// names a way, and what that way held is dropped. The policy is asked
    /// in that case only, and once.
    pub fn fill(&mut self, addr: usize, data: &[u8; NBYTES])
        requires
            old(self).wf(),
        ensures
            final(self).wf(),
            final(self)@ == old(self)@.fill(addr, data@, old(self).victim(addr) as int),
            old(self)@.must_evict(addr) ==> old(self).victim(addr) < NWAY,
            final(self).policy() == if old(self)@.must_evict(addr) {
                old(self).policy_after(addr)
            } else {
                old(self).policy()
            },
    {
        if self.lookup(addr).is_some() {
            return;
        }
        let set = Self::get_set_bits(addr);
        let tag = Self::get_tag_bits(addr);
        proof {
            self@.lemma_miss(addr);
            assert(set == self@.set_index(addr) && tag == self@.tag_bits(addr));
        }
        match self.find_invalid(set) {
            Some(way) => {
                self.install(set, way, tag, data);
            },
            None => {
                assert(self.tags[set as int]@ == self@.tags[set as int]);
                let way = self._policy.replace(&self.tags[set]);
                self.install(set, way, tag, data);
            },
        }
    }

    /// Put the line `data` of `addr` into the cache, with `victim` as the
    /// way to give up if the set of `addr` is full.
    ///
    /// This is `fill` with the choice made by the caller. The policy of the
    /// cache is not asked and keeps its state.
    pub fn fill_with_victim(&mut self, addr: usize, data: &[u8; NBYTES], victim: usize)
        requires
            old(self).wf(),
            victim < NWAY,
        ensures
            final(self).wf(),
            final(self)@ == old(self)@.fill(addr, data@, victim as int),
            final(self).policy() == old(self).policy(),
    {
        if self.lookup(addr).is_some() {
            return;
        }
        let set = Self::get_set_bits(addr);
        let tag = Self::get_tag_bits(addr);
        proof {
            self@.lemma_miss(addr);
            assert(set == self@.set_index(addr) && tag == self@.tag_bits(addr));
        }
        let way = match self.find_invalid(set) {
            Some(way) => way,
            None => victim,
        };
        self.install(set, way, tag, data);
    }

    /// Drop the line of `addr` from the cache, if it is there. The bytes of
    /// its slot stay, out of reach.
    pub fn invalidate(&mut self, addr: usize)
        requires
            old(self).wf(),
        ensures
            final(self).wf(),
            final(self)@ == old(self)@.invalidate(addr),
            final(self).policy() == old(self).policy(),
    {
        if let Some((set, way)) = self.lookup(addr) {
            self.invalidate_entry(set, way);
        }
    }

    /// Empty one slot.
    fn invalidate_entry(&mut self, set: usize, way: usize)
        requires
            old(self).wf(),
            set < NSET,
            way < NWAY,
        ensures
            final(self).wf(),
            final(self)@ == old(self)@.invalidate_entry(set as int, way as int),
            final(self).policy() == old(self).policy(),
    {
        self.tags[set][way].invalidate();
        assert(self@ =~~= old(self)@.invalidate_entry(set as int, way as int));
    }

    /// Empty every slot of one set.
    pub fn invalidate_set(&mut self, set: usize)
        requires
            old(self).wf(),
            set < NSET,
        ensures
            final(self).wf(),
            final(self)@ == old(self)@.invalidate_set(set as int),
            final(self).policy() == old(self).policy(),
    {
        let mut way: usize = 0;
        while way < NWAY
            invariant
                way <= NWAY,
                set < NSET,
                self.sets == old(self).sets,
                self._policy == old(self)._policy,
                forall|s: int| 0 <= s < NSET && s != set ==> self.tags@[s] == old(self).tags@[s],
                forall|w: int| 0 <= w < way ==> self.tags@[set as int]@[w] == CacheTag::empty(),
                forall|w: int| way <= w < NWAY ==> self.tags@[set as int]@[w] == old(self).tags@[set as int]@[w],
            decreases NWAY - way,
        {
            self.tags[set][way].invalidate();
            way += 1;
        }
        assert(self@ =~~= old(self)@.invalidate_set(set as int));
    }

    /// Empty every slot of the cache.
    pub fn invalidate_cache(&mut self)
        requires
            old(self).wf(),
        ensures
            final(self).wf(),
            final(self)@ == old(self)@.invalidate_all(),
            final(self).policy() == old(self).policy(),
    {
        let mut set: usize = 0;
        while set < NSET
            invariant
                set <= NSET,
                self.wf(),
                self@.lines == old(self)@.lines,
                self.policy() == old(self).policy(),
                forall|s: int| 0 <= s < set ==> self@.tags[s] == old(self)@.invalidate_all().tags[s],
                forall|s: int| set <= s < NSET ==> self@.tags[s] == old(self)@.tags[s],
            decreases NSET - set,
        {
            self.invalidate_set(set);
            set += 1;
        }
        assert(self@ =~~= old(self)@.invalidate_all());
    }
}

} // verus!
