//! Memory devices: a flat random-access memory and the cache in front of it.

use vstd::prelude::*;

pub mod cache;
pub mod geometry;
pub mod laws;
pub mod model;

verus! {

/// A flat random-access memory of `SIZE` bytes.
pub struct NaiveRAM<const SIZE: usize> {
    data: Vec<u8>,
}

impl<const SIZE: usize> View for NaiveRAM<SIZE> {
    type V = Seq<u8>;

    /// The bytes of the memory, by address.
    closed spec fn view(&self) -> Seq<u8> {
        self.data@
    }
}

impl<const SIZE: usize> NaiveRAM<SIZE> {
    /// The invariant of the memory: it holds `SIZE` bytes.
    pub open spec fn wf(&self) -> bool {
        self@.len() == SIZE
    }

    /// A memory of zeroes.
    pub fn new() -> (ram: Self)
        ensures
            ram.wf(),
            ram@ == Seq::new(SIZE as nat, |i: int| 0u8),
    {
        let ram = Self { data: vec![0u8; SIZE] };
        assert(ram@ =~= Seq::new(SIZE as nat, |i: int| 0u8));
        ram
    }

    /// Copy bytes out of the memory, from `off` on, until `dst` is full.
    pub fn read_bytes(&self, off: usize, dst: &mut [u8])
        requires
            self.wf(),
            off + old(dst)@.len() <= SIZE,
        ensures
            final(dst)@ == self@.subrange(off as int, off + old(dst)@.len()),
    {
        let n = dst.len();
        let mut i: usize = 0;
        while i < n
            invariant
                self.wf(),
                n == dst@.len(),
                n == old(dst)@.len(),
                off + n <= SIZE,
                i <= n,
                forall|j: int| 0 <= j < i ==> dst@[j] == self@[off + j],
            decreases n - i,
        {
            dst[i] = self.data[off + i];
            i += 1;
        }
        assert(dst@ =~= self@.subrange(off as int, off + n));
    }

    /// Copy the bytes of `src` into the memory, from `off` on.
    pub fn write_bytes(&mut self, off: usize, src: &[u8])
        requires
            old(self).wf(),
            off + src@.len() <= SIZE,
        ensures
            final(self).wf(),
            final(self)@ == old(self)@.subrange(0, off as int) + src@ + old(self)@.subrange(
                off + src@.len(),
                SIZE as int,
            ),
    {
        let n = src.len();
        let mut i: usize = 0;
        while i < n
            invariant
                n == src@.len(),
                off + n <= SIZE,
                i <= n,
                self.wf(),
                old(self).wf(),
                self@ == old(self)@.subrange(0, off as int) + src@.subrange(0, i as int) + old(
                    self,
                )@.subrange(off + i, SIZE as int),
            decreases n - i,
        {
            self.data[off + i] = src[i];
            i += 1;
        }
    }
}

} // verus!
