//! 64 KiB of byte-addressable memory. Every address is 16 bits wide, so
//! address arithmetic wraps modulo 2^16 by construction; a block store
//! that runs past the top of memory continues at address 0.

use vstd::prelude::*;

verus! {

pub const MEMORY_SIZE: usize = 65536;

/// A 16-bit address advanced by an offset, wrapping modulo 2^16.
pub open spec fn wrap_addr(addr: u16, off: int) -> u16 {
    ((addr + off) % 0x10000) as u16
}

/// The memory contents after a block of bytes is stored starting at
/// `addr`, one byte per address, wrapping past the top of memory.
pub open spec fn spec_store_block(m: Seq<u8>, addr: u16, data: Seq<u8>) -> Seq<u8>
    decreases data.len(),
{
    if data.len() == 0 {
        m
    } else {
        spec_store_block(m.update(addr as int, data[0]), wrap_addr(addr, 1), data.skip(1))
    }
}

/// Advancing an already wrapped address wraps once more.
pub proof fn lemma_wrap_shift(addr: u16, a: int, b: int)
    ensures
        wrap_addr(wrap_addr(addr, a), b) == wrap_addr(addr, a + b),
{
    let m = 0x10000int;
    let x = addr + a;
    vstd::arithmetic::div_mod::lemma_mod_bound(x, m);
    vstd::arithmetic::div_mod::lemma_add_mod_noop(x, b, m);
    vstd::arithmetic::div_mod::lemma_add_mod_noop(x % m, b, m);
    vstd::arithmetic::div_mod::lemma_mod_twice(x, m);
}

/// Storing one more byte extends the stored prefix at the wrapped
/// address one past it.
pub proof fn lemma_store_block_snoc(m: Seq<u8>, addr: u16, data: Seq<u8>, x: u8)
    ensures
        spec_store_block(m, addr, data.push(x)) == spec_store_block(m, addr, data).update(
            wrap_addr(addr, data.len() as int) as int,
            x,
        ),
    decreases data.len(),
{
    if data.len() == 0 {
        let p = data.push(x);
        assert(p.skip(1) =~= Seq::<u8>::empty());
        assert(p[0] == x);
        assert(spec_store_block(m, addr, p) == spec_store_block(
            m.update(addr as int, x),
            wrap_addr(addr, 1),
            Seq::<u8>::empty(),
        ));
        vstd::arithmetic::div_mod::lemma_small_mod(addr as nat, 0x10000);
        assert(wrap_addr(addr, 0) == addr);
    } else {
        assert(data.push(x)[0] == data[0]);
        assert(data.push(x).skip(1) =~= data.skip(1).push(x));
        lemma_store_block_snoc(m.update(addr as int, data[0]), wrap_addr(addr, 1), data.skip(1), x);
        lemma_wrap_shift(addr, 1, data.len() as int - 1);
        assert(wrap_addr(wrap_addr(addr, 1), data.skip(1).len() as int) == wrap_addr(
            addr,
            data.len() as int,
        ));
    }
}

/// Linear memory: a fixed array of 65,536 bytes.
pub struct Memory {
    data: Vec<u8>,
}

impl View for Memory {
    type V = Seq<u8>;

    closed spec fn view(&self) -> Seq<u8> {
        self.data@
    }
}

impl Memory {
    /// The size invariant: exactly 2^16 bytes.
    pub open spec fn wf(&self) -> bool {
        self@.len() == MEMORY_SIZE
    }

    /// Fresh memory, all bytes zero.
    pub fn new() -> (r: Memory)
        ensures
            r.wf(),
            forall|i: int| 0 <= i < MEMORY_SIZE ==> r@[i] == 0u8,
    {
        let mut data: Vec<u8> = Vec::new();
        while data.len() < MEMORY_SIZE
            invariant
                data@.len() <= MEMORY_SIZE,
                forall|i: int| 0 <= i < data@.len() ==> data@[i] == 0u8,
            decreases MEMORY_SIZE - data@.len(),
        {
            data.push(0);
        }
        Memory { data }
    }

    /// Writes one byte.
    pub fn set(&mut self, addr: u16, data: u8)
        requires
            old(self).wf(),
        ensures
            final(self).wf(),
            final(self)@ == old(self)@.update(addr as int, data),
    {
        self.data.set(addr as usize, data);
    }

    /// Reads one byte.
    pub fn get(&self, addr: u16) -> (r: u8)
        requires
            self.wf(),
        ensures
            r == self@[addr as int],
    {
        self.data[addr as usize]
    }

    /// Stores a block of bytes starting at `addr`, wrapping modulo
    /// 2^16 past the top of memory.
    pub fn set_block(&mut self, addr: u16, data: &[u8])
        requires
            old(self).wf(),
        ensures
            final(self).wf(),
            final(self)@ == spec_store_block(old(self)@, addr, data@),
    {
        let mut a = addr;
        let mut i: usize = 0;
        proof {
            vstd::arithmetic::div_mod::lemma_small_mod(addr as nat, 0x10000);
            assert(data@.subrange(0, 0) =~= Seq::<u8>::empty());
        }
        while i < data.len()
            invariant
                self.wf(),
                i <= data@.len(),
                a == wrap_addr(addr, i as int),
                self@ == spec_store_block(old(self)@, addr, data@.subrange(0, i as int)),
            decreases data@.len() - i,
        {
            self.set(a, data[i]);
            proof {
                lemma_store_block_snoc(old(self)@, addr, data@.subrange(0, i as int), data@[i as int]);
                assert(data@.subrange(0, i as int).push(data@[i as int]) =~= data@.subrange(
                    0,
                    i as int + 1,
                ));
                vstd::arithmetic::div_mod::lemma_add_mod_noop(
                    addr as int + i as int,
                    1int,
                    0x10000int,
                );
                vstd::arithmetic::div_mod::lemma_small_mod(1nat, 0x10000);
            }
            a = ((a as u32 + 1) % 0x10000) as u16;
            i = i + 1;
        }
        proof {
            assert(data@.subrange(0, data@.len() as int) =~= data@);
        }
    }

    /// The tail of memory from `addr` to the top, as a slice.
    pub fn get_to_end(&self, addr: u16) -> (r: &[u8])
        requires
            self.wf(),
        ensures
            r@ == self@.subrange(addr as int, MEMORY_SIZE as int),
    {
        vstd::slice::slice_subrange(self.data.as_slice(), addr as usize, MEMORY_SIZE)
    }
}

} // verus!
