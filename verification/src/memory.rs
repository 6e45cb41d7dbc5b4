//! The flat, bounds-checked address space.

use crate::chip8_errors::Chip8ErrorKind;
use crate::PROGRAM_START_ADDRESS;
use vstd::prelude::*;
use vstd::slice::slice_subrange;

verus! {

/// Number of addressable bytes.
pub const RAM_SIZE: usize = 4096;

/// The machine's memory. Its view is the sequence of its 4096 bytes.
pub struct Ram {
    memory: [u8; 4096],
}

impl View for Ram {
    type V = Seq<u8>;

    closed spec fn view(&self) -> Seq<u8> {
        self.memory@
    }
}

/// `mem` with every byte in `[start, end)` set to zero.
pub open spec fn zeroed(mem: Seq<u8>, start: int, end: int) -> Seq<u8> {
    Seq::new(mem.len(), |a: int| if start <= a < end { 0u8 } else { mem[a] })
}

/// The big-endian word made of two bytes.
pub open spec fn word(hi: u8, lo: u8) -> u16 {
    (hi as int * 256 + lo as int) as u16
}

/// How many of `count` consecutive addresses, taken upwards from `start`, lie
/// inside memory before the first one that does not.
pub open spec fn inside(start: int, count: int) -> int {
    if start >= RAM_SIZE {
        0
    } else if start + count <= RAM_SIZE {
        count
    } else {
        RAM_SIZE - start
    }
}

/// The `count` bytes that `mem` holds from `start` on.
pub open spec fn span(mem: Seq<u8>, start: int, count: int) -> Seq<u8> {
    Seq::new(count as nat, |k: int| mem[start + k])
}

/// `mem` with the first `k` bytes of `bytes` placed from `start`.
pub open spec fn stored(mem: Seq<u8>, start: int, bytes: Seq<u8>, k: int) -> Seq<u8> {
    Seq::new(mem.len(), |a: int| if start <= a < start + k { bytes[a - start] } else { mem[a] })
}

/// A byte that was written is the byte that is read back, and no other
/// byte changes.
pub proof fn law_read_after_write(mem: Seq<u8>, addr: u16, val: u8, other: u16)
    requires
        mem.len() == RAM_SIZE,
        addr < RAM_SIZE,
        other < RAM_SIZE,
    ensures
        mem.update(addr as int, val)[addr as int] == val,
        other != addr ==> mem.update(addr as int, val)[other as int] == mem[other as int],
{
}

impl Ram {
    /// The length of the view never changes.
    pub proof fn lemma_len(&self)
        ensures
            self@.len() == RAM_SIZE,
    {
    }

    pub fn new() -> (r: Ram)
        ensures
            r@ == Seq::new(RAM_SIZE as nat, |a: int| 0u8),
    {
        Self { memory: [0;4096] }
    }

    /// Clears the program region.
    pub fn reset(&mut self)
        ensures
            final(self)@ == zeroed(old(self)@, PROGRAM_START_ADDRESS as int, RAM_SIZE as int),
    {
        self.reset_range(PROGRAM_START_ADDRESS, RAM_SIZE);
    }

    /// Zeroes `[start, end)`; an empty or reversed range changes nothing.
    pub fn reset_range(&mut self, start: usize, end: usize)
        requires
            start < end ==> end <= RAM_SIZE,
        ensures
            final(self)@ == zeroed(old(self)@, start as int, end as int),
    {
        let mut i: usize = start;
        while i < end
            invariant
                start < end ==> end <= RAM_SIZE,
                start <= i,
                start < end ==> i <= end,
                start >= end ==> i == start,
                self@ == zeroed(old(self)@, start as int, i as int),
            decreases end - i,
        {
            self.memory[i] = 0;
            i += 1;
        }
        assert(self@ =~= zeroed(old(self)@, start as int, end as int));
    }

    pub fn read8(&self, addr: u16) -> (r: Result<u8, Chip8ErrorKind>)
        ensures
            addr < RAM_SIZE ==> r == Ok::<u8, Chip8ErrorKind>(self@[addr as int]),
            addr >= RAM_SIZE ==> r == Err::<u8, Chip8ErrorKind>(Chip8ErrorKind::SegmentationFault),
    {
        if addr >= RAM_SIZE as u16 {
            return Err(Chip8ErrorKind::SegmentationFault);
        }
        Ok(self.memory[addr as usize])
    }

    pub fn write8(&mut self, addr: u16, val: u8) -> (r: Result<(), Chip8ErrorKind>)
        ensures
            addr < RAM_SIZE ==> r == Ok::<(), Chip8ErrorKind>(()) && final(self)@ == old(
                self,
            )@.update(addr as int, val),
            addr >= RAM_SIZE ==> r == Err::<(), Chip8ErrorKind>(Chip8ErrorKind::SegmentationFault)
                && final(self)@ == old(self)@,
    {
        if addr >= RAM_SIZE as u16 {
            return Err(Chip8ErrorKind::SegmentationFault);
        }
        self.memory[addr as usize] = val;
        Ok(())
    }

    /// Reads the big-endian word at `addr` and `addr + 1`.
    pub fn read16(&self, addr: u16) -> (r: Result<u16, Chip8ErrorKind>)
        ensures
            addr + 1 < RAM_SIZE ==> r == Ok::<u16, Chip8ErrorKind>(
                word(self@[addr as int], self@[addr + 1]),
            ),
            addr + 1 >= RAM_SIZE ==> r == Err::<u16, Chip8ErrorKind>(
                Chip8ErrorKind::SegmentationFault,
            ),
    {
        let hi = self.read8(addr)? as u16;
        let lo = self.read8(addr + 1)? as u16;
        assert((hi << 8u16) | lo == hi * 256 + lo) by (bit_vector)
            requires
                hi < 256,
                lo < 256,
        ;
        Ok((hi << 8) | lo)
    }

    /// Writes `bytes` one after another from `start_addr`, and stops with an
    /// error at the first byte that falls outside memory; the bytes before it
    /// stay written.
    pub fn write_bytes(&mut self, start_addr: u16, bytes: &[u8]) -> (r: Result<(), Chip8ErrorKind>)
        ensures
            final(self)@ == stored(
                old(self)@,
                start_addr as int,
                bytes@,
                inside(start_addr as int, bytes@.len() as int),
            ),
            inside(start_addr as int, bytes@.len() as int) == bytes@.len() ==> r == Ok::<
                (),
                Chip8ErrorKind,
            >(()),
            inside(start_addr as int, bytes@.len() as int) < bytes@.len() ==> r == Err::<
                (),
                Chip8ErrorKind,
            >(Chip8ErrorKind::SegmentationFault),
    {
        let mut i: usize = 0;
        assert(self@ =~= stored(old(self)@, start_addr as int, bytes@, 0));
        while i < bytes.len()
            invariant
                i <= bytes@.len(),
                i == inside(start_addr as int, i as int),
                self@ == stored(old(self)@, start_addr as int, bytes@, i as int),
            decreases bytes@.len() - i,
        {
            let ghost before = self@;
            let addr: u16 = start_addr + i as u16;
            match self.write8(addr, bytes[i]) {
                Ok(()) => {},
                Err(e) => {
                    return Err(e);
                },
            }
            assert(self@ =~= stored(old(self)@, start_addr as int, bytes@, i + 1));
            i += 1;
        }
        Ok(())
    }

    /// Borrows the bytes in `[start_addr, end_addr)`. Both bounds must be
    /// addresses inside memory and the range must not be empty.
    pub fn read_bytes(&self, start_addr: u16, end_addr: u16) -> (r: Result<&[u8], Chip8ErrorKind>)
        ensures
            start_addr < end_addr < RAM_SIZE ==> r is Ok && r->Ok_0@ == self@.subrange(
                start_addr as int,
                end_addr as int,
            ),
            !(start_addr < end_addr < RAM_SIZE) ==> r == Err::<&[u8], Chip8ErrorKind>(
                Chip8ErrorKind::SegmentationFault,
            ),
    {
        let ram_size = RAM_SIZE as u16;
        if start_addr >= ram_size || end_addr >= ram_size || start_addr >= end_addr {
            return Err(Chip8ErrorKind::SegmentationFault);
        }
        Ok(slice_subrange(self.memory.as_slice(), start_addr as usize, end_addr as usize))
    }
}

} // verus!
