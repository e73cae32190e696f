//! The byte store behind the DRAM window.
use vstd::prelude::*;

use crate::interrupt::{is_dbus, ExceptionInterrupt, Interrupt, Result};
use crate::text::{append_digits, digits_text};
use crate::virt::DRAM_BASE;

verus! {

/// Size in bytes of a freshly made store: 128 MiB.
pub const DRAM_SIZE: usize = 0x0800_0000;

/// Largest store whose window still ends inside the 32-bit address space.
pub const DRAM_MAX: usize = 0x8000_0000;

/// Access widths, in bits, that memory serves.
pub open spec fn valid_width(width: u32) -> bool {
    width == 8 || width == 16 || width == 32
}

/// Byte `k` (0 = least significant) of a word.
pub open spec fn byte_of(v: u32, k: u32) -> u8 {
    ((v >> (8 * k)) & 0xff) as u8
}

/// The little-endian value of `width / 8` bytes of `mem` from index `i`.
pub open spec fn le_load(mem: Seq<u8>, i: int, width: u32) -> u32 {
    if width == 8 {
        mem[i] as u32
    } else if width == 16 {
        (mem[i] + 256 * mem[i + 1]) as u32
    } else {
        (mem[i] + 256 * mem[i + 1] + 65536 * mem[i + 2] + 16777216 * mem[i + 3]) as u32
    }
}

/// `mem` with the low `width / 8` bytes of `v` written little-endian from index `i`.
pub open spec fn le_store(mem: Seq<u8>, i: int, width: u32, v: u32) -> Seq<u8> {
    if width == 8 {
        mem.update(i, byte_of(v, 0))
    } else if width == 16 {
        mem.update(i, byte_of(v, 0)).update(i + 1, byte_of(v, 1))
    } else {
        mem.update(i, byte_of(v, 0)).update(i + 1, byte_of(v, 1)).update(i + 2, byte_of(v, 2)).update(
            i + 3,
            byte_of(v, 3),
        )
    }
}

/// Message of a load with a width memory does not serve.
pub open spec fn load_width_message(width: u32) -> Seq<char> {
    "Cannot load value of "@ + digits_text(width as nat, 10) + " bytes"@
}

/// Message of a store with a width memory does not serve.
pub open spec fn store_width_message(width: u32) -> Seq<char> {
    "Cannot store value of "@ + digits_text(width as nat, 10) + " bytes"@
}

/// The index in the store of a window address.
pub open spec fn index_of(addr: u32) -> int {
    addr - DRAM_BASE
}

/// The store behind the DRAM window: byte `i` holds address `DRAM_BASE + i`.
#[derive(Debug, Clone)]
pub struct Dram {
    pub dram: Vec<u8>,
}

impl Default for Dram {
    /// A zero-filled store of `DRAM_SIZE` bytes.
    fn default() -> (r: Self)
        ensures
            r.dram@ == Seq::new(DRAM_SIZE as nat, |i: int| 0u8),
    {
        let dram = vec![0u8; DRAM_SIZE];
        proof {
            assert forall|i: int| 0 <= i < DRAM_SIZE implies dram@[i] == 0u8 by {
                assert(cloned(0u8, dram@[i]));
            }
        }
        assert(dram@ =~= Seq::new(DRAM_SIZE as nat, |i: int| 0u8));
        Dram { dram }
    }
}

impl Dram {
    /// The store's window fits in the 32-bit address space.
    pub open spec fn wf(&self) -> bool {
        self.dram@.len() <= DRAM_MAX
    }

    /// The `width`-bit access at `addr` lies wholly inside the store.
    pub open spec fn in_bounds(&self, addr: u32, width: u32) -> bool {
        DRAM_BASE <= addr && index_of(addr) + width / 8 <= self.dram@.len()
    }

    /// A zero-filled store of `DRAM_SIZE` bytes that begins with `code`.
    pub fn new(code: Vec<u8>) -> (r: Dram)
        requires
            code@.len() <= DRAM_SIZE,
        ensures
            r.dram@.len() == DRAM_SIZE,
            forall|i: int| 0 <= i < code@.len() ==> r.dram@[i] == code@[i],
            forall|i: int| code@.len() <= i < DRAM_SIZE ==> r.dram@[i] == 0u8,
    {
        let mut d = Dram::default();
        let mut k: usize = 0;
        while k < code.len()
            invariant
                k <= code@.len() <= DRAM_SIZE,
                d.dram@.len() == DRAM_SIZE,
                forall|i: int| 0 <= i < k ==> d.dram@[i] == code@[i],
                forall|i: int| k <= i < DRAM_SIZE ==> d.dram@[i] == 0u8,
            decreases code@.len() - k,
        {
            d.dram.set(k, code[k]);
            k = k + 1;
        }
        d
    }

    /// The store's length in bytes.
    pub fn size(&self) -> (r: u32)
        requires
            self.wf(),
        ensures
            r == self.dram@.len(),
    {
        self.dram.len() as u32
    }

    /// Reads a little-endian value of `size` bits (8, 16 or 32) at `addr`,
    /// zero-extended; any other width is a bus error.
    pub fn load(&self, addr: u32, size: u32) -> (r: Result<u32>)
        requires
            valid_width(size) ==> self.in_bounds(addr, size),
        ensures
            valid_width(size) ==> r == Ok::<u32, Interrupt>(le_load(self.dram@, index_of(addr), size)),
            !valid_width(size) ==> is_dbus(r, load_width_message(size)),
    {
        match size {
            8 => Ok(self.load8(addr)),
            16 => Ok(self.load16(addr)),
            32 => Ok(self.load32(addr)),
            _ => {
                let mut msg = String::from_str("Cannot load value of ");
                append_digits(&mut msg, size as u64, 10);
                msg.append(" bytes");
                Err(Interrupt::Exception(ExceptionInterrupt::DBUS(msg)))
            },
        }
    }

    /// Writes the low `size` bits (8, 16 or 32) of `value` little-endian at
    /// `addr`; any other width is a bus error and changes nothing.
    pub fn store(&mut self, addr: u32, size: u32, value: u32) -> (r: Result<()>)
        requires
            valid_width(size) ==> old(self).in_bounds(addr, size),
        ensures
            valid_width(size) ==> r == Ok::<(), Interrupt>(()) && final(self).dram@ == le_store(
                old(self).dram@,
                index_of(addr),
                size,
                value,
            ),
            !valid_width(size) ==> is_dbus(r, store_width_message(size)) && final(self).dram@ == old(
                self,
            ).dram@,
    {
        match size {
            8 => Ok(self.store8(addr, value)),
            16 => Ok(self.store16(addr, value)),
            32 => Ok(self.store32(addr, value)),
            _ => {
                let mut msg = String::from_str("Cannot store value of ");
                append_digits(&mut msg, size as u64, 10);
                msg.append(" bytes");
                Err(Interrupt::Exception(ExceptionInterrupt::DBUS(msg)))
            },
        }
    }

    fn get_index(addr: u32) -> (r: usize)
        requires
            DRAM_BASE <= addr,
        ensures
            r == index_of(addr),
    {
        (addr - DRAM_BASE) as usize
    }

    fn load8(&self, addr: u32) -> (r: u32)
        requires
            self.in_bounds(addr, 8),
        ensures
            r == le_load(self.dram@, index_of(addr), 8),
    {
        let index = Dram::get_index(addr);
        self.dram[index] as u32
    }

    fn load16(&self, addr: u32) -> (r: u32)
        requires
            self.in_bounds(addr, 16),
        ensures
            r == le_load(self.dram@, index_of(addr), 16),
    {
        let index = Dram::get_index(addr);
        self.dram[index] as u32 + 256 * (self.dram[index + 1] as u32)
    }

    fn load32(&self, addr: u32) -> (r: u32)
        requires
            self.in_bounds(addr, 32),
        ensures
            r == le_load(self.dram@, index_of(addr), 32),
    {
        let index = Dram::get_index(addr);
        self.dram[index] as u32 + 256 * (self.dram[index + 1] as u32) + 65536 * (self.dram[index
            + 2] as u32) + 16777216 * (self.dram[index + 3] as u32)
    }

    fn store8(&mut self, addr: u32, value: u32)
        requires
            old(self).in_bounds(addr, 8),
        ensures
            final(self).dram@ == le_store(old(self).dram@, index_of(addr), 8, value),
    {
        let index = Dram::get_index(addr);
        self.dram.set(index, (value & 0xff) as u8);
        assert(value >> 0u32 == value) by (bit_vector);
    }

    fn store16(&mut self, addr: u32, value: u32)
        requires
            old(self).in_bounds(addr, 16),
        ensures
            final(self).dram@ == le_store(old(self).dram@, index_of(addr), 16, value),
    {
        let index = Dram::get_index(addr);
        self.dram.set(index, (value & 0xff) as u8);
        self.dram.set(index + 1, ((value >> 8) & 0xff) as u8);
        assert(value >> 0u32 == value) by (bit_vector);
    }

    fn store32(&mut self, addr: u32, value: u32)
        requires
            old(self).in_bounds(addr, 32),
        ensures
            final(self).dram@ == le_store(old(self).dram@, index_of(addr), 32, value),
    {
        let index = Dram::get_index(addr);
        self.dram.set(index, (value & 0xff) as u8);
        self.dram.set(index + 1, ((value >> 8) & 0xff) as u8);
        self.dram.set(index + 2, ((value >> 16) & 0xff) as u8);
        self.dram.set(index + 3, ((value >> 24) & 0xff) as u8);
        assert(value >> 0u32 == value) by (bit_vector);
    }
}

} // verus!
