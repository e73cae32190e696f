//! The bus: guards every access against the DRAM window.
use vstd::prelude::*;

use crate::dram::{
    index_of, le_load, le_store, load_width_message, store_width_message, valid_width, Dram,
};
use crate::interrupt::{is_dbus, ExceptionInterrupt, Interrupt, Result};
use crate::text::{address_text, append_address};
use crate::virt::{MemRegion, DRAM_BASE};

verus! {

/// `addr` lies in `[base, base + size)`.
pub open spec fn in_region(addr: u32, region: MemRegion) -> bool {
    region.base <= addr < region.base + region.size
}

/// A `width`-bit access at `addr` is served by a store of `len` bytes: the
/// address lies in the window and, for a width memory serves, so does the
/// access's last byte.
pub open spec fn access_ok(len: nat, addr: u32, width: u32) -> bool {
    DRAM_BASE <= addr < DRAM_BASE + len && (valid_width(width) ==> index_of(addr) + width / 8 <= len)
}

/// What a bus load of a served width gives on memory `mem`.
pub open spec fn bus_load(mem: Seq<u8>, addr: u32, width: u32) -> Result<u32> {
    if access_ok(mem.len(), addr, width) {
        Ok(le_load(mem, index_of(addr), width))
    } else {
        Err(Interrupt::Exception(ExceptionInterrupt::ADDRL(addr)))
    }
}

/// What a bus store of a served width does to memory `mem`.
pub open spec fn bus_store(mem: Seq<u8>, addr: u32, width: u32, value: u32) -> Result<Seq<u8>> {
    if access_ok(mem.len(), addr, width) {
        Ok(le_store(mem, index_of(addr), width, value))
    } else {
        Err(Interrupt::Exception(ExceptionInterrupt::ADDRS(addr)))
    }
}

/// Message of an access to an address outside the window.
pub open spec fn invalid_address_message(addr: nat) -> Seq<char> {
    "Invalid memory address: "@ + address_text(addr)
}

/// The address that `dram_splice` reports when it refuses a block of `n`
/// bytes at window offset `offset` in a store of `len` bytes: the block's
/// first address when that lies outside the window, else the address just
/// past the block.
pub open spec fn splice_fault_addr(offset: u32, n: nat, len: nat) -> nat {
    if offset < len {
        let past = DRAM_BASE + offset + n;
        if past > u64::MAX {
            u64::MAX as nat
        } else {
            past as nat
        }
    } else {
        (DRAM_BASE + offset) as nat
    }
}

/// The system bus; DRAM is its only device.
#[derive(Debug, Clone)]
pub struct Bus {
    pub dram: Dram,
}

impl Default for Bus {
    /// A bus over a zero-filled store of `DRAM_SIZE` bytes.
    fn default() -> (r: Self)
        ensures
            r.dram.dram@ == Seq::new(crate::dram::DRAM_SIZE as nat, |i: int| 0u8),
    {
        Bus { dram: Dram::default() }
    }
}

impl Bus {
    pub open spec fn wf(&self) -> bool {
        self.dram.wf()
    }

    /// The bytes of memory; index `i` holds address `DRAM_BASE + i`.
    pub open spec fn mem(&self) -> Seq<u8> {
        self.dram.dram@
    }

    /// The DRAM window, sized by the store.
    fn window(&self) -> (r: MemRegion)
        requires
            self.wf(),
        ensures
            r.base == DRAM_BASE,
            r.size == self.mem().len(),
    {
        MemRegion { base: DRAM_BASE, size: self.dram.size() }
    }

    /// Loads `size` bits at `addr`. An access outside the window, or one that
    /// runs past its end, fails with `ADDRL(addr)`; a width other than 8, 16
    /// or 32 fails with `DBUS`.
    pub fn load(&self, addr: u32, size: u32) -> (r: Result<u32>)
        requires
            self.wf(),
        ensures
            !access_ok(self.mem().len(), addr, size) ==> r == Err::<u32, Interrupt>(
                Interrupt::Exception(ExceptionInterrupt::ADDRL(addr)),
            ),
            valid_width(size) ==> r == bus_load(self.mem(), addr, size),
            access_ok(self.mem().len(), addr, size) && !valid_width(size) ==> is_dbus(
                r,
                load_width_message(size),
            ),
    {
        match Bus::ensure_valid_address(addr, self.window()) {
            Ok(_) => {
                if self.fits(addr, size) {
                    self.dram.load(addr, size)
                } else {
                    Err(Interrupt::Exception(ExceptionInterrupt::ADDRL(addr)))
                }
            },
            Err(_) => Err(Interrupt::Exception(ExceptionInterrupt::ADDRL(addr))),
        }
    }

    /// Stores the low `size` bits of `value` at `addr`. An access outside the
    /// window, or one that runs past its end, fails with `ADDRS(addr)`; a width
    /// other than 8, 16 or 32 fails with `DBUS`. On failure memory is unchanged.
    pub fn store(&mut self, addr: u32, size: u32, value: u32) -> (r: Result<()>)
        requires
            old(self).wf(),
        ensures
            final(self).wf(),
            !access_ok(old(self).mem().len(), addr, size) ==> r == Err::<(), Interrupt>(
                Interrupt::Exception(ExceptionInterrupt::ADDRS(addr)),
            ),
            valid_width(size) ==> match bus_store(old(self).mem(), addr, size, value) {
                Ok(m) => r == Ok::<(), Interrupt>(()) && final(self).mem() == m,
                Err(e) => r == Err::<(), Interrupt>(e) && final(self).mem() == old(self).mem(),
            },
            access_ok(old(self).mem().len(), addr, size) && !valid_width(size) ==> is_dbus(
                r,
                store_width_message(size),
            ),
            r is Err ==> final(self).mem() == old(self).mem(),
    {
        match Bus::ensure_valid_address(addr, self.window()) {
            Ok(_) => {
                if self.fits(addr, size) {
                    self.dram.store(addr, size, value)
                } else {
                    Err(Interrupt::Exception(ExceptionInterrupt::ADDRS(addr)))
                }
            },
            Err(_) => Err(Interrupt::Exception(ExceptionInterrupt::ADDRS(addr))),
        }
    }

    /// Overwrites memory from window offset `offset` with `code`. Both the
    /// first address and the one just past the last written byte must lie in
    /// the window; otherwise the call fails with `DBUS` and changes nothing.
    pub fn dram_splice(&mut self, offset: u32, code: Vec<u8>) -> (r: Result<()>)
        requires
            old(self).wf(),
        ensures
            final(self).wf(),
            r is Ok <==> offset + code@.len() < old(self).mem().len(),
            r is Ok ==> final(self).mem() == old(self).mem().subrange(0, offset as int) + code@
                + old(self).mem().subrange(offset + code@.len(), old(self).mem().len() as int),
            r is Err ==> is_dbus(
                r,
                invalid_address_message(splice_fault_addr(offset, code@.len(), old(self).mem().len())),
            ) && final(self).mem() == old(self).mem(),
    {
        let len = self.dram.dram.len();
        if code.len() >= len || offset as usize >= len - code.len() {
            let first = DRAM_BASE as u64 + offset as u64;
            let bad = if (offset as usize) < len {
                first.saturating_add(code.len() as u64)
            } else {
                first
            };
            return Err(Bus::address_fault(bad));
        }
        let start = offset as usize;
        let mut k: usize = 0;
        while k < code.len()
            invariant
                self.wf(),
                start + code@.len() < self.mem().len(),
                self.mem().len() == old(self).mem().len(),
                k <= code@.len(),
                forall|i: int| 0 <= i < start ==> self.mem()[i] == old(self).mem()[i],
                forall|i: int| 0 <= i < k ==> self.mem()[start + i] == code@[i],
                forall|i: int|
                    start + k <= i < self.mem().len() ==> self.mem()[i] == old(self).mem()[i],
            decreases code@.len() - k,
        {
            self.dram.dram.set(start + k, code[k]);
            k = k + 1;
        }
        assert(self.mem() =~= old(self).mem().subrange(0, offset as int) + code@ + old(
            self,
        ).mem().subrange(offset + code@.len(), old(self).mem().len() as int));
        Ok(())
    }

    /// Whether a `size`-bit access at a window address ends inside the window.
    fn fits(&self, addr: u32, size: u32) -> (r: bool)
        requires
            self.wf(),
            DRAM_BASE <= addr < DRAM_BASE + self.mem().len(),
        ensures
            r == (valid_width(size) ==> index_of(addr) + size / 8 <= self.mem().len()),
    {
        if size == 8 || size == 16 || size == 32 {
            (addr - DRAM_BASE) as usize + (size / 8) as usize <= self.dram.dram.len()
        } else {
            true
        }
    }

    /// Succeeds exactly when `addr` lies in `region`; fails with `DBUS` otherwise.
    fn ensure_valid_address(addr: u32, region: MemRegion) -> (r: Result<()>)
        ensures
            r is Ok <==> in_region(addr, region),
            r is Err ==> is_dbus(r, invalid_address_message(addr as nat)),
    {
        let start = region.base as u64;
        let end = start + region.size as u64;
        if addr as u64 >= start && (addr as u64) < end {
            return Ok(());
        }
        Err(Bus::address_fault(addr as u64))
    }

    /// The bus error that reports an address outside the window.
    fn address_fault(addr: u64) -> (r: Interrupt)
        ensures
            is_dbus(Err::<(), Interrupt>(r), invalid_address_message(addr as nat)),
    {
        let mut msg = String::from_str("Invalid memory address: ");
        append_address(&mut msg, addr);
        Interrupt::Exception(ExceptionInterrupt::DBUS(msg))
    }
}

} // verus!
