//! Facts about the machine that hold for every state and instruction.
use vstd::prelude::*;

use crate::bus::{access_ok, bus_load, bus_store};
use crate::cpu::{
    eff_addr, exec_spec, funct, opcode, rd, reg, rs, rt, set_pc, set_reg, sign_ext_spec, step_spec,
    Machine,
};
use crate::dram::{byte_of, index_of, le_store};
use crate::interrupt::{ExceptionInterrupt, Interrupt};
use crate::virt::DRAM_BASE;

verus! {

/// The instruction changes the PC whatever the registers hold: `J`, `JAL`,
/// `JR` or `JALR`.
pub open spec fn is_jump(inst: u32) -> bool {
    opcode(inst) == 0x02 || opcode(inst) == 0x03 || (opcode(inst) == 0x00 && (funct(inst) == 0x08
        || funct(inst) == 0x09))
}

/// The instruction is a conditional branch whose condition holds in `m`.
pub open spec fn branch_taken(m: Machine, inst: u32) -> bool {
    let s = reg(m, rs(inst));
    let t = reg(m, rt(inst));
    let op = opcode(inst);
    (op == 0x04 && s == t) || (op == 0x05 && s != t) || (op == 0x06 && (s as i32) <= 0) || (op
        == 0x07 && (s as i32) > 0)
}

/// The word fetched at the PC of `m`.
pub open spec fn fetched(m: Machine) -> u32 {
    bus_load(m.mem, (m.pc + DRAM_BASE) as u32, 32)->Ok_0
}

/// A zero instruction word at the PC halts the machine cleanly and leaves
/// every register, the PC and memory as they were.
pub proof fn lemma_zero_word_halts(m: Machine)
    requires
        m.pc + 4 <= m.mem.len() <= 0x8000_0000,
        m.mem[m.pc as int] == 0,
        m.mem[m.pc + 1] == 0,
        m.mem[m.pc + 2] == 0,
        m.mem[m.pc + 3] == 0,
    ensures
        step_spec(m) == (Ok::<bool, Interrupt>(true), m),
{
}

/// Executing any instruction other than a jump or a taken branch leaves the
/// PC just past it: four more than before the step.
pub proof fn lemma_pc_advance(m: Machine)
    requires
        m.pc < m.mem.len() <= 0x8000_0000,
        bus_load(m.mem, (m.pc + DRAM_BASE) as u32, 32) is Ok,
        fetched(m) != 0,
        !is_jump(fetched(m)),
        !branch_taken(m, fetched(m)),
    ensures
        step_spec(m).1.pc == m.pc + 4,
{
    let w = fetched(m);
    let m1 = set_pc(m, (m.pc + 4) as u32);
    assert(reg(m1, rs(w)) == reg(m, rs(w)));
    assert(reg(m1, rt(w)) == reg(m, rt(w)));
}

/// A 32-bit store followed by a 32-bit load at the same address gives back
/// the value, and the byte loads at the four addresses give its bytes from
/// the least significant up.
pub proof fn lemma_store_load_word(mem: Seq<u8>, addr: u32, v: u32)
    requires
        mem.len() <= 0x8000_0000,
        access_ok(mem.len(), addr, 32),
    ensures
        bus_store(mem, addr, 32, v) == Ok::<Seq<u8>, Interrupt>(le_store(mem, index_of(addr), 32, v)),
        bus_load(le_store(mem, index_of(addr), 32, v), addr, 32) == Ok::<u32, Interrupt>(v),
        bus_load(le_store(mem, index_of(addr), 32, v), addr, 8) == Ok::<u32, Interrupt>(v & 0xff),
        bus_load(le_store(mem, index_of(addr), 32, v), (addr + 1) as u32, 8) == Ok::<u32, Interrupt>(
            (v >> 8u32) & 0xff,
        ),
        bus_load(le_store(mem, index_of(addr), 32, v), (addr + 2) as u32, 8) == Ok::<u32, Interrupt>(
            (v >> 16u32) & 0xff,
        ),
        bus_load(le_store(mem, index_of(addr), 32, v), (addr + 3) as u32, 8) == Ok::<u32, Interrupt>(
            (v >> 24u32) & 0xff,
        ),
{
    let b0 = v & 0xff;
    let b1 = (v >> 8u32) & 0xff;
    let b2 = (v >> 16u32) & 0xff;
    let b3 = (v >> 24u32) & 0xff;
    assert(v >> 0u32 == v) by (bit_vector);
    assert(v == b0 + 256 * b1 + 65536 * b2 + 16777216 * b3 && b0 < 256 && b1 < 256 && b2 < 256 && b3
        < 256) by (bit_vector)
        requires
            b0 == v & 0xff,
            b1 == (v >> 8u32) & 0xff,
            b2 == (v >> 16u32) & 0xff,
            b3 == (v >> 24u32) & 0xff,
    ;
    assert(byte_of(v, 1) as u32 == b1);
    assert(byte_of(v, 2) as u32 == b2);
    assert(byte_of(v, 3) as u32 == b3);
    assert((addr + 1) as u32 == addr + 1);
    assert((addr + 2) as u32 == addr + 2);
}

/// A signed byte load of 0x80 gives 0xFFFF_FF80 and an unsigned one 0x80; a
/// signed halfword load of 0x8000 gives 0xFFFF_8000 and an unsigned one 0x8000.
pub proof fn lemma_load_sign_extension(m: Machine, inst: u32)
    requires
        m.mem.len() <= 0x8000_0000,
        access_ok(m.mem.len(), eff_addr(m, inst), 16),
        m.mem[index_of(eff_addr(m, inst))] == 0x80 || m.mem[index_of(eff_addr(m, inst)) + 1] == 0x80,
    ensures
        m.mem[index_of(eff_addr(m, inst))] == 0x80 ==> {
            &&& opcode(inst) == 0x20 ==> exec_spec(m, inst) == Ok::<Machine, Interrupt>(
                set_reg(m, rt(inst), 0xFFFF_FF80),
            )
            &&& opcode(inst) == 0x24 ==> exec_spec(m, inst) == Ok::<Machine, Interrupt>(
                set_reg(m, rt(inst), 0x80),
            )
        },
        m.mem[index_of(eff_addr(m, inst))] == 0x00 && m.mem[index_of(eff_addr(m, inst)) + 1] == 0x80
            ==> {
            &&& opcode(inst) == 0x21 ==> exec_spec(m, inst) == Ok::<Machine, Interrupt>(
                set_reg(m, rt(inst), 0xFFFF_8000),
            )
            &&& opcode(inst) == 0x25 ==> exec_spec(m, inst) == Ok::<Machine, Interrupt>(
                set_reg(m, rt(inst), 0x8000),
            )
        },
{
    assert(0x80u32 & (1u32 << 7u32) != 0 && 0x80u32 | (0xffff_ffffu32 << 8u32) == 0xFFFF_FF80u32)
        by (bit_vector);
    assert(0x8000u32 & (1u32 << 15u32) != 0 && 0x8000u32 | (0xffff_ffffu32 << 16u32)
        == 0xFFFF_8000u32) by (bit_vector);
    assert((0xFFFF_FF80u32 as i32) as u32 == 0xFFFF_FF80u32 && (0xFFFF_8000u32 as i32) as u32
        == 0xFFFF_8000u32) by (bit_vector);
    assert(sign_ext_spec(0x80, 8) as u32 == 0xFFFF_FF80);
    assert(sign_ext_spec(0x8000, 16) as u32 == 0xFFFF_8000);
}

/// A checked `ADD` of `i32::MAX` and 1 overflows and changes nothing; the
/// wrapping `ADDU` of the same gives `i32::MIN`.
pub proof fn lemma_add_overflow(m: Machine, inst: u32)
    requires
        opcode(inst) == 0x00,
        reg(m, rs(inst)) == 0x7fff_ffff,
        reg(m, rt(inst)) == 1,
    ensures
        funct(inst) == 0x20 ==> exec_spec(m, inst) == Err::<Machine, Interrupt>(
            Interrupt::Exception(ExceptionInterrupt::OVF),
        ),
        funct(inst) == 0x21 ==> exec_spec(m, inst) == Ok::<Machine, Interrupt>(
            set_reg(m, rd(inst), 0x8000_0000),
        ),
{
}

/// A load or store whose effective address lies outside the DRAM window
/// fails with `ADDRL` or `ADDRS` of that address.
pub proof fn lemma_address_guard(m: Machine, inst: u32)
    requires
        !(DRAM_BASE <= eff_addr(m, inst) < DRAM_BASE + m.mem.len()),
    ensures
        opcode(inst) == 0x20 || opcode(inst) == 0x21 || opcode(inst) == 0x22 || opcode(inst) == 0x24
            || opcode(inst) == 0x25 ==> exec_spec(m, inst) == Err::<Machine, Interrupt>(
            Interrupt::Exception(ExceptionInterrupt::ADDRL(eff_addr(m, inst))),
        ),
        opcode(inst) == 0x28 || opcode(inst) == 0x29 || opcode(inst) == 0x2B ==> exec_spec(m, inst)
            == Err::<Machine, Interrupt>(
            Interrupt::Exception(ExceptionInterrupt::ADDRS(eff_addr(m, inst))),
        ),
{
}

/// `JR`, and `JALR` with distinct registers, to a target whose low two bits
/// are not both zero fail with `ALIGNMENT` of the target: the step leaves the
/// PC just past the jump and every register as it was.
pub proof fn lemma_misaligned_jump(m: Machine)
    requires
        m.pc < m.mem.len() <= 0x8000_0000,
        bus_load(m.mem, (m.pc + DRAM_BASE) as u32, 32) is Ok,
        opcode(fetched(m)) == 0x00,
        funct(fetched(m)) == 0x08 || (funct(fetched(m)) == 0x09 && rs(fetched(m)) != rd(fetched(m))),
        reg(m, rs(fetched(m))) & 3 != 0,
    ensures
        step_spec(m) == (
            Err::<bool, Interrupt>(
                Interrupt::Exception(ExceptionInterrupt::ALIGNMENT(reg(m, rs(fetched(m))))),
            ),
            set_pc(m, (m.pc + 4) as u32),
        ),
{
    let w = fetched(m);
    assert(w != 0) by {
        if w == 0 {
            assert((0u32 >> 26u32) & 0x3f == 0 && 0u32 & 0x3f == 0) by (bit_vector);
        }
    }
    assert(reg(set_pc(m, (m.pc + 4) as u32), rs(w)) == reg(m, rs(w)));
}

} // verus!
