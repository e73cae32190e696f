//! The processor: register file, program counter, HI/LO, and the
//! decode-and-execute of one instruction.
use vstd::prelude::*;

use crate::arch::Register;
use crate::bus::{bus_load, bus_store, Bus};
use crate::dram::DRAM_SIZE;
use crate::interrupt::{ExceptionInterrupt, Interrupt, Result, SoftwareInterrupt};
use crate::virt::DRAM_BASE;

verus! {

/// The state the processor exposes: registers, program counter (an offset
/// into the DRAM window), scratch, HI, LO, and memory.
pub struct Machine {
    pub regs: Seq<u32>,
    pub pc: u32,
    pub tmp: u32,
    pub hi: u32,
    pub lo: u32,
    pub mem: Seq<u8>,
}

/// `value` with bit `from - 1` copied into bits `from..32`, read as signed.
pub open spec fn sign_ext_spec(value: u32, from: u32) -> i32 {
    if from < 32 && value & (1u32 << ((from - 1) as u32)) != 0 {
        (value | (0xffff_ffffu32 << from)) as i32
    } else {
        value as i32
    }
}

pub open spec fn opcode(inst: u32) -> u32 {
    (inst >> 26u32) & 0x3f
}

pub open spec fn rs(inst: u32) -> u32 {
    (inst >> 21u32) & 0x1f
}

pub open spec fn rt(inst: u32) -> u32 {
    (inst >> 16u32) & 0x1f
}

pub open spec fn rd(inst: u32) -> u32 {
    (inst >> 11u32) & 0x1f
}

pub open spec fn shamt(inst: u32) -> u32 {
    (inst >> 6u32) & 0x1f
}

pub open spec fn funct(inst: u32) -> u32 {
    inst & 0x3f
}

pub open spec fn imm(inst: u32) -> u32 {
    inst & 0xffff
}

pub open spec fn target(inst: u32) -> u32 {
    inst & 0x3ff_ffff
}

/// The 16-bit immediate, sign-extended.
pub open spec fn simm(inst: u32) -> i32 {
    sign_ext_spec(imm(inst), 16)
}

/// Value of register `i`.
pub open spec fn reg(m: Machine, i: u32) -> u32 {
    m.regs[i as int]
}

/// `m` with register `i` set to `v`.
pub open spec fn set_reg(m: Machine, i: u32, v: u32) -> Machine {
    Machine { regs: m.regs.update(i as int, v), ..m }
}

/// `m` with the program counter set to `pc`.
pub open spec fn set_pc(m: Machine, pc: u32) -> Machine {
    Machine { pc, ..m }
}

/// Target of `J`/`JAL`, where `pc` is the PC already advanced past the jump:
/// the top 4 bits of `pc + 4`, then the 26-bit field shifted left by two.
pub open spec fn jump_target(pc: u32, inst: u32) -> u32 {
    (pc.wrapping_add(4) & 0xf000_0000) | (target(inst) << 2u32)
}

/// Target of a taken branch, where `pc` is the PC already advanced past the
/// branch: `pc + 4` plus the 16-bit offset times four, modulo 2^32.
pub open spec fn branch_target(pc: u32, inst: u32) -> u32 {
    pc.wrapping_add(4).wrapping_add_signed(sign_ext_spec(imm(inst) << 2u32, 18))
}

/// Effective address of a load or store: `rs` plus the signed immediate.
pub open spec fn eff_addr(m: Machine, inst: u32) -> u32 {
    reg(m, rs(inst)).wrapping_add_signed(simm(inst))
}

pub open spec fn abs(a: int) -> int {
    if a < 0 {
        -a
    } else {
        a
    }
}

/// Quotient rounded toward zero.
pub open spec fn trunc_div(a: int, b: int) -> int {
    if (a < 0) != (b < 0) {
        -(abs(a) / abs(b))
    } else {
        abs(a) / abs(b)
    }
}

/// Remainder of the quotient rounded toward zero; it has the sign of `a`.
pub open spec fn trunc_rem(a: int, b: int) -> int {
    if a < 0 {
        -(abs(a) % abs(b))
    } else {
        abs(a) % abs(b)
    }
}

pub open spec fn fits_i32(x: int) -> bool {
    i32::MIN <= x <= i32::MAX
}

pub open spec fn overflow() -> Interrupt {
    Interrupt::Exception(ExceptionInterrupt::OVF)
}

/// Checked signed sum into register `dst`.
pub open spec fn checked_sum(m: Machine, dst: u32, a: int, b: int) -> Result<Machine> {
    if fits_i32(a + b) {
        Ok(set_reg(m, dst, (a + b) as u32))
    } else {
        Err(overflow())
    }
}

pub open spec fn bit(c: bool) -> u32 {
    if c {
        1
    } else {
        0
    }
}

/// Loads `width` bits at the effective address into `rt`, sign-extended
/// when `signed`, zero-extended otherwise.
pub open spec fn load_spec(m: Machine, inst: u32, width: u32, signed: bool) -> Result<Machine> {
    match bus_load(m.mem, eff_addr(m, inst), width) {
        Ok(v) => Ok(set_reg(m, rt(inst), if signed { sign_ext_spec(v, width) as u32 } else { v })),
        Err(e) => Err(e),
    }
}

/// Stores the low `width` bits of `rt` at the effective address.
pub open spec fn store_spec(m: Machine, inst: u32, width: u32) -> Result<Machine> {
    match bus_store(m.mem, eff_addr(m, inst), width, reg(m, rt(inst))) {
        Ok(mem) => Ok(Machine { mem, ..m }),
        Err(e) => Err(e),
    }
}

/// Executes an R-type instruction (primary opcode zero), dispatched on `funct`.
pub open spec fn special_spec(m: Machine, inst: u32) -> Result<Machine> {
    let s = reg(m, rs(inst));
    let t = reg(m, rt(inst));
    let d = rd(inst);
    let f = funct(inst);
    if f == 0x00 {
        Ok(set_reg(m, d, t << shamt(inst)))
    } else if f == 0x02 {
        Ok(set_reg(m, d, t >> shamt(inst)))
    } else if f == 0x03 {
        Ok(set_reg(m, d, ((t as i32) >> shamt(inst)) as u32))
    } else if f == 0x04 {
        Ok(set_reg(m, d, t << (s & 31)))
    } else if f == 0x06 {
        Ok(set_reg(m, d, t >> (s & 31)))
    } else if f == 0x07 {
        Ok(set_reg(m, d, ((t as i32) >> (s & 31)) as u32))
    } else if f == 0x08 {
        if s & 3 != 0 {
            Err(Interrupt::Exception(ExceptionInterrupt::ALIGNMENT(s)))
        } else {
            Ok(set_pc(m, s))
        }
    } else if f == 0x09 {
        if rs(inst) == d {
            Err(Interrupt::Exception(ExceptionInterrupt::UNDEFINED))
        } else if s & 3 != 0 {
            Err(Interrupt::Exception(ExceptionInterrupt::ALIGNMENT(s)))
        } else {
            Ok(Machine { tmp: s, pc: s, ..set_reg(m, d, m.pc) })
        }
    } else if f == 0x0C {
        Err(Interrupt::Software(SoftwareInterrupt::SYSCALL))
    } else if f == 0x10 {
        Ok(set_reg(m, d, m.hi))
    } else if f == 0x11 {
        Ok(Machine { hi: s, ..m })
    } else if f == 0x12 {
        Ok(set_reg(m, d, m.lo))
    } else if f == 0x13 {
        Ok(Machine { lo: s, ..m })
    } else if f == 0x18 {
        let p = (s as i32) as int * (t as i32) as int;
        Ok(Machine { hi: ((p as i64) >> 32u64) as u32, lo: p as u32, ..m })
    } else if f == 0x19 {
        let p = s as int * t as int;
        Ok(Machine { hi: ((p as u64) >> 32u64) as u32, lo: p as u32, ..m })
    } else if f == 0x1A {
        if t == 0 {
            Err(Interrupt::Exception(ExceptionInterrupt::DIVZERO))
        } else {
            let a = (s as i32) as int;
            let b = (t as i32) as int;
            Ok(Machine { lo: trunc_div(a, b) as u32, hi: trunc_rem(a, b) as u32, ..m })
        }
    } else if f == 0x1B {
        if t == 0 {
            Err(Interrupt::Exception(ExceptionInterrupt::DIVZERO))
        } else {
            Ok(Machine { lo: s / t, hi: s % t, ..m })
        }
    } else if f == 0x20 {
        checked_sum(m, d, (s as i32) as int, (t as i32) as int)
    } else if f == 0x21 {
        Ok(set_reg(m, d, s.wrapping_add(t)))
    } else if f == 0x22 {
        checked_sum(m, d, (s as i32) as int, -((t as i32) as int))
    } else if f == 0x23 {
        Ok(set_reg(m, d, s.wrapping_sub(t)))
    } else if f == 0x24 {
        Ok(set_reg(m, d, s & t))
    } else if f == 0x25 {
        Ok(set_reg(m, d, s | t))
    } else if f == 0x26 {
        Ok(set_reg(m, d, s ^ t))
    } else if f == 0x27 {
        Ok(set_reg(m, d, !(s | t)))
    } else if f == 0x2A {
        Ok(set_reg(m, d, bit((s as i32) < (t as i32))))
    } else if f == 0x2B {
        Ok(set_reg(m, d, bit(s < t)))
    } else {
        Err(Interrupt::Exception(ExceptionInterrupt::UNSUPPORTED(inst)))
    }
}

/// Executes one instruction word on a machine whose PC already points past it.
pub open spec fn exec_spec(m: Machine, inst: u32) -> Result<Machine> {
    let op = opcode(inst);
    let s = reg(m, rs(inst));
    let t = reg(m, rt(inst));
    let dt = rt(inst);
    if op == 0x00 {
        special_spec(m, inst)
    } else if op == 0x02 {
        Ok(set_pc(m, jump_target(m.pc, inst)))
    } else if op == 0x03 {
        Ok(set_pc(set_reg(m, Register::RA as u32, m.pc), jump_target(m.pc, inst)))
    } else if 0x04 <= op <= 0x07 {
        let taken = if op == 0x04 {
            s == t
        } else if op == 0x05 {
            s != t
        } else if op == 0x06 {
            (s as i32) <= 0
        } else {
            (s as i32) > 0
        };
        Ok(if taken { set_pc(m, branch_target(m.pc, inst)) } else { m })
    } else if op == 0x08 {
        Ok(set_reg(m, dt, s.wrapping_add_signed(simm(inst))))
    } else if op == 0x09 {
        checked_sum(m, dt, (s as i32) as int, simm(inst) as int)
    } else if op == 0x0A {
        Ok(set_reg(m, dt, bit((s as i32) < simm(inst))))
    } else if op == 0x0B {
        Ok(set_reg(m, dt, bit(s < imm(inst))))
    } else if op == 0x0C {
        Ok(set_reg(m, dt, s & imm(inst)))
    } else if op == 0x0D {
        Ok(set_reg(m, dt, s | imm(inst)))
    } else if op == 0x0E {
        Ok(set_reg(m, dt, s ^ imm(inst)))
    } else if op == 0x0F {
        Ok(set_reg(m, dt, imm(inst) << 16u32))
    } else if op == 0x20 {
        load_spec(m, inst, 8, true)
    } else if op == 0x21 {
        load_spec(m, inst, 16, true)
    } else if op == 0x22 {
        load_spec(m, inst, 32, false)
    } else if op == 0x24 {
        load_spec(m, inst, 8, false)
    } else if op == 0x25 {
        load_spec(m, inst, 16, false)
    } else if op == 0x28 {
        store_spec(m, inst, 8)
    } else if op == 0x29 {
        store_spec(m, inst, 16)
    } else if op == 0x2B {
        store_spec(m, inst, 32)
    } else {
        Err(Interrupt::Exception(ExceptionInterrupt::UNSUPPORTED(inst)))
    }
}

/// `post` and `r` are what executing with result `spec` gives from `pre`:
/// on success the new machine, on failure the error and `pre` unchanged.
pub open spec fn outcome(pre: Machine, post: Machine, r: Result<()>, spec: Result<Machine>) -> bool {
    match spec {
        Ok(m) => r == Ok::<(), Interrupt>(()) && post == m,
        Err(e) => r == Err::<(), Interrupt>(e) && post == pre,
    }
}

/// One step: halt when the PC is past memory or the fetched word is zero;
/// otherwise advance the PC by four and execute the word.
pub open spec fn step_spec(m: Machine) -> (Result<bool>, Machine) {
    if m.pc >= m.mem.len() {
        (Ok(true), m)
    } else {
        match bus_load(m.mem, (m.pc + DRAM_BASE) as u32, 32) {
            Err(e) => (Err(e), m),
            Ok(w) => if w == 0 {
                (Ok(true), m)
            } else {
                let m1 = set_pc(m, (m.pc + 4) as u32);
                match exec_spec(m1, w) {
                    Ok(m2) => (Ok(false), m2),
                    Err(e) => (Err(e), m1),
                }
            },
        }
    }
}

/// Sign-extends the low `from` bits of `value`: when bit `from - 1` is set,
/// bits `from..32` are filled with ones.
pub fn sign_ext(value: u32, from: u32) -> (r: i32)
    requires
        1 <= from <= 32,
    ensures
        r == sign_ext_spec(value, from),
        from < 32 && value < (1u32 << from) ==> r as int == if value >= (1u32 << ((from - 1) as u32)) {
            value - (1u32 << from)
        } else {
            value as int
        },
{
    proof {
        lemma_sign_ext_value(value, from);
    }
    let sign = value & (1u32 << (from - 1));
    if from < 32 && sign != 0 {
        (value | (0xffff_ffffu32 << from)) as i32
    } else {
        value as i32
    }
}

/// Signed division rounded toward zero, with its remainder.
fn signed_div(a: i32, b: i32) -> (r: (i64, i64))
    requires
        b != 0,
    ensures
        r.0 == trunc_div(a as int, b as int),
        r.1 == trunc_rem(a as int, b as int),
{
    let ua: u64 = if a < 0 {
        (-(a as i64)) as u64
    } else {
        a as u64
    };
    let ub: u64 = if b < 0 {
        (-(b as i64)) as u64
    } else {
        b as u64
    };
    let q = ua / ub;
    let m = ua % ub;
    assert(q <= ua && m < ub) by (nonlinear_arith)
        requires
            ub >= 1,
            q == ua / ub,
            m == ua % ub,
    ;
    let qv: i64 = if (a < 0) != (b < 0) {
        -(q as i64)
    } else {
        q as i64
    };
    let mv: i64 = if a < 0 {
        -(m as i64)
    } else {
        m as i64
    };
    (qv, mv)
}

/// For a value that fits in `from` bits, sign extension subtracts `2^from`
/// exactly when the top bit of the field is set.
pub proof fn lemma_sign_ext_value(value: u32, from: u32)
    requires
        1 <= from <= 32,
    ensures
        from < 32 && value < (1u32 << from) ==> sign_ext_spec(value, from) as int == if value >= (1u32
            << ((from - 1) as u32)) {
            value - (1u32 << from)
        } else {
            value as int
        },
{
    if from < 32 && value < (1u32 << from) {
        let f1 = (from - 1) as u32;
        assert(((value & (1u32 << f1)) != 0) == (value >= (1u32 << f1))) by (bit_vector)
            requires
                f1 < 31,
                from == f1 + 1,
                value < (1u32 << from),
        ;
        if value >= (1u32 << f1) {
            let w = value | (0xffff_ffffu32 << from);
            assert((w as i32) as int == value - (1u32 << from)) by (bit_vector)
                requires
                    f1 < 31,
                    from == f1 + 1,
                    value < (1u32 << from),
                    value >= (1u32 << f1),
                    w == value | (0xffff_ffffu32 << from),
            ;
        } else {
            assert((value as i32) as int == value) by (bit_vector)
                requires
                    f1 < 31,
                    value < (1u32 << f1),
            ;
        }
    }
}

proof fn lemma_fields(inst: u32)
    ensures
        rs(inst) < 32,
        rt(inst) < 32,
        rd(inst) < 32,
        shamt(inst) < 32,
        funct(inst) < 64,
        opcode(inst) < 64,
{
    assert((inst >> 21u32) & 0x1f < 32) by (bit_vector);
    assert((inst >> 16u32) & 0x1f < 32) by (bit_vector);
    assert((inst >> 11u32) & 0x1f < 32) by (bit_vector);
    assert((inst >> 6u32) & 0x1f < 32) by (bit_vector);
    assert(inst & 0x3f < 64) by (bit_vector);
    assert((inst >> 26u32) & 0x3f < 64) by (bit_vector);
}

/// The processor.
#[derive(Debug, Clone)]
pub struct Cpu {
    pub regs: [u32; 32],
    pub pc: u32,
    pub tmp: u32,
    pub hi: u32,
    pub lo: u32,
    pub bus: Bus,
}

impl View for Cpu {
    type V = Machine;

    open spec fn view(&self) -> Machine {
        Machine {
            regs: self.regs@,
            pc: self.pc,
            tmp: self.tmp,
            hi: self.hi,
            lo: self.lo,
            mem: self.bus.mem(),
        }
    }
}

impl Default for Cpu {
    /// All registers, PC, TMP, HI and LO zero, over a zero-filled store of
    /// `DRAM_SIZE` bytes.
    fn default() -> (r: Self)
        ensures
            r@ == (Machine {
                regs: Seq::new(32, |i: int| 0u32),
                pc: 0,
                tmp: 0,
                hi: 0,
                lo: 0,
                mem: Seq::new(DRAM_SIZE as nat, |i: int| 0u8),
            }),
    {
        let r = Cpu { regs: [0u32; 32], pc: 0, tmp: 0, hi: 0, lo: 0, bus: Bus::default() };
        assert(r.regs@ =~= Seq::new(32, |i: int| 0u32));
        r
    }
}

impl Cpu {
    pub open spec fn wf(&self) -> bool {
        self.bus.wf()
    }

    /// A processor in its initial state: everything zero.
    pub fn new() -> (r: Self)
        ensures
            r.wf(),
            r@ == (Machine {
                regs: Seq::new(32, |i: int| 0u32),
                pc: 0,
                tmp: 0,
                hi: 0,
                lo: 0,
                mem: Seq::new(DRAM_SIZE as nat, |i: int| 0u8),
            }),
    {
        Self::default()
    }

    /// Installs a program image at the start of memory. It fails with `DBUS`,
    /// changing nothing, unless the image is shorter than memory.
    pub fn load(&mut self, code: Vec<u8>) -> (r: Result<()>)
        requires
            old(self).wf(),
        ensures
            final(self).wf(),
            r is Ok <==> code@.len() < old(self)@.mem.len(),
            r is Ok ==> final(self)@ == (Machine {
                mem: code@ + old(self)@.mem.subrange(code@.len() as int, old(self)@.mem.len() as int),
                ..old(self)@
            }),
            r is Err ==> (r matches Err(Interrupt::Exception(ExceptionInterrupt::DBUS(_))))
                && final(self)@ == old(self)@,
    {
        let r = self.bus.dram_splice(0, code);
        proof {
            if r is Ok {
                assert(old(self)@.mem.subrange(0, 0) + code@ =~= code@);
            }
        }
        r
    }

    /// Runs one step. `Ok(true)` means the program halted (PC past memory or
    /// a zero word fetched), `Ok(false)` that an instruction ran, and an
    /// error the interrupt that it raised.
    pub fn step(&mut self) -> (r: Result<bool>)
        requires
            old(self).wf(),
        ensures
            final(self).wf(),
            (r, final(self)@) == step_spec(old(self)@),
    {
        if self.pc < self.bus.dram.size() {
            let inst = match self.fetch() {
                Ok(w) => w,
                Err(e) => return Err(e),
            };
            if inst == 0 {
                Ok(true)
            } else {
                self.pc = self.pc + 4;
                match self.execute(inst) {
                    Ok(()) => Ok(false),
                    Err(e) => Err(e),
                }
            }
        } else {
            Ok(true)
        }
    }

    fn fetch(&self) -> (r: Result<u32>)
        requires
            self.wf(),
            self.pc + DRAM_BASE <= u32::MAX,
        ensures
            r == bus_load(self@.mem, (self.pc + DRAM_BASE) as u32, 32),
    {
        let addr = self.pc + DRAM_BASE;
        self.bus.load(addr, 32)
    }

    /// Executes one instruction word; the PC already points past it.
    fn execute(&mut self, inst: u32) -> (r: Result<()>)
        requires
            old(self).wf(),
        ensures
            final(self).wf(),
            outcome(old(self)@, final(self)@, r, exec_spec(old(self)@, inst)),
    {
        proof {
            lemma_fields(inst);
        }
        let opcode = (inst >> 26u32) & 0x3f;
        let rs = ((inst >> 21u32) & 0x1f) as usize;
        let rt = ((inst >> 16u32) & 0x1f) as usize;
        let s = self.regs[rs];
        let t = self.regs[rt];
        match opcode {
            0x00 => self.execute_special(inst),
            0x02 => {
                self.pc = (self.pc.wrapping_add(4) & 0xf000_0000) | ((inst & 0x3ff_ffff) << 2u32);
                Ok(())
            },
            0x03 => {
                let pc = self.pc;
                self.write_reg(Register::RA, pc);
                self.pc = (pc.wrapping_add(4) & 0xf000_0000) | ((inst & 0x3ff_ffff) << 2u32);
                Ok(())
            },
            0x04 | 0x05 | 0x06 | 0x07 => {
                let taken = if opcode == 0x04 {
                    s == t
                } else if opcode == 0x05 {
                    s != t
                } else if opcode == 0x06 {
                    (s as i32) <= 0
                } else {
                    (s as i32) > 0
                };
                if taken {
                    let offset = sign_ext((inst & 0xffff) << 2u32, 18);
                    self.pc = self.pc.wrapping_add(4).wrapping_add_signed(offset);
                }
                Ok(())
            },
            0x08 => {
                let imm = sign_ext(inst & 0xffff, 16);
                self.write_reg(rt, s.wrapping_add_signed(imm));
                Ok(())
            },
            0x09 => {
                let imm = sign_ext(inst & 0xffff, 16);
                match (s as i32).checked_add(imm) {
                    Some(sum) => {
                        self.write_reg(rt, sum as u32);
                        Ok(())
                    },
                    None => Err(Interrupt::Exception(ExceptionInterrupt::OVF)),
                }
            },
            0x0A => {
                let imm = sign_ext(inst & 0xffff, 16);
                self.write_reg(rt, if (s as i32) < imm { 1 } else { 0 });
                Ok(())
            },
            0x0B => {
                self.write_reg(rt, if s < (inst & 0xffff) { 1 } else { 0 });
                Ok(())
            },
            0x0C => {
                self.write_reg(rt, s & (inst & 0xffff));
                Ok(())
            },
            0x0D => {
                self.write_reg(rt, s | (inst & 0xffff));
                Ok(())
            },
            0x0E => {
                self.write_reg(rt, s ^ (inst & 0xffff));
                Ok(())
            },
            0x0F => {
                self.write_reg(rt, (inst & 0xffff) << 16u32);
                Ok(())
            },
            0x20 => self.execute_load(inst, 8, true),
            0x21 => self.execute_load(inst, 16, true),
            0x22 => self.execute_load(inst, 32, false),
            0x24 => self.execute_load(inst, 8, false),
            0x25 => self.execute_load(inst, 16, false),
            0x28 => self.execute_store(inst, 8),
            0x29 => self.execute_store(inst, 16),
            0x2B => self.execute_store(inst, 32),
            _ => Err(Interrupt::Exception(ExceptionInterrupt::UNSUPPORTED(inst))),
        }
    }

    /// Executes an R-type instruction, dispatched on its `funct` field.
    #[verifier::rlimit(40)]
    fn execute_special(&mut self, inst: u32) -> (r: Result<()>)
        requires
            old(self).wf(),
        ensures
            final(self).wf(),
            outcome(old(self)@, final(self)@, r, special_spec(old(self)@, inst)),
    {
        proof {
            lemma_fields(inst);
        }
        let funct = inst & 0x3f;
        let shamt = (inst >> 6u32) & 0x1f;
        let rs = ((inst >> 21u32) & 0x1f) as usize;
        let rt = ((inst >> 16u32) & 0x1f) as usize;
        let rd = ((inst >> 11u32) & 0x1f) as usize;
        let s = self.regs[rs];
        let t = self.regs[rt];
        proof {
            assert(s & 31 < 32) by (bit_vector);
        }
        match funct {
            0x00 => self.write_reg(rd, t << shamt),
            0x02 => self.write_reg(rd, t >> shamt),
            0x03 => self.write_reg(rd, ((t as i32) >> shamt) as u32),
            0x04 => self.write_reg(rd, t << (s & 31)),
            0x06 => self.write_reg(rd, t >> (s & 31)),
            0x07 => self.write_reg(rd, ((t as i32) >> (s & 31)) as u32),
            0x08 => {
                if s & 3 != 0 {
                    return Err(Interrupt::Exception(ExceptionInterrupt::ALIGNMENT(s)));
                }
                self.pc = s;
            },
            0x09 => {
                if rs == rd {
                    return Err(Interrupt::Exception(ExceptionInterrupt::UNDEFINED));
                }
                if s & 3 != 0 {
                    return Err(Interrupt::Exception(ExceptionInterrupt::ALIGNMENT(s)));
                }
                self.tmp = s;
                let pc = self.pc;
                self.write_reg(rd, pc);
                self.pc = self.tmp;
            },
            0x0C => return Err(Interrupt::Software(SoftwareInterrupt::SYSCALL)),
            0x10 => {
                let hi = self.hi;
                self.write_reg(rd, hi);
            },
            0x11 => self.hi = s,
            0x12 => {
                let lo = self.lo;
                self.write_reg(rd, lo);
            },
            0x13 => self.lo = s,
            0x18 => {
                let a = s as i32 as i64;
                let b = t as i32 as i64;
                assert(-0x4000_0000_0000_0000 <= a * b <= 0x4000_0000_0000_0000) by (nonlinear_arith)
                    requires
                        -0x8000_0000 <= a <= 0x7fff_ffff,
                        -0x8000_0000 <= b <= 0x7fff_ffff,
                ;
                let p = a * b;
                self.hi = (p >> 32u64) as u32;
                self.lo = p as u32;
            },
            0x19 => {
                let a = s as u64;
                let b = t as u64;
                assert(a * b <= 0xffff_ffff * 0xffff_ffff) by (nonlinear_arith)
                    requires
                        a <= 0xffff_ffff,
                        b <= 0xffff_ffff,
                ;
                let p = a * b;
                self.hi = (p >> 32u64) as u32;
                self.lo = p as u32;
            },
            0x1A => {
                if t == 0 {
                    return Err(Interrupt::Exception(ExceptionInterrupt::DIVZERO));
                }
                assert(t != 0 ==> t as i32 != 0) by (bit_vector);
                let (q, m) = signed_div(s as i32, t as i32);
                self.lo = q as u32;
                self.hi = m as u32;
            },
            0x1B => {
                if t == 0 {
                    return Err(Interrupt::Exception(ExceptionInterrupt::DIVZERO));
                }
                self.lo = s / t;
                self.hi = s % t;
            },
            0x20 => match (s as i32).checked_add(t as i32) {
                Some(sum) => self.write_reg(rd, sum as u32),
                None => return Err(Interrupt::Exception(ExceptionInterrupt::OVF)),
            },
            0x21 => self.write_reg(rd, s.wrapping_add(t)),
            0x22 => match (s as i32).checked_sub(t as i32) {
                Some(diff) => self.write_reg(rd, diff as u32),
                None => return Err(Interrupt::Exception(ExceptionInterrupt::OVF)),
            },
            0x23 => self.write_reg(rd, s.wrapping_sub(t)),
            0x24 => self.write_reg(rd, s & t),
            0x25 => self.write_reg(rd, s | t),
            0x26 => self.write_reg(rd, s ^ t),
            0x27 => self.write_reg(rd, !(s | t)),
            0x2A => self.write_reg(rd, if (s as i32) < (t as i32) { 1 } else { 0 }),
            0x2B => self.write_reg(rd, if s < t { 1 } else { 0 }),
            _ => return Err(Interrupt::Exception(ExceptionInterrupt::UNSUPPORTED(inst))),
        }
        Ok(())
    }

    /// Loads `width` bits at `rs` plus the signed immediate into `rt`.
    fn execute_load(&mut self, inst: u32, width: u32, signed: bool) -> (r: Result<()>)
        requires
            old(self).wf(),
            width == 8 || width == 16 || width == 32,
        ensures
            final(self).wf(),
            outcome(old(self)@, final(self)@, r, load_spec(old(self)@, inst, width, signed)),
    {
        proof {
            lemma_fields(inst);
        }
        let rs = ((inst >> 21u32) & 0x1f) as usize;
        let rt = ((inst >> 16u32) & 0x1f) as usize;
        let addr = self.regs[rs].wrapping_add_signed(sign_ext(inst & 0xffff, 16));
        match self.bus.load(addr, width) {
            Ok(v) => {
                let x = if signed {
                    sign_ext(v, width) as u32
                } else {
                    v
                };
                self.write_reg(rt, x);
                Ok(())
            },
            Err(e) => Err(e),
        }
    }

    /// Stores the low `width` bits of `rt` at `rs` plus the signed immediate.
    fn execute_store(&mut self, inst: u32, width: u32) -> (r: Result<()>)
        requires
            old(self).wf(),
            width == 8 || width == 16 || width == 32,
        ensures
            final(self).wf(),
            outcome(old(self)@, final(self)@, r, store_spec(old(self)@, inst, width)),
    {
        proof {
            lemma_fields(inst);
        }
        let rs = ((inst >> 21u32) & 0x1f) as usize;
        let rt = ((inst >> 16u32) & 0x1f) as usize;
        let addr = self.regs[rs].wrapping_add_signed(sign_ext(inst & 0xffff, 16));
        let value = self.regs[rt];
        let r = self.bus.store(addr, width, value);
        assert(self.regs@ == old(self).regs@);
        r
    }

    fn write_reg(&mut self, i: usize, v: u32)
        requires
            i < 32,
        ensures
            final(self)@ == set_reg(old(self)@, i as u32, v),
            final(self).bus == old(self).bus,
    {
        self.regs[i] = v;
        assert(self.regs@ =~= old(self).regs@.update(i as int, v));
    }
}

} // verus!
