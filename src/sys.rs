//! The supervisor: steps the processor, serves environment calls, and keeps
//! the text written for the console until the host passes it on.
use vstd::prelude::*;
use vstd::string::StringSliceAdditionalSpecFns;

use crate::arch::Register;
use crate::bus::bus_load;
use crate::cpu::{reg, step_spec, Cpu, Machine};
use crate::interrupt::{ExceptionInterrupt, Interrupt, Result, SoftwareInterrupt};
use crate::virt::DRAM_BASE;

verus! {

/// Decimal digits of `n`, most significant first, as ASCII bytes.
pub open spec fn digits(n: nat) -> Seq<u8>
    decreases n,
{
    if n < 10 {
        seq![(48 + n) as u8]
    } else {
        digits(n / 10).push((48 + n % 10) as u8)
    }
}

/// `n` in base 10, with a leading `-` when negative.
pub open spec fn decimal(n: int) -> Seq<u8> {
    if n < 0 {
        seq![45u8] + digits((-n) as nat)
    } else {
        digits(n as nat)
    }
}

/// UTF-8 encoding of the character whose code point is `b`.
pub open spec fn char_bytes(b: u8) -> Seq<u8> {
    if b < 0x80 {
        seq![b]
    } else {
        seq![(0xC0 + b / 64) as u8, (0x80 + b % 64) as u8]
    }
}

/// Text of the NUL-terminated string that starts at index `i` of `mem`,
/// stopping early at the end of memory.
pub open spec fn text_from(mem: Seq<u8>, i: int) -> Seq<u8>
    decreases mem.len() - i,
{
    if i < 0 || i >= mem.len() || mem[i] == 0 {
        seq![]
    } else {
        char_bytes(mem[i]) + text_from(mem, i + 1)
    }
}

/// A NUL byte stands at index `i` of `mem` or after it.
pub open spec fn terminated(mem: Seq<u8>, i: int) -> bool
    decreases mem.len() - i,
{
    if i < 0 || i >= mem.len() {
        false
    } else if mem[i] == 0 {
        true
    } else {
        terminated(mem, i + 1)
    }
}

/// The supervisor's state as the contracts see it.
pub struct SysView {
    pub machine: Machine,
    pub running: bool,
    pub exit_code: Option<i32>,
    pub out: Seq<u8>,
}

/// The result and new text of printing the string at `addr`: the text of
/// each byte up to the NUL; an address outside memory, or memory ending
/// before a NUL, fails with `ADDRL` of the first address not served.
pub open spec fn print_string_spec(mem: Seq<u8>, addr: u32) -> (Result<()>, Seq<u8>) {
    if !(DRAM_BASE <= addr < DRAM_BASE + mem.len()) {
        (Err(Interrupt::Exception(ExceptionInterrupt::ADDRL(addr))), seq![])
    } else {
        let i = addr - DRAM_BASE;
        (
            if terminated(mem, i) {
                Ok(())
            } else {
                Err(Interrupt::Exception(ExceptionInterrupt::ADDRL(DRAM_BASE.wrapping_add(mem.len() as u32))))
            },
            text_from(mem, i),
        )
    }
}

/// Serving the environment call selected by `V0` with argument `A0`.
pub open spec fn syscall_spec(s: SysView) -> (Result<()>, SysView) {
    let v0 = reg(s.machine, Register::V0 as u32);
    let a0 = reg(s.machine, Register::A0 as u32);
    if v0 == 0x01 {
        (Ok(()), SysView { out: s.out + decimal((a0 as i32) as int), ..s })
    } else if v0 == 0x04 {
        let (r, text) = print_string_spec(s.machine.mem, a0);
        (r, SysView { out: s.out + text, ..s })
    } else if v0 == 0x0A {
        (Ok(()), SysView { running: false, ..s })
    } else if v0 == 0x11 {
        (Ok(()), SysView { running: false, exit_code: Some(a0 as i32), ..s })
    } else {
        (Err(Interrupt::Software(SoftwareInterrupt::UNSUPPORTED(v0))), s)
    }
}

/// One pass of the supervisor loop: step the processor; a halt clears
/// `running`, a `SYSCALL` is served, and any other interrupt is returned.
pub open spec fn tick_spec(s: SysView) -> (Result<()>, SysView) {
    let (r, m) = step_spec(s.machine);
    let s1 = SysView { machine: m, ..s };
    match r {
        Ok(done) => (Ok(()), SysView { running: !done, ..s1 }),
        Err(Interrupt::Software(SoftwareInterrupt::SYSCALL)) => syscall_spec(s1),
        Err(e) => (Err(e), s1),
    }
}

/// The closing line: `"\nProcess exited with code {code}\n"`.
pub open spec fn banner(code: i32) -> Seq<u8> {
    "\nProcess exited with code ".spec_bytes() + decimal(code as int) + "\n".spec_bytes()
}

/// The supervisor. Console text goes to `out`, which the host drains to its
/// output stream; no environment call reads input yet.
pub struct Sys {
    pub cpu: Cpu,
    pub running: bool,
    pub exit_code: Option<i32>,
    pub out: Vec<u8>,
}

impl View for Sys {
    type V = SysView;

    open spec fn view(&self) -> SysView {
        SysView {
            machine: self.cpu@,
            running: self.running,
            exit_code: self.exit_code,
            out: self.out@,
        }
    }
}

/// Appends the decimal digits of `n`.
fn push_digits(out: &mut Vec<u8>, n: u32)
    ensures
        final(out)@ == old(out)@ + digits(n as nat),
    decreases n,
{
    if n >= 10 {
        push_digits(out, n / 10);
    }
    out.push((48 + n % 10) as u8);
    assert(final(out)@ =~= old(out)@ + digits(n as nat));
}

/// Appends `n` in base 10.
fn push_decimal(out: &mut Vec<u8>, n: i32)
    ensures
        final(out)@ == old(out)@ + decimal(n as int),
{
    if n < 0 {
        out.push(45u8);
        push_digits(out, (-(n as i64)) as u32);
        assert(final(out)@ =~= old(out)@ + decimal(n as int));
    } else {
        push_digits(out, n as u32);
    }
}

impl Sys {
    pub open spec fn wf(&self) -> bool {
        self.cpu.wf()
    }

    /// A stopped supervisor over `cpu`, with no exit code and no text.
    pub fn new(cpu: Cpu) -> (r: Self)
        ensures
            r@ == (SysView { machine: cpu@, running: false, exit_code: None, out: seq![] }),
            r.cpu == cpu,
    {
        Sys { cpu, running: false, exit_code: None, out: Vec::new() }
    }

    /// One pass of the supervisor loop: step the processor; on a halt clear
    /// `running`, on `SYSCALL` serve the call, and return any other interrupt.
    pub fn tick(&mut self) -> (r: Result<()>)
        requires
            old(self).wf(),
        ensures
            final(self).wf(),
            (r, final(self)@) == tick_spec(old(self)@),
    {
        match self.cpu.step() {
            Ok(done) => {
                self.running = !done;
                Ok(())
            },
            Err(Interrupt::Software(SoftwareInterrupt::SYSCALL)) => self.handle_syscall(),
            Err(e) => Err(e),
        }
    }

    /// Serves the environment call selected by `V0`: 1 prints `A0` as a
    /// signed integer, 4 prints the NUL-terminated string at address `A0`,
    /// 10 stops, 17 stops with exit code `A0`; any other selector fails with
    /// `UNSUPPORTED`.
    pub fn handle_syscall(&mut self) -> (r: Result<()>)
        requires
            old(self).wf(),
        ensures
            final(self).wf(),
            (r, final(self)@) == syscall_spec(old(self)@),
    {
        let v0 = self.cpu.regs[Register::V0];
        let a0 = self.cpu.regs[Register::A0];
        match v0 {
            0x01 => {
                push_decimal(&mut self.out, a0 as i32);
                Ok(())
            },
            0x04 => self.print_string(a0),
            0x0A => {
                self.running = false;
                Ok(())
            },
            0x11 => {
                self.exit_code = Some(a0 as i32);
                self.running = false;
                Ok(())
            },
            _ => Err(Interrupt::Software(SoftwareInterrupt::UNSUPPORTED(v0))),
        }
    }

    /// Appends the closing line, with the recorded exit code or 0.
    pub fn finish(&mut self)
        ensures
            final(self)@ == (SysView {
                out: old(self)@.out + banner(
                    match old(self).exit_code {
                        Some(c) => c,
                        None => 0,
                    },
                ),
                ..old(self)@
            }),
    {
        let code = match self.exit_code {
            Some(c) => c,
            None => 0,
        };
        let ghost before = self.out@;
        self.out.extend_from_slice("\nProcess exited with code ".as_bytes());
        let ghost mid = self.out@;
        push_decimal(&mut self.out, code);
        let ghost mid2 = self.out@;
        self.out.extend_from_slice("\n".as_bytes());
        assert(mid =~= before + "\nProcess exited with code ".spec_bytes());
        assert(self.out@ =~= mid2 + "\n".spec_bytes());
        assert(self.out@ =~= before + banner(code));
    }

    /// Hands over the text written so far and clears it.
    pub fn take_output(&mut self) -> (r: Vec<u8>)
        ensures
            r@ == old(self).out@,
            final(self)@ == (SysView { out: seq![], ..old(self)@ }),
    {
        let mut taken = Vec::new();
        std::mem::swap(&mut taken, &mut self.out);
        taken
    }

    /// Prints the NUL-terminated string at `addr`, one byte at a time.
    fn print_string(&mut self, addr: u32) -> (r: Result<()>)
        requires
            old(self).wf(),
        ensures
            final(self).wf(),
            r == print_string_spec(old(self)@.machine.mem, addr).0,
            final(self)@ == (SysView {
                out: old(self)@.out + print_string_spec(old(self)@.machine.mem, addr).1,
                ..old(self)@
            }),
    {
        let ghost mem = self.cpu@.mem;
        let ghost inside = DRAM_BASE <= addr < DRAM_BASE + mem.len();
        let ghost i0: int = addr - DRAM_BASE;
        let mut k: u32 = 0;
        loop
            invariant
                self.wf(),
                self.cpu == old(self).cpu,
                self.running == old(self).running,
                self.exit_code == old(self).exit_code,
                mem == self.cpu@.mem,
                i0 == addr - DRAM_BASE,
                inside == (DRAM_BASE <= addr < DRAM_BASE + mem.len()),
                inside ==> i0 + k <= mem.len() && self.out@ + text_from(mem, i0 + k) == old(
                    self,
                ).out@ + text_from(mem, i0) && terminated(mem, i0 + k) == terminated(mem, i0),
                !inside ==> k == 0 && self.out@ == old(self).out@,
            decreases (if inside {
                mem.len() - (i0 + k)
            } else {
                0
            }),
        {
            let cur = addr.wrapping_add(k);
            proof {
                if inside && i0 + k < mem.len() {
                    assert(cur == addr + k);
                }
            }
            let b = match self.cpu.bus.load(cur, 8) {
                Ok(v) => v,
                Err(e) => {
                    proof {
                        if inside {
                            assert(i0 + k == mem.len());
                            assert(text_from(mem, i0 + k) == Seq::<u8>::empty());
                            assert(!terminated(mem, i0 + k));
                            assert(self.out@ + Seq::<u8>::empty() =~= self.out@);
                        }
                    }
                    return Err(e);
                },
            };
            assert(b == mem[i0 + k]);
            if b == 0 {
                assert(text_from(mem, i0 + k) == Seq::<u8>::empty());
                assert(self.out@ + Seq::<u8>::empty() =~= self.out@);
                return Ok(());
            }
            let ghost before = self.out@;
            self.write_char(b as u8);
            proof {
                assert(text_from(mem, i0 + k) == char_bytes(mem[i0 + k]) + text_from(mem, i0 + k + 1));
                assert(before + text_from(mem, i0 + k) =~= self.out@ + text_from(mem, i0 + k + 1));
            }
            k = k + 1;
        }
    }

    /// Appends the UTF-8 text of byte `b` read as a character.
    fn write_char(&mut self, b: u8)
        ensures
            final(self)@ == (SysView { out: old(self)@.out + char_bytes(b), ..old(self)@ }),
            final(self).cpu == old(self).cpu,
    {
        if b < 0x80 {
            self.out.push(b);
        } else {
            self.out.push(0xC0 + b / 64);
            self.out.push(0x80 + b % 64);
        }
        assert(self.out@ =~= old(self).out@ + char_bytes(b));
    }
}

} // verus!
