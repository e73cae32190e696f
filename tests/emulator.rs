use mips::arch::Register;
use mips::bus::Bus;
use mips::cpu::{sign_ext, Cpu};
use mips::dram::{Dram, DRAM_SIZE};
use mips::interrupt::{ExceptionInterrupt, Interrupt, SoftwareInterrupt};
use mips::sys::Sys;
use mips::virt::{MemMap, RegionName, DRAM_BASE};

const V0: u32 = 2;
const A0: u32 = 4;
const T0: u32 = 8;
const T1: u32 = 9;
const T2: u32 = 10;
const T3: u32 = 11;
const T4: u32 = 12;
const RA: u32 = 31;

fn r_type(rs: u32, rt: u32, rd: u32, shamt: u32, funct: u32) -> u32 {
    (rs << 21) | (rt << 16) | (rd << 11) | (shamt << 6) | funct
}

fn i_type(op: u32, rs: u32, rt: u32, imm: u16) -> u32 {
    (op << 26) | (rs << 21) | (rt << 16) | imm as u32
}

fn ori(rt: u32, rs: u32, imm: u16) -> u32 {
    i_type(0x0D, rs, rt, imm)
}

fn lui(rt: u32, imm: u16) -> u32 {
    i_type(0x0F, 0, rt, imm)
}

fn syscall() -> u32 {
    0x0C
}

fn image(words: &[u32]) -> Vec<u8> {
    let mut bytes = Vec::new();
    for w in words {
        bytes.extend_from_slice(&w.to_le_bytes());
    }
    bytes
}

fn cpu_with(words: &[u32]) -> Cpu {
    let mut cpu = Cpu::new();
    cpu.load(image(words)).unwrap();
    cpu
}

fn run(sys: &mut Sys) -> Result<String, Interrupt> {
    sys.running = true;
    while sys.running {
        sys.tick()?;
    }
    sys.finish();
    Ok(String::from_utf8(sys.take_output()).unwrap())
}

fn run_words(words: &[u32]) -> (Result<String, Interrupt>, Sys) {
    let mut sys = Sys::new(cpu_with(words));
    let r = run(&mut sys);
    (r, sys)
}

#[test]
fn print_integer_then_exit() {
    let (r, sys) = run_words(&[ori(V0, 0, 1), ori(A0, 0, 42), syscall(), ori(V0, 0, 10), syscall()]);
    assert_eq!(r.unwrap(), "42\nProcess exited with code 0\n");
    assert!(!sys.running);
    assert_eq!(sys.exit_code, None);
}

#[test]
fn exit_with_code_seven() {
    let (r, sys) = run_words(&[ori(V0, 0, 0x11), ori(A0, 0, 7), syscall()]);
    assert_eq!(r.unwrap(), "\nProcess exited with code 7\n");
    assert_eq!(sys.exit_code, Some(7));
}

#[test]
fn print_string_hi() {
    let mut code = image(&[
        lui(A0, 0x8000),
        ori(A0, A0, 0x200),
        ori(V0, 0, 4),
        syscall(),
        ori(V0, 0, 10),
        syscall(),
    ]);
    code.resize(0x200, 0);
    code.extend_from_slice(b"hi\0");
    let mut cpu = Cpu::new();
    cpu.load(code).unwrap();
    let mut sys = Sys::new(cpu);
    assert_eq!(run(&mut sys).unwrap(), "hi\nProcess exited with code 0\n");
}

#[test]
fn add_overflow_traps() {
    let mut cpu = cpu_with(&[r_type(T0, T1, T2, 0, 0x20)]);
    cpu.regs[T0 as usize] = 0x7FFF_FFFF;
    cpu.regs[T1 as usize] = 1;
    let mut sys = Sys::new(cpu);
    let r = run(&mut sys);
    assert_eq!(r, Err(Interrupt::Exception(ExceptionInterrupt::OVF)));
    assert_eq!(sys.cpu.regs[T2 as usize], 0);
}

#[test]
fn bad_load_address() {
    let (r, _) = run_words(&[i_type(0x22, 0, T0, 0)]);
    assert_eq!(r, Err(Interrupt::Exception(ExceptionInterrupt::ADDRL(0))));
}

#[test]
fn sign_extension_round_trip() {
    let mut cpu = cpu_with(&[
        lui(T3, 0x8000),
        ori(T3, T3, 0x100),
        ori(T4, 0, 0x80),
        i_type(0x28, T3, T4, 0),
        i_type(0x20, T3, T0, 0),
        i_type(0x24, T3, T1, 0),
    ]);
    for _ in 0..6 {
        assert_eq!(cpu.step(), Ok(false));
    }
    assert_eq!(cpu.regs[T0 as usize], 0xFFFF_FF80);
    assert_eq!(cpu.regs[T1 as usize], 0x0000_0080);
    assert_eq!(cpu.step(), Ok(true));
}

#[test]
fn halfword_sign_extension() {
    let mut cpu = cpu_with(&[
        lui(T3, 0x8000),
        ori(T3, T3, 0x100),
        ori(T4, 0, 0x8000),
        i_type(0x29, T3, T4, 0),
        i_type(0x21, T3, T0, 0),
        i_type(0x25, T3, T1, 0),
    ]);
    for _ in 0..6 {
        assert_eq!(cpu.step(), Ok(false));
    }
    assert_eq!(cpu.regs[T0 as usize], 0xFFFF_8000);
    assert_eq!(cpu.regs[T1 as usize], 0x0000_8000);
}

#[test]
fn zero_word_halts_without_change() {
    let mut cpu = Cpu::new();
    cpu.regs[T0 as usize] = 5;
    cpu.pc = 0x40;
    let before = cpu.regs;
    assert_eq!(cpu.step(), Ok(true));
    assert_eq!(cpu.pc, 0x40);
    assert_eq!(cpu.regs, before);
}

#[test]
fn pc_past_memory_halts() {
    let mut cpu = Cpu::new();
    cpu.pc = DRAM_SIZE as u32;
    assert_eq!(cpu.step(), Ok(true));
}

#[test]
fn pc_advances_by_four() {
    let mut cpu = cpu_with(&[ori(T0, 0, 1), r_type(T0, T0, T1, 0, 0x21)]);
    assert_eq!(cpu.step(), Ok(false));
    assert_eq!(cpu.pc, 4);
    assert_eq!(cpu.step(), Ok(false));
    assert_eq!(cpu.pc, 8);
    assert_eq!(cpu.regs[T1 as usize], 2);
}

#[test]
fn word_store_then_loads() {
    let mut bus = Bus::default();
    let addr = DRAM_BASE + 0x1000;
    bus.store(addr, 32, 0x1234_5678).unwrap();
    assert_eq!(bus.load(addr, 32), Ok(0x1234_5678));
    assert_eq!(bus.load(addr, 8), Ok(0x78));
    assert_eq!(bus.load(addr + 1, 8), Ok(0x56));
    assert_eq!(bus.load(addr + 2, 8), Ok(0x34));
    assert_eq!(bus.load(addr + 3, 8), Ok(0x12));
    assert_eq!(bus.load(addr, 16), Ok(0x5678));
}

#[test]
fn addu_wraps() {
    let mut cpu = cpu_with(&[r_type(T0, T1, T2, 0, 0x21)]);
    cpu.regs[T0 as usize] = 0x7FFF_FFFF;
    cpu.regs[T1 as usize] = 1;
    assert_eq!(cpu.step(), Ok(false));
    assert_eq!(cpu.regs[T2 as usize], 0x8000_0000);
}

#[test]
fn sub_overflow_and_subu_wraps() {
    let mut cpu = cpu_with(&[r_type(T0, T1, T2, 0, 0x23), r_type(T0, T1, T2, 0, 0x22)]);
    cpu.regs[T0 as usize] = 0x8000_0000;
    cpu.regs[T1 as usize] = 1;
    assert_eq!(cpu.step(), Ok(false));
    assert_eq!(cpu.regs[T2 as usize], 0x7FFF_FFFF);
    assert_eq!(cpu.step(), Err(Interrupt::Exception(ExceptionInterrupt::OVF)));
}

#[test]
fn addiu_checks_and_addi_wraps() {
    let mut cpu = cpu_with(&[i_type(0x08, T0, T1, 1), i_type(0x09, T0, T2, 1)]);
    cpu.regs[T0 as usize] = 0x7FFF_FFFF;
    assert_eq!(cpu.step(), Ok(false));
    assert_eq!(cpu.regs[T1 as usize], 0x8000_0000);
    assert_eq!(cpu.step(), Err(Interrupt::Exception(ExceptionInterrupt::OVF)));
    assert_eq!(cpu.regs[T2 as usize], 0);
}

#[test]
fn store_outside_memory() {
    let (r, _) = run_words(&[ori(T0, 0, 0x10), i_type(0x2B, T0, T1, 4)]);
    assert_eq!(r, Err(Interrupt::Exception(ExceptionInterrupt::ADDRS(0x14))));
}

#[test]
fn load_past_the_end() {
    let bus = Bus::default();
    let last = DRAM_BASE + DRAM_SIZE as u32 - 1;
    assert_eq!(bus.load(last, 8), Ok(0));
    assert_eq!(bus.load(last, 32), Err(Interrupt::Exception(ExceptionInterrupt::ADDRL(last))));
    assert_eq!(
        bus.load(last + 1, 8),
        Err(Interrupt::Exception(ExceptionInterrupt::ADDRL(last + 1)))
    );
}

#[test]
fn jr_misaligned_keeps_pc() {
    let mut cpu = cpu_with(&[r_type(T0, 0, 0, 0, 0x08)]);
    cpu.regs[T0 as usize] = 0x102;
    assert_eq!(cpu.step(), Err(Interrupt::Exception(ExceptionInterrupt::ALIGNMENT(0x102))));
    assert_eq!(cpu.pc, 4);
}

#[test]
fn jalr_misaligned_and_same_register() {
    let mut cpu = cpu_with(&[r_type(T0, 0, RA, 0, 0x09), r_type(T0, 0, T0, 0, 0x09)]);
    cpu.regs[T0 as usize] = 0x101;
    assert_eq!(cpu.step(), Err(Interrupt::Exception(ExceptionInterrupt::ALIGNMENT(0x101))));
    assert_eq!(cpu.regs[RA as usize], 0);
    assert_eq!(cpu.pc, 4);
    assert_eq!(cpu.step(), Err(Interrupt::Exception(ExceptionInterrupt::UNDEFINED)));
}

#[test]
fn jal_and_jr_return() {
    // 0: jal 3; 4: ori t1,0,7; 8: halt; 12: ori t0,0,5; 16: jr ra
    let mut cpu = cpu_with(&[
        (0x03 << 26) | 3,
        ori(T1, 0, 7),
        0,
        ori(T0, 0, 5),
        r_type(RA, 0, 0, 0, 0x08),
    ]);
    assert_eq!(cpu.step(), Ok(false));
    assert_eq!(cpu.pc, 12);
    assert_eq!(cpu.regs[RA as usize], 4);
    assert_eq!(cpu.step(), Ok(false));
    assert_eq!(cpu.step(), Ok(false));
    assert_eq!(cpu.pc, 4);
    assert_eq!(cpu.step(), Ok(false));
    assert_eq!(cpu.step(), Ok(true));
    assert_eq!(cpu.regs[T0 as usize], 5);
    assert_eq!(cpu.regs[T1 as usize], 7);
}

#[test]
fn jalr_links_and_jumps() {
    let mut cpu = cpu_with(&[r_type(T0, 0, RA, 0, 0x09)]);
    cpu.regs[T0 as usize] = 0x40;
    assert_eq!(cpu.step(), Ok(false));
    assert_eq!(cpu.pc, 0x40);
    assert_eq!(cpu.tmp, 0x40);
    assert_eq!(cpu.regs[RA as usize], 4);
}

#[test]
fn branches() {
    // Targets count from the advanced PC plus four.
    // 0: beq t0,t1,+2 (taken) -> 16; 16: bne t0,t1,-3 (not taken) -> 20;
    // 20: bgtz t2,-5 (taken) -> 8
    let mut cpu = cpu_with(&[
        i_type(0x04, T0, T1, 2),
        0,
        0,
        0,
        i_type(0x05, T0, T1, 0xFFFD),
        i_type(0x07, T2, 0, 0xFFFB),
    ]);
    cpu.regs[T2 as usize] = 1;
    assert_eq!(cpu.step(), Ok(false));
    assert_eq!(cpu.pc, 16);
    assert_eq!(cpu.step(), Ok(false));
    assert_eq!(cpu.pc, 20);
    assert_eq!(cpu.step(), Ok(false));
    assert_eq!(cpu.pc, 8);
}

#[test]
fn beq_zero_zero_plus_one() {
    let mut cpu = cpu_with(&[i_type(0x04, 0, 0, 1)]);
    assert_eq!(cpu.step(), Ok(false));
    assert_eq!(cpu.pc, 12);
}

#[test]
fn blez_taken_on_negative() {
    let mut cpu = cpu_with(&[i_type(0x06, T0, 0, 3)]);
    cpu.regs[T0 as usize] = 0xFFFF_FFFF;
    assert_eq!(cpu.step(), Ok(false));
    assert_eq!(cpu.pc, 20);
}

#[test]
fn jump_keeps_top_bits() {
    let mut cpu = cpu_with(&[(0x02 << 26) | 0x10]);
    assert_eq!(cpu.step(), Ok(false));
    assert_eq!(cpu.pc, 0x40);
}

#[test]
fn shifts() {
    let mut cpu = cpu_with(&[
        r_type(0, T0, T1, 4, 0x00),
        r_type(0, T0, T2, 4, 0x02),
        r_type(0, T0, T3, 4, 0x03),
        r_type(T4, T0, T1, 0, 0x07),
    ]);
    cpu.regs[T0 as usize] = 0x8000_00F0;
    cpu.regs[T4 as usize] = 36;
    assert_eq!(cpu.step(), Ok(false));
    assert_eq!(cpu.regs[T1 as usize], 0x0000_0F00);
    assert_eq!(cpu.step(), Ok(false));
    assert_eq!(cpu.regs[T2 as usize], 0x0800_000F);
    assert_eq!(cpu.step(), Ok(false));
    assert_eq!(cpu.regs[T3 as usize], 0xF800_000F);
    assert_eq!(cpu.step(), Ok(false));
    assert_eq!(cpu.regs[T1 as usize], 0xF800_000F);
}

#[test]
fn multiply_and_divide() {
    let mut cpu = cpu_with(&[
        r_type(T0, T1, 0, 0, 0x18),
        r_type(0, 0, T2, 0, 0x10),
        r_type(0, 0, T3, 0, 0x12),
        r_type(T0, T1, 0, 0, 0x19),
        r_type(T0, T1, 0, 0, 0x1A),
    ]);
    cpu.regs[T0 as usize] = 0xFFFF_FFF9; // -7
    cpu.regs[T1 as usize] = 2;
    assert_eq!(cpu.step(), Ok(false));
    assert_eq!((cpu.hi, cpu.lo), (0xFFFF_FFFF, 0xFFFF_FFF2));
    assert_eq!(cpu.step(), Ok(false));
    assert_eq!(cpu.step(), Ok(false));
    assert_eq!((cpu.regs[T2 as usize], cpu.regs[T3 as usize]), (0xFFFF_FFFF, 0xFFFF_FFF2));
    assert_eq!(cpu.step(), Ok(false));
    assert_eq!((cpu.hi, cpu.lo), (1, 0xFFFF_FFF2));
    assert_eq!(cpu.step(), Ok(false));
    // -7 / 2 = -3 rem -1
    assert_eq!((cpu.lo, cpu.hi), (0xFFFF_FFFD, 0xFFFF_FFFF));
}

#[test]
fn divide_unsigned_and_by_zero() {
    let mut cpu = cpu_with(&[r_type(T0, T1, 0, 0, 0x1B), r_type(T0, T2, 0, 0, 0x1A)]);
    cpu.regs[T0 as usize] = 17;
    cpu.regs[T1 as usize] = 5;
    assert_eq!(cpu.step(), Ok(false));
    assert_eq!((cpu.lo, cpu.hi), (3, 2));
    assert_eq!(cpu.step(), Err(Interrupt::Exception(ExceptionInterrupt::DIVZERO)));
}

#[test]
fn logic_and_compare() {
    let mut cpu = cpu_with(&[
        r_type(T0, T1, T2, 0, 0x27),
        r_type(T0, T1, T3, 0, 0x2A),
        r_type(T0, T1, T4, 0, 0x2B),
        i_type(0x0B, T0, T2, 0xFFFF),
        i_type(0x0A, T0, T3, 0xFFFF),
    ]);
    cpu.regs[T0 as usize] = 0xFFFF_FFFE;
    cpu.regs[T1 as usize] = 1;
    assert_eq!(cpu.step(), Ok(false));
    assert_eq!(cpu.regs[T2 as usize], 0);
    assert_eq!(cpu.step(), Ok(false));
    assert_eq!(cpu.regs[T3 as usize], 1);
    assert_eq!(cpu.step(), Ok(false));
    assert_eq!(cpu.regs[T4 as usize], 0);
    assert_eq!(cpu.step(), Ok(false));
    assert_eq!(cpu.regs[T2 as usize], 0);
    assert_eq!(cpu.step(), Ok(false));
    assert_eq!(cpu.regs[T3 as usize], 1);
}

#[test]
fn unsupported_instruction() {
    let (r, _) = run_words(&[0xFC00_0000]);
    assert_eq!(r, Err(Interrupt::Exception(ExceptionInterrupt::UNSUPPORTED(0xFC00_0000))));
    let (r, _) = run_words(&[0x0000_003F]);
    assert_eq!(r, Err(Interrupt::Exception(ExceptionInterrupt::UNSUPPORTED(0x3F))));
}

#[test]
fn syscall_from_step() {
    let mut cpu = cpu_with(&[syscall()]);
    assert_eq!(cpu.step(), Err(Interrupt::Software(SoftwareInterrupt::SYSCALL)));
}

#[test]
fn print_negative_integer() {
    let mut sys = Sys::new(Cpu::new());
    sys.cpu.regs[Register::V0] = 1;
    sys.cpu.regs[Register::A0] = (-2147483648i32) as u32;
    assert_eq!(sys.handle_syscall(), Ok(()));
    assert_eq!(sys.take_output(), b"-2147483648".to_vec());
    sys.cpu.regs[Register::A0] = 0;
    assert_eq!(sys.handle_syscall(), Ok(()));
    assert_eq!(sys.take_output(), b"0".to_vec());
}

#[test]
fn reserved_syscall_unsupported() {
    let mut sys = Sys::new(Cpu::new());
    sys.cpu.regs[Register::V0] = 2;
    assert_eq!(
        sys.handle_syscall(),
        Err(Interrupt::Software(SoftwareInterrupt::UNSUPPORTED(2)))
    );
    sys.cpu.regs[Register::V0] = 0x2A;
    assert_eq!(
        sys.handle_syscall(),
        Err(Interrupt::Software(SoftwareInterrupt::UNSUPPORTED(0x2A)))
    );
}

#[test]
fn print_string_latin1_byte() {
    let mut cpu = Cpu::new();
    cpu.load(vec![0x41, 0xE9, 0x00]).unwrap();
    let mut sys = Sys::new(cpu);
    sys.cpu.regs[Register::V0] = 4;
    sys.cpu.regs[Register::A0] = DRAM_BASE;
    assert_eq!(sys.handle_syscall(), Ok(()));
    assert_eq!(String::from_utf8(sys.take_output()).unwrap(), "A\u{e9}");
}

#[test]
fn print_string_bad_address() {
    let mut sys = Sys::new(Cpu::new());
    sys.cpu.regs[Register::V0] = 4;
    sys.cpu.regs[Register::A0] = 0x10;
    assert_eq!(
        sys.handle_syscall(),
        Err(Interrupt::Exception(ExceptionInterrupt::ADDRL(0x10)))
    );
    assert!(sys.take_output().is_empty());
}

#[test]
fn print_string_runs_off_the_end() {
    let mut sys = Sys::new(Cpu::new());
    let last = DRAM_BASE + DRAM_SIZE as u32 - 2;
    sys.cpu.bus.store(last, 8, 0x61).unwrap();
    sys.cpu.bus.store(last + 1, 8, 0x62).unwrap();
    sys.cpu.regs[Register::V0] = 4;
    sys.cpu.regs[Register::A0] = last;
    assert_eq!(
        sys.handle_syscall(),
        Err(Interrupt::Exception(ExceptionInterrupt::ADDRL(last + 2)))
    );
    assert_eq!(sys.take_output(), b"ab".to_vec());
}

#[test]
fn dram_bad_width() {
    let mut dram = Dram::new(vec![1, 2, 3, 4]);
    assert_eq!(dram.size(), DRAM_SIZE as u32);
    assert_eq!(dram.load(DRAM_BASE, 32), Ok(0x0403_0201));
    assert_eq!(
        dram.load(DRAM_BASE, 64),
        Err(Interrupt::Exception(ExceptionInterrupt::DBUS(
            "Cannot load value of 64 bytes".to_string()
        )))
    );
    assert_eq!(
        dram.store(DRAM_BASE, 12, 0),
        Err(Interrupt::Exception(ExceptionInterrupt::DBUS(
            "Cannot store value of 12 bytes".to_string()
        )))
    );
    assert_eq!(dram.store(DRAM_BASE + 2, 16, 0xAABB), Ok(()));
    assert_eq!(dram.load(DRAM_BASE, 32), Ok(0xAABB_0201));
}

#[test]
fn splice_bounds() {
    let mut bus = Bus::default();
    assert_eq!(bus.dram_splice(8, vec![9, 8, 7]), Ok(()));
    assert_eq!(bus.load(DRAM_BASE + 8, 32), Ok(0x0007_0809));
    let fault = Err(Interrupt::Exception(ExceptionInterrupt::DBUS(
        "Invalid memory address: 0x88000000".to_string(),
    )));
    assert_eq!(bus.dram_splice(DRAM_SIZE as u32 - 2, vec![1, 2]), fault);
    assert_eq!(bus.dram_splice(DRAM_SIZE as u32, vec![]), fault);
    assert_eq!(
        bus.dram_splice(0xFFFF_FFF0, vec![]),
        Err(Interrupt::Exception(ExceptionInterrupt::DBUS(
            "Invalid memory address: 0x17FFFFFF0".to_string()
        )))
    );
    assert_eq!(bus.dram_splice(DRAM_SIZE as u32 - 3, vec![1, 2]), Ok(()));
}

#[test]
fn bus_bad_width_message() {
    let mut bus = Bus::default();
    assert_eq!(
        bus.load(DRAM_BASE, 7),
        Err(Interrupt::Exception(ExceptionInterrupt::DBUS(
            "Cannot load value of 7 bytes".to_string()
        )))
    );
    assert_eq!(
        bus.store(DRAM_BASE, 0, 1),
        Err(Interrupt::Exception(ExceptionInterrupt::DBUS(
            "Cannot store value of 0 bytes".to_string()
        )))
    );
}

#[test]
fn sign_ext_values() {
    assert_eq!(sign_ext(0x80, 8), -128);
    assert_eq!(sign_ext(0x7F, 8), 127);
    assert_eq!(sign_ext(0x8000, 16), -32768);
    assert_eq!(sign_ext(0x2_0000, 18), -131072);
    assert_eq!(sign_ext(0xFFFF_FFFF, 32), -1);
}

#[test]
fn memory_map_regions() {
    let high = MemMap::region(RegionName::HighMem);
    assert_eq!(high.base, 0x8000_0000);
    assert_eq!(high.size, 0);
    let uart = MemMap::region(RegionName::Uart);
    assert_eq!((uart.base, uart.size), (0x1fe0_01e0, 8));
}
