//! Conditions raised out of band while the machine runs.
use vstd::prelude::*;

verus! {

/// Any condition that interrupts normal execution.
#[derive(Debug, Clone, PartialEq, Eq)]
pub enum Interrupt {
    Software(SoftwareInterrupt),
    Hardware(HardwareInterrupt),
    Exception(ExceptionInterrupt),
}

/// Conditions raised by the program or by the supervisor serving it.
#[derive(Debug, Clone, PartialEq, Eq)]
pub enum SoftwareInterrupt {
    /// The program asked for an environment call.
    SYSCALL,
    /// Writing to the output stream failed.
    STDOUT(String),
    /// Reading from the input stream failed.
    STDIN(String),
    /// The environment call with this selector is not served.
    UNSUPPORTED(u32),
}

/// Conditions raised by devices. No device raises one yet: the single
/// variant holds the family's place and is never produced.
#[derive(Debug, Clone, PartialEq, Eq)]
pub enum HardwareInterrupt {
    RESERVED,
}

/// Architectural faults.
#[derive(Debug, Clone, PartialEq, Eq)]
pub enum ExceptionInterrupt {
    /// Load from an address outside memory.
    ADDRL(u32),
    /// Store to an address outside memory.
    ADDRS(u32),
    /// Bus error on instruction fetch.
    IBUS(String),
    /// Bus error on a data reference.
    DBUS(String),
    /// Signed arithmetic overflow.
    OVF,
    /// Jump target that is not word aligned.
    ALIGNMENT(u32),
    /// Behaviour the architecture leaves undefined.
    UNDEFINED,
    /// Instruction word that is not implemented.
    UNSUPPORTED(u32),
    /// Division by zero.
    DIVZERO,
}

/// The result of an operation that may be interrupted.
pub type Result<T> = core::result::Result<T, Interrupt>;

/// `r` is a bus error on a data reference whose message is `text`.
pub open spec fn is_dbus<T>(r: Result<T>, text: Seq<char>) -> bool {
    match r {
        Err(Interrupt::Exception(ExceptionInterrupt::DBUS(m))) => m@ == text,
        _ => false,
    }
}

} // verus!
