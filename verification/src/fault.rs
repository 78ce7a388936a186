//! Faults that the kernel records against a task, and how the listing
//! explains them.

use vstd::prelude::*;
use vstd::utf8::{valid_utf8, decode_utf8, encode_utf8, encode_utf8_decode_utf8, decode_utf8_encode_utf8};
use vstd::string::StringSliceAdditionalSpecFns;
use crate::text::{hex_digits, push_hex, ends_with, lemma_ends_with_appended, lemma_ends_with_last};
use crate::task_id::{TaskId, task_id_text, push_task_id, named_task};

verus! {

/// Where a memory or bus fault arose.
#[derive(Clone, Copy, Debug, PartialEq, Eq, Structural)]
pub enum FaultSource {
    /// In the task's own code.
    User,
    /// In the kernel, on the task's behalf, during a system call.
    Kernel,
}

/// How a task misused a system call.
#[derive(Clone, Copy, Debug, PartialEq, Eq, Structural)]
pub enum UsageError {
    BadSyscallNumber,
    InvalidSlice,
    TaskOutOfRange,
    IllegalTask,
    LeaseOutOfRange,
    OffsetOutOfRange,
    NoIrq,
    BadKernelMessage,
}

/// The fault recorded against a task.
#[allow(inconsistent_fields)]
#[derive(Clone, Copy, Debug, PartialEq, Eq, Structural)]
pub enum FaultInfo {
    /// A memory protection fault, at the address where it is known.
    MemoryAccess { address: Option<u32>, source: FaultSource },
    /// A bus fault, at the address where it is known.
    BusError { address: Option<u32>, source: FaultSource },
    /// The stack overflowed, at this stack pointer.
    StackOverflow { address: u32 },
    /// A jump into memory that is not executable.
    IllegalText,
    /// An instruction that could not be decoded.
    IllegalInstruction,
    /// Another fault, with the fault status register's bits.
    InvalidOperation(u32),
    /// A misused system call.
    SyscallUsage(UsageError),
    /// The task panicked.
    Panic,
    /// Another task injected the fault.
    Injected(TaskId),
    /// A division by zero.
    DivideByZero,
}

/// The most bytes of a panic message that the listing reads.
pub const PANIC_MESSAGE_LIMIT: u32 = 255;

/// What the listing prints for where a fault arose.
pub open spec fn fault_source_text(e: FaultSource) -> Seq<char> {
    match e {
        FaultSource::User => " in task code"@,
        FaultSource::Kernel => " in syscall"@,
    }
}

/// What the listing prints for a misused system call.
pub open spec fn usage_error_text(e: UsageError) -> Seq<char> {
    match e {
        UsageError::BadSyscallNumber => "undefined syscall number"@,
        UsageError::InvalidSlice => "sent malformed slice to kernel"@,
        UsageError::TaskOutOfRange => "used bogus task index"@,
        UsageError::IllegalTask => "illegal task operation"@,
        UsageError::LeaseOutOfRange => "bad caller lease index"@,
        UsageError::OffsetOutOfRange => "bad caller lease offset"@,
        UsageError::NoIrq => "referred to undefined interrupt"@,
        UsageError::BadKernelMessage => "sent nonsense IPC to kernel"@,
    }
}

/// What the listing prints for a panic message: the text that its bytes
/// encode where they are UTF-8, else a note that they are not.
pub open spec fn panic_text(message: Seq<u8>) -> Seq<char> {
    if valid_utf8(message) {
        decode_utf8(message)
    } else {
        "panic with invalid message"@
    }
}

/// What the listing prints for the address of a memory or bus fault.
pub open spec fn fault_address_text(address: Option<u32>) -> Seq<char> {
    match address {
        Some(a) => "precise: 0x"@ + hex_digits(a as nat),
        None => "imprecise"@,
    }
}

/// What the listing prints for a fault, given the names of the tasks by index
/// and, for a panic, the message that the task left.
pub open spec fn fault_text(names: Seq<String>, fault: FaultInfo, panic_message: Seq<u8>) -> Seq<char> {
    "FAULT: "@ + match fault {
        FaultInfo::DivideByZero => "divide by zero"@,
        FaultInfo::IllegalText => "jump to non-executable mem"@,
        FaultInfo::IllegalInstruction => "illegal instruction"@,
        FaultInfo::InvalidOperation(bits) => "general fault, cfsr=0x"@ + hex_digits(bits as nat),
        FaultInfo::StackOverflow { address } => "stack overflow; sp=0x"@ + hex_digits(address as nat),
        FaultInfo::Injected(task) => "killed by "@ + task_id_text(names, task),
        FaultInfo::MemoryAccess { address, source } =>
            "mem fault ("@ + fault_address_text(address) + ")"@ + fault_source_text(source),
        FaultInfo::BusError { address, source } =>
            "bus fault ("@ + fault_address_text(address) + ")"@ + fault_source_text(source),
        FaultInfo::SyscallUsage(e) => "in syscall: "@ + usage_error_text(e),
        FaultInfo::Panic => panic_text(panic_message),
    }
}

/// Appends what the listing prints for a misused system call.
pub fn explain_usage_error(out: &mut String, e: UsageError)
    ensures
        final(out)@ == old(out)@ + usage_error_text(e),
{
    match e {
        UsageError::BadSyscallNumber => out.append("undefined syscall number"),
        UsageError::InvalidSlice => out.append("sent malformed slice to kernel"),
        UsageError::TaskOutOfRange => out.append("used bogus task index"),
        UsageError::IllegalTask => out.append("illegal task operation"),
        UsageError::LeaseOutOfRange => out.append("bad caller lease index"),
        UsageError::OffsetOutOfRange => out.append("bad caller lease offset"),
        UsageError::NoIrq => out.append("referred to undefined interrupt"),
        UsageError::BadKernelMessage => out.append("sent nonsense IPC to kernel"),
    }
}

/// Appends what the listing prints for where a fault arose.
pub fn explain_fault_source(out: &mut String, e: FaultSource)
    ensures
        final(out)@ == old(out)@ + fault_source_text(e),
{
    match e {
        FaultSource::User => out.append(" in task code"),
        FaultSource::Kernel => out.append(" in syscall"),
    }
}

/// How many bytes of a panic message the listing reads, given the length
/// that the task reported: that length, but at most 255.
pub fn panic_message_len(reported: u32) -> (len: usize)
    ensures
        len == if reported < PANIC_MESSAGE_LIMIT { reported } else { PANIC_MESSAGE_LIMIT },
{
    if reported < PANIC_MESSAGE_LIMIT {
        reported as usize
    } else {
        PANIC_MESSAGE_LIMIT as usize
    }
}

/// `std::str::from_utf8`: the bytes as a string slice where they are valid
/// UTF-8 (the slice holds the same bytes), and nothing where they are not.
#[verifier::external_body]
fn utf8_str(bytes: &[u8]) -> (text: Option<&str>)
    ensures
        text is Some <==> valid_utf8(bytes@),
        text matches Some(t) ==> t.spec_bytes() == bytes@,
{
    std::str::from_utf8(bytes).ok()
}

/// Appends what the listing prints for a panic message.
pub fn push_panic_message(out: &mut String, message: &[u8])
    ensures
        final(out)@ == old(out)@ + panic_text(message@),
{
    match utf8_str(message) {
        Some(text) => {
            proof {
                encode_utf8_decode_utf8(text@);
            }
            out.append(text);
        },
        None => out.append("panic with invalid message"),
    }
}

/// Appends `precise: 0x` and the address, or `imprecise`.
fn push_fault_address(out: &mut String, address: Option<u32>)
    ensures
        final(out)@ == old(out)@ + fault_address_text(address),
{
    match address {
        Some(a) => {
            out.append("precise: 0x");
            push_hex(out, a as u64);
        },
        None => out.append("imprecise"),
    }
    assert(out@ =~= old(out)@ + fault_address_text(address));
}

/// Appends what the listing prints for a fault, given the names of the tasks
/// by index and, for a panic, the message that the task left.
pub fn explain_fault_info(out: &mut String, names: &Vec<String>, fault: FaultInfo, panic_message: &[u8])
    ensures
        final(out)@ == old(out)@ + fault_text(names@, fault, panic_message@),
{
    out.append("FAULT: ");
    let ghost start = out@;
    match fault {
        FaultInfo::DivideByZero => out.append("divide by zero"),
        FaultInfo::IllegalText => out.append("jump to non-executable mem"),
        FaultInfo::IllegalInstruction => out.append("illegal instruction"),
        FaultInfo::InvalidOperation(bits) => {
            out.append("general fault, cfsr=0x");
            push_hex(out, bits as u64);
        },
        FaultInfo::StackOverflow { address } => {
            out.append("stack overflow; sp=0x");
            push_hex(out, address as u64);
        },
        FaultInfo::Injected(task) => {
            out.append("killed by ");
            push_task_id(out, names, task);
        },
        FaultInfo::MemoryAccess { address, source } => {
            out.append("mem fault (");
            push_fault_address(out, address);
            out.append(")");
            explain_fault_source(out, source);
        },
        FaultInfo::BusError { address, source } => {
            out.append("bus fault (");
            push_fault_address(out, address);
            out.append(")");
            explain_fault_source(out, source);
        },
        FaultInfo::SyscallUsage(e) => {
            out.append("in syscall: ");
            explain_usage_error(out, e);
        },
        FaultInfo::Panic => push_panic_message(out, panic_message),
    }
    assert(out@ =~= old(out)@ + fault_text(names@, fault, panic_message@));
}

/// A memory or bus fault ends ` in task code` exactly where it arose in the
/// task's code, and ` in syscall` exactly where it arose in the kernel,
/// whatever its address.
pub proof fn lemma_fault_source_shown(names: Seq<String>, address: Option<u32>, source: FaultSource, panic_message: Seq<u8>)
    ensures
        ends_with(fault_text(names, FaultInfo::BusError { address, source }, panic_message), " in task code"@)
            <==> source == FaultSource::User,
        ends_with(fault_text(names, FaultInfo::BusError { address, source }, panic_message), " in syscall"@)
            <==> source == FaultSource::Kernel,
        ends_with(fault_text(names, FaultInfo::MemoryAccess { address, source }, panic_message), " in task code"@)
            <==> source == FaultSource::User,
        ends_with(fault_text(names, FaultInfo::MemoryAccess { address, source }, panic_message), " in syscall"@)
            <==> source == FaultSource::Kernel,
{
    reveal_strlit(" in task code");
    reveal_strlit(" in syscall");
    let middle = fault_address_text(address) + ")"@;
    let bus = "FAULT: "@ + ("bus fault ("@ + middle + fault_source_text(source));
    let mem = "FAULT: "@ + ("mem fault ("@ + middle + fault_source_text(source));
    assert(fault_text(names, FaultInfo::BusError { address, source }, panic_message) =~= bus);
    assert(fault_text(names, FaultInfo::MemoryAccess { address, source }, panic_message) =~= mem);
    let bus_head = "FAULT: "@ + "bus fault ("@ + middle;
    let mem_head = "FAULT: "@ + "mem fault ("@ + middle;
    assert(bus =~= bus_head + fault_source_text(source));
    assert(mem =~= mem_head + fault_source_text(source));
    lemma_ends_with_appended(bus_head, fault_source_text(source));
    lemma_ends_with_appended(mem_head, fault_source_text(source));
    if ends_with(bus, " in task code"@) {
        lemma_ends_with_last(bus, " in task code"@);
    }
    if ends_with(bus, " in syscall"@) {
        lemma_ends_with_last(bus, " in syscall"@);
    }
    if ends_with(mem, " in task code"@) {
        lemma_ends_with_last(mem, " in task code"@);
    }
    if ends_with(mem, " in syscall"@) {
        lemma_ends_with_last(mem, " in syscall"@);
    }
    lemma_ends_with_last(bus, fault_source_text(source));
    lemma_ends_with_last(mem, fault_source_text(source));
}

/// A fault injected by another task names that task by index and generation.
pub proof fn lemma_injector_named(names: Seq<String>, t: TaskId, panic_message: Seq<u8>)
    ensures
        fault_text(names, FaultInfo::Injected(t), panic_message) == "FAULT: killed by "@ + named_task(names, t.0),
{
    reveal_strlit("FAULT: ");
    reveal_strlit("killed by ");
    reveal_strlit("FAULT: killed by ");
    assert("FAULT: killed by "@ =~= "FAULT: "@ + "killed by "@);
    assert(fault_text(names, FaultInfo::Injected(t), panic_message) =~= "FAULT: killed by "@ + named_task(names, t.0));
}

/// A panic is shown with the task's message itself where the message is
/// UTF-8: what follows `FAULT: ` encodes to exactly the message's bytes.
pub proof fn lemma_panic_message_shown(names: Seq<String>, message: Seq<u8>)
    requires
        valid_utf8(message),
    ensures
        ({
            let text = fault_text(names, FaultInfo::Panic, message);
            &&& text.take(7) == "FAULT: "@
            &&& encode_utf8(text.skip(7)) == message
        }),
{
    reveal_strlit("FAULT: ");
    decode_utf8_encode_utf8(message);
    let text = fault_text(names, FaultInfo::Panic, message);
    assert(text =~= "FAULT: "@ + decode_utf8(message));
    assert(text.take(7) =~= "FAULT: "@);
    assert(text.skip(7) =~= decode_utf8(message));
}

} // verus!
