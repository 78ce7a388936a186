use humility_cmd_tasks::fault::{
    explain_fault_info, explain_fault_source, explain_usage_error, panic_message_len, push_panic_message,
    FaultInfo, FaultSource, UsageError,
};
use humility_cmd_tasks::state::{
    explain_sched_state, explain_state, needs_notification_mask, needs_panic_message, SchedState, TaskState,
};
use humility_cmd_tasks::task_id::TaskId;

fn names() -> Vec<String> {
    vec!["jefe".to_string(), "pong".to_string(), "ping".to_string()]
}

fn fault(f: FaultInfo, message: &[u8]) -> String {
    let mut s = String::new();
    explain_fault_info(&mut s, &names(), f, message);
    s
}

fn sched(current: bool, state: SchedState) -> String {
    let mut s = String::new();
    explain_sched_state(&mut s, &names(), current, &[], None, 0, state);
    s
}

#[test]
fn scheduling_states() {
    assert_eq!(sched(false, SchedState::Stopped), "not started");
    assert_eq!(sched(false, SchedState::Runnable), "ready");
    assert_eq!(sched(true, SchedState::Runnable), "RUNNING");
    assert_eq!(sched(false, SchedState::InSend(TaskId(1))), "wait: send to pong/gen0");
    assert_eq!(sched(false, SchedState::InSend(TaskId::kernel())), "HALT: send to kernel");
    assert_eq!(sched(false, SchedState::InReply(TaskId((2 << 10) | 2))), "wait: reply from ping/gen2");
    assert_eq!(sched(false, SchedState::InReply(TaskId(40))), "wait: reply from unknown#40/gen0");
    assert_eq!(sched(false, SchedState::InRecv(None)), "recv");
}

#[test]
fn receive_reads_the_notification_mask() {
    let mut s = String::new();
    explain_sched_state(&mut s, &names(), false, &[(1, 39)], None, 1, SchedState::InRecv(None));
    assert_eq!(s, "recv, notif: bit0(irq39)");
}

#[test]
fn simple_faults() {
    assert_eq!(fault(FaultInfo::DivideByZero, &[]), "FAULT: divide by zero");
    assert_eq!(fault(FaultInfo::IllegalText, &[]), "FAULT: jump to non-executable mem");
    assert_eq!(fault(FaultInfo::IllegalInstruction, &[]), "FAULT: illegal instruction");
    assert_eq!(fault(FaultInfo::InvalidOperation(0x200), &[]), "FAULT: general fault, cfsr=0x200");
    assert_eq!(
        fault(FaultInfo::StackOverflow { address: 0x20005ff8 }, &[]),
        "FAULT: stack overflow; sp=0x20005ff8"
    );
    assert_eq!(fault(FaultInfo::Injected(TaskId(0)), &[]), "FAULT: killed by jefe/gen0");
}

#[test]
fn memory_and_bus_faults() {
    assert_eq!(
        fault(FaultInfo::MemoryAccess { address: Some(0x10), source: FaultSource::User }, &[]),
        "FAULT: mem fault (precise: 0x10) in task code"
    );
    assert_eq!(
        fault(FaultInfo::MemoryAccess { address: None, source: FaultSource::Kernel }, &[]),
        "FAULT: mem fault (imprecise) in syscall"
    );
    assert_eq!(
        fault(FaultInfo::BusError { address: Some(0xdeadbeef), source: FaultSource::Kernel }, &[]),
        "FAULT: bus fault (precise: 0xdeadbeef) in syscall"
    );
    assert_eq!(
        fault(FaultInfo::BusError { address: None, source: FaultSource::User }, &[]),
        "FAULT: bus fault (imprecise) in task code"
    );
}

#[test]
fn syscall_usage_faults() {
    let cases = [
        (UsageError::BadSyscallNumber, "undefined syscall number"),
        (UsageError::InvalidSlice, "sent malformed slice to kernel"),
        (UsageError::TaskOutOfRange, "used bogus task index"),
        (UsageError::IllegalTask, "illegal task operation"),
        (UsageError::LeaseOutOfRange, "bad caller lease index"),
        (UsageError::OffsetOutOfRange, "bad caller lease offset"),
        (UsageError::NoIrq, "referred to undefined interrupt"),
        (UsageError::BadKernelMessage, "sent nonsense IPC to kernel"),
    ];
    for (e, text) in cases {
        assert_eq!(fault(FaultInfo::SyscallUsage(e), &[]), format!("FAULT: in syscall: {}", text));
        let mut s = String::new();
        explain_usage_error(&mut s, e);
        assert_eq!(s, text);
    }
}

#[test]
fn fault_sources() {
    let mut s = String::new();
    explain_fault_source(&mut s, FaultSource::User);
    explain_fault_source(&mut s, FaultSource::Kernel);
    assert_eq!(s, " in task code in syscall");
}

#[test]
fn panic_messages() {
    assert_eq!(fault(FaultInfo::Panic, b"panicked at 'oops', src/main.rs:3:5"), "FAULT: panicked at 'oops', src/main.rs:3:5");
    assert_eq!(fault(FaultInfo::Panic, "déjà vu".as_bytes()), "FAULT: déjà vu");
    assert_eq!(fault(FaultInfo::Panic, &[]), "FAULT: ");
    assert_eq!(fault(FaultInfo::Panic, &[0x66, 0xff, 0x6f]), "FAULT: panic with invalid message");
    let mut s = String::new();
    push_panic_message(&mut s, &[0xe2, 0x80]);
    assert_eq!(s, "panic with invalid message");
}

#[test]
fn panic_message_length_is_capped() {
    assert_eq!(panic_message_len(0), 0);
    assert_eq!(panic_message_len(17), 17);
    assert_eq!(panic_message_len(254), 254);
    assert_eq!(panic_message_len(255), 255);
    assert_eq!(panic_message_len(256), 255);
    assert_eq!(panic_message_len(u32::MAX), 255);
}

#[test]
fn faulted_state_shows_what_it_was() {
    let mut s = String::new();
    let state = TaskState::Faulted {
        fault: FaultInfo::Injected(TaskId(0)),
        original_state: SchedState::InRecv(None),
    };
    explain_state(&mut s, &names(), false, &[], None, 1, &[], state);
    assert_eq!(s, "FAULT: killed by jefe/gen0 (was: recv, notif: bit0)");
}

#[test]
fn healthy_state_is_the_scheduling_state() {
    let mut s = String::new();
    explain_state(&mut s, &names(), true, &[], None, 0, &[], TaskState::Healthy(SchedState::Runnable));
    assert_eq!(s, "RUNNING");
}

#[test]
fn which_states_read_registers_or_memory() {
    let recv = TaskState::Healthy(SchedState::InRecv(Some(TaskId(1))));
    let was_recv = TaskState::Faulted { fault: FaultInfo::DivideByZero, original_state: SchedState::InRecv(None) };
    let panicked = TaskState::Faulted { fault: FaultInfo::Panic, original_state: SchedState::Runnable };
    let ready = TaskState::Healthy(SchedState::Runnable);
    assert!(needs_notification_mask(&recv));
    assert!(needs_notification_mask(&was_recv));
    assert!(!needs_notification_mask(&panicked));
    assert!(!needs_notification_mask(&ready));
    assert!(needs_panic_message(&panicked));
    assert!(!needs_panic_message(&was_recv));
    assert!(!needs_panic_message(&ready));
}

#[test]
fn unread_inputs_do_not_change_the_text() {
    let ready = TaskState::Healthy(SchedState::Runnable);
    let mut a = String::new();
    let mut b = String::new();
    explain_state(&mut a, &names(), false, &[], None, 0, &[], ready);
    explain_state(&mut b, &names(), false, &[], None, 0xff, b"message", ready);
    assert_eq!(a, b);
}
