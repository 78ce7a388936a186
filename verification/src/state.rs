//! A task's scheduling state and health, and how the listing explains them.

use vstd::prelude::*;
use crate::task_id::{KERNEL_TASK_ID, TaskId, task_id_text, push_task_id, named_task};
use crate::fault::{FaultInfo, fault_text, explain_fault_info};
use crate::notification::{recv_text, explain_recv};

verus! {

/// Where the scheduler has a task.
#[derive(Clone, Copy, Debug, PartialEq, Eq, Structural)]
pub enum SchedState {
    /// Not yet started.
    Stopped,
    /// Ready to run, or running.
    Runnable,
    /// Waiting to send a message to the given task.
    InSend(TaskId),
    /// Waiting for the given task to reply.
    InReply(TaskId),
    /// Waiting to receive, from the given task alone where one is given.
    InRecv(Option<TaskId>),
}

/// A task's health: its scheduling state, or the fault that stopped it and
/// the state it was in.
#[derive(Clone, Copy, Debug, PartialEq, Eq, Structural)]
pub enum TaskState {
    Healthy(SchedState),
    Faulted { fault: FaultInfo, original_state: SchedState },
}

/// What the listing prints for a scheduling state, given the names of the tasks
/// by index, whether the task is the one running, the interrupt table and the
/// task's timer (time left and the bits it posts), and the notification mask
/// that a task in receive waits on.
pub open spec fn sched_text(
    names: Seq<String>,
    current: bool,
    irqs: Seq<(u32, u32)>,
    timer: Option<(i64, u32)>,
    notmask: u32,
    state: SchedState,
) -> Seq<char> {
    match state {
        SchedState::Stopped => "not started"@,
        SchedState::Runnable => if current { "RUNNING"@ } else { "ready"@ },
        SchedState::InSend(t) =>
            if t.is_kernel() { "HALT: send to kernel"@ } else { "wait: send to "@ + task_id_text(names, t) },
        SchedState::InReply(t) => "wait: reply from "@ + task_id_text(names, t),
        SchedState::InRecv(src) => recv_text(names, src, notmask, irqs, timer),
    }
}

/// What the listing prints for a task's state: the scheduling state, or the
/// fault followed by ` (was: `, the state the task was in, and `)`.
pub open spec fn state_text(
    names: Seq<String>,
    current: bool,
    irqs: Seq<(u32, u32)>,
    timer: Option<(i64, u32)>,
    notmask: u32,
    panic_message: Seq<u8>,
    state: TaskState,
) -> Seq<char> {
    match state {
        TaskState::Healthy(s) => sched_text(names, current, irqs, timer, notmask, s),
        TaskState::Faulted { fault, original_state } =>
            fault_text(names, fault, panic_message) + " (was: "@
                + sched_text(names, current, irqs, timer, notmask, original_state) + ")"@,
    }
}

/// Whether explaining the state reads the notification mask: the task is, or
/// was when it faulted, in receive.
pub open spec fn spec_needs_notification_mask(state: TaskState) -> bool {
    match state {
        TaskState::Healthy(s) => s is InRecv,
        TaskState::Faulted { original_state, .. } => original_state is InRecv,
    }
}

/// Whether explaining the state reads a panic message: the task panicked.
pub open spec fn spec_needs_panic_message(state: TaskState) -> bool {
    state matches TaskState::Faulted { fault: FaultInfo::Panic, .. }
}

/// Whether explaining `state` reads the notification mask that the task waits
/// on (which is in its registers).
pub fn needs_notification_mask(state: &TaskState) -> (r: bool)
    ensures
        r == spec_needs_notification_mask(*state),
{
    match state {
        TaskState::Healthy(s) => matches!(s, SchedState::InRecv(_)),
        TaskState::Faulted { original_state, .. } => matches!(original_state, SchedState::InRecv(_)),
    }
}

/// Whether explaining `state` reads the task's panic message (which is in its
/// memory).
pub fn needs_panic_message(state: &TaskState) -> (r: bool)
    ensures
        r == spec_needs_panic_message(*state),
{
    match state {
        TaskState::Faulted { fault: FaultInfo::Panic, .. } => true,
        _ => false,
    }
}

/// Appends what the listing prints for a scheduling state.
pub fn explain_sched_state(
    out: &mut String,
    names: &Vec<String>,
    current: bool,
    irqs: &[(u32, u32)],
    timer: Option<(i64, u32)>,
    notmask: u32,
    state: SchedState,
)
    ensures
        final(out)@ == old(out)@ + sched_text(names@, current, irqs@, timer, notmask, state),
{
    match state {
        SchedState::Stopped => out.append("not started"),
        SchedState::Runnable => {
            if current {
                out.append("RUNNING");
            } else {
                out.append("ready");
            }
        },
        SchedState::InSend(t) => {
            if t.0 == KERNEL_TASK_ID {
                out.append("HALT: send to kernel");
            } else {
                out.append("wait: send to ");
                push_task_id(out, names, t);
            }
        },
        SchedState::InReply(t) => {
            out.append("wait: reply from ");
            push_task_id(out, names, t);
        },
        SchedState::InRecv(src) => explain_recv(out, names, src, notmask, irqs, timer),
    }
    assert(out@ =~= old(out)@ + sched_text(names@, current, irqs@, timer, notmask, state));
}

/// Appends what the listing prints for a task's state.
pub fn explain_state(
    out: &mut String,
    names: &Vec<String>,
    current: bool,
    irqs: &[(u32, u32)],
    timer: Option<(i64, u32)>,
    notmask: u32,
    panic_message: &[u8],
    state: TaskState,
)
    ensures
        final(out)@ == old(out)@ + state_text(names@, current, irqs@, timer, notmask, panic_message@, state),
{
    match state {
        TaskState::Healthy(s) => explain_sched_state(out, names, current, irqs, timer, notmask, s),
        TaskState::Faulted { fault, original_state } => {
            explain_fault_info(out, names, fault, panic_message);
            out.append(" (was: ");
            explain_sched_state(out, names, current, irqs, timer, notmask, original_state);
            out.append(")");
        },
    }
    assert(out@ =~= old(out)@ + state_text(names@, current, irqs@, timer, notmask, panic_message@, state));
}

/// Explaining a state reads the notification mask only where the task is, or
/// was, in receive, and the panic message only where the task panicked: the
/// text is the same for any other mask or message.
pub proof fn lemma_state_text_reads_only_what_it_needs(
    names: Seq<String>,
    current: bool,
    irqs: Seq<(u32, u32)>,
    timer: Option<(i64, u32)>,
    state: TaskState,
    notmask1: u32,
    notmask2: u32,
    message1: Seq<u8>,
    message2: Seq<u8>,
)
    ensures
        !spec_needs_notification_mask(state) ==>
            state_text(names, current, irqs, timer, notmask1, message1, state)
                == state_text(names, current, irqs, timer, notmask2, message1, state),
        !spec_needs_panic_message(state) ==>
            state_text(names, current, irqs, timer, notmask1, message1, state)
                == state_text(names, current, irqs, timer, notmask1, message2, state),
{
}

/// A task waiting to send to, or for the reply of, another task names that task
/// by the index and the generation in its identifier; sending to the kernel is
/// a halt.
pub proof fn lemma_peer_named(
    names: Seq<String>,
    current: bool,
    irqs: Seq<(u32, u32)>,
    timer: Option<(i64, u32)>,
    notmask: u32,
    t: TaskId,
)
    ensures
        t.0 != KERNEL_TASK_ID ==> sched_text(names, current, irqs, timer, notmask, SchedState::InSend(t))
            == "wait: send to "@ + named_task(names, t.0),
        t.0 == KERNEL_TASK_ID ==> sched_text(names, current, irqs, timer, notmask, SchedState::InSend(t))
            == "HALT: send to kernel"@,
        sched_text(names, current, irqs, timer, notmask, SchedState::InReply(t))
            == "wait: reply from "@ + named_task(names, t.0),
{
    assert(sched_text(names, current, irqs, timer, notmask, SchedState::InReply(t))
        =~= "wait: reply from "@ + named_task(names, t.0));
    if t.0 != KERNEL_TASK_ID {
        assert(sched_text(names, current, irqs, timer, notmask, SchedState::InSend(t))
            =~= "wait: send to "@ + named_task(names, t.0));
    }
}

/// A ready task reads `RUNNING` exactly where it is the one running.
pub proof fn lemma_running_shown(
    names: Seq<String>,
    current: bool,
    irqs: Seq<(u32, u32)>,
    timer: Option<(i64, u32)>,
    notmask: u32,
)
    ensures
        (sched_text(names, current, irqs, timer, notmask, SchedState::Runnable) == "RUNNING"@) <==> current,
{
    reveal_strlit("RUNNING");
    reveal_strlit("ready");
    assert("ready"@.len() != "RUNNING"@.len());
}

} // verus!
