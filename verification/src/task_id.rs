//! Task identifiers: a task's index in the task table and its generation,
//! packed in sixteen bits, and how the listing names a task.

use vstd::prelude::*;
use crate::text::{dec_digits, push_dec};

verus! {

/// A task identifier: the low ten bits are the task's index, the high six
/// bits its generation.
#[derive(Clone, Copy, Debug, PartialEq, Eq, Structural)]
pub struct TaskId(pub u16);

/// The identifier by which the kernel itself is named.
pub const KERNEL_TASK_ID: u16 = 0xffff;

impl TaskId {
    /// The kernel's identifier.
    pub fn kernel() -> (k: TaskId)
        ensures
            k.is_kernel(),
    {
        TaskId(KERNEL_TASK_ID)
    }

    /// The task index that this identifier names.
    pub open spec fn spec_index(self) -> nat {
        (self.0 % 1024) as nat
    }

    /// The generation that this identifier names.
    pub open spec fn spec_generation(self) -> nat {
        (self.0 / 1024) as nat
    }

    /// Whether this is the kernel's identifier.
    pub open spec fn is_kernel(self) -> bool {
        self.0 == KERNEL_TASK_ID
    }

    /// The task index: the low ten bits.
    pub fn index(&self) -> (i: u16)
        ensures
            i == self.spec_index(),
            i < 1024,
    {
        let v = self.0;
        assert(v & 0x3ff == v % 1024) by (bit_vector);
        assert(v & 0x3ff < 1024) by (bit_vector);
        v & 0x3ff
    }

    /// The generation: the high six bits.
    pub fn generation(&self) -> (g: u8)
        ensures
            g == self.spec_generation(),
            g < 64,
    {
        let v = self.0;
        assert(v >> 10 == v / 1024) by (bit_vector);
        assert(v >> 10 < 64) by (bit_vector);
        (v >> 10) as u8
    }
}

/// An identifier is its generation and its index, put together.
pub proof fn lemma_task_id_parts(id: TaskId)
    ensures
        id.spec_index() < 1024,
        id.spec_generation() < 64,
        id.0 == id.spec_generation() * 1024 + id.spec_index(),
{
}

/// How the listing names the task that `id` identifies, given the names of the
/// tasks by index: the name, or `unknown#` and the index where the index has
/// no name, then `/gen` and the generation.
pub open spec fn task_id_text(names: Seq<String>, id: TaskId) -> Seq<char> {
    let i = id.spec_index();
    (if i < names.len() { names[i as int]@ } else { "unknown#"@ + dec_digits(i) })
        + "/gen"@ + dec_digits(id.spec_generation())
}

/// Appends the listing's name for the task that `id` identifies.
pub fn push_task_id(out: &mut String, names: &Vec<String>, id: TaskId)
    ensures
        final(out)@ == old(out)@ + task_id_text(names@, id),
{
    let index = id.index();
    if (index as usize) < names.len() {
        out.append(names[index as usize].as_str());
    } else {
        out.append("unknown#");
        push_dec(out, index as u64);
    }
    out.append("/gen");
    push_dec(out, id.generation() as u64);
    assert(out@ =~= old(out)@ + task_id_text(names@, id));
}

/// How the listing names the task with identifier `raw`: the name of its index
/// (the low ten bits), or `unknown#` and the index, then `/gen` and its
/// generation (the high six bits).
pub open spec fn named_task(names: Seq<String>, raw: u16) -> Seq<char> {
    let index = (raw % 1024) as nat;
    (if index < names.len() { names[index as int]@ } else { "unknown#"@ + dec_digits(index) })
        + "/gen"@ + dec_digits((raw / 1024) as nat)
}

} // verus!
