//! One pass of the task listing: the system time, a header, and a row for
//! each task, with what the options ask for beneath it.

use vstd::prelude::*;
use vstd::utf8::{
    encode_utf8, decode_utf8, is_char_boundary, encode_utf8_decode_utf8, encode_utf8_valid_utf8,
    decode_utf8_encode_utf8, valid_utf8_split, encode_scalar,
};
use vstd::string::StringSliceAdditionalSpecFns;
use crate::text::{dec_digits, pad_left, pad_right, lemma_dec_digits_len, push_dec, push_dec_width, push_pad_right};
use crate::state::{TaskState, state_text, explain_state};
use crate::stack::{StackFrame, stack_text, format_stack, source_reference, lemma_stack_shows_sources};
use crate::text::{contains_text, lemma_contains_within};
use crate::registers::{RegisterValue, registers_text, format_registers};

verus! {

/// What the listing is asked to show.
#[derive(Debug)]
pub struct TasksOptions {
    /// Each task's registers.
    pub registers: bool,
    /// Each task's stack backtrace.
    pub stack: bool,
    /// Lines of source in the backtrace.
    pub line: bool,
    /// List again and again.
    pub spin: bool,
    /// Each task's whole record.
    pub verbose: bool,
    /// The one task to show, by name.
    pub task: Option<String>,
}

/// What the listing reads of one task.
#[derive(Debug)]
pub struct TaskRecord {
    /// The task's index in the task table.
    pub index: u32,
    /// The name of the module that the task's entry point lies in, where known.
    pub module: Option<String>,
    pub generation: u32,
    pub priority: u8,
    pub state: TaskState,
    /// The address of the task's entry in the task table.
    pub address: u32,
    /// The interrupts routed to the task: pairs of a notification mask and an
    /// interrupt number.
    pub irqs: Vec<(u32, u32)>,
    /// When the task's timer fires, where it is set.
    pub deadline: Option<u64>,
    /// The notification bits that the task's timer posts.
    pub to_post: u32,
    /// The notification bits that the task waits on, where it is in receive.
    pub notmask: u32,
    /// The message that the task left, where it panicked.
    pub panic_message: Vec<u8>,
    /// The task's registers, where they are asked for.
    pub registers: Vec<RegisterValue>,
    /// The task's stack backtrace, or why it could not be unwound, where it is
    /// asked for.
    pub stack: Result<Vec<StackFrame>, String>,
    /// The task's whole record, printed, where it is asked for.
    pub dump: String,
}

/// What one pass of the listing prints, and whether the task asked for has
/// been found, in this pass or an earlier one.
#[derive(Debug)]
pub struct PassOutput {
    pub text: String,
    pub found: bool,
    /// Why the pass fails: the task asked for is not a task.
    pub error: Option<String>,
}

/// The most bytes of a task's name that a row shows.
pub const NAME_LIMIT: usize = 14;

/// The name of a task's module, or `<unknown>`.
pub open spec fn module_text(module: Option<String>) -> Seq<char> {
    match module {
        Some(m) => m@,
        None => "<unknown>"@,
    }
}

/// Whether the listing shows a task with this module name, given the task asked for.
pub open spec fn selected(filter: Option<String>, module: Option<String>) -> bool {
    match filter {
        Some(t) => t@ == module_text(module),
        None => true,
    }
}

/// Whether a row shortens this name: it is longer than 14 bytes.
pub open spec fn name_truncated(name: Seq<char>) -> bool {
    encode_utf8(name).len() > NAME_LIMIT
}

/// A name as a row shows it: its first 14 bytes and `…` where it is longer.
pub open spec fn shown_name(name: Seq<char>) -> Seq<char> {
    if name_truncated(name) {
        decode_utf8(encode_utf8(name).take(NAME_LIMIT as int)) + "…"@
    } else {
        name
    }
}

/// A name can be shortened: it is no longer than 14 bytes, or its 14th byte
/// ends a character.
pub open spec fn name_shortenable(name: Seq<char>) -> bool {
    name_truncated(name) ==> is_char_boundary(encode_utf8(name), NAME_LIMIT as int)
}

/// The time left on a task's timer, and the bits it posts, where it is set.
pub open spec fn timer_of(r: TaskRecord, ticks: u64) -> Option<(i64, u32)> {
    match r.deadline {
        Some(d) => Some((((d as i64) - (ticks as i64)) as i64, r.to_post)),
        None => None,
    }
}

/// The time left on a task's timer can be computed: the difference fits in 64 bits.
pub open spec fn timer_computable(r: TaskRecord, ticks: u64) -> bool {
    r.deadline matches Some(d) ==> i64::MIN <= (d as i64) - (ticks as i64) <= i64::MAX
}

/// The listing can show a task: its timer and its name are in order.
pub open spec fn record_ok(r: TaskRecord, ticks: u64) -> bool {
    &&& timer_computable(r, ticks)
    &&& name_shortenable(module_text(r.module))
}

/// The head of a task's row: index, name, generation and priority, in columns
/// of 2, 15, 8 and 3 characters.
pub open spec fn row_prefix_text(index: u32, name: Seq<char>, generation: u32, priority: u8) -> Seq<char> {
    pad_left(dec_digits(index as nat), 2, ' ') + " "@ + pad_right(name, 15) + " "@
        + pad_left(dec_digits(generation as nat), 8, ' ') + " "@
        + pad_left(dec_digits(priority as nat), 3, ' ') + " "@
}

/// What the listing prints beneath a task's row where the stack is asked for.
pub open spec fn stack_part(opts: TasksOptions, stack: Result<Vec<StackFrame>, String>) -> Seq<char> {
    match stack {
        Ok(fs) => stack_text(fs@, opts.line, opts.registers || opts.verbose),
        Err(e) => "   stack unwind failed: "@ + e@ + " \n"@,
    }
}

/// What the listing prints beneath a task's row: the stack and the registers,
/// the whole record, and a blank line after the registers alone, each as the
/// options ask.
pub open spec fn details_text(opts: TasksOptions, r: TaskRecord) -> Seq<char> {
    (if opts.stack { stack_part(opts, r.stack) } else { Seq::empty() })
        + (if opts.registers { registers_text(r.registers@, opts.verbose) } else { Seq::empty() })
        + (if opts.verbose { "   |\n   +-----------> "@ + r.dump@ + "\n\n"@ } else { Seq::empty() })
        + (if opts.registers && !opts.verbose { "\n"@ } else { Seq::empty() })
}

/// What the listing prints for one task that it shows: the row, with the
/// task's state, and what the options ask for beneath it.
#[verifier::opaque]
pub open spec fn task_text(opts: TasksOptions, names: Seq<String>, r: TaskRecord, ticks: u64, current_task: u32) -> Seq<char> {
    row_prefix_text(r.index, shown_name(module_text(r.module)), r.generation, r.priority)
        + state_text(names, r.address == current_task, r.irqs@, timer_of(r, ticks), r.notmask, r.panic_message@, r.state)
        + "\n"@
        + details_text(opts, r)
}

/// What the listing prints for the tasks of `rs` that it shows.
pub open spec fn rows_text(opts: TasksOptions, names: Seq<String>, rs: Seq<TaskRecord>, ticks: u64, current_task: u32) -> Seq<char>
    decreases rs.len(),
{
    if rs.len() == 0 {
        Seq::empty()
    } else {
        rows_text(opts, names, rs.drop_last(), ticks, current_task)
            + (if selected(opts.task, rs.last().module) {
                task_text(opts, names, rs.last(), ticks, current_task)
            } else {
                Seq::empty()
            })
    }
}

/// Whether a task of `rs` that the listing shows has its name shortened.
pub open spec fn any_truncated(filter: Option<String>, rs: Seq<TaskRecord>) -> bool
    decreases rs.len(),
{
    if rs.len() == 0 {
        false
    } else {
        any_truncated(filter, rs.drop_last())
            || (selected(filter, rs.last().module) && name_truncated(module_text(rs.last().module)))
    }
}

/// Whether the listing shows a task of `rs` at all.
pub open spec fn any_selected(filter: Option<String>, rs: Seq<TaskRecord>) -> bool
    decreases rs.len(),
{
    if rs.len() == 0 {
        false
    } else {
        any_selected(filter, rs.drop_last()) || selected(filter, rs.last().module)
    }
}

/// The listing's header line.
pub open spec fn header_text() -> Seq<char> {
    "ID"@ + " "@ + pad_right("TASK"@, 15) + " "@ + pad_left("GEN"@, 8, ' ') + " "@ + "PRI"@ + " "@
        + pad_right("STATE"@, 9) + "\n"@
}

/// The note that follows the rows where a name was shortened.
pub open spec fn truncation_note() -> Seq<char> {
    "Note: task names were truncated to fit. Use humility manifest to see them.\n"@
}

/// What one pass of the listing prints.
pub open spec fn pass_text(opts: TasksOptions, names: Seq<String>, rs: Seq<TaskRecord>, ticks: u64, current_task: u32) -> Seq<char> {
    "system time = "@ + dec_digits(ticks as nat) + "\n"@ + header_text()
        + rows_text(opts, names, rs, ticks, current_task)
        + (if any_truncated(opts.task, rs) { truncation_note() } else { Seq::empty() })
}

/// Why a pass fails where the task asked for has never been found.
pub open spec fn not_found_text(task: Seq<char>) -> Seq<char> {
    "\""@ + task + "\" is not a valid task"@
}

/// Whether the listing shows a task whose module has this name, given the task
/// asked for (all tasks where none is).
pub fn task_selected(filter: &Option<String>, module: &Option<String>) -> (r: bool)
    ensures
        r == selected(*filter, *module),
{
    match filter {
        Some(t) => {
            match module {
                Some(m) => *t == *m,
                None => {
                    let unknown = String::from_str("<unknown>");
                    *t == unknown
                },
            }
        },
        None => true,
    }
}

/// A name as a row shows it, and whether it was shortened.
pub fn shorten_name(name: &str) -> (r: (String, bool))
    requires
        name_shortenable(name@),
    ensures
        r.0@ == shown_name(name@),
        r.1 == name_truncated(name@),
{
    if name.as_bytes().len() > NAME_LIMIT {
        let (head, _tail) = name.split_at(NAME_LIMIT);
        proof {
            encode_utf8_decode_utf8(head@);
            assert(head.spec_bytes() =~= encode_utf8(name@).take(NAME_LIMIT as int));
        }
        let mut shown = head.to_owned();
        shown.append("…");
        (shown, true)
    } else {
        (name.to_owned(), false)
    }
}

/// The address of a task's entry in the task table: the table's base plus
/// the index times the entry's size.
pub fn task_address(base: u32, index: u32, entry_size: u32) -> (addr: u32)
    requires
        base + index * entry_size <= u32::MAX,
    ensures
        addr == base + index * entry_size,
{
    proof {
        vstd::arithmetic::mul::lemma_mul_nonnegative(index as int, entry_size as int);
    }
    base + index * entry_size
}

/// The time left on a task's timer (deadline less the current time), and the
/// bits it posts, where it is set.
pub fn task_timer(deadline: Option<u64>, to_post: u32, ticks: u64) -> (t: Option<(i64, u32)>)
    requires
        deadline matches Some(d) ==> i64::MIN <= (d as i64) - (ticks as i64) <= i64::MAX,
    ensures
        t == match deadline {
            Some(d) => Some((((d as i64) - (ticks as i64)) as i64, to_post)),
            None => None,
        },
{
    match deadline {
        Some(d) => Some((d as i64 - ticks as i64, to_post)),
        None => None,
    }
}

/// Whether the listing can show the tasks of `records` that `filter` selects,
/// at time `ticks`: each such timer's time left fits in 64 bits, and each such
/// name can be shortened.
pub fn records_ok(filter: &Option<String>, records: &Vec<TaskRecord>, ticks: u64) -> (ok: bool)
    ensures
        ok == forall|j: int| 0 <= j < records@.len() && selected(*filter, records@[j].module)
            ==> record_ok(#[trigger] records@[j], ticks),
{
    let mut j: usize = 0;
    while j < records.len()
        invariant
            j <= records@.len(),
            forall|x: int| 0 <= x < j && selected(*filter, records@[x].module)
                ==> record_ok(#[trigger] records@[x], ticks),
        decreases records@.len() - j,
    {
        let r = &records[j];
        if !task_selected(filter, &r.module) {
            j = j + 1;
            continue;
        }
        if let Some(d) = r.deadline {
            let left: i128 = d as i64 as i128 - ticks as i64 as i128;
            if left < i64::MIN as i128 || left > i64::MAX as i128 {
                return false;
            }
        }
        let name: &str = match &r.module {
            Some(m) => m.as_str(),
            None => "<unknown>",
        };
        assert(name@ == module_text(r.module));
        if name.as_bytes().len() > NAME_LIMIT && !name.is_char_boundary(NAME_LIMIT) {
            return false;
        }
        j = j + 1;
    }
    true
}

/// Appends the head of a task's row.
fn push_row_prefix(out: &mut String, index: u32, name: &str, generation: u32, priority: u8)
    ensures
        final(out)@ == old(out)@ + row_prefix_text(index, name@, generation, priority),
{
    push_dec_width(out, index as u64, 2);
    out.append(" ");
    push_pad_right(out, name, 15);
    out.append(" ");
    push_dec_width(out, generation as u64, 8);
    out.append(" ");
    push_dec_width(out, priority as u64, 3);
    out.append(" ");
    assert(out@ =~= old(out)@ + row_prefix_text(index, name@, generation, priority));
}

/// Appends what the listing prints beneath a row for the stack.
fn push_stack_part(out: &mut String, opts: &TasksOptions, stack: &Result<Vec<StackFrame>, String>)
    ensures
        final(out)@ == old(out)@ + stack_part(*opts, *stack),
{
    match stack {
        Ok(fs) => format_stack(out, fs, opts.line, opts.registers || opts.verbose),
        Err(e) => {
            out.append("   stack unwind failed: ");
            out.append(e.as_str());
            out.append(" \n");
        },
    }
    assert(out@ =~= old(out)@ + stack_part(*opts, *stack));
}

/// Appends what the listing prints beneath a task's row.
fn push_details(out: &mut String, opts: &TasksOptions, r: &TaskRecord)
    ensures
        final(out)@ == old(out)@ + details_text(*opts, *r),
{
    if opts.stack || opts.registers {
        if opts.stack {
            push_stack_part(out, opts, &r.stack);
        }
        if opts.registers {
            format_registers(out, &r.registers, opts.verbose);
        }
    }
    let ghost below = out@;
    assert(below =~= old(out)@ + (if opts.stack { stack_part(*opts, r.stack) } else { Seq::empty() })
        + (if opts.registers { registers_text(r.registers@, opts.verbose) } else { Seq::empty() }));
    if opts.verbose {
        out.append("   |\n   +-----------> ");
        out.append(r.dump.as_str());
        out.append("\n\n");
    }
    if opts.registers && !opts.verbose {
        out.append("\n");
    }
    assert(out@ =~= old(out)@ + details_text(*opts, *r));
}

/// Appends what the listing prints for a task that it shows; returns whether
/// the task's name was shortened.
fn push_task(out: &mut String, opts: &TasksOptions, names: &Vec<String>, r: &TaskRecord, ticks: u64, current_task: u32) -> (truncated: bool)
    requires
        record_ok(*r, ticks),
    ensures
        final(out)@ == old(out)@ + task_text(*opts, names@, *r, ticks, current_task),
        truncated == name_truncated(module_text(r.module)),
{
    reveal(task_text);
    let name: &str = match &r.module {
        Some(m) => m.as_str(),
        None => "<unknown>",
    };
    assert(name@ == module_text(r.module));
    let (shown, truncated) = shorten_name(name);
    push_row_prefix(out, r.index, shown.as_str(), r.generation, r.priority);
    let timer = task_timer(r.deadline, r.to_post, ticks);
    assert(timer == timer_of(*r, ticks));
    explain_state(
        out,
        names,
        r.address == current_task,
        r.irqs.as_slice(),
        timer,
        r.notmask,
        r.panic_message.as_slice(),
        r.state,
    );
    out.append("\n");
    push_details(out, opts, r);
    assert(out@ =~= old(out)@ + task_text(*opts, names@, *r, ticks, current_task));
    truncated
}

/// Appends the listing's header line.
fn push_header(out: &mut String)
    ensures
        final(out)@ == old(out)@ + header_text(),
{
    out.append("ID");
    out.append(" ");
    push_pad_right(out, "TASK", 15);
    out.append(" ");
    crate::text::push_pad_left(out, "GEN", 8);
    out.append(" ");
    out.append("PRI");
    out.append(" ");
    push_pad_right(out, "STATE", 9);
    out.append("\n");
    assert(out@ =~= old(out)@ + header_text());
}

/// One pass of the listing, at time `ticks`, with `current_task` the address of
/// the running task's entry: the system time, the header, and a row for each
/// task that `opts` asks for, in order, with a note where a name was shortened.
/// `found` is whether the task asked for has been found, in this pass or, as
/// `found_before` says, an earlier one; the pass fails where a task is asked
/// for and has never been found.
pub fn render_pass(
    opts: &TasksOptions,
    names: &Vec<String>,
    records: &Vec<TaskRecord>,
    ticks: u64,
    current_task: u32,
    found_before: bool,
) -> (pass: PassOutput)
    requires
        forall|j: int| 0 <= j < records@.len() && selected(opts.task, records@[j].module)
            ==> record_ok(#[trigger] records@[j], ticks),
    ensures
        pass.text@ == pass_text(*opts, names@, records@, ticks, current_task),
        pass.found == (found_before || (opts.task is Some && any_selected(opts.task, records@))),
        pass.error is Some <==> (opts.task is Some && !pass.found),
        pass.error matches Some(e) ==> e@ == not_found_text(opts.task->0@),
{
    let mut out = String::new();
    out.append("system time = ");
    push_dec(&mut out, ticks);
    out.append("\n");
    push_header(&mut out);
    let ghost start = out@;
    let mut found = found_before;
    let mut truncated_any = false;
    let mut j: usize = 0;
    while j < records.len()
        invariant
            j <= records@.len(),
            forall|x: int| 0 <= x < records@.len() && selected(opts.task, records@[x].module)
                ==> record_ok(#[trigger] records@[x], ticks),
            out@ == start + rows_text(*opts, names@, records@.take(j as int), ticks, current_task),
            truncated_any == any_truncated(opts.task, records@.take(j as int)),
            found == (found_before || (opts.task is Some && any_selected(opts.task, records@.take(j as int)))),
        decreases records@.len() - j,
    {
        let r = &records[j];
        let shown = task_selected(&opts.task, &r.module);
        if shown {
            if opts.task.is_some() {
                found = true;
            }
            let t = push_task(&mut out, opts, names, r, ticks, current_task);
            truncated_any = truncated_any || t;
        }
        proof {
            let t = records@.take(j + 1);
            assert(t.drop_last() =~= records@.take(j as int));
            assert(t.last() == records@[j as int]);
        }
        j = j + 1;
        assert(out@ =~= start + rows_text(*opts, names@, records@.take(j as int), ticks, current_task));
    }
    assert(records@.take(j as int) =~= records@);
    if truncated_any {
        out.append("Note: task names were truncated to fit. Use humility manifest to see them.\n");
    }
    assert(out@ =~= pass_text(*opts, names@, records@, ticks, current_task));
    let error = match &opts.task {
        Some(t) => {
            if found {
                None
            } else {
                let mut e = String::new();
                e.append("\"");
                e.append(t.as_str());
                e.append("\" is not a valid task");
                assert(e@ =~= not_found_text(t@));
                Some(e)
            }
        },
        None => None,
    };
    PassOutput { text: out, found, error }
}

/// When to do the work that a pass of the listing needs beyond the task table.
#[derive(Debug, Clone, Copy, PartialEq, Eq, Structural)]
pub struct PassPlan {
    /// Let the target run again before the tasks are listed (the backtraces
    /// need it halted until they are unwound).
    pub resume_before_listing: bool,
    /// Read each listed task's registers.
    pub read_registers: bool,
    /// Unwind each listed task's stack.
    pub unwind_stack: bool,
    /// Print each listed task's whole record.
    pub dump_record: bool,
    /// List again after this pass.
    pub repeat: bool,
}

/// What a pass of the listing needs, given what it is asked to show: the target
/// stays halted through the pass only where backtraces are asked for; the
/// registers are read for backtraces or for themselves.
pub fn plan_pass(opts: &TasksOptions) -> (plan: PassPlan)
    ensures
        plan.resume_before_listing == !opts.stack,
        plan.read_registers == (opts.stack || opts.registers),
        plan.unwind_stack == opts.stack,
        plan.dump_record == opts.verbose,
        plan.repeat == opts.spin,
{
    PassPlan {
        resume_before_listing: !opts.stack,
        read_registers: opts.stack || opts.registers,
        unwind_stack: opts.stack,
        dump_record: opts.verbose,
        repeat: opts.spin,
    }
}

proof fn lemma_encode_utf8_len(chars: Seq<char>)
    ensures
        encode_utf8(chars).len() >= chars.len(),
    decreases chars.len(),
{
    if chars.len() > 0 {
        lemma_encode_utf8_len(chars.drop_first());
        assert(encode_scalar(chars[0] as u32).len() >= 1);
    }
}

/// A name as a row shows it fits the name column: it is at most 15 characters.
pub proof fn lemma_shown_name_fits(name: Seq<char>)
    requires
        name_shortenable(name),
    ensures
        shown_name(name).len() <= 15,
{
    lemma_encode_utf8_len(name);
    if name_truncated(name) {
        let bytes = encode_utf8(name);
        encode_utf8_valid_utf8(name);
        valid_utf8_split(bytes, NAME_LIMIT as int);
        let head = bytes.subrange(0, NAME_LIMIT as int);
        assert(bytes.take(NAME_LIMIT as int) == head);
        decode_utf8_encode_utf8(head);
        lemma_encode_utf8_len(decode_utf8(head));
        reveal_strlit("…");
    }
}

/// Rows line up: for a task index below 100, a name that fits its column and
/// a generation of at most eight digits, the head of the row is exactly 32
/// characters, so every task's state starts in the same column.
pub proof fn lemma_row_prefix_width(index: u32, name: Seq<char>, generation: u32, priority: u8)
    requires
        index < 100,
        name.len() <= 15,
        generation < 100_000_000,
    ensures
        row_prefix_text(index, name, generation, priority).len() == 32,
{
    reveal_with_fuel(crate::text::pow10, 9);
    lemma_dec_digits_len(index as nat, 2);
    lemma_dec_digits_len(generation as nat, 8);
    lemma_dec_digits_len(priority as nat, 3);
    reveal_strlit(" ");
}

/// With backtraces and lines of source asked for, what the listing prints for a
/// task shows the line of source of every frame symbol of its backtrace that
/// has one, whatever else is asked for.
pub proof fn lemma_task_shows_source_lines(
    opts: TasksOptions,
    names: Seq<String>,
    r: TaskRecord,
    ticks: u64,
    current_task: u32,
    j: int,
)
    requires
        opts.stack,
        opts.line,
        r.stack is Ok,
        0 <= j < r.stack->Ok_0@.len(),
        r.stack->Ok_0@[j].sym matches Some(s) && s.source is Some,
    ensures
        contains_text(
            task_text(opts, names, r, ticks, current_task),
            source_reference(r.stack->Ok_0@[j].sym->0.source->0),
        ),
{
    reveal(task_text);
    let fs = r.stack->Ok_0@;
    let n = source_reference(fs[j].sym->0.source->0);
    let additional = opts.registers || opts.verbose;
    lemma_stack_shows_sources(fs, additional, j);
    assert(stack_part(opts, r.stack) == stack_text(fs, true, additional));
    let head = row_prefix_text(r.index, shown_name(module_text(r.module)), r.generation, r.priority)
        + state_text(names, r.address == current_task, r.irqs@, timer_of(r, ticks), r.notmask, r.panic_message@, r.state)
        + "\n"@;
    let rest = (if opts.registers { registers_text(r.registers@, opts.verbose) } else { Seq::empty() })
        + (if opts.verbose { "   |\n   +-----------> "@ + r.dump@ + "\n\n"@ } else { Seq::empty() })
        + (if opts.registers && !opts.verbose { "\n"@ } else { Seq::empty() });
    lemma_contains_within(head, stack_part(opts, r.stack), rest, n);
    assert(task_text(opts, names, r, ticks, current_task) =~= head + stack_part(opts, r.stack) + rest);
}

proof fn lemma_rows_show_task(
    opts: TasksOptions,
    names: Seq<String>,
    rs: Seq<TaskRecord>,
    ticks: u64,
    current_task: u32,
    k: int,
    needle: Seq<char>,
)
    requires
        0 <= k < rs.len(),
        selected(opts.task, rs[k].module),
        contains_text(task_text(opts, names, rs[k], ticks, current_task), needle),
    ensures
        contains_text(rows_text(opts, names, rs, ticks, current_task), needle),
    decreases rs.len(),
{
    let front = rows_text(opts, names, rs.drop_last(), ticks, current_task);
    let last: Seq<char> = if selected(opts.task, rs.last().module) {
        task_text(opts, names, rs.last(), ticks, current_task)
    } else {
        Seq::empty()
    };
    assert(rows_text(opts, names, rs, ticks, current_task) == front + last);
    if k == rs.len() - 1 {
        lemma_contains_within(front, last, Seq::empty(), needle);
        assert(front + last + Seq::<char>::empty() =~= front + last);
    } else {
        assert(rs.drop_last()[k] == rs[k]);
        lemma_rows_show_task(opts, names, rs.drop_last(), ticks, current_task, k, needle);
        lemma_contains_within(Seq::empty(), front, last, needle);
        assert(Seq::<char>::empty() + front + last =~= front + last);
    }
}

/// With backtraces and lines of source asked for (`-sl`), a pass of the
/// listing shows, for every task it lists, the line of source of every frame
/// symbol of the task's backtrace that has one.
pub proof fn lemma_pass_shows_source_lines(
    opts: TasksOptions,
    names: Seq<String>,
    rs: Seq<TaskRecord>,
    ticks: u64,
    current_task: u32,
    k: int,
    j: int,
)
    requires
        opts.stack,
        opts.line,
        0 <= k < rs.len(),
        selected(opts.task, rs[k].module),
        rs[k].stack is Ok,
        0 <= j < rs[k].stack->Ok_0@.len(),
        rs[k].stack->Ok_0@[j].sym matches Some(s) && s.source is Some,
    ensures
        contains_text(
            pass_text(opts, names, rs, ticks, current_task),
            source_reference(rs[k].stack->Ok_0@[j].sym->0.source->0),
        ),
{
    let n = source_reference(rs[k].stack->Ok_0@[j].sym->0.source->0);
    lemma_task_shows_source_lines(opts, names, rs[k], ticks, current_task, j);
    lemma_rows_show_task(opts, names, rs, ticks, current_task, k, n);
    let head = "system time = "@ + dec_digits(ticks as nat) + "\n"@ + header_text();
    let tail: Seq<char> = if any_truncated(opts.task, rs) { truncation_note() } else { Seq::empty() };
    lemma_contains_within(head, rows_text(opts, names, rs, ticks, current_task), tail, n);
}

} // verus!
