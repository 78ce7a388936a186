//! Notification bits of a task waiting in receive: which bits it waits on,
//! and, for each, the interrupts that post it and the timer that posts it.

use vstd::prelude::*;
use crate::text::{
    dec_digits, dec_value, signed_dec, push_dec, push_signed, lemma_dec_digits_denote, contains_text,
    lemma_contains_within,
};
use crate::task_id::{KERNEL_TASK_ID, TaskId, task_id_text, push_task_id};

verus! {

/// Whether bit `i` of `mask` is set.
pub open spec fn bit_set(mask: u32, i: u32) -> bool {
    mask & (1u32 << i) != 0
}

/// The bits below `k` that are set in `mask`, in ascending order.
pub open spec fn set_bits_below(mask: u32, k: nat) -> Seq<u32>
    decreases k,
{
    if k == 0 {
        Seq::empty()
    } else {
        let b = (k - 1) as u32;
        set_bits_below(mask, (k - 1) as nat) + (if bit_set(mask, b) { seq![b] } else { Seq::empty() })
    }
}

/// The bits of a 32-bit mask that are set, in ascending order.
pub open spec fn set_bits(mask: u32) -> Seq<u32> {
    set_bits_below(mask, 32)
}

/// The interrupt numbers, in table order, of the entries of `irqs` (pairs of a
/// notification mask and an interrupt number) whose mask is exactly `bitmask`.
pub open spec fn irqs_for(irqs: Seq<(u32, u32)>, bitmask: u32) -> Seq<u32>
    decreases irqs.len(),
{
    if irqs.len() == 0 {
        Seq::empty()
    } else {
        irqs_for(irqs.drop_last(), bitmask) + (if irqs.last().0 == bitmask {
            seq![irqs.last().1]
        } else {
            Seq::empty()
        })
    }
}

/// The time left on the task's timer, where the timer (time left and the
/// notification bits it posts) posts a bit of `bitmask`.
pub open spec fn timer_for(timer: Option<(i64, u32)>, bitmask: u32) -> Option<i64> {
    match timer {
        Some((left, mask)) => if mask & bitmask != 0 { Some(left) } else { None },
        None => None,
    }
}

/// What the listing knows of one notification bit that a task waits on.
#[derive(Debug)]
pub struct NoteInfo {
    /// The bit's number.
    pub bit: u32,
    /// The interrupts that post this bit alone.
    pub irqs: Vec<u32>,
    /// The time left on the task's timer, where the timer posts this bit.
    pub timer: Option<i64>,
}

/// `note` describes `bit` with respect to the interrupt table and the timer.
pub open spec fn describes(note: NoteInfo, bit: u32, irqs: Seq<(u32, u32)>, timer: Option<(i64, u32)>) -> bool {
    &&& note.bit == bit
    &&& note.irqs@ == irqs_for(irqs, 1u32 << bit)
    &&& note.timer == timer_for(timer, 1u32 << bit)
}

/// The interrupt numbers of the entries of `irqs` whose mask is exactly `bitmask`.
fn irqs_posting(irqs: &[(u32, u32)], bitmask: u32) -> (found: Vec<u32>)
    ensures
        found@ == irqs_for(irqs@, bitmask),
{
    let mut found: Vec<u32> = Vec::new();
    let mut k: usize = 0;
    while k < irqs.len()
        invariant
            k <= irqs@.len(),
            found@ == irqs_for(irqs@.take(k as int), bitmask),
        decreases irqs@.len() - k,
    {
        let (m, n) = irqs[k];
        if m == bitmask {
            found.push(n);
        }
        assert(irqs@.take(k + 1).drop_last() =~= irqs@.take(k as int));
        k = k + 1;
    }
    assert(irqs@.take(k as int) =~= irqs@);
    found
}

/// Describes each notification bit set in `notmask`, in ascending order: the
/// interrupts of `irqs` (pairs of a notification mask and an interrupt number)
/// whose mask is that bit alone, and the time left on `timer` (time left and
/// the bits it posts) where the timer posts that bit.
pub fn decode_notifications(notmask: u32, irqs: &[(u32, u32)], timer: Option<(i64, u32)>) -> (notes: Vec<NoteInfo>)
    ensures
        notes@.len() == set_bits(notmask).len(),
        forall|j: int| 0 <= j < notes@.len() ==> describes(#[trigger] notes@[j], set_bits(notmask)[j], irqs@, timer),
{
    let mut notes: Vec<NoteInfo> = Vec::new();
    let mut i: u32 = 0;
    while i < 32
        invariant
            i <= 32,
            notes@.len() == set_bits_below(notmask, i as nat).len(),
            forall|j: int| 0 <= j < notes@.len() ==> describes(#[trigger] notes@[j], set_bits_below(notmask, i as nat)[j], irqs@, timer),
        decreases 32 - i,
    {
        let bitmask: u32 = 1u32 << i;
        let ghost before = set_bits_below(notmask, i as nat);
        if notmask & bitmask != 0 {
            let found = irqs_posting(irqs, bitmask);
            let timer_assoc = match timer {
                Some((left, mask)) => if mask & bitmask != 0 { Some(left) } else { None },
                None => None,
            };
            notes.push(NoteInfo { bit: i, irqs: found, timer: timer_assoc });
            assert(set_bits_below(notmask, (i + 1) as nat) =~= before.push(i));
        } else {
            assert(set_bits_below(notmask, (i + 1) as nat) =~= before);
        }
        i = i + 1;
    }
    notes
}

/// The bits that the listing shows are exactly those set in the mask, each once,
/// in ascending order: what is printed determines the mask.
pub proof fn lemma_set_bits(mask: u32, k: nat)
    requires
        k <= 32,
    ensures
        forall|b: u32| #[trigger] set_bits_below(mask, k).contains(b) <==> (b < k && bit_set(mask, b)),
        forall|x: int, y: int| 0 <= x < y < set_bits_below(mask, k).len() ==>
            set_bits_below(mask, k)[x] < set_bits_below(mask, k)[y],
        forall|x: int| 0 <= x < set_bits_below(mask, k).len() ==> set_bits_below(mask, k)[x] < k,
    decreases k,
{
    if k > 0 {
        lemma_set_bits(mask, (k - 1) as nat);
        let prev = set_bits_below(mask, (k - 1) as nat);
        let b = (k - 1) as u32;
        let cur = set_bits_below(mask, k);
        if bit_set(mask, b) {
            assert(cur =~= prev.push(b));
            assert forall|c: u32| #[trigger] cur.contains(c) <==> (c < k && bit_set(mask, c)) by {
                if cur.contains(c) {
                    let x = choose|x: int| 0 <= x < cur.len() && cur[x] == c;
                    if x < prev.len() {
                        assert(prev[x] == c);
                        assert(prev.contains(c));
                    }
                }
                if c < k && bit_set(mask, c) {
                    if c == b {
                        assert(cur[cur.len() - 1] == c);
                    } else {
                        assert(prev.contains(c));
                        let x = choose|x: int| 0 <= x < prev.len() && prev[x] == c;
                        assert(cur[x] == c);
                    }
                }
            }
        } else {
            assert(cur =~= prev);
        }
    }
}

/// What the listing prints for the interrupts that post one bit: each as `irq`
/// and its number, separated by `/`, and preceded by `/` after a timer.
pub open spec fn irq_text(irqs: Seq<u32>, after_timer: bool) -> Seq<char>
    decreases irqs.len(),
{
    if irqs.len() == 0 {
        Seq::empty()
    } else {
        irq_text(irqs.drop_last(), after_timer)
            + (if irqs.len() == 1 && !after_timer { Seq::empty() } else { "/"@ })
            + "irq"@ + dec_digits(irqs.last() as nat)
    }
}

/// What the listing prints for one notification bit: ` bit` and its number, then,
/// where a timer or interrupts post it, in parentheses, `T` and the signed time
/// left, and the interrupts.
pub open spec fn note_text(bit: u32, irqs: Seq<u32>, timer: Option<i64>) -> Seq<char> {
    " bit"@ + dec_digits(bit as nat) + note_tail(irqs, timer)
}

/// What follows a notification bit's number: where a timer or interrupts post
/// the bit, in parentheses, `T` and the signed time left, and the interrupts.
pub open spec fn note_tail(irqs: Seq<u32>, timer: Option<i64>) -> Seq<char> {
    if irqs.len() > 0 || timer is Some {
        "("@ + (match timer {
            Some(left) => "T"@ + signed_dec(left as int, true),
            None => Seq::empty(),
        }) + irq_text(irqs, timer is Some) + ")"@
    } else {
        Seq::empty()
    }
}

/// What the listing prints for the notification bits `bits`.
pub open spec fn notes_text(bits: Seq<u32>, irqs: Seq<(u32, u32)>, timer: Option<(i64, u32)>) -> Seq<char>
    decreases bits.len(),
{
    if bits.len() == 0 {
        Seq::empty()
    } else {
        let b = bits.last();
        notes_text(bits.drop_last(), irqs, timer)
            + note_text(b, irqs_for(irqs, 1u32 << b), timer_for(timer, 1u32 << b))
    }
}

/// What the listing prints for a task in receive: `recv`, or for a closed
/// receive from a task `recv(`, the task and ` only)`, or nothing for a closed
/// receive from the kernel; then, where it waits on notifications, `, notif:`
/// (no comma after nothing) and each bit; and `(DEAD)` for a closed receive
/// from the kernel with no notification bit, which can never end.
pub open spec fn recv_text(
    names: Seq<String>,
    src: Option<TaskId>,
    notmask: u32,
    irqs: Seq<(u32, u32)>,
    timer: Option<(i64, u32)>,
) -> Seq<char> {
    let from_kernel = src matches Some(t) && t.is_kernel();
    (match src {
        Some(t) => if t.is_kernel() { Seq::empty() } else { "recv("@ + task_id_text(names, t) + " only)"@ },
        None => "recv"@,
    })
    + (if notmask != 0 {
        (if from_kernel { Seq::empty() } else { ", "@ }) + "notif:"@ + notes_text(set_bits(notmask), irqs, timer)
    } else {
        Seq::empty()
    })
    + (if from_kernel && notmask == 0 { "(DEAD)"@ } else { Seq::empty() })
}

/// Appends what the listing prints for one notification bit.
fn push_note(out: &mut String, note: &NoteInfo)
    ensures
        final(out)@ == old(out)@ + note_text(note.bit, note.irqs@, note.timer),
{
    out.append(" bit");
    push_dec(out, note.bit as u64);
    if note.irqs.len() > 0 || note.timer.is_some() {
        out.append("(");
        let ghost mid = out@;
        if let Some(left) = note.timer {
            out.append("T");
            push_signed(out, left, true);
        }
        let ghost with_timer = out@;
        let after_timer = note.timer.is_some();
        let mut k: usize = 0;
        while k < note.irqs.len()
            invariant
                k <= note.irqs@.len(),
                after_timer == note.timer is Some,
                out@ == with_timer + irq_text(note.irqs@.take(k as int), after_timer),
            decreases note.irqs@.len() - k,
        {
            if k > 0 || after_timer {
                out.append("/");
            }
            out.append("irq");
            push_dec(out, note.irqs[k] as u64);
            proof {
                let t = note.irqs@.take(k + 1);
                assert(t.drop_last() =~= note.irqs@.take(k as int));
                assert(t.last() == note.irqs@[k as int]);
            }
            k = k + 1;
            assert(out@ =~= with_timer + irq_text(note.irqs@.take(k as int), after_timer));
        }
        assert(note.irqs@.take(k as int) =~= note.irqs@);
        out.append(")");
    }
    assert(out@ =~= old(out)@ + note_text(note.bit, note.irqs@, note.timer));
}

/// Appends what the listing prints for a task waiting in receive: from `src`
/// alone where it is a closed receive, with notification mask `notmask`, given
/// the interrupt table `irqs` (pairs of a notification mask and an interrupt
/// number) and the task's timer (time left and the bits it posts).
pub fn explain_recv(
    out: &mut String,
    names: &Vec<String>,
    src: Option<TaskId>,
    notmask: u32,
    irqs: &[(u32, u32)],
    timer: Option<(i64, u32)>,
)
    ensures
        final(out)@ == old(out)@ + recv_text(names@, src, notmask, irqs@, timer),
{
    let notes = decode_notifications(notmask, irqs, timer);
    let from_kernel = match src {
        Some(t) => t.0 == KERNEL_TASK_ID,
        None => false,
    };
    match src {
        Some(t) => {
            if !from_kernel {
                out.append("recv(");
                push_task_id(out, names, t);
                out.append(" only)");
            }
        },
        None => {
            out.append("recv");
        },
    }
    let ghost head = out@;
    if notmask != 0 {
        if !from_kernel {
            out.append(", ");
        }
        out.append("notif:");
        let ghost start = out@;
        let mut j: usize = 0;
        while j < notes.len()
            invariant
                j <= notes@.len(),
                notes@.len() == set_bits(notmask).len(),
                forall|x: int| 0 <= x < notes@.len() ==> describes(#[trigger] notes@[x], set_bits(notmask)[x], irqs@, timer),
                out@ == start + notes_text(set_bits(notmask).take(j as int), irqs@, timer),
            decreases notes@.len() - j,
        {
            push_note(out, &notes[j]);
            proof {
                let t = set_bits(notmask).take(j + 1);
                assert(t.drop_last() =~= set_bits(notmask).take(j as int));
                assert(t.last() == set_bits(notmask)[j as int]);
                assert(describes(notes@[j as int], set_bits(notmask)[j as int], irqs@, timer));
            }
            j = j + 1;
            assert(out@ =~= start + notes_text(set_bits(notmask).take(j as int), irqs@, timer));
        }
        assert(set_bits(notmask).take(j as int) =~= set_bits(notmask));
    }
    if from_kernel && notmask == 0 {
        out.append("(DEAD)");
    }
    assert(out@ =~= old(out)@ + recv_text(names@, src, notmask, irqs@, timer));
}

/// Whether `c` is a decimal digit.
spec fn is_dec_digit(c: char) -> bool {
    c == '0' || c == '1' || c == '2' || c == '3' || c == '4' || c == '5' || c == '6' || c == '7' || c == '8' || c == '9'
}

spec fn all_digits(s: Seq<char>) -> bool {
    forall|i: int| 0 <= i < s.len() ==> is_dec_digit(#[trigger] s[i])
}

spec fn no_space(s: Seq<char>) -> bool {
    forall|i: int| 0 <= i < s.len() ==> #[trigger] s[i] != ' '
}

/// The position of the last space in `s`, or -1.
spec fn last_space(s: Seq<char>) -> int
    decreases s.len(),
{
    if s.len() == 0 {
        -1
    } else if s.last() == ' ' {
        s.len() - 1
    } else {
        last_space(s.drop_last())
    }
}

/// How many decimal digits `s` starts with.
spec fn leading_digits(s: Seq<char>) -> nat
    decreases s.len(),
{
    if s.len() == 0 || !is_dec_digit(s[0]) {
        0
    } else {
        1 + leading_digits(s.drop_first())
    }
}

/// The bit numbers that a notification text names: each space starts ` bit`
/// and the number that follows it.
spec fn parse_bits(s: Seq<char>) -> Seq<int>
    decreases s.len(),
{
    let i = last_space(s);
    if 0 <= i < s.len() {
        let rest = s.skip(i + 4);
        parse_bits(s.take(i)) + seq![dec_value(rest.take(leading_digits(rest) as int))]
    } else {
        Seq::empty()
    }
}

proof fn lemma_dec_digits_are_digits(n: nat)
    ensures
        all_digits(dec_digits(n)),
    decreases n,
{
    if n >= 10 {
        lemma_dec_digits_are_digits(n / 10);
        let d = dec_digits(n / 10);
        let e = d.push(crate::text::digit_char(n % 10));
        assert(dec_digits(n) == e);
        assert forall|i: int| 0 <= i < e.len() implies is_dec_digit(#[trigger] e[i]) by {
            if i < d.len() {
                assert(e[i] == d[i]);
            }
        }
    }
}

proof fn lemma_irq_text_no_space(irqs: Seq<u32>, after_timer: bool)
    ensures
        no_space(irq_text(irqs, after_timer)),
    decreases irqs.len(),
{
    if irqs.len() > 0 {
        lemma_irq_text_no_space(irqs.drop_last(), after_timer);
        lemma_dec_digits_are_digits(irqs.last() as nat);
        reveal_strlit("/");
        reveal_strlit("irq");
        let a = irq_text(irqs.drop_last(), after_timer);
        let sep: Seq<char> = if irqs.len() == 1 && !after_timer { Seq::empty() } else { "/"@ };
        let d = dec_digits(irqs.last() as nat);
        let t = a + sep + "irq"@ + d;
        assert(irq_text(irqs, after_timer) == t);
        assert forall|i: int| 0 <= i < t.len() implies #[trigger] t[i] != ' ' by {
            if i < a.len() {
            } else if i < a.len() + sep.len() {
            } else if i < a.len() + sep.len() + 3 {
            } else {
                assert(t[i] == d[i - a.len() - sep.len() - 3]);
            }
        }
    }
}

proof fn lemma_note_tail_shape(irqs: Seq<u32>, timer: Option<i64>)
    ensures
        no_space(note_tail(irqs, timer)),
        note_tail(irqs, timer).len() == 0 || note_tail(irqs, timer)[0] == '(',
{
    if irqs.len() > 0 || timer is Some {
        reveal_strlit("(");
        reveal_strlit(")");
        reveal_strlit("T");
        lemma_irq_text_no_space(irqs, timer is Some);
        let t: Seq<char> = match timer {
            Some(left) => "T"@ + signed_dec(left as int, true),
            None => Seq::empty(),
        };
        assert(no_space(t)) by {
            if let Some(left) = timer {
                let v = left as int;
                let d = if v < 0 { dec_digits((-v) as nat) } else { dec_digits(v as nat) };
                if v < 0 {
                    lemma_dec_digits_are_digits((-v) as nat);
                } else {
                    lemma_dec_digits_are_digits(v as nat);
                }
                let sign: Seq<char> = if v < 0 { seq!['-'] } else { seq!['+'] };
                assert(signed_dec(v, true) == sign + d);
                assert(t == "T"@ + sign + d);
                assert forall|i: int| 0 <= i < t.len() implies #[trigger] t[i] != ' ' by {
                    if i >= 2 {
                        assert(t[i] == d[i - 2]);
                    }
                }
            }
        }
        let irq = irq_text(irqs, timer is Some);
        let whole = "("@ + t + irq + ")"@;
        assert(note_tail(irqs, timer) == whole);
        assert forall|i: int| 0 <= i < whole.len() implies #[trigger] whole[i] != ' ' by {
            if 1 <= i < 1 + t.len() {
                assert(whole[i] == t[i - 1]);
            } else if 1 + t.len() <= i < 1 + t.len() + irq.len() {
                assert(whole[i] == irq[i - 1 - t.len()]);
            }
        }
    }
}

proof fn lemma_last_space(a: Seq<char>, b: Seq<char>)
    requires
        b.len() >= 1,
        b[0] == ' ',
        forall|i: int| 1 <= i < b.len() ==> #[trigger] b[i] != ' ',
    ensures
        last_space(a + b) == a.len(),
    decreases b.len(),
{
    if b.len() == 1 {
        assert((a + b).last() == ' ');
    } else {
        assert((a + b).last() == b.last());
        assert((a + b).drop_last() =~= a + b.drop_last());
        lemma_last_space(a, b.drop_last());
    }
}

proof fn lemma_leading_digits(d: Seq<char>, t: Seq<char>)
    requires
        all_digits(d),
        t.len() == 0 || !is_dec_digit(t[0]),
    ensures
        leading_digits(d + t) == d.len(),
    decreases d.len(),
{
    if d.len() == 0 {
        assert(d + t =~= t);
    } else {
        assert((d + t)[0] == d[0]);
        assert((d + t).drop_first() =~= d.drop_first() + t);
        lemma_leading_digits(d.drop_first(), t);
    }
}

proof fn lemma_parse_notes(bits: Seq<u32>, irqs: Seq<(u32, u32)>, timer: Option<(i64, u32)>)
    ensures
        parse_bits(notes_text(bits, irqs, timer)) == bits.map_values(|b: u32| b as int),
    decreases bits.len(),
{
    if bits.len() == 0 {
        assert(parse_bits(notes_text(bits, irqs, timer)) =~= bits.map_values(|b: u32| b as int));
    } else {
        let b = bits.last();
        let a = notes_text(bits.drop_last(), irqs, timer);
        let d = dec_digits(b as nat);
        let tail = note_tail(irqs_for(irqs, 1u32 << b), timer_for(timer, 1u32 << b));
        let nt = note_text(b, irqs_for(irqs, 1u32 << b), timer_for(timer, 1u32 << b));
        reveal_strlit(" bit");
        lemma_dec_digits_are_digits(b as nat);
        lemma_note_tail_shape(irqs_for(irqs, 1u32 << b), timer_for(timer, 1u32 << b));
        assert(nt == " bit"@ + d + tail);
        assert forall|i: int| 1 <= i < nt.len() implies #[trigger] nt[i] != ' ' by {
            if 4 <= i < 4 + d.len() {
                assert(nt[i] == d[i - 4]);
                assert(is_dec_digit(d[i - 4]));
            } else if i >= 4 + d.len() {
                assert(nt[i] == tail[i - 4 - d.len()]);
            }
        }
        lemma_last_space(a, nt);
        let s = a + nt;
        assert(notes_text(bits, irqs, timer) == s);
        assert(s.take(a.len() as int) =~= a);
        let rest = s.skip(a.len() + 4int);
        assert(rest =~= d + tail);
        lemma_leading_digits(d, tail);
        assert(rest.take(d.len() as int) =~= d);
        lemma_dec_digits_denote(b as nat);
        lemma_parse_notes(bits.drop_last(), irqs, timer);
        assert(bits.map_values(|b: u32| b as int) =~= bits.drop_last().map_values(|b: u32| b as int).push(b as int));
    }
}

proof fn lemma_mask_from_bits(m1: u32, m2: u32)
    requires
        forall|b: u32| b < 32 ==> #[trigger] bit_set(m1, b) == bit_set(m2, b),
    ensures
        m1 == m2,
{
    assert(bit_set(m1, 0) == bit_set(m2, 0));
    assert(bit_set(m1, 1) == bit_set(m2, 1));
    assert(bit_set(m1, 2) == bit_set(m2, 2));
    assert(bit_set(m1, 3) == bit_set(m2, 3));
    assert(bit_set(m1, 4) == bit_set(m2, 4));
    assert(bit_set(m1, 5) == bit_set(m2, 5));
    assert(bit_set(m1, 6) == bit_set(m2, 6));
    assert(bit_set(m1, 7) == bit_set(m2, 7));
    assert(bit_set(m1, 8) == bit_set(m2, 8));
    assert(bit_set(m1, 9) == bit_set(m2, 9));
    assert(bit_set(m1, 10) == bit_set(m2, 10));
    assert(bit_set(m1, 11) == bit_set(m2, 11));
    assert(bit_set(m1, 12) == bit_set(m2, 12));
    assert(bit_set(m1, 13) == bit_set(m2, 13));
    assert(bit_set(m1, 14) == bit_set(m2, 14));
    assert(bit_set(m1, 15) == bit_set(m2, 15));
    assert(bit_set(m1, 16) == bit_set(m2, 16));
    assert(bit_set(m1, 17) == bit_set(m2, 17));
    assert(bit_set(m1, 18) == bit_set(m2, 18));
    assert(bit_set(m1, 19) == bit_set(m2, 19));
    assert(bit_set(m1, 20) == bit_set(m2, 20));
    assert(bit_set(m1, 21) == bit_set(m2, 21));
    assert(bit_set(m1, 22) == bit_set(m2, 22));
    assert(bit_set(m1, 23) == bit_set(m2, 23));
    assert(bit_set(m1, 24) == bit_set(m2, 24));
    assert(bit_set(m1, 25) == bit_set(m2, 25));
    assert(bit_set(m1, 26) == bit_set(m2, 26));
    assert(bit_set(m1, 27) == bit_set(m2, 27));
    assert(bit_set(m1, 28) == bit_set(m2, 28));
    assert(bit_set(m1, 29) == bit_set(m2, 29));
    assert(bit_set(m1, 30) == bit_set(m2, 30));
    assert(bit_set(m1, 31) == bit_set(m2, 31));
    assert(m1 == m2) by (bit_vector)
        requires
            (m1 & (1u32 << 0u32) != 0) == (m2 & (1u32 << 0u32) != 0),
            (m1 & (1u32 << 1u32) != 0) == (m2 & (1u32 << 1u32) != 0),
            (m1 & (1u32 << 2u32) != 0) == (m2 & (1u32 << 2u32) != 0),
            (m1 & (1u32 << 3u32) != 0) == (m2 & (1u32 << 3u32) != 0),
            (m1 & (1u32 << 4u32) != 0) == (m2 & (1u32 << 4u32) != 0),
            (m1 & (1u32 << 5u32) != 0) == (m2 & (1u32 << 5u32) != 0),
            (m1 & (1u32 << 6u32) != 0) == (m2 & (1u32 << 6u32) != 0),
            (m1 & (1u32 << 7u32) != 0) == (m2 & (1u32 << 7u32) != 0),
            (m1 & (1u32 << 8u32) != 0) == (m2 & (1u32 << 8u32) != 0),
            (m1 & (1u32 << 9u32) != 0) == (m2 & (1u32 << 9u32) != 0),
            (m1 & (1u32 << 10u32) != 0) == (m2 & (1u32 << 10u32) != 0),
            (m1 & (1u32 << 11u32) != 0) == (m2 & (1u32 << 11u32) != 0),
            (m1 & (1u32 << 12u32) != 0) == (m2 & (1u32 << 12u32) != 0),
            (m1 & (1u32 << 13u32) != 0) == (m2 & (1u32 << 13u32) != 0),
            (m1 & (1u32 << 14u32) != 0) == (m2 & (1u32 << 14u32) != 0),
            (m1 & (1u32 << 15u32) != 0) == (m2 & (1u32 << 15u32) != 0),
            (m1 & (1u32 << 16u32) != 0) == (m2 & (1u32 << 16u32) != 0),
            (m1 & (1u32 << 17u32) != 0) == (m2 & (1u32 << 17u32) != 0),
            (m1 & (1u32 << 18u32) != 0) == (m2 & (1u32 << 18u32) != 0),
            (m1 & (1u32 << 19u32) != 0) == (m2 & (1u32 << 19u32) != 0),
            (m1 & (1u32 << 20u32) != 0) == (m2 & (1u32 << 20u32) != 0),
            (m1 & (1u32 << 21u32) != 0) == (m2 & (1u32 << 21u32) != 0),
            (m1 & (1u32 << 22u32) != 0) == (m2 & (1u32 << 22u32) != 0),
            (m1 & (1u32 << 23u32) != 0) == (m2 & (1u32 << 23u32) != 0),
            (m1 & (1u32 << 24u32) != 0) == (m2 & (1u32 << 24u32) != 0),
            (m1 & (1u32 << 25u32) != 0) == (m2 & (1u32 << 25u32) != 0),
            (m1 & (1u32 << 26u32) != 0) == (m2 & (1u32 << 26u32) != 0),
            (m1 & (1u32 << 27u32) != 0) == (m2 & (1u32 << 27u32) != 0),
            (m1 & (1u32 << 28u32) != 0) == (m2 & (1u32 << 28u32) != 0),
            (m1 & (1u32 << 29u32) != 0) == (m2 & (1u32 << 29u32) != 0),
            (m1 & (1u32 << 30u32) != 0) == (m2 & (1u32 << 30u32) != 0),
            (m1 & (1u32 << 31u32) != 0) == (m2 & (1u32 << 31u32) != 0),
    ;
}

proof fn lemma_set_bits_determine_mask(m1: u32, m2: u32)
    requires
        set_bits(m1).map_values(|b: u32| b as int) == set_bits(m2).map_values(|b: u32| b as int),
    ensures
        m1 == m2,
{
    let s1 = set_bits(m1);
    let s2 = set_bits(m2);
    assert(s1.len() == s1.map_values(|b: u32| b as int).len());
    assert(s2.len() == s2.map_values(|b: u32| b as int).len());
    assert forall|j: int| 0 <= j < s1.len() implies s1[j] == s2[j] by {
        assert(s1.map_values(|b: u32| b as int)[j] == s1[j] as int);
        assert(s2.map_values(|b: u32| b as int)[j] == s2[j] as int);
    }
    assert(s1 =~= s2);
    lemma_set_bits(m1, 32);
    lemma_set_bits(m2, 32);
    assert forall|b: u32| b < 32 implies #[trigger] bit_set(m1, b) == bit_set(m2, b) by {
        assert(s1.contains(b) == s2.contains(b));
    }
    lemma_mask_from_bits(m1, m2);
}

proof fn lemma_no_mask_differs(
    names: Seq<String>,
    src: Option<TaskId>,
    m: u32,
    irqs: Seq<(u32, u32)>,
    timer: Option<(i64, u32)>,
)
    requires
        m != 0,
    ensures
        recv_text(names, src, 0, irqs, timer) != recv_text(names, src, m, irqs, timer),
{
    reveal_strlit("(DEAD)");
    reveal_strlit("notif:");
    reveal_strlit(", ");
    let from_kernel = src matches Some(t) && t.is_kernel();
    let p: Seq<char> = match src {
        Some(t) => if t.is_kernel() { Seq::empty() } else { "recv("@ + task_id_text(names, t) + " only)"@ },
        None => "recv"@,
    };
    let sep: Seq<char> = if from_kernel { Seq::empty() } else { ", "@ };
    let n = notes_text(set_bits(m), irqs, timer);
    let with = p + sep + "notif:"@ + n;
    assert(recv_text(names, src, m, irqs, timer) =~= with);
    if from_kernel {
        assert(recv_text(names, src, 0, irqs, timer) =~= "(DEAD)"@);
        assert(p =~= Seq::<char>::empty());
        assert(with[0] == 'n');
    } else {
        assert(recv_text(names, src, 0, irqs, timer) =~= p);
        assert(with.len() > p.len());
    }
}

/// Nothing is hidden: the text printed for a task in receive determines the
/// notification mask that it waits on. Two masks that print the same, with the
/// same names, source, interrupt table and timer, are the same mask.
pub proof fn lemma_recv_text_determines_mask(
    names: Seq<String>,
    src: Option<TaskId>,
    m1: u32,
    m2: u32,
    irqs: Seq<(u32, u32)>,
    timer: Option<(i64, u32)>,
)
    requires
        recv_text(names, src, m1, irqs, timer) == recv_text(names, src, m2, irqs, timer),
    ensures
        m1 == m2,
{
    if m1 == 0 && m2 != 0 {
        lemma_no_mask_differs(names, src, m2, irqs, timer);
    } else if m2 == 0 && m1 != 0 {
        lemma_no_mask_differs(names, src, m1, irqs, timer);
    } else if m1 != 0 && m2 != 0 {
        let from_kernel = src matches Some(t) && t.is_kernel();
        let p: Seq<char> = match src {
            Some(t) => if t.is_kernel() { Seq::empty() } else { "recv("@ + task_id_text(names, t) + " only)"@ },
            None => "recv"@,
        };
        let sep: Seq<char> = if from_kernel { Seq::empty() } else { ", "@ };
        let x = p + sep + "notif:"@;
        let n1 = notes_text(set_bits(m1), irqs, timer);
        let n2 = notes_text(set_bits(m2), irqs, timer);
        assert(recv_text(names, src, m1, irqs, timer) =~= x + n1);
        assert(recv_text(names, src, m2, irqs, timer) =~= x + n2);
        assert((x + n1).skip(x.len() as int) =~= n1);
        assert((x + n2).skip(x.len() as int) =~= n2);
        assert(n1 == n2);
        lemma_parse_notes(set_bits(m1), irqs, timer);
        lemma_parse_notes(set_bits(m2), irqs, timer);
        lemma_set_bits_determine_mask(m1, m2);
    }
}

/// A notification bit carries the timer's time left exactly where the timer is
/// set and the bits it posts include this one, whatever other bits it posts.
pub proof fn lemma_note_timer(note: NoteInfo, bit: u32, irqs: Seq<(u32, u32)>, timer: Option<(i64, u32)>)
    requires
        describes(note, bit, irqs, timer),
    ensures
        note.timer is Some <==> (timer matches Some((_, posts)) && posts & (1u32 << bit) != 0),
        note.timer is Some ==> (timer matches Some((left, _)) && note.timer == Some(left)),
{
}

proof fn lemma_notes_show_note(bits: Seq<u32>, irqs: Seq<(u32, u32)>, timer: Option<(i64, u32)>, j: int, needle: Seq<char>)
    requires
        0 <= j < bits.len(),
        contains_text(note_text(bits[j], irqs_for(irqs, 1u32 << bits[j]), timer_for(timer, 1u32 << bits[j])), needle),
    ensures
        contains_text(notes_text(bits, irqs, timer), needle),
    decreases bits.len(),
{
    let b = bits.last();
    let front = notes_text(bits.drop_last(), irqs, timer);
    let last = note_text(b, irqs_for(irqs, 1u32 << b), timer_for(timer, 1u32 << b));
    assert(notes_text(bits, irqs, timer) == front + last);
    if j == bits.len() - 1 {
        lemma_contains_within(front, last, Seq::empty(), needle);
        assert(front + last + Seq::<char>::empty() =~= front + last);
    } else {
        assert(bits.drop_last()[j] == bits[j]);
        lemma_notes_show_note(bits.drop_last(), irqs, timer, j, needle);
        lemma_contains_within(Seq::empty(), front, last, needle);
        assert(Seq::<char>::empty() + front + last =~= front + last);
    }
}

/// A task in receive that waits on bit `b` of a set timer whose posted bits
/// include `b` is shown with ` bit`, the bit's number, `(T` and the signed
/// time left, whatever other bits the timer posts.
pub proof fn lemma_recv_shows_timer(
    names: Seq<String>,
    src: Option<TaskId>,
    notmask: u32,
    irqs: Seq<(u32, u32)>,
    left: i64,
    to_post: u32,
    b: u32,
)
    requires
        b < 32,
        notmask & (1u32 << b) != 0,
        to_post & (1u32 << b) != 0,
    ensures
        contains_text(
            recv_text(names, src, notmask, irqs, Some((left, to_post))),
            " bit"@ + dec_digits(b as nat) + seq!['(', 'T'] + signed_dec(left as int, true),
        ),
{
    let timer = Some((left, to_post));
    let needle = " bit"@ + dec_digits(b as nat) + seq!['(', 'T'] + signed_dec(left as int, true);
    lemma_set_bits(notmask, 32);
    assert(set_bits(notmask).contains(b));
    let j = choose|j: int| 0 <= j < set_bits(notmask).len() && set_bits(notmask)[j] == b;
    reveal_strlit("(");
    reveal_strlit("T");
    let nt = note_text(b, irqs_for(irqs, 1u32 << b), timer_for(timer, 1u32 << b));
    let z: int = 0;
    assert(nt.subrange(z, z + needle.len()) =~= needle);
    lemma_notes_show_note(set_bits(notmask), irqs, timer, j, needle);
    assert(notmask != 0) by (bit_vector)
        requires
            b < 32,
            notmask & (1u32 << b) != 0,
    ;
    let from_kernel = src matches Some(t) && t.is_kernel();
    let p: Seq<char> = match src {
        Some(t) => if t.is_kernel() { Seq::empty() } else { "recv("@ + task_id_text(names, t) + " only)"@ },
        None => "recv"@,
    };
    let sep: Seq<char> = if from_kernel { Seq::empty() } else { ", "@ };
    let notes = notes_text(set_bits(notmask), irqs, timer);
    lemma_contains_within(p + sep + "notif:"@, notes, Seq::empty(), needle);
    assert(recv_text(names, src, notmask, irqs, timer) =~= p + sep + "notif:"@ + notes + Seq::<char>::empty());
}

/// The interrupts listed for a bit are exactly those of the table whose mask
/// is that bit alone.
pub proof fn lemma_irqs_for_members(irqs: Seq<(u32, u32)>, bitmask: u32, n: u32)
    ensures
        irqs_for(irqs, bitmask).contains(n) <==> exists|k: int| 0 <= k < irqs.len() && #[trigger] irqs[k] == (bitmask, n),
    decreases irqs.len(),
{
    if irqs.len() > 0 {
        let front = irqs.drop_last();
        lemma_irqs_for_members(front, bitmask, n);
        let found = irqs_for(irqs, bitmask);
        let before = irqs_for(front, bitmask);
        let extra: Seq<u32> = if irqs.last().0 == bitmask { seq![irqs.last().1] } else { Seq::empty() };
        assert(found == before + extra);
        if found.contains(n) {
            let x = choose|x: int| 0 <= x < found.len() && found[x] == n;
            if x < before.len() {
                assert(before[x] == n);
                assert(before.contains(n));
                let k = choose|k: int| 0 <= k < front.len() && #[trigger] front[k] == (bitmask, n);
                assert(irqs[k] == front[k]);
            } else {
                assert(irqs[irqs.len() - 1] == (bitmask, n));
            }
        }
        if exists|k: int| 0 <= k < irqs.len() && #[trigger] irqs[k] == (bitmask, n) {
            let k = choose|k: int| 0 <= k < irqs.len() && #[trigger] irqs[k] == (bitmask, n);
            if k < irqs.len() - 1 {
                assert(front[k] == irqs[k]);
                assert(before.contains(n));
                let x = choose|x: int| 0 <= x < before.len() && before[x] == n;
                assert(found[x] == n);
            } else {
                assert(found[found.len() - 1] == n);
            }
        }
    }
}

proof fn lemma_irq_text_shows(irqs: Seq<u32>, after_timer: bool, k: int)
    requires
        0 <= k < irqs.len(),
    ensures
        contains_text(irq_text(irqs, after_timer), "irq"@ + dec_digits(irqs[k] as nat)),
    decreases irqs.len(),
{
    let n = "irq"@ + dec_digits(irqs[k] as nat);
    let front = irq_text(irqs.drop_last(), after_timer);
    let sep: Seq<char> = if irqs.len() == 1 && !after_timer { Seq::empty() } else { "/"@ };
    let last = "irq"@ + dec_digits(irqs.last() as nat);
    assert(irq_text(irqs, after_timer) =~= (front + sep) + last + Seq::<char>::empty());
    if k == irqs.len() - 1 {
        let z: int = 0;
        assert(last.subrange(z, z + last.len()) =~= last);
        lemma_contains_within(front + sep, last, Seq::empty(), n);
    } else {
        assert(irqs.drop_last()[k] == irqs[k]);
        lemma_irq_text_shows(irqs.drop_last(), after_timer, k);
        lemma_contains_within(Seq::empty(), front, sep + last, n);
        assert(Seq::<char>::empty() + front + (sep + last) =~= (front + sep) + last + Seq::<char>::empty());
    }
}

/// A task in receive that waits on bit `b` is shown with every interrupt that
/// the table routes to that bit alone: `irq` and its number.
pub proof fn lemma_recv_shows_irqs(
    names: Seq<String>,
    src: Option<TaskId>,
    notmask: u32,
    irqs: Seq<(u32, u32)>,
    timer: Option<(i64, u32)>,
    b: u32,
    k: int,
)
    requires
        b < 32,
        notmask & (1u32 << b) != 0,
        0 <= k < irqs.len(),
        irqs[k].0 == 1u32 << b,
    ensures
        contains_text(recv_text(names, src, notmask, irqs, timer), "irq"@ + dec_digits(irqs[k].1 as nat)),
{
    let bitmask = 1u32 << b;
    let n = "irq"@ + dec_digits(irqs[k].1 as nat);
    let listed = irqs_for(irqs, bitmask);
    lemma_irqs_for_members(irqs, bitmask, irqs[k].1);
    assert(irqs[k] == (bitmask, irqs[k].1));
    assert(listed.contains(irqs[k].1));
    let x = choose|x: int| 0 <= x < listed.len() && listed[x] == irqs[k].1;
    let tm = timer_for(timer, bitmask);
    lemma_irq_text_shows(listed, tm is Some, x);
    let tpart: Seq<char> = match tm {
        Some(left) => "T"@ + signed_dec(left as int, true),
        None => Seq::empty(),
    };
    lemma_contains_within("("@ + tpart, irq_text(listed, tm is Some), ")"@, n);
    assert(note_tail(listed, tm) =~= "("@ + tpart + irq_text(listed, tm is Some) + ")"@);
    lemma_contains_within(" bit"@ + dec_digits(b as nat), note_tail(listed, tm), Seq::empty(), n);
    assert(note_text(b, listed, tm) =~= " bit"@ + dec_digits(b as nat) + note_tail(listed, tm) + Seq::<char>::empty());
    lemma_set_bits(notmask, 32);
    assert(set_bits(notmask).contains(b));
    let j = choose|j: int| 0 <= j < set_bits(notmask).len() && set_bits(notmask)[j] == b;
    lemma_notes_show_note(set_bits(notmask), irqs, timer, j, n);
    assert(notmask != 0) by (bit_vector)
        requires
            b < 32,
            notmask & (1u32 << b) != 0,
    ;
    let from_kernel = src matches Some(t) && t.is_kernel();
    let p: Seq<char> = match src {
        Some(t) => if t.is_kernel() { Seq::empty() } else { "recv("@ + task_id_text(names, t) + " only)"@ },
        None => "recv"@,
    };
    let sep: Seq<char> = if from_kernel { Seq::empty() } else { ", "@ };
    let notes = notes_text(set_bits(notmask), irqs, timer);
    lemma_contains_within(p + sep + "notif:"@, notes, Seq::empty(), n);
    assert(recv_text(names, src, notmask, irqs, timer) =~= p + sep + "notif:"@ + notes + Seq::<char>::empty());
}

} // verus!
