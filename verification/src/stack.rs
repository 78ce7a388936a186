//! A task's stack backtrace, as the listing lays it out beneath the task.

use vstd::prelude::*;
use crate::text::{dec_digits, hex_word, push_dec, push_hex_word, contains_text, lemma_contains_within};

verus! {

/// A line of source: its file's full path and its line number.
#[derive(Debug)]
pub struct SourceLine {
    pub path: String,
    pub line: u64,
}

/// A function inlined at a frame: the address it is inlined at, its name, and
/// its line of source where that is known.
#[derive(Debug)]
pub struct InlinedFrame {
    pub addr: u32,
    pub name: String,
    pub source: Option<SourceLine>,
}

/// The symbol that a frame's program counter falls in: its demangled name,
/// and its line of source where that is known.
#[derive(Debug)]
pub struct FrameSymbol {
    pub name: String,
    pub source: Option<SourceLine>,
}

/// One frame of a backtrace: its canonical frame address, its program
/// counter, the functions inlined at it, and its symbol where known.
#[derive(Debug)]
pub struct StackFrame {
    pub cfa: u32,
    pub pc: u32,
    pub inlined: Option<Vec<InlinedFrame>>,
    pub sym: Option<FrameSymbol>,
}

/// What starts each line of the backtrace after the first: the bar that links
/// it to more output below where `additional`, else blanks.
pub open spec fn continuation(additional: bool) -> Seq<char> {
    if additional { "   |      "@ } else { "          "@ }
}

/// What ends the backtrace.
pub open spec fn closing(additional: bool) -> Seq<char> {
    if additional { "   |\n"@ } else { "\n"@ }
}

/// A line of source as the backtrace prints it: indented, `@ `, the path, `:`
/// and the line number.
pub open spec fn source_text(src: SourceLine) -> Seq<char> {
    "           @ "@ + src.path@ + ":"@ + dec_digits(src.line as nat) + "\n"@
}

/// What the backtrace prints for a function inlined at a frame.
pub open spec fn inlined_text(cfa: u32, f: InlinedFrame, line: bool, additional: bool) -> Seq<char> {
    hex_word(cfa as nat) + " "@ + hex_word(f.addr as nat) + " "@ + f.name@ + "\n"@ + continuation(additional)
        + (if line && f.source is Some { source_text(f.source->0) + continuation(additional) } else { Seq::empty() })
}

/// What the backtrace prints for the functions inlined at a frame.
pub open spec fn inlined_seq_text(cfa: u32, fs: Seq<InlinedFrame>, line: bool, additional: bool) -> Seq<char>
    decreases fs.len(),
{
    if fs.len() == 0 {
        Seq::empty()
    } else {
        inlined_seq_text(cfa, fs.drop_last(), line, additional) + inlined_text(cfa, fs.last(), line, additional)
    }
}

/// What follows a frame's address and program counter: the symbol and its
/// line of source, where known.
pub open spec fn symbol_text(sym: Option<FrameSymbol>, line: bool, additional: bool) -> Seq<char> {
    match sym {
        Some(s) => " "@ + s.name@ + "\n"@ + (if line && s.source is Some {
            continuation(additional) + source_text(s.source->0)
        } else {
            Seq::empty()
        }),
        None => "\n"@,
    }
}

/// What the backtrace prints for one frame: its inlined functions, then the
/// frame address, the program counter and the symbol with its line of source.
#[verifier::opaque]
pub open spec fn frame_text(f: StackFrame, line: bool, additional: bool) -> Seq<char> {
    (match f.inlined {
        Some(fs) => inlined_seq_text(f.cfa, fs@, line, additional),
        None => Seq::empty(),
    }) + hex_word(f.cfa as nat) + " "@ + hex_word(f.pc as nat) + symbol_text(f.sym, line, additional)
}

/// What the backtrace prints for its frames, one after another.
pub open spec fn frames_text(fs: Seq<StackFrame>, line: bool, additional: bool) -> Seq<char>
    decreases fs.len(),
{
    if fs.len() == 0 {
        Seq::empty()
    } else {
        frames_text(fs.drop_last(), line, additional)
            + (if fs.len() > 1 { continuation(additional) } else { Seq::empty() })
            + frame_text(fs.last(), line, additional)
    }
}

/// The backtrace that the listing prints beneath a task: with lines of source
/// where `line`, and linked to more output below where `additional`.
pub open spec fn stack_text(fs: Seq<StackFrame>, line: bool, additional: bool) -> Seq<char> {
    "   |\n   +--->  "@ + frames_text(fs, line, additional) + closing(additional)
}

fn push_continuation(out: &mut String, additional: bool)
    ensures
        final(out)@ == old(out)@ + continuation(additional),
{
    if additional {
        out.append("   |      ");
    } else {
        out.append("          ");
    }
}

fn push_source(out: &mut String, src: &SourceLine)
    ensures
        final(out)@ == old(out)@ + source_text(*src),
{
    out.append("           @ ");
    out.append(src.path.as_str());
    out.append(":");
    push_dec(out, src.line);
    out.append("\n");
    assert(out@ =~= old(out)@ + source_text(*src));
}

fn push_inlined(out: &mut String, cfa: u32, f: &InlinedFrame, line: bool, additional: bool)
    ensures
        final(out)@ == old(out)@ + inlined_text(cfa, *f, line, additional),
{
    push_hex_word(out, cfa);
    out.append(" ");
    push_hex_word(out, f.addr);
    out.append(" ");
    out.append(f.name.as_str());
    out.append("\n");
    push_continuation(out, additional);
    if line {
        if let Some(src) = &f.source {
            push_source(out, src);
            push_continuation(out, additional);
        }
    }
    assert(out@ =~= old(out)@ + inlined_text(cfa, *f, line, additional));
}

fn push_inlined_seq(out: &mut String, cfa: u32, fs: &Vec<InlinedFrame>, line: bool, additional: bool)
    ensures
        final(out)@ == old(out)@ + inlined_seq_text(cfa, fs@, line, additional),
{
    let ghost start = out@;
    let mut k: usize = 0;
    while k < fs.len()
        invariant
            k <= fs@.len(),
            out@ == start + inlined_seq_text(cfa, fs@.take(k as int), line, additional),
        decreases fs@.len() - k,
    {
        push_inlined(out, cfa, &fs[k], line, additional);
        proof {
            let t = fs@.take(k + 1);
            assert(t.drop_last() =~= fs@.take(k as int));
            assert(t.last() == fs@[k as int]);
        }
        k = k + 1;
        assert(out@ =~= start + inlined_seq_text(cfa, fs@.take(k as int), line, additional));
    }
    assert(fs@.take(k as int) =~= fs@);
}

fn push_symbol(out: &mut String, sym: &Option<FrameSymbol>, line: bool, additional: bool)
    ensures
        final(out)@ == old(out)@ + symbol_text(*sym, line, additional),
{
    match sym {
        Some(s) => {
            out.append(" ");
            out.append(s.name.as_str());
            out.append("\n");
            if line {
                if let Some(src) = &s.source {
                    push_continuation(out, additional);
                    push_source(out, src);
                }
            }
        },
        None => out.append("\n"),
    }
    assert(out@ =~= old(out)@ + symbol_text(*sym, line, additional));
}

fn push_frame(out: &mut String, f: &StackFrame, line: bool, additional: bool)
    ensures
        final(out)@ == old(out)@ + frame_text(*f, line, additional),
{
    reveal(frame_text);
    let ghost start = out@;
    if let Some(fs) = &f.inlined {
        push_inlined_seq(out, f.cfa, fs, line, additional);
    }
    let ghost mid = out@;
    assert(mid == start + (match f.inlined {
        Some(fs) => inlined_seq_text(f.cfa, fs@, line, additional),
        None => Seq::empty(),
    }));
    push_hex_word(out, f.cfa);
    out.append(" ");
    push_hex_word(out, f.pc);
    push_symbol(out, &f.sym, line, additional);
    assert(out@ =~= old(out)@ + frame_text(*f, line, additional));
}

/// Appends the backtrace that the listing prints beneath a task: with lines of
/// source where `line`, and linked to more output below where `additional`.
pub fn format_stack(out: &mut String, frames: &Vec<StackFrame>, line: bool, additional: bool)
    ensures
        final(out)@ == old(out)@ + stack_text(frames@, line, additional),
{
    out.append("   |\n   +--->  ");
    let ghost start = out@;
    let mut i: usize = 0;
    while i < frames.len()
        invariant
            i <= frames@.len(),
            out@ == start + frames_text(frames@.take(i as int), line, additional),
        decreases frames@.len() - i,
    {
        if i > 0 {
            push_continuation(out, additional);
        }
        push_frame(out, &frames[i], line, additional);
        proof {
            let t = frames@.take(i + 1);
            assert(t.drop_last() =~= frames@.take(i as int));
            assert(t.last() == frames@[i as int]);
        }
        i = i + 1;
        assert(out@ =~= start + frames_text(frames@.take(i as int), line, additional));
    }
    assert(frames@.take(i as int) =~= frames@);
    if additional {
        out.append("   |\n");
    } else {
        out.append("\n");
    }
    assert(out@ =~= old(out)@ + stack_text(frames@, line, additional));
}

/// How a line of source reads in a backtrace: `@ `, the path, `:` and the
/// line number.
pub open spec fn source_reference(src: SourceLine) -> Seq<char> {
    seq!['@', ' '] + src.path@ + seq![':'] + dec_digits(src.line as nat)
}

proof fn lemma_source_text_shows(src: SourceLine)
    ensures
        contains_text(source_text(src), source_reference(src)),
{
    reveal_strlit("           @ ");
    reveal_strlit(":");
    let t = source_text(src);
    let n = source_reference(src);
    assert(t.subrange(11, 11 + n.len() as int) =~= n);
}

proof fn lemma_frame_shows_source(f: StackFrame, additional: bool)
    requires
        f.sym matches Some(s) && s.source is Some,
    ensures
        contains_text(frame_text(f, true, additional), source_reference(f.sym->0.source->0)),
{
    reveal(frame_text);
    let s = f.sym->0;
    let src = s.source->0;
    lemma_source_text_shows(src);
    lemma_contains_within(" "@ + s.name@ + "\n"@ + continuation(additional), source_text(src), Seq::empty(), source_reference(src));
    assert(symbol_text(f.sym, true, additional) =~= " "@ + s.name@ + "\n"@ + continuation(additional) + source_text(src) + Seq::<char>::empty());
    let head = (match f.inlined {
        Some(fs) => inlined_seq_text(f.cfa, fs@, true, additional),
        None => Seq::empty(),
    }) + hex_word(f.cfa as nat) + " "@ + hex_word(f.pc as nat);
    lemma_contains_within(head, symbol_text(f.sym, true, additional), Seq::empty(), source_reference(src));
    assert(frame_text(f, true, additional) =~= head + symbol_text(f.sym, true, additional) + Seq::<char>::empty());
}

proof fn lemma_frames_show(fs: Seq<StackFrame>, line: bool, additional: bool, j: int, needle: Seq<char>)
    requires
        0 <= j < fs.len(),
        contains_text(frame_text(fs[j], line, additional), needle),
    ensures
        contains_text(frames_text(fs, line, additional), needle),
    decreases fs.len(),
{
    let gap: Seq<char> = if fs.len() > 1 { continuation(additional) } else { Seq::empty() };
    let front = frames_text(fs.drop_last(), line, additional);
    let last = frame_text(fs.last(), line, additional);
    assert(frames_text(fs, line, additional) == front + gap + last);
    if j == fs.len() - 1 {
        lemma_contains_within(front + gap, last, Seq::empty(), needle);
        assert(front + gap + last + Seq::<char>::empty() =~= front + gap + last);
    } else {
        assert(fs.drop_last()[j] == fs[j]);
        lemma_frames_show(fs.drop_last(), line, additional, j, needle);
        lemma_contains_within(Seq::empty(), front, gap + last, needle);
        assert(Seq::<char>::empty() + front + (gap + last) =~= front + gap + last);
    }
}

/// With lines of source asked for, a backtrace shows the line of source of every
/// frame's symbol that has one (`@ `, the path, `:` and the line number),
/// whether or not more output follows below it.
pub proof fn lemma_stack_shows_sources(fs: Seq<StackFrame>, additional: bool, j: int)
    requires
        0 <= j < fs.len(),
        fs[j].sym matches Some(s) && s.source is Some,
    ensures
        contains_text(stack_text(fs, true, additional), source_reference(fs[j].sym->0.source->0)),
{
    lemma_frame_shows_source(fs[j], additional);
    lemma_frames_show(fs, true, additional, j, source_reference(fs[j].sym->0.source->0));
    lemma_contains_within("   |\n   +--->  "@, frames_text(fs, true, additional), closing(additional),
        source_reference(fs[j].sym->0.source->0));
}

/// How a frame's address and program counter read in a backtrace: each as
/// `0x` and eight hexadecimal digits, with a space between.
pub open spec fn frame_reference(f: StackFrame) -> Seq<char> {
    hex_word(f.cfa as nat) + seq![' '] + hex_word(f.pc as nat)
}

/// A backtrace shows every frame's address and program counter, whatever the
/// options.
pub proof fn lemma_stack_shows_frames(fs: Seq<StackFrame>, line: bool, additional: bool, j: int)
    requires
        0 <= j < fs.len(),
    ensures
        contains_text(stack_text(fs, line, additional), frame_reference(fs[j])),
{
    reveal(frame_text);
    reveal_strlit(" ");
    let f = fs[j];
    let head = match f.inlined {
        Some(inl) => inlined_seq_text(f.cfa, inl@, line, additional),
        None => Seq::empty(),
    };
    let n = frame_reference(f);
    let z: int = 0;
    assert(n.subrange(z, z + n.len()) =~= n);
    lemma_contains_within(head, n, symbol_text(f.sym, line, additional), n);
    assert(frame_text(f, line, additional) =~= head + n + symbol_text(f.sym, line, additional));
    lemma_frames_show(fs, line, additional, j, n);
    lemma_contains_within("   |\n   +--->  "@, frames_text(fs, line, additional), closing(additional), n);
}

} // verus!
