//! Number formatting and padding, as the listing prints them.

use vstd::prelude::*;

verus! {

/// The digit character for `d` (lower-case for 10 through 15).
pub open spec fn digit_char(d: nat) -> char {
    if d == 0 { '0' }
    else if d == 1 { '1' }
    else if d == 2 { '2' }
    else if d == 3 { '3' }
    else if d == 4 { '4' }
    else if d == 5 { '5' }
    else if d == 6 { '6' }
    else if d == 7 { '7' }
    else if d == 8 { '8' }
    else if d == 9 { '9' }
    else if d == 10 { 'a' }
    else if d == 11 { 'b' }
    else if d == 12 { 'c' }
    else if d == 13 { 'd' }
    else if d == 14 { 'e' }
    else { 'f' }
}

/// Decimal digits of `n`, most significant first, without leading zeros.
pub open spec fn dec_digits(n: nat) -> Seq<char>
    decreases n,
{
    if n < 10 {
        seq![digit_char(n)]
    } else {
        dec_digits(n / 10).push(digit_char(n % 10))
    }
}

/// Lower-case hexadecimal digits of `n`, most significant first, without leading zeros.
pub open spec fn hex_digits(n: nat) -> Seq<char>
    decreases n,
{
    if n < 16 {
        seq![digit_char(n)]
    } else {
        hex_digits(n / 16).push(digit_char(n % 16))
    }
}

/// `v` in decimal, with a leading `-` when negative and, when `plus`, a leading `+`
/// when not negative.
pub open spec fn signed_dec(v: int, plus: bool) -> Seq<char> {
    if v < 0 {
        seq!['-'] + dec_digits((-v) as nat)
    } else if plus {
        seq!['+'] + dec_digits(v as nat)
    } else {
        dec_digits(v as nat)
    }
}

/// `k` copies of `c`.
pub open spec fn repeat_char(c: char, k: nat) -> Seq<char> {
    Seq::new(k, |i: int| c)
}

/// `s` preceded by as many copies of `c` as it takes to make it `width` long.
pub open spec fn pad_left(s: Seq<char>, width: nat, c: char) -> Seq<char> {
    if s.len() < width {
        repeat_char(c, (width - s.len()) as nat) + s
    } else {
        s
    }
}

/// `s` followed by as many spaces as it takes to make it `width` long.
pub open spec fn pad_right(s: Seq<char>, width: nat) -> Seq<char> {
    if s.len() < width {
        s + repeat_char(' ', (width - s.len()) as nat)
    } else {
        s
    }
}

/// `0x` followed by `v` in hexadecimal, zero-padded to eight digits.
pub open spec fn hex_word(v: nat) -> Seq<char> {
    seq!['0', 'x'] + pad_left(hex_digits(v), 8, '0')
}

/// The value that a sequence of hexadecimal digit characters denotes.
pub open spec fn hex_value(s: Seq<char>) -> int
    decreases s.len(),
{
    if s.len() == 0 {
        0
    } else {
        hex_value(s.drop_last()) * 16 + digit_value(s.last())
    }
}

/// The value of a digit character; that of a character that is no digit is 0.
pub open spec fn digit_value(c: char) -> int {
    if c == '1' { 1 }
    else if c == '2' { 2 }
    else if c == '3' { 3 }
    else if c == '4' { 4 }
    else if c == '5' { 5 }
    else if c == '6' { 6 }
    else if c == '7' { 7 }
    else if c == '8' { 8 }
    else if c == '9' { 9 }
    else if c == 'a' { 10 }
    else if c == 'b' { 11 }
    else if c == 'c' { 12 }
    else if c == 'd' { 13 }
    else if c == 'e' { 14 }
    else if c == 'f' { 15 }
    else { 0 }
}

/// The value that a sequence of decimal digit characters denotes.
pub open spec fn dec_value(s: Seq<char>) -> int
    decreases s.len(),
{
    if s.len() == 0 {
        0
    } else {
        dec_value(s.drop_last()) * 10 + digit_value(s.last())
    }
}

/// The one-character string holding the digit `d`.
fn digit_str(d: u64) -> (s: &'static str)
    requires
        d < 16,
    ensures
        s@ == seq![digit_char(d as nat)],
{
    if d == 0 { proof { reveal_strlit("0"); } "0" }
    else if d == 1 { proof { reveal_strlit("1"); } "1" }
    else if d == 2 { proof { reveal_strlit("2"); } "2" }
    else if d == 3 { proof { reveal_strlit("3"); } "3" }
    else if d == 4 { proof { reveal_strlit("4"); } "4" }
    else if d == 5 { proof { reveal_strlit("5"); } "5" }
    else if d == 6 { proof { reveal_strlit("6"); } "6" }
    else if d == 7 { proof { reveal_strlit("7"); } "7" }
    else if d == 8 { proof { reveal_strlit("8"); } "8" }
    else if d == 9 { proof { reveal_strlit("9"); } "9" }
    else if d == 10 { proof { reveal_strlit("a"); } "a" }
    else if d == 11 { proof { reveal_strlit("b"); } "b" }
    else if d == 12 { proof { reveal_strlit("c"); } "c" }
    else if d == 13 { proof { reveal_strlit("d"); } "d" }
    else if d == 14 { proof { reveal_strlit("e"); } "e" }
    else { proof { reveal_strlit("f"); } "f" }
}

/// Appends `n` in decimal.
pub fn push_dec(out: &mut String, n: u64)
    ensures
        final(out)@ == old(out)@ + dec_digits(n as nat),
    decreases n,
{
    if n >= 10 {
        push_dec(out, n / 10);
    }
    out.append(digit_str(n % 10));
    proof {
        if n >= 10 {
            assert(dec_digits(n as nat) == dec_digits((n / 10) as nat).push(digit_char((n % 10) as nat)));
        }
    }
    assert(out@ =~= old(out)@ + dec_digits(n as nat));
}

/// Appends `n` in lower-case hexadecimal.
pub fn push_hex(out: &mut String, n: u64)
    ensures
        final(out)@ == old(out)@ + hex_digits(n as nat),
    decreases n,
{
    if n >= 16 {
        push_hex(out, n / 16);
    }
    out.append(digit_str(n % 16));
    proof {
        if n >= 16 {
            assert(hex_digits(n as nat) == hex_digits((n / 16) as nat).push(digit_char((n % 16) as nat)));
        }
    }
    assert(out@ =~= old(out)@ + hex_digits(n as nat));
}

/// Appends `v` in decimal, with a `-` when negative and, when `plus`, a `+` when not.
pub fn push_signed(out: &mut String, v: i64, plus: bool)
    ensures
        final(out)@ == old(out)@ + signed_dec(v as int, plus),
{
    if v < 0 {
        proof { reveal_strlit("-"); }
        out.append("-");
        let magnitude: u64 = (-(v as i128)) as u64;
        push_dec(out, magnitude);
    } else {
        if plus {
            proof { reveal_strlit("+"); }
            out.append("+");
        }
        push_dec(out, v as u64);
    }
    assert(out@ =~= old(out)@ + signed_dec(v as int, plus));
}

/// Appends `count` copies of the one character of `unit`.
fn push_repeat(out: &mut String, unit: &str, count: usize)
    requires
        unit@.len() == 1,
    ensures
        final(out)@ == old(out)@ + repeat_char(unit@[0], count as nat),
{
    let mut i: usize = 0;
    while i < count
        invariant
            i <= count,
            unit@.len() == 1,
            out@ == old(out)@ + repeat_char(unit@[0], i as nat),
        decreases count - i,
    {
        out.append(unit);
        i = i + 1;
        assert(out@ =~= old(out)@ + repeat_char(unit@[0], i as nat));
    }
}

/// Appends `s`, preceded by spaces up to `width` characters.
pub fn push_pad_left(out: &mut String, s: &str, width: usize)
    ensures
        final(out)@ == old(out)@ + pad_left(s@, width as nat, ' '),
{
    let len = s.unicode_len();
    if len < width {
        proof { reveal_strlit(" "); }
        push_repeat(out, " ", width - len);
    }
    out.append(s);
    assert(out@ =~= old(out)@ + pad_left(s@, width as nat, ' '));
}

/// Appends `s`, followed by spaces up to `width` characters.
pub fn push_pad_right(out: &mut String, s: &str, width: usize)
    ensures
        final(out)@ == old(out)@ + pad_right(s@, width as nat),
{
    let len = s.unicode_len();
    out.append(s);
    if len < width {
        proof { reveal_strlit(" "); }
        push_repeat(out, " ", width - len);
    }
    assert(out@ =~= old(out)@ + pad_right(s@, width as nat));
}

/// Appends `n` in decimal, preceded by spaces up to `width` characters.
pub fn push_dec_width(out: &mut String, n: u64, width: usize)
    ensures
        final(out)@ == old(out)@ + pad_left(dec_digits(n as nat), width as nat, ' '),
{
    let mut digits = String::new();
    push_dec(&mut digits, n);
    assert(digits@ =~= dec_digits(n as nat));
    push_pad_left(out, digits.as_str(), width);
}

/// Appends `0x` and `v` in hexadecimal, zero-padded to eight digits.
pub fn push_hex_word(out: &mut String, v: u32)
    ensures
        final(out)@ == old(out)@ + hex_word(v as nat),
{
    let mut digits = String::new();
    push_hex(&mut digits, v as u64);
    assert(digits@ =~= hex_digits(v as nat));
    let len = digits.as_str().unicode_len();
    proof { reveal_strlit("0x"); }
    out.append("0x");
    if len < 8 {
        proof { reveal_strlit("0"); }
        push_repeat(out, "0", 8 - len);
    }
    out.append(digits.as_str());
    assert(out@ =~= old(out)@ + hex_word(v as nat));
}

} // verus!

verus! {

proof fn lemma_digit_value(d: nat)
    requires
        d < 16,
    ensures
        digit_value(digit_char(d)) == d,
{
}

/// The decimal digits printed for `n` denote `n`.
pub proof fn lemma_dec_digits_denote(n: nat)
    ensures
        dec_value(dec_digits(n)) == n,
        dec_digits(n).len() >= 1,
    decreases n,
{
    lemma_digit_value(n % 10);
    if n < 10 {
        let s = seq![digit_char(n)];
        assert(s.drop_last() =~= Seq::<char>::empty());
        assert(dec_value(Seq::<char>::empty()) == 0);
        assert(dec_value(s) == dec_value(s.drop_last()) * 10 + digit_value(s.last()));
    } else {
        lemma_dec_digits_denote(n / 10);
        let d = dec_digits(n / 10);
        let s = d.push(digit_char(n % 10));
        assert(s.drop_last() =~= d);
        assert(s.last() == digit_char(n % 10));
        assert(dec_value(s) == dec_value(d) * 10 + digit_value(digit_char(n % 10)));
    }
}

/// The hexadecimal digits printed for `n` denote `n`.
pub proof fn lemma_hex_digits_denote(n: nat)
    ensures
        hex_value(hex_digits(n)) == n,
        hex_digits(n).len() >= 1,
    decreases n,
{
    lemma_digit_value(n % 16);
    if n < 16 {
        let s = seq![digit_char(n)];
        assert(s.drop_last() =~= Seq::<char>::empty());
        assert(hex_value(Seq::<char>::empty()) == 0);
        assert(hex_value(s) == hex_value(s.drop_last()) * 16 + digit_value(s.last()));
    } else {
        lemma_hex_digits_denote(n / 16);
        let d = hex_digits(n / 16);
        let s = d.push(digit_char(n % 16));
        assert(s.drop_last() =~= d);
        assert(s.last() == digit_char(n % 16));
        assert(hex_value(s) == hex_value(d) * 16 + digit_value(digit_char(n % 16)));
    }
}

proof fn lemma_hex_digits_len(n: nat, k: nat)
    requires
        k >= 1,
        n < pow16(k),
    ensures
        hex_digits(n).len() <= k,
    decreases k,
{
    if n >= 16 {
        assert(k >= 2) by {
            if k == 1 {
                assert(pow16(1) == 16 * pow16(0));
            }
        }
        assert(pow16(k) == 16 * pow16((k - 1) as nat));
        assert(n / 16 < pow16((k - 1) as nat));
        lemma_hex_digits_len(n / 16, (k - 1) as nat);
    }
}

spec fn pow16(k: nat) -> nat
    decreases k,
{
    if k == 0 { 1 } else { 16 * pow16((k - 1) as nat) }
}

proof fn lemma_hex_value_leading_zeros(k: nat, s: Seq<char>)
    ensures
        hex_value(repeat_char('0', k) + s) == hex_value(s),
    decreases s.len(),
{
    if s.len() == 0 {
        assert(repeat_char('0', k) + s =~= repeat_char('0', k));
        lemma_hex_value_zeros(k);
    } else {
        lemma_hex_value_leading_zeros(k, s.drop_last());
        assert((repeat_char('0', k) + s).drop_last() =~= repeat_char('0', k) + s.drop_last());
    }
}

proof fn lemma_hex_value_zeros(k: nat)
    ensures
        hex_value(repeat_char('0', k)) == 0,
    decreases k,
{
    if k > 0 {
        lemma_hex_value_zeros((k - 1) as nat);
        assert(repeat_char('0', k).drop_last() =~= repeat_char('0', (k - 1) as nat));
    }
}

/// What `0x{:08x}` prints for a 32-bit value: `0x` and exactly eight digits,
/// which denote the value.
pub proof fn lemma_hex_word_denotes(v: u32)
    ensures
        hex_word(v as nat).len() == 10,
        hex_word(v as nat).take(2) == seq!['0', 'x'],
        hex_value(hex_word(v as nat).skip(2)) == v,
{
    assert(pow16(8) == 0x1_0000_0000) by {
        reveal_with_fuel(pow16, 9);
    }
    lemma_hex_digits_len(v as nat, 8);
    lemma_hex_digits_denote(v as nat);
    lemma_hex_value_leading_zeros((8 - hex_digits(v as nat).len()) as nat, hex_digits(v as nat));
    assert(hex_word(v as nat).skip(2) =~= pad_left(hex_digits(v as nat), 8, '0'));
    assert(hex_word(v as nat).take(2) =~= seq!['0', 'x']);
}

/// 10 to the power `k`.
pub open spec fn pow10(k: nat) -> nat
    decreases k,
{
    if k == 0 { 1 } else { 10 * pow10((k - 1) as nat) }
}

/// A number below 10 to the `k` has at most `k` decimal digits.
pub proof fn lemma_dec_digits_len(n: nat, k: nat)
    requires
        k >= 1,
        n < pow10(k),
    ensures
        dec_digits(n).len() <= k,
    decreases k,
{
    if n >= 10 {
        assert(k >= 2) by {
            if k == 1 {
                assert(pow10(1) == 10 * pow10(0));
            }
        }
        assert(pow10(k) == 10 * pow10((k - 1) as nat));
        assert(n / 10 < pow10((k - 1) as nat));
        lemma_dec_digits_len(n / 10, (k - 1) as nat);
    }
}

/// Whether `needle` occurs in `hay`, as a run of consecutive characters.
pub open spec fn contains_text(hay: Seq<char>, needle: Seq<char>) -> bool {
    exists|i: int| 0 <= i && i + needle.len() <= hay.len() && #[trigger] hay.subrange(i, i + needle.len()) == needle
}

/// Text found in `hay` is still found with more text before and after it.
pub proof fn lemma_contains_within(before: Seq<char>, hay: Seq<char>, after: Seq<char>, needle: Seq<char>)
    requires
        contains_text(hay, needle),
    ensures
        contains_text(before + hay + after, needle),
{
    let i = choose|i: int| 0 <= i && i + needle.len() <= hay.len() && #[trigger] hay.subrange(i, i + needle.len()) == needle;
    let whole = before + hay + after;
    let k = before.len() + i;
    assert(whole.subrange(k, k + needle.len()) =~= hay.subrange(i, i + needle.len()));
    assert(0 <= k && k + needle.len() <= whole.len() && whole.subrange(k, k + needle.len()) == needle);
}

/// Whether `s` ends with `t`.
pub open spec fn ends_with(s: Seq<char>, t: Seq<char>) -> bool {
    t.len() <= s.len() && s.skip(s.len() - t.len()) == t
}

/// Text ends with what was appended last.
pub proof fn lemma_ends_with_appended(s: Seq<char>, t: Seq<char>)
    ensures
        ends_with(s + t, t),
{
    assert((s + t).skip((s + t).len() - t.len()) =~= t);
}

/// Two texts end alike only where their last characters agree.
pub proof fn lemma_ends_with_last(s: Seq<char>, t: Seq<char>)
    requires
        ends_with(s, t),
        t.len() > 0,
    ensures
        s.last() == t.last(),
{
    assert(s.skip(s.len() - t.len())[t.len() - 1] == s[s.len() - 1]);
}

} // verus!
