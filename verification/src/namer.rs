//! Output file naming: the 1-based chunk number rendered in decimal,
//! left-padded with zeros to the digit width of the chunk count, spliced
//! between the source's base name and extension. The scheme is injective
//! over chunk indices, so no two chunks ever share an output file.

use vstd::prelude::*;
use vstd::arithmetic::div_mod::lemma_div_is_ordered;
use vstd::arithmetic::div_mod::lemma_fundamental_div_mod;

verus! {

/// The character for the decimal digit `d` (for `0 <= d <= 9`).
pub open spec fn digit_char(d: int) -> char {
    if d == 0 {
        '0'
    } else if d == 1 {
        '1'
    } else if d == 2 {
        '2'
    } else if d == 3 {
        '3'
    } else if d == 4 {
        '4'
    } else if d == 5 {
        '5'
    } else if d == 6 {
        '6'
    } else if d == 7 {
        '7'
    } else if d == 8 {
        '8'
    } else {
        '9'
    }
}

/// The numeric value of a decimal digit character.
pub open spec fn digit_val(c: char) -> int {
    c as int - '0' as int
}

/// The decimal digits of `n`, most significant first, with no leading
/// zeros (`0` is written as the single digit `'0'`).
pub open spec fn dec_digits(n: nat) -> Seq<char>
    decreases n,
{
    if n < 10 {
        seq![digit_char(n as int)]
    } else {
        dec_digits(n / 10).push(digit_char((n % 10) as int))
    }
}

/// The numeric value of a sequence of decimal digit characters.
pub open spec fn seq_val(s: Seq<char>) -> int
    decreases s.len(),
{
    if s.len() == 0 {
        0
    } else {
        seq_val(s.drop_last()) * 10 + digit_val(s.last())
    }
}

/// A run of `k` zero characters.
pub open spec fn zeros(k: nat) -> Seq<char> {
    Seq::new(k, |i: int| '0')
}

/// How many zeros pad the display number of `sample` to the digit width
/// of `samples`.
pub open spec fn pad_width(sample: nat, samples: nat) -> nat {
    if dec_digits(samples).len() >= dec_digits(sample + 1).len() {
        (dec_digits(samples).len() - dec_digits(sample + 1).len()) as nat
    } else {
        0
    }
}

/// The display number of the chunk at `sample`: its 1-based index in
/// decimal, left-padded with zeros to the digit width of `samples`.
pub open spec fn sample_number(sample: nat, samples: nat) -> Seq<char> {
    zeros(pad_width(sample, samples)) + dec_digits(sample + 1)
}

/// The output file name for the chunk at `sample`:
/// `{base}_{display number}.{ext}`.
pub open spec fn target_name(base: Seq<char>, ext: Seq<char>, sample: nat, samples: nat) -> Seq<
    char,
> {
    base + seq!['_'] + sample_number(sample, samples) + seq!['.'] + ext
}

/// A smaller number never has more decimal digits.
pub proof fn lemma_dec_digits_len_le(a: nat, b: nat)
    requires
        a <= b,
    ensures
        dec_digits(a).len() <= dec_digits(b).len(),
    decreases b,
{
    if b < 10 {
    } else if a < 10 {
        assert(dec_digits(b).len() == dec_digits(b / 10).len() + 1);
    } else {
        lemma_div_is_ordered(a as int, b as int, 10);
        lemma_dec_digits_len_le(a / 10, b / 10);
    }
}

/// Every `u32` has at most ten decimal digits.
pub proof fn lemma_dec_digits_len_u32(n: nat)
    requires
        n < 0x1_0000_0000,
    ensures
        dec_digits(n).len() <= 10,
{
    lemma_dec_digits_len_le(n, 0xffff_ffff);
    assert(dec_digits(4).len() == 1);
    assert(dec_digits(42).len() == 2);
    assert(dec_digits(429).len() == 3);
    assert(dec_digits(4294).len() == 4);
    assert(dec_digits(42949).len() == 5);
    assert(dec_digits(429496).len() == 6);
    assert(dec_digits(4294967).len() == 7);
    assert(dec_digits(42949672).len() == 8);
    assert(dec_digits(429496729).len() == 9);
    assert(dec_digits(4294967295).len() == 10);
}

/// Reading the decimal digits of `n` back as a numeral yields `n`.
pub proof fn lemma_seq_val_of_dec_digits(n: nat)
    ensures
        seq_val(dec_digits(n)) == n,
    decreases n,
{
    if n < 10 {
        let s = dec_digits(n);
        assert(s.drop_last() =~= Seq::<char>::empty());
        assert(seq_val(s.drop_last()) == 0);
        assert(s.last() == digit_char(n as int));
    } else {
        lemma_seq_val_of_dec_digits(n / 10);
        lemma_fundamental_div_mod(n as int, 10);
        let s = dec_digits(n);
        assert(s.drop_last() == dec_digits(n / 10));
        assert(digit_val(s.last()) == n % 10);
    }
}

/// Leading zeros do not change the value of a numeral.
pub proof fn lemma_seq_val_ignores_leading_zeros(k: nat, s: Seq<char>)
    ensures
        seq_val(zeros(k) + s) == seq_val(s),
    decreases s.len(),
{
    if s.len() == 0 {
        assert(zeros(k) + s =~= zeros(k));
        lemma_seq_val_of_zeros(k);
    } else {
        assert((zeros(k) + s).drop_last() =~= zeros(k) + s.drop_last());
        assert((zeros(k) + s).last() == s.last());
        lemma_seq_val_ignores_leading_zeros(k, s.drop_last());
    }
}

/// A run of zeros is the numeral for zero.
proof fn lemma_seq_val_of_zeros(k: nat)
    ensures
        seq_val(zeros(k)) == 0,
    decreases k,
{
    if k > 0 {
        assert(zeros(k).drop_last() =~= zeros((k - 1) as nat));
        assert(zeros(k).last() == '0');
        lemma_seq_val_of_zeros((k - 1) as nat);
    }
}

/// Appends the decimal digit `d` to `s`.
fn append_digit(s: &mut String, d: u32)
    requires
        d < 10,
    ensures
        final(s)@ == old(s)@.push(digit_char(d as int)),
{
    proof {
        reveal_strlit("0");
        reveal_strlit("1");
        reveal_strlit("2");
        reveal_strlit("3");
        reveal_strlit("4");
        reveal_strlit("5");
        reveal_strlit("6");
        reveal_strlit("7");
        reveal_strlit("8");
        reveal_strlit("9");
    }
    if d == 0 {
        s.append("0");
    } else if d == 1 {
        s.append("1");
    } else if d == 2 {
        s.append("2");
    } else if d == 3 {
        s.append("3");
    } else if d == 4 {
        s.append("4");
    } else if d == 5 {
        s.append("5");
    } else if d == 6 {
        s.append("6");
    } else if d == 7 {
        s.append("7");
    } else if d == 8 {
        s.append("8");
    } else {
        s.append("9");
    }
    proof {
        assert(s@ =~= old(s)@.push(digit_char(d as int)));
    }
}

/// Appends the decimal digits of `n`, most significant first.
fn append_dec_digits(s: &mut String, n: u32)
    ensures
        final(s)@ == old(s)@ + dec_digits(n as nat),
    decreases n,
{
    if n < 10 {
        append_digit(s, n);
        proof {
            assert(s@ =~= old(s)@ + dec_digits(n as nat));
        }
    } else {
        append_dec_digits(s, n / 10);
        append_digit(s, n % 10);
        proof {
            assert(s@ =~= old(s)@ + dec_digits(n as nat));
        }
    }
}

/// The zero-padded display number of the chunk at index `sample` out of
/// `samples`: `sample + 1` in decimal, left-padded with zeros to the digit
/// width of `samples`.
pub fn make_sample_number_string(sample: u32, samples: u32) -> (r: String)
    requires
        sample < samples,
    ensures
        r@ == sample_number(sample as nat, samples as nat),
        r@.len() == dec_digits(samples as nat).len(),
{
    proof {
        lemma_dec_digits_len_le((sample + 1) as nat, samples as nat);
        reveal_strlit("0");
    }
    let width = decimal_width(samples);
    let numwidth = decimal_width(sample + 1);
    let pad = width - numwidth;
    let mut r = String::new();
    let mut k: usize = 0;
    while k < pad
        invariant
            k <= pad,
            pad == pad_width(sample as nat, samples as nat),
            r@ =~= zeros(k as nat),
        decreases pad - k,
    {
        r.append("0");
        k = k + 1;
        proof {
            reveal_strlit("0");
            assert(r@ =~= zeros(k as nat));
        }
    }
    append_dec_digits(&mut r, sample + 1);
    proof {
        assert(r@ =~= sample_number(sample as nat, samples as nat));
    }
    r
}

/// The output file name for the chunk at index `sample`: the source's base
/// name, an underscore, the zero-padded display number, a dot, and the
/// source's extension.
pub fn make_target_file(base: &str, ext: &str, sample: u32, samples: u32) -> (r: String)
    requires
        sample < samples,
    ensures
        r@ == target_name(base@, ext@, sample as nat, samples as nat),
{
    proof {
        reveal_strlit("_");
        reveal_strlit(".");
    }
    let mut r = String::from_str(base);
    r.append("_");
    let num = make_sample_number_string(sample, samples);
    r.append(num.as_str());
    r.append(".");
    r.append(ext);
    proof {
        assert(r@ =~= target_name(base@, ext@, sample as nat, samples as nat));
    }
    r
}

/// Display numbers are injective for a fixed chunk count: two indices below
/// `samples` with the same padded display number are the same index.
pub proof fn lemma_sample_number_injective(i: nat, j: nat, samples: nat)
    requires
        i < samples,
        j < samples,
        sample_number(i, samples) == sample_number(j, samples),
    ensures
        i == j,
{
    lemma_seq_val_ignores_leading_zeros(pad_width(i, samples), dec_digits(i + 1));
    lemma_seq_val_ignores_leading_zeros(pad_width(j, samples), dec_digits(j + 1));
    lemma_seq_val_of_dec_digits(i + 1);
    lemma_seq_val_of_dec_digits(j + 1);
}

/// Every display number produced for a fixed chunk count has exactly the
/// digit width of that count.
pub proof fn lemma_sample_number_width(sample: nat, samples: nat)
    requires
        sample < samples,
    ensures
        sample_number(sample, samples).len() == dec_digits(samples).len(),
{
    lemma_dec_digits_len_le(sample + 1, samples);
}

/// File names are injective for a fixed base name, extension and chunk
/// count: no two distinct indices produce the same output file name.
pub proof fn lemma_target_names_injective(base: Seq<char>, ext: Seq<char>, i: nat, j: nat,
    samples: nat,
)
    requires
        i < samples,
        j < samples,
        target_name(base, ext, i, samples) == target_name(base, ext, j, samples),
    ensures
        i == j,
{
    lemma_sample_number_width(i, samples);
    lemma_sample_number_width(j, samples);
    let w = dec_digits(samples).len() as int;
    let lo = base.len() as int + 1;
    let ti = target_name(base, ext, i, samples);
    let tj = target_name(base, ext, j, samples);
    assert(ti.subrange(lo, lo + w) =~= sample_number(i, samples));
    assert(tj.subrange(lo, lo + w) =~= sample_number(j, samples));
    lemma_sample_number_injective(i, j, samples);
}

/// `n` rendered in decimal, with no padding.
pub fn decimal_string(n: u32) -> (r: String)
    ensures
        r@ == dec_digits(n as nat),
{
    let mut r = String::new();
    append_dec_digits(&mut r, n);
    proof {
        assert(r@ =~= dec_digits(n as nat));
    }
    r
}

/// The number of decimal digits of `n`.
pub fn decimal_width(n: u32) -> (w: usize)
    ensures
        w == dec_digits(n as nat).len(),
        w <= 10,
    decreases n,
{
    proof {
        lemma_dec_digits_len_u32(n as nat);
    }
    if n < 10 {
        1
    } else {
        1 + decimal_width(n / 10)
    }
}

} // verus!
