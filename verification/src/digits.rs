//! Decimal text for the numeric fields of a record.
//!
//! Integers are rendered as canonical decimal digits (via `itoa`), monetary
//! amounts as a whole part and exactly two fractional digits, and timestamps
//! as seconds followed by a fractional part of microsecond precision whose
//! trailing zeros are trimmed so that the digit count is minimal.

use vstd::prelude::*;
use vstd::string::*;
use vstd::utf8::is_ascii_chars;

verus! {

/// The decimal digit character for a value below ten.
pub open spec fn digit_char(d: nat) -> char
    recommends
        d < 10,
{
    "0123456789"@[d as int]
}

pub open spec fn is_digit(c: char) -> bool {
    '0' <= c && c <= '9'
}

/// Canonical decimal digits of `n`: no sign, no padding, no separators.
pub open spec fn dec_chars(n: nat) -> Seq<char>
    decreases n,
{
    if n < 10 {
        seq![digit_char(n)]
    } else {
        dec_chars(n / 10).push(digit_char(n % 10))
    }
}

/// Exactly `w` decimal digits of `n mod 10^w`, zero padded on the left.
pub open spec fn padded_chars(n: nat, w: nat) -> Seq<char>
    decreases w,
{
    if w == 0 {
        Seq::empty()
    } else {
        padded_chars(n / 10, (w - 1) as nat).push(digit_char(n % 10))
    }
}

/// `s` with all trailing `'0'` characters removed.
pub open spec fn trim_zeros(s: Seq<char>) -> Seq<char>
    decreases s.len(),
{
    if s.len() > 0 && s.last() == '0' {
        trim_zeros(s.drop_last())
    } else {
        s
    }
}

/// Fractional part of a timestamp: six microsecond digits with trailing
/// zeros trimmed, or the single digit `0` for a whole number of seconds.
pub open spec fn frac_chars(f: nat) -> Seq<char>
    recommends
        f < 1000000,
{
    if f == 0 {
        seq!['0']
    } else {
        trim_zeros(padded_chars(f, 6))
    }
}

/// Text of a timestamp measured in microseconds since the epoch:
/// whole seconds, a dot, then the trimmed fractional digits.
pub open spec fn ts_chars(micros: nat) -> Seq<char> {
    dec_chars(micros / 1000000) + "."@ + frac_chars(micros % 1000000)
}

/// Text of a monetary amount measured in hundredths: the whole part,
/// a dot, then exactly two fractional digits.
pub open spec fn money_chars(cents: nat) -> Seq<char> {
    dec_chars(cents / 100) + "."@ + padded_chars(cents % 100, 2)
}

/// Every digit character is a digit, and its scalar value is 48 plus the
/// digit's value; in particular distinct digits render distinctly.
pub proof fn lemma_digit_char_facts()
    ensures
        forall|d: nat|
            d < 10 ==> is_digit(#[trigger] digit_char(d)) && digit_char(d) as u32 == 48 + d,
        digit_char(0) == '0',
{
    reveal_strlit("0123456789");
    assert forall|d: nat| d < 10 implies is_digit(#[trigger] digit_char(d)) && digit_char(d) as u32
        == 48 + d by {
        assert(digit_char(0) == '0');
        assert(digit_char(1) == '1');
        assert(digit_char(2) == '2');
        assert(digit_char(3) == '3');
        assert(digit_char(4) == '4');
        assert(digit_char(5) == '5');
        assert(digit_char(6) == '6');
        assert(digit_char(7) == '7');
        assert(digit_char(8) == '8');
        assert(digit_char(9) == '9');
    }
}

/// Decimal text consists of digits only and is never empty.
pub proof fn lemma_dec_chars_digits(n: nat)
    ensures
        dec_chars(n).len() >= 1,
        forall|i: int| 0 <= i < dec_chars(n).len() ==> is_digit(#[trigger] dec_chars(n)[i]),
    decreases n,
{
    lemma_digit_char_facts();
    if n >= 10 {
        lemma_dec_chars_digits(n / 10);
    }
}

/// Padded decimal text consists of digits only.
pub proof fn lemma_padded_chars_digits(n: nat, w: nat)
    ensures
        padded_chars(n, w).len() == w,
        forall|i: int| 0 <= i < w ==> is_digit(#[trigger] padded_chars(n, w)[i]),
    decreases w,
{
    lemma_digit_char_facts();
    if w > 0 {
        lemma_padded_chars_digits(n / 10, (w - 1) as nat);
    }
}

/// The value a decimal digit string stands for.
pub open spec fn dec_val(s: Seq<char>) -> nat
    decreases s.len(),
{
    if s.len() == 0 {
        0
    } else {
        dec_val(s.drop_last()) * 10 + ((s.last() as u32 - 48) as nat) % 10
    }
}

/// Reading the canonical decimal text back gives the number it was made
/// from: the decimal rendering loses nothing.
pub proof fn lemma_dec_val(n: nat)
    ensures
        dec_val(dec_chars(n)) == n,
    decreases n,
{
    lemma_digit_char_facts();
    if n < 10 {
        let s = dec_chars(n);
        assert(s.drop_last() =~= Seq::<char>::empty());
        assert(dec_val(Seq::<char>::empty()) == 0);
        assert(s.last() == digit_char(n));
    } else {
        lemma_dec_val(n / 10);
        let s = dec_chars(n);
        assert(s.drop_last() =~= dec_chars(n / 10));
    }
}

/// Two numbers with the same decimal text are equal.
pub proof fn lemma_dec_chars_injective(m: nat, n: nat)
    requires
        dec_chars(m) == dec_chars(n),
    ensures
        m == n,
{
    lemma_dec_val(m);
    lemma_dec_val(n);
}

/// Trimming keeps a prefix, removes only `'0'` characters, and leaves a
/// sequence that does not end in `'0'` unless it is empty.
pub proof fn lemma_trim_zeros_shape(s: Seq<char>)
    ensures
        trim_zeros(s).len() <= s.len(),
        trim_zeros(s) == s.take(trim_zeros(s).len() as int),
        trim_zeros(s).len() > 0 ==> trim_zeros(s).last() != '0',
        forall|i: int| trim_zeros(s).len() <= i < s.len() ==> s[i] == '0',
    decreases s.len(),
{
    if s.len() > 0 && s.last() == '0' {
        lemma_trim_zeros_shape(s.drop_last());
        let t = trim_zeros(s);
        assert(s.drop_last().take(t.len() as int) =~= s.take(t.len() as int));
        assert forall|i: int| t.len() <= i < s.len() implies s[i] == '0' by {
            if i < s.len() - 1 {
                assert(s.drop_last()[i] == s[i]);
            }
        }
    } else {
        assert(trim_zeros(s) =~= s.take(s.len() as int));
    }
}

/// Reading a fixed-width digit string back gives the number it was padded
/// from, provided the number fits the width.
pub proof fn lemma_padded_val(n: nat, w: nat)
    requires
        n < pow10(w),
    ensures
        dec_val(padded_chars(n, w)) == n,
    decreases w,
{
    lemma_digit_char_facts();
    if w == 0 {
        assert(dec_val(Seq::<char>::empty()) == 0);
    } else {
        assert(pow10(w) == 10 * pow10((w - 1) as nat));
        lemma_padded_val(n / 10, (w - 1) as nat);
        let s = padded_chars(n, w);
        assert(s.drop_last() =~= padded_chars(n / 10, (w - 1) as nat));
    }
}

/// A digit string of zeros stands for zero.
pub proof fn lemma_all_zero_val(s: Seq<char>)
    requires
        forall|i: int| 0 <= i < s.len() ==> s[i] == '0',
    ensures
        dec_val(s) == 0,
    decreases s.len(),
{
    lemma_digit_char_facts();
    if s.len() > 0 {
        lemma_all_zero_val(s.drop_last());
        assert(s.last() == '0');
        assert(('0' as u32 - 48) as nat % 10 == 0);
    }
}

/// Two fractions below a million with the same trimmed text are equal:
/// trimming trailing zeros loses nothing.
pub proof fn lemma_frac_chars_injective(a: nat, b: nat)
    requires
        a < 1000000,
        b < 1000000,
        frac_chars(a) == frac_chars(b),
    ensures
        a == b,
{
    lemma_pow10_6();
    lemma_digit_char_facts();
    lemma_trim_zeros_shape(padded_chars(a, 6));
    lemma_trim_zeros_shape(padded_chars(b, 6));
    lemma_padded_chars_digits(a, 6);
    lemma_padded_chars_digits(b, 6);
    if a == 0 && b == 0 {
    } else if a == 0 || b == 0 {
        let (z, p) = if a == 0 { (a, b) } else { (b, a) };
        // frac of the positive one would have to be the single digit `0`,
        // yet a nonempty trimmed sequence never ends in `'0'`.
        let t = trim_zeros(padded_chars(p, 6));
        assert(t == frac_chars(z));
        assert(t.len() == 1 && t.last() == '0');
        if t.len() > 0 {
            assert(false);
        }
    } else {
        let ta = trim_zeros(padded_chars(a, 6));
        let tb = trim_zeros(padded_chars(b, 6));
        assert(ta == tb);
        assert(padded_chars(a, 6) =~= padded_chars(b, 6)) by {
            assert forall|i: int| 0 <= i < 6 implies padded_chars(a, 6)[i] == padded_chars(
                b,
                6,
            )[i] by {
                if i < ta.len() {
                    assert(padded_chars(a, 6)[i] == ta[i]);
                    assert(padded_chars(b, 6)[i] == tb[i]);
                } else {
                    assert(padded_chars(a, 6)[i] == '0');
                    assert(padded_chars(b, 6)[i] == '0');
                }
            }
        }
        lemma_padded_val(a, 6);
        lemma_padded_val(b, 6);
    }
}

/// All characters of the trimmed fraction are digits.
pub proof fn lemma_frac_chars_digits(f: nat)
    requires
        f < 1000000,
    ensures
        frac_chars(f).len() >= 1,
        forall|i: int| 0 <= i < frac_chars(f).len() ==> is_digit(#[trigger] frac_chars(f)[i]),
{
    lemma_digit_char_facts();
    lemma_pow10_6();
    if f == 0 {
        assert(frac_chars(0)[0] == '0');
    } else {
        lemma_trim_zeros_shape(padded_chars(f, 6));
        lemma_padded_chars_digits(f, 6);
        let t = trim_zeros(padded_chars(f, 6));
        assert forall|i: int| 0 <= i < t.len() implies is_digit(#[trigger] t[i]) by {
            assert(t[i] == padded_chars(f, 6)[i]);
        }
        if t.len() == 0 {
            // a fully trimmed fraction would mean six zero digits, hence zero
            lemma_all_zero_val(padded_chars(f, 6));
            lemma_padded_val(f, 6);
        }
    }
}

/// The timestamp text determines the microsecond value that produced it:
/// rendering is lossless, the round-trip law at the codec level.
pub proof fn lemma_ts_chars_injective(m1: nat, m2: nat)
    requires
        ts_chars(m1) == ts_chars(m2),
    ensures
        m1 == m2,
{
    reveal_strlit(".");
    lemma_digit_char_facts();
    let q1 = m1 / 1000000;
    let r1 = m1 % 1000000;
    let q2 = m2 / 1000000;
    let r2 = m2 % 1000000;
    let a1 = dec_chars(q1);
    let a2 = dec_chars(q2);
    let f1 = frac_chars(r1);
    let f2 = frac_chars(r2);
    lemma_dec_chars_digits(q1);
    lemma_dec_chars_digits(q2);
    lemma_frac_chars_digits(r1);
    lemma_frac_chars_digits(r2);
    let s1 = a1 + "."@ + f1;
    let s2 = a2 + "."@ + f2;
    assert(s1 == ts_chars(m1));
    assert(s2 == ts_chars(m2));
    assert(s1 == s2);
    assert("."@.len() == 1 && "."@[0] == '.');
    assert('.' < '0');
    // the dot stands at the end of the whole-second digits in both readings
    assert(s1[a1.len() as int] == '.');
    assert(s2[a2.len() as int] == '.');
    assert(a1.len() == a2.len()) by {
        if a1.len() < a2.len() {
            assert(s2[a1.len() as int] == a2[a1.len() as int]);
            assert(is_digit(a2[a1.len() as int]));
        }
        if a2.len() < a1.len() {
            assert(s1[a2.len() as int] == a1[a2.len() as int]);
            assert(is_digit(a1[a2.len() as int]));
        }
    }
    assert(a1 =~= a2) by {
        assert forall|i: int| 0 <= i < a1.len() implies a1[i] == a2[i] by {
            assert(s1[i] == a1[i]);
            assert(s2[i] == a2[i]);
        }
    }
    lemma_dec_chars_injective(q1, q2);
    assert(s1.len() == a1.len() + 1 + f1.len());
    assert(s2.len() == a2.len() + 1 + f2.len());
    assert(f1.len() == f2.len());
    assert(f1 =~= f2) by {
        assert forall|i: int| 0 <= i < f1.len() implies f1[i] == f2[i] by {
            assert(s1[a1.len() as int + 1 + i] == f1[i]);
            assert(s2[a2.len() as int + 1 + i] == f2[i]);
        }
    }
    lemma_frac_chars_injective(r1, r2);
}

/// The fractional digits are minimal: the text never ends in a removable
/// zero. The last character is a nonzero digit unless the fraction is
/// exactly zero, when the single digit `0` closes the text.
pub proof fn lemma_ts_chars_minimal(m: nat)
    ensures
        m % 1000000 != 0 ==> ts_chars(m).last() != '0',
        m % 1000000 == 0 ==> ts_chars(m) == dec_chars(m / 1000000) + "."@ + seq!['0'],
{
    lemma_digit_char_facts();
    lemma_pow10_6();
    let r = m % 1000000;
    lemma_frac_chars_digits(r);
    if r != 0 {
        lemma_trim_zeros_shape(padded_chars(r, 6));
        let s = ts_chars(m);
        assert(s.last() == frac_chars(r).last());
    }
}

pub open spec fn pow10(e: nat) -> nat
    decreases e,
{
    if e == 0 {
        1
    } else {
        10 * pow10((e - 1) as nat)
    }
}

pub proof fn lemma_pow10_6()
    ensures
        pow10(6) == 1000000,
{
    assert(pow10(0) == 1);
    assert(pow10(1) == 10);
    assert(pow10(2) == 100);
    assert(pow10(3) == 1000);
    assert(pow10(4) == 10000);
    assert(pow10(5) == 100000);
    assert(pow10(6) == 1000000);
}

/// Relies on `itoa::Buffer::format`, which writes the canonical decimal
/// digits of the integer, without sign, padding or separators.
#[verifier::external_body]
pub fn u64_to_decimal(n: u64) -> (r: String)
    ensures
        r@ == dec_chars(n as nat),
{
    itoa::Buffer::new().format(n).to_string()
}

/// A one-character string holding the decimal digit for `d`.
pub fn digit_str(d: usize) -> (r: &'static str)
    requires
        d < 10,
    ensures
        r@ =~= seq![digit_char(d as nat)],
{
    let s = "0123456789";
    proof {
        reveal_strlit("0123456789");
        assert(s@.len() == 10);
        assert(is_ascii_chars(s@)) by {
            assert(forall|i: int| 0 <= i < 10 ==> '\0' <= #[trigger] s@[i] <= '\u{7f}');
        }
    }
    let r = s.substring_ascii(d, d + 1);
    proof {
        assert(r@ =~= seq![digit_char(d as nat)]);
    }
    r
}

/// Exactly `w` decimal digits of `n`, zero padded on the left.
pub fn padded_decimal(n: u64, w: usize) -> (r: String)
    ensures
        r@ == padded_chars(n as nat, w as nat),
    decreases w,
{
    if w == 0 {
        let r = String::new();
        proof {
            assert(r@ =~= padded_chars(n as nat, 0));
        }
        r
    } else {
        let mut r = padded_decimal(n / 10, w - 1);
        let d = digit_str((n % 10) as usize);
        r.append(d);
        proof {
            assert(r@ =~= padded_chars(n as nat, w as nat));
        }
        r
    }
}

/// The trimmed fractional digits of a timestamp, per `frac_chars`.
pub fn frac_decimal(f: u64) -> (r: String)
    requires
        f < 1000000,
    ensures
        r@ == frac_chars(f as nat),
{
    proof {
        lemma_pow10_6();
        lemma_digit_char_facts();
    }
    if f == 0 {
        let r = String::from_str(digit_str(0));
        proof {
            assert(r@ =~= frac_chars(0));
        }
        return r;
    }
    let mut g: u64 = f;
    let mut w: usize = 6;
    while g % 10 == 0
        invariant
            1 <= g <= f,
            1 <= w <= 6,
            g < pow10(w as nat),
            trim_zeros(padded_chars(f as nat, 6)) == trim_zeros(padded_chars(g as nat, w as nat)),
        decreases w,
    {
        proof {
            lemma_digit_char_facts();
            let s = padded_chars(g as nat, w as nat);
            assert(s.last() == digit_char((g % 10) as nat));
            assert(digit_char(0) as u32 == 48);
            assert(s.last() == '0');
            assert(s.drop_last() =~= padded_chars((g / 10) as nat, (w - 1) as nat));
            assert(trim_zeros(s) == trim_zeros(padded_chars((g / 10) as nat, (w - 1) as nat)));
            assert(g >= 10) by {
                if g < 10 {
                    assert(g % 10 == g);
                }
            }
            assert(pow10(1) == 10) by {
                assert(pow10(0) == 1);
            }
            assert(w >= 2);
        }
        g = g / 10;
        w = w - 1;
    }
    let r = padded_decimal(g, w);
    proof {
        lemma_digit_char_facts();
        let s = padded_chars(g as nat, w as nat);
        assert(s.last() == digit_char((g % 10) as nat));
        assert(digit_char((g % 10) as nat) as u32 == 48 + (g % 10) as nat);
        assert(s.last() != '0');
        assert(trim_zeros(s) == s);
    }
    r
}

/// Monetary text: whole part, a dot, then exactly two fractional digits.
pub fn money_decimal(cents: u64) -> (r: String)
    ensures
        r@ == money_chars(cents as nat),
{
    let mut r = u64_to_decimal(cents / 100);
    r.append(".");
    let frac = padded_decimal(cents % 100, 2);
    r.append(frac.as_str());
    proof {
        assert(r@ =~= money_chars(cents as nat));
    }
    r
}

/// Timestamp text: whole seconds, a dot, then the trimmed microsecond digits.
pub fn ts_decimal(micros: u64) -> (r: String)
    ensures
        r@ == ts_chars(micros as nat),
{
    let mut r = u64_to_decimal(micros / 1000000);
    r.append(".");
    let frac = frac_decimal(micros % 1000000);
    r.append(frac.as_str());
    proof {
        assert(r@ =~= ts_chars(micros as nat));
    }
    r
}

} // verus!
