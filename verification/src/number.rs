//! Integers as decimal text, in both directions.

use crate::text::{is_digit, is_digit_char, to_chars};
use vstd::prelude::*;

verus! {

// ---------------- writing ----------------

/// The digit `d` as a character.
pub open spec fn digit(d: nat) -> char {
    (48 + d) as char
}

/// `n` in decimal, without leading zeros.
pub open spec fn dec(n: nat) -> Seq<char>
    decreases n,
{
    if n < 10 {
        seq![digit(n)]
    } else {
        dec(n / 10).push(digit(n % 10))
    }
}

/// `i` in decimal, with a minus sign when it is negative.
pub open spec fn int_dec(i: int) -> Seq<char> {
    if i < 0 {
        seq!['-'] + dec((-i) as nat)
    } else {
        dec(i as nat)
    }
}

/// `n` in decimal, filled up with zeros in front to two characters.
pub open spec fn dec2(n: nat) -> Seq<char> {
    if n < 10 {
        seq!['0'] + dec(n)
    } else {
        dec(n)
    }
}

/// `n` in decimal, filled up with zeros in front to three characters.
pub open spec fn dec3(n: nat) -> Seq<char> {
    if n < 10 {
        seq!['0', '0'] + dec(n)
    } else if n < 100 {
        seq!['0'] + dec(n)
    } else {
        dec(n)
    }
}

/// The whole number nearest to `n / d`; halfway, the even one.
pub open spec fn nearest(n: nat, d: nat) -> nat
    recommends
        d > 0,
{
    let q = n / d;
    let r = n % d;
    if 2 * r < d || (2 * r == d && q % 2 == 0) {
        q
    } else {
        q + 1
    }
}

/// `s` filled up with spaces in front to `width` characters.
pub open spec fn right_aligned(s: Seq<char>, width: nat) -> Seq<char>
    decreases width - s.len(),
{
    if s.len() >= width {
        s
    } else {
        right_aligned(seq![' '] + s, width)
    }
}

/// One digit as a character.
fn digit_char(d: u64) -> (c: char)
    requires
        d < 10,
    ensures
        c == digit(d as nat),
{
    let b: u8 = 48 + d as u8;
    b as char
}

/// An unsigned number in decimal.
pub fn u64_text(n: u64) -> (r: String)
    ensures
        r@ == dec(n as nat),
    decreases n,
{
    if n < 10 {
        let mut out = String::new();
        out.push(digit_char(n));
        assert(out@ =~= dec(n as nat));
        out
    } else {
        let mut out = u64_text(n / 10);
        out.push(digit_char(n % 10));
        out
    }
}

/// A large unsigned number in decimal.
pub fn u128_text(n: u128) -> (r: String)
    ensures
        r@ == dec(n as nat),
    decreases n,
{
    if n < 10 {
        u64_text(n as u64)
    } else {
        let mut out = u128_text(n / 10);
        out.push(digit_char((n % 10) as u64));
        out
    }
}

/// A signed number in decimal.
pub fn i64_text(i: i64) -> (r: String)
    ensures
        r@ == int_dec(i as int),
{
    if i < 0 {
        let mut out = String::new();
        out.push('-');
        let m: u64 = (-(i as i128)) as u64;
        out.append(u64_text(m).as_str());
        assert(out@ =~= int_dec(i as int));
        out
    } else {
        u64_text(i as u64)
    }
}

/// An unsigned number in decimal with at least two characters.
pub fn u64_text2(n: u64) -> (r: String)
    ensures
        r@ == dec2(n as nat),
{
    if n < 10 {
        let mut out = String::new();
        out.push('0');
        out.append(u64_text(n).as_str());
        assert(out@ =~= dec2(n as nat));
        out
    } else {
        u64_text(n)
    }
}

/// An unsigned number in decimal with at least three characters.
pub fn u64_text3(n: u64) -> (r: String)
    ensures
        r@ == dec3(n as nat),
{
    let mut out = String::new();
    if n < 100 {
        out.push('0');
    }
    if n < 10 {
        out.push('0');
    }
    out.append(u64_text(n).as_str());
    assert(out@ =~= dec3(n as nat));
    out
}

/// Divides and rounds to the nearest whole number, halfway to the even one.
pub fn div_nearest(n: u128, d: u128) -> (r: u128)
    requires
        0 < d <= u128::MAX / 2,
    ensures
        r == nearest(n as nat, d as nat),
{
    let q: u128 = n / d;
    let rem: u128 = n % d;
    if 2 * rem < d || (2 * rem == d && q % 2 == 0) {
        q
    } else {
        assert(q < u128::MAX) by (nonlinear_arith)
            requires
                q == n / d,
                rem == n % d,
                2 * rem >= d,
                n <= u128::MAX,
                d > 0,
        ;
        q + 1
    }
}

/// Fills a text up with spaces in front.
pub fn align_right(s: &str, width: usize) -> (r: String)
    ensures
        r@ == right_aligned(s@, width as nat),
{
    let mut len: usize = to_chars(s).len();
    let mut out = s.to_owned();
    while len < width
        invariant
            len == out@.len(),
            right_aligned(s@, width as nat) == right_aligned(out@, width as nat),
        decreases width - len,
    {
        let mut next = String::new();
        next.push(' ');
        next.append(out.as_str());
        assert(next@ =~= seq![' '] + out@);
        out = next;
        len += 1;
    }
    out
}

// ---------------- reading ----------------

/// Every character is a decimal digit.
pub open spec fn all_digits(s: Seq<char>) -> bool {
    forall|i: int| 0 <= i < s.len() ==> is_digit(#[trigger] s[i])
}

/// The number that a sequence of decimal digits stands for.
pub open spec fn digits_value(s: Seq<char>) -> nat
    decreases s.len(),
{
    if s.len() == 0 {
        0
    } else {
        digits_value(s.drop_last()) * 10 + (s.last() as u32 - 48) as nat
    }
}

/// The text after a plus sign, where one stands in front.
pub open spec fn without_plus(s: Seq<char>) -> Seq<char> {
    if s.len() > 0 && s[0] == '+' {
        s.skip(1)
    } else {
        s
    }
}

/// The unsigned number up to `max` that `s` spells, if it spells one: digits
/// only, at least one, with an optional plus sign in front.
pub open spec fn unsigned_of(s: Seq<char>, max: nat) -> Option<nat> {
    let t = without_plus(s);
    if t.len() > 0 && all_digits(t) && digits_value(t) <= max {
        Some(digits_value(t))
    } else {
        None
    }
}

/// The signed 64-bit number that `s` spells, if it spells one.
pub open spec fn signed_of(s: Seq<char>) -> Option<int> {
    if s.len() > 0 && s[0] == '-' {
        let t = s.skip(1);
        if t.len() > 0 && all_digits(t) && digits_value(t) <= 0x8000_0000_0000_0000 {
            Some(-(digits_value(t) as int))
        } else {
            None
        }
    } else {
        match unsigned_of(s, 0x7fff_ffff_ffff_ffff) {
            Some(n) => Some(n as int),
            None => None,
        }
    }
}

/// A longer run of digits stands for no smaller number.
proof fn lemma_digits_value_take(s: Seq<char>, i: int)
    requires
        0 <= i <= s.len(),
        all_digits(s),
    ensures
        digits_value(s.take(i)) <= digits_value(s),
    decreases s.len() - i,
{
    if i < s.len() {
        lemma_digits_value_take(s, i + 1);
        assert(s.take(i + 1).drop_last() =~= s.take(i));
        assert(is_digit(s.take(i + 1).last()));
    } else {
        assert(s.take(i) =~= s);
    }
}

/// The number that `v[from..]` spells, up to `max`.
fn parse_digits(v: &Vec<char>, from: usize, max: u64) -> (r: Option<u64>)
    requires
        from <= v@.len(),
    ensures
        ({
            let t = v@.skip(from as int);
            match r {
                Some(n) => t.len() > 0 && all_digits(t) && digits_value(t) == n && n <= max,
                None => !(t.len() > 0 && all_digits(t) && digits_value(t) <= max),
            }
        }),
{
    let ghost t = v@.skip(from as int);
    if from == v.len() {
        return None;
    }
    let mut n: u64 = 0;
    for i in from..v.len()
        invariant
            from <= i <= v@.len(),
            t == v@.skip(from as int),
            forall|j: int| 0 <= j < i - from ==> is_digit(#[trigger] t[j]),
            n <= max,
            n == digits_value(t.take(i - from)),
    {
        let c = v[i];
        let ghost k = i - from;
        assert(t[k] == c);
        assert(t.take(k + 1).drop_last() =~= t.take(k));
        if !is_digit_char(c) {
            return None;
        }
        let d: u128 = (c as u32 - 48) as u128;
        let next: u128 = n as u128 * 10 + d;
        assert(next == digits_value(t.take(k + 1)));
        if next > max as u128 {
            proof {
                if all_digits(t) {
                    lemma_digits_value_take(t, k + 1);
                }
            }
            return None;
        }
        n = next as u64;
    }
    assert(t.take(t.len() as int) =~= t);
    Some(n)
}

/// Reads an unsigned number up to `max`.
pub fn parse_unsigned(s: &str, max: u64) -> (r: Option<u64>)
    ensures
        match r {
            Some(n) => unsigned_of(s@, max as nat) == Some(n as nat),
            None => unsigned_of(s@, max as nat) is None,
        },
{
    let v = to_chars(s);
    assert(s@.skip(0) =~= s@);
    let from: usize = if v.len() > 0 && v[0] == '+' {
        1
    } else {
        0
    };
    parse_digits(&v, from, max)
}

/// `str::parse::<u64>`.
pub fn parse_u64(s: &str) -> (r: Option<u64>)
    ensures
        match r {
            Some(n) => unsigned_of(s@, u64::MAX as nat) == Some(n as nat),
            None => unsigned_of(s@, u64::MAX as nat) is None,
        },
{
    parse_unsigned(s, u64::MAX)
}

/// `str::parse::<i64>`.
pub fn parse_i64(s: &str) -> (r: Option<i64>)
    ensures
        match r {
            Some(n) => signed_of(s@) == Some(n as int),
            None => signed_of(s@) is None,
        },
{
    let v = to_chars(s);
    if v.len() > 0 && v[0] == '-' {
        match parse_digits(&v, 1, 0x8000_0000_0000_0000) {
            Some(m) => Some((-(m as i128)) as i64),
            None => None,
        }
    } else {
        match parse_unsigned(s, 0x7fff_ffff_ffff_ffff) {
            Some(m) => Some(m as i64),
            None => None,
        }
    }
}

/// A number between the least and the largest signed one.
pub open spec fn clamped(n: int) -> int {
    if n > i64::MAX {
        i64::MAX as int
    } else if n < i64::MIN {
        i64::MIN as int
    } else {
        n
    }
}

/// Takes a number to the least or the largest signed one where it is beyond it.
pub fn clamp(n: i128) -> (r: i64)
    ensures
        r == clamped(n as int),
{
    if n > i64::MAX as i128 {
        i64::MAX
    } else if n < i64::MIN as i128 {
        i64::MIN
    } else {
        n as i64
    }
}

// ---------------- laws ----------------

/// What `dec` writes is at least one digit, digits only, and stands for the
/// number it was written from.
pub proof fn dec_reads_back(n: nat)
    ensures
        dec(n).len() > 0,
        all_digits(dec(n)),
        digits_value(dec(n)) == n,
    decreases n,
{
    if n < 10 {
        assert(dec(n).drop_last() =~= seq![]);
        assert(dec(n).last() == digit(n));
        assert(digits_value(dec(n).drop_last()) == 0);
    } else {
        dec_reads_back(n / 10);
        assert(dec(n).drop_last() =~= dec(n / 10));
        let d = dec(n);
        assert forall|i: int| 0 <= i < d.len() implies is_digit(#[trigger] d[i]) by {
            if i < d.len() - 1 {
                assert(d[i] == dec(n / 10)[i]);
            }
        }
    }
}

/// Reading a written number gives it back.
pub proof fn parse_undoes_text(n: u64)
    ensures
        unsigned_of(dec(n as nat), u64::MAX as nat) == Some(n as nat),
{
    dec_reads_back(n as nat);
    assert(is_digit(dec(n as nat)[0]));
}

/// Two numbers are written the same only if they are the same.
pub proof fn dec_injective(a: nat, b: nat)
    ensures
        dec(a) == dec(b) ==> a == b,
{
    dec_reads_back(a);
    dec_reads_back(b);
}

/// A number with zeros in front says the same, in as many characters as are
/// asked for.
pub proof fn leading_zeros_say_nothing(n: nat)
    ensures
        all_digits(dec2(n)) && digits_value(dec2(n)) == n,
        all_digits(dec3(n)) && digits_value(dec3(n)) == n,
        n < 100 ==> dec2(n).len() == 2,
        n < 1000 ==> dec3(n).len() == 3,
{
    dec_reads_back(n);
    let d = dec(n);
    if n < 10 {
        assert(d.len() == 1);
    } else if n < 100 {
        assert(n / 10 < 10);
        assert(dec(n / 10).len() == 1);
        assert(d.len() == 2);
    } else if n < 1000 {
        assert(n / 10 < 100 && n / 10 >= 10);
        assert(n / 10 / 10 < 10);
        assert(dec(n / 10 / 10).len() == 1);
        assert(dec(n / 10).len() == 2);
        assert(d.len() == 3);
    }
    lemma_zero_in_front(d);
    lemma_zero_in_front(seq!['0'] + d);
    assert(seq!['0'] + (seq!['0'] + d) =~= seq!['0', '0'] + d);
}

proof fn lemma_zero_in_front(d: Seq<char>)
    requires
        all_digits(d),
    ensures
        all_digits(seq!['0'] + d),
        digits_value(seq!['0'] + d) == digits_value(d),
    decreases d.len(),
{
    let z = seq!['0'] + d;
    if d.len() == 0 {
        assert(z.drop_last() =~= seq![]);
        assert(z.last() == '0');
        assert(digits_value(z.drop_last()) == 0);
    } else {
        assert(z.drop_last() =~= seq!['0'] + d.drop_last());
        assert(z.last() == d.last());
        lemma_zero_in_front(d.drop_last());
    }
    assert forall|i: int| 0 <= i < z.len() implies is_digit(#[trigger] z[i]) by {
        if i > 0 {
            assert(z[i] == d[i - 1]);
        }
    }
}

/// A quotient that is rounded is off by half of one at most.
pub proof fn rounding_is_off_by_half_at_most(n: nat, d: nat)
    requires
        d > 0,
    ensures
        2 * (nearest(n, d) * d) <= 2 * n + d,
        2 * n <= 2 * (nearest(n, d) * d) + d,
        n % d == 0 ==> nearest(n, d) * d == n,
{
    let q = n / d;
    let r = n % d;
    vstd::arithmetic::div_mod::lemma_fundamental_div_mod(n as int, d as int);
    assert(n == d * q + r);
    assert(q * d == d * q) by (nonlinear_arith);
    assert((q + 1) * d == d * q + d) by (nonlinear_arith);
}

/// A signed number reads back from its text.
pub proof fn a_signed_number_reads_back(i: int)
    requires
        i64::MIN <= i <= i64::MAX,
    ensures
        signed_of(int_dec(i)) == Some(i),
{
    let n: nat = if i < 0 {
        (-i) as nat
    } else {
        i as nat
    };
    dec_reads_back(n);
    assert(is_digit(dec(n)[0]));
    if i < 0 {
        assert(int_dec(i).skip(1) =~= dec(n));
    }
}

/// A text is filled up with spaces in front and nothing else.
pub proof fn alignment_adds_spaces_in_front(s: Seq<char>, width: nat)
    ensures
        ({
            let r = right_aligned(s, width);
            &&& r.len() == (if s.len() < width {
                width
            } else {
                s.len()
            })
            &&& s.is_suffix_of(r)
            &&& forall|i: int| 0 <= i < r.len() - s.len() ==> #[trigger] r[i] == ' '
        }),
    decreases width - s.len(),
{
    if s.len() < width {
        let t = seq![' '] + s;
        alignment_adds_spaces_in_front(t, width);
        let r = right_aligned(s, width);
        let k = r.len() - t.len();
        assert(r.subrange(k, r.len() as int) =~= t);
        assert(r.subrange(k + 1, r.len() as int) =~= s) by {
            assert forall|j: int| 0 <= j < s.len() implies r[k + 1 + j] == s[j] by {
                assert(r.subrange(k, r.len() as int)[j + 1] == t[j + 1]);
            }
        }
        assert(r[k] == ' ') by {
            assert(r.subrange(k, r.len() as int)[0] == t[0]);
        }
    } else {
        assert(s.subrange(0, s.len() as int) =~= s);
    }
}

/// A number is written in tens: behind the text of its tens stands the digit of
/// its ones. A digit is read as what it is, and ten times as much for every
/// place it stands in front.
pub proof fn a_number_is_written_in_tens(n: nat, d: nat, s: Seq<char>, c: char)
    requires
        n > 0,
        d < 10,
        is_digit(c),
    ensures
        dec(10 * n + d) == dec(n).push((0x30 + d) as char),
        dec(d) == seq![(0x30 + d) as char],
        digits_value(s.push(c)) == 10 * digits_value(s) + (c as u32 - 0x30),
        int_dec(-(n as int)) == seq!['-'] + dec(n),
        int_dec(n as int) == dec(n),
{
    let x = 10 * n + d;
    assert(x / 10 == n && x % 10 == d);
    assert(s.push(c).drop_last() =~= s);
    assert(s.push(c).last() == c);
}

} // verus!
