//! Small pure helpers.

use crate::number::{
    all_digits, dec, dec2, dec_injective, dec_reads_back, digits_value, div_nearest,
    leading_zeros_say_nothing, nearest, parse_u64, parse_undoes_text, parse_unsigned,
    rounding_is_off_by_half_at_most, u128_text, u64_text, u64_text2, unsigned_of,
};
use crate::path::{
    beside, dir_in, ext_at, ext_in, ext_of, extended_at, file_name_at, has_drive, is_known, is_part,
    is_sep, lemma_beside, lemma_ext_has_no_point, lemma_name, lemma_named, lemma_no_name,
    lemma_parts_of, lemma_plain_name, lemma_renamed_in_place, lemma_undriven, lemma_unextended,
    name_in, no_separator, parent_at, path_extension, path_file_stem, path_of, path_text,
    path_with_extension, path_with_file_name, plain_name, renamed_at, route_of, stem_at, stem_of,
    with_ext_in, Route,
};
use crate::pattern::{digit_runs, find_all, matches_of, opt_texts, run_len, DIGIT_RUNS};
use crate::text::{
    ascii_len, ascii_lowered, char_in, cut_first, first_at, from_chars, is_at, is_digit,
    is_digit_char, is_space, is_space_char, joined, lemma_ascii_len, lemma_first_at, lemma_first_is,
    lemma_first_piece, lemma_joined_front, lemma_joined_pieces, lemma_one_piece,
    lemma_pieces_nonempty, lemma_trimmed_end, lemma_trimmed_start, lemma_trimmed_stays, lowered,
    opt_str, opt_text, pieces, push_string, replace, replaced, same, spaces, split, split_once,
    str_in, text_in, texts, to_chars, to_lowercase, trim, trimmed, trimmed_end, trimmed_start,
};
use vstd::prelude::*;

verus! {

// ---------------- times ----------------

/// Nanoseconds in a second. Every length of time here is in nanoseconds.
pub const NANOS: i64 = 1_000_000_000;

/// Minutes and seconds of a number of seconds, with the hours in front where
/// there are any.
pub open spec fn eta_text(total: nat) -> Seq<char> {
    let mm = total / 60;
    let short = dec2(mm % 60).push(':') + dec2(total % 60);
    if mm / 60 > 0 {
        dec2(mm / 60).push(':') + short
    } else {
        short
    }
}

/// The time that remains, in whole seconds; dashes where it is not known.
pub open spec fn remaining_text(ns: Option<i64>) -> Seq<char> {
    match ns {
        Some(n) => if n >= 0 {
            eta_text((n / NANOS) as nat)
        } else {
            "--:--"@
        },
        None => "--:--"@,
    }
}

/// Renders a remaining time, cut to whole seconds; one that is not known or
/// has run out already is a row of dashes.
pub fn format_eta(ns: Option<i64>) -> (r: String)
    ensures
        r@ == remaining_text(ns),
{
    match ns {
        Some(n) => {
            if n < 0 {
                return "--:--".to_owned();
            }
            let total: u64 = n as u64 / NANOS as u64;
            assert(total == n / NANOS);
            let mm = total / 60;
            let hh = mm / 60;
            let mut out = String::new();
            if hh > 0 {
                out.append(u64_text2(hh).as_str());
                out.push(':');
            }
            out.append(u64_text2(mm % 60).as_str());
            out.push(':');
            out.append(u64_text2(total % 60).as_str());
            assert(out@ =~= eta_text(total as nat));
            out
        },
        None => "--:--".to_owned(),
    }
}

/// A number of seconds as hours, minutes and seconds.
pub open spec fn clock_text(total: nat) -> Seq<char> {
    dec(total / 3600).push(':') + dec2((total % 3600) / 60).push(':') + dec2(total % 60)
}

fn push_clock(out: &mut String, total: u64)
    ensures
        final(out)@ == old(out)@ + clock_text(total as nat),
{
    out.append(u64_text(total / 3600).as_str());
    out.push(':');
    out.append(u64_text2((total % 3600) / 60).as_str());
    out.push(':');
    out.append(u64_text2(total % 60).as_str());
    assert((total % 3600) % 60 == total % 60);
    assert(out@ =~= old(out)@ + clock_text(total as nat));
}

/// The time that has passed, to hundredths of a second.
pub open spec fn passed_text(ns: i64) -> Seq<char> {
    if ns < 0 {
        "0:00:00.00"@
    } else {
        clock_text((ns / NANOS) as nat).push('.') + dec2(((ns % NANOS) / 10_000_000) as nat)
    }
}

/// Renders the time that has passed, cut to hundredths of a second.
pub fn format_elapsed(ns: i64) -> (r: String)
    ensures
        r@ == passed_text(ns),
{
    if ns < 0 {
        return "0:00:00.00".to_owned();
    }
    let n: u64 = ns as u64;
    let total: u64 = n / NANOS as u64;
    let frac: u64 = (n % NANOS as u64) / 10_000_000;
    let mut out = String::new();
    push_clock(&mut out, total);
    out.push('.');
    out.append(u64_text2(frac).as_str());
    assert(out@ =~= clock_text(total as nat).push('.') + dec2(frac as nat));
    out
}

/// The nearest number of whole seconds, halfway up; nothing below zero.
pub open spec fn whole_seconds(ns: int) -> nat {
    if ns < 0 {
        0
    } else {
        ((ns + 500_000_000) / 1_000_000_000) as nat
    }
}

/// Renders a length of time as "H:MM:SS".
pub fn format_clock(ns: i64) -> (r: String)
    ensures
        r@ == clock_text(whole_seconds(ns as int)),
{
    let total: u64 = if ns < 0 {
        0
    } else {
        (ns as u64 + 500_000_000) / 1_000_000_000
    };
    let mut out = String::new();
    push_clock(&mut out, total);
    assert(out@ =~= clock_text(whole_seconds(ns as int)));
    out
}

/// A typed time with the comma as a point, without white space around it.
pub open spec fn pointed(text: Seq<char>) -> Seq<char> {
    replaced(trimmed(text), ","@, "."@)
}

fn pointed_text(text: &str) -> (r: String)
    ensures
        r@ == pointed(text@),
{
    proof {
        reveal_strlit(",");
    }
    replace(trim(text).as_str(), ",", ".")
}

/// Every text of a list without white space around it.
pub open spec fn trimmed_all(v: Seq<Seq<char>>) -> Seq<Seq<char>> {
    v.map_values(|s: Seq<char>| trimmed(s))
}

/// The numbers of a typed time, at most three, or nothing where none was typed
/// or there are more.
pub open spec fn time_field_list(text: Seq<char>) -> Option<Seq<Seq<char>>> {
    let t = pointed(text);
    let p = pieces(t, ":"@);
    if t.len() == 0 || p.len() > 3 {
        None
    } else {
        Some(trimmed_all(p))
    }
}

/// Takes a user-typed timestamp apart: "90", "1:30", "1:02:03", all with an
/// optional fraction, written with a point or a comma. `time_total` puts the
/// numbers that the parts spell together again.
pub fn parse_time_input(text: &str) -> (r: Option<Vec<String>>)
    ensures
        opt_texts(r) == time_field_list(text@),
{
    proof {
        reveal_strlit(":");
    }
    let t = pointed_text(text);
    if t.as_str().is_empty() {
        return None;
    }
    let parts = split(t.as_str(), ":");
    if parts.len() > 3 {
        return None;
    }
    let mut out: Vec<String> = Vec::new();
    for i in 0..parts.len()
        invariant
            out@.len() == i,
            forall|j: int| 0 <= j < i ==> #[trigger] out@[j]@ == trimmed(parts@[j]@),
    {
        out.push(trim(parts[i].as_str()));
    }
    assert(texts(out@) =~= trimmed_all(texts(parts@)));
    Some(out)
}

/// The parts of a time put together, each a sixtieth of the one before it.
pub open spec fn sixtieths(values: Seq<Option<i64>>) -> int
    decreases values.len(),
{
    if values.len() == 0 {
        0
    } else {
        sixtieths(values.drop_last()) * 60 + values.last()->0
    }
}

/// Every part of a time was read, and none lies below zero.
pub open spec fn all_usable(values: Seq<Option<i64>>) -> bool {
    forall|i: int| 0 <= i < values.len() ==> (#[trigger] values[i]) is Some && values[i]->0 >= 0
}

/// The time that the fields add up to, unless one of them is unreadable or
/// below zero.
pub open spec fn time_of(values: Seq<Option<i64>>) -> Option<int> {
    if all_usable(values) {
        Some(
            if sixtieths(values) > i64::MAX {
                i64::MAX as int
            } else {
                sixtieths(values)
            },
        )
    } else {
        None
    }
}

/// Puts the parts of a timestamp together. `None` means "nothing usable was
/// typed", which every caller treats as "no bound", so a half-finished entry
/// never silently becomes a cut at second zero. A time past the largest number
/// is that number.
pub fn time_total(values: &Vec<Option<i64>>) -> (r: Option<i64>)
    requires
        values@.len() <= 3,
    ensures
        match r {
            Some(t) => time_of(values@) == Some(t as int),
            None => time_of(values@) is None,
        },
{
    let mut total: i128 = 0;
    for i in 0..values.len()
        invariant
            values@.len() <= 3,
            all_usable(values@.take(i as int)),
            total == sixtieths(values@.take(i as int)),
            0 <= total,
            i == 0 ==> total <= 0,
            i == 1 ==> total <= i64::MAX,
            i == 2 ==> total <= 61 * i64::MAX,
            i == 3 ==> total <= 3661 * i64::MAX,
    {
        assert(values@.take(i + 1).drop_last() =~= values@.take(i as int));
        match values[i] {
            Some(v) => {
                if v < 0 {
                    return None;
                }
                total = total * 60 + v as i128;
                assert forall|j: int| 0 <= j < i + 1 implies (#[trigger] values@.take(i + 1)[j]) is Some
                    && values@.take(i + 1)[j]->0 >= 0 by {
                    if j < i {
                        assert(values@.take(i as int)[j] == values@.take(i + 1)[j]);
                    }
                }
            },
            None => {
                return None;
            },
        }
    }
    assert(values@.take(values@.len() as int) =~= values@);
    if total > i64::MAX as i128 {
        Some(i64::MAX)
    } else {
        Some(total as i64)
    }
}

/// `s` is a run of decimal digits.
pub open spec fn is_digits(s: Seq<char>) -> bool {
    s.len() > 0 && all_digits(s)
}

fn digits(s: &str) -> (r: bool)
    ensures
        r == is_digits(s@),
{
    let v = to_chars(s);
    for i in 0..v.len()
        invariant
            v@ == s@,
            forall|j: int| 0 <= j < i ==> is_digit(#[trigger] v@[j]),
    {
        if !is_digit_char(v[i]) {
            return false;
        }
    }
    v.len() > 0
}

/// `s` is a run of digits, or two of them with a point between.
pub open spec fn is_number(s: Seq<char>) -> bool {
    match cut_first(s, "."@) {
        Some((a, b)) => is_digits(a) && is_digits(b),
        None => is_digits(s),
    }
}

/// Whether `s` spells a decimal number: digits, with a fraction at most.
pub fn number_text(s: &str) -> (r: bool)
    ensures
        r == is_number(s@),
{
    match split_once(s, ".") {
        Some((a, b)) => digits(a.as_str()) && digits(b.as_str()),
        None => digits(s),
    }
}

/// The hours, minutes and seconds of an "H:M:S(.frac)" timestamp.
pub open spec fn hms_parts(value: Seq<char>) -> Option<(Seq<char>, Seq<char>, Seq<char>)> {
    let p = pieces(pointed(value), ":"@);
    if p.len() == 3 && is_digits(p[0]) && is_digits(p[1]) && is_number(p[2]) {
        Some((p[0], p[1], p[2]))
    } else {
        None
    }
}

/// The first nine digits behind a point, as a number of billionths.
pub open spec fn billionths(frac: Seq<char>, n: int) -> nat
    decreases n,
{
    if n <= 0 {
        0
    } else {
        billionths(frac, n - 1) * 10 + (if n <= frac.len() {
            (frac[n - 1] as u32 - 48) as nat
        } else {
            0
        })
    }
}

/// The nanoseconds that a number of seconds with a fraction stands for, further
/// digits cut off.
pub open spec fn seconds_value(s: Seq<char>) -> nat {
    match cut_first(s, "."@) {
        Some((a, b)) => digits_value(a) * 1_000_000_000 + billionths(b, 9),
        None => digits_value(s) * 1_000_000_000,
    }
}

/// `n`, or the largest signed number where it is larger.
pub open spec fn capped(n: nat) -> int {
    if n > i64::MAX {
        i64::MAX as int
    } else {
        n as int
    }
}

/// The nanoseconds that hours, minutes and seconds stand for.
pub open spec fn hms_value(h: Seq<char>, m: Seq<char>, s: Seq<char>) -> nat {
    (digits_value(h) * 3600 + digits_value(m) * 60) * 1_000_000_000 + seconds_value(s)
}

/// The number a run of digits stands for, up to a bound that is far past every
/// time.
fn small_value(s: &str) -> (r: u64)
    requires
        is_digits(s@),
    ensures
        r == (if digits_value(s@) <= 0xffff_ffff_ffff {
            digits_value(s@)
        } else {
            0xffff_ffff_ffff
        }),
{
    proof {
        assert(is_digit(s@[0]));
    }
    match parse_unsigned(s, 0xffff_ffff_ffff) {
        Some(n) => n,
        None => 0xffff_ffff_ffff,
    }
}

fn billionths_value(frac: &str) -> (r: u64)
    requires
        is_digits(frac@),
    ensures
        r == billionths(frac@, 9),
        r < 1_000_000_000,
{
    let v = to_chars(frac);
    let mut out: u64 = 0;
    let mut scale: u64 = 1;
    for i in 0..9usize
        invariant
            v@ == frac@,
            is_digits(frac@),
            out == billionths(frac@, i as int),
            out < scale,
            i == 0 ==> scale == 1,
            i == 1 ==> scale == 10,
            i == 2 ==> scale == 100,
            i == 3 ==> scale == 1_000,
            i == 4 ==> scale == 10_000,
            i == 5 ==> scale == 100_000,
            i == 6 ==> scale == 1_000_000,
            i == 7 ==> scale == 10_000_000,
            i == 8 ==> scale == 100_000_000,
            i == 9 ==> scale == 1_000_000_000,
    {
        let d: u64 = if i < v.len() {
            assert(is_digit(frac@[i as int]));
            (v[i] as u32 - 48) as u64
        } else {
            0
        };
        out = out * 10 + d;
        scale = scale * 10;
    }
    out
}

/// Parses an "H:M:S(.frac)" timestamp into nanoseconds. One past the largest
/// number is that number.
pub fn parse_hms_to_seconds(value: &str) -> (r: Option<i64>)
    ensures
        match hms_parts(value@) {
            Some((h, m, s)) => r is Some && r->0 == capped(hms_value(h, m, s)),
            None => r is None,
        },
{
    proof {
        reveal_strlit(":");
    }
    let parts = split(pointed_text(value).as_str(), ":");
    assert(forall|i: int| 0 <= i < parts@.len() ==> texts(parts@)[i] == #[trigger] parts@[i]@);
    if !(parts.len() == 3 && digits(parts[0].as_str()) && digits(parts[1].as_str()) && number_text(
        parts[2].as_str(),
    )) {
        return None;
    }
    let h: u128 = small_value(parts[0].as_str()) as u128;
    let m: u128 = small_value(parts[1].as_str()) as u128;
    let (s, f): (u128, u128) = match split_once(parts[2].as_str(), ".") {
        Some((a, b)) => (
            small_value(a.as_str()) as u128,
            billionths_value(b.as_str()) as u128,
        ),
        None => (small_value(parts[2].as_str()) as u128, 0),
    };
    let total: u128 = (h * 3600 + m * 60 + s) * 1_000_000_000 + f;
    let ghost exact = hms_value(parts@[0]@, parts@[1]@, parts@[2]@);
    assert(total <= exact);
    assert(total == exact || (total > i64::MAX && exact > i64::MAX));
    if total > i64::MAX as u128 {
        Some(i64::MAX)
    } else {
        Some(total as i64)
    }
}

/// The number in an ffmpeg-style speed value ("1.23x"), given that value in
/// lowercase.
pub open spec fn speed_number(lower: Seq<char>) -> Seq<char> {
    trimmed(replaced(lower, "x"@, ""@))
}

/// Takes the sign of multiplication out of a lowercase speed value.
pub fn speed_number_text(lower: &str) -> (r: String)
    ensures
        r@ == speed_number(lower@),
{
    proof {
        reveal_strlit("x");
    }
    trim(replace(lower, "x", "").as_str())
}

/// The number in an ffmpeg-style speed value ("1.23x"), where one was given.
pub fn parse_speed_value(speed: &str) -> (r: Option<String>)
    ensures
        opt_text(r) == (if speed@.len() == 0 {
            None
        } else {
            Some(speed_number(lowered(speed@)))
        }),
{
    if speed.is_empty() {
        return None;
    }
    Some(speed_number_text(to_lowercase(speed).as_str()))
}

// ---------------- sizes ----------------

/// The step between neighbouring doubles at the size of `n`.
pub open spec fn double_step(n: nat) -> nat
    decreases n,
{
    if n < 0x20_0000_0000_0000 {
        1
    } else {
        2 * double_step(n / 2)
    }
}

/// The double nearest to `n`, halfway the even one: `n` itself below 2^53.
pub open spec fn as_double(n: nat) -> nat {
    nearest(n, double_step(n)) * double_step(n)
}

/// `n` in units of `unit` with one decimal.
pub open spec fn tenths_text(n: nat, unit: nat) -> Seq<char> {
    let t = nearest(10 * as_double(n), unit);
    dec(t / 10).push('.') + dec(t % 10)
}

/// Byte count in the largest unit that keeps it readable.
pub open spec fn bytes_text(n: nat) -> Seq<char> {
    if n < 0x400 {
        dec(n) + " B"@
    } else if n < 0x10_0000 {
        tenths_text(n, 0x400) + " KB"@
    } else if n < 0x4000_0000 {
        tenths_text(n, 0x10_0000) + " MB"@
    } else {
        tenths_text(n, 0x4000_0000) + " GB"@
    }
}

fn step_of(n: u64) -> (r: u64)
    ensures
        r == double_step(n as nat),
        1 <= r <= 0xffe,
        n < 0x20_0000_0000_0000 ==> r == 1,
{
    let mut m: u64 = n;
    let mut step: u64 = 1;
    while m >= 0x20_0000_0000_0000
        invariant
            double_step(n as nat) == step * double_step(m as nat),
            1 <= step <= 0xffe,
            step * m <= n,
            n < 0x20_0000_0000_0000 ==> step == 1,
        decreases m,
    {
        assert(step * m >= step * 0x20_0000_0000_0000) by (nonlinear_arith)
            requires
                m >= 0x20_0000_0000_0000,
                step >= 1,
        ;
        assert(step <= 0x7ff) by (nonlinear_arith)
            requires
                step * 0x20_0000_0000_0000 <= n,
                n <= 0xffff_ffff_ffff_ffff,
        ;
        assert((step * 2) * (m / 2) <= step * m) by (nonlinear_arith)
            requires
                step >= 1,
                m >= 0,
        ;
        assert(step * (2 * double_step((m / 2) as nat)) == (step * 2) * double_step(
            (m / 2) as nat,
        )) by (nonlinear_arith);
        m = m / 2;
        step = step * 2;
    }
    assert(double_step(m as nat) == 1);
    step
}

fn double_of(n: u64) -> (r: u128)
    ensures
        r == as_double(n as nat),
        r <= 0x2_0000_0000_0000_0000,
{
    let step = step_of(n);
    let q = div_nearest(n as u128, step as u128);
    assert(q * step <= n + step) by (nonlinear_arith)
        requires
            q <= n / step + 1,
            step >= 1,
    ;
    q * step as u128
}

/// Appends `n` in units of `unit`, with one decimal.
pub fn push_tenths(out: &mut String, n: u64, unit: u64)
    requires
        unit > 0,
    ensures
        final(out)@ == old(out)@ + tenths_text(n as nat, unit as nat),
{
    let t = div_nearest(10 * double_of(n), unit as u128);
    assert(t <= 0x14_0000_0000_0000_0001) by (nonlinear_arith)
        requires
            t <= (10 * as_double(n as nat)) / (unit as nat) + 1,
            as_double(n as nat) <= 0x2_0000_0000_0000_0000,
            unit > 0,
    ;
    let whole: u128 = t / 10;
    out.append(u128_text(whole).as_str());
    out.push('.');
    out.append(u64_text((t % 10) as u64).as_str());
    assert(out@ =~= old(out)@ + tenths_text(n as nat, unit as nat));
}

/// Byte count in the largest unit that keeps it readable.
pub fn format_bytes(bytes: u64) -> (r: String)
    ensures
        r@ == bytes_text(bytes as nat),
{
    let mut out = String::new();
    if bytes < 0x400 {
        out.append(u64_text(bytes).as_str());
        out.append(" B");
    } else if bytes < 0x10_0000 {
        push_tenths(&mut out, bytes, 0x400);
        out.append(" KB");
    } else if bytes < 0x4000_0000 {
        push_tenths(&mut out, bytes, 0x10_0000);
        out.append(" MB");
    } else {
        push_tenths(&mut out, bytes, 0x4000_0000);
        out.append(" GB");
    }
    assert(out@ =~= bytes_text(bytes as nat));
    out
}

// ---------------- file names ----------------

/// Characters that no file name may hold on every platform.
pub const ILLEGAL_FS_CHARS: &'static str = "<>:\"/\\|?*";

/// Names Windows refuses to use for a file, with or without an extension.
pub const RESERVED_STEMS: [&'static str; 22] = [
    "con",
    "prn",
    "aux",
    "nul",
    "com1",
    "com2",
    "com3",
    "com4",
    "com5",
    "com6",
    "com7",
    "com8",
    "com9",
    "lpt1",
    "lpt2",
    "lpt3",
    "lpt4",
    "lpt5",
    "lpt6",
    "lpt7",
    "lpt8",
    "lpt9",
];

/// Most characters that are kept of a typed name.
pub const NAME_CHARS: usize = 200;

/// A character no file name may hold.
pub open spec fn is_illegal(c: char) -> bool {
    ILLEGAL_FS_CHARS@.contains(c) || ' ' > c
}

/// `c`, or an underscore in place of a character no file name may hold.
pub open spec fn legal(c: char) -> char {
    if is_illegal(c) {
        '_'
    } else {
        c
    }
}

/// What Windows drops silently at the end of a name.
pub open spec fn fading() -> spec_fn(char) -> bool {
    |c: char| is_space(c) || c == '.'
}

/// The first characters of a name, made legal, without white space in front and
/// without white space and points at the end.
pub open spec fn tidied(name: Seq<char>) -> Seq<char> {
    let n: int = if name.len() < NAME_CHARS {
        name.len() as int
    } else {
        NAME_CHARS as int
    };
    trimmed_end(
        trimmed_start(name.take(n).map_values(|c: char| legal(c)), spaces()),
        fading(),
    )
}

/// What stands before the first point of a name.
pub open spec fn first_part(name: Seq<char>) -> Seq<char> {
    pieces(name, "."@)[0]
}

/// `lower` is the lowercase of a name that Windows keeps for a device.
pub open spec fn is_reserved(lower: Seq<char>) -> bool {
    exists|i: int| 0 <= i < RESERVED_STEMS@.len() && #[trigger] RESERVED_STEMS@[i]@ == lower
}

/// A tidied name, with an underscore in front where what stands before its
/// first point is a device; `lower` is that part in lowercase.
pub open spec fn safe_name(tidy: Seq<char>, lower: Seq<char>) -> Seq<char> {
    if is_reserved(lower) {
        seq!['_'] + tidy
    } else {
        tidy
    }
}

fn tidy_name(name: &str) -> (r: String)
    ensures
        r@ == tidied(name@),
{
    let v = to_chars(name);
    let illegal = to_chars(ILLEGAL_FS_CHARS);
    let n: usize = if v.len() < NAME_CHARS {
        v.len()
    } else {
        NAME_CHARS
    };
    let ghost all = name@.take(n as int).map_values(|c: char| legal(c));
    let mut out: Vec<char> = Vec::new();
    for i in 0..n
        invariant
            v@ == name@,
            illegal@ == ILLEGAL_FS_CHARS@,
            n <= v@.len(),
            all == name@.take(n as int).map_values(|c: char| legal(c)),
            out@ == all.take(i as int),
    {
        let c = v[i];
        let kept = if char_in(illegal.as_slice(), c) || ' ' > c {
            '_'
        } else {
            c
        };
        assert(all[i as int] == legal(c));
        out.push(kept);
        assert(out@ =~= all.take(i + 1));
    }
    assert(out@ =~= all);
    let mut lo: usize = 0;
    assert(all.skip(0) =~= all);
    while lo < out.len() && is_space_char(out[lo])
        invariant
            out@ == all,
            lo <= all.len(),
            trimmed_start(all, spaces()) == trimmed_start(all.skip(lo as int), spaces()),
        decreases all.len() - lo,
    {
        assert(all.skip(lo as int).skip(1) =~= all.skip(lo + 1));
        assert(spaces()(all.skip(lo as int)[0]));
        lo += 1;
    }
    let ghost front = all.skip(lo as int);
    assert(trimmed_start(all, spaces()) == front);
    let mut hi: usize = out.len();
    assert(front =~= all.subrange(lo as int, hi as int));
    while hi > lo && (is_space_char(out[hi - 1]) || out[hi - 1] == '.')
        invariant
            out@ == all,
            lo <= hi <= all.len(),
            trimmed_end(front, fading()) == trimmed_end(
                all.subrange(lo as int, hi as int),
                fading(),
            ),
        decreases hi,
    {
        assert(all.subrange(lo as int, hi as int).drop_last() =~= all.subrange(lo as int, hi - 1));
        assert(fading()(all.subrange(lo as int, hi as int).last()));
        hi -= 1;
    }
    from_chars(&out, lo, hi)
}

/// Puts an underscore in front of a tidied name that stands for a device;
/// `lower` is the part before its first point in lowercase.
pub fn escape_device(tidy: &str, lower: &str) -> (r: String)
    ensures
        r@ == safe_name(tidy@, lower@),
{
    if str_in(&RESERVED_STEMS, lower) {
        let mut out = String::new();
        out.push('_');
        out.append(tidy);
        assert(out@ =~= seq!['_'] + tidy@);
        out
    } else {
        tidy.to_owned()
    }
}

/// Makes a user-typed name safe for the filesystem.
///
/// Replaces path separators and control characters, so the result can only
/// ever name a file inside the directory it is joined onto - never a sibling
/// or a parent. Truncation happens before the final trim so a cut cannot leave
/// a trailing dot or space behind, which Windows silently drops.
///
/// "CON" and "CON.mp4" both resolve to the console device on Windows.
pub fn sanitize_filename(name: &str) -> (r: String)
    ensures
        r@ == sanitized(name@),
{
    proof {
        reveal_strlit(".");
        lemma_pieces_nonempty(tidied(name@), "."@);
    }
    let tidy = tidy_name(name);
    let parts = split(tidy.as_str(), ".");
    assert(texts(parts@)[0] == parts@[0]@);
    let lower = to_lowercase(parts[0].as_str());
    escape_device(tidy.as_str(), lower.as_str())
}

/// The extensions of media files, without their point.
pub const MEDIA_EXTS: [&'static str; 16] = [
    "mp4",
    "mkv",
    "webm",
    "mov",
    "m4v",
    "avi",
    "flv",
    "ts",
    "mp3",
    "m4a",
    "wav",
    "opus",
    "flac",
    "aac",
    "ogg",
    "oga",
];

/// `lower` is the lowercase of an extension of media files.
pub open spec fn is_media_ext(lower: Seq<char>) -> bool {
    exists|i: int| 0 <= i < MEDIA_EXTS@.len() && #[trigger] MEDIA_EXTS@[i]@ == lower
}

/// Whether `lower` is the lowercase of an extension of media files.
pub fn media_ext(lower: &str) -> (r: bool)
    ensures
        r == is_media_ext(lower@),
{
    str_in(&MEDIA_EXTS, lower)
}

/// A plain file name without its extension, where that is one of media files.
pub open spec fn without_media_ext(name: Seq<char>) -> Seq<char> {
    match ext_of(name) {
        Some(e) => if is_media_ext(lowered(e)) {
            stem_of(name)
        } else {
            name
        },
        None => name,
    }
}

/// `r` is a path without a media extension: then only its file name is left.
pub open spec fn is_stripped(r: Seq<char>, path: Seq<char>, windows: bool) -> bool {
    r == (match (ext_at(path, windows), stem_at(path, windows)) {
        (Some(e), Some(s)) => if is_media_ext(lowered(e)) {
            s
        } else {
            path
        },
        _ => path,
    })
}

/// Drops a media extension the user typed, so the real container decides it.
/// In a text that is no plain file name the last part counts, as the platform
/// finds it.
pub fn strip_media_ext(name: &str) -> (r: String)
    ensures
        plain_name(name@) ==> r@ == without_media_ext(name@),
        name@.len() == 0 || name@ == seq!['.'] || name@ == seq!['.', '.'] ==> r@ == name@,
        exists|windows: bool| is_stripped(r@, name@, windows),
        is_part(r@, name@),
{
    assert(is_at(name@, name@, 0)) by {
        assert(name@.subrange(0, name@.len() as int) =~= name@);
    }
    let p = path_of(name);
    let ghost windows = route_of(p).windows;
    proof {
        if plain_name(name@) {
            lemma_plain_name(name@, windows);
        } else if name@.len() == 0 || name@ == seq!['.'] || name@ == seq!['.', '.'] {
            lemma_no_name(name@, windows);
        }
    }
    let r = match path_extension(&p) {
        Some(e) => {
            let lower = to_lowercase(e.as_str());
            if media_ext(lower.as_str()) {
                match path_file_stem(&p) {
                    Some(s) => s,
                    None => name.to_owned(),
                }
            } else {
                name.to_owned()
            }
        },
        None => name.to_owned(),
    };
    assert(is_stripped(r@, name@, windows));
    r
}

/// The name of a numbered copy: "name (N).ext".
pub open spec fn numbered(stem: Seq<char>, ext: Option<Seq<char>>, n: nat) -> Seq<char> {
    let base = stem + " ("@ + dec(n) + ")"@;
    match ext {
        Some(e) => base + "."@ + e,
        None => base,
    }
}

fn numbered_name(stem: &str, ext: &Option<String>, n: u64) -> (r: String)
    ensures
        r@ == numbered(stem@, opt_text(*ext), n as nat),
{
    let mut out = stem.to_owned();
    out.append(" (");
    out.append(u64_text(n).as_str());
    out.append(")");
    if let Some(e) = ext {
        out.append(".");
        out.append(e.as_str());
    }
    out
}

/// What the name of a numbered copy of a path begins with.
pub open spec fn copied_stem(path: Seq<char>, windows: bool) -> Seq<char> {
    match stem_at(path, windows) {
        Some(s) => s,
        None => "file"@,
    }
}

/// The name of the numbered copy of a path.
pub open spec fn copy_name(path: Seq<char>, n: nat, windows: bool) -> Seq<char> {
    numbered(copied_stem(path, windows), ext_at(path, windows), n)
}

/// `r` is the numbered copy of a path that is read in one way.
pub open spec fn is_copy_in(r: Seq<char>, path: Seq<char>, n: nat, windows: bool) -> bool {
    r == renamed_at(path, copy_name(path, n, windows), windows)
}

/// `r` is the numbered copy of a path: in the same directory, named after it.
pub open spec fn is_copy(r: Seq<char>, path: Seq<char>, n: nat) -> bool {
    exists|windows: bool| is_copy_in(r, path, n, windows)
}

/// `r` is the numbered copy of a path, read in the same way.
pub open spec fn is_copy_of(r: Route, path: Route, n: nat) -> bool {
    r.windows == path.windows && is_copy_in(r.text, path.text, n, path.windows)
}

/// The numbered copy of a path: in the same directory, named after it.
pub fn numbered_path(path: &std::path::PathBuf, n: u64) -> (r: std::path::PathBuf)
    ensures
        is_copy_of(route_of(r), route_of(*path), n as nat),
{
    let stem = match path_file_stem(path) {
        Some(s) => s,
        None => "file".to_owned(),
    };
    let ext = path_extension(path);
    let name = numbered_name(stem.as_str(), &ext, n);
    path_with_file_name(path, name.as_str())
}

/// What to do next in the search for a free name.
#[derive(Debug)]
pub enum FreeName {
    /// Look whether this path exists.
    Ask(std::path::PathBuf),
    /// This path is free.
    Use(std::path::PathBuf),
}

/// The search for a free name: `path` if free, otherwise the first free
/// "name (N).ext" variant. `tried` counts the copies that were asked for, none
/// at first, and `asked` is the path that was asked for last, with `exists`
/// what came back.
pub fn unique_path(
    path: &std::path::PathBuf,
    asked: std::path::PathBuf,
    exists: bool,
    tried: u64,
) -> (r: FreeName)
    requires
        tried < u64::MAX,
    ensures
        match r {
            FreeName::Use(p) => !exists && p == asked,
            FreeName::Ask(p) => exists && is_copy_of(
                route_of(p),
                route_of(*path),
                (tried + 1) as nat,
            ),
        },
{
    if exists {
        FreeName::Ask(numbered_path(path, tried + 1))
    } else {
        FreeName::Use(asked)
    }
}

// ---------------- neutral names ----------------

/// Largest number an anonymous "video-N" name may carry.
pub const ANON_MAX: u64 = 9999;

/// The anonymous name with number `n`.
pub open spec fn anon_name(n: nat) -> Seq<char> {
    "video-"@ + dec(n)
}

/// The number that a draw stands for.
pub open spec fn drawn(draw: u64) -> nat {
    (draw % ANON_MAX + 1) as nat
}

/// The first draw from `i` on whose name is free.
pub open spec fn free_draw(taken: Seq<Seq<char>>, draws: Seq<u64>, i: int) -> Option<nat>
    decreases draws.len() - i,
{
    if i < 0 || i >= draws.len() {
        None
    } else if !taken.contains(anon_name(drawn(draws[i]))) {
        Some(drawn(draws[i]))
    } else {
        free_draw(taken, draws, i + 1)
    }
}

/// The least number from `n` on whose name is free.
pub open spec fn free_gap(taken: Seq<Seq<char>>, n: nat) -> Option<nat>
    decreases ANON_MAX + 1 - n,
{
    if n > ANON_MAX {
        None
    } else if !taken.contains(anon_name(n)) {
        Some(n)
    } else {
        free_gap(taken, n + 1)
    }
}

/// The number of a free anonymous name: the first draw that is free, else the
/// least number that is, else the clock.
pub open spec fn anon_number(taken: Seq<Seq<char>>, draws: Seq<u64>, now: nat) -> nat {
    match free_draw(taken, draws, 0) {
        Some(n) => n,
        None => match free_gap(taken, 1) {
            Some(n) => n,
            None => now,
        },
    }
}

/// Some number up to the largest is free.
pub open spec fn some_name_is_free(taken: Seq<Seq<char>>) -> bool {
    exists|k: nat| 1 <= k <= ANON_MAX && !taken.contains(#[trigger] anon_name(k))
}

fn anon_text(n: u64) -> (r: String)
    ensures
        r@ == anon_name(n as nat),
{
    let mut out = "video-".to_owned();
    out.append(u64_text(n).as_str());
    out
}

/// Picks a "video-N" (N in 1..=9999) that `taken` does not hold, by the first
/// of the draws that gives one.
///
/// It takes thousands of "video-N" files in one folder for every draw to
/// collide. Then the range is scanned for a gap, and only if the whole range is
/// taken the clock numbers the name, rather than hand back one that is in use.
pub fn free_anon_stem(taken: &Vec<String>, draws: &Vec<u64>, now: u64) -> (r: String)
    ensures
        r@ == anon_name(anon_number(texts(taken@), draws@, now as nat)),
{
    let mut i: usize = 0;
    while i < draws.len()
        invariant
            i <= draws@.len(),
            free_draw(texts(taken@), draws@, 0) == free_draw(texts(taken@), draws@, i as int),
        decreases draws@.len() - i,
    {
        let n: u64 = draws[i] % ANON_MAX + 1;
        let name = anon_text(n);
        if !text_in(taken, name.as_str()) {
            return name;
        }
        i += 1;
    }
    let mut n: u64 = 1;
    while n <= ANON_MAX
        invariant
            1 <= n <= ANON_MAX + 1,
            free_draw(texts(taken@), draws@, 0) is None,
            free_gap(texts(taken@), 1) == free_gap(texts(taken@), n as nat),
        decreases ANON_MAX + 1 - n,
    {
        let name = anon_text(n);
        if !text_in(taken, name.as_str()) {
            return name;
        }
        n += 1;
    }
    anon_text(now)
}

/// Every text of a list is a plain file name.
pub open spec fn all_plain(names: Seq<Seq<char>>) -> bool {
    forall|i: int| 0 <= i < names.len() ==> plain_name(#[trigger] names[i])
}

/// The lowercase stems of a list of file names.
pub open spec fn lower_stems(names: Seq<Seq<char>>) -> Seq<Seq<char>>
    decreases names.len(),
{
    if names.len() == 0 {
        seq![]
    } else {
        lower_stems(names.drop_last()).push(lowered(stem_of(names.last())))
    }
}

/// `taken` holds the stem of every plain one of the first `n` file names, in
/// lowercase.
pub open spec fn stems_held(taken: Seq<Seq<char>>, names: Seq<Seq<char>>, n: int) -> bool {
    forall|i: int|
        0 <= i < n && plain_name(#[trigger] names[i]) ==> taken.contains(lowered(stem_of(names[i])))
}

proof fn lemma_stems_held(taken: Seq<Seq<char>>, l: Seq<char>, names: Seq<Seq<char>>, n: int)
    requires
        stems_held(taken, names, n),
        plain_name(names[n]) ==> l == lowered(stem_of(names[n])),
    ensures
        stems_held(taken.push(l), names, n + 1),
{
    let more = taken.push(l);
    assert(more[taken.len() as int] == l);
    assert forall|i: int| 0 <= i < n + 1 && plain_name(#[trigger] names[i]) implies more.contains(
        lowered(stem_of(names[i])),
    ) by {
        if i < n {
            let k = taken.index_of(lowered(stem_of(names[i])));
            assert(more[k] == taken[k]);
        }
    }
}

/// `stem` is that of a file name that is read in one way.
pub open spec fn is_stem_in(stem: Option<Seq<char>>, name: Seq<char>, windows: bool) -> bool {
    stem == stem_at(name, windows)
}

/// `stem` is that of a file name.
pub open spec fn is_stem(stem: Option<Seq<char>>, name: Seq<char>) -> bool {
    exists|windows: bool| is_stem_in(stem, name, windows)
}

/// Each of the first `n` stems is that of its file name.
pub open spec fn stems_match(
    stems: Seq<Option<Seq<char>>>,
    names: Seq<Seq<char>>,
    n: int,
) -> bool {
    stems.len() == n && forall|i: int| 0 <= i < n ==> is_stem(#[trigger] stems[i], names[i])
}

/// The stems that are there, in lowercase.
pub open spec fn lower_found(stems: Seq<Option<Seq<char>>>) -> Seq<Seq<char>>
    decreases stems.len(),
{
    if stems.len() == 0 {
        seq![]
    } else {
        match stems.last() {
            Some(s) => lower_found(stems.drop_last()).push(lowered(s)),
            None => lower_found(stems.drop_last()),
        }
    }
}

/// `taken` holds the stems of the file names in order, in lowercase: that of
/// every plain one, and nothing else where all are plain.
pub open spec fn are_stems(taken: Seq<Seq<char>>, names: Seq<Seq<char>>) -> bool {
    &&& exists|stems: Seq<Option<Seq<char>>>|
        #[trigger] stems_match(stems, names, names.len() as int) && taken == lower_found(stems)
    &&& stems_held(taken, names, names.len() as int)
    &&& all_plain(names) ==> taken == lower_stems(names)
}

/// The stems of the files in a folder, in lowercase. Only the stem is compared,
/// so "video-7.mp4" also rules out "video-7.webm" - the extension is yt-dlp's
/// to choose and is not known here.
#[verifier::spinoff_prover]
#[verifier::rlimit(60)]
pub fn taken_stems(names: &Vec<String>) -> (r: Vec<String>)
    ensures
        are_stems(texts(r@), texts(names@)),
{
    let mut out: Vec<String> = Vec::new();
    let ghost all = texts(names@);
    let ghost mut stems: Seq<Option<Seq<char>>> = seq![];
    assert(all.take(0) =~= seq![]);
    for i in 0..names.len()
        invariant
            all == texts(names@),
            stems_match(stems, all, i as int),
            texts(out@) == lower_found(stems),
            all_plain(all) ==> texts(out@) == lower_stems(all.take(i as int)),
            stems_held(texts(out@), all, i as int),
    {
        let ghost upto = all.take(i + 1);
        let ghost before = texts(out@);
        assert(upto.drop_last() =~= all.take(i as int));
        assert(upto.last() == names@[i as int]@);
        assert(all[i as int] == names@[i as int]@);
        let p = path_of(names[i].as_str());
        proof {
            if plain_name(all[i as int]) {
                lemma_plain_name(all[i as int], route_of(p).windows);
            }
        }
        let stem = path_file_stem(&p);
        proof {
            let ghost found = opt_text(stem);
            assert(is_stem_in(found, all[i as int], route_of(p).windows));
            let more = stems.push(found);
            assert(more.drop_last() =~= stems);
            assert forall|j: int| 0 <= j < i + 1 implies is_stem(#[trigger] more[j], all[j]) by {
                if j < i {
                    assert(more[j] == stems[j]);
                }
            }
            stems = more;
        }
        if let Some(s) = stem {
            let lower = to_lowercase(s.as_str());
            proof {
                lemma_stems_held(before, lower@, all, i as int);
            }
            push_string(&mut out, lower);
        }
    }
    assert(all.take(all.len() as int) =~= all);
    assert(stems_match(stems, all, all.len() as int));
    out
}

// ---------------- output templates ----------------

/// A literal text in yt-dlp's template language, in which a percent sign begins
/// a field: every percent sign is doubled.
pub open spec fn escaped(path: Seq<char>) -> Seq<char> {
    replaced(path, "%"@, "%%"@)
}

/// Escapes a literal path for use as a yt-dlp output template.
pub fn escape_outtmpl(path: &str) -> (r: String)
    ensures
        r@ == escaped(path@),
{
    proof {
        reveal_strlit("%");
    }
    replace(path, "%", "%%")
}

/// The template that writes to a path, with the extension left to yt-dlp.
pub open spec fn template_of(without_ext: Seq<char>) -> Seq<char> {
    escaped(without_ext) + ".%(ext)s"@
}

/// The template that writes to a path without its extension.
pub fn outtmpl_from(without_ext: &str) -> (r: String)
    ensures
        r@ == template_of(without_ext@),
{
    let mut out = escape_outtmpl(without_ext);
    out.append(".%(ext)s");
    out
}

/// The template of a path without its extension, where that is read in one way.
pub open spec fn template_for(path: Seq<char>, windows: bool) -> Seq<char> {
    template_of(extended_at(path, Seq::empty(), windows))
}

/// `r` is the template of `path` without its extension.
pub open spec fn is_template_for(r: Seq<char>, path: Seq<char>) -> bool {
    exists|windows: bool| r == #[trigger] template_for(path, windows)
}

/// Turns a concrete target path into a yt-dlp output template (ext left to
/// yt-dlp).
pub fn outtmpl_for(path: &std::path::PathBuf) -> (r: String)
    ensures
        r@ == template_for(route_of(*path).text, route_of(*path).windows),
{
    proof {
        reveal_strlit("");
    }
    let without_ext = path_text(&path_with_extension(path, ""));
    assert(""@ =~= Seq::<char>::empty());
    outtmpl_from(without_ext.as_str())
}

/// The literal path that a template writes to, without its extension.
pub open spec fn literal_of(template: Seq<char>) -> Seq<char> {
    replaced(replaced(template, ".%(ext)s"@, ""@), "%%"@, "%"@)
}

/// Reads the literal path off a template: without the extension field, and with
/// single percent signs.
pub fn literal_path(template: &str) -> (r: String)
    ensures
        r@ == literal_of(template@),
{
    proof {
        reveal_strlit(".%(ext)s");
        reveal_strlit("%%");
    }
    replace(replace(template, ".%(ext)s", "").as_str(), "%%", "%")
}

// ---------------- versions ----------------

/// The runs of digits that fit into 64 bits, as numbers, in order.
pub open spec fn numbers_of(runs: Seq<Seq<char>>) -> Seq<u64>
    decreases runs.len(),
{
    if runs.len() == 0 {
        seq![]
    } else {
        let before = numbers_of(runs.drop_last());
        match unsigned_of(runs.last(), u64::MAX as nat) {
            Some(n) => before.push(n as u64),
            None => before,
        }
    }
}

/// The numbers of a version; a text without any is version zero.
pub open spec fn version_of(runs: Seq<Seq<char>>) -> Seq<u64> {
    if numbers_of(runs).len() == 0 {
        seq![0u64]
    } else {
        numbers_of(runs)
    }
}

/// The numbers of a version, from the runs of digits in it.
pub fn version_numbers(runs: &Vec<String>) -> (r: Vec<u64>)
    ensures
        r@ == version_of(texts(runs@)),
{
    let mut out: Vec<u64> = Vec::new();
    let ghost all = texts(runs@);
    for i in 0..runs.len()
        invariant
            all == texts(runs@),
            out@ == numbers_of(all.take(i as int)),
    {
        assert(all.take(i + 1).drop_last() =~= all.take(i as int));
        if let Some(n) = parse_u64(runs[i].as_str()) {
            out.push(n);
        }
    }
    assert(all.take(all.len() as int) =~= all);
    if out.len() == 0 {
        out.push(0);
        assert(out@ =~= seq![0u64]);
    }
    out
}

/// The numbers of a version text.
pub open spec fn version(text: Seq<char>) -> Seq<u64> {
    version_of(matches_of(DIGIT_RUNS@, text)->0)
}

/// Parses a version string into a tuple of the integers it contains.
pub fn parse_version(text: &str) -> (r: Vec<u64>)
    ensures
        r@ == version(text@),
        vstd::utf8::is_ascii_chars(text@) ==> r@ == version_of(digit_runs(text@)),
        r@.len() > 0,
{
    match find_all(DIGIT_RUNS, text) {
        Some(runs) => version_numbers(&runs),
        None => {
            let mut out: Vec<u64> = Vec::new();
            out.push(0);
            out
        },
    }
}

/// `a` stands before `b`: by the first number in which they differ, a list
/// before every longer list that it begins.
pub open spec fn numbers_less(a: Seq<u64>, b: Seq<u64>) -> bool
    decreases a.len(),
{
    if b.len() == 0 {
        false
    } else if a.len() == 0 {
        true
    } else if a[0] != b[0] {
        a[0] < b[0]
    } else {
        numbers_less(a.skip(1), b.skip(1))
    }
}

/// The first three numbers, or all where there are fewer.
pub open spec fn first_three(v: Seq<u64>) -> Seq<u64> {
    if v.len() < 3 {
        v
    } else {
        v.take(3)
    }
}

/// A dated version is older than another by its year, month and day; one
/// without three numbers is older than none.
pub open spec fn is_older(installed: Seq<u64>, required: Seq<u64>) -> bool {
    installed.len() >= 3 && numbers_less(first_three(installed), first_three(required))
}

/// Whether the numbers of a dated version are older than others.
pub fn older_numbers(installed: &Vec<u64>, required: &Vec<u64>) -> (r: bool)
    ensures
        r == is_older(installed@, required@),
{
    if installed.len() < 3 {
        return false;
    }
    let ghost a = first_three(installed@);
    let ghost b = first_three(required@);
    let mut i: usize = 0;
    assert(a.skip(0) =~= a);
    assert(b.skip(0) =~= b);
    while i < 3 && i < required.len()
        invariant
            installed@.len() >= 3,
            a == first_three(installed@),
            b == first_three(required@),
            i <= 3,
            i <= required@.len(),
            numbers_less(a, b) == numbers_less(a.skip(i as int), b.skip(i as int)),
        decreases 3 - i,
    {
        assert(a.skip(i as int)[0] == installed@[i as int]);
        assert(b.skip(i as int)[0] == required@[i as int]);
        assert(a.skip(i as int).skip(1) =~= a.skip(i + 1));
        assert(b.skip(i as int).skip(1) =~= b.skip(i + 1));
        if installed[i] != required[i] {
            return installed[i] < required[i];
        }
        i += 1;
    }
    assert(b.skip(i as int).len() == 0);
    false
}

/// True when `installed` is a parseable yt-dlp CalVer older than `required`.
pub fn ytdlp_older_than(installed: &str, required: &str) -> (r: bool)
    ensures
        r == is_older(version(installed@), version(required@)),
        vstd::utf8::is_ascii_chars(installed@) && vstd::utf8::is_ascii_chars(required@) ==> r
            == is_older(version_of(digit_runs(installed@)), version_of(digit_runs(required@))),
{
    let inst = parse_version(installed);
    let req = parse_version(required);
    older_numbers(&inst, &req)
}

// ---------------- extensions that a choice forces ----------------

/// The final extension of an audio-only download quality.
pub open spec fn audio_ext_of_quality(quality: Seq<char>) -> Option<Seq<char>> {
    if quality == "audio"@ {
        Some("mp3"@)
    } else if quality == "audio_wav"@ {
        Some("wav"@)
    } else if quality == "audio_opus"@ {
        Some("opus"@)
    } else {
        None
    }
}

/// Audio-only download quality keys mapped to their final extension.
pub fn audio_ext_by_quality(quality: &str) -> (r: Option<&'static str>)
    ensures
        opt_str(r) == audio_ext_of_quality(quality@),
{
    if same(quality, "audio") {
        Some("mp3")
    } else if same(quality, "audio_wav") {
        Some("wav")
    } else if same(quality, "audio_opus") {
        Some("opus")
    } else {
        None
    }
}

/// The output extension that an audio codec of the Convert tab forces.
pub open spec fn audio_ext_of_codec(codec_key: Seq<char>) -> Option<Seq<char>> {
    if codec_key == "audio_mp3"@ {
        Some("mp3"@)
    } else if codec_key == "audio_wav"@ {
        Some("wav"@)
    } else {
        None
    }
}

/// Convert-tab audio codec keys mapped to their forced output extension.
pub fn convert_audio_ext(codec_key: &str) -> (r: Option<&'static str>)
    ensures
        opt_str(r) == audio_ext_of_codec(codec_key@),
{
    if same(codec_key, "audio_mp3") {
        Some("mp3")
    } else if same(codec_key, "audio_wav") {
        Some("wav")
    } else {
        None
    }
}

// ---------------- laws ----------------

proof fn lemma_tidied(name: Seq<char>)
    ensures
        tidied(name).len() <= NAME_CHARS,
        forall|i: int| 0 <= i < tidied(name).len() ==> !is_illegal(#[trigger] tidied(name)[i]),
        tidied(name).len() > 0 ==> tidied(name).last() != '.' && !is_space(tidied(name).last()),
        tidied(name).len() > 0 ==> !is_space(tidied(name)[0]),
{
    let n: int = if name.len() < NAME_CHARS {
        name.len() as int
    } else {
        NAME_CHARS as int
    };
    let all = name.take(n).map_values(|c: char| legal(c));
    let front = trimmed_start(all, spaces());
    let t = tidied(name);
    lemma_trimmed_start(all, spaces());
    lemma_trimmed_end(front, fading());
    assert(!is_illegal('_')) by {
        reveal_strlit("<>:\"/\\|?*");
    }
    assert forall|i: int| 0 <= i < t.len() implies !is_illegal(#[trigger] t[i]) by {
        assert(t[i] == front[i]);
        assert(front[i] == all[all.len() - front.len() + i]);
        let j = all.len() - front.len() + i;
        assert(all[j] == legal(name[j]));
    }
    if t.len() > 0 {
        assert(!fading()(t.last()));
        assert(t[0] == front[0]);
        assert(!spaces()(front[0]));
    }
}

/// A sanitized name holds no separator and no other character that a file name
/// may not hold, it does not end in a point or in white space, and it is not
/// longer than a name may be, but for the underscore in front of a device. So
/// it can only name a file in the directory it is joined onto: never that
/// directory, nor the one above it, nor one beside it.
pub proof fn a_sanitized_name_stays_in_its_directory(name: Seq<char>, lower: Seq<char>)
    ensures
        ({
            let r = safe_name(tidied(name), lower);
            &&& r.len() <= NAME_CHARS + 1
            &&& forall|i: int| 0 <= i < r.len() ==> !is_illegal(#[trigger] r[i])
            &&& r.len() > 0 ==> r.last() != '.' && !is_space(r.last())
            &&& r.len() > 0 ==> plain_name(r)
        }),
{
    let t = tidied(name);
    let r = safe_name(t, lower);
    lemma_tidied(name);
    reveal_strlit("<>:\"/\\|?*");
    let set = ILLEGAL_FS_CHARS@;
    assert(!is_illegal('_'));
    assert(is_illegal('/')) by {
        assert(set[4] == '/');
    }
    assert(is_illegal('\\')) by {
        assert(set[5] == '\\');
    }
    assert(is_illegal(':')) by {
        assert(set[2] == ':');
    }
    assert forall|i: int| 0 <= i < r.len() implies !is_illegal(#[trigger] r[i]) by {
        if is_reserved(lower) && i > 0 {
            assert(r[i] == t[i - 1]);
        }
    }
    if r.len() > 0 {
        if is_reserved(lower) && t.len() > 0 {
            assert(r.last() == t.last());
        }
        assert forall|c: char| r.contains(c) implies !is_illegal(c) by {
            let i = choose|i: int| 0 <= i < r.len() && r[i] == c;
            assert(!is_illegal(r[i]));
        }
        if is_reserved(lower) && t.len() == 0 {
            assert(r =~= seq!['_']);
        }
        assert(r.last() != '.' && !is_space(r.last()));
        if r.len() >= 2 {
            assert(!is_illegal(r[1]));
        }
        if r == seq!['.'] {
            assert(seq!['.'].last() == '.');
        }
        if r == seq!['.', '.'] {
            assert(seq!['.', '.'].last() == '.');
        }
        assert(plain_name(r));
    }
}

/// A name as it is made safe for the filesystem.
pub open spec fn sanitized(name: Seq<char>) -> Seq<char> {
    safe_name(tidied(name), lowered(first_part(tidied(name))))
}

proof fn lemma_no_device_begins_so(s: Seq<char>)
    requires
        s.len() > 0,
        s[0] == '_',
    ensures
        !is_reserved(lowered(s)),
{
    let low = lowered(s);
    let front = s.take(ascii_len(s));
    assert(ascii_len(s) >= 1) by {
        lemma_ascii_len(s.skip(1));
    }
    lemma_ascii_len(s);
    assert(front[0] == '_');
    assert(ascii_lowered(front)[0] == '_');
    assert(ascii_lowered(s)[0] == '_');
    assert(low[0] == '_');
    reveal_strlit("con");
    reveal_strlit("prn");
    reveal_strlit("aux");
    reveal_strlit("nul");
    reveal_strlit("com1");
    reveal_strlit("com2");
    reveal_strlit("com3");
    reveal_strlit("com4");
    reveal_strlit("com5");
    reveal_strlit("com6");
    reveal_strlit("com7");
    reveal_strlit("com8");
    reveal_strlit("com9");
    reveal_strlit("lpt1");
    reveal_strlit("lpt2");
    reveal_strlit("lpt3");
    reveal_strlit("lpt4");
    reveal_strlit("lpt5");
    reveal_strlit("lpt6");
    reveal_strlit("lpt7");
    reveal_strlit("lpt8");
    reveal_strlit("lpt9");
    assert forall|i: int| 0 <= i < RESERVED_STEMS@.len() implies #[trigger] RESERVED_STEMS@[i]@
        != low by {
        assert(RESERVED_STEMS@[i]@[0] != '_');
    }
}

proof fn lemma_copy_name(path: Seq<char>, n: nat, windows: bool)
    requires
        is_known(path, windows),
        name_in(path, windows) is Some,
        !has_drive(name_in(path, windows)->0, windows),
    ensures
        ({
            let c = copy_name(path, n, windows);
            &&& c.len() > 2
            &&& !has_drive(c, windows)
            &&& forall|i: int| 0 <= i < c.len() ==> !is_sep(#[trigger] c[i], windows)
            &&& ext_of(c) == ext_in(path, windows)
        }),
{
    let name = name_in(path, windows)->0;
    let stem = stem_of(name);
    let d = dec(n);
    let c = copy_name(path, n, windows);
    let base = stem + " ("@ + d + ")"@;
    reveal_strlit(" (");
    reveal_strlit(")");
    reveal_strlit(".");
    dec_reads_back(n);
    lemma_name(path, windows);
    lemma_parts_of(name);
    lemma_ext_has_no_point(name);
    assert forall|i: int| 0 <= i < base.len() implies !is_sep(#[trigger] base[i], windows) && (i
        >= stem.len() ==> base[i] != '.') by {
        if i < stem.len() {
            assert(base[i] == name[i]);
        } else if stem.len() + 2 <= i < stem.len() + 2 + d.len() {
            assert(base[i] == d[i - stem.len() - 2]);
            assert(is_digit(d[i - stem.len() - 2]));
        }
    }
    assert(base[0] == name[0]);
    assert(!has_drive(base, windows)) by {
        if stem.len() > 1 {
            assert(base[1] == name[1]);
        }
    }
    match ext_of(name) {
        Some(e) => {
            assert(c =~= base.push('.') + e);
            lemma_named(base, e);
            assert forall|i: int| 0 <= i < c.len() implies !is_sep(#[trigger] c[i], windows) by {
                if i < base.len() {
                    assert(c[i] == base[i]);
                } else if i > base.len() {
                    assert(c[i] == e[i - base.len() - 1]);
                    assert(e[i - base.len() - 1] == name[i - base.len() + stem.len()]);
                }
            }
            assert(c[0] == base[0] && c[1] == base[1]);
        },
        None => {
            assert forall|j: int| 1 <= j < base.len() implies #[trigger] base[j] != '.' by {
                if j < stem.len() {
                    assert(base[j] == name[j]);
                }
            }
            lemma_unextended(base);
        },
    }
}

/// A numbered copy stays in the directory of its path and keeps its extension.
/// A name that begins like a drive is left out: on Windows it would be one.
pub proof fn a_copy_stays_beside_its_path(path: Seq<char>, n: nat, windows: bool)
    requires
        is_known(path, windows),
        name_in(path, windows) is Some,
        !has_drive(name_in(path, windows)->0, windows),
    ensures
        ({
            let r = renamed_at(path, copy_name(path, n, windows), windows);
            &&& parent_at(r, windows) == parent_at(path, windows)
            &&& file_name_at(r, windows) == Some(copy_name(path, n, windows))
            &&& ext_at(r, windows) == ext_at(path, windows)
        }),
{
    lemma_copy_name(path, n, windows);
    lemma_beside(path, copy_name(path, n, windows), windows);
}

proof fn lemma_extended(path: Seq<char>, ext: Seq<char>, windows: bool)
    requires
        is_known(path, windows),
        ext.len() > 0,
        no_separator(ext),
        !ext.contains('.'),
    ensures
        is_known(with_ext_in(path, ext, windows), windows),
        with_ext_in(with_ext_in(path, ext, windows), Seq::empty(), windows) == with_ext_in(
            path,
            Seq::empty(),
            windows,
        ),
{
    if let Some(name) = name_in(path, windows) {
        let stem = stem_of(name);
        let renamed = stem.push('.') + ext;
        lemma_name(path, windows);
        lemma_parts_of(name);
        lemma_named(stem, ext);
        assert forall|i: int| 0 <= i < renamed.len() implies !is_sep(
            #[trigger] renamed[i],
            windows,
        ) by {
            if i < stem.len() {
                assert(renamed[i] == name[i]);
            } else if i > stem.len() {
                assert(renamed[i] == ext[i - stem.len() - 1]);
                assert(ext.contains(renamed[i]));
            }
        }
        assert(renamed[0] == name[0]);
        assert(stem.len() > 1 ==> renamed[1] == name[1]);
        assert(renamed.last() == ext.last() && ext.contains(ext.last()));
        if renamed == seq!['.', '.'] {
            assert(renamed.last() == '.');
        }
        if dir_in(path, windows).len() == 0 {
            lemma_undriven(path, windows);
        }
        lemma_renamed_in_place(path, renamed, windows);
    }
}

/// Two files that differ in their extensions alone share a template: that of a
/// path with one extension is that of the path with another.
pub proof fn a_template_leaves_the_extension_open(
    path: Seq<char>,
    a: Seq<char>,
    b: Seq<char>,
    windows: bool,
)
    requires
        is_known(path, windows),
        a.len() > 0 && no_separator(a) && !a.contains('.'),
        b.len() > 0 && no_separator(b) && !b.contains('.'),
    ensures
        template_for(extended_at(path, a, windows), windows) == template_for(
            extended_at(path, b, windows),
            windows,
        ),
{
    lemma_extended(path, a, windows);
    lemma_extended(path, b, windows);
}

/// A sanitized name never stands for a device, with or without an extension,
/// and has no white space in front.
pub proof fn a_sanitized_name_is_no_device(name: Seq<char>)
    ensures
        !is_reserved(lowered(first_part(sanitized(name)))),
        sanitized(name).len() > 0 ==> !is_space(sanitized(name)[0]),
{
    let t = tidied(name);
    let r = sanitized(name);
    lemma_tidied(name);
    reveal_strlit(".");
    if is_reserved(lowered(first_part(t))) {
        lemma_first_at(r, "."@, 0);
        assert(!is_at(r, "."@, 0)) by {
            if is_at(r, "."@, 0) {
                assert(r.subrange(0, 1)[0] == r[0]);
            }
        }
        assert(first_part(r).len() > 0 && first_part(r)[0] == '_');
        lemma_no_device_begins_so(first_part(r));
    }
}

/// To sanitize a name again changes nothing, as long as the underscore in front
/// of a device does not make it longer than what is kept.
pub proof fn to_sanitize_twice_changes_nothing(name: Seq<char>)
    requires
        sanitized(name).len() <= NAME_CHARS,
    ensures
        sanitized(sanitized(name)) == sanitized(name),
{
    let r = sanitized(name);
    a_sanitized_name_is_no_device(name);
    a_sanitized_name_stays_in_its_directory(name, lowered(first_part(tidied(name))));
    let n: int = if r.len() < NAME_CHARS {
        r.len() as int
    } else {
        NAME_CHARS as int
    };
    assert(r.take(n) =~= r);
    assert(r.map_values(|c: char| legal(c)) =~= r) by {
        assert forall|i: int| 0 <= i < r.len() implies legal(#[trigger] r[i]) == r[i] by {}
    }
    assert(r.len() > 0 ==> !fading()(r.last()));
    assert(tidied(r) == r);
}

proof fn lemma_free_draw(taken: Seq<Seq<char>>, draws: Seq<u64>, i: int)
    ensures
        match free_draw(taken, draws, i) {
            Some(n) => 1 <= n <= ANON_MAX && !taken.contains(anon_name(n)),
            None => true,
        },
    decreases draws.len() - i,
{
    if 0 <= i < draws.len() && taken.contains(anon_name(drawn(draws[i]))) {
        lemma_free_draw(taken, draws, i + 1);
    }
}

proof fn lemma_free_gap(taken: Seq<Seq<char>>, n: nat)
    requires
        1 <= n,
    ensures
        match free_gap(taken, n) {
            Some(k) => n <= k <= ANON_MAX && !taken.contains(anon_name(k)),
            None => forall|k: nat| n <= k <= ANON_MAX ==> taken.contains(#[trigger] anon_name(k)),
        },
    decreases ANON_MAX + 1 - n,
{
    if n <= ANON_MAX && taken.contains(anon_name(n)) {
        lemma_free_gap(taken, n + 1);
    }
}

/// As long as some number up to the largest is free, the name that is picked is
/// a free one with a number in that range, whatever was drawn.
pub proof fn a_picked_name_is_free(taken: Seq<Seq<char>>, draws: Seq<u64>, now: nat)
    requires
        some_name_is_free(taken),
    ensures
        1 <= anon_number(taken, draws, now) <= ANON_MAX,
        !taken.contains(anon_name(anon_number(taken, draws, now))),
{
    let free = choose|k: nat| 1 <= k <= ANON_MAX && !taken.contains(#[trigger] anon_name(k));
    lemma_free_draw(taken, draws, 0);
    lemma_free_gap(taken, 1);
}

/// No piece of a text holds the character it was cut at.
proof fn lemma_pieces_hold_no(s: Seq<char>, c: char)
    ensures
        forall|i: int| 0 <= i < pieces(s, seq![c]).len() ==> !(#[trigger] pieces(s, seq![c])[i]).contains(c),
    decreases s.len(),
{
    let p = pieces(s, seq![c]);
    lemma_first_at(s, seq![c], 0);
    match first_at(s, seq![c], 0) {
        Some(k) => {
            let rest = s.skip(k + 1);
            lemma_pieces_hold_no(rest, c);
            let q = pieces(rest, seq![c]);
            assert(p == seq![s.take(k)] + q);
            assert forall|i: int| 0 <= i < p.len() implies !(#[trigger] p[i]).contains(c) by {
                if i == 0 {
                    if p[0].contains(c) {
                        let j = choose|j: int| 0 <= j < p[0].len() && p[0][j] == c;
                        assert(s.subrange(j, j + 1) =~= seq![c]);
                        assert(is_at(s, seq![c], j));
                    }
                } else {
                    assert(p[i] == q[i - 1]);
                }
            }
        },
        None => {
            assert(p =~= seq![s]);
            if s.contains(c) {
                let j = choose|j: int| 0 <= j < s.len() && s[j] == c;
                assert(s.subrange(j, j + 1) =~= seq![c]);
                assert(is_at(s, seq![c], j));
            }
        },
    }
}

/// Texts without a character, joined by two of it, are the pieces of the whole.
proof fn lemma_pieces_of_joined(parts: Seq<Seq<char>>, c: char)
    requires
        parts.len() >= 1,
        forall|i: int| 0 <= i < parts.len() ==> !(#[trigger] parts[i]).contains(c),
    ensures
        pieces(joined(parts, seq![c, c]), seq![c, c]) == parts,
    decreases parts.len(),
{
    let sep = seq![c, c];
    let first = parts[0];
    let rest = parts.skip(1);
    let whole = joined(parts, sep);
    if parts.len() == 1 {
        assert(whole == first);
        lemma_first_at(first, sep, 0);
        if let Some(k) = first_at(first, sep, 0) {
            assert(first.subrange(k, k + 2)[0] == c);
            assert(first[k] == c);
        }
        assert(parts =~= seq![first]);
    } else {
        assert(parts =~= seq![first] + rest);
        lemma_joined_front(first, rest, sep);
        let tail = joined(rest, sep);
        assert(whole == first + sep + tail);
        assert forall|i: int| 0 <= i < rest.len() implies !(#[trigger] rest[i]).contains(c) by {
            assert(rest[i] == parts[i + 1]);
        }
        lemma_pieces_of_joined(rest, c);
        let n = first.len() as int;
        assert(whole.subrange(n, n + 2) =~= sep);
        assert(is_at(whole, sep, n));
        assert forall|j: int| 0 <= j < n implies !is_at(whole, sep, j) by {
            if is_at(whole, sep, j) {
                assert(whole.subrange(j, j + 2)[0] == c);
                assert(first[j] == c);
            }
        }
        lemma_cut_behind(whole, sep, first, tail);
        assert(pieces(whole, sep) == seq![first] + rest);
    }
}

/// A text whose first separator stands behind `first` is `first` and the pieces
/// of what follows.
pub proof fn lemma_cut_behind(whole: Seq<char>, sep: Seq<char>, first: Seq<char>, tail: Seq<char>)
    requires
        sep.len() > 0,
        whole == first + sep + tail,
        forall|j: int| 0 <= j < first.len() ==> !is_at(whole, sep, j),
    ensures
        pieces(whole, sep) == seq![first] + pieces(tail, sep),
{
    let n = first.len() as int;
    assert(whole.subrange(n, n + sep.len()) =~= sep);
    assert(is_at(whole, sep, n));
    lemma_first_at(whole, sep, 0);
    assert(first_at(whole, sep, 0) == Some(n));
    assert(whole.take(n) =~= first);
    assert(whole.skip(n + sep.len()) =~= tail);
}

/// Doubling every percent sign of a text and halving them again gives the text.
pub proof fn halving_undoes_escaping(path: Seq<char>)
    ensures
        replaced(escaped(path), "%%"@, "%"@) == path,
{
    reveal_strlit("%");
    reveal_strlit("%%");
    assert("%"@ =~= seq!['%']);
    assert("%%"@ =~= seq!['%', '%']);
    let parts = pieces(path, "%"@);
    lemma_pieces_nonempty(path, "%"@);
    lemma_pieces_hold_no(path, '%');
    lemma_pieces_of_joined(parts, '%');
    lemma_joined_pieces(path, "%"@);
}

/// A percent sign in an escaped text stands beside another one: a single one
/// before an opening bracket, which would begin a field, is never among them.
proof fn lemma_no_field(parts: Seq<Seq<char>>, i: int)
    requires
        parts.len() >= 1,
        forall|k: int| 0 <= k < parts.len() ==> !(#[trigger] parts[k]).contains('%'),
        0 <= i < joined(parts, seq!['%', '%']).len(),
        joined(parts, seq!['%', '%'])[i] == '%',
        i == 0 || joined(parts, seq!['%', '%'])[i - 1] != '%',
    ensures
        i + 1 < joined(parts, seq!['%', '%']).len(),
        joined(parts, seq!['%', '%'])[i + 1] == '%',
    decreases parts.len(),
{
    let sep = seq!['%', '%'];
    let first = parts[0];
    let rest = parts.skip(1);
    let whole = joined(parts, sep);
    if parts.len() == 1 {
        assert(first[i] == '%');
    } else {
        assert(parts =~= seq![first] + rest);
        lemma_joined_front(first, rest, sep);
        let tail = joined(rest, sep);
        assert(whole == first + sep + tail);
        let n = first.len() as int;
        if i < n {
            assert(first[i] == '%');
        } else if i == n {
            assert(whole[n + 1] == sep[1]);
        } else if i == n + 1 {
            assert(whole[n] == sep[0]);
        } else {
            assert(whole[i] == tail[i - n - 2]);
            if i == n + 2 {
                assert(whole[n + 1] == sep[1]);
            } else {
                assert(whole[i - 1] == tail[i - n - 3]);
                assert forall|k: int| 0 <= k < rest.len() implies !(#[trigger] rest[k]).contains(
                    '%',
                ) by {
                    assert(rest[k] == parts[k + 1]);
                }
                lemma_no_field(rest, i - n - 2);
                assert(whole[i + 1] == tail[i - n - 1]);
            }
        }
    }
}

/// The literal path read off a template is the path the template was made for,
/// without its extension, whatever percent signs and fields stand in it.
pub proof fn a_template_names_its_path(without_ext: Seq<char>)
    ensures
        literal_of(template_of(without_ext)) == without_ext,
{
    let field = ".%(ext)s"@;
    let w = escaped(without_ext);
    let whole = w + field;
    let n = w.len() as int;
    let parts = pieces(without_ext, "%"@);
    reveal_strlit("%");
    reveal_strlit("%%");
    reveal_strlit("");
    reveal_strlit(".%(ext)s");
    assert("%"@ =~= seq!['%']);
    assert("%%"@ =~= seq!['%', '%']);
    lemma_pieces_nonempty(without_ext, "%"@);
    lemma_pieces_hold_no(without_ext, '%');
    assert(whole.subrange(n, n + field.len()) =~= field);
    assert(is_at(whole, field, n));
    assert forall|j: int| 0 <= j < n implies !is_at(whole, field, j) by {
        if is_at(whole, field, j) {
            let f = whole.subrange(j, j + field.len());
            assert(f[0] == whole[j] && f[1] == whole[j + 1] && f[2] == whole[j + 2]);
            if j + 1 < n {
                assert(w[j] == '.' && w[j + 1] == '%');
                lemma_no_field(parts, j + 1);
            } else {
                assert(whole[n] == '.');
            }
        }
    }
    lemma_first_at(whole, field, 0);
    assert(first_at(whole, field, 0) == Some(n));
    assert(whole.take(n) =~= w);
    assert(whole.skip(n + field.len()) =~= Seq::<char>::empty());
    let nothing = Seq::<char>::empty();
    lemma_first_at(nothing, field, 0);
    assert(pieces(nothing, field) =~= seq![nothing]);
    assert(pieces(whole, field) =~= seq![w, nothing]);
    assert(joined(seq![w, nothing], ""@) =~= w) by {
        assert(seq![w, nothing].drop_last() =~= seq![w]);
        assert(joined(seq![w], ""@) == w);
    }
    halving_undoes_escaping(without_ext);
}

/// No version is older than itself, and of two one at most is older.
pub proof fn being_older_is_strict(a: Seq<u64>, b: Seq<u64>)
    ensures
        !is_older(a, a),
        !(is_older(a, b) && is_older(b, a)),
{
    lemma_less_strict(first_three(a), first_three(b));
    lemma_less_strict(first_three(a), first_three(a));
}

proof fn lemma_less_strict(a: Seq<u64>, b: Seq<u64>)
    ensures
        !(numbers_less(a, b) && numbers_less(b, a)),
    decreases a.len(),
{
    if a.len() > 0 && b.len() > 0 && a[0] == b[0] {
        lemma_less_strict(a.skip(1), b.skip(1));
    }
}

// ---------------- laws of times ----------------

proof fn lemma_digits_hold_no(d: Seq<char>, c: char)
    requires
        all_digits(d),
        !is_digit(c),
    ensures
        !d.contains(c),
{
    if d.contains(c) {
        let i = choose|i: int| 0 <= i < d.len() && d[i] == c;
        assert(is_digit(d[i]));
    }
}

proof fn lemma_unpointed(s: Seq<char>)
    requires
        s.len() > 0,
        is_digit(s[0]),
        is_digit(s.last()),
        !s.contains(','),
    ensures
        pointed(s) == s,
{
    reveal_strlit(",");
    assert(","@ =~= seq![',']);
    lemma_trimmed_stays(s);
    lemma_one_piece(s, ',');
    assert(pieces(s, ","@) =~= seq![s]);
}

proof fn lemma_clock_pieces(h: Seq<char>, m: Seq<char>, s: Seq<char>)
    requires
        all_digits(h) && h.len() > 0,
        all_digits(m),
        s.len() > 0 && is_digit(s.last()),
        !s.contains(':') && !s.contains(','),
    ensures
        ({
            let t = h.push(':') + m.push(':') + s;
            &&& pointed(t) == t
            &&& pieces(t, ":"@) == seq![h, m, s]
        }),
{
    let t = h.push(':') + m.push(':') + s;
    reveal_strlit(":");
    assert(":"@ =~= seq![':']);
    lemma_digits_hold_no(h, ':');
    lemma_digits_hold_no(m, ':');
    lemma_digits_hold_no(h, ',');
    lemma_digits_hold_no(m, ',');
    assert(t =~= h.push(':') + (m.push(':') + s));
    lemma_first_piece(h, ':', m.push(':') + s);
    lemma_first_piece(m, ':', s);
    lemma_one_piece(s, ':');
    assert(pieces(t, ":"@) =~= seq![h, m, s]);
    assert(t[0] == h[0] && is_digit(h[0]));
    assert(t.last() == s.last());
    if t.contains(',') {
        let i = choose|i: int| 0 <= i < t.len() && t[i] == ',';
        if i < h.len() {
            assert(h[i] == ',');
        } else if i == h.len() {
        } else if i < h.len() + 1 + m.len() {
            assert(m[i - h.len() - 1] == ',');
        } else if i == h.len() + 1 + m.len() {
        } else {
            assert(s[i - h.len() - m.len() - 2] == ',');
        }
    }
    lemma_unpointed(t);
}

proof fn lemma_uncut(d: Seq<char>)
    requires
        all_digits(d),
    ensures
        cut_first(d, "."@) is None,
{
    reveal_strlit(".");
    lemma_digits_hold_no(d, '.');
    lemma_first_at(d, "."@, 0);
    if let Some(i) = first_at(d, "."@, 0) {
        assert(d.subrange(i, i + 1)[0] == '.');
        assert(d[i] == '.');
    }
}

/// A time that is written as hours, minutes and seconds is read again as the
/// same number of seconds.
pub proof fn a_clock_reads_back(total: nat)
    ensures
        ({
            match hms_parts(clock_text(total)) {
                Some((h, m, s)) => hms_value(h, m, s) == total * 1_000_000_000,
                None => false,
            }
        }),
{
    let h = dec(total / 3600);
    let m = dec2((total % 3600) / 60);
    let s = dec2(total % 60);
    dec_reads_back(total / 3600);
    leading_zeros_say_nothing((total % 3600) / 60);
    leading_zeros_say_nothing(total % 60);
    assert(clock_text(total) =~= h.push(':') + m.push(':') + s);
    assert(s.len() == 2 && m.len() == 2);
    assert(is_digit(s[1]));
    lemma_digits_hold_no(s, ':');
    lemma_digits_hold_no(s, ',');
    lemma_clock_pieces(h, m, s);
    lemma_uncut(s);
    assert(total == total / 3600 * 3600 + (total % 3600) / 60 * 60 + total % 60) by {
        assert((total % 3600) % 60 == total % 60);
    }
}

/// The time that has passed is read again cut to hundredths of a second.
pub proof fn an_elapsed_time_reads_back(ns: nat)
    ensures
        ({
            let text = clock_text(ns / 1_000_000_000).push('.') + dec2(
                (ns % 1_000_000_000) / 10_000_000,
            );
            match hms_parts(text) {
                Some((h, m, s)) => hms_value(h, m, s) == ns - ns % 10_000_000,
                None => false,
            }
        }),
{
    let total = ns / 1_000_000_000;
    let frac = (ns % 1_000_000_000) / 10_000_000;
    let h = dec(total / 3600);
    let m = dec2((total % 3600) / 60);
    let a = dec2(total % 60);
    let b = dec2(frac);
    let s = a.push('.') + b;
    let text = clock_text(total).push('.') + b;
    dec_reads_back(total / 3600);
    leading_zeros_say_nothing((total % 3600) / 60);
    leading_zeros_say_nothing(total % 60);
    leading_zeros_say_nothing(frac);
    assert(text =~= h.push(':') + m.push(':') + s);
    assert(b.len() == 2 && a.len() == 2);
    assert(is_digit(b[0]) && is_digit(b[1]) && s.last() == b[1]);
    assert forall|i: int| 0 <= i < s.len() implies #[trigger] s[i] != ':' && s[i] != ',' by {
        if i < 2 {
            assert(is_digit(a[i]));
        } else if i > 2 {
            assert(is_digit(b[i - 3]));
        }
    }
    lemma_clock_pieces(h, m, s);
    reveal_strlit(".");
    assert("."@ =~= seq!['.']);
    lemma_digits_hold_no(a, '.');
    assert(s.subrange(2, 3) =~= "."@);
    assert forall|j: int| 0 <= j < 2 implies !is_at(s, "."@, j) by {
        if is_at(s, "."@, j) {
            assert(s.subrange(j, j + 1)[0] == '.');
            assert(is_digit(a[j]));
        }
    }
    lemma_first_is(s, "."@, 2);
    assert(s.take(2) =~= a);
    assert(s.skip(3) =~= b);
    reveal_with_fuel(billionths, 10);
    reveal_with_fuel(digits_value, 3);
    assert(b.drop_last() =~= seq![b[0]]);
    assert(b.drop_last().drop_last() =~= seq![]);
    assert(billionths(b, 9) == frac * 10_000_000);
    assert(total == total / 3600 * 3600 + (total % 3600) / 60 * 60 + total % 60) by {
        assert((total % 3600) % 60 == total % 60);
    }
    assert(ns == total * 1_000_000_000 + ns % 1_000_000_000);
    assert((ns % 1_000_000_000) % 10_000_000 == ns % 10_000_000);
}

/// A remaining time below an hour is minutes and seconds, and one above has the
/// hours in front; each part has two digits, and together they are the time.
pub proof fn a_remaining_time_reads_back(total: nat)
    ensures
        total < 3600 ==> exists|m: Seq<char>, s: Seq<char>|
            {
                &&& eta_text(total) == #[trigger] (m.push(':') + s)
                &&& m.len() == 2 && s.len() == 2 && all_digits(m) && all_digits(s)
                &&& digits_value(m) * 60 + digits_value(s) == total
                &&& digits_value(s) < 60
            },
        total >= 3600 ==> {
            match hms_parts(eta_text(total)) {
                Some((h, m, s)) => hms_value(h, m, s) == total * 1_000_000_000,
                None => false,
            }
        },
{
    let mm = total / 60;
    let h = dec2(mm / 60);
    let m = dec2(mm % 60);
    let s = dec2(total % 60);
    leading_zeros_say_nothing(mm / 60);
    leading_zeros_say_nothing(mm % 60);
    leading_zeros_say_nothing(total % 60);
    assert(m.len() == 2 && s.len() == 2);
    if total < 3600 {
        assert(mm < 60);
        assert(eta_text(total) == m.push(':') + s);
    } else {
        assert(mm / 60 > 0);
        dec_reads_back(mm / 60);
        assert(h.len() > 0);
        assert(eta_text(total) =~= h.push(':') + m.push(':') + s);
        assert(is_digit(s[1]));
        lemma_digits_hold_no(s, ':');
        lemma_digits_hold_no(s, ',');
        lemma_clock_pieces(h, m, s);
        lemma_uncut(s);
        assert(total == mm / 60 * 3600 + mm % 60 * 60 + total % 60);
    }
}

/// A typed time of hours, minutes and seconds is that many; a comma counts as a
/// point, and white space does not count.
pub proof fn typed_parts_add_up(h: i64, m: i64, s: i64)
    ensures
        sixtieths(seq![Some(s)]) == s,
        sixtieths(seq![Some(m), Some(s)]) == 60 * m + s,
        sixtieths(seq![Some(h), Some(m), Some(s)]) == 3600 * h + 60 * m + s,
{
    reveal_with_fuel(sixtieths, 4);
    let a = seq![Some(h), Some(m), Some(s)];
    let b = seq![Some(m), Some(s)];
    let c = seq![Some(s)];
    assert(a.drop_last() =~= seq![Some(h), Some(m)]);
    assert(a.drop_last().drop_last() =~= seq![Some(h)]);
    assert(a.drop_last().drop_last().drop_last() =~= seq![]);
    assert(b.drop_last() =~= seq![Some(m)]);
    assert(b.drop_last().drop_last() =~= seq![]);
    assert(c.drop_last() =~= seq![]);
}

/// A length of time is shown in whole seconds, to the nearest.
pub proof fn seconds_are_shown_to_the_nearest(ns: int)
    requires
        0 <= ns,
    ensures
        -500_000_000 <= whole_seconds(ns) * 1_000_000_000 - ns <= 500_000_000,
        ns % 1_000_000_000 == 0 ==> whole_seconds(ns) == ns / 1_000_000_000,
{
}

// ---------------- laws of sizes ----------------

/// A size below a kilobyte is shown in bytes, and every larger one in the
/// largest unit of which it has one, to a tenth: what is shown is off by half a
/// tenth at most. Sizes beyond 2^53 bytes are left out.
pub proof fn a_size_is_shown_to_a_tenth(n: nat) -> (t: nat)
    requires
        n < 0x20_0000_0000_0000,
    ensures
        ({
            let unit: nat = if n < 0x10_0000 {
                1024
            } else if n < 0x4000_0000 {
                1024 * 1024
            } else {
                1024 * 1024 * 1024
            };
            let name = if n < 0x10_0000 {
                " KB"@
            } else if n < 0x4000_0000 {
                " MB"@
            } else {
                " GB"@
            };
            &&& n < 1024 ==> bytes_text(n) == dec(n) + " B"@
            &&& n >= 1024 ==> bytes_text(n) == dec(t / 10) + seq!['.'] + dec(t % 10) + name
            &&& 2 * t * unit <= 20 * n + unit
            &&& 20 * n <= 2 * t * unit + unit
        }),
{
    let unit: nat = if n < 0x10_0000 {
        1024
    } else if n < 0x4000_0000 {
        1024 * 1024
    } else {
        1024 * 1024 * 1024
    };
    assert(double_step(n) == 1);
    rounding_is_off_by_half_at_most(n, 1);
    assert(as_double(n) == n);
    let t = nearest(10 * n, unit);
    rounding_is_off_by_half_at_most(10 * n, unit);
    assert(2 * t * unit == 2 * (t * unit)) by (nonlinear_arith);
    if n >= 1024 {
        assert(tenths_text(n, unit) =~= dec(t / 10) + seq!['.'] + dec(t % 10));
    }
    t
}

// ---------------- laws of names ----------------

/// Two numbered copies of a file are two files, and neither is the file.
pub proof fn copies_are_told_apart(stem: Seq<char>, ext: Option<Seq<char>>, m: nat, n: nat)
    requires
        m != n,
    ensures
        numbered(stem, ext, m) != numbered(stem, ext, n),
        numbered(stem, ext, m) != (match ext {
            Some(e) => stem + "."@ + e,
            None => stem,
        }),
{
    reveal_strlit(" (");
    reveal_strlit(")");
    dec_injective(m, n);
    dec_reads_back(m);
    dec_reads_back(n);
    let a = numbered(stem, ext, m);
    let b = numbered(stem, ext, n);
    let tail = match ext {
        Some(e) => ")"@ + "."@ + e,
        None => ")"@,
    };
    assert(a =~= stem + " ("@ + dec(m) + tail);
    assert(b =~= stem + " ("@ + dec(n) + tail);
    let k = stem.len() as int + 2;
    if a == b {
        assert(dec(m).len() == dec(n).len());
        assert(a.subrange(k, k + dec(m).len()) =~= dec(m));
        assert(b.subrange(k, k + dec(n).len()) =~= dec(n));
    }
    assert(a.len() > stem.len() + 3 + (match ext {
        Some(e) => ("."@ + e).len() as int,
        None => 0,
    }) - 1);
}

/// The number of a copy stands in brackets behind the stem, and the extension
/// behind that.
pub proof fn a_copy_is_numbered_in_brackets(stem: Seq<char>, e: Seq<char>, n: nat)
    ensures
        numbered(stem, Some(e), n) == stem + seq![' ', '('] + dec(n) + seq![')', '.'] + e,
        numbered(stem, None, n) == stem + seq![' ', '('] + dec(n) + seq![')'],
{
    reveal_strlit(" (");
    reveal_strlit(")");
    reveal_strlit(".");
    assert(numbered(stem, Some(e), n) =~= stem + seq![' ', '('] + dec(n) + seq![')', '.'] + e);
    assert(numbered(stem, None, n) =~= stem + seq![' ', '('] + dec(n) + seq![')']);
}

/// A neutral name carries a number from one to 9999, and each of them can be
/// drawn.
pub proof fn neutral_names_have_small_numbers(draw: u64, n: u64)
    ensures
        1 <= drawn(draw) <= 9999,
        1 <= n <= 9999 ==> drawn((n - 1) as u64) == n,
        anon_name(n as nat) == "video-"@ + dec(n as nat),
        ANON_MAX == 9999,
{
}

/// A name loses its extension exactly when that is one of media files, in
/// whatever case.
pub proof fn only_media_extensions_go(stem: Seq<char>, e: Seq<char>)
    requires
        stem.len() > 0,
        !e.contains('.'),
    ensures
        ({
            let l = lowered(e);
            let media = l == "mp4"@ || l == "mkv"@ || l == "webm"@ || l == "mov"@ || l == "m4v"@ || l
                == "avi"@ || l == "flv"@ || l == "ts"@ || l == "mp3"@ || l == "m4a"@ || l == "wav"@
                || l == "opus"@ || l == "flac"@ || l == "aac"@ || l == "ogg"@ || l == "oga"@;
            &&& media ==> without_media_ext(stem.push('.') + e) == stem
            &&& !media ==> without_media_ext(stem.push('.') + e) == stem.push('.') + e
        }),
{
    lemma_named(stem, e);
    assert(MEDIA_EXTS@[0]@ == "mp4"@ && MEDIA_EXTS@[1]@ == "mkv"@ && MEDIA_EXTS@[2]@ == "webm"@);
    assert(MEDIA_EXTS@[3]@ == "mov"@ && MEDIA_EXTS@[4]@ == "m4v"@ && MEDIA_EXTS@[5]@ == "avi"@);
    assert(MEDIA_EXTS@[6]@ == "flv"@ && MEDIA_EXTS@[7]@ == "ts"@ && MEDIA_EXTS@[8]@ == "mp3"@);
    assert(MEDIA_EXTS@[9]@ == "m4a"@ && MEDIA_EXTS@[10]@ == "wav"@ && MEDIA_EXTS@[11]@ == "opus"@);
    assert(MEDIA_EXTS@[12]@ == "flac"@ && MEDIA_EXTS@[13]@ == "aac"@ && MEDIA_EXTS@[14]@ == "ogg"@);
    assert(MEDIA_EXTS@[15]@ == "oga"@ && MEDIA_EXTS@.len() == 16);
}

/// These characters, and those below the space, may stand in no file name; every
/// other may. In a cleaned name an underscore stands in their place.
pub proof fn these_characters_are_illegal(c: char)
    ensures
        is_illegal(c) <==> c == '<' || c == '>' || c == ':' || c == '"' || c == '/' || c == '\\' || c
            == '|' || c == '?' || c == '*' || (c as u32) < 32,
        is_illegal(c) ==> legal(c) == '_',
        !is_illegal(c) ==> legal(c) == c,
{
    reveal_strlit("<>:\"/\\|?*");
    let set = ILLEGAL_FS_CHARS@;
    assert(set.len() == 9);
    assert(set[0] == '<' && set[1] == '>' && set[2] == ':' && set[3] == '"' && set[4] == '/');
    assert(set[5] == '\\' && set[6] == '|' && set[7] == '?' && set[8] == '*');
}

/// These names stand for devices, and no other.
pub proof fn these_names_are_reserved(l: Seq<char>)
    ensures
        is_reserved(l) <==> l == "con"@ || l == "prn"@ || l == "aux"@ || l == "nul"@
            || l == "com1"@ || l == "com2"@ || l == "com3"@ || l == "com4"@ || l == "com5"@
            || l == "com6"@ || l == "com7"@ || l == "com8"@ || l == "com9"@ || l == "lpt1"@
            || l == "lpt2"@ || l == "lpt3"@ || l == "lpt4"@ || l == "lpt5"@ || l == "lpt6"@
            || l == "lpt7"@ || l == "lpt8"@ || l == "lpt9"@,
{
    assert(RESERVED_STEMS@[0]@ == "con"@);
    assert(RESERVED_STEMS@[1]@ == "prn"@);
    assert(RESERVED_STEMS@[2]@ == "aux"@);
    assert(RESERVED_STEMS@[3]@ == "nul"@);
    assert(RESERVED_STEMS@[4]@ == "com1"@);
    assert(RESERVED_STEMS@[5]@ == "com2"@);
    assert(RESERVED_STEMS@[6]@ == "com3"@);
    assert(RESERVED_STEMS@[7]@ == "com4"@);
    assert(RESERVED_STEMS@[8]@ == "com5"@);
    assert(RESERVED_STEMS@[9]@ == "com6"@);
    assert(RESERVED_STEMS@[10]@ == "com7"@);
    assert(RESERVED_STEMS@[11]@ == "com8"@);
    assert(RESERVED_STEMS@[12]@ == "com9"@);
    assert(RESERVED_STEMS@[13]@ == "lpt1"@);
    assert(RESERVED_STEMS@[14]@ == "lpt2"@);
    assert(RESERVED_STEMS@[15]@ == "lpt3"@);
    assert(RESERVED_STEMS@[16]@ == "lpt4"@);
    assert(RESERVED_STEMS@[17]@ == "lpt5"@);
    assert(RESERVED_STEMS@[18]@ == "lpt6"@);
    assert(RESERVED_STEMS@[19]@ == "lpt7"@);
    assert(RESERVED_STEMS@[20]@ == "lpt8"@);
    assert(RESERVED_STEMS@[21]@ == "lpt9"@);
    assert(RESERVED_STEMS@.len() == 22);
}

/// A name that needs no cleaning stays as it is: short enough, with nothing
/// illegal in it, no white space in front and neither white space nor a point
/// at its end, and no device.
pub proof fn a_clean_name_stays(name: Seq<char>)
    requires
        0 < name.len() <= 200,
        forall|i: int| 0 <= i < name.len() ==> !is_illegal(#[trigger] name[i]),
        !is_space(name[0]),
        !is_space(name.last()) && name.last() != '.',
        !is_reserved(lowered(first_part(name))),
    ensures
        sanitized(name) == name,
{
    let n: int = if name.len() < NAME_CHARS {
        name.len() as int
    } else {
        NAME_CHARS as int
    };
    assert(name.take(n) =~= name);
    assert(name.map_values(|c: char| legal(c)) =~= name);
    assert(!fading()(name.last()));
    assert(tidied(name) == name);
}

/// A name longer than two hundred characters is cut there.
pub proof fn a_long_name_is_cut(name: Seq<char>)
    ensures
        tidied(name).len() <= 200,
        name.len() > 200 ==> tidied(name) == tidied(name.take(200)),
{
    lemma_tidied(name);
    if name.len() > 200 {
        assert(name.take(200).take(200) =~= name.take(200));
    }
}

// ---------------- laws of versions ----------------

/// A dated version is older than another by the first of year, month and day in
/// which they differ; what follows the day does not count.
pub proof fn the_date_decides_which_is_older(a: Seq<u64>, b: Seq<u64>)
    requires
        a.len() >= 3,
        b.len() >= 3,
    ensures
        is_older(a, b) <==> a[0] < b[0] || (a[0] == b[0] && (a[1] < b[1] || (a[1] == b[1] && a[2]
            < b[2]))),
{
    reveal_with_fuel(numbers_less, 4);
    let x = first_three(a);
    let y = first_three(b);
    assert(x.skip(1)[0] == a[1] && y.skip(1)[0] == b[1]);
    assert(x.skip(1).skip(1)[0] == a[2] && y.skip(1).skip(1)[0] == b[2]);
    assert(x.skip(1).skip(1).skip(1).len() == 0 && y.skip(1).skip(1).skip(1).len() == 0);
}

proof fn lemma_run_then(d: Seq<char>, rest: Seq<char>)
    requires
        all_digits(d),
        rest.len() == 0 || !is_digit(rest[0]),
    ensures
        run_len(d + rest) == d.len(),
    decreases d.len(),
{
    if d.len() == 0 {
        assert(d + rest =~= rest);
    } else {
        assert((d + rest)[0] == d[0]);
        assert(is_digit(d[0]));
        assert((d + rest).skip(1) =~= d.skip(1) + rest);
        lemma_run_then(d.skip(1), rest);
    }
}

proof fn lemma_runs(d: Seq<char>, rest: Seq<char>)
    requires
        all_digits(d),
        d.len() > 0,
        rest.len() == 0 || !is_digit(rest[0]),
    ensures
        digit_runs(d + rest) == seq![d] + digit_runs(rest),
{
    lemma_run_then(d, rest);
    assert((d + rest).take(d.len() as int) =~= d);
    assert((d + rest).skip(d.len() as int) =~= rest);
}

/// A version that is written with points between its numbers is read as those
/// numbers, each as a whole.
pub proof fn a_version_is_read_by_its_numbers(a: u64, b: u64, c: u64)
    ensures
        version_of(
            digit_runs(
                dec(a as nat) + (seq!['.'] + (dec(b as nat) + (seq!['.'] + dec(c as nat)))),
            ),
        ) == seq![a, b, c],
{
    let x = dec(a as nat);
    let y = dec(b as nat);
    let z = dec(c as nat);
    dec_reads_back(a as nat);
    dec_reads_back(b as nat);
    dec_reads_back(c as nat);
    let none = Seq::<char>::empty();
    assert(z =~= z + none);
    lemma_runs(z, none);
    assert(digit_runs(none) =~= seq![]);
    let p = seq!['.'] + z;
    assert(p.skip(1) =~= z);
    assert(run_len(p) == 0);
    assert(digit_runs(p) == digit_runs(z));
    lemma_runs(y, p);
    let q = seq!['.'] + (y + p);
    assert(q.skip(1) =~= y + p);
    assert(run_len(q) == 0);
    assert(digit_runs(q) == digit_runs(y + p));
    lemma_runs(x, q);
    let runs = digit_runs(x + q);
    assert(runs =~= seq![x, y, z]);
    parse_undoes_text(a);
    parse_undoes_text(b);
    parse_undoes_text(c);
    reveal_with_fuel(numbers_of, 4);
    assert(runs.drop_last() =~= seq![x, y]);
    assert(runs.drop_last().drop_last() =~= seq![x]);
    assert(runs.drop_last().drop_last().drop_last() =~= seq![]);
    assert(numbers_of(runs) =~= seq![a, b, c]);
}

/// The extension that a choice of sound ends up with is the one of its format,
/// for a download as for a conversion.
pub proof fn sound_has_the_extension_of_its_format(q: Seq<char>)
    ensures
        audio_ext_of_quality("audio"@) == Some("mp3"@),
        audio_ext_of_quality("audio_wav"@) == Some("wav"@),
        audio_ext_of_quality("audio_opus"@) == Some("opus"@),
        audio_ext_of_codec("audio_mp3"@) == Some("mp3"@),
        audio_ext_of_codec("audio_wav"@) == Some("wav"@),
        audio_ext_of_quality(q) is Some ==> q == "audio"@ || q == "audio_wav"@ || q
            == "audio_opus"@,
        audio_ext_of_codec(q) is Some ==> q == "audio_mp3"@ || q == "audio_wav"@,
{
    reveal_strlit("audio");
    reveal_strlit("audio_wav");
    reveal_strlit("audio_opus");
    reveal_strlit("audio_mp3");
    assert("audio"@.len() == 5 && "audio_wav"@.len() == 9 && "audio_opus"@.len() == 10);
    assert("audio_mp3"@[6] == 'm' && "audio_wav"@[6] == 'w');
}

/// A time that remains is told in whole seconds, and dashes where there is none.
pub proof fn an_unknown_time_is_dashes(n: i64)
    ensures
        remaining_text(None) == "--:--"@,
        n < 0 ==> remaining_text(Some(n)) == "--:--"@,
        n >= 0 ==> remaining_text(Some(n)) == eta_text((n / 1_000_000_000) as nat),
{
}

/// The time that has passed is read again cut to hundredths of a second, and
/// does not run backwards.
pub proof fn a_passed_time_reads_back(ns: i64)
    ensures
        ns < 0 ==> passed_text(ns) == "0:00:00.00"@,
        ns >= 0 ==> match hms_parts(passed_text(ns)) {
            Some((h, m, s)) => hms_value(h, m, s) == ns - ns % 10_000_000,
            None => false,
        },
{
    if ns >= 0 {
        an_elapsed_time_reads_back(ns as nat);
    }
}

/// The fields of a time add up where each of them is a number that is not below
/// zero, and are no time otherwise.
pub proof fn fields_add_up_where_each_is_a_number(h: i64, m: i64, s: i64, v: Seq<Option<i64>>, i: int)
    ensures
        h >= 0 && m >= 0 && s >= 0 && 3600 * h + 60 * m + s <= i64::MAX ==> time_of(
            seq![Some(h), Some(m), Some(s)],
        ) == Some(3600 * h + 60 * m + s),
        m >= 0 && s >= 0 && 60 * m + s <= i64::MAX ==> time_of(seq![Some(m), Some(s)]) == Some(
            60 * m + s,
        ),
        0 <= i < v.len() && (v[i] is None || v[i]->0 < 0) ==> time_of(v) is None,
{
    typed_parts_add_up(h, m, s);
}

/// A typed time falls into its fields at the colons; more than three, or
/// nothing at all, are no time.
pub proof fn a_typed_time_falls_into_its_fields(h: nat, m: nat, s: nat)
    ensures
        time_field_list(dec(h).push(':') + dec(m).push(':') + dec(s)) == Some(
            seq![dec(h), dec(m), dec(s)],
        ),
        time_field_list(Seq::empty()) is None,
{
    dec_reads_back(h);
    dec_reads_back(m);
    dec_reads_back(s);
    assert(is_digit(dec(h)[0]) && is_digit(dec(m)[0]) && is_digit(dec(s)[0]));
    assert(is_digit(dec(h).last())) by {
        assert(dec(h).last() == dec(h)[dec(h).len() - 1]);
    }
    assert(is_digit(dec(m).last())) by {
        assert(dec(m).last() == dec(m)[dec(m).len() - 1]);
    }
    assert(is_digit(dec(s).last())) by {
        assert(dec(s).last() == dec(s)[dec(s).len() - 1]);
    }
    lemma_digits_hold_no(dec(s), ':');
    lemma_digits_hold_no(dec(s), ',');
    lemma_clock_pieces(dec(h), dec(m), dec(s));
    lemma_trimmed_stays(dec(h));
    lemma_trimmed_stays(dec(m));
    lemma_trimmed_stays(dec(s));
    let t = dec(h).push(':') + dec(m).push(':') + dec(s);
    assert(t.len() > 0);
    assert(trimmed_all(seq![dec(h), dec(m), dec(s)]) =~= seq![dec(h), dec(m), dec(s)]);
    let e = Seq::<char>::empty();
    lemma_trimmed_stays(e);
    reveal_strlit(",");
    assert(","@ =~= seq![',']);
    lemma_one_piece(e, ',');
    assert(pieces(e, ","@) =~= seq![e]);
    assert(pointed(e) == e);
}

/// A whole number and one with a point are numbers; a text without digits is
/// none.
pub proof fn numbers_are_digits_around_a_point(a: nat, b: nat)
    ensures
        is_number(dec(a)),
        is_number(dec(a).push('.') + dec(b)),
        !is_number(Seq::empty()),
{
    dec_reads_back(a);
    dec_reads_back(b);
    lemma_uncut(dec(a));
    reveal_strlit(".");
    assert("."@ =~= seq!['.']);
    let x = dec(a);
    let s = x.push('.') + dec(b);
    let n = x.len() as int;
    lemma_digits_hold_no(x, '.');
    assert(s.subrange(n, n + 1) =~= "."@);
    assert forall|j: int| 0 <= j < n implies !is_at(s, "."@, j) by {
        if is_at(s, "."@, j) {
            assert(s.subrange(j, j + 1)[0] == '.');
            assert(x[j] == '.');
        }
    }
    lemma_first_is(s, "."@, n);
    assert(s.take(n) =~= x);
    assert(s.skip(n + 1) =~= dec(b));
    let e = Seq::<char>::empty();
    lemma_uncut(e);
}

proof fn lemma_free_at(taken: Seq<Seq<char>>, draws: Seq<u64>, at: int, i: int)
    requires
        0 <= at <= i <= draws.len(),
        forall|j: int|
            at <= j < i ==> taken.contains(anon_name(drawn(#[trigger] draws[j]))),
        i < draws.len() ==> !taken.contains(anon_name(drawn(draws[i]))),
    ensures
        free_draw(taken, draws, at) == (if i < draws.len() {
            Some(drawn(draws[i]))
        } else {
            None
        }),
    decreases i - at,
{
    if at < i {
        lemma_free_at(taken, draws, at + 1, i);
    }
}

proof fn lemma_gap_at(taken: Seq<Seq<char>>, at: nat, n: nat)
    requires
        at <= n <= 9999,
        forall|k: nat| at <= k < n ==> taken.contains(#[trigger] anon_name(k)),
        !taken.contains(anon_name(n)),
    ensures
        free_gap(taken, at) == Some(n),
    decreases n - at,
{
    if at < n {
        assert(taken.contains(anon_name(at)));
        lemma_gap_at(taken, at + 1, n);
    }
}

/// The first drawn number whose name is free is taken; where none is, the lowest
/// number that is free.
pub proof fn the_first_free_number_is_taken(
    taken: Seq<Seq<char>>,
    draws: Seq<u64>,
    now: nat,
    i: int,
    n: nat,
)
    requires
        0 <= i <= draws.len(),
        forall|j: int|
            0 <= j < i ==> taken.contains(anon_name(drawn(#[trigger] draws[j]))),
        i < draws.len() ==> !taken.contains(anon_name(drawn(draws[i]))),
        1 <= n <= 9999,
        forall|k: nat| 1 <= k < n ==> taken.contains(#[trigger] anon_name(k)),
        !taken.contains(anon_name(n)),
    ensures
        i < draws.len() ==> anon_number(taken, draws, now) == drawn(draws[i]),
        i == draws.len() ==> anon_number(taken, draws, now) == n,
{
    lemma_free_at(taken, draws, 0, i);
    lemma_gap_at(taken, 1, n);
}

/// A time that is written as hours, minutes and seconds is that many of each,
/// and so is the clock that shows it.
pub proof fn an_hour_has_sixty_minutes(h: nat, m: nat, s: nat)
    requires
        m < 60,
        s < 60,
    ensures
        hms_value(dec(h), dec(m), dec(s)) == (3600 * h + 60 * m + s) * 1_000_000_000,
        clock_text(3600 * h + 60 * m + s) == dec(h).push(':') + dec2(m).push(':') + dec2(s),
        h > 0 ==> eta_text(3600 * h + 60 * m + s) == dec2(h).push(':') + (dec2(m).push(':')
            + dec2(s)),
        eta_text(60 * m + s) == dec2(m).push(':') + dec2(s),
{
    dec_reads_back(h);
    dec_reads_back(m);
    dec_reads_back(s);
    lemma_uncut(dec(s));
    let t = 3600 * h + 60 * m + s;
    assert(t / 3600 == h);
    assert(t % 3600 == 60 * m + s);
    assert((60 * m + s) / 60 == m);
    assert(t % 60 == s);
    assert(t / 60 == 60 * h + m);
    assert((60 * h + m) / 60 == h && (60 * h + m) % 60 == m);
    assert((60 * m + s) % 60 == s);
    assert(m / 60 == 0 && m % 60 == m);
}

/// A percent sign is doubled in a template, and nothing else changes.
pub proof fn a_percent_sign_is_doubled(a: Seq<char>, b: Seq<char>)
    requires
        !a.contains('%'),
    ensures
        escaped(a) == a,
        escaped(a + seq!['%'] + b) == a + seq!['%', '%'] + escaped(b),
        template_of(a) == a + ".%(ext)s"@,
{
    reveal_strlit("%");
    reveal_strlit("%%");
    assert("%"@ =~= seq!['%']);
    assert("%%"@ =~= seq!['%', '%']);
    lemma_one_piece(a, '%');
    assert(pieces(a, "%"@) =~= seq![a]);
    assert(a + seq!['%'] + b =~= a.push('%') + b);
    lemma_first_piece(a, '%', b);
    lemma_pieces_nonempty(b, "%"@);
    lemma_joined_front(a, pieces(b, "%"@), "%%"@);
}

/// A name for a device gets an underscore in front; any other stays.
pub proof fn a_device_gets_an_underscore(tidy: Seq<char>, lower: Seq<char>)
    ensures
        is_reserved(lower) ==> safe_name(tidy, lower) == seq!['_'] + tidy,
        !is_reserved(lower) ==> safe_name(tidy, lower) == tidy,
{
}

/// A version without numbers is zero, and one without a date is older than
/// none.
pub proof fn a_version_without_a_date_is_not_older(a: Seq<u64>, b: Seq<u64>)
    ensures
        version_of(seq![]) == seq![0u64],
        a.len() < 3 ==> !is_older(a, b),
{
    assert(numbers_of(Seq::<Seq<char>>::empty()) =~= seq![]);
}

/// A speed is read without the letter behind it.
pub proof fn a_speed_is_read_without_its_letter(n: Seq<char>)
    requires
        n.len() > 0,
        !n.contains('x'),
        !is_space(n[0]) && !is_space(n.last()),
    ensures
        speed_number(n.push('x')) == n,
        speed_number(n) == n,
{
    reveal_strlit("x");
    reveal_strlit("");
    assert("x"@ =~= seq!['x']);
    let e = Seq::<char>::empty();
    assert(""@ =~= e);
    lemma_one_piece(n, 'x');
    lemma_one_piece(e, 'x');
    lemma_first_piece(n, 'x', e);
    assert(n.push('x') + e =~= n.push('x'));
    assert(pieces(n, "x"@) =~= seq![n]);
    assert(pieces(n.push('x'), "x"@) =~= seq![n, e]);
    assert(seq![n, e].drop_last() =~= seq![n]);
    assert(joined(seq![n], e) == n);
    assert(joined(seq![n, e], e) =~= n);
    lemma_trimmed_stays(n);
}

/// A number has digits on both sides of its point, and a time three fields.
pub proof fn halves_of_a_number_are_none(a: nat, b: nat)
    ensures
        !is_number(dec(a).push('.')),
        !is_number(seq!['.'] + dec(a)),
        hms_parts(dec(a).push(':') + dec(b)) is None,
        hms_parts(dec(a)) is None,
{
    dec_reads_back(a);
    dec_reads_back(b);
    reveal_strlit(".");
    reveal_strlit(":");
    reveal_strlit(",");
    assert("."@ =~= seq!['.']);
    assert(":"@ =~= seq![':']);
    assert(","@ =~= seq![',']);
    let x = dec(a);
    let y = dec(b);
    let n = x.len() as int;
    let s = x.push('.');
    lemma_digits_hold_no(x, '.');
    assert(s.subrange(n, n + 1) =~= "."@);
    assert forall|j: int| 0 <= j < n implies !is_at(s, "."@, j) by {
        if is_at(s, "."@, j) {
            assert(s.subrange(j, j + 1)[0] == '.');
            assert(x[j] == '.');
        }
    }
    lemma_first_is(s, "."@, n);
    assert(s.skip(n + 1) =~= Seq::<char>::empty());
    let t = seq!['.'] + x;
    assert(t.subrange(0, 1) =~= "."@);
    lemma_first_is(t, "."@, 0);
    assert(t.take(0) =~= Seq::<char>::empty());
    lemma_digits_hold_no(x, ':');
    lemma_digits_hold_no(y, ':');
    lemma_digits_hold_no(x, ',');
    lemma_digits_hold_no(y, ',');
    let c = x.push(':') + y;
    assert(is_digit(x[0]) && is_digit(y[y.len() - 1]) && is_digit(x[x.len() - 1]));
    assert(c[0] == x[0] && c.last() == y[y.len() - 1]);
    if c.contains(',') {
        let i = choose|i: int| 0 <= i < c.len() && c[i] == ',';
        if i < x.len() {
            assert(x[i] == ',');
        } else if i > x.len() {
            assert(y[i - x.len() - 1] == ',');
        }
    }
    lemma_unpointed(c);
    lemma_first_piece(x, ':', y);
    lemma_one_piece(y, ':');
    assert(pieces(c, ":"@) =~= seq![x, y]);
    assert(x.last() == x[x.len() - 1]);
    lemma_unpointed(x);
    lemma_one_piece(x, ':');
    assert(pieces(x, ":"@) =~= seq![x]);
}

/// A speed is read without white space around it.
pub proof fn a_speed_has_no_white_space_around_it(s: Seq<char>)
    ensures
        speed_number(s).len() > 0 ==> !is_space(speed_number(s)[0]) && !is_space(
            speed_number(s).last(),
        ),
{
    let r = replaced(s, "x"@, ""@);
    let a = trimmed_start(r, spaces());
    lemma_trimmed_start(r, spaces());
    lemma_trimmed_end(a, spaces());
    let t = trimmed(r);
    if t.len() > 0 {
        assert(t[0] == a[0]);
        assert(!spaces()(a[0]));
        assert(!spaces()(t.last()));
    }
}

/// A copy of a path is one on the same system.
pub proof fn a_copy_is_on_the_same_system(r: Route, path: Route, n: nat)
    requires
        is_copy_of(r, path, n),
    ensures
        r.windows == path.windows,
        is_copy_in(r.text, path.text, n, path.windows),
{
}

/// A time that fits is kept as it is, and one that does not as the longest that
/// does.
pub proof fn a_time_that_fits_is_kept(n: nat)
    ensures
        n <= i64::MAX ==> capped(n) == n,
        n > i64::MAX ==> capped(n) == i64::MAX,
{
}

} // verus!
