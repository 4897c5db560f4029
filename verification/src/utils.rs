use vstd::prelude::*;
use vstd::utf8::*;
use vstd::string::StringSliceAdditionalSpecFns;

use crate::text::{chars_of, string_of, is_equal_chars, extend_chars};

verus! {

/// The ASCII character of decimal digit `d` (`d < 10`).
pub open spec fn digit_char(d: nat) -> char {
    (48 + d) as char
}

/// The decimal representation of `n`, most significant digit first, without leading zeros
/// (what `to_string` gives for an unsigned integer).
pub open spec fn decimal(n: nat) -> Seq<char>
    decreases n,
{
    if n < 10 {
        seq![digit_char(n)]
    } else {
        decimal(n / 10).push(digit_char(n % 10))
    }
}

/// `digits` with a `.` between each group of three, counted from the right.
pub open spec fn group_thousands(digits: Seq<char>) -> Seq<char>
    decreases digits.len(),
{
    if digits.len() <= 3 {
        digits
    } else {
        group_thousands(digits.take(digits.len() - 3)) + seq!['.'] + digits.skip(
            digits.len() - 3,
        )
    }
}

/// The absolute value of `n`.
pub open spec fn abs(n: int) -> nat {
    if n < 0 {
        (-n) as nat
    } else {
        n as nat
    }
}

/// An amount written in the Indonesian way: a minus sign for negative amounts, then the digits
/// of its absolute value grouped by thousands with dots (`1234567` is `1.234.567`).
pub open spec fn rupiah(n: int) -> Seq<char> {
    let body = group_thousands(decimal(abs(n)));
    if n < 0 {
        seq!['-'] + body
    } else {
        body
    }
}

/// An integer in decimal, with a leading minus sign when negative (as `{}` writes it).
pub open spec fn signed_decimal(n: int) -> Seq<char> {
    if n < 0 {
        seq!['-'] + decimal(abs(n))
    } else {
        decimal(abs(n))
    }
}

/// The magnitude of `n` as an unsigned integer.
fn magnitude(n: i64) -> (res: u64)
    ensures
        res == abs(n as int),
{
    if n < 0 {
        ((-(n + 1)) as u64) + 1
    } else {
        n as u64
    }
}

/// The characters of `n` in decimal, with a leading minus sign when negative.
pub fn signed_decimal_chars(n: i64) -> (res: Vec<char>)
    ensures
        res@ == signed_decimal(n as int),
{
    let digits = decimal_digits(magnitude(n));
    if n < 0 {
        let mut out: Vec<char> = Vec::new();
        out.push('-');
        extend_chars(&mut out, &digits);
        out
    } else {
        digits
    }
}

/// A negative amount is written as a minus sign before the amount of opposite sign.
pub proof fn law_rupiah_sign(n: int)
    requires
        n < 0,
    ensures
        rupiah(n) == seq!['-'] + rupiah(-n),
{
}

/// The ASCII digit character for `d`.
fn digit(d: u64) -> (c: char)
    requires
        d < 10,
    ensures
        c == digit_char(d as nat),
{
    let b: u8 = 48 + d as u8;
    b as char
}

/// The decimal digits of `n`.
pub fn decimal_digits(n: u64) -> (res: Vec<char>)
    ensures
        res@ == decimal(n as nat),
    decreases n,
{
    if n < 10 {
        let mut res: Vec<char> = Vec::new();
        res.push(digit(n));
        proof {
            assert(res@ =~= seq![digit_char(n as nat)]);
        }
        res
    } else {
        let mut res = decimal_digits(n / 10);
        res.push(digit(n % 10));
        res
    }
}

/// The digits of `digits` grouped by thousands with dots.
fn group_digits(digits: &Vec<char>) -> (res: Vec<char>)
    ensures
        res@ == group_thousands(digits@),
{
    let len = digits.len();
    let first_group = len % 3;
    let mut res: Vec<char> = Vec::new();
    let mut i: usize = 0;
    while i < first_group
        invariant
            first_group == len % 3,
            len == digits.len(),
            i <= first_group,
            res@ == digits@.take(i as int),
        decreases first_group - i,
    {
        res.push(digits[i]);
        proof {
            assert(digits@.take(i as int).push(digits@[i as int]) =~= digits@.take(i + 1));
        }
        i = i + 1;
    }
    proof {
        if first_group > 0 {
            assert(group_thousands(digits@.take(first_group as int)) == digits@.take(
                first_group as int,
            ));
        }
    }
    while i < len
        invariant
            first_group == len % 3,
            len == digits.len(),
            first_group <= i <= len,
            (i - first_group) % 3 == 0,
            i == 0 ==> res@.len() == 0,
            i > 0 ==> res@ == group_thousands(digits@.take(i as int)),
        decreases len - i,
    {
        let ghost before = digits@.take(i as int);
        let ghost after = digits@.take(i + 3);
        if res.len() > 0 {
            res.push('.');
        }
        res.push(digits[i]);
        res.push(digits[i + 1]);
        res.push(digits[i + 2]);
        proof {
            let triple = digits@.subrange(i as int, i + 3);
            assert(after.take(after.len() - 3) =~= before);
            assert(after.skip(after.len() - 3) =~= triple);
            if i == 0 {
                assert(group_thousands(after) == after);
                assert(res@ =~= after);
            } else {
                assert(group_thousands(after) == group_thousands(before) + seq!['.'] + triple);
                assert(res@ =~= group_thousands(before) + seq!['.'] + triple);
            }
        }
        i = i + 3;
    }
    proof {
        assert(digits@.take(len as int) =~= digits@);
        if len == 0 {
            assert(digits@ =~= Seq::<char>::empty());
        }
    }
    res
}

/// Writes `n` as rupiah: digits grouped by thousands with dots, with a leading minus sign
/// for negative amounts.
pub fn format_rupiah(n: i64) -> (res: String)
    ensures
        res@ == rupiah(n as int),
{
    let abs_n: u64 = magnitude(n);
    let digits = decimal_digits(abs_n);
    let grouped = group_digits(&digits);
    let mut out: Vec<char> = Vec::new();
    if n < 0 {
        out.push('-');
    }
    let mut i: usize = 0;
    while i < grouped.len()
        invariant
            i <= grouped.len(),
            n < 0 ==> out@ == seq!['-'] + grouped@.take(i as int),
            n >= 0 ==> out@ == grouped@.take(i as int),
        decreases grouped.len() - i,
    {
        out.push(grouped[i]);
        proof {
            assert(grouped@.take(i as int).push(grouped@[i as int]) =~= grouped@.take(i + 1));
            assert((seq!['-'] + grouped@.take(i as int)).push(grouped@[i as int]) =~= seq!['-']
                + grouped@.take(i + 1));
        }
        i = i + 1;
    }
    proof {
        assert(grouped@.take(grouped.len() as int) =~= grouped@);
    }
    string_of(&out)
}


/// The status mark of a rate that went up.
pub open spec fn up_mark() -> Seq<char> {
    seq!['\u{1F680}']
}

/// The status mark of a rate that went down.
pub open spec fn down_mark() -> Seq<char> {
    seq!['\u{1F53B}']
}

/// The status mark of a rate that stayed the same.
pub open spec fn flat_mark() -> Seq<char> {
    seq!['\u{2796}']
}

/// The text shown for a difference `diff` with status mark `status`: the up mark and `+`
/// before the amount, the down mark and `-` before its absolute value, and for any
/// other mark the flat mark followed by `tetap`.
pub open spec fn diff_display(diff: int, status: Seq<char>) -> Seq<char> {
    if status == up_mark() {
        up_mark() + seq!['+'] + rupiah(diff)
    } else if status == down_mark() {
        down_mark() + seq!['-'] + rupiah(abs(diff) as int)
    } else {
        flat_mark() + seq!['t', 'e', 't', 'a', 'p']
    }
}

/// Shows a difference of rates according to its status mark.
pub fn format_diff_display(diff: i64, status: &str) -> (res: String)
    requires
        status@ == down_mark() ==> diff != i64::MIN,
    ensures
        res@ == diff_display(diff as int, status@),
{
    let st = chars_of(status);
    let mut up: Vec<char> = Vec::new();
    up.push('\u{1F680}');
    let mut down: Vec<char> = Vec::new();
    down.push('\u{1F53B}');
    let mut out: Vec<char> = Vec::new();
    if is_equal_chars(&st, &up) {
        out.push('\u{1F680}');
        out.push('+');
        let amount = chars_of(format_rupiah(diff).as_str());
        extend_chars(&mut out, &amount);
        proof {
            assert(out@ =~= up_mark() + seq!['+'] + rupiah(diff as int));
        }
    } else if is_equal_chars(&st, &down) {
        out.push('\u{1F53B}');
        out.push('-');
        let magnitude: i64 = if diff < 0 {
            -diff
        } else {
            diff
        };
        let amount = chars_of(format_rupiah(magnitude).as_str());
        extend_chars(&mut out, &amount);
        proof {
            assert(rupiah(magnitude as int) == rupiah(abs(diff as int) as int));
            assert(out@ =~= down_mark() + seq!['-'] + rupiah(abs(diff as int) as int));
        }
    } else {
        out.push('\u{2796}');
        out.push('t');
        out.push('e');
        out.push('t');
        out.push('a');
        out.push('p');
        proof {
            assert(out@ =~= flat_mark() + seq!['t', 'e', 't', 'a', 'p']);
        }
    }
    string_of(&out)
}

/// The characters that the bytes `from..to` of `s` encode.
pub open spec fn byte_slice(s: &str, from: int, to: int) -> Seq<char> {
    decode_utf8(s.spec_bytes().subrange(from, to))
}

/// The time of day shown for a timestamp text followed by its status mark: the bytes
/// `11..19` of `created_at` (the `HH:MM:SS` of `YYYY-MM-DD HH:MM:SS`) when it is at least
/// 19 bytes long, else the whole of `created_at`.
pub open spec fn waktu_display(created_at: &str, status: Seq<char>) -> Seq<char> {
    if created_at.len() >= 19 {
        byte_slice(created_at, 11, 19) + status
    } else {
        created_at@ + status
    }
}

/// The view of a string slice is what its bytes decode to.
proof fn lemma_view_is_decoded(s: &str)
    ensures
        s@ == decode_utf8(s.spec_bytes()),
{
    encode_utf8_decode_utf8(s@);
}

/// A character boundary of `bytes` at or after boundary `i` is one of the bytes from `i` on.
proof fn lemma_char_boundary_shift(bytes: Seq<u8>, i: int, j: int)
    requires
        valid_utf8(bytes),
        0 <= i <= j <= bytes.len(),
        is_char_boundary(bytes, i),
        is_char_boundary(bytes, j),
    ensures
        valid_utf8(bytes.subrange(i, bytes.len() as int)),
        is_char_boundary(bytes.subrange(i, bytes.len() as int), j - i),
{
    let rest = bytes.subrange(i, bytes.len() as int);
    valid_utf8_split(bytes, i);
    if j == i {
    } else if j < bytes.len() {
        is_char_boundary_iff_not_is_continuation_byte(bytes, j);
        is_char_boundary_iff_not_is_continuation_byte(rest, j - i);
        assert(rest[j - i] == bytes[j]);
    } else {
        is_char_boundary_start_end_of_seq(rest);
    }
}

/// Extracts the time of day of a `YYYY-MM-DD HH:MM:SS` timestamp and appends the status mark.
pub fn format_waktu_only(created_at: &str, status: &str) -> (res: String)
    requires
        created_at.len() >= 19 ==> is_char_boundary(created_at.spec_bytes(), 11)
            && is_char_boundary(created_at.spec_bytes(), 19),
    ensures
        res@ == waktu_display(created_at, status@),
{
    let mut out: Vec<char>;
    if created_at.len() >= 19 {
        let (_, rest) = created_at.split_at(11);
        proof {
            let b = created_at.spec_bytes();
            assert(rest.spec_bytes() =~= b.subrange(11, b.len() as int));
            encode_utf8_valid_utf8(created_at@);
            lemma_char_boundary_shift(b, 11, 19);
            assert(is_char_boundary(rest.spec_bytes(), 8));
        }
        let (middle, _) = rest.split_at(8);
        proof {
            lemma_view_is_decoded(middle);
            assert(middle.spec_bytes() =~= created_at.spec_bytes().subrange(11, 19));
        }
        out = chars_of(middle);
        assert(out@ == byte_slice(created_at, 11, 19));
    } else {
        out = chars_of(created_at);
    }
    let st = chars_of(status);
    extend_chars(&mut out, &st);
    let res = string_of(&out);
    assert(res@ == waktu_display(created_at, status@));
    res
}


/// The system clock's time type, carried through unread.
#[verifier::external_type_specification]
#[verifier::external_body]
pub struct ExSystemTime(std::time::SystemTime);

/// The current time of the system clock (`SystemTime::now`).
///
/// Nothing is claimed of it: it is read from the machine's clock.
#[verifier::external_body]
fn system_now() -> std::time::SystemTime {
    std::time::SystemTime::now()
}

/// The time elapsed from the Unix epoch to `t`, `None` when `t` lies before the epoch
/// (`SystemTime::duration_since` with `UNIX_EPOCH`).
///
/// Nothing is claimed of the duration: the time type is opaque here.
#[verifier::external_body]
fn elapsed_since_epoch(t: &std::time::SystemTime) -> Option<std::time::Duration> {
    match t.duration_since(std::time::UNIX_EPOCH) {
        Ok(d) => Some(d),
        Err(_) => None,
    }
}

/// The whole seconds of a duration (`Duration::as_secs`).
///
/// Nothing is claimed of the value: the duration type is opaque here.
#[verifier::external_body]
fn whole_seconds(d: &std::time::Duration) -> u64 {
    d.as_secs()
}

/// The Unix timestamp for a clock reading: its whole seconds since the epoch, or 0 when the
/// clock reads a time before the epoch (`None`).
pub fn timestamp_from_reading(reading: Option<u64>) -> (res: u64)
    ensures
        res == match reading {
            Some(secs) => secs,
            None => 0,
        },
{
    match reading {
        Some(secs) => secs,
        None => 0,
    }
}

/// The current Unix time in seconds, or 0 when the system clock is set before the epoch.
pub fn current_timestamp() -> u64 {
    let now = system_now();
    let reading = match elapsed_since_epoch(&now) {
        Some(elapsed) => Some(whole_seconds(&elapsed)),
        None => None,
    };
    timestamp_from_reading(reading)
}

/// Seconds in a day.
pub const SECS_PER_DAY: u64 = 86400;

/// The offset of Western Indonesian Time (UTC+7) in seconds.
pub const WIB_OFFSET_SECS: u64 = 25200;

/// The two-digit, zero-padded decimal form of `v` (`v < 100`).
pub open spec fn two_digits(v: nat) -> Seq<char> {
    seq![digit_char(v / 10), digit_char(v % 10)]
}

/// The seconds since midnight, Western Indonesian Time, at Unix time `now`.
pub open spec fn wib_second_of_day(now: nat) -> nat {
    (now + 25200) % 86400
}

/// The `HH:MM:SS` clock text, Western Indonesian Time, at Unix time `now`.
pub open spec fn wib_clock(now: nat) -> Seq<char> {
    let sod = wib_second_of_day(now);
    two_digits(sod / 3600) + seq![':'] + two_digits((sod % 3600) / 60) + seq![':'] + two_digits(
        sod % 60,
    )
}

/// Appends the two-digit form of `v` to `out`.
fn push_two_digits(out: &mut Vec<char>, v: u64)
    requires
        v < 100,
    ensures
        final(out)@ == old(out)@ + two_digits(v as nat),
{
    out.push(digit(v / 10));
    out.push(digit(v % 10));
    proof {
        assert(final(out)@ =~= old(out)@ + two_digits(v as nat));
    }
}

/// The `HH:MM:SS` clock text, Western Indonesian Time (UTC+7), of Unix time `now`.
pub fn format_wib_clock(now: u64) -> (res: String)
    ensures
        res@ == wib_clock(now as nat),
{
    let sod = (now % SECS_PER_DAY + WIB_OFFSET_SECS) % SECS_PER_DAY;
    proof {
        assert(sod == wib_second_of_day(now as nat)) by (nonlinear_arith)
            requires
                sod == (now % 86400 + 25200) % 86400,
        ;
    }
    let hours = sod / 3600;
    let minutes = (sod % 3600) / 60;
    let seconds = sod % 60;
    let mut out: Vec<char> = Vec::new();
    push_two_digits(&mut out, hours);
    out.push(':');
    push_two_digits(&mut out, minutes);
    out.push(':');
    push_two_digits(&mut out, seconds);
    proof {
        assert(out@ =~= wib_clock(now as nat));
    }
    string_of(&out)
}

/// The current time of day as `HH:MM:SS`, Western Indonesian Time.
pub fn current_wib_time() -> (res: String)
    ensures
        exists|now: u64| res@ == wib_clock(now as nat),
{
    let now = current_timestamp();
    format_wib_clock(now)
}


/// `text` with each `.` replaced by `,` (the Indonesian decimal comma).
pub open spec fn with_decimal_comma(text: Seq<char>) -> Seq<char> {
    text.map_values(|c: char| if c == '.' { ',' } else { c })
}

/// Writes a formatted number with a decimal comma in place of each decimal point.
pub fn decimal_comma(text: &str) -> (res: String)
    ensures
        res@ == with_decimal_comma(text@),
{
    let cs = chars_of(text);
    let mut out: Vec<char> = Vec::new();
    let mut i: usize = 0;
    while i < cs.len()
        invariant
            i <= cs.len(),
            out@ == with_decimal_comma(cs@.take(i as int)),
        decreases cs.len() - i,
    {
        if cs[i] == '.' {
            out.push(',');
        } else {
            out.push(cs[i]);
        }
        proof {
            assert(with_decimal_comma(cs@.take(i + 1)) =~= with_decimal_comma(cs@.take(i as int)).push(
                if cs@[i as int] == '.' { ',' } else { cs@[i as int] },
            ));
        }
        i = i + 1;
    }
    proof {
        assert(cs@.take(cs.len() as int) =~= cs@);
    }
    string_of(&out)
}

/// The mark shown beside a gain.
pub open spec fn gain_mark() -> Seq<char> {
    seq!['\u{1F7E2}']
}

/// The mark shown beside a loss.
pub open spec fn loss_mark() -> Seq<char> {
    seq!['\u{1F534}']
}

/// The profit text for a profit of `val` rupiah on `gram` (already formatted) grams of gold:
/// the signed amount, the gain, loss or flat mark, then the grams and `gr`.
pub open spec fn profit_line(val: int, gram: Seq<char>) -> Seq<char> {
    if val > 0 {
        seq!['+'] + rupiah(val) + gain_mark() + gram + seq!['g', 'r']
    } else if val < 0 {
        seq!['-'] + rupiah(abs(val) as int) + loss_mark() + gram + seq!['g', 'r']
    } else {
        rupiah(0) + flat_mark() + gram + seq!['g', 'r']
    }
}

/// Writes a profit of `val` rupiah together with the formatted gram amount it was made on.
pub fn format_profit(val: i64, gram_display: &str) -> (res: String)
    requires
        val != i64::MIN,
    ensures
        res@ == profit_line(val as int, gram_display@),
{
    let mut out: Vec<char> = Vec::new();
    if val > 0 {
        out.push('+');
        extend_chars(&mut out, &chars_of(format_rupiah(val).as_str()));
        out.push('\u{1F7E2}');
    } else if val < 0 {
        out.push('-');
        extend_chars(&mut out, &chars_of(format_rupiah(-val).as_str()));
        out.push('\u{1F534}');
    } else {
        extend_chars(&mut out, &chars_of(format_rupiah(0).as_str()));
        out.push('\u{2796}');
    }
    extend_chars(&mut out, &chars_of(gram_display));
    out.push('g');
    out.push('r');
    proof {
        assert(out@ =~= profit_line(val as int, gram_display@));
    }
    string_of(&out)
}


/// The clock text is always `HH:MM:SS`: eight characters, colons third and sixth, with
/// an hour below 24, minutes and seconds below 60.
pub proof fn law_wib_clock_shape(now: nat)
    ensures
        wib_clock(now).len() == 8,
        wib_clock(now)[2] == ':',
        wib_clock(now)[5] == ':',
        wib_second_of_day(now) / 3600 < 24,
        (wib_second_of_day(now) % 3600) / 60 < 60,
        wib_second_of_day(now) % 60 < 60,
{
}

/// For an ASCII timestamp of at least 19 characters, the time shown is its characters
/// `11..19` followed by the status mark.
pub proof fn law_waktu_ascii(created_at: &str, status: Seq<char>)
    requires
        is_ascii_chars(created_at@),
        19 <= created_at@.len() <= usize::MAX,
    ensures
        waktu_display(created_at, status) == created_at@.subrange(11, 19) + status,
{
    let chars = created_at@;
    let bytes = created_at.spec_bytes();
    let sub = chars.subrange(11, 19);
    is_ascii_chars_encode_utf8(chars);
    assert(is_ascii_chars(sub)) by {
        assert forall|i: int| 0 <= i < sub.len() implies '\0' <= #[trigger] sub[i] <= '\u{7f}' by {
            assert(sub[i] == chars[i + 11]);
        }
    }
    is_ascii_chars_encode_utf8(sub);
    assert(encode_utf8(sub) =~= bytes.subrange(11, 19)) by {
        assert forall|i: int| 0 <= i < 8 implies encode_utf8(sub)[i] == bytes.subrange(11, 19)[i] by {
            assert(sub[i] == chars[i + 11]);
            assert(encode_utf8(sub)[i] == sub[i] as u8);
            assert(bytes[i + 11] == chars[i + 11] as u8);
        }
    }
    encode_utf8_decode_utf8(sub);
}

} // verus!



