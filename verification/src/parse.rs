use vstd::prelude::*;

use crate::text::chars_of;
use crate::utils::{abs, decimal, digit_char, group_thousands, rupiah};

verus! {

/// `c` is an ASCII decimal digit.
pub open spec fn is_digit(c: char) -> bool {
    '0' <= c <= '9'
}

/// Every character of `s` is an ASCII decimal digit.
pub open spec fn all_digits(s: Seq<char>) -> bool {
    forall|i: int| 0 <= i < s.len() ==> is_digit(#[trigger] s[i])
}

/// The number that the decimal digits `s` stand for (leading zeros allowed).
pub open spec fn digits_value(s: Seq<char>) -> nat
    decreases s.len(),
{
    if s.len() == 0 {
        0
    } else {
        digits_value(s.drop_last()) * 10 + ((s.last() as u32) - 48) as nat
    }
}

/// What `i64::from_str` gives for the text `s`: an optional `+` or `-` sign followed by at
/// least one ASCII digit, whose value lies in the range of `i64`; `None` for any other text.
pub open spec fn parse_i64_spec(s: Seq<char>) -> Option<i64> {
    let negative = s.len() > 0 && s[0] == '-';
    let signed = s.len() > 0 && (s[0] == '-' || s[0] == '+');
    let body = if signed {
        s.drop_first()
    } else {
        s
    };
    if body.len() == 0 || !all_digits(body) {
        None
    } else {
        let v: int = if negative {
            -digits_value(body)
        } else {
            digits_value(body) as int
        };
        if i64::MIN <= v <= i64::MAX {
            Some(v as i64)
        } else {
            None
        }
    }
}

/// `s` without its `.` and `,` characters.
pub open spec fn strip_separators(s: Seq<char>) -> Seq<char>
    decreases s.len(),
{
    if s.len() == 0 {
        s
    } else if s.last() == '.' || s.last() == ',' {
        strip_separators(s.drop_last())
    } else {
        strip_separators(s.drop_last()).push(s.last())
    }
}

/// Digit values grow as digits are appended.
proof fn lemma_digits_value_monotone(s: Seq<char>, k: int, j: int)
    requires
        0 <= k <= j <= s.len(),
    ensures
        digits_value(s.take(k)) <= digits_value(s.take(j)),
    decreases j - k,
{
    if k < j {
        lemma_digits_value_monotone(s, k, j - 1);
        assert(s.take(j).drop_last() =~= s.take(j - 1));
    }
}

/// The value of a decimal digit character.
fn digit_value(c: char) -> (d: u64)
    requires
        is_digit(c),
    ensures
        d == (c as u32) - 48,
        d < 10,
{
    let u = c as u32;
    (u - 48) as u64
}

/// One more digit appended: the run stays all digits and its value is ten times as much plus
/// the digit.
proof fn lemma_digits_step(body: Seq<char>, k: int)
    requires
        0 <= k < body.len(),
        all_digits(body.take(k)),
        is_digit(body[k]),
    ensures
        all_digits(body.take(k + 1)),
        digits_value(body.take(k + 1)) == digits_value(body.take(k)) * 10 + ((body[k] as u32)
            - 48) as nat,
{
    assert(body.take(k + 1).drop_last() =~= body.take(k));
    assert forall|j: int| 0 <= j < k + 1 implies is_digit(#[trigger] body.take(k + 1)[j]) by {
        if j < k {
            assert(body.take(k + 1)[j] == body.take(k)[j]);
        }
    }
}

/// Once a prefix of a digit run exceeds `limit`, so does the whole run.
proof fn lemma_digits_exceed(body: Seq<char>, k: int, limit: nat)
    requires
        0 <= k <= body.len(),
        digits_value(body.take(k)) > limit,
    ensures
        all_digits(body) ==> digits_value(body) > limit,
{
    lemma_digits_value_monotone(body, k, body.len() as int);
    assert(body.take(body.len() as int) =~= body);
}

/// The value of the digit run `s[start..]` when it is one and its value is at most `2^63`;
/// `None` when a character is not a digit or the value exceeds `2^63`.
fn magnitude_from(s: &Vec<char>, start: usize) -> (res: Option<u64>)
    requires
        start <= s.len(),
    ensures
        match res {
            Some(v) => all_digits(s@.skip(start as int)) && v == digits_value(
                s@.skip(start as int),
            ) && v <= 9223372036854775808u64,
            None => !all_digits(s@.skip(start as int)) || digits_value(s@.skip(start as int))
                > 9223372036854775808u64,
        },
{
    let ghost body = s@.skip(start as int);
    let n = s.len();
    let limit: u64 = 9223372036854775808;
    let mut acc: u64 = 0;
    let mut i: usize = start;
    while i < n
        invariant
            n == s.len(),
            start <= i <= n,
            body == s@.skip(start as int),
            limit == 9223372036854775808u64,
            acc == digits_value(body.take(i - start)),
            acc <= limit,
            all_digits(body.take(i - start)),
        decreases n - i,
    {
        let c = s[i];
        assert(body[i - start] == c);
        if !('0' <= c && c <= '9') {
            assert(!is_digit(body[i - start]));
            return None;
        }
        let d = digit_value(c);
        proof {
            lemma_digits_step(body, i - start);
        }
        if acc > (limit - d) / 10 {
            proof {
                assert(acc * 10 + d > limit) by (nonlinear_arith)
                    requires
                        acc > (limit - d) / 10,
                        d < 10,
                        limit == 9223372036854775808u64,
                ;
                lemma_digits_exceed(body, i - start + 1, limit as nat);
            }
            return None;
        }
        proof {
            assert(acc * 10 + d <= limit) by (nonlinear_arith)
                requires
                    acc <= (limit - d) / 10,
                    d < 10,
                    limit == 9223372036854775808u64,
            ;
        }
        acc = acc * 10 + d;
        i = i + 1;
    }
    assert(body.take(n - start) =~= body);
    Some(acc)
}

/// Reads a signed decimal integer as `i64::from_str` does.
pub fn parse_i64(s: &Vec<char>) -> (res: Option<i64>)
    ensures
        res == parse_i64_spec(s@),
{
    let n = s.len();
    let negative = n > 0 && s[0] == '-';
    let signed = n > 0 && (s[0] == '-' || s[0] == '+');
    let start: usize = if signed {
        1
    } else {
        0
    };
    assert(s@.skip(1) =~= s@.drop_first());
    assert(s@.skip(0) =~= s@);
    if start == n {
        return None;
    }
    let limit: u64 = 9223372036854775808;
    match magnitude_from(s, start) {
        None => None,
        Some(acc) => {
            if negative {
                if acc == limit {
                    Some(i64::MIN)
                } else {
                    Some(-(acc as i64))
                }
            } else if acc < limit {
                Some(acc as i64)
            } else {
                None
            }
        },
    }
}

/// The characters of `s` without `.` and `,`.
pub fn strip_separator_chars(s: &Vec<char>) -> (res: Vec<char>)
    ensures
        res@ == strip_separators(s@),
{
    let mut res: Vec<char> = Vec::new();
    let mut i: usize = 0;
    while i < s.len()
        invariant
            i <= s.len(),
            res@ == strip_separators(s@.take(i as int)),
        decreases s.len() - i,
    {
        proof {
            assert(s@.take(i + 1).drop_last() =~= s@.take(i as int));
        }
        if s[i] != '.' && s[i] != ',' {
            res.push(s[i]);
        }
        i = i + 1;
    }
    proof {
        assert(s@.take(s.len() as int) =~= s@);
    }
    res
}

/// A rate as the feed delivers it: a JSON number (its integer value), a JSON string, or
/// anything else.
pub enum RateValue {
    Number(i64),
    Text(String),
    Other,
}

/// The rate that `value` stands for: a number as it is; a string read as an integer once
/// its `.` and `,` separators are removed; nothing for any other value.
pub open spec fn rate_of(value: RateValue) -> Option<i64> {
    match value {
        RateValue::Number(n) => Some(n),
        RateValue::Text(s) => parse_i64_spec(strip_separators(s@)),
        RateValue::Other => None,
    }
}

/// Reads a rate from a value of the feed.
pub fn parse_number(value: &RateValue) -> (res: Option<i64>)
    ensures
        res == rate_of(*value),
{
    match value {
        RateValue::Number(n) => Some(*n),
        RateValue::Text(s) => {
            let cleaned = strip_separator_chars(&chars_of(s.as_str()));
            parse_i64(&cleaned)
        },
        RateValue::Other => None,
    }
}


/// A decimal representation is a non-empty run of digits standing for its number.
proof fn lemma_decimal_digits(m: nat)
    ensures
        decimal(m).len() >= 1,
        all_digits(decimal(m)),
        digits_value(decimal(m)) == m,
    decreases m,
{
    assert((((48 + m % 10) as char) as u32) == 48 + m % 10) by {
        assert(((48 + m % 10) as u32) == 48 + m % 10);
        vstd::utf8::char_u32_cast((48 + m % 10) as char, (48 + m % 10) as u32);
    }
    assert(m == (m / 10) * 10 + m % 10) by (nonlinear_arith);
    if m < 10 {
        assert(m % 10 == m);
        assert(decimal(m).drop_last() =~= Seq::<char>::empty());
        assert(decimal(m).last() == digit_char(m));
        assert((decimal(m).last() as u32) == 48 + m);
        assert(digits_value(Seq::<char>::empty()) == 0);
    } else {
        lemma_decimal_digits(m / 10);
        let d = decimal(m);
        assert(d.drop_last() =~= decimal(m / 10));
        assert forall|i: int| 0 <= i < d.len() implies is_digit(#[trigger] d[i]) by {
            if i < d.len() - 1 {
                assert(d[i] == decimal(m / 10)[i]);
            }
        }
    }
}

/// Removing separators distributes over concatenation.
proof fn lemma_strip_concat(a: Seq<char>, b: Seq<char>)
    ensures
        strip_separators(a + b) == strip_separators(a) + strip_separators(b),
    decreases b.len(),
{
    if b.len() == 0 {
        assert(a + b =~= a);
        assert(strip_separators(a) + strip_separators(b) =~= strip_separators(a));
    } else {
        lemma_strip_concat(a, b.drop_last());
        assert((a + b).drop_last() =~= a + b.drop_last());
        assert((a + b).last() == b.last());
        if !(b.last() == '.' || b.last() == ',') {
            assert(strip_separators(a) + strip_separators(b.drop_last()).push(b.last())
                =~= (strip_separators(a) + strip_separators(b.drop_last())).push(b.last()));
        }
    }
}

/// A run of digits holds no separator to remove.
proof fn lemma_strip_digits(d: Seq<char>)
    requires
        all_digits(d),
    ensures
        strip_separators(d) == d,
    decreases d.len(),
{
    if d.len() > 0 {
        assert(is_digit(d[d.len() - 1]));
        assert(all_digits(d.drop_last())) by {
            assert forall|i: int| 0 <= i < d.drop_last().len() implies is_digit(
                #[trigger] d.drop_last()[i],
            ) by {
                assert(d.drop_last()[i] == d[i]);
            }
        }
        lemma_strip_digits(d.drop_last());
        assert(d.drop_last().push(d.last()) =~= d);
    }
}

/// Removing the separators of digits grouped by thousands gives back the digits.
proof fn lemma_strip_grouped(d: Seq<char>)
    requires
        all_digits(d),
    ensures
        strip_separators(group_thousands(d)) == d,
    decreases d.len(),
{
    if d.len() <= 3 {
        lemma_strip_digits(d);
    } else {
        let head = d.take(d.len() - 3);
        let tail = d.skip(d.len() - 3);
        assert(all_digits(head)) by {
            assert forall|i: int| 0 <= i < head.len() implies is_digit(#[trigger] head[i]) by {
                assert(head[i] == d[i]);
            }
        }
        assert(all_digits(tail)) by {
            assert forall|i: int| 0 <= i < tail.len() implies is_digit(#[trigger] tail[i]) by {
                assert(tail[i] == d[d.len() - 3 + i]);
            }
        }
        lemma_strip_grouped(head);
        lemma_strip_digits(tail);
        lemma_strip_concat(group_thousands(head) + seq!['.'], tail);
        lemma_strip_concat(group_thousands(head), seq!['.']);
        assert(strip_separators(seq!['.']) =~= Seq::<char>::empty()) by {
            assert(seq!['.'].drop_last() =~= Seq::<char>::empty());
            assert(strip_separators(Seq::<char>::empty()) == Seq::<char>::empty());
        }
        assert(head + tail =~= d);
    }
}

/// A rupiah amount read back as an integer, once its separators are removed, is the amount
/// that was written: `format_rupiah` and `parse_number` agree on every `i64`.
pub proof fn law_rupiah_reads_back(n: i64)
    ensures
        parse_i64_spec(strip_separators(rupiah(n as int))) == Some(n),
{
    let m = abs(n as int);
    let d = decimal(m);
    lemma_decimal_digits(m);
    lemma_strip_grouped(d);
    if n < 0 {
        lemma_strip_concat(seq!['-'], group_thousands(d));
        assert(strip_separators(seq!['-']) =~= seq!['-']) by {
            assert(seq!['-'].drop_last() =~= Seq::<char>::empty());
            assert(strip_separators(Seq::<char>::empty()) == Seq::<char>::empty());
            assert(Seq::<char>::empty().push('-') =~= seq!['-']);
        }
        let t = seq!['-'] + d;
        assert(t.drop_first() =~= d);
        assert(t[0] == '-');
    } else {
        assert(is_digit(d[0]));
    }
}

/// Any feed text that shows a rupiah amount is read as that amount.
pub proof fn law_rupiah_text_is_rate(n: i64, value: RateValue)
    requires
        value matches RateValue::Text(t) && t@ == rupiah(n as int),
    ensures
        rate_of(value) == Some(n),
{
    law_rupiah_reads_back(n);
}

} // verus!

