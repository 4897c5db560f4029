use vstd::prelude::*;

use crate::text::{
    ascii_lowercase, chars_of, contains_chars, is_ascii_text, law_ascii_lowercase_idempotent, has_infix, has_prefix, is_equal_chars, lowercase_of, string_of,
    to_lowercase, starts_with_chars, trim_chars, trim_spec,
};

verus! {

/// The characters of `s` up to its first `,` (all of `s` when it has none), as
/// `s.split(',').next()` gives them.
pub open spec fn first_field(s: Seq<char>) -> Seq<char>
    decreases s.len(),
{
    if s.len() == 0 || s[0] == ',' {
        Seq::empty()
    } else {
        seq![s[0]] + first_field(s.drop_first())
    }
}

/// The text `unknown`.
pub open spec fn unknown_text() -> Seq<char> {
    seq!['u', 'n', 'k', 'n', 'o', 'w', 'n']
}

/// The client address named by the request headers: the first entry of `X-Forwarded-For`
/// when that header is present and readable, else `X-Real-IP`, each without surrounding
/// white space; `unknown` when neither is there.
pub open spec fn client_ip_spec(forwarded: Option<Seq<char>>, real_ip: Option<Seq<char>>) -> Seq<
    char,
> {
    match forwarded {
        Some(f) => trim_spec(first_field(f)),
        None => match real_ip {
            Some(r) => trim_spec(r),
            None => unknown_text(),
        },
    }
}

/// The characters of `s` before its first `,`.
fn first_field_chars(s: &Vec<char>) -> (res: Vec<char>)
    ensures
        res@ == first_field(s@),
{
    let mut res: Vec<char> = Vec::new();
    let mut i: usize = 0;
    assert(s@.skip(0) =~= s@);
    while i < s.len() && s[i] != ','
        invariant
            i <= s.len(),
            first_field(s@) == res@ + first_field(s@.skip(i as int)),
        decreases s.len() - i,
    {
        proof {
            let rest = s@.skip(i as int);
            assert(rest.drop_first() =~= s@.skip(i + 1));
            assert(rest[0] == s@[i as int]);
            assert(res@.push(s@[i as int]) + first_field(s@.skip(i + 1)) =~= res@ + (seq![
                s@[i as int],
            ] + first_field(s@.skip(i + 1))));
        }
        res.push(s[i]);
        i = i + 1;
    }
    proof {
        let rest = s@.skip(i as int);
        if i < s.len() {
            assert(rest[0] == s@[i as int]);
        }
        assert(first_field(rest) =~= Seq::<char>::empty());
        assert(res@ + Seq::<char>::empty() =~= res@);
    }
    res
}

/// The client address of a request, from the values of its `X-Forwarded-For` and `X-Real-IP`
/// headers (each given when present and readable as text).
pub fn get_client_ip(forwarded: Option<&str>, real_ip: Option<&str>) -> (res: String)
    ensures
        res@ == client_ip_spec(
            match forwarded {
                Some(f) => Some(f@),
                None => None,
            },
            match real_ip {
                Some(r) => Some(r@),
                None => None,
            },
        ),
{
    match forwarded {
        Some(f) => {
            let first = first_field_chars(&chars_of(f));
            string_of(&trim_chars(&first))
        },
        None => match real_ip {
            Some(r) => string_of(&trim_chars(&chars_of(r))),
            None => {
                let mut out: Vec<char> = Vec::new();
                out.push('u');
                out.push('n');
                out.push('k');
                out.push('n');
                out.push('o');
                out.push('w');
                out.push('n');
                proof {
                    assert(out@ =~= unknown_text());
                }
                string_of(&out)
            },
        },
    }
}

/// The path prefix `/aturt`, shared by the legitimate limit-setting routes.
pub open spec fn atur_prefix() -> Seq<char> {
    seq!['/', 'a', 't', 'u', 'r', 't']
}

/// The characters of `/aturt`.
fn atur_prefix_chars() -> (res: Vec<char>)
    ensures
        res@ == atur_prefix(),
{
    let mut v: Vec<char> = Vec::new();
    v.push('/');
    v.push('a');
    v.push('t');
    v.push('u');
    v.push('r');
    v.push('t');
    proof {
        assert(v@ =~= atur_prefix());
    }
    v
}

/// A lowercased path is suspicious when it does not begin with `/aturt` and contains one of
/// the `suspicious` patterns.
pub open spec fn suspicious_lower_spec(lower: Seq<char>, suspicious: Seq<Seq<char>>) -> bool {
    !has_prefix(lower, atur_prefix()) && exists|i: int|
        0 <= i < suspicious.len() && has_infix(lower, #[trigger] suspicious[i])
}

/// A path is suspicious when its lowercase form is.
pub open spec fn suspicious_spec(path: Seq<char>, suspicious: Seq<Seq<char>>) -> bool {
    suspicious_lower_spec(lowercase_of(path), suspicious)
}

/// The views of a slice of string slices.
pub open spec fn views_of(items: &[&str]) -> Seq<Seq<char>> {
    Seq::new(items@.len(), |i: int| items@[i]@)
}

/// Whether a lowercased request path probes for something that this server does not have.
pub fn is_suspicious_lowercase(lower_path: &str, suspicious: &[&str]) -> (res: bool)
    ensures
        res == suspicious_lower_spec(lower_path@, views_of(suspicious)),
{
    let lower = chars_of(lower_path);
    if starts_with_chars(&lower, &atur_prefix_chars()) {
        return false;
    }
    let mut i: usize = 0;
    while i < suspicious.len()
        invariant
            i <= suspicious@.len(),
            lower@ == lower_path@,
            !has_prefix(lower@, atur_prefix()),
            forall|k: int| 0 <= k < i ==> !has_infix(lower@, #[trigger] views_of(suspicious)[k]),
        decreases suspicious@.len() - i,
    {
        let pattern = chars_of(suspicious[i]);
        if contains_chars(&lower, &pattern) {
            proof {
                assert(views_of(suspicious)[i as int] == pattern@);
                assert(has_infix(lower@, views_of(suspicious)[i as int]));
            }
            return true;
        }
        i = i + 1;
    }
    false
}

/// Whether a request path probes for something that this server does not have.
pub fn is_suspicious_path(path: &str, suspicious: &[&str]) -> (res: bool)
    ensures
        res == suspicious_spec(path@, views_of(suspicious)),
        is_ascii_text(path@) ==> res == suspicious_lower_spec(
            ascii_lowercase(path@),
            views_of(suspicious),
        ),
{
    let lower = to_lowercase(path);
    is_suspicious_lowercase(lower.as_str(), suspicious)
}

/// A path, whose lowercase form is `lower`, skips the rate limit when it is one of the
/// `whitelist` paths exactly, or when `lower` begins with `/aturt`.
pub open spec fn whitelisted_lower_spec(
    path: Seq<char>,
    lower: Seq<char>,
    whitelist: Seq<Seq<char>>,
) -> bool {
    (exists|i: int| 0 <= i < whitelist.len() && path == #[trigger] whitelist[i]) || has_prefix(
        lower,
        atur_prefix(),
    )
}

/// A path skips the rate limit when it is one of the `whitelist` paths exactly, or when,
/// lowercased, it begins with `/aturt`.
pub open spec fn whitelisted_spec(path: Seq<char>, whitelist: Seq<Seq<char>>) -> bool {
    whitelisted_lower_spec(path, lowercase_of(path), whitelist)
}

/// Every whitelist entry is exempt from the rate limit, whatever its lowercase form, and a
/// path that equals no entry is exempt exactly when its lowercase form begins with `/aturt`.
pub proof fn law_whitelist_entries_exempt(
    path: Seq<char>,
    lower: Seq<char>,
    whitelist: Seq<Seq<char>>,
)
    ensures
        forall|i: int| 0 <= i < whitelist.len() ==> whitelisted_lower_spec(#[trigger] whitelist[i], lower, whitelist),
        (forall|i: int| 0 <= i < whitelist.len() ==> path != #[trigger] whitelist[i])
            ==> (whitelisted_lower_spec(path, lower, whitelist) == has_prefix(lower, atur_prefix())),
{
    assert forall|i: int| 0 <= i < whitelist.len() implies whitelisted_lower_spec(
        #[trigger] whitelist[i],
        lower,
        whitelist,
    ) by {
        assert(whitelist[i] == whitelist[i]);
    }
}

/// Whether a request path, given with its lowercase form, is exempt from the rate limit.
pub fn is_whitelisted_lowercase(path: &str, lower_path: &str, whitelist: &[&str]) -> (res: bool)
    ensures
        res == whitelisted_lower_spec(path@, lower_path@, views_of(whitelist)),
{
    let p = chars_of(path);
    let mut i: usize = 0;
    while i < whitelist.len()
        invariant
            i <= whitelist@.len(),
            p@ == path@,
            forall|k: int| 0 <= k < i ==> p@ != #[trigger] views_of(whitelist)[k],
        decreases whitelist@.len() - i,
    {
        let w = chars_of(whitelist[i]);
        if is_equal_chars(&p, &w) {
            proof {
                assert(views_of(whitelist)[i as int] == w@);
            }
            return true;
        }
        i = i + 1;
    }
    let lower = chars_of(lower_path);
    starts_with_chars(&lower, &atur_prefix_chars())
}

/// Whether a request path is exempt from the rate limit.
pub fn is_whitelisted(path: &str, whitelist: &[&str]) -> (res: bool)
    ensures
        res == whitelisted_spec(path@, views_of(whitelist)),
        is_ascii_text(path@) ==> res == whitelisted_lower_spec(
            path@,
            ascii_lowercase(path@),
            views_of(whitelist),
        ),
{
    let lower = to_lowercase(path);
    is_whitelisted_lowercase(path, lower.as_str(), whitelist)
}

/// What the rate limiter said of a request.
#[derive(PartialEq, Eq, Structural, Clone, Copy, Debug)]
pub enum RateLimitStatus {
    Allowed,
    Limited,
    Blocked,
}

/// How long an address that exceeded the rate limit stays blocked, in seconds.
pub const BLOCK_SECS: u64 = 600;

/// How many failed attempts a suspicious request counts for.
pub const SUSPICIOUS_WEIGHT: u32 = 3;

/// What the security layer does with a request.
#[derive(PartialEq, Eq, Structural, Clone, Copy, Debug)]
pub enum SecurityAction {
    /// Answer `429 Too Many Requests`.
    RejectRateLimited,
    /// Block the address for `secs` seconds, then answer `429 Too Many Requests`.
    BlockAndReject { secs: u64 },
    /// Count `failed_attempts` against the address, then answer `403 Forbidden`.
    Forbid { failed_attempts: u32 },
    /// Hand the request on.
    Pass,
}

/// The action for a request from an address that is (`ip_blocked`) or is not blocked, whose
/// rate-limit check gave `rate` (`None` when the path is exempt), and whose path is or is not
/// `suspicious`.
pub open spec fn security_action_spec(
    ip_blocked: bool,
    rate: Option<RateLimitStatus>,
    suspicious: bool,
) -> SecurityAction {
    if ip_blocked {
        SecurityAction::RejectRateLimited
    } else if rate == Some(RateLimitStatus::Blocked) {
        SecurityAction::BlockAndReject { secs: 600 }
    } else if rate == Some(RateLimitStatus::Limited) {
        SecurityAction::RejectRateLimited
    } else if suspicious {
        SecurityAction::Forbid { failed_attempts: 3 }
    } else {
        SecurityAction::Pass
    }
}

/// Decides what the security layer does with a request.
pub fn security_action(
    ip_blocked: bool,
    rate: Option<RateLimitStatus>,
    suspicious: bool,
) -> (res: SecurityAction)
    ensures
        res == security_action_spec(ip_blocked, rate, suspicious),
{
    if ip_blocked {
        return SecurityAction::RejectRateLimited;
    }
    match rate {
        Some(RateLimitStatus::Blocked) => {
            return SecurityAction::BlockAndReject { secs: BLOCK_SECS };
        },
        Some(RateLimitStatus::Limited) => {
            return SecurityAction::RejectRateLimited;
        },
        _ => {},
    }
    if suspicious {
        SecurityAction::Forbid { failed_attempts: SUSPICIOUS_WEIGHT }
    } else {
        SecurityAction::Pass
    }
}


/// A path that begins with `/aturt` in any letter case (the limit-setting routes) is never
/// taken for a probe and never rate limited.
pub proof fn law_atur_paths_exempt(
    path: Seq<char>,
    suspicious: Seq<Seq<char>>,
    whitelist: Seq<Seq<char>>,
)
    requires
        has_prefix(lowercase_of(path), atur_prefix()),
    ensures
        !suspicious_spec(path, suspicious),
        whitelisted_spec(path, whitelist),
{
}


/// For an ASCII path, letter case does not matter: the path and its lowercase form are
/// judged alike as probes and as exempt from the rate limit (beyond the exact whitelist
/// match), the lowercase form being ASCII and its own lowercase form.
pub proof fn law_ascii_case_ignored(path: Seq<char>, suspicious: Seq<Seq<char>>)
    requires
        is_ascii_text(path),
    ensures
        is_ascii_text(ascii_lowercase(path)),
        suspicious_lower_spec(ascii_lowercase(ascii_lowercase(path)), suspicious)
            == suspicious_lower_spec(ascii_lowercase(path), suspicious),
        has_prefix(ascii_lowercase(ascii_lowercase(path)), atur_prefix()) == has_prefix(
            ascii_lowercase(path),
            atur_prefix(),
        ),
{
    law_ascii_lowercase_idempotent(path);
}

} // verus!
