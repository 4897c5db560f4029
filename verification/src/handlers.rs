use vstd::prelude::*;
use subtle::ConstantTimeEq;

use crate::parse::{parse_i64, parse_i64_spec};
use crate::text::{ascii_lowercase, is_ascii_text, chars_of, contains_chars, extend_chars, has_infix, lowercase_of, string_of, to_lowercase};
use crate::utils::{signed_decimal, signed_decimal_chars};

verus! {

/// The query string of a limit-setting request.
pub struct LimitQuery {
    pub key: Option<String>,
}

/// The fixed rules for setting the monthly limit.
pub struct LimitRules {
    /// The key a request must carry.
    pub secret_key: String,
    /// The least limit accepted.
    pub min_limit: i64,
    /// The greatest limit accepted.
    pub max_limit: i64,
    /// The least number of seconds between two accepted changes.
    pub cooldown_secs: u64,
}

/// Whether two texts have the same bytes, compared in time independent of their contents
/// once their lengths agree (`subtle::ConstantTimeEq::ct_eq` on byte slices).
///
/// Claims that the result is true exactly when the texts are equal: `ct_eq` on slices is 1
/// exactly when the lengths and all bytes agree, and UTF-8 encodes distinct texts as distinct
/// bytes.
#[verifier::external_body]
fn constant_time_eq(a: &str, b: &str) -> (res: bool)
    ensures
        res == (a@ == b@),
{
    bool::from(a.as_bytes().ct_eq(b.as_bytes()))
}

/// The outcome of a request to set the monthly limit.
#[derive(PartialEq, Eq, Structural, Clone, Copy, Debug)]
pub enum SetLimitOutcome {
    /// The address is blocked.
    IpBlocked,
    /// The request carries no key.
    MissingKey,
    /// The request carries a wrong key.
    WrongKey,
    /// The value is not an integer.
    NotANumber,
    /// The last accepted change is too recent.
    TooSoon,
    /// The value lies outside `min..=max`.
    OutOfRange { min: i64, max: i64 },
    /// The limit is set to the value.
    Accepted(i64),
}

/// Whether a request gets past the checks made before the clock is consulted.
pub open spec fn passes_key_and_value(
    ip_blocked: bool,
    value: Seq<char>,
    key: Option<Seq<char>>,
    secret: Seq<char>,
) -> bool {
    !ip_blocked && key == Some(secret) && parse_i64_spec(value) is Some
}

/// The outcome of a request to set the monthly limit to the text `value` with key `key`,
/// at Unix time `now`, when the last accepted change was at `last_success`. The checks come
/// in order: blocked address, missing key, wrong key, value not an integer, too soon after
/// the last change, value out of range.
pub open spec fn set_limit_spec(
    ip_blocked: bool,
    value: Seq<char>,
    key: Option<Seq<char>>,
    secret: Seq<char>,
    min_limit: i64,
    max_limit: i64,
    cooldown_secs: u64,
    now: u64,
    last_success: u64,
) -> SetLimitOutcome {
    if ip_blocked {
        SetLimitOutcome::IpBlocked
    } else if key is None {
        SetLimitOutcome::MissingKey
    } else if key != Some(secret) {
        SetLimitOutcome::WrongKey
    } else if parse_i64_spec(value) is None {
        SetLimitOutcome::NotANumber
    } else if now - last_success < cooldown_secs {
        SetLimitOutcome::TooSoon
    } else {
        let v = parse_i64_spec(value)->0;
        if v < min_limit || v > max_limit {
            SetLimitOutcome::OutOfRange { min: min_limit, max: max_limit }
        } else {
            SetLimitOutcome::Accepted(v)
        }
    }
}

/// A change is accepted only from an address that is not blocked, with the right key, for a
/// value that reads as an integer within the limits, once the cool-down has passed.
pub proof fn law_accepted_limit(
    ip_blocked: bool,
    value: Seq<char>,
    key: Option<Seq<char>>,
    secret: Seq<char>,
    min_limit: i64,
    max_limit: i64,
    cooldown_secs: u64,
    now: u64,
    last_success: u64,
    v: i64,
)
    requires
        set_limit_spec(
            ip_blocked,
            value,
            key,
            secret,
            min_limit,
            max_limit,
            cooldown_secs,
            now,
            last_success,
        ) == SetLimitOutcome::Accepted(v),
    ensures
        !ip_blocked,
        key == Some(secret),
        parse_i64_spec(value) == Some(v),
        min_limit <= v <= max_limit,
        now - last_success >= cooldown_secs,
{
}

/// A request from an address that is not blocked, with the right key, for a value that reads
/// as an integer within the limits, made once the cool-down has passed, is accepted with that
/// value.
pub proof fn law_valid_limit_accepted(
    value: Seq<char>,
    secret: Seq<char>,
    min_limit: i64,
    max_limit: i64,
    cooldown_secs: u64,
    now: u64,
    last_success: u64,
    v: i64,
)
    requires
        parse_i64_spec(value) == Some(v),
        min_limit <= v <= max_limit,
        last_success <= now,
        now - last_success >= cooldown_secs,
    ensures
        set_limit_spec(
            false,
            value,
            Some(secret),
            secret,
            min_limit,
            max_limit,
            cooldown_secs,
            now,
            last_success,
        ) == SetLimitOutcome::Accepted(v),
{
}

/// The key of a query, by its view.
pub open spec fn key_view(query: &LimitQuery) -> Option<Seq<char>> {
    match query.key {
        Some(k) => Some(k@),
        None => None,
    }
}

/// Decides a request to set the monthly limit.
pub fn set_limit(
    ip_blocked: bool,
    value: &str,
    query: &LimitQuery,
    rules: &LimitRules,
    now: u64,
    last_success: u64,
) -> (res: SetLimitOutcome)
    requires
        passes_key_and_value(ip_blocked, value@, key_view(query), rules.secret_key@)
            ==> last_success <= now,
    ensures
        res == set_limit_spec(
            ip_blocked,
            value@,
            key_view(query),
            rules.secret_key@,
            rules.min_limit,
            rules.max_limit,
            rules.cooldown_secs,
            now,
            last_success,
        ),
{
    if ip_blocked {
        return SetLimitOutcome::IpBlocked;
    }
    let key = match &query.key {
        Some(k) => k,
        None => {
            return SetLimitOutcome::MissingKey;
        },
    };
    let secret = rules.secret_key.as_str();
    if key.as_str().len() != secret.len() || !constant_time_eq(key.as_str(), secret) {
        return SetLimitOutcome::WrongKey;
    }
    let int_value = match parse_i64(&chars_of(value)) {
        Some(v) => v,
        None => {
            return SetLimitOutcome::NotANumber;
        },
    };
    if now - last_success < rules.cooldown_secs {
        return SetLimitOutcome::TooSoon;
    }
    if int_value < rules.min_limit || int_value > rules.max_limit {
        return SetLimitOutcome::OutOfRange { min: rules.min_limit, max: rules.max_limit };
    }
    SetLimitOutcome::Accepted(int_value)
}

impl SetLimitOutcome {
    /// The HTTP status code of the answer.
    pub fn status_code(&self) -> (res: u16)
        ensures
            res == match *self {
                SetLimitOutcome::IpBlocked | SetLimitOutcome::TooSoon => 429u16,
                SetLimitOutcome::WrongKey => 403u16,
                SetLimitOutcome::Accepted(_) => 200u16,
                _ => 400u16,
            },
    {
        match self {
            SetLimitOutcome::IpBlocked | SetLimitOutcome::TooSoon => 429,
            SetLimitOutcome::WrongKey => 403,
            SetLimitOutcome::Accepted(_) => 200,
            _ => 400,
        }
    }

    /// The text of a refusal (`None` for an accepted change, answered with the new limit).
    pub fn message(&self) -> (res: Option<String>)
        ensures
            match *self {
                SetLimitOutcome::IpBlocked => res matches Some(m) && m@ == "IP diblokir sementara"@,
                SetLimitOutcome::MissingKey => res matches Some(m) && m@
                    == "Parameter key diperlukan"@,
                SetLimitOutcome::WrongKey => res matches Some(m) && m@ == "Akses ditolak"@,
                SetLimitOutcome::NotANumber => res matches Some(m) && m@
                    == "Nilai harus berupa angka"@,
                SetLimitOutcome::TooSoon => res matches Some(m) && m@ == "Terlalu cepat"@,
                SetLimitOutcome::OutOfRange { min, max } => res matches Some(m) && m@
                    == "Nilai harus "@ + signed_decimal(min as int) + seq!['-'] + signed_decimal(
                    max as int,
                ),
                SetLimitOutcome::Accepted(_) => res is None,
            },
    {
        match self {
            SetLimitOutcome::IpBlocked => Some("IP diblokir sementara".to_owned()),
            SetLimitOutcome::MissingKey => Some("Parameter key diperlukan".to_owned()),
            SetLimitOutcome::WrongKey => Some("Akses ditolak".to_owned()),
            SetLimitOutcome::NotANumber => Some("Nilai harus berupa angka".to_owned()),
            SetLimitOutcome::TooSoon => Some("Terlalu cepat".to_owned()),
            SetLimitOutcome::OutOfRange { min, max } => {
                let mut out = chars_of("Nilai harus ");
                extend_chars(&mut out, &signed_decimal_chars(*min));
                out.push('-');
                extend_chars(&mut out, &signed_decimal_chars(*max));
                Some(string_of(&out))
            },
            SetLimitOutcome::Accepted(_) => None,
        }
    }

    /// How many failed attempts the request counts for against its address.
    pub fn failed_attempts(&self) -> (res: u32)
        ensures
            res == match *self {
                SetLimitOutcome::MissingKey => 2u32,
                SetLimitOutcome::WrongKey | SetLimitOutcome::NotANumber => 1u32,
                _ => 0u32,
            },
    {
        match self {
            SetLimitOutcome::MissingKey => 2,
            SetLimitOutcome::WrongKey | SetLimitOutcome::NotANumber => 1,
            _ => 0,
        }
    }
}

/// The outcome of a request for a path that no route serves.
#[derive(PartialEq, Eq, Structural, Clone, Copy, Debug)]
pub enum CatchAllOutcome {
    /// The address is blocked.
    IpBlocked,
    /// The path looks like an attempt on the administration; counts 2 failed attempts.
    Forbidden,
    /// An ordinary unknown path; counts 1 failed attempt.
    NotFound,
}

/// The outcome for an unknown path whose lowercase form is `lower`: blocked addresses first,
/// then paths containing `atur`, `admin` or `config` are forbidden, and all others are not
/// found.
pub open spec fn catch_all_lower_spec(ip_blocked: bool, lower: Seq<char>) -> CatchAllOutcome {
    if ip_blocked {
        CatchAllOutcome::IpBlocked
    } else if has_infix(lower, seq!['a', 't', 'u', 'r']) || has_infix(
        lower,
        seq!['a', 'd', 'm', 'i', 'n'],
    ) || has_infix(lower, seq!['c', 'o', 'n', 'f', 'i', 'g']) {
        CatchAllOutcome::Forbidden
    } else {
        CatchAllOutcome::NotFound
    }
}

/// The outcome for an unknown path, judged by its lowercase form.
pub open spec fn catch_all_spec(ip_blocked: bool, path: Seq<char>) -> CatchAllOutcome {
    catch_all_lower_spec(ip_blocked, lowercase_of(path))
}

/// Decides a request for a path that no route serves, given the lowercased path.
pub fn catch_all_lowercase(ip_blocked: bool, lower_path: &str) -> (res: CatchAllOutcome)
    ensures
        res == catch_all_lower_spec(ip_blocked, lower_path@),
{
    let lower = chars_of(lower_path);
    if ip_blocked {
        return CatchAllOutcome::IpBlocked;
    }
    let mut atur: Vec<char> = Vec::new();
    atur.push('a');
    atur.push('t');
    atur.push('u');
    atur.push('r');
    let mut admin: Vec<char> = Vec::new();
    admin.push('a');
    admin.push('d');
    admin.push('m');
    admin.push('i');
    admin.push('n');
    let mut config: Vec<char> = Vec::new();
    config.push('c');
    config.push('o');
    config.push('n');
    config.push('f');
    config.push('i');
    config.push('g');
    proof {
        assert(atur@ =~= seq!['a', 't', 'u', 'r']);
        assert(admin@ =~= seq!['a', 'd', 'm', 'i', 'n']);
        assert(config@ =~= seq!['c', 'o', 'n', 'f', 'i', 'g']);
    }
    if contains_chars(&lower, &atur) || contains_chars(&lower, &admin) || contains_chars(
        &lower,
        &config,
    ) {
        CatchAllOutcome::Forbidden
    } else {
        CatchAllOutcome::NotFound
    }
}

/// Decides a request for a path that no route serves.
pub fn catch_all(ip_blocked: bool, path: &str) -> (res: CatchAllOutcome)
    ensures
        res == catch_all_spec(ip_blocked, path@),
        is_ascii_text(path@) ==> res == catch_all_lower_spec(ip_blocked, ascii_lowercase(path@)),
{
    let lower = to_lowercase(path);
    catch_all_lowercase(ip_blocked, lower.as_str())
}

impl CatchAllOutcome {
    /// The text of the answer.
    pub fn message(&self) -> (res: String)
        ensures
            res@ == match *self {
                CatchAllOutcome::IpBlocked => "IP diblokir sementara"@,
                CatchAllOutcome::Forbidden => "Akses ditolak"@,
                CatchAllOutcome::NotFound => "Halaman tidak ditemukan"@,
            },
    {
        match self {
            CatchAllOutcome::IpBlocked => "IP diblokir sementara".to_owned(),
            CatchAllOutcome::Forbidden => "Akses ditolak".to_owned(),
            CatchAllOutcome::NotFound => "Halaman tidak ditemukan".to_owned(),
        }
    }

    /// The HTTP status code of the answer.
    pub fn status_code(&self) -> (res: u16)
        ensures
            res == match *self {
                CatchAllOutcome::IpBlocked => 429u16,
                CatchAllOutcome::Forbidden => 403u16,
                CatchAllOutcome::NotFound => 404u16,
            },
    {
        match self {
            CatchAllOutcome::IpBlocked => 429,
            CatchAllOutcome::Forbidden => 403,
            CatchAllOutcome::NotFound => 404,
        }
    }

    /// How many failed attempts the request counts for against its address.
    pub fn failed_attempts(&self) -> (res: u32)
        ensures
            res == match *self {
                CatchAllOutcome::IpBlocked => 0u32,
                CatchAllOutcome::Forbidden => 2u32,
                CatchAllOutcome::NotFound => 1u32,
            },
    {
        match self {
            CatchAllOutcome::IpBlocked => 0,
            CatchAllOutcome::Forbidden => 2,
            CatchAllOutcome::NotFound => 1,
        }
    }
}

/// The outcome of a limit-setting request that names no value.
#[derive(PartialEq, Eq, Structural, Clone, Copy, Debug)]
pub enum MissingValueOutcome {
    /// The address is blocked.
    IpBlocked,
    /// The request is incomplete; counts 1 failed attempt.
    Incomplete,
}

impl MissingValueOutcome {
    /// The HTTP status code of the answer.
    pub fn status_code(&self) -> (res: u16)
        ensures
            res == match *self {
                MissingValueOutcome::IpBlocked => 429u16,
                MissingValueOutcome::Incomplete => 400u16,
            },
    {
        match self {
            MissingValueOutcome::IpBlocked => 429,
            MissingValueOutcome::Incomplete => 400,
        }
    }

    /// The text of the answer.
    pub fn message(&self) -> (res: String)
        ensures
            res@ == match *self {
                MissingValueOutcome::IpBlocked => "IP diblokir sementara"@,
                MissingValueOutcome::Incomplete => "Parameter tidak lengkap"@,
            },
    {
        match self {
            MissingValueOutcome::IpBlocked => "IP diblokir sementara".to_owned(),
            MissingValueOutcome::Incomplete => "Parameter tidak lengkap".to_owned(),
        }
    }

    /// How many failed attempts the request counts for against its address.
    pub fn failed_attempts(&self) -> (res: u32)
        ensures
            res == match *self {
                MissingValueOutcome::IpBlocked => 0u32,
                MissingValueOutcome::Incomplete => 1u32,
            },
    {
        match self {
            MissingValueOutcome::IpBlocked => 0,
            MissingValueOutcome::Incomplete => 1,
        }
    }
}

/// Decides a limit-setting request that names no value.
pub fn atur_ts_no_value(ip_blocked: bool) -> (res: MissingValueOutcome)
    ensures
        res == (if ip_blocked {
            MissingValueOutcome::IpBlocked
        } else {
            MissingValueOutcome::Incomplete
        }),
{
    if ip_blocked {
        MissingValueOutcome::IpBlocked
    } else {
        MissingValueOutcome::Incomplete
    }
}

} // verus!
