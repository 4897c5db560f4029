use gold_rates::handlers::{
    atur_ts_no_value, catch_all, catch_all_lowercase, set_limit, CatchAllOutcome, LimitQuery, LimitRules,
    MissingValueOutcome, SetLimitOutcome,
};

fn rules() -> LimitRules {
    LimitRules { secret_key: "rahasia".to_string(), min_limit: 1, max_limit: 100, cooldown_secs: 5 }
}

fn key(k: &str) -> LimitQuery {
    LimitQuery { key: Some(k.to_string()) }
}

#[test]
fn set_limit_outcomes() {
    let r = rules();
    assert_eq!(set_limit(true, "10", &key("rahasia"), &r, 100, 0), SetLimitOutcome::IpBlocked);
    assert_eq!(set_limit(false, "10", &LimitQuery { key: None }, &r, 100, 0), SetLimitOutcome::MissingKey);
    assert_eq!(set_limit(false, "10", &key("rahasib"), &r, 100, 0), SetLimitOutcome::WrongKey);
    assert_eq!(set_limit(false, "10", &key("rahasia!"), &r, 100, 0), SetLimitOutcome::WrongKey);
    assert_eq!(set_limit(false, "10", &key(""), &r, 100, 0), SetLimitOutcome::WrongKey);
    assert_eq!(set_limit(false, "ten", &key("rahasia"), &r, 100, 0), SetLimitOutcome::NotANumber);
    assert_eq!(set_limit(false, "10", &key("rahasia"), &r, 100, 97), SetLimitOutcome::TooSoon);
    assert_eq!(
        set_limit(false, "101", &key("rahasia"), &r, 100, 95),
        SetLimitOutcome::OutOfRange { min: 1, max: 100 }
    );
    assert_eq!(
        set_limit(false, "0", &key("rahasia"), &r, 100, 0),
        SetLimitOutcome::OutOfRange { min: 1, max: 100 }
    );
    assert_eq!(set_limit(false, "+100", &key("rahasia"), &r, 100, 95), SetLimitOutcome::Accepted(100));
    assert_eq!(set_limit(false, "1", &key("rahasia"), &r, 100, 0), SetLimitOutcome::Accepted(1));
}

#[test]
fn set_limit_answers() {
    assert_eq!(SetLimitOutcome::IpBlocked.status_code(), 429);
    assert_eq!(SetLimitOutcome::MissingKey.status_code(), 400);
    assert_eq!(SetLimitOutcome::MissingKey.failed_attempts(), 2);
    assert_eq!(SetLimitOutcome::WrongKey.status_code(), 403);
    assert_eq!(SetLimitOutcome::WrongKey.failed_attempts(), 1);
    assert_eq!(SetLimitOutcome::NotANumber.failed_attempts(), 1);
    assert_eq!(SetLimitOutcome::TooSoon.status_code(), 429);
    assert_eq!(SetLimitOutcome::TooSoon.failed_attempts(), 0);
    assert_eq!(SetLimitOutcome::Accepted(5).status_code(), 200);
    assert_eq!(SetLimitOutcome::Accepted(5).message(), None);
    assert_eq!(SetLimitOutcome::TooSoon.message().unwrap(), "Terlalu cepat");
    assert_eq!(
        SetLimitOutcome::OutOfRange { min: -5, max: 1200 }.message().unwrap(),
        "Nilai harus -5-1200"
    );
    assert_eq!(SetLimitOutcome::NotANumber.message().unwrap(), "Nilai harus berupa angka");
}

#[test]
fn catch_all_outcomes() {
    assert_eq!(catch_all(true, "/admin"), CatchAllOutcome::IpBlocked);
    assert_eq!(catch_all(false, "/ADMIN/login"), CatchAllOutcome::Forbidden);
    assert_eq!(catch_all(false, "/x/Config.yml"), CatchAllOutcome::Forbidden);
    assert_eq!(catch_all(false, "/Aturan"), CatchAllOutcome::Forbidden);
    assert_eq!(catch_all(false, "/favicon.ico"), CatchAllOutcome::NotFound);
    assert_eq!(CatchAllOutcome::Forbidden.failed_attempts(), 2);
    assert_eq!(CatchAllOutcome::NotFound.failed_attempts(), 1);
    assert_eq!(CatchAllOutcome::NotFound.status_code(), 404);
    assert_eq!(CatchAllOutcome::NotFound.message(), "Halaman tidak ditemukan");
}

#[test]
fn missing_value_outcomes() {
    assert_eq!(atur_ts_no_value(true), MissingValueOutcome::IpBlocked);
    assert_eq!(atur_ts_no_value(false), MissingValueOutcome::Incomplete);
    assert_eq!(MissingValueOutcome::Incomplete.message(), "Parameter tidak lengkap");
    assert_eq!(MissingValueOutcome::Incomplete.failed_attempts(), 1);
    assert_eq!(MissingValueOutcome::IpBlocked.status_code(), 429);
}

#[test]
fn catch_all_lowercase_forms() {
    assert_eq!(catch_all_lowercase(false, "/wp-config.php"), CatchAllOutcome::Forbidden);
    assert_eq!(catch_all_lowercase(false, "/ADMIN"), CatchAllOutcome::NotFound);
    assert_eq!(catch_all_lowercase(true, "/x"), CatchAllOutcome::IpBlocked);
    assert_eq!(catch_all(false, "/ADMIN"), CatchAllOutcome::Forbidden);
}
