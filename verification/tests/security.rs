use gold_rates::handlers::catch_all;
use gold_rates::security::{
    get_client_ip, is_suspicious_lowercase, is_suspicious_path, is_whitelisted,
    is_whitelisted_lowercase, security_action, RateLimitStatus,
    SecurityAction,
};

const SUSPICIOUS: &[&str] = &["/.env", "wp-admin", "phpmyadmin"];
const WHITELIST: &[&str] = &["/", "/health", "/api/state", "/ws"];

#[test]
fn client_ip_from_headers() {
    assert_eq!(get_client_ip(Some(" 1.2.3.4 , 5.6.7.8"), Some("9.9.9.9")), "1.2.3.4");
    assert_eq!(get_client_ip(Some("1.2.3.4"), None), "1.2.3.4");
    assert_eq!(get_client_ip(Some(",1.2.3.4"), None), "");
    assert_eq!(get_client_ip(None, Some("\t9.9.9.9 ")), "9.9.9.9");
    assert_eq!(get_client_ip(None, Some("\u{3000}9.9.9.9\u{a0}")), "9.9.9.9");
    assert_eq!(get_client_ip(None, None), "unknown");
}

#[test]
fn suspicious_paths() {
    assert!(is_suspicious_path("/.env", SUSPICIOUS));
    assert!(is_suspicious_path("/blog/WP-Admin/setup.php", SUSPICIOUS));
    assert!(is_suspicious_path("/PhpMyAdmin", SUSPICIOUS));
    assert!(!is_suspicious_path("/api/state", SUSPICIOUS));
    assert!(!is_suspicious_path("/aturTS/wp-admin", SUSPICIOUS));
    assert!(!is_suspicious_path("/ATURT.env", SUSPICIOUS));
    assert!(!is_suspicious_path("/.env", &[]));
}

#[test]
fn whitelisted_paths() {
    assert!(is_whitelisted("/health", WHITELIST));
    assert!(!is_whitelisted("/Health", WHITELIST));
    assert!(is_whitelisted("/aturTS/123", WHITELIST));
    assert!(is_whitelisted("/AturTs", WHITELIST));
    assert!(!is_whitelisted("/atur", WHITELIST));
    assert!(!is_whitelisted("/random", WHITELIST));
}

#[test]
fn security_actions() {
    assert_eq!(security_action(true, None, true), SecurityAction::RejectRateLimited);
    assert_eq!(
        security_action(false, Some(RateLimitStatus::Blocked), true),
        SecurityAction::BlockAndReject { secs: 600 }
    );
    assert_eq!(
        security_action(false, Some(RateLimitStatus::Limited), false),
        SecurityAction::RejectRateLimited
    );
    assert_eq!(
        security_action(false, Some(RateLimitStatus::Allowed), true),
        SecurityAction::Forbid { failed_attempts: 3 }
    );
    assert_eq!(security_action(false, None, true), SecurityAction::Forbid { failed_attempts: 3 });
    assert_eq!(security_action(false, Some(RateLimitStatus::Allowed), false), SecurityAction::Pass);
    assert_eq!(security_action(false, None, false), SecurityAction::Pass);
}

#[test]
fn lowercase_forms_decide() {
    assert!(is_suspicious_lowercase("/x/wp-admin", SUSPICIOUS));
    assert!(!is_suspicious_lowercase("/aturts/.env", SUSPICIOUS));
    assert!(!is_suspicious_lowercase("/WP-ADMIN", SUSPICIOUS));
    assert!(is_suspicious_path("/ATURX/.ENV", SUSPICIOUS));
    assert!(!is_suspicious_path("/ATURTS/.env", SUSPICIOUS));
    assert!(is_whitelisted_lowercase("/AturTS", "/aturts", WHITELIST));
    assert!(is_whitelisted_lowercase("/ws", "/ws", WHITELIST));
    assert!(!is_whitelisted_lowercase("/WS", "/ws", WHITELIST));
}

#[test]
fn ascii_case_is_ignored() {
    for p in ["/ATURTS/.env", "/WP-Admin", "/Api/State", "/PHPMYADMIN/x", "/ws"] {
        let lower = p.to_ascii_lowercase();
        assert_eq!(is_suspicious_path(p, SUSPICIOUS), is_suspicious_path(&lower, SUSPICIOUS));
        assert_eq!(
            catch_all(false, p),
            catch_all(false, &lower)
        );
    }
    assert!(!is_suspicious_path("/ATURTS/.env", SUSPICIOUS));
    assert!(is_whitelisted("/ATURTS/5", WHITELIST));
}
