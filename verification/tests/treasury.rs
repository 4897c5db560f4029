use gold_rates::history::BoundedHistory;
use gold_rates::parse::RateValue;
use gold_rates::treasury::{
    classify_pusher_event, price_movement, process_treasury_data, GoldRateData, PusherEvent,
    Reconnect, SeenUpdates, TreasuryState,
};
use gold_rates::usd_idr::{
    extract_usd_idr_price, quote_price, record_usd_price, usd_price_changed, UsdIdrEntry,
};
use gold_rates::utils::format_diff_display;

fn update(buy: &str, sell: i64, created: &str) -> GoldRateData {
    GoldRateData {
        buying_rate: Some(RateValue::Text(buy.to_string())),
        selling_rate: Some(RateValue::Number(sell)),
        created_at: Some(created.to_string()),
    }
}

#[test]
fn bounded_history_keeps_latest() {
    let mut h: BoundedHistory<u32> = BoundedHistory::new(3);
    for i in 0..5u32 {
        h.push(i);
    }
    assert_eq!(h.len(), 3);
    assert_eq!(h.entries().iter().copied().collect::<Vec<_>>(), vec![2, 3, 4]);
    assert_eq!(h.latest(), Some(&4));
    assert_eq!(h.capacity(), 3);
}

#[test]
fn seen_updates_dedupe_and_clear() {
    let mut s = SeenUpdates::new();
    assert!(s.remember("a".to_string()));
    assert!(!s.remember("a".to_string()));
    assert!(s.contains(&"a".to_string()));
    for i in 0..4999 {
        assert!(s.remember(format!("k{}", i)));
    }
    assert_eq!(s.len(), 5000);
    assert!(s.remember("last".to_string()));
    assert_eq!(s.len(), 1);
    assert!(s.contains(&"last".to_string()));
    assert!(!s.contains(&"k4998".to_string()));
    assert!(!s.contains(&"a".to_string()));
}

#[test]
fn treasury_updates() {
    let mut st = TreasuryState::new(2);
    assert!(process_treasury_data(&mut st, update("1.000.000", 990000, "2024-01-01 10:00:00")));
    assert!(!process_treasury_data(&mut st, update("1.000.000", 990000, "2024-01-01 10:00:00")));
    assert!(process_treasury_data(&mut st, update("1.005.000", 995000, "2024-01-01 10:01:00")));
    assert!(process_treasury_data(&mut st, update("1.002.000", 992000, "2024-01-01 10:02:00")));
    assert!(!process_treasury_data(&mut st, update("abc", 1, "2024-01-01 10:03:00")));
    assert!(!process_treasury_data(&mut st, update("1", 1, "")));
    let no_sell = GoldRateData { selling_rate: None, ..update("1", 1, "x") };
    assert!(!process_treasury_data(&mut st, no_sell));
    assert_eq!(st.last_buy, Some(1002000));
    let entries: Vec<_> = st.history.entries().iter().collect();
    assert_eq!(entries.len(), 2);
    assert_eq!(entries[0].status, "🚀");
    assert_eq!(entries[0].diff, 5000);
    assert_eq!(entries[1].status, "🔻");
    assert_eq!(entries[1].diff, -3000);
    assert_eq!(entries[1].selling_rate, 992000);
    assert_eq!(entries[1].created_at, "2024-01-01 10:02:00");
    assert_eq!(format_diff_display(entries[1].diff, &entries[1].status), "🔻-3.000");
}

#[test]
fn movements() {
    assert_eq!(price_movement(None, 5), ("➖".to_string(), 0));
    assert_eq!(price_movement(Some(5), 5), ("➖".to_string(), 0));
    assert_eq!(price_movement(Some(5), 9), ("🚀".to_string(), 4));
    assert_eq!(price_movement(Some(9), 5), ("🔻".to_string(), -4));
}

#[test]
fn reconnect_waits() {
    let mut r = Reconnect::new();
    assert_eq!(r.wait_secs(), 0);
    for _ in 0..20 {
        r.connect_failed();
    }
    assert_eq!(r.wait_secs(), 15);
    r.connected();
    r.connect_failed();
    assert_eq!(r.wait_secs(), 1);
}

#[test]
fn pusher_events() {
    let ev = "App\\Events\\GoldRateEvent";
    assert_eq!(classify_pusher_event(Some(ev), ev), PusherEvent::RateUpdate);
    assert_eq!(
        classify_pusher_event(Some("pusher:connection_established"), ev),
        PusherEvent::ConnectionEstablished
    );
    assert_eq!(
        classify_pusher_event(Some("pusher_internal:subscription_succeeded"), ev),
        PusherEvent::SubscriptionSucceeded
    );
    assert_eq!(classify_pusher_event(Some("pusher:error"), ev), PusherEvent::Error);
    assert_eq!(classify_pusher_event(None, ev), PusherEvent::Other);
    assert_eq!(classify_pusher_event(None, ""), PusherEvent::RateUpdate);
}

#[test]
fn usd_history_records_changes_only() {
    let mut h: BoundedHistory<UsdIdrEntry> = BoundedHistory::new(2);
    assert!(usd_price_changed(&h, &"16.250,00".to_string()));
    assert!(record_usd_price(&mut h, "16.250,00".to_string()));
    assert!(!record_usd_price(&mut h, "16.250,00".to_string()));
    assert!(record_usd_price(&mut h, "16.260,00".to_string()));
    assert!(record_usd_price(&mut h, "16.250,00".to_string()));
    let prices: Vec<_> = h.entries().iter().map(|e| e.price.clone()).collect();
    assert_eq!(prices, vec!["16.260,00".to_string(), "16.250,00".to_string()]);
    assert_eq!(h.latest().unwrap().time.len(), 8);
}

#[test]
fn usd_price_extracted_from_page() {
    let page = r#"<html><body><div class="YMlKec">x</div><div class="YMlKec fxKbKc">
        16.250,<b>50</b> </div><div class="YMlKec fxKbKc">1</div></body></html>"#;
    assert_eq!(extract_usd_idr_price(page), Some("16.250,50".to_string()));
    assert_eq!(extract_usd_idr_price("<html><p>none</p></html>"), None);
    assert_eq!(quote_price(Some("  16.100,00\n")), Some("16.100,00".to_string()));
    assert_eq!(quote_price(None), None);
}

#[test]
fn zero_capacity_history_keeps_newest() {
    let mut h: BoundedHistory<u32> = BoundedHistory::new(0);
    h.push(1);
    h.push(2);
    assert_eq!(h.len(), 1);
    assert_eq!(h.latest(), Some(&2));
    let mut st = TreasuryState::new(0);
    assert!(process_treasury_data(&mut st, update("10", 9, "t1")));
    assert!(process_treasury_data(&mut st, update("12", 9, "t2")));
    assert_eq!(st.history.len(), 1);
}
