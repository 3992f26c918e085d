//! Connection history, favorites and relative-age rendering.

use ggoto::history::History;

#[test]
fn test_record_connection_counts() {
    let mut h = History::new();
    assert_eq!(h.connect_count("web-01"), 0);
    assert!(h.last_connected("web-01").is_none());

    h.record_connection("web-01", 1000);
    assert_eq!(h.connect_count("web-01"), 1);
    assert_eq!(h.last_connected("web-01"), Some(1000));

    h.record_connection("web-01", 2500);
    assert_eq!(h.connect_count("web-01"), 2);
    assert_eq!(h.last_connected("web-01"), Some(2500));

    // other hosts are untouched
    assert_eq!(h.connect_count("db-01"), 0);
}

#[test]
fn test_toggle_favorite_flips() {
    let mut h = History::new();
    assert!(!h.is_favorite("web-01"));
    h.toggle_favorite("web-01");
    assert!(h.is_favorite("web-01"));
    h.toggle_favorite("db-01");
    assert!(h.is_favorite("db-01"));
    h.toggle_favorite("web-01");
    assert!(!h.is_favorite("web-01"));
    assert!(h.is_favorite("db-01"));
}

#[test]
fn test_sort_order_preference() {
    let mut h = History::new();
    assert_eq!(h.get_sort_order(), "");
    h.set_sort_order("latency");
    assert_eq!(h.get_sort_order(), "latency");
}

#[test]
fn test_format_last_connected_buckets() {
    let mut h = History::new();
    assert_eq!(h.format_last_connected("ghost", 1000, "01/01"), "-");

    h.record_connection("web", 1_000_000);
    assert_eq!(h.format_last_connected("web", 1_000_030, "01/01"), "just now");
    assert_eq!(h.format_last_connected("web", 1_000_000 + 5 * 60, "01/01"), "5m ago");
    assert_eq!(h.format_last_connected("web", 1_000_000 + 3 * 3600, "01/01"), "3h ago");
    assert_eq!(h.format_last_connected("web", 1_000_000 + 2 * 86400, "01/01"), "2d ago");
    assert_eq!(h.format_last_connected("web", 1_000_000 + 2 * 604800, "01/01"), "2w ago");
    assert_eq!(h.format_last_connected("web", 1_000_000 + 10 * 604800, "01/01"), "01/01");
}
