//! Sort orders of the host list, including the favorites-first law and
//! selection restoration.

use ggoto::app::{App, SortOrder};
use ggoto::server::{Server, SystemMetrics};

fn host(name: &str) -> Server {
    Server::new(name.to_string(), format!("{}.example.com", name))
}

fn app_with(names: &[&str]) -> App {
    let mut app = App::new();
    app.servers = names.iter().map(|n| host(n)).collect();
    app
}

#[test]
fn test_sort_by_name() {
    let mut app = app_with(&["carol", "alice", "bob"]);
    app.sort_order = SortOrder::Name;
    app.sort_servers();
    let names: Vec<&str> = app.servers.iter().map(|s| s.host.as_str()).collect();
    assert_eq!(names, vec!["alice", "bob", "carol"]);
}

#[test]
fn test_sort_favorites_first_then_names() {
    let mut app = app_with(&["delta", "alpha", "echo", "bravo"]);
    app.history.toggle_favorite("echo");
    app.history.toggle_favorite("bravo");
    app.sort_order = SortOrder::Favorites;
    app.sort_servers();
    let names: Vec<&str> = app.servers.iter().map(|s| s.host.as_str()).collect();
    // favorites first, names ascending within each class
    assert_eq!(names, vec!["bravo", "echo", "alpha", "delta"]);
}

#[test]
fn test_sort_recently_used_most_recent_first() {
    let mut app = app_with(&["one", "two", "three"]);
    app.history.record_connection("two", 1000);
    app.history.record_connection("three", 2000);
    app.sort_order = SortOrder::RecentlyUsed;
    app.sort_servers();
    let names: Vec<&str> = app.servers.iter().map(|s| s.host.as_str()).collect();
    // hosts with history first, most recent first; no-history hosts last
    assert_eq!(names, vec!["three", "two", "one"]);
}

#[test]
fn test_sort_latency_missing_last() {
    let mut app = app_with(&["a", "b", "c"]);
    app.servers[0].latency = Some(200);
    app.servers[2].latency = Some(10);
    app.sort_order = SortOrder::Latency;
    app.sort_servers();
    let names: Vec<&str> = app.servers.iter().map(|s| s.host.as_str()).collect();
    assert_eq!(names, vec!["c", "a", "b"]);
}

#[test]
fn test_sort_cpu_and_ram() {
    let mut app = app_with(&["x", "y", "z"]);
    let mut mx = SystemMetrics::default();
    mx.cpu_usage = 9000;
    mx.ram_used = 30;
    mx.ram_total = 100;
    let mut my = SystemMetrics::default();
    my.cpu_usage = 100;
    my.ram_used = 90;
    my.ram_total = 100;
    app.servers[0].metrics = Some(mx);
    app.servers[1].metrics = Some(my);

    app.sort_order = SortOrder::CpuUsage;
    app.sort_servers();
    let names: Vec<&str> = app.servers.iter().map(|s| s.host.as_str()).collect();
    assert_eq!(names, vec!["y", "x", "z"]);

    app.sort_order = SortOrder::RamUsage;
    app.sort_servers();
    let names: Vec<&str> = app.servers.iter().map(|s| s.host.as_str()).collect();
    assert_eq!(names, vec!["x", "y", "z"]);
}

#[test]
fn test_sort_group_empty_last() {
    let mut app = app_with(&["solo", "web-1", "db-1"]);
    app.servers[1].group = Some("web".to_string());
    app.servers[2].group = Some("db".to_string());
    // "solo" keeps no group at all and must sort last
    app.sort_order = SortOrder::Group;
    app.sort_servers();
    let names: Vec<&str> = app.servers.iter().map(|s| s.host.as_str()).collect();
    assert_eq!(names, vec!["db-1", "web-1", "solo"]);
}

#[test]
fn test_cycle_sort_order_wraps() {
    let mut app = App::new();
    assert_eq!(app.sort_order, SortOrder::Name);
    for _ in 0..7 {
        app.cycle_sort_order();
    }
    assert_eq!(app.sort_order, SortOrder::Name);
}

#[test]
fn test_sort_order_tags_round_trip() {
    for order in [
        SortOrder::Name,
        SortOrder::Favorites,
        SortOrder::RecentlyUsed,
        SortOrder::Latency,
        SortOrder::CpuUsage,
        SortOrder::RamUsage,
        SortOrder::Group,
    ] {
        assert_eq!(SortOrder::from_str(order.as_str()), order);
    }
    assert_eq!(SortOrder::from_str("anything else"), SortOrder::Name);
}

#[test]
fn test_toggle_favorite_keeps_selection_on_same_host() {
    // while sorted by favorites, toggling the selected host re-sorts the
    // list but the selection follows the host by name, not by position
    let mut app = app_with(&["alpha", "bravo", "carol", "delta"]);
    app.sort_order = SortOrder::Favorites;
    app.sort_servers();
    app.selected_index = 3;  // "delta"
    let before = app.selected_server().expect("valid selection").host.clone();
    assert_eq!(before, "delta");

    app.apply_toggle_favorite();

    // "delta" is now a favorite and moved to the front; the selection
    // must still rest on it
    assert!(app.history.is_favorite("delta"));
    let after = app.selected_server().expect("still selected").host.clone();
    assert_eq!(after, "delta");
    assert_eq!(app.selected_index, 0);
}
