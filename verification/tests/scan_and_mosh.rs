//! The bounded-scan scheduler and the static install knowledge.

use ggoto::health::{BulkScan, MAX_CONCURRENT_CHECKS};
use ggoto::mosh::{get_install_command, get_install_instructions};

#[test]
fn test_bulk_scan_never_exceeds_capacity() {
    // scanning 12 hosts: the scheduler hands out at most 5 permits at
    // any instant, and hands out the rest only as probes complete
    let mut scan = BulkScan::new_default(12);
    let mut launched = Vec::new();
    while let Some(idx) = scan.try_launch() {
        launched.push(idx);
    }
    assert_eq!(launched, vec![0, 1, 2, 3, 4]);
    assert_eq!(scan.active, MAX_CONCURRENT_CHECKS);
    assert!(scan.try_launch().is_none());

    // one completion frees exactly one permit
    scan.on_complete();
    assert_eq!(scan.active, 4);
    assert_eq!(scan.try_launch(), Some(5));
    assert_eq!(scan.active, 5);
    assert!(scan.try_launch().is_none());

    // drain the rest; the permit count never passes the capacity
    let mut done = 6;
    loop {
        scan.on_complete();
        assert!(scan.active <= scan.capacity);
        match scan.try_launch() {
            Some(idx) => {
                assert_eq!(idx, done);
                done += 1;
            }
            None => {
                if scan.done() {
                    break;
                }
            }
        }
    }
    assert_eq!(done, 12);
}

#[test]
fn test_single_refresh_is_not_gated() {
    // a targeted refresh of one host runs unconditionally: it never asks
    // the bulk scheduler for a permit, so a full scheduler cannot block
    // it; the scheduler itself stays saturated
    let mut scan = BulkScan::new_default(6);
    for _ in 0..5 {
        scan.try_launch();
    }
    assert!(scan.try_launch().is_none());
    let update = ggoto::health::evaluate_probe(3, Some(42), None);
    assert_eq!(update.server_idx, 3);
    assert_eq!(scan.active, 5);
}

#[test]
fn test_get_install_instructions() {
    let instructions = get_install_instructions();
    assert!(instructions.contains("brew install mosh"));
    assert!(instructions.contains("apt install mosh"));
    assert!(instructions.contains("60000-61000"));
}

#[test]
fn test_get_install_command_table() {
    assert_eq!(get_install_command("brew"), "brew install mosh");
    assert_eq!(get_install_command("apt"), "sudo apt install -y mosh");
    assert_eq!(get_install_command("pacman"), "sudo pacman -S --noconfirm mosh");
    assert_eq!(get_install_command("unknown"), "echo 'Unknown package manager'");
}

#[test]
fn test_demo_servers_shape() {
    let servers = ggoto::server::generate_demo_servers(5_000);
    assert_eq!(servers.len(), 12);
    for s in &servers {
        assert!(s.latency.is_some());
        assert!(s.metrics.is_some());
        assert_eq!(s.last_check, Some(5_000));
    }
    // one host is slow enough to be degraded
    assert!(servers
        .iter()
        .any(|s| s.status == ggoto::server::HealthStatus::Degraded));
    assert!(servers
        .iter()
        .any(|s| s.status == ggoto::server::HealthStatus::Healthy));
}

#[test]
fn test_ram_usage_percent() {
    let mut m = ggoto::server::SystemMetrics::default();
    assert_eq!(m.ram_usage_percent(), 0);
    m.ram_used = 4200000000;
    m.ram_total = 8000000000;
    // hundredths of a percent
    assert_eq!(m.ram_usage_percent(), 5250);
}

#[test]
fn test_server_accessors() {
    let mut s = ggoto::server::Server::new("a".to_string(), "a.example.com".to_string());
    assert_eq!(s.latency_ms(), None);
    s.latency = Some(77);
    assert_eq!(s.latency_ms(), Some(77));
    assert!(s.metrics_stale(1_000_000));
    s.last_check = Some(1_000_000);
    assert!(!s.metrics_stale(1_020_000));
    assert!(s.metrics_stale(1_031_000));
}
