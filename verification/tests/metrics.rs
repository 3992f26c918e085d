//! The tolerant metrics parser, probe classification and byte formatting.

use ggoto::health::{classify_latency, evaluate_probe, format_bytes, parse_metrics_output};
use ggoto::server::HealthStatus;

#[test]
fn test_parse_full_metrics_output() {
    let out = "===CORES===\n8\n===CPU===\n23.5\n===MEM===\n16000000000 4200000000\n===LOAD===\n0.52, 0.61, 0.70\n===USERS===\nalice\nbob\n===GPU===\nNVIDIA A100, 85.5, 1024, 40960\n===MOSH===\nyes\n";
    let m = parse_metrics_output(out);
    assert_eq!(m.cpu_cores, 8);
    assert_eq!(m.cpu_usage, 2350);
    assert_eq!(m.ram_total, 16000000000);
    assert_eq!(m.ram_used, 4200000000);
    assert_eq!(m.load_average, (52, 61, 70));
    assert_eq!(m.logged_in_users, vec!["alice".to_string(), "bob".to_string()]);
    assert_eq!(m.gpus.len(), 1);
    assert_eq!(m.gpus[0].name, "NVIDIA A100");
    assert_eq!(m.gpus[0].utilization, 8550);
    assert_eq!(m.gpus[0].memory_used, 1024 * 1024 * 1024);
    assert_eq!(m.gpus[0].memory_total, 40960 * 1024 * 1024);
    assert!(m.has_mosh);
}

#[test]
fn test_parse_tolerates_garbage() {
    // unparsable numbers default to zero, unknown sections are ignored,
    // and nothing ever fails
    let out = "noise before any header\n===CORES===\nnot-a-number\n===WEATHER===\nsunny\n===MEM===\nonly-one-field\n===GPU===\nrocm something\n===MOSH===\nno\n";
    let m = parse_metrics_output(out);
    assert_eq!(m.cpu_cores, 0);
    assert_eq!(m.cpu_usage, 0);
    assert_eq!(m.ram_total, 0);
    assert_eq!(m.ram_used, 0);
    assert_eq!(m.gpus.len(), 0);
    assert!(!m.has_mosh);
}

#[test]
fn test_parse_empty_output() {
    let m = parse_metrics_output("");
    assert_eq!(m.cpu_cores, 0);
    assert_eq!(m.logged_in_users.len(), 0);
    assert_eq!(m.load_average, (0, 0, 0));
}

#[test]
fn test_parse_gpu_needs_four_fields() {
    let out = "===GPU===\nshort, 1, 2\nfull GPU, 50, 8, 16\n";
    let m = parse_metrics_output(out);
    assert_eq!(m.gpus.len(), 1);
    assert_eq!(m.gpus[0].name, "full GPU");
    assert_eq!(m.gpus[0].utilization, 5000);
}

#[test]
fn test_classify_latency_threshold() {
    assert_eq!(classify_latency(Some(50)), HealthStatus::Healthy);
    assert_eq!(classify_latency(Some(100)), HealthStatus::Healthy);
    assert_eq!(classify_latency(Some(101)), HealthStatus::Degraded);
    assert_eq!(classify_latency(None), HealthStatus::Unreachable);
}

#[test]
fn test_evaluate_probe_unreachable_skips_metrics() {
    let upd = evaluate_probe(3, None, Some("===CORES===\n4\n"));
    assert_eq!(upd.server_idx, 3);
    assert_eq!(upd.status, HealthStatus::Unreachable);
    assert!(upd.metrics.is_none());

    let upd = evaluate_probe(4, Some(20), Some("===CORES===\n4\n"));
    assert_eq!(upd.status, HealthStatus::Healthy);
    assert_eq!(upd.metrics.expect("reachable host parses metrics").cpu_cores, 4);
}

#[test]
fn test_format_bytes_units() {
    assert_eq!(format_bytes(0), "0B");
    assert_eq!(format_bytes(512), "512B");
    assert_eq!(format_bytes(1024), "1KB");
    assert_eq!(format_bytes(1536), "2KB");
    assert_eq!(format_bytes(1024 * 1024), "1MB");
    assert_eq!(format_bytes(3 * 1024 * 1024 * 1024), "3GB");
    assert_eq!(format_bytes(5 * 1024 * 1024 * 1024 * 1024), "5TB");
    assert_eq!(format_bytes(8_000_000_000), "7GB");
}

#[test]
fn test_metrics_script_sections() {
    let plain = ggoto::health::metrics_script(false);
    for marker in ["===CORES===", "===CPU===", "===MEM===", "===LOAD===", "===USERS===", "===GPU==="] {
        assert!(plain.contains(marker));
    }
    assert!(!plain.contains("===MOSH==="));
    let with_probe = ggoto::health::metrics_script(true);
    assert!(with_probe.contains("===MOSH==="));
    assert!(with_probe.starts_with(&plain));
}
