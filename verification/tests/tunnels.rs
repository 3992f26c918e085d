//! Tunnel bookkeeping: port uniqueness, closing, batch grouping and the
//! display rows.

use ggoto::server::Server;
use ggoto::tunnel::{build_tunnel_args, parse_tunnel_spec, Tunnel, TunnelDisplayItem, TunnelManager};

fn tunnel(local_port: u16, remote_port: u16, group_id: Option<u32>) -> Tunnel {
    Tunnel {
        local_port,
        remote_host: "localhost".to_string(),
        remote_port,
        server_host: "web-01".to_string(),
        group_id,
    }
}

#[test]
fn test_register_and_port_uniqueness() {
    let mut tm = TunnelManager::new();
    assert_eq!(tm.count(), 0);
    tm.register_tunnel(tunnel(8000, 5000, None));
    tm.register_tunnel(tunnel(8002, 5002, None));
    tm.register_tunnel(tunnel(8001, 5001, None));
    assert_eq!(tm.count(), 3);
    assert!(tm.contains_port(8000));
    assert!(tm.contains_port(8001));
    assert!(tm.contains_port(8002));
    // the tracked list stays strictly sorted, so ports stay unique
    let ports: Vec<u16> = tm.tunnels.iter().map(|t| t.local_port).collect();
    assert_eq!(ports, vec![8000, 8001, 8002]);
}

#[test]
fn test_close_tunnel_untracked_is_noop() {
    let mut tm = TunnelManager::new();
    tm.register_tunnel(tunnel(8000, 5000, None));
    let closed = tm.close_tunnel(9999);
    assert!(closed.is_none());
    assert_eq!(tm.count(), 1);
}

#[test]
fn test_close_tunnel_returns_record() {
    let mut tm = TunnelManager::new();
    tm.register_tunnel(tunnel(8000, 5000, None));
    tm.register_tunnel(tunnel(8001, 5001, None));
    let closed = tm.close_tunnel(8000).expect("tracked port");
    assert_eq!(closed.local_port, 8000);
    assert_eq!(closed.remote_port, 5000);
    assert_eq!(tm.count(), 1);
    assert!(!tm.contains_port(8000));
}

#[test]
fn test_close_all_empties_and_hands_back_everything() {
    let mut tm = TunnelManager::new();
    tm.register_tunnel(tunnel(8000, 5000, None));
    tm.register_tunnel(tunnel(8001, 5001, Some(1)));
    tm.register_tunnel(tunnel(8002, 5002, Some(1)));
    let all = tm.close_all();
    assert_eq!(all.len(), 3);
    assert_eq!(tm.count(), 0);
    let ports: Vec<u16> = all.iter().map(|t| t.local_port).collect();
    assert_eq!(ports, vec![8000, 8001, 8002]);
}

#[test]
fn test_close_group_counts() {
    let mut tm = TunnelManager::new();
    let gid = tm.next_group_id();
    tm.register_tunnel(tunnel(8000, 5000, Some(gid)));
    tm.register_tunnel(tunnel(8001, 5001, Some(gid)));
    tm.register_tunnel(tunnel(8005, 6000, None));
    let closed = tm.close_group(gid);
    assert_eq!(closed.len(), 2);
    assert_eq!(tm.count(), 1);
    assert!(tm.contains_port(8005));
}

#[test]
fn test_close_server_tunnels() {
    let mut tm = TunnelManager::new();
    let mut t = tunnel(8000, 5000, None);
    t.server_host = "db-01".to_string();
    tm.register_tunnel(t);
    tm.register_tunnel(tunnel(8001, 5001, None));
    let closed = tm.close_server_tunnels("db-01");
    assert_eq!(closed.len(), 1);
    assert_eq!(closed[0].local_port, 8000);
    assert_eq!(tm.count(), 1);
}

#[test]
fn test_cleanup_dead() {
    let mut tm = TunnelManager::new();
    tm.register_tunnel(tunnel(8000, 5000, None));
    tm.register_tunnel(tunnel(8001, 5001, None));
    tm.cleanup_dead(&vec![8000]);
    assert_eq!(tm.count(), 1);
    assert!(!tm.contains_port(8000));
    assert!(tm.contains_port(8001));
}

#[test]
fn test_find_available_port_skips_tracked() {
    let mut tm = TunnelManager::new();
    tm.register_tunnel(tunnel(8000, 5000, None));
    tm.register_tunnel(tunnel(8001, 5001, None));
    assert_eq!(tm.find_available_port(tm.port_start), Some(8002));
    // the caller retries from the successor of a port that failed to bind
    assert_eq!(tm.find_available_port(8003), Some(8003));
    // an exhausted range yields nothing
    let mut full = TunnelManager::new();
    full.port_start = 9000;
    full.port_end = 9001;
    full.register_tunnel(tunnel(9000, 1, None));
    full.register_tunnel(tunnel(9001, 2, None));
    assert_eq!(full.find_available_port(9000), None);
}

#[test]
fn test_batch_of_three_collapses_to_one_group_row() {
    let mut tm = TunnelManager::new();
    let gid = tm.next_group_id();
    tm.register_tunnel(tunnel(8000, 5000, Some(gid)));
    tm.register_tunnel(tunnel(8001, 5001, Some(gid)));
    tm.register_tunnel(tunnel(8002, 5002, Some(gid)));

    let items = tm.get_display_items();
    assert_eq!(items.len(), 1);
    assert_eq!(tm.display_count(), 1);
    match &items[0] {
        TunnelDisplayItem::Group {
            group_id,
            local_port_start,
            local_port_end,
            remote_port_start,
            remote_port_end,
            count,
            ..
        } => {
            assert_eq!(*group_id, gid);
            assert_eq!(*local_port_start, 8000);
            assert_eq!(*local_port_end, 8002);
            assert_eq!(*remote_port_start, 5000);
            assert_eq!(*remote_port_end, 5002);
            assert_eq!(*count, 3);
        }
        other => panic!("expected a group row, got {:?}", other),
    }
}

#[test]
fn test_three_individual_tunnels_stay_single_rows() {
    let mut tm = TunnelManager::new();
    tm.register_tunnel(tunnel(8000, 5000, None));
    tm.register_tunnel(tunnel(8001, 5001, None));
    tm.register_tunnel(tunnel(8002, 5002, None));

    let items = tm.get_display_items();
    assert_eq!(items.len(), 3);
    assert_eq!(tm.display_count(), 3);
    for (k, item) in items.iter().enumerate() {
        match item {
            TunnelDisplayItem::Single { local_port, .. } => {
                assert_eq!(*local_port, 8000 + k as u16);
            }
            other => panic!("expected a single row, got {:?}", other),
        }
    }
}

#[test]
fn test_display_rows_sorted_and_mixed() {
    let mut tm = TunnelManager::new();
    let gid = tm.next_group_id();
    tm.register_tunnel(tunnel(8005, 5005, None));
    tm.register_tunnel(tunnel(8001, 5001, Some(gid)));
    tm.register_tunnel(tunnel(8003, 5003, Some(gid)));

    let items = tm.get_display_items();
    assert_eq!(items.len(), 2);
    match &items[0] {
        TunnelDisplayItem::Group { local_port_start, local_port_end, count, .. } => {
            assert_eq!(*local_port_start, 8001);
            assert_eq!(*local_port_end, 8003);
            assert_eq!(*count, 2);
        }
        other => panic!("expected the group first, got {:?}", other),
    }
    match &items[1] {
        TunnelDisplayItem::Single { local_port, .. } => assert_eq!(*local_port, 8005),
        other => panic!("expected the single last, got {:?}", other),
    }
}

#[test]
fn test_next_group_id_increases() {
    let mut tm = TunnelManager::new();
    let a = tm.next_group_id();
    let b = tm.next_group_id();
    assert_eq!(a, 1);
    assert_eq!(b, 2);
}

#[test]
fn test_build_tunnel_args() {
    let mut server = Server::new("web-01".to_string(), "10.0.0.1".to_string());
    server.user = Some("deploy".to_string());
    server.port = 2222;
    let args = build_tunnel_args(&server, "localhost", 5432, 8000);
    let expect = vec![
        "-N",
        "-L",
        "8000:localhost:5432",
        "-o",
        "BatchMode=yes",
        "-o",
        "ExitOnForwardFailure=yes",
        "-o",
        "ServerAliveInterval=30",
        "-o",
        "ServerAliveCountMax=3",
        "-l",
        "deploy",
        "-p",
        "2222",
        "web-01",
    ];
    let got: Vec<&str> = args.iter().map(|s| s.as_str()).collect();
    assert_eq!(got, expect);
}

#[test]
fn test_parse_tunnel_spec_forms() {
    assert_eq!(parse_tunnel_spec("8080"), ("localhost".to_string(), vec![8080]));
    assert_eq!(
        parse_tunnel_spec("db.internal:5432"),
        ("db.internal".to_string(), vec![5432])
    );
    assert_eq!(
        parse_tunnel_spec("9000-9002"),
        ("localhost".to_string(), vec![9000, 9001, 9002])
    );
    assert_eq!(
        parse_tunnel_spec("web:80-82"),
        ("web".to_string(), vec![80, 81, 82])
    );
    // malformed ports name nothing
    assert_eq!(parse_tunnel_spec("web:abc"), ("web".to_string(), vec![]));
    assert_eq!(parse_tunnel_spec("0"), ("localhost".to_string(), vec![]));
    assert_eq!(parse_tunnel_spec("9-5"), ("localhost".to_string(), vec![]));
}
