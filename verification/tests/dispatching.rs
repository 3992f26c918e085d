//! The key dispatcher: modal routing, navigation, global keys and action
//! requests.

use ggoto::app::{App, InputMode, ViewMode};
use ggoto::dispatch::{handle_key_event, HandleResult, KeyInput};
use ggoto::server::Server;

fn app_with_hosts() -> App {
    let mut app = App::new();
    app.servers = vec![
        Server::new("alpha".to_string(), "a.example.com".to_string()),
        Server::new("bravo".to_string(), "b.example.com".to_string()),
        Server::new("carol".to_string(), "c.example.com".to_string()),
    ];
    app
}

#[test]
fn test_navigation_saturates() {
    let mut app = app_with_hosts();
    assert!(matches!(handle_key_event(&mut app, KeyInput::Up), HandleResult::Continue));
    assert_eq!(app.selected_index, 0);
    handle_key_event(&mut app, KeyInput::Down);
    handle_key_event(&mut app, KeyInput::Down);
    handle_key_event(&mut app, KeyInput::Down);
    assert_eq!(app.selected_index, 2);
    handle_key_event(&mut app, KeyInput::Up);
    assert_eq!(app.selected_index, 1);
}

#[test]
fn test_quit_keys() {
    let mut app = app_with_hosts();
    handle_key_event(&mut app, KeyInput::Char('q'));
    assert!(app.should_quit);

    let mut app = app_with_hosts();
    handle_key_event(&mut app, KeyInput::CtrlC);
    assert!(app.should_quit);

    // from a sub-view, the quit key only closes the view
    let mut app = app_with_hosts();
    app.view_mode = ViewMode::Help;
    handle_key_event(&mut app, KeyInput::Char('q'));
    assert!(!app.should_quit);
    assert_eq!(app.view_mode, ViewMode::ServerList);
}

#[test]
fn test_filter_mode_consumes_keys() {
    let mut app = app_with_hosts();
    handle_key_event(&mut app, KeyInput::Char('/'));
    assert_eq!(app.input_mode, InputMode::Filtering);
    handle_key_event(&mut app, KeyInput::Char('b'));
    handle_key_event(&mut app, KeyInput::Char('r'));
    assert_eq!(app.filter_text, "br");
    assert_eq!(app.selected_index, 0);
    handle_key_event(&mut app, KeyInput::Backspace);
    assert_eq!(app.filter_text, "b");
    handle_key_event(&mut app, KeyInput::Enter);
    assert_eq!(app.input_mode, InputMode::Normal);
    assert_eq!(app.filter_text, "b");

    // Esc abandons the pattern entirely
    handle_key_event(&mut app, KeyInput::Char('/'));
    handle_key_event(&mut app, KeyInput::Char('x'));
    handle_key_event(&mut app, KeyInput::Esc);
    assert_eq!(app.filter_text, "");
    assert_eq!(app.input_mode, InputMode::Normal);
}

#[test]
fn test_enter_launches_selected() {
    let mut app = app_with_hosts();
    app.selected_index = 1;
    match handle_key_event(&mut app, KeyInput::Enter) {
        HandleResult::LaunchSsh(idx) => assert_eq!(idx, 1),
        other => panic!("expected a connect request, got {:?}", other),
    }
}

#[test]
fn test_shortcut_letter_jumps_and_connects() {
    let mut app = app_with_hosts();
    // 'b' is the second alphabet position and is not reserved
    match handle_key_event(&mut app, KeyInput::Char('b')) {
        HandleResult::LaunchSsh(idx) => assert_eq!(idx, 1),
        other => panic!("expected a connect request, got {:?}", other),
    }
    assert_eq!(app.selected_index, 1);
    // 'z' is beyond the list: nothing happens
    assert!(matches!(
        handle_key_event(&mut app, KeyInput::Char('z')),
        HandleResult::Continue
    ));
}

#[test]
fn test_command_entry_flow() {
    let mut app = app_with_hosts();
    handle_key_event(&mut app, KeyInput::Char('c'));
    assert_eq!(app.input_mode, InputMode::CommandEntry);
    for c in "uptime".chars() {
        handle_key_event(&mut app, KeyInput::Char(c));
    }
    match handle_key_event(&mut app, KeyInput::Enter) {
        HandleResult::RunCommand(idx, cmd) => {
            assert_eq!(idx, 0);
            assert_eq!(cmd, "uptime");
        }
        other => panic!("expected a command request, got {:?}", other),
    }
    assert_eq!(app.input_mode, InputMode::Normal);
    assert_eq!(app.command_server, Some("alpha".to_string()));
}

#[test]
fn test_sort_key_reports_change() {
    let mut app = app_with_hosts();
    assert!(matches!(
        handle_key_event(&mut app, KeyInput::Char('s')),
        HandleResult::SortOrderChanged
    ));
    assert_eq!(app.sort_order, ggoto::app::SortOrder::Favorites);
}

#[test]
fn test_favorite_key_requests_toggle() {
    let mut app = app_with_hosts();
    assert!(matches!(
        handle_key_event(&mut app, KeyInput::Char('f')),
        HandleResult::ToggleFavorite
    ));
}

#[test]
fn test_refresh_keys() {
    let mut app = app_with_hosts();
    assert!(matches!(handle_key_event(&mut app, KeyInput::Char('r')), HandleResult::RefreshAll));
    app.selected_index = 2;
    match handle_key_event(&mut app, KeyInput::Char('R')) {
        HandleResult::RefreshServer(idx) => assert_eq!(idx, 2),
        other => panic!("expected a refresh request, got {:?}", other),
    }
}

#[test]
fn test_group_view_opens_group_as_filter() {
    let mut app = app_with_hosts();
    ggoto::groups::group_servers(&mut app.servers);
    app.groups = ggoto::groups::build_groups(&app.servers);
    handle_key_event(&mut app, KeyInput::Char('G'));
    assert_eq!(app.view_mode, ViewMode::GroupList);
    handle_key_event(&mut app, KeyInput::Enter);
    assert_eq!(app.view_mode, ViewMode::ServerList);
    assert_eq!(app.filter_text, app.groups[0].name);
    assert_eq!(app.selected_index, 0);
}

#[test]
fn test_tunnel_view_close_keys() {
    let mut app = app_with_hosts();
    let gid = app.tunnel_manager.next_group_id();
    app.tunnel_manager.register_tunnel(ggoto::tunnel::Tunnel {
        local_port: 8000,
        remote_host: "localhost".to_string(),
        remote_port: 5000,
        server_host: "alpha".to_string(),
        group_id: None,
    });
    app.tunnel_manager.register_tunnel(ggoto::tunnel::Tunnel {
        local_port: 8001,
        remote_host: "localhost".to_string(),
        remote_port: 5001,
        server_host: "alpha".to_string(),
        group_id: Some(gid),
    });
    app.view_mode = ViewMode::Tunnels;

    // the first row is the single tunnel on port 8000
    match handle_key_event(&mut app, KeyInput::Delete) {
        HandleResult::CloseTunnel(port) => assert_eq!(port, 8000),
        other => panic!("expected a close request, got {:?}", other),
    }
    // move to the batch row and close the whole batch
    handle_key_event(&mut app, KeyInput::Down);
    match handle_key_event(&mut app, KeyInput::Char('d')) {
        HandleResult::CloseTunnelGroup(g) => assert_eq!(g, gid),
        other => panic!("expected a batch close request, got {:?}", other),
    }
    assert!(matches!(
        handle_key_event(&mut app, KeyInput::Char('D')),
        HandleResult::CloseAllTunnels
    ));
}

#[test]
fn test_output_pane_keys() {
    let mut app = app_with_hosts();
    app.view_mode = ViewMode::CommandOutput;
    app.command_output = Some("hello".to_string());
    assert!(matches!(
        handle_key_event(&mut app, KeyInput::Char('y')),
        HandleResult::CopyToClipboard
    ));
    handle_key_event(&mut app, KeyInput::Char('|'));
    assert_eq!(app.input_mode, InputMode::PipeEntry);
    for c in "wc -l".chars() {
        handle_key_event(&mut app, KeyInput::Char(c));
    }
    match handle_key_event(&mut app, KeyInput::Enter) {
        HandleResult::PipeToCommand(cmd) => assert_eq!(cmd, "wc -l"),
        other => panic!("expected a pipe request, got {:?}", other),
    }
}

#[test]
fn test_tunnel_entry_flow() {
    let mut app = app_with_hosts();
    handle_key_event(&mut app, KeyInput::Char('t'));
    assert_eq!(app.input_mode, InputMode::TunnelEntry);
    for c in "5432".chars() {
        handle_key_event(&mut app, KeyInput::Char(c));
    }
    match handle_key_event(&mut app, KeyInput::Enter) {
        HandleResult::OpenTunnel(idx, spec) => {
            assert_eq!(idx, 0);
            assert_eq!(spec, "5432");
        }
        other => panic!("expected a tunnel request, got {:?}", other),
    }
}

#[test]
fn test_apply_health_update_and_fetch_flag() {
    let mut app = app_with_hosts();
    app.is_fetching = true;
    let upd = ggoto::health::evaluate_probe(1, Some(30), None);
    app.apply_health_update(upd, 7000);
    assert_eq!(app.servers[1].latency, Some(30));
    assert_eq!(app.servers[1].status, ggoto::server::HealthStatus::Healthy);
    assert_eq!(app.servers[1].last_check, Some(7000));
    // not every host is checked yet
    assert!(app.is_fetching);

    app.apply_health_update(ggoto::health::evaluate_probe(0, None, None), 7001);
    app.apply_health_update(ggoto::health::evaluate_probe(2, Some(200), None), 7002);
    assert!(!app.is_fetching);
    assert_eq!(app.servers[2].status, ggoto::server::HealthStatus::Degraded);

    // an index beyond the list is ignored, never trusted
    app.apply_health_update(ggoto::health::evaluate_probe(99, Some(1), None), 7003);
    assert_eq!(app.servers.len(), 3);
}

#[test]
fn test_apply_command_result() {
    let mut app = app_with_hosts();
    app.is_running_command = true;
    app.apply_command_result(Ok("done\n".to_string()));
    assert!(!app.is_running_command);
    assert_eq!(app.command_output, Some("done\n".to_string()));

    app.apply_command_result(Err("boom".to_string()));
    assert_eq!(app.command_output, Some("Error: boom".to_string()));
}

#[test]
fn test_status_message_expiry() {
    let mut app = app_with_hosts();
    app.set_status("saved".to_string(), 10_000);
    app.clear_expired_status(11_000);
    assert_eq!(app.status_message, Some("saved".to_string()));
    app.clear_expired_status(13_000);
    assert!(app.status_message.is_none());
    assert!(app.status_message_time.is_none());
}
