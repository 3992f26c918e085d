//! Filtering behaviour of the host list.

use ggoto::app::App;
use ggoto::server::Server;

fn sample_app() -> App {
    let mut app = App::new();
    app.servers = vec![
        Server::new("ysdc1".to_string(), "ysdc1.example.com".to_string()),
        Server::new("ysdc2".to_string(), "ysdc2.example.com".to_string()),
        Server::new("prod-web".to_string(), "prod.example.com".to_string()),
    ];
    app
}

#[test]
fn test_filter_contains_substring() {
    let mut app = sample_app();

    // Filter by "1" should match "ysdc1"
    app.filter_text = "1".to_string();
    let filtered = app.filtered_servers();
    assert_eq!(filtered.len(), 1);
    assert_eq!(app.servers[filtered[0]].host, "ysdc1");

    // Filter by "ysdc" should match both ysdc servers
    app.filter_text = "ysdc".to_string();
    let filtered = app.filtered_servers();
    assert_eq!(filtered.len(), 2);

    // Filter by "prod" should match prod-web
    app.filter_text = "prod".to_string();
    let filtered = app.filtered_servers();
    assert_eq!(filtered.len(), 1);
    assert_eq!(app.servers[filtered[0]].host, "prod-web");

    // Empty filter should return all
    app.filter_text = String::new();
    let filtered = app.filtered_servers();
    assert_eq!(filtered.len(), 3);
}

#[test]
fn test_filter_regex() {
    let mut app = sample_app();

    // Regex: ysdc. should match both ysdc servers
    app.filter_text = "ysdc.".to_string();
    let filtered = app.filtered_servers();
    assert_eq!(filtered.len(), 2);

    // Regex: ^prod should match prod-web
    app.filter_text = "^prod".to_string();
    let filtered = app.filtered_servers();
    assert_eq!(filtered.len(), 1);
}

#[test]
fn test_filter_pattern_scenarios() {
    // the fixed scenario: "ysdc." as a valid regex, "1" and "prod" as
    // substrings, and the empty pattern
    let app = sample_app();

    let by = |pat: &str| {
        let mut a = sample_app();
        a.filter_text = pat.to_string();
        a.filtered_servers()
    };

    assert_eq!(by("ysdc."), vec![0, 1]);
    assert_eq!(by("1"), vec![0]);
    assert_eq!(by("prod"), vec![2]);
    assert_eq!(by(""), vec![0, 1, 2]);
    drop(app);
}

#[test]
fn test_filter_invalid_regex_falls_back_to_substring() {
    // "prod[" has a metacharacter but is not a valid regular
    // expression; it must filter exactly like a plain substring
    let mut app = sample_app();
    app.servers
        .push(Server::new("odd[".to_string(), "odd.example.com".to_string()));

    app.filter_text = "odd[".to_string();
    let filtered = app.filtered_servers();
    assert_eq!(filtered.len(), 1);
    assert_eq!(app.servers[filtered[0]].host, "odd[");

    // an invalid pattern that matches nothing as a substring
    app.filter_text = "zz[".to_string();
    let filtered = app.filtered_servers();
    assert_eq!(filtered.len(), 0);
}

#[test]
fn test_filter_case_insensitive() {
    let mut app = sample_app();
    app.filter_text = "YSDC".to_string();
    let filtered = app.filtered_servers();
    assert_eq!(filtered.len(), 2);
}

#[test]
fn test_filter_matches_group_field() {
    let mut app = sample_app();
    ggoto::groups::group_servers(&mut app.servers);
    // "prod-web" derives group "prod-web"; the group of "ysdc1" is "ysdc"
    app.filter_text = "ysdc".to_string();
    let filtered = app.filtered_servers();
    assert_eq!(filtered.len(), 2);
}
