//! Group derivation and group-list construction.

use ggoto::groups::{build_groups, derive_group, group_servers};
use ggoto::server::Server;

#[test]
fn test_grouping() {
    let mut servers = vec![
        Server::new("prod-web-01".to_string(), "10.0.0.1".to_string()),
        Server::new("prod-web-02".to_string(), "10.0.0.2".to_string()),
        Server::new("prod-db-01".to_string(), "10.0.1.1".to_string()),
        Server::new("standalone".to_string(), "10.0.2.1".to_string()),
    ];

    group_servers(&mut servers);

    assert_eq!(servers[0].group, Some("prod-web".to_string()));
    assert_eq!(servers[1].group, Some("prod-web".to_string()));
    assert_eq!(servers[2].group, Some("prod-db".to_string()));
    assert_eq!(servers[3].group, Some("standalone".to_string()));
}

#[test]
fn test_derive_group_rules() {
    assert_eq!(derive_group("prod-web-01"), "prod-web");
    assert_eq!(derive_group("db_2"), "db");
    assert_eq!(derive_group("ab12cd"), "ab12cd");
    assert_eq!(derive_group("node7"), "node");
    // all digits: one leading character survives
    assert_eq!(derive_group("123"), "1");
    // the separator stays when stripping it would empty the name
    assert_eq!(derive_group("-12"), "-");
}

#[test]
fn test_build_groups_sorted_membership() {
    let mut servers = vec![
        Server::new("prod-web-01".to_string(), "10.0.0.1".to_string()),
        Server::new("prod-web-02".to_string(), "10.0.0.2".to_string()),
        Server::new("prod-db-01".to_string(), "10.0.1.1".to_string()),
        Server::new("standalone".to_string(), "10.0.2.1".to_string()),
    ];
    group_servers(&mut servers);
    let groups = build_groups(&servers);

    let names: Vec<&str> = groups.iter().map(|g| g.name.as_str()).collect();
    assert_eq!(names, vec!["prod-db", "prod-web", "standalone"]);

    assert_eq!(groups[0].servers, vec![2]);
    assert_eq!(groups[1].servers, vec![0, 1]);
    assert_eq!(groups[2].servers, vec![3]);
}
