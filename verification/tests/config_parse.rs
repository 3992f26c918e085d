//! Parsing of the host configuration text.

use ggoto::config::parse_config_content;

#[test]
fn test_parse_simple_config() {
    let config = r#"
Host server1
    HostName 192.168.1.1
    User admin
    Port 2222

Host server2
    HostName example.com
    IdentityFile ~/.ssh/id_rsa
"#;
    let servers = parse_config_content(config, Some("/home/operator"));
    assert_eq!(servers.len(), 2);

    assert_eq!(servers[0].host, "server1");
    assert_eq!(servers[0].hostname, "192.168.1.1");
    assert_eq!(servers[0].user, Some("admin".to_string()));
    assert_eq!(servers[0].port, 2222);

    assert_eq!(servers[1].host, "server2");
    assert_eq!(servers[1].hostname, "example.com");
    assert_eq!(servers[1].port, 22);
}

#[test]
fn test_skip_wildcard() {
    let config = r#"
Host *
    ServerAliveInterval 60

Host prod-*
    User deploy

Host myserver
    HostName 10.0.0.1
"#;
    let servers = parse_config_content(config, None);
    assert_eq!(servers.len(), 1);
    assert_eq!(servers[0].host, "myserver");
}

#[test]
fn test_identity_file_expansion() {
    let config = "Host a\n  IdentityFile ~/.ssh/key\nHost b\n  IdentityFile /etc/key\n";
    let servers = parse_config_content(config, Some("/home/operator"));
    assert_eq!(servers.len(), 2);
    assert_eq!(servers[0].identity_file, Some("/home/operator/.ssh/key".to_string()));
    assert_eq!(servers[1].identity_file, Some("/etc/key".to_string()));
    // without a home directory the path stays as written
    let servers = parse_config_content("Host a\n  IdentityFile ~/.ssh/key\n", None);
    assert_eq!(servers[0].identity_file, Some("~/.ssh/key".to_string()));
}

#[test]
fn test_config_tolerates_oddities() {
    // comments, equals-separated pairs, quoted values, a keyword-less
    // line, an unknown keyword, and a malformed port
    let config = "# fleet\nHost=web\nHostName \"10.0.0.9\"\nCompression yes\nPort notanumber\nnoseparator\n";
    let servers = parse_config_content(config, None);
    assert_eq!(servers.len(), 1);
    assert_eq!(servers[0].host, "web");
    assert_eq!(servers[0].hostname, "10.0.0.9");
    assert_eq!(servers[0].port, 22);
    assert_eq!(servers[0].user, None);
}
