use ssh_config_add::build_config;
use ssh_config_add::parse_destination;

#[test]
fn test_parse_destination() {
    let (u, h) = parse_destination("test@192.168.0.1").unwrap();
    assert_eq!(u, "test");
    assert_eq!(h, "192.168.0.1");
}

#[test]
fn test_parse_destination_error() {
    let err = parse_destination("test192.168.0.1").unwrap_err();
    assert!(err.message().contains("Expected user@hostname"));
}

#[test]
fn test_parse_destination_error_message_quotes_input() {
    let err = parse_destination("test192.168.0.1").unwrap_err();
    assert_eq!(err.message(), "Expected user@hostname, got: test192.168.0.1");
}

#[test]
fn test_parse_destination_empty_input() {
    let err = parse_destination("").unwrap_err();
    assert_eq!(err.message(), "Expected user@hostname, got: ");
}

#[test]
fn test_parse_destination_splits_on_first_at() {
    let (u, h) = parse_destination("a@b@c").unwrap();
    assert_eq!(u, "a");
    assert_eq!(h, "b@c");
}

#[test]
fn test_parse_destination_empty_pieces() {
    let (u, h) = parse_destination("@").unwrap();
    assert_eq!(u, "");
    assert_eq!(h, "");

    let (u, h) = parse_destination("@host").unwrap();
    assert_eq!(u, "");
    assert_eq!(h, "host");

    let (u, h) = parse_destination("user@").unwrap();
    assert_eq!(u, "user");
    assert_eq!(h, "");
}

#[test]
fn test_build_config_without_destination() {
    let record = build_config(
        vec!["alpha".to_string()],
        None,
        Some("2222".to_string()),
        None,
        false,
    )
    .unwrap();
    assert_eq!(record.host, vec!["alpha".to_string()]);
    assert!(record.user.is_none());
    assert!(record.hostname.is_none());
    assert_eq!(record.port, Some("2222".to_string()));
    assert!(record.identity_file.is_none());
    assert!(!record.compression);
}

#[test]
fn test_build_config_with_destination() {
    let record = build_config(
        vec!["alpha".to_string(), "beta".to_string()],
        Some("root@example.org"),
        None,
        Some("~/.ssh/id_ed25519".to_string()),
        true,
    )
    .unwrap();
    assert_eq!(record.host.len(), 2);
    assert_eq!(record.user, Some("root".to_string()));
    assert_eq!(record.hostname, Some("example.org".to_string()));
    assert!(record.port.is_none());
    assert_eq!(record.identity_file, Some("~/.ssh/id_ed25519".to_string()));
    assert!(record.compression);
}

#[test]
fn test_build_config_bad_destination() {
    let err = build_config(vec!["alpha".to_string()], Some("example.org"), None, None, false)
        .unwrap_err();
    assert_eq!(err.message(), "Expected user@hostname, got: example.org");
}
