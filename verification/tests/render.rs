use ssh_config_add::render_template;
use ssh_config_add::ConfigRecord;

fn full_record() -> ConfigRecord {
    ConfigRecord {
        host: vec!["test".to_string()],
        user: Some("user".to_string()),
        hostname: Some("hostname".to_string()),
        port: Some("22".to_string()),
        identity_file: Some("~/.ssh/id_rsa".to_string()),
        compression: true,
    }
}

#[test]
fn test_render() {
    let record = full_record();
    assert_eq!(
        render_template(&record),
        "Host test
    HostName hostname
    User user
    Port 22
    IdentityFile ~/.ssh/id_rsa
    Compression yes"
    );
}

#[test]
fn test_render_line_order() {
    let rendered = render_template(&full_record());
    let lines: Vec<&str> = rendered.lines().collect();
    assert_eq!(lines.len(), 6);
    assert!(lines[0].starts_with("Host "));
    assert!(lines[1].starts_with("    HostName "));
    assert!(lines[2].starts_with("    User "));
    assert!(lines[3].starts_with("    Port "));
    assert!(lines[4].starts_with("    IdentityFile "));
    assert_eq!(lines[5], "    Compression yes");
}

#[test]
fn test_render_multiple_hosts() {
    let record = ConfigRecord {
        host: vec!["a".to_string(), "b".to_string(), "c".to_string()],
        user: None,
        hostname: None,
        port: None,
        identity_file: None,
        compression: false,
    };
    assert_eq!(render_template(&record), "Host a b c");
}

#[test]
fn test_render_without_compression() {
    let mut record = full_record();
    record.compression = false;
    let rendered = render_template(&record);
    assert!(!rendered.contains("Compression"));
    assert_eq!(
        rendered,
        "Host test
    HostName hostname
    User user
    Port 22
    IdentityFile ~/.ssh/id_rsa"
    );
}

#[test]
fn test_render_without_destination() {
    let record = ConfigRecord {
        host: vec!["test".to_string()],
        user: None,
        hostname: None,
        port: Some("22".to_string()),
        identity_file: None,
        compression: true,
    };
    let rendered = render_template(&record);
    assert!(!rendered.contains("HostName"));
    assert!(!rendered.contains("User"));
    assert_eq!(
        rendered,
        "Host test
    Port 22
    Compression yes"
    );
}
