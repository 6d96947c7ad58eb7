use logia_rs::config::{
    auth_method, copy_strings, expand_key_path, scan_roots, server_from_form, AppConfig, AuthMethod,
    ServerConfig,
};
use logia_rs::theme::ColorScheme;

fn server(password: Option<&str>, key_path: Option<&str>) -> ServerConfig {
    ServerConfig {
        name: "prod".to_string(),
        host: "10.0.0.1".to_string(),
        port: 22,
        username: "deploy".to_string(),
        password: password.map(|s| s.to_string()),
        key_path: key_path.map(|s| s.to_string()),
    }
}

#[test]
fn default_settings_are_empty() {
    let c = AppConfig::default();
    assert!(c.servers.is_empty());
    assert!(c.local_paths.is_none());
    assert!(c.color_scheme.is_none());
}

#[test]
fn default_scan_roots_include_home() {
    let c = AppConfig::default();
    assert_eq!(
        scan_roots(&c, Some("/home/me".to_string())),
        vec!["/var/log", "/var/www", "/opt", "/home/me"]
    );
    assert_eq!(scan_roots(&c, None), vec!["/var/log", "/var/www", "/opt"]);
}

#[test]
fn configured_scan_roots_replace_the_defaults() {
    let c = AppConfig {
        servers: Vec::new(),
        local_paths: Some(vec!["/srv/logs".to_string()]),
        color_scheme: Some(ColorScheme::Dark),
    };
    assert_eq!(scan_roots(&c, Some("/home/me".to_string())), vec!["/srv/logs"]);
    assert_eq!(copy_strings(&vec!["a".to_string(), "b".to_string()]), vec!["a", "b"]);
}

#[test]
fn key_paths_expand_the_home_directory() {
    let home = Some("/home/me".to_string());
    assert_eq!(expand_key_path("~/.ssh/id_ed25519", &home), "/home/me/.ssh/id_ed25519");
    assert_eq!(expand_key_path("~/.ssh/id_ed25519", &None), "~/.ssh/id_ed25519");
    assert_eq!(expand_key_path("/etc/key", &home), "/etc/key");
    assert_eq!(expand_key_path("~key", &home), "~key");
}

#[test]
fn key_file_wins_over_password_and_agent_is_last() {
    let home = Some("/root".to_string());
    match auth_method(&server(Some("pw"), Some("~/k")), &home) {
        AuthMethod::KeyFile { path, passphrase } => {
            assert_eq!(path, "/root/k");
            assert_eq!(passphrase, Some("pw".to_string()));
        }
        other => panic!("unexpected {:?}", other),
    }
    assert!(matches!(auth_method(&server(Some("pw"), None), &home), AuthMethod::Password(p) if p == "pw"));
    assert!(matches!(auth_method(&server(None, None), &home), AuthMethod::Agent));
}

#[test]
fn form_with_password() {
    let s = server_from_form("prod", "example.com", "2222", "deploy", "s3cret");
    assert_eq!(s.name, "prod");
    assert_eq!(s.host, "example.com");
    assert_eq!(s.port, 2222);
    assert_eq!(s.username, "deploy");
    assert_eq!(s.password, Some("s3cret".to_string()));
    assert_eq!(s.key_path, None);
}

#[test]
fn form_with_key_path_and_bad_port() {
    let s = server_from_form("n", "h", "abc", "u", "~/.ssh/id_rsa");
    assert_eq!(s.port, 22);
    assert_eq!(s.password, None);
    assert_eq!(s.key_path, Some("~/.ssh/id_rsa".to_string()));
    let t = server_from_form("n", "h", "", "u", "");
    assert_eq!(t.port, 22);
    assert_eq!(t.password, None);
    assert_eq!(t.key_path, None);
    let k = server_from_form("n", "h", "70000", "u", "/keys/a");
    assert_eq!(k.port, 22);
    assert_eq!(k.key_path, Some("/keys/a".to_string()));
}
