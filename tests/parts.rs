use gateway_proxy::config::{listen_address, resolve_port, resolve_upstream, ConfigError};
use gateway_proxy::cors::{cors_headers, find_field, relay_headers, set_field};
use gateway_proxy::header::{names_match, Header};
use gateway_proxy::target::target_url;

#[test]
fn target_url_joins_with_one_slash() {
    assert_eq!(target_url("http://gw", "a/b", ""), "http://gw/a/b");
    assert_eq!(target_url("http://gw/", "a/b", ""), "http://gw/a/b");
    assert_eq!(target_url("http://gw//", "//a/b", ""), "http://gw/a/b");
    assert_eq!(target_url("http://gw/v1", "/users", ""), "http://gw/v1/users");
}

#[test]
fn target_url_appends_query() {
    assert_eq!(target_url("http://gw", "search", "q=rust&n=2"), "http://gw/search?q=rust&n=2");
    assert_eq!(target_url("http://gw", "", ""), "http://gw/");
}

#[test]
fn target_url_keeps_non_ascii_tail() {
    assert_eq!(target_url("http://gw/", "caf\u{e9}/men\u{fc}", ""), "http://gw/caf\u{e9}/men\u{fc}");
}

#[test]
fn header_names_match_without_case() {
    assert!(names_match("Content-Type", "content-type"));
    assert!(names_match("X-A", "x-a"));
    assert!(!names_match("x-a", "x-b"));
    assert!(!names_match("x-a", "x-ab"));
    assert!(names_match("", ""));
}

#[test]
fn set_field_replaces_or_appends() {
    let mut list = cors_headers();
    assert_eq!(find_field(&list, "ACCESS-CONTROL-ALLOW-METHODS"), Some(1));
    assert_eq!(find_field(&list, "vary"), None);
    set_field(&mut list, Header::new("Vary", b"Origin"));
    assert_eq!(list.len(), 4);
    assert_eq!(list[3].name, "Vary");
    set_field(&mut list, Header::new("access-control-allow-headers", b"*"));
    assert_eq!(list.len(), 4);
    assert_eq!(list[2].value, b"*".to_vec());
}

#[test]
fn relay_headers_of_nothing_is_the_policy() {
    let got = relay_headers(&Vec::new());
    let names: Vec<String> = got.iter().map(|h| h.name.clone()).collect();
    assert_eq!(
        names,
        vec![
            "access-control-allow-origin",
            "access-control-allow-methods",
            "access-control-allow-headers"
        ]
    );
}

#[test]
fn non_utf8_header_value_is_kept() {
    let got = relay_headers(&vec![Header::new("x-raw", &[0xff, 0x80, 0x41])]);
    assert_eq!(got[3].value, vec![0xff, 0x80, 0x41]);
}

#[test]
fn missing_upstream_is_refused() {
    assert_eq!(resolve_upstream(None).err(), Some(ConfigError::MissingUpstream));
    assert_eq!(resolve_upstream(Some(String::new())).err(), Some(ConfigError::EmptyUpstream));
    let up = resolve_upstream(Some("http://gw:1".to_string())).unwrap();
    assert_eq!(up.base(), "http://gw:1");
}

#[test]
fn port_falls_back_in_order() {
    assert_eq!(resolve_port(Some("3000".to_string()), Some("4000".to_string())), "3000");
    assert_eq!(resolve_port(None, Some("4000".to_string())), "4000");
    assert_eq!(resolve_port(None, None), "8080");
    assert_eq!(resolve_port(Some("3000".to_string()), None), "3000");
}

#[test]
fn listen_address_binds_every_interface() {
    assert_eq!(listen_address("8080"), "0.0.0.0:8080");
}
