use argo_tunnel::cloudflared::{access_args, access_tunnel_name, release_version, TunnelError, TunnelState, VersionError};
use argo_tunnel::named_map::NamedMap;
use argo_tunnel::text::{concat_str, push_decimal, push_signed_decimal, str_contains, str_eq};

#[test]
fn decimal_formatting() {
    let mut s = String::from("n=");
    push_decimal(&mut s, 0);
    assert_eq!(s, "n=0");
    let mut s = String::new();
    push_decimal(&mut s, u64::MAX);
    assert_eq!(s, u64::MAX.to_string());
    let mut s = String::new();
    push_signed_decimal(&mut s, i64::MIN);
    assert_eq!(s, i64::MIN.to_string());
    let mut s = String::new();
    push_signed_decimal(&mut s, -105);
    assert_eq!(s, "-105");
}

#[test]
fn string_helpers() {
    assert!(str_eq("abc", "abc"));
    assert!(!str_eq("abc", "abd"));
    assert!(!str_eq("ab", "abc"));
    assert!(str_contains("hello world", "o w"));
    assert!(str_contains("x", ""));
    assert!(!str_contains("abc", "abcd"));
    assert!(!str_contains("abc", "ca"));
    assert!(str_contains("привет", "ив"));
    assert_eq!(concat_str("ab", "cd"), "abcd");
}

#[test]
fn named_map_operations() {
    let mut m: NamedMap<u32> = NamedMap::new();
    assert_eq!(m.insert("a".to_string(), 1), None);
    assert_eq!(m.insert("b".to_string(), 2), None);
    assert_eq!(m.insert("a".to_string(), 3), Some(1));
    assert_eq!(m.get("a"), Some(&3));
    assert!(m.contains_key("b"));
    assert_eq!(m.remove("b"), Some(2));
    assert_eq!(m.remove("b"), None);
    assert!(!m.contains_key("b"));
}

#[test]
fn access_tunnel_registry() {
    let mut state = TunnelState::new();
    let t = state.start("db.example.com".to_string(), 5432, 77);
    assert_eq!(t.id, "db.example.com-5432");
    assert_eq!(t.pid, 77);
    assert_eq!(access_tunnel_name("h", 1), "h-1");
    assert_eq!(
        access_args("db.example.com", 5432),
        vec!["access", "tcp", "--hostname", "db.example.com", "--url", "localhost:5432"]
    );
    assert_eq!(state.stop("db.example.com-5432"), Ok(77));
    assert_eq!(state.stop("db.example.com-5432"), Err(TunnelError::NotFound));
}

#[test]
fn release_versions() {
    assert_eq!(release_version(Some("v2024.1.0")), Ok("2024.1.0".to_string()));
    assert_eq!(release_version(Some("2024.1.0")), Ok("2024.1.0".to_string()));
    assert_eq!(release_version(Some("vv1")), Ok("1".to_string()));
    assert_eq!(release_version(Some("")), Ok(String::new()));
    assert_eq!(release_version(None), Err(VersionError::NoTagName));
}
