use std::collections::HashMap;

use argo_tunnel::keepass::kdbx::{KdbxError, KdbxManager, VaultEntry, VaultGroup, VaultNode};
use argo_tunnel::keepass::models::{KeePassEntry, KeePassGroup, SearchOptions};

fn entry(title: &str, username: &str, password: &str, url: Option<&str>) -> KeePassEntry {
    KeePassEntry {
        id: "e".to_string(),
        title: title.to_string(),
        username: username.to_string(),
        password: password.to_string(),
        url: url.map(|s| s.to_string()),
        notes: None,
        group_id: String::new(),
        tags: vec![],
        created_at: String::new(),
        modified_at: String::new(),
        accessed_at: String::new(),
        expires_at: None,
        custom_fields: HashMap::new(),
        history: vec![],
        icon_id: None,
        foreground_color: None,
        background_color: None,
        auto_type: None,
        attachments: vec![],
    }
}

fn group(name: &str) -> KeePassGroup {
    KeePassGroup {
        id: "g".to_string(),
        name: name.to_string(),
        parent_id: None,
        children: vec![],
        created_at: String::new(),
        modified_at: String::new(),
        icon_id: None,
        notes: None,
        is_expanded: true,
        default_auto_type_sequence: None,
        enable_auto_type: None,
        enable_searching: None,
        last_top_visible_entry: None,
    }
}

fn options(query: &str, case_sensitive: bool) -> SearchOptions {
    SearchOptions {
        query: query.to_string(),
        search_in_titles: true,
        search_in_usernames: true,
        search_in_passwords: false,
        search_in_urls: true,
        search_in_notes: true,
        search_in_tags: false,
        case_sensitive,
        regex: false,
        group_filter: None,
        exclude_expired: false,
        exclude_recycled: false,
    }
}

fn vault_entry(title: &str) -> VaultNode {
    VaultNode::Entry(VaultEntry {
        title: Some(title.to_string()),
        username: None,
        password: None,
        url: None,
        notes: None,
    })
}

fn opened() -> KdbxManager {
    let mut m = KdbxManager::new();
    let nested = VaultGroup { name: "Servers".to_string(), children: vec![vault_entry("Mail Server"), vault_entry("db")] };
    let root = VaultGroup {
        name: "Root".to_string(),
        children: vec![vault_entry("Bank"), VaultNode::Group(nested), vault_entry("MAIL")],
    };
    m.open_database("/c.kdbx".to_string(), root, false, String::new(), String::new());
    m
}

fn titles(v: &[VaultEntry]) -> Vec<String> {
    v.iter().map(|e| e.title.clone().unwrap_or_default()).collect()
}

#[test]
fn search_is_depth_first_and_case_insensitive() {
    let m = opened();
    let found = m.search_entries("/c.kdbx", &options("mail", false)).unwrap();
    assert_eq!(titles(&found), vec!["Mail Server", "MAIL"]);
}

#[test]
fn search_case_sensitive() {
    let m = opened();
    let found = m.search_entries("/c.kdbx", &options("MAIL", true)).unwrap();
    assert_eq!(titles(&found), vec!["MAIL"]);
    let none = m.search_entries("/c.kdbx", &options("zzz", false)).unwrap();
    assert!(none.is_empty());
}

#[test]
fn search_unknown_container() {
    let m = opened();
    assert_eq!(m.search_entries("/other.kdbx", &options("a", false)).err(), Some(KdbxError::ContainerNotFound));
}

#[test]
fn add_entry_then_find_it() {
    let mut m = opened();
    assert_eq!(m.count_entries("/c.kdbx"), Ok(4));
    m.add_entry("/c.kdbx", entry("Router", "admin", "secret", Some("http://192.168.0.1"))).unwrap();
    assert_eq!(m.count_entries("/c.kdbx"), Ok(5));
    let found = m.search_entries("/c.kdbx", &options("192.168", false)).unwrap();
    assert_eq!(titles(&found), vec!["Router"]);
    assert_eq!(found[0].username.as_deref(), Some("admin"));
    assert_eq!(m.add_entry("/x.kdbx", entry("a", "b", "c", None)), Err(KdbxError::ContainerNotFound));
}

#[test]
fn add_group_keeps_entry_count() {
    let mut m = opened();
    assert_eq!(m.add_group("/c.kdbx", &group("New")), Ok(()));
    assert_eq!(m.count_entries("/c.kdbx"), Ok(4));
    assert_eq!(m.add_group("/x.kdbx", &group("New")), Err(KdbxError::ContainerNotFound));
}

#[test]
fn unchanged_operations_check_container() {
    let mut m = opened();
    assert_eq!(m.update_entry("/c.kdbx", entry("a", "b", "c", None)), Ok(()));
    assert_eq!(m.delete_entry("/c.kdbx", "id"), Ok(()));
    assert_eq!(m.update_group("/c.kdbx", &group("g")), Ok(()));
    assert_eq!(m.delete_group("/c.kdbx", "id"), Ok(()));
    assert_eq!(m.delete_group("/x.kdbx", "id"), Err(KdbxError::ContainerNotFound));
    assert_eq!(m.update_entry("/x.kdbx", entry("a", "b", "c", None)), Err(KdbxError::ContainerNotFound));
    assert_eq!(m.count_entries("/x.kdbx"), Err(KdbxError::ContainerNotFound));
    assert!(m.is_open("/c.kdbx"));
}

#[test]
fn save_and_password_change_need_file() {
    let mut m = KdbxManager::new();
    assert_eq!(m.save_container("/c.kdbx", true), Ok(()));
    assert_eq!(m.save_container("/c.kdbx", false), Err(KdbxError::FileNotFound));
    assert_eq!(m.change_container_password("/c.kdbx", "old", "new", true), Ok(()));
    assert_eq!(m.change_container_password("/c.kdbx", "old", "new", false), Err(KdbxError::FileNotFound));
}

#[test]
fn keyfiles_attach_and_detach() {
    let mut m = KdbxManager::new();
    assert_eq!(m.attach_keyfile("/c.kdbx", vec![1, 2, 3]), Ok(()));
    assert_eq!(m.detach_keyfile("/c.kdbx"), Ok(()));
    assert_eq!(m.detach_keyfile("/c.kdbx"), Ok(()));
}

#[test]
fn entry_matches_and_converts() {
    let e = VaultEntry {
        title: Some("Bank".to_string()),
        username: Some("Alice".to_string()),
        password: None,
        url: None,
        notes: Some("PIN in safe".to_string()),
    };
    assert!(e.matches_search_criteria(&options("alice", false)));
    assert!(!e.matches_search_criteria(&options("alice", true)));
    assert!(e.matches_search_criteria(&options("pin", false)));
    let mut titles_only = options("safe", false);
    titles_only.search_in_notes = false;
    assert!(!e.matches_search_criteria(&titles_only));
    let k = e.to_keepass_entry("id-1".to_string(), "2024-01-01T00:00:00Z".to_string());
    assert_eq!(k.id, "id-1");
    assert_eq!(k.title, "Bank");
    assert_eq!(k.password, "");
    assert_eq!(k.notes.as_deref(), Some("PIN in safe"));
    assert_eq!(k.created_at, "2024-01-01T00:00:00Z");
}
