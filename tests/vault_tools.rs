use argo_tunnel::keepass::csv::{csv_export, escape_csv_field};
use argo_tunnel::keepass::kdbx::{collect_all_entries, count_groups, KdbxError, KdbxManager, VaultEntry, VaultGroup, VaultNode};
use argo_tunnel::keepass::models::ExportOptions;
use argo_tunnel::keepass::quality::{
    char_classes, count_weak_passwords, estimate_crack_time, generate_password_suggestions, password_score, utf8_length,
};

fn entry(title: &str, password: Option<&str>) -> VaultEntry {
    VaultEntry {
        title: Some(title.to_string()),
        username: Some("u".to_string()),
        password: password.map(|p| p.to_string()),
        url: None,
        notes: None,
    }
}

fn tree() -> VaultGroup {
    let inner = VaultGroup { name: "inner".to_string(), children: vec![VaultNode::Entry(entry("b", Some("x")))] };
    let empty = VaultGroup { name: "empty".to_string(), children: vec![] };
    VaultGroup {
        name: "root".to_string(),
        children: vec![
            VaultNode::Entry(entry("a", Some("Abcdefg1"))),
            VaultNode::Group(inner),
            VaultNode::Group(empty),
            VaultNode::Entry(entry("c", None)),
        ],
    }
}

fn export(format: &str) -> ExportOptions {
    ExportOptions {
        format: format.to_string(),
        include_history: false,
        include_attachments: false,
        encrypt: false,
        password: None,
        keyfile: None,
    }
}

#[test]
fn csv_field_escaping() {
    assert_eq!(escape_csv_field("plain"), "plain");
    assert_eq!(escape_csv_field("a,b"), "\"a,b\"");
    assert_eq!(escape_csv_field("say \"hi\""), "\"say \"\"hi\"\"\"");
    assert_eq!(escape_csv_field("two\nlines"), "\"two\nlines\"");
    assert_eq!(escape_csv_field(""), "");
}

#[test]
fn csv_export_lines() {
    let rows = vec![entry("a,1", Some("p")), entry("b", None)];
    assert_eq!(
        csv_export(&rows),
        "Title,Username,Password,URL,Notes,Tags\n\"a,1\",u,p,,,\nb,u,,,,\n"
    );
}

#[test]
fn groups_and_entries_of_tree() {
    let t = tree();
    assert_eq!(count_groups(&t), 3);
    let all = collect_all_entries(&t);
    let titles: Vec<String> = all.iter().map(|e| e.title.clone().unwrap()).collect();
    assert_eq!(titles, vec!["a", "b", "c"]);
}

#[test]
fn export_container_formats() {
    let mut m = KdbxManager::new();
    m.open_database("/v.kdbx".to_string(), tree(), false, String::new(), String::new());
    let csv = m.export_container("/v.kdbx", &export("csv")).unwrap();
    assert!(csv.starts_with("Title,Username,Password,URL,Notes,Tags\na,u,Abcdefg1,,,\nb,u,x,,,\n"));
    assert_eq!(m.export_container("/v.kdbx", &export("kdbx")), Ok(String::new()));
    assert_eq!(m.export_container("/v.kdbx", &export("xml")), Err(KdbxError::UnsupportedFormat));
    assert_eq!(m.export_container("/w.kdbx", &export("csv")), Err(KdbxError::ContainerNotFound));
}

#[test]
fn password_scores() {
    assert_eq!(password_score(""), 0);
    assert_eq!(password_score("abc"), 15);
    assert_eq!(password_score("Abcdefg1"), 20 + 15 + 15 + 15);
    assert_eq!(password_score("Abcdefghij1!xyzw"), 100);
    assert_eq!(utf8_length("пароль"), 12);
    assert_eq!(utf8_length("a€😀"), 8);
    let c = char_classes("Ab1!");
    assert!(c.has_uppercase && c.has_lowercase && c.has_digits && c.has_special);
    let c = char_classes("ПАРОЛЬ");
    assert!(c.has_uppercase && !c.has_lowercase && !c.has_digits && !c.has_special);
}

#[test]
fn crack_time_bands() {
    assert_eq!(estimate_crack_time(0).as_deref(), Some("Мгновенно"));
    assert_eq!(estimate_crack_time(20).as_deref(), Some("Мгновенно"));
    assert_eq!(estimate_crack_time(21).as_deref(), Some("Несколько минут"));
    assert_eq!(estimate_crack_time(60).as_deref(), Some("Несколько часов"));
    assert_eq!(estimate_crack_time(80).as_deref(), Some("Несколько дней"));
    assert_eq!(estimate_crack_time(100).as_deref(), Some("Несколько лет"));
    assert_eq!(estimate_crack_time(101), None);
}

#[test]
fn suggestions_list_what_is_missing() {
    assert_eq!(
        generate_password_suggestions("abc"),
        vec![
            "Используйте пароль длиной не менее 12 символов",
            "Добавьте заглавные буквы",
            "Добавьте цифры",
            "Добавьте специальные символы",
        ]
    );
    assert!(generate_password_suggestions("Abcdefghij1!").is_empty());
}

#[test]
fn weak_password_count() {
    let rows = vec![
        entry("a", Some("Abcdefg1")),
        entry("b", Some("abcdefg1")),
        entry("c", None),
        entry("d", Some("Ab1")),
    ];
    assert_eq!(count_weak_passwords(&rows), 3);
    assert_eq!(count_weak_passwords(&vec![]), 0);
}

use argo_tunnel::keepass::naming::{container_id, container_name, lower_hex};

#[test]
fn container_ids_and_names() {
    assert_eq!(container_id("test"), "098f6bcd4621d373cade4e832627b4f6");
    assert_eq!(container_id(""), "d41d8cd98f00b204e9800998ecf8427e");
    assert_eq!(lower_hex(&vec![0x0f, 0xa0, 0xff]), "0fa0ff");
    assert_eq!(container_name("/home/u/KeePassContainers/My.kdbx"), "My");
    assert_eq!(container_name("plain.kdbx"), "plain");
    assert_eq!(container_name("a.kdbx.kdbx"), "a");
    assert_eq!(container_name("x/y.kdb"), "y.kdb");
    assert_eq!(container_name("dir/"), "");
}

#[test]
fn find_opened_container_by_id() {
    let mut m = KdbxManager::new();
    m.open_database("/data/test.kdbx".to_string(), tree(), false, String::new(), String::new());
    assert_eq!(m.find_container_path("098f6bcd4621d373cade4e832627b4f6"), Some("/data/test.kdbx".to_string()));
    assert_eq!(m.find_container_path("00000000000000000000000000000000"), None);
}

#[test]
fn open_database_describes_container() {
    let mut m = KdbxManager::new();
    let c = m.open_database("/data/test.kdbx".to_string(), tree(), true, "2024-05-01T00:00:00Z".to_string(), "now".to_string());
    assert_eq!(c.name, "test");
    assert_eq!(c.id, "098f6bcd4621d373cade4e832627b4f6");
    assert_eq!(c.path, "/data/test.kdbx");
    assert_eq!(c.entry_count, 3);
    assert!(c.is_open && !c.is_locked && c.keyfile_attached);
    assert_eq!(c.modified_at, "2024-05-01T00:00:00Z");
    assert_eq!(c.groups.len(), 1);
    let root = &c.groups[0];
    assert_eq!(root.name, "root");
    assert_eq!(root.id.len(), 36);
    assert!(root.parent_id.is_none());
    let names: Vec<&str> = root.children.iter().map(|g| g.name.as_str()).collect();
    assert_eq!(names, vec!["inner", "empty"]);
    assert!(root.children.iter().all(|g| g.parent_id.as_deref() == Some(root.id.as_str())));
    assert!(m.is_open("/data/test.kdbx"));
}

#[test]
fn rename_and_delete_opened_container() {
    let mut m = KdbxManager::new();
    m.open_database("/d/a.kdbx".to_string(), tree(), false, String::new(), String::new());
    m.attach_keyfile("id-a", vec![1]).unwrap();
    m.rename_container("/d/a.kdbx", "/d/b.kdbx".to_string());
    assert!(!m.is_open("/d/a.kdbx"));
    assert!(m.is_open("/d/b.kdbx"));
    assert_eq!(m.count_entries("/d/b.kdbx"), Ok(3));
    m.rename_container("/d/none.kdbx", "/d/c.kdbx".to_string());
    assert!(!m.is_open("/d/c.kdbx"));
    m.delete_container("/d/b.kdbx", "id-a");
    assert!(!m.is_open("/d/b.kdbx"));
}
