use std::collections::HashMap;
use vstd::prelude::*;

verus! {

/// A password container as shown to the user.
#[derive(Debug)]
pub struct KeePassContainer {
    pub id: String,
    pub name: String,
    pub path: String,
    pub created_at: String,
    pub modified_at: String,
    pub entry_count: usize,
    pub is_open: bool,
    pub is_locked: bool,
    pub groups: Vec<KeePassGroup>,
    pub keyfile_attached: bool,
    pub history: Vec<ContainerHistory>,
    pub description: Option<String>,
    pub compression: bool,
    pub encryption: String,
    pub key_derivation: String,
    pub version: String,
}

/// A password entry as shown to the user.
#[derive(Debug, Clone)]
pub struct KeePassEntry {
    pub id: String,
    pub title: String,
    pub username: String,
    pub password: String,
    pub url: Option<String>,
    pub notes: Option<String>,
    pub group_id: String,
    pub tags: Vec<String>,
    pub created_at: String,
    pub modified_at: String,
    pub accessed_at: String,
    pub expires_at: Option<String>,
    pub custom_fields: HashMap<String, String>,
    pub history: Vec<EntryHistory>,
    pub icon_id: Option<u32>,
    pub foreground_color: Option<String>,
    pub background_color: Option<String>,
    pub auto_type: Option<AutoType>,
    pub attachments: Vec<Attachment>,
}

/// A group of entries as shown to the user.
#[derive(Debug)]
pub struct KeePassGroup {
    pub id: String,
    pub name: String,
    pub parent_id: Option<String>,
    pub children: Vec<KeePassGroup>,
    pub created_at: String,
    pub modified_at: String,
    pub icon_id: Option<u32>,
    pub notes: Option<String>,
    pub is_expanded: bool,
    pub default_auto_type_sequence: Option<String>,
    pub enable_auto_type: Option<bool>,
    pub enable_searching: Option<bool>,
    pub last_top_visible_entry: Option<String>,
}

/// What to search for in a container, and where.
#[derive(Debug, Clone)]
pub struct SearchOptions {
    pub query: String,
    pub search_in_titles: bool,
    pub search_in_usernames: bool,
    pub search_in_passwords: bool,
    pub search_in_urls: bool,
    pub search_in_notes: bool,
    pub search_in_tags: bool,
    pub case_sensitive: bool,
    pub regex: bool,
    pub group_filter: Option<String>,
    pub exclude_expired: bool,
    pub exclude_recycled: bool,
}

/// Summary figures of a container.
#[derive(Debug, Clone)]
pub struct ContainerStats {
    pub total_entries: usize,
    pub total_groups: usize,
    pub weak_passwords: usize,
    pub duplicate_passwords: usize,
    pub expired_entries: usize,
    pub last_backup: Option<String>,
    pub container_size: usize,
    pub last_modified: String,
    pub security_score: u8,
}

/// One recorded change of a container.
#[derive(Debug, Clone)]
pub struct ContainerHistory {
    pub timestamp: String,
    pub action: String,
    pub user: Option<String>,
    pub details: Option<String>,
}

/// An earlier version of an entry.
#[derive(Debug, Clone)]
pub struct EntryHistory {
    pub timestamp: String,
    pub title: String,
    pub username: String,
    pub password: String,
    pub url: Option<String>,
    pub notes: Option<String>,
    pub custom_fields: HashMap<String, String>,
}

/// Auto-type settings of an entry.
#[derive(Debug, Clone)]
pub struct AutoType {
    pub enabled: bool,
    pub default_sequence: Option<String>,
    pub associations: Vec<AutoTypeAssociation>,
}

/// An auto-type sequence for one window.
#[derive(Debug, Clone)]
pub struct AutoTypeAssociation {
    pub window: String,
    pub sequence: String,
}

/// A file attached to an entry.
#[derive(Debug, Clone)]
pub struct Attachment {
    pub id: String,
    pub name: String,
    pub size: usize,
    pub content: Vec<u8>,
}

/// A key file that unlocks a container.
#[derive(Debug, Clone)]
pub struct KeyFile {
    pub id: String,
    pub name: String,
    pub path: String,
    pub content: Vec<u8>,
    pub created_at: String,
}

/// A backup copy of a container.
#[derive(Debug, Clone)]
pub struct BackupInfo {
    pub id: String,
    pub path: String,
    pub created_at: String,
    pub size: usize,
    pub description: Option<String>,
}

/// One recorded action on a container.
#[derive(Debug, Clone)]
pub struct AuditEvent {
    pub timestamp: String,
    pub user_id: Option<String>,
    pub action: String,
    pub resource_type: String,
    pub resource_id: String,
    pub details: Option<String>,
    pub ip_address: Option<String>,
}

/// How to import a container.
#[derive(Debug, Clone)]
pub struct ImportOptions {
    pub source_format: String,
    pub merge_existing: bool,
    pub create_backup: bool,
    pub import_history: bool,
    pub import_attachments: bool,
    pub group_mapping: HashMap<String, String>,
}

/// How to export a container.
#[derive(Debug, Clone)]
pub struct ExportOptions {
    pub format: String,
    pub include_history: bool,
    pub include_attachments: bool,
    pub encrypt: bool,
    pub password: Option<String>,
    pub keyfile: Option<Vec<u8>>,
}

} // verus!
