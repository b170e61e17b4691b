use vstd::prelude::*;

use std::collections::HashMap;

use crate::keepass::csv::{csv_document, csv_export};
use crate::keepass::naming::{container_id, container_id_of, container_name, container_name_of};
use crate::keepass::models::{ExportOptions, KeePassContainer, KeePassEntry, KeePassGroup, SearchOptions};
use crate::named_map::NamedMap;
use crate::text::{contains_seq, str_contains, str_eq};
use vstd::string::*;

verus! {

/// What `str::to_lowercase` makes of a string.
pub uninterp spec fn lower_of(s: Seq<char>) -> Seq<char>;

/// Relies on `str::to_lowercase`: the result depends on the characters alone.
#[verifier::external_body]
fn lowercase(s: &str) -> (r: String)
    ensures
        r@ == lower_of(s@),
{
    s.to_lowercase()
}

/// An entry of an opened container: its standard fields, each present or not.
pub struct VaultEntry {
    pub title: Option<String>,
    pub username: Option<String>,
    pub password: Option<String>,
    pub url: Option<String>,
    pub notes: Option<String>,
}

/// A node of a container's tree.
pub enum VaultNode {
    Group(VaultGroup),
    Entry(VaultEntry),
}

/// A group of a container's tree, with its child groups and entries in order.
pub struct VaultGroup {
    pub name: String,
    pub children: Vec<VaultNode>,
}

/// Why a container operation failed.
#[derive(Debug, Clone, Copy, PartialEq, Eq, Structural)]
pub enum KdbxError {
    /// No opened container has that path.
    ContainerNotFound,
    /// The container's file is not on disk.
    FileNotFound,
    /// The export format is neither `kdbx` nor `csv`.
    UnsupportedFormat,
}

/// The text a search compares: as it is, or lower-cased.
pub open spec fn folded(s: Seq<char>, case_sensitive: bool) -> Seq<char> {
    if case_sensitive {
        s
    } else {
        lower_of(s)
    }
}

/// An optional field holds the (folded) query.
pub open spec fn field_matches(f: Option<String>, query: Seq<char>, case_sensitive: bool) -> bool {
    match f {
        Some(s) => contains_seq(folded(s@, case_sensitive), query),
        None => false,
    }
}

/// An entry matches a search when one of the fields searched in holds the query.
pub open spec fn entry_matches(e: VaultEntry, o: SearchOptions) -> bool {
    let q = folded(o.query@, o.case_sensitive);
    ||| o.search_in_titles && field_matches(e.title, q, o.case_sensitive)
    ||| o.search_in_usernames && field_matches(e.username, q, o.case_sensitive)
    ||| o.search_in_urls && field_matches(e.url, q, o.case_sensitive)
    ||| o.search_in_notes && field_matches(e.notes, q, o.case_sensitive)
}

/// The matching entries under a list of nodes, depth first, in order.
pub open spec fn nodes_matching(ns: Seq<VaultNode>, o: SearchOptions) -> Seq<VaultEntry>
    decreases ns,
{
    if ns.len() == 0 {
        seq![]
    } else {
        nodes_matching(ns.drop_last(), o) + node_matching(ns.last(), o)
    }
}

/// The matching entries at or under a node, depth first, in order.
pub open spec fn node_matching(n: VaultNode, o: SearchOptions) -> Seq<VaultEntry>
    decreases n,
{
    match n {
        VaultNode::Group(g) => nodes_matching(g.children@, o),
        VaultNode::Entry(e) => if entry_matches(e, o) {
            seq![e]
        } else {
            seq![]
        },
    }
}

fn copy_field(f: &Option<String>) -> (r: Option<String>)
    ensures
        r == *f,
{
    match f {
        Some(s) => Some(s.clone()),
        None => None,
    }
}

fn field_holds(f: &Option<String>, query: &str, case_sensitive: bool) -> (r: bool)
    ensures
        r == field_matches(*f, query@, case_sensitive),
{
    match f {
        Some(s) => if case_sensitive {
            str_contains(s.as_str(), query)
        } else {
            let l = lowercase(s.as_str());
            str_contains(l.as_str(), query)
        },
        None => false,
    }
}

impl VaultEntry {
    /// A field-for-field copy.
    pub fn copy(&self) -> (r: Self)
        ensures
            r == *self,
    {
        VaultEntry {
            title: copy_field(&self.title),
            username: copy_field(&self.username),
            password: copy_field(&self.password),
            url: copy_field(&self.url),
            notes: copy_field(&self.notes),
        }
    }

    /// Whether the entry matches the search `options`.
    pub fn matches_search_criteria(&self, options: &SearchOptions) -> (r: bool)
        ensures
            r == entry_matches(*self, *options),
    {
        let query = if options.case_sensitive {
            options.query.clone()
        } else {
            lowercase(options.query.as_str())
        };
        let cs = options.case_sensitive;
        if options.search_in_titles && field_holds(&self.title, query.as_str(), cs) {
            return true;
        }
        if options.search_in_usernames && field_holds(&self.username, query.as_str(), cs) {
            return true;
        }
        if options.search_in_urls && field_holds(&self.url, query.as_str(), cs) {
            return true;
        }
        if options.search_in_notes && field_holds(&self.notes, query.as_str(), cs) {
            return true;
        }
        false
    }
}

/// Appends to `results` the entries under `group` that match `options`.
pub fn search_entries_recursive(
    group: &VaultGroup,
    options: &SearchOptions,
    results: &mut Vec<VaultEntry>,
)
    ensures
        final(results)@ == old(results)@ + nodes_matching(group.children@, *options),
    decreases group,
{
    let mut i: usize = 0;
    while i < group.children.len()
        invariant
            i <= group.children@.len(),
            results@ == old(results)@ + nodes_matching(group.children@.subrange(0, i as int), *options),
        decreases group.children@.len() - i,
    {
        let ghost before = results@;
        let child = &group.children[i];
        match child {
            VaultNode::Group(g) => {
                assert(decreases_to!(group => group.children));
                assert(decreases_to!(group.children => group.children@));
                assert(decreases_to!(group.children@ => group.children@[i as int]));
                search_entries_recursive(g, options, results);
                assert(results@ == before + node_matching(*child, *options));
            },
            VaultNode::Entry(e) => {
                if e.matches_search_criteria(options) {
                    results.push(e.copy());
                }
                assert(results@ =~= before + node_matching(*child, *options));
            },
        }
        proof {
            let s = group.children@.subrange(0, i + 1);
            assert(s.drop_last() =~= group.children@.subrange(0, i as int));
            assert(s.last() == group.children@[i as int]);
            assert(nodes_matching(s, *options) == nodes_matching(s.drop_last(), *options)
                + node_matching(s.last(), *options));
            assert(results@ =~= old(results)@ + nodes_matching(s, *options));
        }
        i = i + 1;
    }
    assert(group.children@.subrange(0, i as int) =~= group.children@);
}

/// The number of entries under a list of nodes, at any depth.
pub open spec fn nodes_entry_count(ns: Seq<VaultNode>) -> nat
    decreases ns,
{
    if ns.len() == 0 {
        0
    } else {
        nodes_entry_count(ns.drop_last()) + node_entry_count(ns.last())
    }
}

/// The number of entries at or under a node.
pub open spec fn node_entry_count(n: VaultNode) -> nat
    decreases n,
{
    match n {
        VaultNode::Group(g) => nodes_entry_count(g.children@),
        VaultNode::Entry(_) => 1,
    }
}

proof fn lemma_prefix_count(ns: Seq<VaultNode>, i: int)
    requires
        0 <= i <= ns.len(),
    ensures
        nodes_entry_count(ns.subrange(0, i)) <= nodes_entry_count(ns),
    decreases ns.len(),
{
    if i < ns.len() {
        assert(ns.drop_last().subrange(0, i) =~= ns.subrange(0, i));
        lemma_prefix_count(ns.drop_last(), i);
    } else {
        assert(ns.subrange(0, i) =~= ns);
    }
}

/// The number of entries under `group`, at any depth.
pub fn count_entries_recursive(group: &VaultGroup) -> (r: usize)
    requires
        nodes_entry_count(group.children@) <= usize::MAX,
    ensures
        r == nodes_entry_count(group.children@),
    decreases group,
{
    let mut count: usize = 0;
    let mut i: usize = 0;
    while i < group.children.len()
        invariant
            i <= group.children@.len(),
            nodes_entry_count(group.children@) <= usize::MAX,
            count == nodes_entry_count(group.children@.subrange(0, i as int)),
        decreases group.children@.len() - i,
    {
        let ghost s = group.children@.subrange(0, i + 1);
        proof {
            assert(s.drop_last() =~= group.children@.subrange(0, i as int));
            assert(s.last() == group.children@[i as int]);
            lemma_prefix_count(group.children@, i + 1);
            assert(nodes_entry_count(s) == count + node_entry_count(group.children@[i as int]));
        }
        match &group.children[i] {
            VaultNode::Group(g) => {
                assert(decreases_to!(group => group.children));
                assert(decreases_to!(group.children => group.children@));
                assert(decreases_to!(group.children@ => group.children@[i as int]));
                assert(node_entry_count(group.children@[i as int]) == nodes_entry_count(g.children@));
                let c = count_entries_recursive(g);
                count = count + c;
            },
            VaultNode::Entry(_) => {
                count = count + 1;
            },
        }
        i = i + 1;
    }
    assert(group.children@.subrange(0, i as int) =~= group.children@);
    count
}

/// The number of groups under a list of nodes, at any depth.
pub open spec fn nodes_group_count(ns: Seq<VaultNode>) -> nat
    decreases ns,
{
    if ns.len() == 0 {
        0
    } else {
        nodes_group_count(ns.drop_last()) + node_group_count(ns.last())
    }
}

/// The number of groups at or under a node.
pub open spec fn node_group_count(n: VaultNode) -> nat
    decreases n,
{
    match n {
        VaultNode::Group(g) => 1 + nodes_group_count(g.children@),
        VaultNode::Entry(_) => 0,
    }
}

proof fn lemma_prefix_group_count(ns: Seq<VaultNode>, i: int)
    requires
        0 <= i <= ns.len(),
    ensures
        nodes_group_count(ns.subrange(0, i)) <= nodes_group_count(ns),
    decreases ns.len(),
{
    if i < ns.len() {
        assert(ns.drop_last().subrange(0, i) =~= ns.subrange(0, i));
        lemma_prefix_group_count(ns.drop_last(), i);
    } else {
        assert(ns.subrange(0, i) =~= ns);
    }
}

/// The number of groups of the tree under `group`, `group` included.
pub fn count_groups(group: &VaultGroup) -> (r: usize)
    requires
        1 + nodes_group_count(group.children@) <= usize::MAX,
    ensures
        r == 1 + nodes_group_count(group.children@),
    decreases group,
{
    let mut count: usize = 1;
    let mut i: usize = 0;
    while i < group.children.len()
        invariant
            i <= group.children@.len(),
            1 + nodes_group_count(group.children@) <= usize::MAX,
            count == 1 + nodes_group_count(group.children@.subrange(0, i as int)),
        decreases group.children@.len() - i,
    {
        let ghost s = group.children@.subrange(0, i + 1);
        proof {
            assert(s.drop_last() =~= group.children@.subrange(0, i as int));
            assert(s.last() == group.children@[i as int]);
            lemma_prefix_group_count(group.children@, i + 1);
            assert(nodes_group_count(s) + 1 == count + node_group_count(group.children@[i as int]));
        }
        match &group.children[i] {
            VaultNode::Group(g) => {
                assert(decreases_to!(group => group.children));
                assert(decreases_to!(group.children => group.children@));
                assert(decreases_to!(group.children@ => group.children@[i as int]));
                assert(node_group_count(group.children@[i as int]) == 1 + nodes_group_count(g.children@));
                let c = count_groups(g);
                count = count + c;
            },
            VaultNode::Entry(_) => {},
        }
        i = i + 1;
    }
    assert(group.children@.subrange(0, i as int) =~= group.children@);
    count
}

/// The entries under a list of nodes, depth first, in order.
pub open spec fn nodes_entries(ns: Seq<VaultNode>) -> Seq<VaultEntry>
    decreases ns,
{
    if ns.len() == 0 {
        seq![]
    } else {
        nodes_entries(ns.drop_last()) + node_entries(ns.last())
    }
}

/// The entries at or under a node, depth first, in order.
pub open spec fn node_entries(n: VaultNode) -> Seq<VaultEntry>
    decreases n,
{
    match n {
        VaultNode::Group(g) => nodes_entries(g.children@),
        VaultNode::Entry(e) => seq![e],
    }
}

/// Appends to `entries` copies of the entries under `group`, depth first.
pub fn collect_entries_recursive(group: &VaultGroup, entries: &mut Vec<VaultEntry>)
    ensures
        final(entries)@ == old(entries)@ + nodes_entries(group.children@),
    decreases group,
{
    let mut i: usize = 0;
    while i < group.children.len()
        invariant
            i <= group.children@.len(),
            entries@ == old(entries)@ + nodes_entries(group.children@.subrange(0, i as int)),
        decreases group.children@.len() - i,
    {
        let ghost before = entries@;
        let child = &group.children[i];
        match child {
            VaultNode::Group(g) => {
                assert(decreases_to!(group => group.children));
                assert(decreases_to!(group.children => group.children@));
                assert(decreases_to!(group.children@ => group.children@[i as int]));
                collect_entries_recursive(g, entries);
                assert(entries@ == before + node_entries(*child));
            },
            VaultNode::Entry(e) => {
                entries.push(e.copy());
                assert(entries@ =~= before + node_entries(*child));
            },
        }
        proof {
            let s = group.children@.subrange(0, i + 1);
            assert(s.drop_last() =~= group.children@.subrange(0, i as int));
            assert(s.last() == group.children@[i as int]);
            assert(nodes_entries(s) == nodes_entries(s.drop_last()) + node_entries(s.last()));
            assert(entries@ =~= old(entries)@ + nodes_entries(s));
        }
        i = i + 1;
    }
    assert(group.children@.subrange(0, i as int) =~= group.children@);
}

/// Copies of all entries under `group`, depth first, in tree order.
pub fn collect_all_entries(group: &VaultGroup) -> (r: Vec<VaultEntry>)
    ensures
        r@ == nodes_entries(group.children@),
{
    let mut entries: Vec<VaultEntry> = Vec::new();
    collect_entries_recursive(group, &mut entries);
    assert(entries@ =~= nodes_entries(group.children@));
    entries
}

/// Relies on `uuid::Uuid::new_v4` and its hyphenated text: a fresh random id
/// of 36 characters.
#[verifier::external_body]
fn new_id() -> (r: String)
    ensures
        r@.len() == 36,
{
    uuid::Uuid::new_v4().to_string()
}

/// A group tree by names alone.
pub enum NameTree {
    Node(Seq<char>, Seq<NameTree>),
}

/// The name tree of a container group.
pub open spec fn vault_tree(g: VaultGroup) -> NameTree
    decreases g,
{
    NameTree::Node(g.name@, vault_subtrees(g.children@))
}

/// The name trees of the groups among a list of nodes, in order.
pub open spec fn vault_subtrees(ns: Seq<VaultNode>) -> Seq<NameTree>
    decreases ns,
{
    if ns.len() == 0 {
        seq![]
    } else {
        vault_subtrees(ns.drop_last()) + match ns.last() {
            VaultNode::Group(h) => seq![vault_tree(h)],
            VaultNode::Entry(_) => seq![],
        }
    }
}

/// The name tree of a group as shown.
pub open spec fn shown_tree(k: KeePassGroup) -> NameTree
    decreases k,
{
    NameTree::Node(k.name@, shown_subtrees(k.children@))
}

/// The name trees of a list of groups as shown.
pub open spec fn shown_subtrees(ks: Seq<KeePassGroup>) -> Seq<NameTree>
    decreases ks,
{
    if ks.len() == 0 {
        seq![]
    } else {
        shown_subtrees(ks.drop_last()).push(shown_tree(ks.last()))
    }
}

/// Every shown child group names its parent by the parent's id.
pub open spec fn parents_linked(k: KeePassGroup) -> bool
    decreases k,
{
    forall|i: int| 0 <= i < k.children@.len() ==> (#[trigger] k.children@[i]).parent_id == Some(k.id)
        && parents_linked(k.children@[i])
}

/// The group as shown, under a fresh id, with its child groups (entries
/// left out) converted the same way below it; `now` is the time of the
/// conversion.
pub fn convert_groups_recursive(group: &VaultGroup, parent_id: Option<String>, now: &String) -> (r: Vec<
    KeePassGroup,
>)
    ensures
        r@.len() == 1,
        shown_tree(r@[0]) == vault_tree(*group),
        r@[0].parent_id == parent_id,
        parents_linked(r@[0]),
    decreases group,
{
    let group_id = new_id();
    let mut children: Vec<KeePassGroup> = Vec::new();
    let mut i: usize = 0;
    while i < group.children.len()
        invariant
            i <= group.children@.len(),
            shown_subtrees(children@) == vault_subtrees(group.children@.subrange(0, i as int)),
            forall|j: int| 0 <= j < children@.len() ==> (#[trigger] children@[j]).parent_id == Some(group_id)
                && parents_linked(children@[j]),
        decreases group.children@.len() - i,
    {
        proof {
            let s = group.children@.subrange(0, i + 1);
            assert(s.drop_last() =~= group.children@.subrange(0, i as int));
            assert(s.last() == group.children@[i as int]);
        }
        match &group.children[i] {
            VaultNode::Group(g) => {
                assert(decreases_to!(group => group.children));
                assert(decreases_to!(group.children => group.children@));
                assert(decreases_to!(group.children@ => group.children@[i as int]));
                let mut sub = convert_groups_recursive(g, Some(group_id.clone()), now);
                let c = sub.pop().unwrap();
                let ghost before = children@;
                children.push(c);
                proof {
                    assert(children@.drop_last() =~= before);
                    assert(shown_subtrees(children@) == shown_subtrees(before).push(shown_tree(c)));
                }
            },
            VaultNode::Entry(_) => {},
        }
        i = i + 1;
    }
    assert(group.children@.subrange(0, i as int) =~= group.children@);
    let shown = KeePassGroup {
        id: group_id,
        name: group.name.clone(),
        parent_id,
        children,
        created_at: now.clone(),
        modified_at: now.clone(),
        icon_id: None,
        notes: None,
        is_expanded: true,
        default_auto_type_sequence: None,
        enable_auto_type: None,
        enable_searching: None,
        last_top_visible_entry: None,
    };
    assert(parents_linked(shown));
    vec![shown]
}

/// The groups of a container's tree as shown: its root and all groups below.
pub fn convert_groups(root: &VaultGroup, now: &String) -> (r: Vec<KeePassGroup>)
    ensures
        r@.len() == 1,
        shown_tree(r@[0]) == vault_tree(*root),
        r@[0].parent_id is None,
        parents_linked(r@[0]),
{
    convert_groups_recursive(root, None, now)
}

impl VaultEntry {
    /// The entry as shown to the user, under the given id and timestamps.
    pub fn to_keepass_entry(&self, id: String, now: String) -> (r: KeePassEntry)
        ensures
            r.id == id,
            r.title@ == opt_text(self.title),
            r.username@ == opt_text(self.username),
            r.password@ == opt_text(self.password),
            r.url == self.url,
            r.notes == self.notes,
            r.created_at == now,
    {
        KeePassEntry {
            id,
            title: text_or_empty(&self.title),
            username: text_or_empty(&self.username),
            password: text_or_empty(&self.password),
            url: copy_field(&self.url),
            notes: copy_field(&self.notes),
            group_id: String::new(),
            tags: Vec::new(),
            created_at: now.clone(),
            modified_at: now.clone(),
            accessed_at: now,
            expires_at: None,
            custom_fields: HashMap::new(),
            history: Vec::new(),
            icon_id: None,
            foreground_color: None,
            background_color: None,
            auto_type: None,
            attachments: Vec::new(),
        }
    }
}

/// The text of an optional field, empty where it is absent.
pub open spec fn opt_text(f: Option<String>) -> Seq<char> {
    match f {
        Some(s) => s@,
        None => Seq::empty(),
    }
}

fn text_or_empty(f: &Option<String>) -> (r: String)
    ensures
        r@ == opt_text(*f),
{
    match f {
        Some(s) => s.clone(),
        None => String::new(),
    }
}

/// The opened containers, each a tree under its root group, by file path;
/// and the key files attached to containers, by path.
pub struct KdbxManager {
    databases: NamedMap<VaultGroup>,
    keyfiles: NamedMap<Vec<u8>>,
}

impl KdbxManager {
    pub closed spec fn databases(&self) -> Map<Seq<char>, VaultGroup> {
        self.databases@
    }

    pub closed spec fn keyfiles(&self) -> Map<Seq<char>, Vec<u8>> {
        self.keyfiles@
    }

    pub closed spec fn wf(&self) -> bool {
        self.databases.wf() && self.keyfiles.wf()
    }

    pub fn new() -> (r: Self)
        ensures
            r.wf(),
            r.databases() == Map::<Seq<char>, VaultGroup>::empty(),
            r.keyfiles() == Map::<Seq<char>, Vec<u8>>::empty(),
    {
        KdbxManager { databases: NamedMap::new(), keyfiles: NamedMap::new() }
    }

    /// Whether the container at `path` is opened.
    pub fn is_open(&self, path: &str) -> (r: bool)
        requires
            self.wf(),
        ensures
            r == self.databases().contains_key(path@),
    {
        self.databases.contains_key(path)
    }

    /// The number of entries of the opened container at `path`.
    pub fn count_entries(&self, path: &str) -> (r: Result<usize, KdbxError>)
        requires
            self.wf(),
            self.databases().contains_key(path@) ==> nodes_entry_count(
                self.databases()[path@].children@,
            ) <= usize::MAX,
        ensures
            self.databases().contains_key(path@) ==> r == Ok::<usize, KdbxError>(
                nodes_entry_count(self.databases()[path@].children@) as usize,
            ),
            !self.databases().contains_key(path@) ==> r == Err::<usize, KdbxError>(
                KdbxError::ContainerNotFound,
            ),
    {
        match self.databases.get(path) {
            Some(root) => Ok(count_entries_recursive(root)),
            None => Err(KdbxError::ContainerNotFound),
        }
    }

    /// The container's file must be on disk; the data is kept in memory.
    pub fn save_container(&mut self, container_path: &str, file_exists: bool) -> (r: Result<
        (),
        KdbxError,
    >)
        ensures
            file_exists <==> r is Ok,
            !file_exists ==> r == Err::<(), KdbxError>(KdbxError::FileNotFound),
            *final(self) == *old(self),
    {
        if file_exists {
            Ok(())
        } else {
            Err(KdbxError::FileNotFound)
        }
    }

    /// The container's file must be on disk; the password stays as it is.
    pub fn change_container_password(
        &mut self,
        container_path: &str,
        current_password: &str,
        new_password: &str,
        file_exists: bool,
    ) -> (r: Result<(), KdbxError>)
        ensures
            file_exists <==> r is Ok,
            !file_exists ==> r == Err::<(), KdbxError>(KdbxError::FileNotFound),
            *final(self) == *old(self),
    {
        if file_exists {
            Ok(())
        } else {
            Err(KdbxError::FileNotFound)
        }
    }

    /// Checks that the container at `path` is opened.
    fn require_open(&self, path: &str) -> (r: Result<(), KdbxError>)
        requires
            self.wf(),
        ensures
            self.databases().contains_key(path@) <==> r is Ok,
            r is Err ==> r == Err::<(), KdbxError>(KdbxError::ContainerNotFound),
    {
        if self.databases.contains_key(path) {
            Ok(())
        } else {
            Err(KdbxError::ContainerNotFound)
        }
    }

    /// Appends a child node to the root group of the container at `path`.
    fn push_node(&mut self, path: &str, node: VaultNode) -> (r: Result<(), KdbxError>)
        requires
            old(self).wf(),
        ensures
            final(self).wf(),
            final(self).keyfiles() == old(self).keyfiles(),
            old(self).databases().contains_key(path@) <==> r is Ok,
            r is Err ==> r == Err::<(), KdbxError>(KdbxError::ContainerNotFound)
                && final(self).databases() == old(self).databases(),
            r is Ok ==> final(self).databases().dom() == old(self).databases().dom()
                && (forall|p: Seq<char>| p != path@ ==> #[trigger] final(self).databases().get(p) == old(self).databases().get(p))
                && final(self).databases()[path@].name == old(self).databases()[path@].name
                && final(self).databases()[path@].children@ == old(self).databases()[path@].children@.push(node),
    {
        match self.databases.remove(path) {
            Some(root) => {
                let mut root = root;
                root.children.push(node);
                self.databases.insert(String::from_str(path), root);
                assert(self.databases().dom() =~= old(self).databases().dom());
                Ok(())
            },
            None => {
                assert(self.databases() =~= old(self).databases());
                Err(KdbxError::ContainerNotFound)
            },
        }
    }

    /// Adds `entry` at the root of the container at `path`.
    pub fn add_entry(&mut self, container_path: &str, entry: KeePassEntry) -> (r: Result<(), KdbxError>)
        requires
            old(self).wf(),
        ensures
            final(self).wf(),
            final(self).keyfiles() == old(self).keyfiles(),
            old(self).databases().contains_key(container_path@) <==> r is Ok,
            r is Err ==> r == Err::<(), KdbxError>(KdbxError::ContainerNotFound)
                && final(self).databases() == old(self).databases(),
            r is Ok ==> final(self).databases().dom() == old(self).databases().dom()
                && (forall|p: Seq<char>| p != container_path@ ==> #[trigger] final(self).databases().get(p) == old(self).databases().get(p))
                && final(self).databases()[container_path@].children@ == old(self).databases()[container_path@].children@.push(
                    VaultNode::Entry(VaultEntry {
                        title: Some(entry.title),
                        username: Some(entry.username),
                        password: Some(entry.password),
                        url: entry.url,
                        notes: entry.notes,
                    }),
                ),
    {
        let node = VaultNode::Entry(VaultEntry {
            title: Some(entry.title),
            username: Some(entry.username),
            password: Some(entry.password),
            url: entry.url,
            notes: entry.notes,
        });
        self.push_node(container_path, node)
    }

    /// Adds an empty group named as `group` at the root of the container at `path`.
    pub fn add_group(&mut self, container_path: &str, group: &KeePassGroup) -> (r: Result<(), KdbxError>)
        requires
            old(self).wf(),
        ensures
            final(self).wf(),
            final(self).keyfiles() == old(self).keyfiles(),
            old(self).databases().contains_key(container_path@) <==> r is Ok,
            r is Err ==> r == Err::<(), KdbxError>(KdbxError::ContainerNotFound)
                && final(self).databases() == old(self).databases(),
            r is Ok ==> final(self).databases().dom() == old(self).databases().dom()
                && (forall|p: Seq<char>| p != container_path@ ==> #[trigger] final(self).databases().get(p) == old(self).databases().get(p))
                && final(self).databases()[container_path@].children@.len() == old(self).databases()[container_path@].children@.len() + 1
                && final(self).databases()[container_path@].children@.drop_last() == old(self).databases()[container_path@].children@
                && (final(self).databases()[container_path@].children@.last() matches VaultNode::Group(g)
                    && g.name@ == group.name@ && g.children@.len() == 0),
    {
        let node = VaultNode::Group(VaultGroup { name: group.name.clone(), children: Vec::new() });
        let r = self.push_node(container_path, node);
        proof {
            if r is Ok {
                let c = self.databases()[container_path@].children@;
                assert(c.drop_last() =~= old(self).databases()[container_path@].children@);
            }
        }
        r
    }

    /// Checks that the container at `path` is opened; entries are not changed.
    pub fn update_entry(&mut self, container_path: &str, entry: KeePassEntry) -> (r: Result<(), KdbxError>)
        requires
            old(self).wf(),
        ensures
            *final(self) == *old(self),
            old(self).databases().contains_key(container_path@) <==> r is Ok,
            r is Err ==> r == Err::<(), KdbxError>(KdbxError::ContainerNotFound),
    {
        self.require_open(container_path)
    }

    /// Checks that the container at `path` is opened; entries are not changed.
    pub fn delete_entry(&mut self, container_path: &str, entry_id: &str) -> (r: Result<(), KdbxError>)
        requires
            old(self).wf(),
        ensures
            *final(self) == *old(self),
            old(self).databases().contains_key(container_path@) <==> r is Ok,
            r is Err ==> r == Err::<(), KdbxError>(KdbxError::ContainerNotFound),
    {
        self.require_open(container_path)
    }

    /// Checks that the container at `path` is opened; groups are not changed.
    pub fn update_group(&mut self, container_path: &str, group: &KeePassGroup) -> (r: Result<(), KdbxError>)
        requires
            old(self).wf(),
        ensures
            *final(self) == *old(self),
            old(self).databases().contains_key(container_path@) <==> r is Ok,
            r is Err ==> r == Err::<(), KdbxError>(KdbxError::ContainerNotFound),
    {
        self.require_open(container_path)
    }

    /// Checks that the container at `path` is opened; groups are not changed.
    pub fn delete_group(&mut self, container_path: &str, group_id: &str) -> (r: Result<(), KdbxError>)
        requires
            old(self).wf(),
        ensures
            *final(self) == *old(self),
            old(self).databases().contains_key(container_path@) <==> r is Ok,
            r is Err ==> r == Err::<(), KdbxError>(KdbxError::ContainerNotFound),
    {
        self.require_open(container_path)
    }

    /// The entries of the container at `path` that match `options`, depth
    /// first, in tree order.
    pub fn search_entries(&self, container_path: &str, options: &SearchOptions) -> (r: Result<
        Vec<VaultEntry>,
        KdbxError,
    >)
        requires
            self.wf(),
        ensures
            self.databases().contains_key(container_path@) <==> r is Ok,
            r is Err ==> r->Err_0 == KdbxError::ContainerNotFound,
            r is Ok ==> r->Ok_0@ == nodes_matching(
                self.databases()[container_path@].children@,
                *options,
            ),
    {
        match self.databases.get(container_path) {
            Some(root) => {
                let mut results: Vec<VaultEntry> = Vec::new();
                search_entries_recursive(root, options, &mut results);
                assert(results@ =~= nodes_matching(root.children@, *options));
                Ok(results)
            },
            None => Err(KdbxError::ContainerNotFound),
        }
    }

    /// Attaches a key file to the container at `path`, in place of any earlier one.
    pub fn attach_keyfile(&mut self, container_path: &str, keyfile: Vec<u8>) -> (r: Result<
        (),
        KdbxError,
    >)
        requires
            old(self).wf(),
        ensures
            r is Ok,
            final(self).wf(),
            final(self).databases() == old(self).databases(),
            final(self).keyfiles() == old(self).keyfiles().insert(container_path@, keyfile),
    {
        self.keyfiles.insert(String::from_str(container_path), keyfile);
        Ok(())
    }

    /// Removes the key file of the container at `path`, if any.
    pub fn detach_keyfile(&mut self, container_path: &str) -> (r: Result<(), KdbxError>)
        requires
            old(self).wf(),
        ensures
            r is Ok,
            final(self).wf(),
            final(self).databases() == old(self).databases(),
            final(self).keyfiles() == old(self).keyfiles().remove(container_path@),
    {
        self.keyfiles.remove(container_path);
        Ok(())
    }

    /// Exports the container at `path`: as CSV (a header, then one line per
    /// entry, depth first); as `kdbx`, for which nothing is written yet, an
    /// empty text; any other format is refused.
    pub fn export_container(&self, container_path: &str, options: &ExportOptions) -> (r: Result<
        String,
        KdbxError,
    >)
        requires
            self.wf(),
        ensures
            !self.databases().contains_key(container_path@) ==> r == Err::<String, KdbxError>(
                KdbxError::ContainerNotFound,
            ),
            self.databases().contains_key(container_path@) ==> {
                if options.format@ == "csv"@ {
                    r is Ok && r->Ok_0@ == csv_document(
                        nodes_entries(self.databases()[container_path@].children@),
                    )
                } else if options.format@ == "kdbx"@ {
                    r is Ok && r->Ok_0@.len() == 0
                } else {
                    r == Err::<String, KdbxError>(KdbxError::UnsupportedFormat)
                }
            },
    {
        proof {
            reveal_strlit("csv");
            reveal_strlit("kdbx");
            assert("csv"@.len() != "kdbx"@.len());
        }
        match self.databases.get(container_path) {
            Some(root) => {
                if str_eq(options.format.as_str(), "kdbx") {
                    Ok(String::new())
                } else if str_eq(options.format.as_str(), "csv") {
                    let entries = collect_all_entries(root);
                    Ok(csv_export(&entries))
                } else {
                    Err(KdbxError::UnsupportedFormat)
                }
            },
            None => Err(KdbxError::ContainerNotFound),
        }
    }

    /// The path of an opened container whose id, from its file name, is
    /// `wanted`.
    pub fn find_container_path(&self, wanted: &str) -> (r: Option<String>)
        requires
            self.wf(),
        ensures
            match r {
                Some(p) => self.databases().contains_key(p@) && container_id_of(container_name_of(p@))
                    == wanted@,
                None => forall|p: Seq<char>| #[trigger] self.databases().contains_key(p)
                    ==> container_id_of(container_name_of(p)) != wanted@,
            },
    {
        let paths = self.databases.keys();
        let mut i: usize = 0;
        while i < paths.len()
            invariant
                i <= paths@.len(),
                forall|j: int| 0 <= j < paths@.len() ==> #[trigger] self.databases().contains_key(paths@[j]@),
                forall|j: int| 0 <= j < i ==> container_id_of(container_name_of(#[trigger] paths@[j]@)) != wanted@,
            decreases paths@.len() - i,
        {
            let name = container_name(paths[i].as_str());
            let id = container_id(name.as_str());
            if str_eq(id.as_str(), wanted) {
                return Some(paths[i].clone());
            }
            i = i + 1;
        }
        assert forall|p: Seq<char>| #[trigger] self.databases().contains_key(p)
            implies container_id_of(container_name_of(p)) != wanted@ by {
            let j = choose|j: int| 0 <= j < paths@.len() && paths@[j]@ == p;
            assert(container_id_of(container_name_of(paths@[j]@)) != wanted@);
        }
        None
    }

    /// Keeps the container read from the file at `path`, whose tree is under
    /// `root`, and describes it: its name and id come from the file name, its
    /// counts and groups from the tree; `modified_at` is the file's time and
    /// `now` the time of opening.
    pub fn open_database(
        &mut self,
        path: String,
        root: VaultGroup,
        keyfile_attached: bool,
        modified_at: String,
        now: String,
    ) -> (r: KeePassContainer)
        requires
            old(self).wf(),
            nodes_entry_count(root.children@) <= usize::MAX,
        ensures
            final(self).wf(),
            final(self).databases() == old(self).databases().insert(path@, root),
            final(self).keyfiles() == old(self).keyfiles(),
            r.name@ == container_name_of(path@),
            r.id@ == container_id_of(container_name_of(path@)),
            r.path == path,
            r.entry_count == nodes_entry_count(root.children@),
            r.groups@.len() == 1,
            shown_tree(r.groups@[0]) == vault_tree(root),
            r.is_open && !r.is_locked,
            r.keyfile_attached == keyfile_attached,
            r.created_at == now,
            r.modified_at == modified_at,
    {
        let name = container_name(path.as_str());
        let id = container_id(name.as_str());
        let entry_count = count_entries_recursive(&root);
        let groups = convert_groups(&root, &now);
        let container = KeePassContainer {
            id,
            name,
            path: path.clone(),
            created_at: now,
            modified_at,
            entry_count,
            is_open: true,
            is_locked: false,
            groups,
            keyfile_attached,
            history: Vec::new(),
            description: None,
            compression: true,
            encryption: String::from_str("AES-256"),
            key_derivation: String::from_str("Argon2"),
            version: String::from_str("4.0"),
        };
        self.databases.insert(path, root);
        container
    }

    /// After the container's file moved from `old_path` to `new_path`, keeps
    /// its opened tree under the new path.
    pub fn rename_container(&mut self, old_path: &str, new_path: String)
        requires
            old(self).wf(),
        ensures
            final(self).wf(),
            final(self).keyfiles() == old(self).keyfiles(),
            old(self).databases().contains_key(old_path@) ==> final(self).databases() == old(
                self,
            ).databases().remove(old_path@).insert(new_path@, old(self).databases()[old_path@]),
            !old(self).databases().contains_key(old_path@) ==> final(self).databases() == old(
                self,
            ).databases(),
    {
        match self.databases.remove(old_path) {
            Some(root) => {
                self.databases.insert(new_path, root);
            },
            None => {
                assert(self.databases() =~= old(self).databases());
            },
        }
    }

    /// After the container's file was deleted, forgets its opened tree and
    /// the key file kept under its id.
    pub fn delete_container(&mut self, container_path: &str, container_id: &str)
        requires
            old(self).wf(),
        ensures
            final(self).wf(),
            final(self).databases() == old(self).databases().remove(container_path@),
            final(self).keyfiles() == old(self).keyfiles().remove(container_id@),
    {
        self.databases.remove(container_path);
        self.keyfiles.remove(container_id);
    }
}

} // verus!
