//! The browser's tree of nodes: storages at the top, listings filled in on demand.
use crate::model;
use crate::model::{
    message_node, BrowserNode, NodeSource, NodeView, ObjectInfo, ObjectView, StorageInfo,
    StorageView,
};
use crate::phrases::{Language, Phrase};
use crate::text;
use crate::text::{decimal_of, same_text};
use crate::util;
use crate::util::format_bytes;
use vstd::prelude::*;

verus! {

/// All nodes of the browser and the top-level ones among them, by index.
#[derive(Clone, Debug)]
pub struct NodeTree {
    pub nodes: Vec<BrowserNode>,
    pub root_children: Vec<usize>,
}

/// What a tree holds.
#[verifier::ext_equal]
pub struct TreeView {
    pub nodes: Seq<NodeView>,
    pub root_children: Seq<usize>,
}

impl View for NodeTree {
    type V = TreeView;

    open spec fn view(&self) -> TreeView {
        TreeView { nodes: self.nodes.deep_view(), root_children: self.root_children@ }
    }
}

/// How the note of a listed object reads.
#[derive(Clone, Copy, Debug, PartialEq, Eq, Structural)]
pub enum NoteStyle {
    /// How to preview and copy the object.
    Usage,
    /// The object's identifiers on the device.
    Identifiers,
}

/// The note of a listed object.
pub open spec fn object_note(
    style: NoteStyle,
    storage_id: u32,
    handle: u32,
    language: Language,
) -> Seq<char> {
    match style {
        NoteStyle::Usage => Phrase::ObjectUsage.say(language),
        NoteStyle::Identifiers => "Handle: "@ + text::decimal(handle as nat) + "\nStorage: "@
            + text::decimal(storage_id as nat) + Phrase::QuickLookTail.say(language),
    }
}

/// The node of a listed object.
pub open spec fn object_view(
    style: NoteStyle,
    storage_id: u32,
    object: ObjectView,
    language: Language,
) -> NodeView {
    NodeView {
        name: object.filename,
        kind: if object.is_folder {
            Phrase::Folder.say(language)
        } else {
            Phrase::File.say(language)
        },
        size: if object.is_folder {
            "--"@
        } else {
            util::bytes_text(object.size as nat)
        },
        created: object.created,
        modified: object.modified,
        note: object_note(style, storage_id, object.handle, language),
        source: NodeSource::Object {
            storage_id,
            handle: object.handle,
            is_folder: object.is_folder,
        },
        children: Seq::empty(),
        children_loaded: false,
        can_expand: object.is_folder,
        cached_path: None,
    }
}

/// The node of a storage.
pub open spec fn storage_view(storage: StorageView, language: Language) -> NodeView {
    NodeView {
        name: storage.description,
        kind: Phrase::Storage.say(language),
        size: util::bytes_text(storage.free_space_bytes as nat),
        created: None,
        modified: None,
        note: "Storage ID: "@ + text::decimal(storage.storage_id as nat)
            + Phrase::FreeSpaceLead.say(language) + util::bytes_text(storage.free_space_bytes as nat),
        source: NodeSource::Storage { storage_id: storage.storage_id },
        children: Seq::empty(),
        children_loaded: false,
        can_expand: true,
        cached_path: None,
    }
}

/// The indexes `start`, `start + 1`, ... `start + count - 1`.
pub open spec fn index_run(start: int, count: nat) -> Seq<usize> {
    Seq::new(count, |i: int| (start + i) as usize)
}

impl TreeView {
    /// A tree without nodes.
    pub open spec fn empty() -> TreeView {
        TreeView { nodes: Seq::empty(), root_children: Seq::empty() }
    }

    /// A tree whose only node shows a message.
    pub open spec fn of_message(
        title: Seq<char>,
        detail: Seq<char>,
        language: Language,
    ) -> TreeView {
        TreeView {
            nodes: seq![model::message_view(title, detail, Phrase::Status.say(language))],
            root_children: seq![0usize],
        }
    }

    /// A tree of storages, or of a message where the device has none.
    pub open spec fn of_storages(
        storages: Seq<StorageView>,
        language: Language,
    ) -> TreeView {
        if storages.len() == 0 {
            Self::of_message(
                Phrase::NoStorages.say(language),
                Phrase::NoStoragesHint.say(language),
                language,
            )
        } else {
            TreeView {
                nodes: storages.map_values(|s: StorageView| storage_view(s, language)),
                root_children: index_run(0, storages.len()),
            }
        }
    }

    /// Every index in the tree is in range, a node's children come after the node itself, so
    /// that there is no cycle, and no node stands in two places.
    pub open spec fn well_formed(self) -> bool {
        &&& forall|i: int, j: int|
            0 <= i < j < self.root_children.len() ==> (#[trigger] self.root_children[i]) != (
            #[trigger] self.root_children[j])
        &&& forall|n: int, i: int, j: int|
            0 <= n < self.nodes.len() && 0 <= i < self.nodes[n].children.len() && 0 <= j
                < self.root_children.len() ==> (#[trigger] self.nodes[n].children[i]) != (
            #[trigger] self.root_children[j])
        &&& forall|n: int, i: int, m: int, j: int|
            0 <= n < self.nodes.len() && 0 <= i < self.nodes[n].children.len() && 0 <= m
                < self.nodes.len() && 0 <= j < self.nodes[m].children.len() && (n != m || i != j)
                ==> (#[trigger] self.nodes[n].children[i]) != (
            #[trigger] self.nodes[m].children[j])
        &&& forall|i: int|
            0 <= i < self.root_children.len() ==> (#[trigger] self.root_children[i])
                < self.nodes.len()
        &&& forall|n: int, i: int|
            0 <= n < self.nodes.len() && 0 <= i < self.nodes[n].children.len() ==> n < (
            #[trigger] self.nodes[n].children[i]) < self.nodes.len()
    }

    /// The tree with `added` appended as the children of node `index`, in their order.
    pub open spec fn with_children(self, index: int, added: Seq<NodeView>) -> TreeView {
        TreeView {
            nodes: (self.nodes + added).update(
                index,
                NodeView {
                    children: index_run(self.nodes.len() as int, added.len()),
                    children_loaded: true,
                    ..self.nodes[index]
                },
            ),
            ..self
        }
    }

    /// The tree with a failure message as the only child of node `index`.
    pub open spec fn with_failure(
        self,
        index: int,
        message: Seq<char>,
        language: Language,
    ) -> TreeView {
        self.with_children(
            index,
            seq![
                model::message_view(
                    Phrase::ListingFailed.say(language),
                    message,
                    Phrase::Status.say(language),
                ),
            ],
        )
    }

    /// The tree with the listing of node `index` filled in.
    pub open spec fn with_listing(
        self,
        index: int,
        style: NoteStyle,
        storage_id: u32,
        objects: Seq<ObjectView>,
        language: Language,
    ) -> TreeView {
        self.with_children(
            index,
            objects.map_values(|o: ObjectView| object_view(style, storage_id, o, language)),
        )
    }

    /// What has to be listed on the device to fill in node `index`: a storage and, within
    /// it, a folder. `None` where there is nothing to list: the node does not exist, is
    /// filled in already, or is no container.
    pub open spec fn listing_request(self, index: int) -> Option<(u32, Option<u32>)> {
        if !(0 <= index < self.nodes.len()) || self.nodes[index].children_loaded {
            None
        } else {
            match self.nodes[index].source {
                NodeSource::Storage { storage_id } => Some((storage_id, None)),
                NodeSource::Object { storage_id, handle, is_folder: true } => Some(
                    (storage_id, Some(handle)),
                ),
                _ => None,
            }
        }
    }

    /// The children of node `item`, or the top-level nodes.
    pub open spec fn children_of(self, item: Option<usize>) -> Seq<usize> {
        match item {
            Some(index) => self.nodes[index as int].children,
            None => self.root_children,
        }
    }

    /// Whether `index` is a file of the device.
    pub open spec fn is_file_at(self, index: int) -> bool {
        0 <= index < self.nodes.len() && self.nodes[index].is_file()
    }

    /// Whether `index` is a folder of the device.
    pub open spec fn is_folder_at(self, index: int) -> bool {
        0 <= index < self.nodes.len() && self.nodes[index].is_folder()
    }
}

proof fn lemma_push_node(before: Vec<BrowserNode>, after: Vec<BrowserNode>, node: BrowserNode)
    requires
        after@ == before@.push(node),
    ensures
        after.deep_view() == before.deep_view().push(node@),
{
    assert(after.deep_view() =~= before.deep_view().push(node@));
}

proof fn lemma_map_one_more<A, B>(s: Seq<A>, f: spec_fn(A) -> B, i: int)
    requires
        0 <= i < s.len(),
    ensures
        s.take(i + 1).map_values(f) == s.take(i).map_values(f).push(f(s[i])),
{
    assert(s.take(i + 1).map_values(f) =~= s.take(i).map_values(f).push(f(s[i])));
}

proof fn lemma_added_children(tree: TreeView, index: int, added: Seq<NodeView>)
    requires
        tree.well_formed(),
        0 <= index < tree.nodes.len(),
        tree.nodes.len() + added.len() <= usize::MAX,
        forall|i: int| 0 <= i < added.len() ==> (#[trigger] added[i]).children.len() == 0,
    ensures
        ({
            let after = tree.with_children(index, added);
            &&& forall|n: int, i: int|
                0 <= n < after.nodes.len() && 0 <= i < after.nodes[n].children.len() ==> if n
                    == index {
                    (#[trigger] after.nodes[n].children[i]) == tree.nodes.len() + i
                } else {
                    n < tree.nodes.len() && i < tree.nodes[n].children.len()
                        && after.nodes[n].children[i] == tree.nodes[n].children[i]
                        && after.nodes[n].children[i] < tree.nodes.len()
                }
        }),
{
    let after = tree.with_children(index, added);
    assert forall|n: int, i: int|
        0 <= n < after.nodes.len() && 0 <= i < after.nodes[n].children.len() implies if n == index {
        (#[trigger] after.nodes[n].children[i]) == tree.nodes.len() + i
    } else {
        n < tree.nodes.len() && i < tree.nodes[n].children.len() && after.nodes[n].children[i]
            == tree.nodes[n].children[i] && after.nodes[n].children[i] < tree.nodes.len()
    } by {
        if n != index {
            if n < tree.nodes.len() {
                assert(after.nodes[n] == tree.nodes[n]);
            } else {
                assert(after.nodes[n] == added[n - tree.nodes.len()]);
            }
        }
    }
}

/// Filling in a node keeps the tree well formed, and leaves every other node and the top
/// level as they were.
pub proof fn law_filling_keeps_tree(tree: TreeView, index: int, added: Seq<NodeView>)
    requires
        tree.well_formed(),
        0 <= index < tree.nodes.len(),
        tree.nodes.len() + added.len() <= usize::MAX,
        forall|i: int| 0 <= i < added.len() ==> (#[trigger] added[i]).children.len() == 0,
    ensures
        tree.with_children(index, added).well_formed(),
        tree.with_children(index, added).root_children == tree.root_children,
        forall|i: int|
            0 <= i < tree.nodes.len() && i != index ==> #[trigger] tree.with_children(
                index,
                added,
            ).nodes[i] == tree.nodes[i],
        tree.with_children(index, added).listing_request(index) is None,
{
    let after = tree.with_children(index, added);
    lemma_added_children(tree, index, added);
    assert forall|n: int, i: int|
        0 <= n < after.nodes.len() && 0 <= i < after.nodes[n].children.len() implies n < (
    #[trigger] after.nodes[n].children[i]) < after.nodes.len() by {
        if n == index {
            assert(after.nodes[n].children[i] == tree.nodes.len() + i);
        } else if n < tree.nodes.len() {
            assert(after.nodes[n] == tree.nodes[n]);
        } else {
            assert(after.nodes[n] == added[n - tree.nodes.len()]);
        }
    }
}

fn note_of(style: NoteStyle, storage_id: u32, handle: u32, language: Language) -> (r: String)
    ensures
        r@ == object_note(style, storage_id, handle, language),
{
    match style {
        NoteStyle::Usage => Phrase::ObjectUsage.text(language).to_string(),
        NoteStyle::Identifiers => {
            let mut r = "Handle: ".to_string();
            r.append(decimal_of(handle as u64).as_str());
            r.append("\nStorage: ");
            r.append(decimal_of(storage_id as u64).as_str());
            r.append(Phrase::QuickLookTail.text(language));
            r
        },
    }
}

/// Makes the node of a listed object.
pub fn object_node(
    style: NoteStyle,
    storage_id: u32,
    object: &ObjectInfo,
    language: Language,
) -> (r: BrowserNode)
    ensures
        r@ == object_view(style, storage_id, object.deep_view(), language),
{
    let is_folder: bool = object.is_folder();
    BrowserNode {
        name: object.filename.clone(),
        kind: if is_folder {
            Phrase::Folder.text(language).to_string()
        } else {
            Phrase::File.text(language).to_string()
        },
        size: if is_folder {
            "--".to_string()
        } else {
            format_bytes(object.size)
        },
        created: object.created,
        modified: object.modified,
        note: note_of(style, storage_id, object.handle, language),
        source: NodeSource::Object { storage_id, handle: object.handle, is_folder },
        children: Vec::new(),
        children_loaded: false,
        can_expand: is_folder,
        cached_path: None,
    }
}

fn storage_node(storage: &StorageInfo, language: Language) -> (r: BrowserNode)
    ensures
        r@ == storage_view(storage.deep_view(), language),
{
    let mut note = "Storage ID: ".to_string();
    note.append(decimal_of(storage.storage_id as u64).as_str());
    note.append(Phrase::FreeSpaceLead.text(language));
    note.append(format_bytes(storage.free_space_bytes).as_str());
    BrowserNode {
        name: storage.description.clone(),
        kind: Phrase::Storage.text(language).to_string(),
        size: format_bytes(storage.free_space_bytes),
        created: None,
        modified: None,
        note,
        source: NodeSource::Storage { storage_id: storage.storage_id },
        children: Vec::new(),
        children_loaded: false,
        can_expand: true,
        cached_path: None,
    }
}

/// The tree of a device's storages.
pub fn storage_nodes(storages: &Vec<StorageInfo>, language: Language) -> (r: NodeTree)
    ensures
        r@ == TreeView::of_storages(storages.deep_view(), language),
        r@.well_formed(),
{
    let mut nodes: Vec<BrowserNode> = Vec::new();
    let mut root_children: Vec<usize> = Vec::new();
    let ghost views = storages.deep_view();
    let ghost make = |s: StorageView| storage_view(s, language);
    assert(nodes.deep_view() =~= views.take(0).map_values(make));
    for i in 0..storages.len()
        invariant
            nodes@.len() == i,
            views == storages.deep_view(),
            make == (|s: StorageView| storage_view(s, language)),
            nodes.deep_view() == views.take(i as int).map_values(make),
            root_children@ == index_run(0, i as nat),
    {
        let index: usize = nodes.len();
        root_children.push(index);
        let node = storage_node(&storages[i], language);
        let ghost before = nodes;
        nodes.push(node);
        proof {
            lemma_push_node(before, nodes, node);
            lemma_map_one_more(views, make, i as int);
        }
        assert(root_children@ =~= index_run(0, (i + 1) as nat));
    }
    assert(storages.deep_view().take(storages@.len() as int) =~= storages.deep_view());
    if root_children.len() == 0 {
        return NodeTree::of_message(
            Phrase::NoStorages.text(language),
            Phrase::NoStoragesHint.text(language),
            language,
        );
    }
    NodeTree { nodes, root_children }
}

impl NodeTree {
    /// A tree without nodes.
    pub fn new() -> (r: NodeTree)
        ensures
            r@ == TreeView::empty(),
            r@.well_formed(),
    {
        let r = NodeTree { nodes: Vec::new(), root_children: Vec::new() };
        assert(r@ =~= TreeView::empty());
        r
    }

    /// A tree whose only node shows a message.
    pub fn of_message(title: &str, detail: &str, language: Language) -> (r: NodeTree)
        ensures
            r@ == TreeView::of_message(title@, detail@, language),
            r@.well_formed(),
    {
        let mut nodes: Vec<BrowserNode> = Vec::new();
        nodes.push(message_node(title, detail, Phrase::Status.text(language)));
        let mut root_children: Vec<usize> = Vec::new();
        root_children.push(0);
        let r = NodeTree { nodes, root_children };
        assert(r@ =~= TreeView::of_message(title@, detail@, language));
        r
    }

    /// What has to be listed to fill in node `index`: see [`TreeView::listing_request`].
    pub fn listing_request(&self, index: usize) -> (r: Option<(u32, Option<u32>)>)
        ensures
            r == self@.listing_request(index as int),
    {
        if index >= self.nodes.len() {
            return None;
        }
        let node = &self.nodes[index];
        assert(self@.nodes[index as int] == node@);
        if node.children_loaded {
            return None;
        }
        match node.source {
            NodeSource::Storage { storage_id } => Some((storage_id, None)),
            NodeSource::Object { storage_id, handle, is_folder } => {
                if is_folder {
                    Some((storage_id, Some(handle)))
                } else {
                    None
                }
            },
            NodeSource::Message => None,
        }
    }

    fn adopt(&mut self, index: usize, children: Vec<usize>)
        requires
            index < old(self).nodes@.len(),
        ensures
            final(self)@ == (TreeView {
                nodes: old(self)@.nodes.update(
                    index as int,
                    NodeView {
                        children: children@,
                        children_loaded: true,
                        ..old(self)@.nodes[index as int]
                    },
                ),
                ..old(self)@
            }),
    {
        self.nodes[index].children = children;
        self.nodes[index].children_loaded = true;
        assert(self@.nodes =~= old(self)@.nodes.update(
            index as int,
            NodeView {
                children: children@,
                children_loaded: true,
                ..old(self)@.nodes[index as int]
            },
        ));
    }

    /// Fills in node `index` with the objects the device listed, in their order.
    pub fn fill(
        &mut self,
        index: usize,
        style: NoteStyle,
        storage_id: u32,
        objects: &Vec<ObjectInfo>,
        language: Language,
    )
        requires
            index < old(self)@.nodes.len(),
        ensures
            final(self)@ == old(self)@.with_listing(
                index as int,
                style,
                storage_id,
                objects.deep_view(),
                language,
            ),
            old(self)@.well_formed() ==> final(self)@.well_formed(),
    {
        let mut children: Vec<usize> = Vec::new();
        let ghost before = self@;
        let ghost views = objects.deep_view();
        let ghost make = |o: ObjectView| object_view(style, storage_id, o, language);
        assert(self@.nodes =~= before.nodes + views.take(0).map_values(make));
        for i in 0..objects.len()
            invariant
                index < before.nodes.len(),
                views == objects.deep_view(),
                make == (|o: ObjectView| object_view(style, storage_id, o, language)),
                self@ == (TreeView {
                    nodes: before.nodes + views.take(i as int).map_values(make),
                    ..before
                }),
                children@ == index_run(before.nodes.len() as int, i as nat),
        {
            let child: usize = self.nodes.len();
            children.push(child);
            let node = object_node(style, storage_id, &objects[i], language);
            let ghost nodes = self.nodes;
            self.nodes.push(node);
            proof {
                lemma_push_node(nodes, self.nodes, node);
                lemma_map_one_more(views, make, i as int);
            }
            assert(self@.nodes =~= before.nodes + views.take(i + 1).map_values(make));
            assert(children@ =~= index_run(before.nodes.len() as int, (i + 1) as nat));
        }
        assert(views.take(views.len() as int) =~= views);
        let count: usize = self.nodes.len();
        assert(count == self@.nodes.len());
        self.adopt(index, children);
        assert(self@ =~= before.with_listing(index as int, style, storage_id, views, language));
        proof {
            if before.well_formed() {
                law_filling_keeps_tree(before, index as int, views.map_values(make));
            }
        }
    }

    /// Fills in node `index` with a failure message.
    pub fn fill_failure(&mut self, index: usize, message: &str, language: Language)
        requires
            index < old(self)@.nodes.len(),
        ensures
            final(self)@ == old(self)@.with_failure(index as int, message@, language),
            old(self)@.well_formed() ==> final(self)@.well_formed(),
    {
        let ghost before = self@;
        let child: usize = self.nodes.len();
        self.nodes.push(
            message_node(
                Phrase::ListingFailed.text(language),
                message,
                Phrase::Status.text(language),
            ),
        );
        let mut children: Vec<usize> = Vec::new();
        children.push(child);
        assert(children@ =~= index_run(before.nodes.len() as int, 1));
        assert(self@.nodes =~= before.nodes + seq![
            model::message_view(
                Phrase::ListingFailed.say(language),
                message@,
                Phrase::Status.say(language),
            ),
        ]);
        self.adopt(index, children);
        assert(self@ =~= before.with_failure(index as int, message@, language));
    }

    /// How many rows stand below `item`, or at the top level.
    pub fn outline_number_of_children(&self, item: Option<usize>) -> (r: usize)
        requires
            item matches Some(index) ==> index < self@.nodes.len(),
        ensures
            r == self@.children_of(item).len(),
    {
        match item {
            Some(index) => self.nodes[index].children.len(),
            None => self.root_children.len(),
        }
    }

    /// The node at position `index` below `item`, or at the top level.
    pub fn outline_child(&self, index: usize, item: Option<usize>) -> (r: usize)
        requires
            item matches Some(parent) ==> parent < self@.nodes.len(),
            index < self@.children_of(item).len(),
        ensures
            r == self@.children_of(item)[index as int],
            self@.well_formed() ==> r < self@.nodes.len(),
    {
        match item {
            Some(parent) => self.nodes[parent].children[index],
            None => self.root_children[index],
        }
    }

    /// Whether the row of `item` can be opened.
    pub fn outline_is_expandable(&self, item: Option<usize>) -> (r: bool)
        ensures
            r == (item matches Some(index) && index < self@.nodes.len()
                && self@.nodes[index as int].can_expand),
    {
        match item {
            Some(index) => index < self.nodes.len() && self.nodes[index].can_expand,
            None => false,
        }
    }

    /// Whether node `index` is a file.
    pub fn is_file_at(&self, index: usize) -> (r: bool)
        ensures
            r == self@.is_file_at(index as int),
    {
        index < self.nodes.len() && self.nodes[index].is_file()
    }

    /// Whether node `index` can be dragged out: files and folders can.
    pub fn is_drag_copyable(&self, index: usize) -> (r: bool)
        ensures
            r == (self@.is_file_at(index as int) || self@.is_folder_at(index as int)),
    {
        index < self.nodes.len() && (self.nodes[index].is_file() || self.nodes[index].is_folder())
    }

    /// The selected file, if the selection is one.
    pub fn selected_file(&self, selected: Option<usize>) -> (r: Option<usize>)
        ensures
            r == (if selected is Some && self@.is_file_at(selected->0 as int) {
                selected
            } else {
                None::<usize>
            }),
    {
        match selected {
            Some(index) => if self.is_file_at(index) {
                Some(index)
            } else {
                None
            },
            None => None,
        }
    }
}

/// The text of a node in a column of the outline; the two dates come as text.
pub open spec fn cell_view(
    node: NodeView,
    column: Seq<char>,
    created: Seq<char>,
    modified: Seq<char>,
) -> Seq<char> {
    if column == "kind"@ {
        node.kind
    } else if column == "size"@ {
        node.size
    } else if column == "created"@ {
        created
    } else if column == "modified"@ {
        modified
    } else {
        node.name
    }
}

/// The text of a node in a column of the outline: see [`cell_view`].
pub fn cell_text(node: &BrowserNode, column: &str, created: &str, modified: &str) -> (r: String)
    ensures
        r@ == cell_view(node@, column@, created@, modified@),
{
    if same_text(column, "kind") {
        node.kind.clone()
    } else if same_text(column, "size") {
        node.size.clone()
    } else if same_text(column, "created") {
        created.to_string()
    } else if same_text(column, "modified") {
        modified.to_string()
    } else {
        node.name.clone()
    }
}

/// The storages of a device stand at the top of the browser, each of them, in the device's
/// order, under its own name and with its free space. Each can be opened, which asks for the
/// top of that very storage.
pub proof fn law_storages_stand_at_the_top(storages: Seq<StorageView>, language: Language, i: int)
    requires
        0 <= i < storages.len() <= usize::MAX,
    ensures
        ({
            let tree = TreeView::of_storages(storages, language);
            let node = tree.nodes[i];
            &&& tree.nodes.len() == storages.len()
            &&& tree.root_children.len() == storages.len()
            &&& tree.root_children[i] == i
            &&& node.name == storages[i].description
            &&& node.source == (NodeSource::Storage { storage_id: storages[i].storage_id })
            &&& node.kind == Phrase::Storage.say(language)
            &&& node.size == util::bytes_text(storages[i].free_space_bytes as nat)
            &&& node.created is None && node.modified is None
            &&& node.can_expand
            &&& node.children.len() == 0
            &&& node.cached_path is None
            &&& tree.listing_request(i) == Some((storages[i].storage_id, None::<u32>))
        }),
{
}

/// The note of a storage tells its number and its free space.
pub proof fn law_storage_notes_tell_number_and_space(storage: StorageView, language: Language)
    ensures
        ({
            let note = storage_view(storage, language).note;
            let head = "Storage ID: "@ + text::decimal(storage.storage_id as nat);
            let tail = util::bytes_text(storage.free_space_bytes as nat);
            &&& head.is_prefix_of(note)
            &&& note == head + Phrase::FreeSpaceLead.say(language) + tail
        }),
{
    let note = storage_view(storage, language).note;
    let head = "Storage ID: "@ + text::decimal(storage.storage_id as nat);
    assert(head =~= note.subrange(0, head.len() as int));
}

/// A device without storages shows one line that says so, and nothing that can be opened.
pub proof fn law_no_storages_are_told(language: Language)
    ensures
        ({
            let tree = TreeView::of_storages(Seq::empty(), language);
            &&& tree.nodes.len() == 1
            &&& tree.root_children == seq![0usize]
            &&& tree.nodes[0].name == Phrase::NoStorages.say(language)
            &&& tree.nodes[0].note == Phrase::NoStoragesHint.say(language)
            &&& tree.nodes[0].source is Message
            &&& !tree.nodes[0].can_expand
            &&& tree.listing_request(0) is None
        }),
{
}

/// A browser that shows a message shows that one line.
pub proof fn law_messages_fill_the_browser(
    title: Seq<char>,
    detail: Seq<char>,
    language: Language,
)
    ensures
        ({
            let tree = TreeView::of_message(title, detail, language);
            &&& tree.nodes.len() == 1
            &&& tree.root_children == seq![0usize]
            &&& tree.nodes[0].name == title
            &&& tree.nodes[0].note == detail
            &&& tree.nodes[0].kind == Phrase::Status.say(language)
            &&& tree.nodes[0].source is Message
        }),
{
}

/// A listed node has the listed objects as its children: all of them, in the device's order,
/// as nodes of their own behind all others. Each child carries what the device says of its
/// object: name, kind, size and both dates. A folder among them can be opened, which asks for
/// that very folder; a file cannot.
pub proof fn law_children_carry_their_object(
    tree: TreeView,
    index: int,
    style: NoteStyle,
    storage_id: u32,
    objects: Seq<ObjectView>,
    language: Language,
    i: int,
)
    requires
        0 <= index < tree.nodes.len(),
        0 <= i < objects.len(),
        tree.nodes.len() + objects.len() <= usize::MAX,
    ensures
        ({
            let after = tree.with_listing(index, style, storage_id, objects, language);
            let children = after.children_of(Some(index as usize));
            let child = after.nodes[children[i] as int];
            let object = objects[i];
            &&& after.nodes.len() == tree.nodes.len() + objects.len()
            &&& children.len() == objects.len()
            &&& children[i] == tree.nodes.len() + i
            &&& child.name == object.filename
            &&& child.kind == if object.is_folder {
                Phrase::Folder.say(language)
            } else {
                Phrase::File.say(language)
            }
            &&& object.is_folder ==> child.size == "--"@
            &&& !object.is_folder ==> child.size == util::bytes_text(object.size as nat)
            &&& child.created == object.created
            &&& child.modified == object.modified
            &&& child.source == (NodeSource::Object {
                storage_id,
                handle: object.handle,
                is_folder: object.is_folder,
            })
            &&& child.can_expand == object.is_folder
            &&& child.children.len() == 0
            &&& child.cached_path is None
            &&& after.listing_request(children[i] as int) == if object.is_folder {
                Some((storage_id, Some(object.handle)))
            } else {
                None
            }
        }),
{
}

/// Listing a node changes its children and nothing else: it keeps what it shows, and every
/// other node and the top level stay as they were.
pub proof fn law_listing_adds_children_only(
    tree: TreeView,
    index: int,
    style: NoteStyle,
    storage_id: u32,
    objects: Seq<ObjectView>,
    language: Language,
    other: int,
)
    requires
        0 <= index < tree.nodes.len(),
        0 <= other < tree.nodes.len(),
    ensures
        ({
            let after = tree.with_listing(index, style, storage_id, objects, language);
            let node = tree.nodes[index];
            &&& after.root_children == tree.root_children
            &&& other != index ==> after.nodes[other] == tree.nodes[other]
            &&& after.nodes[index].name == node.name
            &&& after.nodes[index].kind == node.kind
            &&& after.nodes[index].size == node.size
            &&& after.nodes[index].note == node.note
            &&& after.nodes[index].created == node.created
            &&& after.nodes[index].modified == node.modified
            &&& after.nodes[index].source == node.source
            &&& after.nodes[index].can_expand == node.can_expand
            &&& after.nodes[index].cached_path == node.cached_path
            &&& after.nodes[index].children_loaded
        }),
{
}

/// A listing that failed leaves one line below the node, which tells why; everything else
/// stays as it was.
pub proof fn law_failures_are_told_below_the_node(
    tree: TreeView,
    index: int,
    message: Seq<char>,
    language: Language,
    other: int,
)
    requires
        0 <= index < tree.nodes.len(),
        0 <= other < tree.nodes.len(),
        tree.nodes.len() < usize::MAX,
    ensures
        ({
            let after = tree.with_failure(index, message, language);
            let children = after.children_of(Some(index as usize));
            let child = after.nodes[children[0] as int];
            &&& children.len() == 1
            &&& children[0] == tree.nodes.len()
            &&& after.nodes.len() == tree.nodes.len() + 1
            &&& child.name == Phrase::ListingFailed.say(language)
            &&& child.note == message
            &&& child.source is Message
            &&& !child.can_expand
            &&& after.root_children == tree.root_children
            &&& other != index ==> after.nodes[other] == tree.nodes[other]
            &&& after.nodes[index].name == tree.nodes[index].name
            &&& after.nodes[index].source == tree.nodes[index].source
            &&& after.nodes[index].cached_path == tree.nodes[index].cached_path
        }),
{
}

/// A storage that was not opened yet has to be listed from its top, and a folder of the
/// device by its own handle, wherever it stands. Nothing else has to be listed.
pub proof fn law_containers_are_listed_by_what_they_are(
    tree: TreeView,
    index: int,
    storage_id: u32,
    handle: u32,
)
    requires
        0 <= index < tree.nodes.len(),
        !tree.nodes[index].children_loaded,
    ensures
        tree.nodes[index].source == (NodeSource::Storage { storage_id })
            ==> tree.listing_request(index) == Some((storage_id, None::<u32>)),
        tree.nodes[index].source == (NodeSource::Object { storage_id, handle, is_folder: true })
            ==> tree.listing_request(index) == Some((storage_id, Some(handle))),
        tree.nodes[index].source == (NodeSource::Object { storage_id, handle, is_folder: false })
            ==> tree.listing_request(index) is None,
        tree.nodes[index].source is Message ==> tree.listing_request(index) is None,
{
}

/// The notes of listed objects say how to use them, or tell the numbers that the device knows
/// them by.
pub proof fn law_notes_tell_use_or_numbers(storage_id: u32, object: ObjectView, language: Language)
    ensures
        object_view(NoteStyle::Usage, storage_id, object, language).note
            == Phrase::ObjectUsage.say(language),
        ("Handle: "@ + text::decimal(object.handle as nat) + "\nStorage: "@ + text::decimal(
            storage_id as nat,
        )).is_prefix_of(object_view(NoteStyle::Identifiers, storage_id, object, language).note),
{
    let head = "Handle: "@ + text::decimal(object.handle as nat) + "\nStorage: "@ + text::decimal(
        storage_id as nat,
    );
    let note = object_view(NoteStyle::Identifiers, storage_id, object, language).note;
    assert(head =~= note.subrange(0, head.len() as int));
}

/// Every column of the outline shows its own part of a node, and any column of another name
/// the node's name.
pub proof fn law_columns_show_their_part(
    node: NodeView,
    column: Seq<char>,
    created: Seq<char>,
    modified: Seq<char>,
)
    ensures
        cell_view(node, "kind"@, created, modified) == node.kind,
        cell_view(node, "size"@, created, modified) == node.size,
        cell_view(node, "created"@, created, modified) == created,
        cell_view(node, "modified"@, created, modified) == modified,
        column != "kind"@ && column != "size"@ && column != "created"@ && column != "modified"@
            ==> cell_view(node, column, created, modified) == node.name,
        cell_view(node, "name"@, created, modified) == node.name,
{
    reveal_strlit("name");
    reveal_strlit("kind");
    reveal_strlit("size");
    reveal_strlit("created");
    reveal_strlit("modified");
    assert("name"@[0] == 'n' && "kind"@[0] == 'k' && "size"@[0] == 's');
    assert("created"@[0] == 'c' && "modified"@[0] == 'm');
}

/// Listing a node, with success or not, changes its children and nothing else of it.
pub proof fn law_listed_nodes_stay_themselves(
    tree: TreeView,
    index: int,
    style: NoteStyle,
    storage_id: u32,
    objects: Seq<ObjectView>,
    message: Seq<char>,
    language: Language,
)
    requires
        0 <= index < tree.nodes.len(),
        tree.nodes.len() < usize::MAX,
    ensures
        ({
            let listed = tree.with_listing(index, style, storage_id, objects, language);
            let failed = tree.with_failure(index, message, language);
            let line = failed.nodes[tree.nodes.len() as int];
            &&& listed.nodes[index] == (NodeView {
                children: listed.nodes[index].children,
                children_loaded: true,
                ..tree.nodes[index]
            })
            &&& failed.nodes[index] == (NodeView {
                children: seq![tree.nodes.len() as usize],
                children_loaded: true,
                ..tree.nodes[index]
            })
            &&& listed.listing_request(index) is None
            &&& failed.listing_request(index) is None
            &&& line.kind == Phrase::Status.say(language)
            &&& line.children.len() == 0
        }),
{
    let failed = tree.with_failure(index, message, language);
    assert(failed.nodes[index].children =~= seq![tree.nodes.len() as usize]);
}

/// The note of a listed object says how to use it, or tells the two numbers that the device
/// knows it by and how to preview it.
pub proof fn law_children_carry_their_note(
    tree: TreeView,
    index: int,
    storage_id: u32,
    objects: Seq<ObjectView>,
    language: Language,
    i: int,
)
    requires
        0 <= index < tree.nodes.len(),
        0 <= i < objects.len(),
    ensures
        ({
            let n = tree.nodes.len() as int;
            let usage = tree.with_listing(index, NoteStyle::Usage, storage_id, objects, language);
            let numbers = tree.with_listing(
                index,
                NoteStyle::Identifiers,
                storage_id,
                objects,
                language,
            );
            &&& usage.nodes[n + i].note == Phrase::ObjectUsage.say(language)
            &&& numbers.nodes[n + i].note == "Handle: "@ + text::decimal(objects[i].handle as nat)
                + "\nStorage: "@ + text::decimal(storage_id as nat) + Phrase::QuickLookTail.say(
                language,
            )
            &&& numbers.nodes[n + i] == (NodeView {
                note: numbers.nodes[n + i].note,
                ..usage.nodes[n + i]
            })
        }),
{
}

/// What is listed already, or not there, has not to be listed.
pub proof fn law_known_listings_are_not_asked_for(tree: TreeView, index: int)
    ensures
        index < 0 || index >= tree.nodes.len() ==> tree.listing_request(index) is None,
        0 <= index < tree.nodes.len() && tree.nodes[index].children_loaded
            ==> tree.listing_request(index) is None,
{
}

/// Below a node stand its own children, and at the top the top-level nodes. A node is a file
/// or a folder exactly where it stands for one of the device's objects of that sort.
pub proof fn law_rows_stand_where_they_belong(tree: TreeView, index: usize)
    ensures
        tree.children_of(None) == tree.root_children,
        index < tree.nodes.len() ==> tree.children_of(Some(index)) == tree.nodes[
            index as int
        ].children,
        tree.is_file_at(index as int) <==> index < tree.nodes.len() && (
        tree.nodes[index as int].source matches NodeSource::Object { is_folder: false, .. }),
        tree.is_folder_at(index as int) <==> index < tree.nodes.len() && (
        tree.nodes[index as int].source matches NodeSource::Object { is_folder: true, .. }),
        TreeView::empty().nodes.len() == 0,
        TreeView::empty().root_children.len() == 0,
{
}

/// What the contracts say of a tree is what its fields hold.
pub proof fn law_trees_show_their_fields(tree: NodeTree, i: int)
    ensures
        tree@.nodes.len() == tree.nodes@.len(),
        0 <= i < tree.nodes@.len() ==> tree@.nodes[i] == tree.nodes@[i]@,
        tree@.root_children == tree.root_children@,
{
}

} // verus!
