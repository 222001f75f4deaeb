//! Dragging nodes out of the browser.
use crate::action::{Action, ActionView};
use crate::model::NodeSource;
use crate::phrases::{Language, Phrase};
use crate::text;
use crate::text::{chars_of, decimal_of, has_prefix, parse_index, string_of};
use crate::tree::{NodeTree, TreeView};
use crate::util;
use crate::util::sanitize_filename;
use vstd::prelude::*;

verus! {

/// The text that a dragged node carries.
pub open spec fn marker_view(index: usize) -> Seq<char> {
    "macmtp-node:"@ + text::decimal(index as nat)
}

/// The node that a dragged text stands for.
pub open spec fn marked_index(marker: Seq<char>) -> Option<usize> {
    if "macmtp-node:"@.is_prefix_of(marker) {
        text::parsed_index(marker.skip("macmtp-node:"@.len() as int))
    } else {
        None
    }
}

/// The text that a dragged node carries.
pub fn drag_marker(index: usize) -> (r: String)
    ensures
        r@ == marker_view(index),
{
    let mut r = "macmtp-node:".to_string();
    r.append(decimal_of(index as u64).as_str());
    r
}

/// The node that a dragged text stands for: see [`marked_index`].
pub fn file_promise_index(marker: &str) -> (r: Option<usize>)
    ensures
        r == marked_index(marker@),
{
    if !has_prefix(marker, "macmtp-node:") {
        return None;
    }
    proof {
        reveal_strlit("macmtp-node:");
    }
    let chars = chars_of(marker);
    let rest = string_of(&chars, 12, chars.len());
    assert(rest@ =~= marker@.skip(12));
    parse_index(rest.as_str())
}

/// The text that a dragged node carries leads back to the node.
pub proof fn law_markers_lead_back(index: usize)
    ensures
        marked_index(marker_view(index)) == Some(index),
{
    let prefix = "macmtp-node:"@;
    let marker = marker_view(index);
    assert(prefix =~= marker.subrange(0, prefix.len() as int));
    assert(marker.skip(prefix.len() as int) =~= text::decimal(index as nat));
    text::law_parse_reads_decimal(index);
}

/// Something that is dragged.
#[derive(Clone, Debug, PartialEq, Eq)]
pub enum DragItem {
    /// A node of the browser.
    Node { index: usize },
    /// A piece of text.
    Text { text: String },
    /// Anything else.
    Other,
}

/// What a dragged thing is.
#[verifier::ext_equal]
pub enum DragItemView {
    Node { index: usize },
    Text { text: Seq<char> },
    Other,
}

impl DeepView for DragItem {
    type V = DragItemView;

    open spec fn deep_view(&self) -> DragItemView {
        match *self {
            DragItem::Node { index } => DragItemView::Node { index },
            DragItem::Text { text } => DragItemView::Text { text: text@ },
            DragItem::Other => DragItemView::Other,
        }
    }
}

impl DragItemView {
    /// The node that is dragged.
    pub open spec fn node(self) -> Option<usize> {
        match self {
            DragItemView::Node { index } => Some(index),
            DragItemView::Text { text } => marked_index(text),
            DragItemView::Other => None,
        }
    }
}

/// The node that is dragged: see [`DragItemView::node`].
pub fn drag_item_index(item: &DragItem) -> (r: Option<usize>)
    ensures
        r == item.deep_view().node(),
{
    match item {
        DragItem::Node { index } => Some(*index),
        DragItem::Text { text } => file_promise_index(text.as_str()),
        DragItem::Other => None,
    }
}

/// The nodes among the dragged things, in order.
pub open spec fn dragged_nodes(items: Seq<DragItemView>) -> Seq<usize>
    decreases items.len(),
{
    if items.len() == 0 {
        Seq::empty()
    } else {
        let before = dragged_nodes(items.drop_last());
        match items.last().node() {
            Some(index) => before.push(index),
            None => before,
        }
    }
}

/// The nodes among the dragged things, in order: see [`dragged_nodes`].
pub fn node_indexes_from_items(items: &Vec<DragItem>) -> (r: Vec<usize>)
    ensures
        r@ == dragged_nodes(items.deep_view()),
{
    let mut indexes: Vec<usize> = Vec::new();
    let ghost views = items.deep_view();
    for i in 0..items.len()
        invariant
            views == items.deep_view(),
            indexes@ == dragged_nodes(views.take(i as int)),
    {
        let ghost before = views.take(i as int);
        let ghost upto = views.take(i + 1);
        assert(upto.drop_last() =~= before);
        assert(upto.last() == items@[i as int].deep_view());
        if let Some(index) = drag_item_index(&items[i]) {
            indexes.push(index);
        }
    }
    assert(views.take(items@.len() as int) =~= views);
    indexes
}

/// A file promised to the place that the drag ends at.
#[derive(Clone, Debug, PartialEq, Eq)]
pub struct FilePromise {
    /// The type of the file.
    pub file_type: String,
    /// The text that leads back to the node.
    pub marker: String,
}

/// What a promised file holds.
#[verifier::ext_equal]
pub struct PromiseView {
    pub file_type: Seq<char>,
    pub marker: Seq<char>,
}

impl DeepView for FilePromise {
    type V = PromiseView;

    open spec fn deep_view(&self) -> PromiseView {
        PromiseView { file_type: self.file_type@, marker: self.marker@ }
    }
}

/// The promise for a node: only files and folders can be promised.
pub open spec fn promise_view(tree: TreeView, index: usize) -> Option<PromiseView> {
    if tree.is_folder_at(index as int) {
        Some(PromiseView { file_type: "public.folder"@, marker: marker_view(index) })
    } else if tree.is_file_at(index as int) {
        Some(PromiseView { file_type: "public.data"@, marker: marker_view(index) })
    } else {
        None
    }
}

/// The promise for a node: see [`promise_view`].
pub fn file_promise(tree: &NodeTree, index: usize) -> (r: Option<FilePromise>)
    ensures
        r is Some == promise_view(tree@, index) is Some,
        r is Some ==> Some(r->0.deep_view()) == promise_view(tree@, index),
{
    if index >= tree.nodes.len() {
        return None;
    }
    assert(tree@.nodes[index as int] == tree.nodes@[index as int]@);
    if tree.nodes[index].is_folder() {
        Some(FilePromise { file_type: "public.folder".to_string(), marker: drag_marker(index) })
    } else if tree.nodes[index].is_file() {
        Some(FilePromise { file_type: "public.data".to_string(), marker: drag_marker(index) })
    } else {
        None
    }
}

/// The promises for the nodes that can be promised, in order.
pub open spec fn promise_views(tree: TreeView, indexes: Seq<usize>) -> Seq<PromiseView>
    decreases indexes.len(),
{
    if indexes.len() == 0 {
        Seq::empty()
    } else {
        let before = promise_views(tree, indexes.drop_last());
        match promise_view(tree, indexes.last()) {
            Some(promise) => before.push(promise),
            None => before,
        }
    }
}

/// The promises for the dragged things, in order. Where there are none, nothing is dragged.
pub fn drag_promises(tree: &NodeTree, items: &Vec<DragItem>) -> (r: Vec<FilePromise>)
    ensures
        r.deep_view() == promise_views(tree@, dragged_nodes(items.deep_view())),
{
    let indexes = node_indexes_from_items(items);
    let mut promises: Vec<FilePromise> = Vec::new();
    assert(promises.deep_view() =~= Seq::empty());
    for i in 0..indexes.len()
        invariant
            promises.deep_view() == promise_views(tree@, indexes@.take(i as int)),
    {
        assert(indexes@.take(i + 1).drop_last() =~= indexes@.take(i as int));
        let ghost before = promises.deep_view();
        if let Some(promise) = file_promise(tree, indexes[i]) {
            promises.push(promise);
            assert(promises.deep_view() =~= before.push(promise.deep_view()));
        }
    }
    assert(indexes@.take(indexes@.len() as int) =~= indexes@);
    promises
}

/// The name that a promised file gets. `marker` is the text that the promise carries.
pub open spec fn promised_name(tree: TreeView, marker: Option<Seq<char>>) -> Seq<char> {
    if marker is Some && marked_index(marker->0) is Some && marked_index(marker->0)->0
        < tree.nodes.len() {
        util::sanitized(tree.nodes[marked_index(marker->0)->0 as int].name)
    } else {
        "MacMTP Item"@
    }
}

/// The name that a promised file gets: see [`promised_name`].
pub fn promise_file_name(tree: &NodeTree, marker: Option<&str>) -> (r: String)
    ensures
        r@ == promised_name(
            tree@,
            match marker {
                Some(marker) => Some(marker@),
                None => None,
            },
        ),
{
    if let Some(marker) = marker {
        if let Some(index) = file_promise_index(marker) {
            if index < tree.nodes.len() {
                assert(tree@.nodes[index as int] == tree.nodes@[index as int]@);
                return sanitize_filename(tree.nodes[index].name.as_str());
            }
        }
    }
    "MacMTP Item".to_string()
}

/// What the user is told when a number of promises is ready.
pub open spec fn promises_ready(count: nat, language: Language) -> ActionView {
    ActionView::SetMessage {
        title: Phrase::DragReady.say(language),
        detail: Phrase::DragReadyLead.say(language) + text::decimal(count)
            + Phrase::DragReadyTail.say(language),
    }
}

/// The drag of a number of things begins: see [`promises_ready`].
pub fn drag_will_begin(count: usize, language: Language) -> (r: Action)
    ensures
        r.deep_view() == promises_ready(count as nat, language),
{
    let mut detail = Phrase::DragReadyLead.text(language).to_string();
    detail.append(decimal_of(count as u64).as_str());
    detail.append(Phrase::DragReadyTail.text(language));
    Action::SetMessage { title: Phrase::DragReady.text(language).to_string(), detail }
}

/// The promises were handed over, or could not be.
pub fn drag_written(count: usize, written: bool, language: Language) -> (r: Action)
    ensures
        r.deep_view() == if written {
            promises_ready(count as nat, language)
        } else {
            ActionView::SetMessage {
                title: Phrase::CopyFailed.say(language),
                detail: Phrase::DragNotWritten.say(language),
            }
        },
{
    if written {
        drag_will_begin(count, language)
    } else {
        Action::SetMessage {
            title: Phrase::CopyFailed.text(language).to_string(),
            detail: Phrase::DragNotWritten.text(language).to_string(),
        }
    }
}

/// The drag has ended; `cancelled` says that nothing took it.
pub fn drag_ended(cancelled: bool, language: Language) -> (r: Option<Action>)
    ensures
        r is Some == cancelled,
        r is Some ==> r->0.deep_view() == (ActionView::SetMessage {
            title: Phrase::DragCancelled.say(language),
            detail: Phrase::DragCancelledHint.say(language),
        }),
{
    if cancelled {
        Some(
            Action::SetMessage {
                title: Phrase::DragCancelled.text(language).to_string(),
                detail: Phrase::DragCancelledHint.text(language).to_string(),
            },
        )
    } else {
        None
    }
}

/// Every promise leads back to a file or folder that was dragged.
pub proof fn law_promises_lead_back(tree: TreeView, indexes: Seq<usize>, i: int)
    requires
        0 <= i < promise_views(tree, indexes).len(),
    ensures
        ({
            let node = marked_index(promise_views(tree, indexes)[i].marker);
            &&& node is Some
            &&& indexes.contains(node->0)
            &&& tree.is_file_at(node->0 as int) || tree.is_folder_at(node->0 as int)
        }),
    decreases indexes.len(),
{
    let shorter = promise_views(tree, indexes.drop_last());
    let last = indexes.last();
    assert(indexes[indexes.len() - 1] == last);
    if i < shorter.len() {
        law_promises_lead_back(tree, indexes.drop_last(), i);
        let node = marked_index(shorter[i].marker)->0;
        let k = choose|k: int| 0 <= k < indexes.drop_last().len() && indexes.drop_last()[k] == node;
        assert(indexes[k] == node);
    } else {
        law_markers_lead_back(last);
    }
}

/// A promise is of a folder or of a file as the node is one, and its text leads back to that
/// very node. Nothing else can be promised.
pub proof fn law_promises_tell_their_node(tree: TreeView, index: usize, storage_id: u32, handle: u32)
    ensures
        ({
            let promise = promise_view(tree, index);
            let source = tree.nodes[index as int].source;
            &&& index >= tree.nodes.len() ==> promise is None
            &&& index < tree.nodes.len() && source == (NodeSource::Object {
                storage_id,
                handle,
                is_folder: true,
            }) ==> promise is Some && promise->0.file_type == "public.folder"@
            &&& index < tree.nodes.len() && source == (NodeSource::Object {
                storage_id,
                handle,
                is_folder: false,
            }) ==> promise is Some && promise->0.file_type == "public.data"@
            &&& source is Storage || source is Message ==> promise is None
            &&& promise is Some ==> marked_index(promise->0.marker) == Some(index)
            &&& promise is Some ==> "macmtp-node:"@.is_prefix_of(promise->0.marker)
        }),
{
    law_markers_lead_back(index);
    let prefix = "macmtp-node:"@;
    let marker = marker_view(index);
    assert(prefix =~= marker.subrange(0, prefix.len() as int));
}

/// Every dragged file and folder is promised. Where only such are dragged, there is one
/// promise for each, in their order.
pub proof fn law_everything_dragged_is_promised(tree: TreeView, indexes: Seq<usize>, k: int)
    requires
        0 <= k < indexes.len(),
        tree.is_file_at(indexes[k] as int) || tree.is_folder_at(indexes[k] as int),
    ensures
        exists|i: int|
            0 <= i < promise_views(tree, indexes).len() && marked_index(
                (#[trigger] promise_views(tree, indexes)[i]).marker,
            ) == Some(indexes[k]),
        promise_views(tree, indexes).len() <= indexes.len(),
        (forall|j: int|
            0 <= j < indexes.len() ==> tree.is_file_at((#[trigger] indexes[j]) as int)
                || tree.is_folder_at(indexes[j] as int)) ==> promise_views(tree, indexes).len()
            == indexes.len() && marked_index(promise_views(tree, indexes)[k].marker) == Some(
            indexes[k],
        ),
    decreases indexes.len(),
{
    let before = indexes.drop_last();
    let promises = promise_views(tree, indexes);
    lemma_promises_of_copyable(tree, before);
    if k < before.len() {
        law_everything_dragged_is_promised(tree, before, k);
        let i = choose|i: int|
            0 <= i < promise_views(tree, before).len() && marked_index(
                (#[trigger] promise_views(tree, before)[i]).marker,
            ) == Some(before[k]);
        assert(promises[i] == promise_views(tree, before)[i]);
    } else {
        law_markers_lead_back(indexes[k]);
        assert(marked_index(promises[promises.len() - 1].marker) == Some(indexes[k]));
    }
    if forall|j: int|
        0 <= j < indexes.len() ==> tree.is_file_at((#[trigger] indexes[j]) as int)
            || tree.is_folder_at(indexes[j] as int) {
        assert forall|j: int| 0 <= j < before.len() implies tree.is_file_at(
            (#[trigger] before[j]) as int,
        ) || tree.is_folder_at(before[j] as int) by {
            assert(before[j] == indexes[j]);
        }
        assert(indexes.last() == indexes[indexes.len() - 1]);
    }
}

proof fn lemma_promises_of_copyable(tree: TreeView, indexes: Seq<usize>)
    ensures
        promise_views(tree, indexes).len() <= indexes.len(),
        (forall|j: int|
            0 <= j < indexes.len() ==> tree.is_file_at((#[trigger] indexes[j]) as int)
                || tree.is_folder_at(indexes[j] as int)) ==> promise_views(tree, indexes).len()
            == indexes.len(),
    decreases indexes.len(),
{
    if indexes.len() > 0 {
        let before = indexes.drop_last();
        lemma_promises_of_copyable(tree, before);
        if forall|j: int|
            0 <= j < indexes.len() ==> tree.is_file_at((#[trigger] indexes[j]) as int)
                || tree.is_folder_at(indexes[j] as int) {
            assert forall|j: int| 0 <= j < before.len() implies tree.is_file_at(
                (#[trigger] before[j]) as int,
            ) || tree.is_folder_at(before[j] as int) by {
                assert(before[j] == indexes[j]);
            }
            assert(indexes.last() == indexes[indexes.len() - 1]);
        }
    }
}

/// The nodes among the dragged things are all of them, in order: a node stands for itself, a
/// text for the node that it was made for, and anything else for none.
pub proof fn law_dragged_nodes_are_all_of_them(
    items: Seq<DragItemView>,
    item: DragItemView,
    index: usize,
)
    ensures
        dragged_nodes(Seq::empty()) == Seq::<usize>::empty(),
        item == (DragItemView::Node { index }) ==> dragged_nodes(items.push(item))
            == dragged_nodes(items).push(index),
        item == (DragItemView::Text { text: marker_view(index) }) ==> dragged_nodes(
            items.push(item),
        ) == dragged_nodes(items).push(index),
        item is Other ==> dragged_nodes(items.push(item)) == dragged_nodes(items),
        item matches DragItemView::Text { text } && !"macmtp-node:"@.is_prefix_of(text)
            ==> dragged_nodes(items.push(item)) == dragged_nodes(items),
{
    law_markers_lead_back(index);
    assert(items.push(item).drop_last() =~= items);
}

/// A promised file gets the name of its node, extension and all, as far as a path can carry
/// it.
pub proof fn law_promised_names_are_the_nodes(tree: TreeView, index: usize)
    requires
        index < tree.nodes.len(),
    ensures
        ({
            let name = tree.nodes[index as int].name;
            let promised = promised_name(tree, Some(marker_view(index)));
            &&& name.len() > 0 && !name.contains('/') && !name.contains('\\') && !name.contains(
                ':',
            ) && !name.contains('\0') ==> promised == name
            &&& name.len() > 0 ==> promised.len() == name.len()
            &&& forall|k: int|
                0 <= k < name.len() && !(name[k] == '/' || name[k] == '\\' || name[k] == ':'
                    || name[k] == '\0') ==> #[trigger] promised[k] == name[k]
            &&& promised.len() > 0
            &&& !promised.contains('/')
        }),
{
    law_markers_lead_back(index);
    util::law_sanitized_keeps_the_rest(tree.nodes[index as int].name);
    util::law_sanitized_is_safe(tree.nodes[index as int].name);
}

/// The user is told how many things are ready to be copied.
pub proof fn law_promise_counts_are_told(count: nat, language: Language)
    ensures
        promises_ready(count, language) is SetMessage,
        promises_ready(count, language)->title == Phrase::DragReady.say(language),
        text::holds_text(promises_ready(count, language)->detail, text::decimal(count)),
        Phrase::DragReadyLead.say(language).is_prefix_of(promises_ready(count, language)->detail),
{
    let lead = Phrase::DragReadyLead.say(language);
    let detail = promises_ready(count, language)->detail;
    let digits = text::decimal(count);
    assert(lead =~= detail.subrange(0, lead.len() as int));
    assert(detail.subrange(lead.len() as int, lead.len() as int + digits.len()) =~= digits);
}

/// A dragged text stands for a node where it is the mark of this application followed by the
/// node's number, and for none else; a node stands for itself.
pub proof fn law_marks_are_followed_by_a_number(rest: Seq<char>, text: Seq<char>, index: usize)
    ensures
        marked_index("macmtp-node:"@ + rest) == text::parsed_index(rest),
        !"macmtp-node:"@.is_prefix_of(text) ==> marked_index(text) is None,
        (DragItemView::Text { text }).node() == marked_index(text),
        (DragItemView::Node { index }).node() == Some(index),
        DragItemView::Other.node() is None,
{
    let prefix = "macmtp-node:"@;
    let marker = prefix + rest;
    assert(prefix =~= marker.subrange(0, prefix.len() as int));
    assert(marker.skip(prefix.len() as int) =~= rest);
}

/// The promises come in the order of what is dragged, one for each file and folder and none
/// for anything else.
pub proof fn law_promises_come_in_order(tree: TreeView, indexes: Seq<usize>, index: usize)
    ensures
        ({
            let before = promise_views(tree, indexes);
            let after = promise_views(tree, indexes.push(index));
            let copyable = index < tree.nodes.len() && tree.nodes[index as int].source is Object;
            &&& promise_views(tree, Seq::empty()) == Seq::<PromiseView>::empty()
            &&& copyable ==> after.len() == before.len() + 1 && after.drop_last() == before
                && after.last().marker == marker_view(index)
            &&& !copyable ==> after == before
        }),
{
    assert(indexes.push(index).drop_last() =~= indexes);
    let before = promise_views(tree, indexes);
    let after = promise_views(tree, indexes.push(index));
    if after.len() > before.len() {
        assert(after.drop_last() =~= before);
    }
}

/// A promise that leads to no node gets a name all the same, and one for a node the node's
/// own, with an underscore for each character that a path cannot carry.
pub proof fn law_promised_names_are_made_safe(tree: TreeView, marker: Seq<char>, index: usize, k: int)
    ensures
        promised_name(tree, None) == "MacMTP Item"@,
        marked_index(marker) is None ==> promised_name(tree, Some(marker)) == "MacMTP Item"@,
        index >= tree.nodes.len() ==> promised_name(tree, Some(marker_view(index)))
            == "MacMTP Item"@,
        index < tree.nodes.len() && 0 <= k < tree.nodes[index as int].name.len() ==> {
            let name = tree.nodes[index as int].name;
            promised_name(tree, Some(marker_view(index)))[k] == if name[k] == '/' || name[k] == '\\'
                || name[k] == ':' || name[k] == '\0' {
                '_'
            } else {
                name[k]
            }
        },
        index < tree.nodes.len() && tree.nodes[index as int].name.len() == 0 ==> promised_name(
            tree,
            Some(marker_view(index)),
        ) == "preview.bin"@,
{
    law_markers_lead_back(index);
    if index < tree.nodes.len() {
        util::law_sanitized_keeps_the_rest(tree.nodes[index as int].name);
    }
}

/// What the user is told of ready promises is made of the words for it and their number.
pub proof fn law_ready_promises_are_counted(count: nat, language: Language)
    ensures
        promises_ready(count, language) == (ActionView::SetMessage {
            title: Phrase::DragReady.say(language),
            detail: Phrase::DragReadyLead.say(language) + text::decimal(count)
                + Phrase::DragReadyTail.say(language),
        }),
{
}

/// What the contracts say of dragged things and promises is what they hold.
pub proof fn law_dragged_things_show_their_fields(
    index: usize,
    text: String,
    promise: FilePromise,
)
    ensures
        (DragItem::Node { index }).deep_view() == (DragItemView::Node { index }),
        (DragItem::Text { text }).deep_view() == (DragItemView::Text { text: text@ }),
        DragItem::Other.deep_view() == DragItemView::Other,
        promise.deep_view().file_type == promise.file_type@,
        promise.deep_view().marker == promise.marker@,
{
}

} // verus!
