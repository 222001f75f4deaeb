//! The nodes of the device browser and what a device reports of its storages and objects.
use mtp_rs::ptp::DateTime;
use vstd::prelude::*;

verus! {

/// A device's date and time. The library carries it and never looks inside.
#[verifier::external_type_specification]
#[verifier::external_body]
pub struct ExDateTime(mtp_rs::ptp::DateTime);

/// Where a browser node comes from.
#[derive(Clone, Copy, Debug, PartialEq, Eq, Structural)]
pub enum NodeSource {
    /// A line of text for the user.
    Message,
    /// A storage of the device.
    Storage { storage_id: u32 },
    /// A file or folder of the device.
    Object { storage_id: u32, handle: u32, is_folder: bool },
}

/// A row of the device browser.
#[derive(Clone, Debug)]
pub struct BrowserNode {
    pub name: String,
    pub kind: String,
    pub size: String,
    pub created: Option<DateTime>,
    pub modified: Option<DateTime>,
    pub note: String,
    pub source: NodeSource,
    pub children: Vec<usize>,
    pub children_loaded: bool,
    pub can_expand: bool,
    pub cached_path: Option<String>,
}

/// What a browser node holds.
#[verifier::ext_equal]
pub struct NodeView {
    pub name: Seq<char>,
    pub kind: Seq<char>,
    pub size: Seq<char>,
    pub created: Option<DateTime>,
    pub modified: Option<DateTime>,
    pub note: Seq<char>,
    pub source: NodeSource,
    pub children: Seq<usize>,
    pub children_loaded: bool,
    pub can_expand: bool,
    pub cached_path: Option<Seq<char>>,
}

/// The characters of an optional string.
pub open spec fn text_option(s: Option<String>) -> Option<Seq<char>> {
    match s {
        Some(s) => Some(s@),
        None => None,
    }
}

impl View for BrowserNode {
    type V = NodeView;

    open spec fn view(&self) -> NodeView {
        NodeView {
            name: self.name@,
            kind: self.kind@,
            size: self.size@,
            created: self.created,
            modified: self.modified,
            note: self.note@,
            source: self.source,
            children: self.children@,
            children_loaded: self.children_loaded,
            can_expand: self.can_expand,
            cached_path: text_option(self.cached_path),
        }
    }
}

impl DeepView for BrowserNode {
    type V = NodeView;

    open spec fn deep_view(&self) -> NodeView {
        self@
    }
}

impl NodeView {
    /// Whether the node is a file of the device.
    pub open spec fn is_file(self) -> bool {
        self.source matches NodeSource::Object { is_folder: false, .. }
    }

    /// Whether the node is a folder of the device.
    pub open spec fn is_folder(self) -> bool {
        self.source matches NodeSource::Object { is_folder: true, .. }
    }
}

impl BrowserNode {
    /// Whether the node is a file of the device.
    pub fn is_file(&self) -> (r: bool)
        ensures
            r == self@.is_file(),
    {
        match self.source {
            NodeSource::Object { is_folder, .. } => !is_folder,
            _ => false,
        }
    }

    /// Whether the node is a folder of the device.
    pub fn is_folder(&self) -> (r: bool)
        ensures
            r == self@.is_folder(),
    {
        match self.source {
            NodeSource::Object { is_folder, .. } => is_folder,
            _ => false,
        }
    }
}

/// The node that shows a message.
pub open spec fn message_view(
    title: Seq<char>,
    detail: Seq<char>,
    status_label: Seq<char>,
) -> NodeView {
    NodeView {
        name: title,
        kind: status_label,
        size: "--"@,
        created: None,
        modified: None,
        note: detail,
        source: NodeSource::Message,
        children: Seq::empty(),
        children_loaded: true,
        can_expand: false,
        cached_path: None,
    }
}

/// Makes a node that shows a message. `status_label` is the word for "Status" in the
/// user's language.
pub fn message_node(title: &str, detail: &str, status_label: &str) -> (r: BrowserNode)
    ensures
        r@ == message_view(title@, detail@, status_label@),
{
    BrowserNode {
        name: title.to_string(),
        kind: status_label.to_string(),
        size: "--".to_string(),
        created: None,
        modified: None,
        note: detail.to_string(),
        source: NodeSource::Message,
        children: Vec::new(),
        children_loaded: true,
        can_expand: false,
        cached_path: None,
    }
}

/// A message is neither a file nor a folder, has no children and cannot be expanded.
pub proof fn law_message_is_inert(title: Seq<char>, detail: Seq<char>, status_label: Seq<char>)
    ensures
        !message_view(title, detail, status_label).is_file(),
        !message_view(title, detail, status_label).is_folder(),
        !message_view(title, detail, status_label).can_expand,
        message_view(title, detail, status_label).children_loaded,
        message_view(title, detail, status_label).children.len() == 0,
{
}

/// A storage as the device reports it.
#[derive(Clone, Debug)]
pub struct StorageInfo {
    pub storage_id: u32,
    pub description: String,
    pub free_space_bytes: u64,
}

/// What a storage report holds.
#[verifier::ext_equal]
pub struct StorageView {
    pub storage_id: u32,
    pub description: Seq<char>,
    pub free_space_bytes: u64,
}

impl DeepView for StorageInfo {
    type V = StorageView;

    open spec fn deep_view(&self) -> StorageView {
        StorageView {
            storage_id: self.storage_id,
            description: self.description@,
            free_space_bytes: self.free_space_bytes,
        }
    }
}

/// An object as the device lists it. `format` and `association_type` are its MTP codes.
#[derive(Clone, Debug)]
pub struct ObjectInfo {
    pub handle: u32,
    pub filename: String,
    pub size: u64,
    pub format: u16,
    pub association_type: u16,
    pub created: Option<DateTime>,
    pub modified: Option<DateTime>,
}

/// What an object listing holds.
#[verifier::ext_equal]
pub struct ObjectView {
    pub handle: u32,
    pub filename: Seq<char>,
    pub size: u64,
    pub is_folder: bool,
    pub created: Option<DateTime>,
    pub modified: Option<DateTime>,
}

/// Whether MTP codes denote a folder: the format is an association, or the association
/// type is the generic folder.
pub open spec fn codes_mean_folder(format: u16, association_type: u16) -> bool {
    format == 0x3001 || association_type == 1
}

impl DeepView for ObjectInfo {
    type V = ObjectView;

    open spec fn deep_view(&self) -> ObjectView {
        ObjectView {
            handle: self.handle,
            filename: self.filename@,
            size: self.size,
            is_folder: codes_mean_folder(self.format, self.association_type),
            created: self.created,
            modified: self.modified,
        }
    }
}

/// Calls `mtp_rs::ptp::ObjectInfo::is_folder` on an object with the given codes: it is true
/// when the format is `Association` (0x3001) or the association type is `GenericFolder` (1).
#[verifier::external_body]
fn mtp_is_folder(format: u16, association_type: u16) -> (r: bool)
    ensures
        r == codes_mean_folder(format, association_type),
{
    mtp_rs::ptp::ObjectInfo {
        format: mtp_rs::ptp::ObjectFormatCode::from(format),
        association_type: mtp_rs::ptp::AssociationType::from(association_type),
        ..Default::default()
    }.is_folder()
}

impl ObjectInfo {
    /// Whether the object is a folder.
    pub fn is_folder(&self) -> (r: bool)
        ensures
            r == self.deep_view().is_folder,
    {
        mtp_is_folder(self.format, self.association_type)
    }
}

/// What a node stands for decides whether it is a file or a folder, and nothing else does.
pub proof fn law_sources_tell_files_from_folders(
    node: NodeView,
    storage_id: u32,
    handle: u32,
    is_folder: bool,
)
    ensures
        node.source == (NodeSource::Object { storage_id, handle, is_folder }) ==> node.is_folder()
            == is_folder && node.is_file() == !is_folder,
        node.source == (NodeSource::Storage { storage_id }) ==> !node.is_folder()
            && !node.is_file(),
        node.source is Message ==> !node.is_folder() && !node.is_file(),
{
}

/// What the contracts say of a node, a storage or an object is what its fields hold.
pub proof fn law_models_show_their_fields(
    node: BrowserNode,
    storage: StorageInfo,
    object: ObjectInfo,
)
    ensures
        node@.name == node.name@,
        node@.kind == node.kind@,
        node@.size == node.size@,
        node@.note == node.note@,
        node@.created == node.created,
        node@.modified == node.modified,
        node@.source == node.source,
        node@.children == node.children@,
        node@.children_loaded == node.children_loaded,
        node@.can_expand == node.can_expand,
        node@.cached_path is Some == node.cached_path is Some,
        node.cached_path matches Some(path) ==> node@.cached_path == Some(path@),
        node.deep_view() == node@,
        storage.deep_view().storage_id == storage.storage_id,
        storage.deep_view().description == storage.description@,
        storage.deep_view().free_space_bytes == storage.free_space_bytes,
        object.deep_view().handle == object.handle,
        object.deep_view().filename == object.filename@,
        object.deep_view().size == object.size,
        object.deep_view().created == object.created,
        object.deep_view().modified == object.modified,
        object.deep_view().is_folder == (object.format == 0x3001 || object.association_type == 1),
{
}

/// A message shows its title as a name and its detail as a note.
pub proof fn law_messages_show_their_text(
    title: Seq<char>,
    detail: Seq<char>,
    status_label: Seq<char>,
)
    ensures
        message_view(title, detail, status_label).name == title,
        message_view(title, detail, status_label).note == detail,
        message_view(title, detail, status_label).kind == status_label,
        message_view(title, detail, status_label).size == "--"@,
        message_view(title, detail, status_label).source is Message,
        message_view(title, detail, status_label).created is None,
        message_view(title, detail, status_label).modified is None,
        message_view(title, detail, status_label).cached_path is None,
{
}

} // verus!
