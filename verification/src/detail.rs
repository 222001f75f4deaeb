//! The detail pane: the selected node, or else the current device.
use crate::device::{DeviceInfo, DeviceView};
use crate::model::NodeView;
use crate::phrases::{Language, Phrase};
use crate::status;
use crate::status::{selected_device_index, Locations};
use crate::text;
use crate::text::{decimal_of, hex8_of, trim_of};
use crate::tree::{NodeTree, TreeView};
use vstd::prelude::*;

verus! {

/// A labelled line of the detail pane.
#[derive(Clone, Debug, PartialEq, Eq)]
pub struct DetailRow {
    pub label: String,
    pub value: String,
}

/// What a line of the detail pane shows.
#[verifier::ext_equal]
pub struct DetailRowView {
    pub label: Seq<char>,
    pub value: Seq<char>,
}

impl DeepView for DetailRow {
    type V = DetailRowView;

    open spec fn deep_view(&self) -> DetailRowView {
        DetailRowView { label: self.label@, value: self.value@ }
    }
}

/// The contents of the detail pane. The detail text is hidden where it is empty.
#[derive(Clone, Debug, PartialEq, Eq)]
pub struct Detail {
    pub title: String,
    pub detail: String,
    pub hidden: bool,
    pub rows: Vec<DetailRow>,
}

/// What the detail pane shows.
#[verifier::ext_equal]
pub struct DetailView {
    pub title: Seq<char>,
    pub detail: Seq<char>,
    pub hidden: bool,
    pub rows: Seq<DetailRowView>,
}

impl DeepView for Detail {
    type V = DetailView;

    open spec fn deep_view(&self) -> DetailView {
        DetailView {
            title: self.title@,
            detail: self.detail@,
            hidden: self.hidden,
            rows: self.rows.deep_view(),
        }
    }
}

/// A line of the detail pane; the value is trimmed.
pub open spec fn line(label: Seq<char>, value: Seq<char>) -> DetailRowView {
    DetailRowView { label, value: text::trim(value) }
}

/// How many items stand below a node.
pub open spec fn item_count(node: NodeView, language: Language) -> Seq<char> {
    text::decimal(node.children.len()) + Phrase::ItemCountTail.say(language)
}

/// The lines of a node; the two dates come as text.
pub open spec fn node_lines(
    node: NodeView,
    created: Seq<char>,
    modified: Seq<char>,
    language: Language,
) -> Seq<DetailRowView> {
    if node.is_file() {
        seq![
            line(Phrase::Kind.say(language), node.kind),
            line(Phrase::Size.say(language), node.size),
            line(Phrase::Created.say(language), created),
            line(Phrase::Modified.say(language), modified),
        ]
    } else if node.is_folder() {
        seq![
            line(Phrase::Kind.say(language), node.kind),
            line(Phrase::Items.say(language), item_count(node, language)),
            line(Phrase::Created.say(language), created),
            line(Phrase::Modified.say(language), modified),
        ]
    } else {
        seq![
            line(Phrase::Kind.say(language), node.kind),
            line(Phrase::Items.say(language), item_count(node, language)),
        ]
    }
}

/// The lines of a device.
pub open spec fn device_lines(device: DeviceView, at: Locations, language: Language) -> Seq<
    DetailRowView,
> {
    seq![
        line(Phrase::Status.say(language), at.status_view(device.location_id, language)),
        line(Phrase::Manufacturer.say(language), device.manufacturer_name(language)),
        line(Phrase::SerialNumber.say(language), device.serial_name(language)),
        line(Phrase::Location.say(language), text::padded_hex(device.location_id as nat, 8)),
    ]
}

/// The detail pane for a selection: the selected node, else the current device, else a
/// hint.
pub open spec fn detail_view(
    tree: TreeView,
    devices: Seq<DeviceView>,
    at: Locations,
    selected: Option<usize>,
    created: Seq<char>,
    modified: Seq<char>,
    language: Language,
) -> DetailView {
    if selected is Some && selected->0 < tree.nodes.len() {
        let node = tree.nodes[selected->0 as int];
        DetailView {
            title: node.name,
            detail: node.note,
            hidden: node.note.len() == 0,
            rows: node_lines(node, created, modified, language),
        }
    } else {
        match status::selected_index(devices, at.current) {
            Some(index) => DetailView {
                title: devices[index as int].list_name(language),
                detail: Seq::empty(),
                hidden: true,
                rows: device_lines(devices[index as int], at, language),
            },
            None => DetailView {
                title: Phrase::NoSelection.say(language),
                detail: Phrase::NoSelectionHint.say(language),
                hidden: false,
                rows: Seq::empty(),
            },
        }
    }
}

fn push_line(rows: &mut Vec<DetailRow>, label: &str, value: &str)
    ensures
        final(rows).deep_view() == old(rows).deep_view().push(line(label@, value@)),
{
    let ghost before = rows.deep_view();
    rows.push(DetailRow { label: label.to_string(), value: trim_of(value) });
    assert(rows.deep_view() =~= before.push(line(label@, value@)));
}

fn item_count_of(count: usize, language: Language) -> (r: String)
    ensures
        r@ == text::decimal(count as nat) + Phrase::ItemCountTail.say(language),
{
    let mut r = decimal_of(count as u64);
    r.append(Phrase::ItemCountTail.text(language));
    r
}

/// The detail pane for a selection: see [`detail_view`].
pub fn update_detail(
    tree: &NodeTree,
    devices: &Vec<DeviceInfo>,
    at: Locations,
    selected: Option<usize>,
    created: &str,
    modified: &str,
    language: Language,
) -> (r: Detail)
    ensures
        r.deep_view() == detail_view(
            tree@,
            devices.deep_view(),
            at,
            selected,
            created@,
            modified@,
            language,
        ),
{
    let mut rows: Vec<DetailRow> = Vec::new();
    assert(rows.deep_view() =~= Seq::empty());
    if let Some(index) = selected {
        if index < tree.nodes.len() {
            let node = &tree.nodes[index];
            assert(tree@.nodes[index as int] == node@);
            let is_file: bool = node.is_file();
            let is_folder: bool = node.is_folder();
            push_line(&mut rows, Phrase::Kind.text(language), node.kind.as_str());
            if is_file {
                push_line(&mut rows, Phrase::Size.text(language), node.size.as_str());
            } else {
                push_line(
                    &mut rows,
                    Phrase::Items.text(language),
                    item_count_of(node.children.len(), language).as_str(),
                );
            }
            if is_file || is_folder {
                push_line(&mut rows, Phrase::Created.text(language), created);
                push_line(&mut rows, Phrase::Modified.text(language), modified);
            }
            assert(rows.deep_view() =~= node_lines(node@, created@, modified@, language));
            return Detail {
                title: node.name.clone(),
                detail: node.note.clone(),
                hidden: node.note.as_str().unicode_len() == 0,
                rows,
            };
        }
    }
    match selected_device_index(devices, at.current) {
        Some(index) => {
            let device = &devices[index];
            assert(devices.deep_view()[index as int] == device@);
            push_line(
                &mut rows,
                Phrase::Status.text(language),
                at.mount_status(device.location_id, language).as_str(),
            );
            push_line(
                &mut rows,
                Phrase::Manufacturer.text(language),
                device.device_manufacturer(language).as_str(),
            );
            push_line(
                &mut rows,
                Phrase::SerialNumber.text(language),
                device.device_serial(language).as_str(),
            );
            push_line(
                &mut rows,
                Phrase::Location.text(language),
                hex8_of(device.location_id).as_str(),
            );
            assert(rows.deep_view() =~= device_lines(device@, at, language));
            let r = Detail {
                title: device.device_list_name(language),
                detail: String::new(),
                hidden: true,
                rows,
            };
            assert(r.deep_view().detail =~= Seq::empty());
            r
        },
        None => {
            proof {
                reveal_strlit("选择 MTP 设备后展开目录");
                reveal_strlit("Select an MTP device, then expand its folders");
            }
            Detail {
                title: Phrase::NoSelection.text(language).to_string(),
                detail: Phrase::NoSelectionHint.text(language).to_string(),
                hidden: false,
                rows,
            }
        },
    }
}

/// The heading above the lines of the detail pane, where there are any.
pub fn info_heading(rows: &Vec<DetailRow>, language: Language) -> (r: Option<&'static str>)
    ensures
        r is Some == (rows@.len() > 0),
        r is Some ==> r->0@ == Phrase::Information.say(language),
{
    if rows.len() == 0 {
        None
    } else {
        Some(Phrase::Information.text(language))
    }
}

/// A selected node is shown under its own name and with its own note, whatever device is
/// current.
pub proof fn law_the_selected_node_is_shown(
    tree: TreeView,
    devices: Seq<DeviceView>,
    at: Locations,
    index: usize,
    created: Seq<char>,
    modified: Seq<char>,
    language: Language,
)
    requires
        index < tree.nodes.len(),
    ensures
        ({
            let node = tree.nodes[index as int];
            let shown = detail_view(tree, devices, at, Some(index), created, modified, language);
            let rows = shown.rows;
            let count = text::decimal(node.children.len()) + Phrase::ItemCountTail.say(language);
            &&& shown.title == node.name
            &&& shown.detail == node.note
            &&& shown.hidden <==> node.note.len() == 0
            &&& rows[0].label == Phrase::Kind.say(language)
            &&& rows[0].value == text::trim(node.kind)
            &&& node.is_file() ==> rows.len() == 4 && rows[1].label == Phrase::Size.say(language)
                && rows[1].value == text::trim(node.size)
            &&& !node.is_file() ==> rows[1].label == Phrase::Items.say(language) && rows[1].value
                == text::trim(count)
            &&& node.is_file() || node.is_folder() ==> rows.len() == 4 && rows[2].label
                == Phrase::Created.say(language) && rows[2].value == text::trim(created)
                && rows[3].label == Phrase::Modified.say(language) && rows[3].value == text::trim(
                modified,
            )
            &&& !node.is_file() && !node.is_folder() ==> rows.len() == 2
        }),
{
}

/// Without a selected node the current device is shown: its name, its status, manufacturer and
/// serial number, and its location in hexadecimal.
pub proof fn law_else_the_current_device_is_shown(
    tree: TreeView,
    devices: Seq<DeviceView>,
    at: Locations,
    selected: Option<usize>,
    created: Seq<char>,
    modified: Seq<char>,
    language: Language,
    index: int,
)
    requires
        selected is None || selected->0 >= tree.nodes.len(),
        devices.len() < usize::MAX,
    ensures
        ({
            let shown = detail_view(tree, devices, at, selected, created, modified, language);
            let rows = shown.rows;
            let device = devices[index];
            let is_current = at.current is Some && 0 <= index < devices.len() && device.location_id
                == at.current->0 && (forall|j: int|
                0 <= j < index ==> (#[trigger] devices[j]).location_id != at.current->0);
            &&& is_current ==> {
                &&& shown.title == device.list_name(language)
                &&& shown.hidden
                &&& rows.len() == 4
                &&& rows[0].label == Phrase::Status.say(language)
                &&& rows[0].value == text::trim(at.status_view(device.location_id, language))
                &&& rows[1].label == Phrase::Manufacturer.say(language)
                &&& rows[1].value == text::trim(device.manufacturer_name(language))
                &&& rows[2].label == Phrase::SerialNumber.say(language)
                &&& rows[2].value == text::trim(device.serial_name(language))
                &&& rows[3].label == Phrase::Location.say(language)
                &&& rows[3].value == text::trim(
                    text::padded_hex(device.location_id as nat, 8),
                )
            }
            &&& at.current is None ==> {
                &&& shown.title == Phrase::NoSelection.say(language)
                &&& shown.detail == Phrase::NoSelectionHint.say(language)
                &&& !shown.hidden
                &&& rows.len() == 0
            }
        }),
{
    status::law_buttons_act_on_the_current_device(devices, at, 0, index);
}

/// What the contracts say of the detail pane is what its fields hold.
pub proof fn law_details_show_their_fields(row: DetailRow, detail: Detail)
    ensures
        row.deep_view().label == row.label@,
        row.deep_view().value == row.value@,
        detail.deep_view().title == detail.title@,
        detail.deep_view().detail == detail.detail@,
        detail.deep_view().hidden == detail.hidden,
        detail.deep_view().rows == detail.rows.deep_view(),
{
}

/// Without a selected node and without a current device in the list there is a hint; a device
/// that is shown has no text of its own.
pub proof fn law_without_a_device_there_is_a_hint(
    tree: TreeView,
    devices: Seq<DeviceView>,
    at: Locations,
    selected: Option<usize>,
    created: Seq<char>,
    modified: Seq<char>,
    language: Language,
)
    requires
        selected is None || selected->0 >= tree.nodes.len(),
    ensures
        ({
            let shown = detail_view(tree, devices, at, selected, created, modified, language);
            let listed = at.current is Some && exists|i: int|
                0 <= i < devices.len() && (#[trigger] devices[i]).location_id == at.current->0;
            &&& !listed ==> shown.title == Phrase::NoSelection.say(language) && shown.detail
                == Phrase::NoSelectionHint.say(language) && !shown.hidden && shown.rows.len() == 0
            &&& listed ==> shown.hidden && shown.detail.len() == 0 && shown.rows.len() == 4
        }),
{
    if at.current is Some {
        assert(status::has_location(devices, at.current->0) <==> exists|i: int|
            0 <= i < devices.len() && (#[trigger] devices[i]).location_id == at.current->0);
    }
}

} // verus!
