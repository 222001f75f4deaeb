//! Which device is current, mounted or being mounted, and how the device list and the
//! device buttons show it.
use crate::device::{DeviceInfo, DeviceView};
use crate::phrases::{Language, Phrase};
use vstd::prelude::*;

verus! {

/// The devices that matter at a moment, by location.
#[derive(Clone, Copy, Debug, PartialEq, Eq, Structural)]
pub struct Locations {
    /// The device that is open or being connected.
    pub current: Option<u64>,
    /// The device that is mounted.
    pub mounted: Option<u64>,
    /// The device whose mount is under way.
    pub mounting: Option<u64>,
}

impl Locations {
    /// The status line of the device at a location.
    pub open spec fn status_view(self, location_id: u64, language: Language) -> Seq<char> {
        if self.mounted == Some(location_id) {
            Phrase::Mounted.say(language)
        } else if self.mounting == Some(location_id) {
            Phrase::MountingNow.say(language)
        } else if self.current == Some(location_id) {
            Phrase::ConnectedNotMounted.say(language)
        } else {
            Phrase::NotConnected.say(language)
        }
    }

    /// The status line of the device at a location: see [`Locations::status_view`].
    pub fn mount_status(&self, location_id: u64, language: Language) -> (r: String)
        ensures
            r@ == self.status_view(location_id, language),
    {
        if self.mounted == Some(location_id) {
            Phrase::Mounted.text(language).to_string()
        } else if self.mounting == Some(location_id) {
            Phrase::MountingNow.text(language).to_string()
        } else if self.current == Some(location_id) {
            Phrase::ConnectedNotMounted.text(language).to_string()
        } else {
            Phrase::NotConnected.text(language).to_string()
        }
    }
}

/// Whether a device list holds a device at a location.
pub open spec fn has_location(devices: Seq<DeviceView>, location_id: u64) -> bool {
    exists|i: int| 0 <= i < devices.len() && (#[trigger] devices[i]).location_id == location_id
}

/// Whether a device list holds a device at a location: see [`has_location`].
pub fn holds_location(devices: &Vec<DeviceInfo>, location_id: u64) -> (r: bool)
    ensures
        r == has_location(devices.deep_view(), location_id),
{
    find_location(devices, location_id).is_some()
}

/// Whether `index` is the first device at a location.
pub open spec fn is_first_at(devices: Seq<DeviceView>, location_id: u64, index: int) -> bool {
    &&& 0 <= index < devices.len()
    &&& devices[index].location_id == location_id
    &&& forall|j: int| 0 <= j < index ==> (#[trigger] devices[j]).location_id != location_id
}

/// The place of the current device in a device list: the first device at its location.
pub open spec fn selected_index(devices: Seq<DeviceView>, current: Option<u64>) -> Option<usize> {
    match current {
        Some(location_id) => if has_location(devices, location_id) {
            Some((choose|i: int| is_first_at(devices, location_id, i)) as usize)
        } else {
            None
        },
        None => None,
    }
}

fn find_location(devices: &Vec<DeviceInfo>, location_id: u64) -> (r: Option<usize>)
    ensures
        r is Some == has_location(devices.deep_view(), location_id),
        r is Some ==> is_first_at(devices.deep_view(), location_id, r->0 as int),
{
    let ghost views = devices.deep_view();
    for i in 0..devices.len()
        invariant
            views == devices.deep_view(),
            forall|j: int| 0 <= j < i ==> (#[trigger] views[j]).location_id != location_id,
    {
        assert(views[i as int] == devices@[i as int]@);
        if devices[i].location_id == location_id {
            return Some(i);
        }
    }
    None
}

/// The place of the current device in a device list: see [`selected_index`].
pub fn selected_device_index(devices: &Vec<DeviceInfo>, current: Option<u64>) -> (r: Option<usize>)
    ensures
        r == selected_index(devices.deep_view(), current),
        r is Some ==> is_first_at(devices.deep_view(), current->0, r->0 as int),
{
    match current {
        Some(location_id) => {
            let r = find_location(devices, location_id);
            proof {
                if r is Some {
                    let views = devices.deep_view();
                    let chosen = choose|i: int| is_first_at(views, location_id, i);
                    assert(is_first_at(views, location_id, r->0 as int));
                    assert(is_first_at(views, location_id, chosen));
                    assert(views[chosen].location_id == location_id);
                    assert(views[r->0 as int].location_id == location_id);
                }
            }
            r
        },
        None => None,
    }
}

/// A button that acts on a device. The tag is the device's place in the list, counted
/// from one; zero means no device.
#[derive(Clone, Copy, Debug, PartialEq, Eq, Structural)]
pub struct ButtonState {
    pub tag: usize,
    pub enabled: bool,
}

/// The button that mounts the selected device and the one that ejects it.
#[derive(Clone, Copy, Debug, PartialEq, Eq, Structural)]
pub struct DeviceControls {
    pub mount: ButtonState,
    pub eject: ButtonState,
}

/// The device buttons for the selected device. A device can be mounted unless it is mounted
/// or being mounted, and ejected when it is mounted; during a copy neither.
pub open spec fn controls_view(
    devices: Seq<DeviceView>,
    at: Locations,
    active_copies: usize,
) -> DeviceControls {
    match selected_index(devices, at.current) {
        Some(index) => {
            let location_id = at.current->0;
            DeviceControls {
                mount: ButtonState {
                    tag: (index + 1) as usize,
                    enabled: active_copies == 0 && at.mounted != Some(location_id) && at.mounting
                        != Some(location_id),
                },
                eject: ButtonState {
                    tag: (index + 1) as usize,
                    enabled: active_copies == 0 && at.mounted == Some(location_id),
                },
            }
        },
        None => DeviceControls {
            mount: ButtonState { tag: 0, enabled: false },
            eject: ButtonState { tag: 0, enabled: false },
        },
    }
}

/// The device buttons for the selected device: see [`controls_view`].
pub fn detail_device_controls(devices: &Vec<DeviceInfo>, at: Locations, active_copies: usize) -> (r:
    DeviceControls)
    ensures
        r == controls_view(devices.deep_view(), at, active_copies),
{
    match selected_device_index(devices, at.current) {
        Some(index) => {
            let location_id: u64 = devices[index].location_id;
            assert(devices.deep_view()[index as int] == devices@[index as int]@);
            assert(index < devices.len());
            let tag: usize = index + 1;
            let enabled: bool = active_copies == 0;
            DeviceControls {
                mount: ButtonState {
                    tag,
                    enabled: enabled && at.mounted != Some(location_id) && at.mounting != Some(
                        location_id,
                    ),
                },
                eject: ButtonState { tag, enabled: enabled && at.mounted == Some(location_id) },
            }
        },
        None => DeviceControls {
            mount: ButtonState { tag: 0, enabled: false },
            eject: ButtonState { tag: 0, enabled: false },
        },
    }
}

/// The device that a button with the given tag acts on.
pub open spec fn tagged_index(tag: isize) -> Option<usize> {
    if tag <= 0 {
        None
    } else {
        Some((tag - 1) as usize)
    }
}

/// The device that a button with the given tag acts on: see [`tagged_index`].
pub fn sender_device_index(tag: isize) -> (r: Option<usize>)
    ensures
        r == tagged_index(tag),
{
    if tag <= 0 {
        None
    } else {
        Some((tag - 1) as usize)
    }
}

/// A row of the device list.
#[derive(Clone, Debug, PartialEq, Eq)]
pub struct DeviceRow {
    pub title: String,
    pub status: String,
    /// Whether the row shows the current device.
    pub selected: bool,
    pub select: ButtonState,
    pub mount: ButtonState,
}

/// What a row of the device list shows.
#[verifier::ext_equal]
pub struct RowView {
    pub title: Seq<char>,
    pub status: Seq<char>,
    pub selected: bool,
    pub select: ButtonState,
    pub mount: ButtonState,
}

impl DeepView for DeviceRow {
    type V = RowView;

    open spec fn deep_view(&self) -> RowView {
        RowView {
            title: self.title@,
            status: self.status@,
            selected: self.selected,
            select: self.select,
            mount: self.mount,
        }
    }
}

/// The row of the device at place `index`, with a button that chooses the device and one
/// that mounts it. A device can be mounted unless it is mounted or being mounted; during a
/// copy neither button works.
pub open spec fn row_view(
    device: DeviceView,
    index: int,
    at: Locations,
    active_copies: usize,
    language: Language,
) -> RowView {
    RowView {
        title: device.list_name(language),
        status: at.status_view(device.location_id, language),
        selected: at.current == Some(device.location_id),
        select: ButtonState { tag: (index + 1) as usize, enabled: active_copies == 0 },
        mount: ButtonState {
            tag: (index + 1) as usize,
            enabled: active_copies == 0 && at.mounted != Some(device.location_id) && at.mounting
                != Some(device.location_id),
        },
    }
}

/// The rows of the device list, one for each device in its place.
pub open spec fn row_views(
    devices: Seq<DeviceView>,
    at: Locations,
    active_copies: usize,
    language: Language,
) -> Seq<RowView> {
    Seq::new(devices.len(), |i: int| row_view(devices[i], i, at, active_copies, language))
}

/// The line that stands in an empty device list.
pub fn empty_list_label(language: Language) -> (r: &'static str)
    ensures
        r@ == Phrase::NoDevices.say(language),
{
    Phrase::NoDevices.text(language)
}

/// The rows of the device list: see [`row_views`].
pub fn render_device_rows(
    devices: &Vec<DeviceInfo>,
    at: Locations,
    active_copies: usize,
    language: Language,
) -> (r: Vec<DeviceRow>)
    ensures
        r.deep_view() == row_views(devices.deep_view(), at, active_copies, language),
{
    let mut rows: Vec<DeviceRow> = Vec::new();
    let ghost views = devices.deep_view();
    for i in 0..devices.len()
        invariant
            views == devices.deep_view(),
            rows@.len() == i,
            forall|j: int|
                0 <= j < i ==> (#[trigger] rows@[j]).deep_view() == row_view(
                    views[j],
                    j,
                    at,
                    active_copies,
                    language,
                ),
    {
        let device = &devices[i];
        assert(views[i as int] == device@);
        let row = DeviceRow {
            title: device.device_list_name(language),
            status: at.mount_status(device.location_id, language),
            selected: at.current == Some(device.location_id),
            select: ButtonState { tag: i + 1, enabled: active_copies == 0 },
            mount: ButtonState {
                tag: i + 1,
                enabled: active_copies == 0 && at.mounted != Some(device.location_id)
                    && at.mounting != Some(device.location_id),
            },
        };
        rows.push(row);
    }
    assert(rows.deep_view() =~= row_views(views, at, active_copies, language));
    rows
}

/// A device is never offered for mounting and ejecting at once.
pub proof fn law_mount_and_eject_exclude_each_other(
    devices: Seq<DeviceView>,
    at: Locations,
    active_copies: usize,
)
    ensures
        !(controls_view(devices, at, active_copies).mount.enabled && controls_view(
            devices,
            at,
            active_copies,
        ).eject.enabled),
{
}

/// While a copy runs, every device control is disabled.
pub proof fn law_copying_disables_controls(
    devices: Seq<DeviceView>,
    at: Locations,
    active_copies: usize,
    language: Language,
    index: int,
)
    requires
        active_copies > 0,
        0 <= index < devices.len(),
    ensures
        !controls_view(devices, at, active_copies).mount.enabled,
        !controls_view(devices, at, active_copies).eject.enabled,
        !row_views(devices, at, active_copies, language)[index].select.enabled,
        !row_views(devices, at, active_copies, language)[index].mount.enabled,
{
}

/// The buttons in a row act on that row's device.
pub proof fn law_row_buttons_lead_back(
    devices: Seq<DeviceView>,
    at: Locations,
    active_copies: usize,
    language: Language,
    index: int,
)
    requires
        0 <= index < devices.len() <= isize::MAX,
    ensures
        ({
            let row = row_views(devices, at, active_copies, language)[index];
            &&& tagged_index(row.select.tag as isize) == Some(index as usize)
            &&& tagged_index(row.mount.tag as isize) == Some(index as usize)
        }),
{
}

/// The mount button in the row of the selected device and the one in the detail pane are
/// the same.
pub proof fn law_mount_buttons_agree(
    devices: Seq<DeviceView>,
    at: Locations,
    active_copies: usize,
    language: Language,
)
    requires
        selected_index(devices, at.current) is Some,
        devices.len() <= usize::MAX,
    ensures
        ({
            let selected = selected_index(devices, at.current)->0;
            let row = row_views(devices, at, active_copies, language)[selected as int];
            row.mount == controls_view(devices, at, active_copies).mount
        }),
{
    let location_id = at.current->0;
    let i = choose|i: int|
        0 <= i < devices.len() && (#[trigger] devices[i]).location_id == location_id;
    lemma_there_is_a_first(devices, location_id, i);
}

proof fn lemma_there_is_a_first(devices: Seq<DeviceView>, location_id: u64, i: int)
    requires
        0 <= i < devices.len(),
        devices[i].location_id == location_id,
    ensures
        exists|first: int| is_first_at(devices, location_id, first),
    decreases i,
{
    if exists|j: int| 0 <= j < i && (#[trigger] devices[j]).location_id == location_id {
        let j = choose|j: int| 0 <= j < i && (#[trigger] devices[j]).location_id == location_id;
        lemma_there_is_a_first(devices, location_id, j);
    } else {
        assert(is_first_at(devices, location_id, i));
    }
}

/// The status line of a device goes by where it stands: mounted comes first, then being
/// mounted, then connected.
pub proof fn law_status_goes_by_the_locations(at: Locations, location_id: u64, language: Language)
    ensures
        at.mounted == Some(location_id) ==> at.status_view(location_id, language)
            == Phrase::Mounted.say(language),
        at.mounted != Some(location_id) && at.mounting == Some(location_id) ==> at.status_view(
            location_id,
            language,
        ) == Phrase::MountingNow.say(language),
        at.mounted != Some(location_id) && at.mounting != Some(location_id) && at.current == Some(
            location_id,
        ) ==> at.status_view(location_id, language) == Phrase::ConnectedNotMounted.say(language),
        at.mounted != Some(location_id) && at.mounting != Some(location_id) && at.current != Some(
            location_id,
        ) ==> at.status_view(location_id, language) == Phrase::NotConnected.say(language),
{
}

/// The device list has one row for each device, in their order. A row shows its own device's
/// name and status, is marked where that device is the current one, and its mount button works
/// exactly when no copy runs and the device is neither mounted nor being mounted.
pub proof fn law_rows_show_their_device(
    devices: Seq<DeviceView>,
    at: Locations,
    active_copies: usize,
    language: Language,
    index: int,
)
    requires
        0 <= index < devices.len() < usize::MAX,
    ensures
        ({
            let rows = row_views(devices, at, active_copies, language);
            let row = rows[index];
            let location_id = devices[index].location_id;
            &&& rows.len() == devices.len()
            &&& row.title == devices[index].list_name(language)
            &&& row.status == at.status_view(location_id, language)
            &&& row.selected <==> at.current == Some(location_id)
            &&& row.select.enabled <==> active_copies == 0
            &&& row.mount.enabled <==> active_copies == 0 && at.mounted != Some(location_id)
                && at.mounting != Some(location_id)
            &&& row.select.tag == index + 1
            &&& row.mount.tag == index + 1
        }),
{
}

/// The buttons of the detail pane act on the current device: the first in the list at its
/// location. It can be mounted unless it is mounted or being mounted, and ejected when it is
/// mounted; neither while a copy runs. Without such a device neither button works.
pub proof fn law_buttons_act_on_the_current_device(
    devices: Seq<DeviceView>,
    at: Locations,
    active_copies: usize,
    index: int,
)
    requires
        devices.len() < usize::MAX,
    ensures
        ({
            let controls = controls_view(devices, at, active_copies);
            let location_id = at.current->0;
            let is_current = at.current is Some && 0 <= index < devices.len()
                && devices[index].location_id == location_id && (forall|j: int|
                0 <= j < index ==> (#[trigger] devices[j]).location_id != location_id);
            &&& is_current ==> selected_index(devices, at.current) == Some(index as usize)
            &&& is_current ==> controls.mount.tag == index + 1 && controls.eject.tag == index + 1
            &&& is_current ==> (controls.mount.enabled <==> active_copies == 0 && at.mounted
                != at.current && at.mounting != at.current)
            &&& is_current ==> (controls.eject.enabled <==> active_copies == 0 && at.mounted
                == at.current)
            &&& at.current is None || (forall|j: int|
                0 <= j < devices.len() ==> (#[trigger] devices[j]).location_id != location_id)
                ==> !controls.mount.enabled && !controls.eject.enabled && controls.mount.tag == 0
                && controls.eject.tag == 0 && selected_index(devices, at.current) is None
        }),
{
    let location_id = at.current->0;
    if at.current is Some && 0 <= index < devices.len() && devices[index].location_id
        == location_id && (forall|j: int|
        0 <= j < index ==> (#[trigger] devices[j]).location_id != location_id) {
        assert(is_first_at(devices, location_id, index));
        let chosen = choose|i: int| is_first_at(devices, location_id, i);
        assert(is_first_at(devices, location_id, chosen));
        assert(devices[chosen].location_id == location_id);
        assert(chosen == index);
        assert(has_location(devices, location_id));
    }
}

/// The tag of a button counts the devices from one; no other tag stands for a device.
pub proof fn law_tags_count_from_one(tag: isize)
    ensures
        tag >= 1 ==> tagged_index(tag) is Some && tagged_index(tag)->0 + 1 == tag,
        tag < 1 ==> tagged_index(tag) is None,
{
}

/// What the contracts say of a row is what its fields hold.
pub proof fn law_rows_show_their_fields(row: DeviceRow)
    ensures
        row.deep_view().title == row.title@,
        row.deep_view().status == row.status@,
        row.deep_view().selected == row.selected,
        row.deep_view().select == row.select,
        row.deep_view().mount == row.mount,
{
}

} // verus!
