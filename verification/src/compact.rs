//! The compact window: a device menu above the browser. It opens one device at a time, in
//! the foreground, and neither mounts nor copies.
use crate::action::{emit, set_message, tell, Action, ActionView};
use crate::browse;
use crate::browse::{
    preview_file_name, PreviewOutcome, PreviewOutcomeView, PreviewPlan, PreviewRequest,
    PreviewView,
};
use crate::device::{DeviceInfo, DeviceView};
use crate::model::{NodeSource, ObjectInfo, StorageInfo, StorageView};
use crate::phrases::{Language, Phrase};
use crate::session;
use crate::status::Locations;
use crate::text;
use crate::text::decimal_of;
use crate::tree;
use crate::tree::{storage_nodes, NodeTree, NoteStyle, TreeView};
use crate::util;
use vstd::prelude::*;

verus! {

/// What the compact window works on.
pub struct Compact {
    pub devices: Vec<DeviceInfo>,
    /// Whether a device is open.
    pub connected: bool,
    pub tree: NodeTree,
    /// The user's language.
    pub language: Language,
}

/// What the compact window works on.
#[verifier::ext_equal]
pub struct CompactView {
    pub devices: Seq<DeviceView>,
    pub connected: bool,
    pub tree: TreeView,
    pub language: Language,
}

impl View for Compact {
    type V = CompactView;

    open spec fn view(&self) -> CompactView {
        CompactView {
            devices: self.devices.deep_view(),
            connected: self.connected,
            tree: self.tree@,
            language: self.language,
        }
    }
}

/// The compact window on its way through a request.
#[verifier::ext_equal]
pub struct CompactStep {
    pub state: CompactView,
    pub actions: Seq<ActionView>,
}

/// No device is current or mounted.
pub open spec fn nowhere() -> Locations {
    Locations { current: None, mounted: None, mounting: None }
}

/// The titles of the device menu.
pub open spec fn menu_titles(
    found: Result<Seq<DeviceView>, Seq<char>>,
    language: Language,
) -> Seq<Seq<char>> {
    match found {
        Ok(devices) => if devices.len() == 0 {
            seq![Phrase::NoDevices.say(language)]
        } else {
            seq![Phrase::MenuHeading.say(language)] + devices.map_values(
                |d: DeviceView| d.display(),
            )
        },
        Err(_) => seq![Phrase::ScanFailed.say(language)],
    }
}

impl CompactView {
    /// The device that a title of the menu stands for; the first title stands for none.
    pub open spec fn menu_device(self, selected: isize) -> Option<DeviceView> {
        if 0 < selected <= self.devices.len() {
            Some(self.devices[selected - 1])
        } else {
            None
        }
    }

    /// What has to be listed to fill in node `index`.
    pub open spec fn listing_request(self, index: int) -> Option<(u32, Option<u32>)> {
        if self.connected {
            self.tree.listing_request(index)
        } else {
            None
        }
    }

    /// What preparing a preview of the selection comes to.
    pub open spec fn preview_plan(self, selected: Option<usize>) -> PreviewView {
        match selected {
            None => PreviewView::Nothing,
            Some(index) => {
                let node = self.tree.nodes[index as int];
                match (node.cached_path, node.source) {
                    (Some(path), _) => PreviewView::Cached { path },
                    (None, NodeSource::Object { storage_id, handle, is_folder: false }) =>
                        if self.connected {
                        PreviewView::Download {
                            storage_id,
                            handle,
                            file_name: browse::preview_name(handle, node.name),
                            lock: None,
                        }
                    } else {
                        PreviewView::Nothing
                    },
                    _ => PreviewView::Nothing,
                }
            },
        }
    }
}

impl CompactStep {
    /// Where a request starts.
    pub open spec fn start(state: CompactView) -> CompactStep {
        CompactStep { state, actions: Seq::empty() }
    }

    /// One more thing to do.
    pub open spec fn act(self, action: ActionView) -> CompactStep {
        CompactStep { actions: self.actions.push(action), ..self }
    }

    /// A message in the detail pane.
    pub open spec fn message(self, title: Seq<char>, detail: Seq<char>) -> CompactStep {
        self.act(ActionView::SetMessage { title, detail })
    }

    /// A message in the detail pane, made of two phrases.
    pub open spec fn tell(self, title: Phrase, detail: Phrase) -> CompactStep {
        self.message(title.say(self.state.language), detail.say(self.state.language))
    }

    /// The detail pane shows the selection.
    pub open spec fn update_detail(self) -> CompactStep {
        self.act(ActionView::UpdateDetail { at: nowhere() })
    }

    /// A scan for devices has come back.
    pub open spec fn devices_found(self, found: Result<Seq<DeviceView>, Seq<char>>) -> CompactStep {
        let told = match found {
            Ok(devices) => if devices.len() == 0 {
                self.tell(Phrase::NoDevices, Phrase::CompactNoDevicesHint)
            } else {
                self.tell(Phrase::ChooseDevice, Phrase::ChooseDeviceFromMenu)
            },
            Err(message) => self.message(Phrase::ScanFailed.say(self.state.language), message),
        };
        CompactStep {
            state: CompactView {
                devices: match found {
                    Ok(devices) => devices,
                    Err(_) => Seq::empty(),
                },
                connected: false,
                tree: TreeView::empty(),
                ..self.state
            },
            ..told
        }.act(ActionView::ForgetDevice).act(ActionView::ReloadOutline)
    }

    /// A device has been opened, or could not be.
    pub open spec fn device_opened(self, result: Result<(), Seq<char>>) -> CompactStep {
        match result {
            Ok(_) => CompactStep {
                state: CompactView { connected: true, ..self.state },
                ..self
            }.act(ActionView::AdoptDevice),
            Err(message) => CompactStep {
                state: CompactView { connected: false, tree: TreeView::empty(), ..self.state },
                ..self
            }.act(ActionView::ForgetDevice).message(
                Phrase::ConnectFailed.say(self.state.language),
                message,
            ).act(
                ActionView::ReloadOutline,
            ),
        }
    }

    /// The storages of the open device are listed, or could not be.
    pub open spec fn storages_listed(
        self,
        result: Result<Seq<StorageView>, Seq<char>>,
    ) -> CompactStep {
        if !self.state.connected {
            self
        } else {
            match result {
                Ok(storages) => CompactStep {
                    state: CompactView {
                        tree: TreeView::of_storages(storages, self.state.language),
                        ..self.state
                    },
                    ..self
                }.act(ActionView::ReloadOutline).update_detail(),
                Err(message) => self.message(
                    Phrase::StoragesFailed.say(self.state.language),
                    message,
                ),
            }
        }
    }

    /// A preview of the selection is being prepared.
    pub open spec fn preparing_preview(self, selected: Option<usize>) -> CompactStep {
        if selected is Some && self.state.tree.nodes[selected->0 as int].cached_path is None
            && self.state.tree.nodes[selected->0 as int].is_file() {
            self.tell(Phrase::PreparingPreview, Phrase::PreparingPreviewHint)
        } else {
            self
        }
    }

    /// The download for a preview has come back.
    pub open spec fn preview_finished(
        self,
        index: int,
        outcome: PreviewOutcomeView,
    ) -> CompactStep {
        match outcome {
            PreviewOutcomeView::Failed { message } => self.message(
                Phrase::PreviewFailed.say(self.state.language),
                message,
            ),
            PreviewOutcomeView::NoDirectory => self,
            PreviewOutcomeView::NotWritten => self.tell(
                Phrase::PreviewFailed,
                Phrase::PreviewNotWritten,
            ),
            PreviewOutcomeView::Saved { path } => CompactStep {
                state: CompactView {
                    tree: self.state.tree.with_cached_path(index, path),
                    ..self.state
                },
                ..self
            }.update_detail(),
        }
    }
}

/// The window and the actions so far, as a step.
pub open spec fn step_of(window: Compact, actions: Vec<Action>) -> CompactStep {
    CompactStep { state: window@, actions: actions.deep_view() }
}

fn menu_of(found: &Result<Vec<DeviceInfo>, String>, language: Language) -> (r: Vec<String>)
    ensures
        r.deep_view() == menu_titles(session::found_view(*found), language),
{
    let mut titles: Vec<String> = Vec::new();
    match found {
        Err(_) => {
            titles.push(Phrase::ScanFailed.text(language).to_string());
            assert(titles.deep_view() =~= seq![Phrase::ScanFailed.say(language)]);
        },
        Ok(devices) => {
            let ghost views = devices.deep_view();
            if devices.len() == 0 {
                titles.push(Phrase::NoDevices.text(language).to_string());
                assert(titles.deep_view() =~= seq![Phrase::NoDevices.say(language)]);
            } else {
                titles.push(Phrase::MenuHeading.text(language).to_string());
                for i in 0..devices.len()
                    invariant
                        views == devices.deep_view(),
                        titles@.len() == i + 1,
                        titles@[0]@ == Phrase::MenuHeading.say(language),
                        forall|j: int|
                            0 < j <= i ==> (#[trigger] titles@[j])@ == views[j - 1].display(),
                {
                    assert(views[i as int] == devices@[i as int]@);
                    titles.push(devices[i].display());
                }
                assert(titles.deep_view() =~= menu_titles(Ok(views), language));
            }
        },
    }
    titles
}

impl Compact {
    /// A window that has seen no device.
    pub fn new(language: Language) -> (r: Compact)
        ensures
            r@ == (CompactView {
                devices: Seq::empty(),
                connected: false,
                tree: TreeView::empty(),
                language,
            }),
            r@.tree.well_formed(),
    {
        let r = Compact {
            devices: Vec::new(),
            connected: false,
            tree: NodeTree::new(),
            language,
        };
        assert(r@.devices =~= Seq::empty());
        r
    }

    /// Takes in what a scan for devices found: gives the titles of the device menu and what
    /// is to be done.
    pub fn devices_found(&mut self, found: Result<Vec<DeviceInfo>, String>) -> (r: (
        Vec<String>,
        Vec<Action>,
    ))
        ensures
            r.0.deep_view() == menu_titles(session::found_view(found), old(self)@.language),
            step_of(*final(self), r.1) == CompactStep::start(old(self)@).devices_found(
                session::found_view(found),
            ),
            final(self)@.tree.well_formed(),
    {
        let mut actions: Vec<Action> = Vec::new();
        assert(step_of(*self, actions) =~= CompactStep::start(self@));
        let titles = menu_of(&found, self.language);
        match found {
            Ok(devices) => {
                if devices.len() == 0 {
                    tell(
                        &mut actions,
                        self.language,
                        Phrase::NoDevices,
                        Phrase::CompactNoDevicesHint,
                    );
                } else {
                    tell(
                        &mut actions,
                        self.language,
                        Phrase::ChooseDevice,
                        Phrase::ChooseDeviceFromMenu,
                    );
                }
                self.devices = devices;
            },
            Err(message) => {
                set_message(&mut actions, Phrase::ScanFailed.text(self.language), message.as_str());
                self.devices = Vec::new();
                assert(self@.devices =~= Seq::empty());
            },
        }
        self.connected = false;
        self.tree = NodeTree::new();
        emit(&mut actions, Action::ForgetDevice);
        emit(&mut actions, Action::ReloadOutline);
        (titles, actions)
    }

    /// Takes in what a scan for devices found, or the error that it ended with, which is shown
    /// in a text that it displays as: see [`Compact::devices_found`].
    pub fn refresh_devices(&mut self, found: Result<Vec<DeviceInfo>, mtp_rs::Error>) -> (r: (
        Vec<String>,
        Vec<Action>,
    ))
        ensures
            found matches Ok(devices) ==> r.0.deep_view() == menu_titles(
                Ok(devices.deep_view()),
                old(self)@.language,
            )
                && step_of(*final(self), r.1) == CompactStep::start(old(self)@).devices_found(
                Ok(devices.deep_view()),
            ),
            found matches Err(err) ==> exists|message: String|
                util::displays_as(&err, message) && r.0.deep_view() == menu_titles(
                    Err(message@),
                    old(self)@.language,
                ) && step_of(*final(self), r.1)
                    == #[trigger] CompactStep::start(old(self)@).devices_found(Err(message@)),
            final(self)@.tree.well_formed(),
    {
        let found_text: Result<Vec<DeviceInfo>, String> = match found {
            Ok(devices) => Ok(devices),
            Err(err) => Err(err.to_string()),
        };
        self.devices_found(found_text)
    }

    /// The location of the device that a title of the menu stands for, and what the user is
    /// told while it is being opened.
    pub fn select_current_device(&self, selected: isize) -> (r: Option<(u64, Action)>)
        ensures
            r is Some == self@.menu_device(selected) is Some,
            r is Some ==> (r->0).0 == self@.menu_device(selected)->0.location_id,
            r is Some ==> (r->0).1.deep_view() == (ActionView::SetMessage {
                title: Phrase::Connecting.say(self@.language),
                detail: self@.menu_device(selected)->0.display(),
            }),
    {
        if selected <= 0 {
            return None;
        }
        let index: usize = (selected - 1) as usize;
        if index >= self.devices.len() {
            return None;
        }
        let device = &self.devices[index];
        assert(self@.devices[index as int] == device@);
        Some(
            (
                device.location_id,
                Action::SetMessage {
                    title: Phrase::Connecting.text(self.language).to_string(),
                    detail: device.display(),
                },
            ),
        )
    }

    /// Takes in that a device has been opened, or why it could not be.
    pub fn device_opened(&mut self, result: Result<(), String>) -> (r: Vec<Action>)
        ensures
            step_of(*final(self), r) == CompactStep::start(old(self)@).device_opened(
                match result {
                    Ok(_) => Ok(()),
                    Err(message) => Err(message@),
                },
            ),
            old(self)@.tree.well_formed() ==> final(self)@.tree.well_formed(),
    {
        let mut actions: Vec<Action> = Vec::new();
        assert(step_of(*self, actions) =~= CompactStep::start(self@));
        match result {
            Ok(_) => {
                self.connected = true;
                emit(&mut actions, Action::AdoptDevice);
            },
            Err(message) => {
                self.connected = false;
                self.tree = NodeTree::new();
                emit(&mut actions, Action::ForgetDevice);
                set_message(
                    &mut actions,
                    Phrase::ConnectFailed.text(self.language),
                    message.as_str(),
                );
                emit(&mut actions, Action::ReloadOutline);
            },
        }
        actions
    }

    /// Takes in the storages of the open device, or why they could not be listed.
    pub fn load_storages(&mut self, result: Result<Vec<StorageInfo>, String>) -> (r: Vec<Action>)
        ensures
            step_of(*final(self), r) == CompactStep::start(old(self)@).storages_listed(
                match result {
                    Ok(storages) => Ok(storages.deep_view()),
                    Err(message) => Err(message@),
                },
            ),
            old(self)@.tree.well_formed() ==> final(self)@.tree.well_formed(),
    {
        let mut actions: Vec<Action> = Vec::new();
        assert(step_of(*self, actions) =~= CompactStep::start(self@));
        if !self.connected {
            return actions;
        }
        match result {
            Ok(storages) => {
                self.tree = storage_nodes(&storages, self.language);
                emit(&mut actions, Action::ReloadOutline);
                emit(
                    &mut actions,
                    Action::UpdateDetail {
                        at: Locations { current: None, mounted: None, mounting: None },
                    },
                );
            },
            Err(message) => {
                set_message(
                    &mut actions,
                    Phrase::StoragesFailed.text(self.language),
                    message.as_str(),
                );
            },
        }
        actions
    }

    /// What has to be listed to fill in node `index`; nothing without an open device.
    pub fn load_children(&self, index: usize) -> (r: Option<(u32, Option<u32>)>)
        ensures
            r == self@.listing_request(index as int),
    {
        if !self.connected {
            return None;
        }
        self.tree.listing_request(index)
    }

    /// Fills in node `index` with what came back from listing it.
    pub fn children_listed(
        &mut self,
        index: usize,
        storage_id: u32,
        listing: Result<Vec<ObjectInfo>, String>,
    )
        requires
            index < old(self)@.tree.nodes.len(),
        ensures
            final(self)@ == (CompactView {
                tree: match browse::listing_view(listing) {
                    Ok(objects) => old(self)@.tree.with_listing(
                        index as int,
                        NoteStyle::Identifiers,
                        storage_id,
                        objects,
                        old(self)@.language,
                    ),
                    Err(message) => old(self)@.tree.with_failure(
                        index as int,
                        message,
                        old(self)@.language,
                    ),
                },
                ..old(self)@
            }),
            old(self)@.tree.well_formed() ==> final(self)@.tree.well_formed(),
    {
        match listing {
            Ok(objects) => self.tree.fill(
                index,
                NoteStyle::Identifiers,
                storage_id,
                &objects,
                self.language,
            ),
            Err(message) => self.tree.fill_failure(
                index,
                message.as_str(),
                self.language,
            ),
        }
    }

    /// Prepares a preview of the selection: see [`CompactView::preview_plan`].
    pub fn prepare_selected_file_for_preview(&self, selected: Option<usize>) -> (r: (
        PreviewPlan,
        Vec<Action>,
    ))
        requires
            selected matches Some(index) ==> index < self@.tree.nodes.len(),
        ensures
            r.0.deep_view() == self@.preview_plan(selected),
            step_of(*self, r.1) == CompactStep::start(self@).preparing_preview(selected),
    {
        let mut actions: Vec<Action> = Vec::new();
        assert(step_of(*self, actions) =~= CompactStep::start(self@));
        let index: usize = match selected {
            Some(index) => index,
            None => {
                return (PreviewPlan::Nothing, actions);
            },
        };
        let node = &self.tree.nodes[index];
        assert(self@.tree.nodes[index as int] == node@);
        if let Some(path) = &node.cached_path {
            return (PreviewPlan::Cached { path: path.clone() }, actions);
        }
        match node.source {
            NodeSource::Object { storage_id, handle, is_folder } => {
                if is_folder {
                    return (PreviewPlan::Nothing, actions);
                }
                tell(
                    &mut actions,
                    self.language,
                    Phrase::PreparingPreview,
                    Phrase::PreparingPreviewHint,
                );
                if !self.connected {
                    return (PreviewPlan::Nothing, actions);
                }
                let request = PreviewRequest {
                    storage_id,
                    handle,
                    file_name: preview_file_name(handle, node.name.as_str()),
                    lock: None,
                };
                (PreviewPlan::Download { request }, actions)
            },
            _ => (PreviewPlan::Nothing, actions),
        }
    }

    /// Takes in how the download for a preview of node `index` ended, and gives the file to
    /// preview, if there is one.
    pub fn finish_preview(&mut self, index: usize, outcome: PreviewOutcome) -> (r: (
        Option<String>,
        Vec<Action>,
    ))
        requires
            index < old(self)@.tree.nodes.len(),
        ensures
            step_of(*final(self), r.1) == CompactStep::start(old(self)@).preview_finished(
                index as int,
                outcome.deep_view(),
            ),
            r.0 is Some == (outcome is Saved),
            r.0 is Some ==> outcome.deep_view() == (PreviewOutcomeView::Saved { path: r.0->0@ }),
            old(self)@.tree.well_formed() ==> final(self)@.tree.well_formed(),
    {
        let mut actions: Vec<Action> = Vec::new();
        assert(step_of(*self, actions) =~= CompactStep::start(self@));
        match outcome {
            PreviewOutcome::Failed { message } => {
                set_message(
                    &mut actions,
                    Phrase::PreviewFailed.text(self.language),
                    message.as_str(),
                );
                (None, actions)
            },
            PreviewOutcome::NoDirectory => (None, actions),
            PreviewOutcome::NotWritten => {
                tell(&mut actions, self.language, Phrase::PreviewFailed, Phrase::PreviewNotWritten);
                (None, actions)
            },
            PreviewOutcome::Saved { path } => {
                self.tree.set_cached_path(index, path.clone());
                emit(
                    &mut actions,
                    Action::UpdateDetail {
                        at: Locations { current: None, mounted: None, mounting: None },
                    },
                );
                (Some(path), actions)
            },
        }
    }
}

/// The detail pane of the compact window: a title and a text.
pub open spec fn detail_view(tree: TreeView, selected: Option<usize>, language: Language) -> (
    Seq<char>,
    Seq<char>,
) {
    if selected is Some && selected->0 < tree.nodes.len() {
        let node = tree.nodes[selected->0 as int];
        if node.is_file() {
            (node.name, node.kind + "\n"@ + node.size + "\n\n"@ + node.note)
        } else {
            (
                node.name,
                node.kind + "\n"@ + text::decimal(node.children.len())
                    + Phrase::CompactItemCountTail.say(language) + node.note,
            )
        }
    } else {
        (
            Phrase::NoSelection.say(language),
            Phrase::CompactNoSelectionHint.say(language),
        )
    }
}

/// The detail pane of the compact window: see [`detail_view`].
pub fn update_detail(tree: &NodeTree, selected: Option<usize>, language: Language) -> (r: (
    String,
    String,
))
    ensures
        (r.0@, r.1@) == detail_view(tree@, selected, language),
{
    if let Some(index) = selected {
        if index < tree.nodes.len() {
            let node = &tree.nodes[index];
            assert(tree@.nodes[index as int] == node@);
            let mut detail = node.kind.clone();
            detail.append("\n");
            if node.is_file() {
                detail.append(node.size.as_str());
                detail.append("\n\n");
            } else {
                detail.append(decimal_of(node.children.len() as u64).as_str());
                detail.append(Phrase::CompactItemCountTail.text(language));
            }
            detail.append(node.note.as_str());
            return (node.name.clone(), detail);
        }
    }
    (
        Phrase::NoSelection.text(language).to_string(),
        Phrase::CompactNoSelectionHint.text(language).to_string(),
    )
}

/// The menu's titles and the devices fit together: choosing the title of a device chooses
/// that device, and no other title chooses one.
pub proof fn law_menu_titles_choose_their_device(
    window: CompactView,
    found: Seq<DeviceView>,
    selected: isize,
)
    requires
        0 <= selected < menu_titles(Ok(found), window.language).len(),
    ensures
        ({
            let after = CompactStep::start(window).devices_found(Ok(found)).state;
            let titles = menu_titles(Ok(found), window.language);
            &&& after.menu_device(selected) is Some == (selected > 0)
            &&& selected > 0 ==> titles[selected as int] == after.menu_device(selected)->0.display()
        }),
{
}

/// After a scan the window's devices are what the scan found, whole and in order, and the menu
/// has a title for each behind its heading. No device is open then, and the browser is empty.
pub proof fn law_compact_scans_list_what_they_found(
    step: CompactStep,
    found: Seq<DeviceView>,
    message: Seq<char>,
    i: int,
)
    ensures
        ({
            let after = step.devices_found(Ok(found)).state;
            let failed = step.devices_found(Err(message));
            let titles = menu_titles(Ok(found), step.state.language);
            let n = step.actions.len() as int;
            let words = step.state.language;
            &&& after.devices == found
            &&& !after.connected
            &&& after.tree.nodes.len() == 0 && after.tree.root_children.len() == 0
            &&& after.language == words
            &&& failed.state.devices.len() == 0
            &&& !failed.state.connected
            &&& failed.state.tree.nodes.len() == 0
            &&& failed.actions[n] == (ActionView::SetMessage {
                title: Phrase::ScanFailed.say(words),
                detail: message,
            })
            &&& step.devices_found(Ok(found)).actions[n + 1] == ActionView::ForgetDevice
            &&& step.devices_found(Ok(found)).actions[n + 2] == ActionView::ReloadOutline
            &&& found.len() == 0 ==> titles == seq![Phrase::NoDevices.say(words)]
            &&& found.len() == 0 ==> step.devices_found(Ok(found)).actions[n] == (
            ActionView::SetMessage {
                title: Phrase::NoDevices.say(words),
                detail: Phrase::CompactNoDevicesHint.say(words),
            })
            &&& found.len() > 0 ==> titles.len() == found.len() + 1
            &&& found.len() > 0 ==> titles[0] == Phrase::MenuHeading.say(words)
            &&& found.len() > 0 ==> step.devices_found(Ok(found)).actions[n] == (
            ActionView::SetMessage {
                title: Phrase::ChooseDevice.say(words),
                detail: Phrase::ChooseDeviceFromMenu.say(words),
            })
            &&& 0 <= i < found.len() ==> titles[i + 1] == found[i].display()
            &&& menu_titles(Err(message), words) == seq![Phrase::ScanFailed.say(words)]
        }),
{
}

/// The titles of the menu stand for the devices in their order, the one behind the heading for
/// the first; nothing else stands for a device.
pub proof fn law_menu_counts_its_devices(window: CompactView, selected: isize)
    ensures
        1 <= selected <= window.devices.len() ==> window.menu_device(selected) == Some(
            window.devices[selected - 1],
        ),
        selected < 1 || selected > window.devices.len() ==> window.menu_device(selected) is None,
{
}

/// A device that was opened is open, and the browser stays until its storages are listed. One
/// that could not be opened is forgotten, and the user is told why.
pub proof fn law_compact_devices_open(step: CompactStep, message: Seq<char>)
    ensures
        ({
            let opened = step.device_opened(Ok(()));
            let failed = step.device_opened(Err(message));
            let n = step.actions.len() as int;
            &&& opened.state.connected
            &&& opened.state.tree == step.state.tree
            &&& opened.state.devices == step.state.devices
            &&& opened.actions == step.actions.push(ActionView::AdoptDevice)
            &&& !failed.state.connected
            &&& failed.state.tree.nodes.len() == 0
            &&& failed.state.devices == step.state.devices
            &&& failed.actions[n] == ActionView::ForgetDevice
            &&& failed.actions[n + 1] == (ActionView::SetMessage {
                title: Phrase::ConnectFailed.say(step.state.language),
                detail: message,
            })
        }),
{
}

/// The storages of the open device stand at the top of the browser, every one of them in the
/// device's order, and each can be opened. A failure is told and changes nothing, and nothing
/// changes without an open device.
pub proof fn law_compact_shows_every_storage(
    step: CompactStep,
    storages: Seq<StorageView>,
    message: Seq<char>,
    i: int,
)
    requires
        storages.len() <= usize::MAX,
    ensures
        ({
            let after = step.storages_listed(Ok(storages)).state;
            let failed = step.storages_listed(Err(message));
            let open = step.state.connected;
            &&& open && 0 <= i < storages.len() ==> {
                &&& after.tree.root_children.len() == storages.len()
                &&& after.tree.root_children[i] == i
                &&& after.tree.nodes[i].name == storages[i].description
                &&& after.listing_request(i) == Some((storages[i].storage_id, None::<u32>))
            }
            &&& after.connected == open
            &&& after.devices == step.state.devices
            &&& failed.state == step.state
            &&& open ==> failed.actions == step.actions.push(
                ActionView::SetMessage {
                    title: Phrase::StoragesFailed.say(step.state.language),
                    detail: message,
                },
            )
            &&& !open ==> step.storages_listed(Ok(storages)) == step && failed == step
        }),
{
    if 0 <= i < storages.len() {
        tree::law_storages_stand_at_the_top(storages, step.state.language, i);
    }
}

/// Nothing is listed without an open device; with one, a storage or folder is listed as what it
/// is.
pub proof fn law_compact_lists_open_devices(window: CompactView, index: int)
    ensures
        !window.connected ==> window.listing_request(index) is None,
        window.connected ==> window.listing_request(index) == window.tree.listing_request(index),
{
}

/// Finishing the preview of one node leaves the plan of every other as it was, and the rest of
/// the window too; a preview that could not be saved changes nothing.
pub proof fn law_compact_previews_are_kept_apart(
    step: CompactStep,
    index: int,
    other: usize,
    path: Seq<char>,
)
    requires
        0 <= index < step.state.tree.nodes.len(),
        other < step.state.tree.nodes.len(),
    ensures
        ({
            let after = step.preview_finished(index, PreviewOutcomeView::Saved { path }).state;
            &&& other != index ==> after.preview_plan(Some(other)) == step.state.preview_plan(
                Some(other),
            )
            &&& other != index ==> after.tree.nodes[other as int]
                == step.state.tree.nodes[other as int]
            &&& other == index ==> after.preview_plan(Some(other)) == (PreviewView::Cached { path })
            &&& after.tree.nodes[index].name == step.state.tree.nodes[index].name
            &&& after.tree.nodes[index].source == step.state.tree.nodes[index].source
            &&& after.tree.nodes[index].children == step.state.tree.nodes[index].children
            &&& after.tree.root_children == step.state.tree.root_children
            &&& after.connected == step.state.connected
            &&& after.devices == step.state.devices
            &&& step.preview_finished(
                index,
                PreviewOutcomeView::Failed { message: path },
            ).state == step.state
            &&& step.preview_finished(index, PreviewOutcomeView::NotWritten).state == step.state
            &&& step.preview_finished(index, PreviewOutcomeView::NoDirectory) == step
        }),
{
}

/// A preview of a file that is not here fetches that very file of the open device; of anything
/// else nothing is fetched.
pub proof fn law_compact_previews_fetch_the_selected_file(
    window: CompactView,
    index: usize,
    storage_id: u32,
    handle: u32,
)
    requires
        index < window.tree.nodes.len(),
        window.tree.nodes[index as int].cached_path is None,
    ensures
        ({
            let node = window.tree.nodes[index as int];
            let plan = window.preview_plan(Some(index));
            &&& window.preview_plan(None) is Nothing
            &&& node.source == (NodeSource::Object { storage_id, handle, is_folder: false })
                && window.connected ==> plan == (PreviewView::Download {
                storage_id,
                handle,
                file_name: browse::preview_name(handle, node.name),
                lock: None,
            })
            &&& !window.connected ==> plan is Nothing
            &&& node.source is Storage || node.source is Message ==> plan is Nothing
            &&& node.source == (NodeSource::Object { storage_id, handle, is_folder: true })
                ==> plan is Nothing
        }),
{
}

/// Preparing a preview changes nothing; the user is told when a file has to be fetched.
pub proof fn law_compact_preparing_changes_nothing(step: CompactStep, index: usize)
    ensures
        ({
            let node = step.state.tree.nodes[index as int];
            let misses = node.cached_path is None && (node.source matches NodeSource::Object {
                is_folder: false,
                ..
            });
            let after = step.preparing_preview(Some(index));
            &&& step.preparing_preview(None) == step
            &&& after.state == step.state
            &&& !misses ==> after == step
            &&& misses ==> after.actions == step.actions.push(
                ActionView::SetMessage {
                    title: Phrase::PreparingPreview.say(step.state.language),
                    detail: Phrase::PreparingPreviewHint.say(step.state.language),
                },
            )
        }),
{
}

/// A selected node is shown under its own name, with its kind, its size or the number of its
/// children, and its note; without one there is a hint.
pub proof fn law_compact_shows_the_selected_node(
    tree: TreeView,
    selected: Option<usize>,
    language: Language,
)
    ensures
        ({
            let (title, text) = detail_view(tree, selected, language);
            let node = tree.nodes[selected->0 as int];
            let there = selected is Some && selected->0 < tree.nodes.len();
            &&& there ==> title == node.name
            &&& there ==> node.kind.is_prefix_of(text)
            &&& there ==> text.skip(text.len() - node.note.len()) == node.note
            &&& there && node.is_file() ==> text == node.kind + "\n"@ + node.size + "\n\n"@
                + node.note
            &&& there && !node.is_file() ==> text == node.kind + "\n"@ + text::decimal(
                node.children.len(),
            ) + Phrase::CompactItemCountTail.say(language) + node.note
            &&& !there ==> title == Phrase::NoSelection.say(language) && text
                == Phrase::CompactNoSelectionHint.say(language)
        }),
{
    let (title, text) = detail_view(tree, selected, language);
    let node = tree.nodes[selected->0 as int];
    if selected is Some && selected->0 < tree.nodes.len() {
        assert(node.kind =~= text.subrange(0, node.kind.len() as int));
        assert(text.skip(text.len() - node.note.len()) =~= node.note);
    }
}

/// What the contracts say of the window is what its fields hold.
pub proof fn law_windows_show_their_fields(window: Compact)
    ensures
        window@.devices == window.devices.deep_view(),
        window@.connected == window.connected,
        window@.tree == window.tree@,
        window@.language == window.language,
{
}

/// What happens to the window changes what it is about, and nothing else; the browser is drawn
/// anew where its contents change.
pub proof fn law_compact_leaves_the_rest(
    step: CompactStep,
    found: Seq<DeviceView>,
    storages: Seq<StorageView>,
    message: Seq<char>,
)
    ensures
        ({
            let scanned = step.devices_found(Ok(found));
            let unscanned = step.devices_found(Err(message));
            let opened = step.device_opened(Ok(()));
            let unopened = step.device_opened(Err(message));
            let listed = step.storages_listed(Ok(storages));
            let n = step.actions.len();
            &&& scanned.actions.len() == n + 3
            &&& unscanned.actions.len() == n + 3
            &&& unscanned.actions[n as int + 1] == ActionView::ForgetDevice
            &&& unscanned.actions[n as int + 2] == ActionView::ReloadOutline
            &&& unscanned.state.language == step.state.language
            &&& unscanned.state.tree.root_children.len() == 0
            &&& opened.state == (CompactView { connected: true, ..step.state })
            &&& unopened.state == (CompactView {
                connected: false,
                tree: unopened.state.tree,
                ..step.state
            })
            &&& unopened.state.tree.root_children.len() == 0
            &&& unopened.actions.len() == n + 3
            &&& unopened.actions.last() == ActionView::ReloadOutline
            &&& listed.state == (CompactView { tree: listed.state.tree, ..step.state })
            &&& step.state.connected ==> listed.actions == step.actions.push(
                ActionView::ReloadOutline,
            ).push(
                ActionView::UpdateDetail {
                    at: Locations { current: None, mounted: None, mounting: None },
                },
            )
            &&& step.state.connected && storages.len() == 0 ==> listed.state.tree.nodes.len() == 1
                && listed.state.tree.nodes[0].name == Phrase::NoStorages.say(step.state.language)
            &&& step.state.connected && storages.len() > 0 ==> listed.state.tree.nodes.len()
                == storages.len()
        }),
{
}

/// In the compact window, too, a file that is kept somewhere is found there, a storage asks
/// for its own top and a folder for its own contents.
pub proof fn law_compact_asks_for_what_it_shows(
    step: CompactStep,
    index: usize,
    storage_id: u32,
    handle: u32,
    path: Seq<char>,
)
    requires
        index < step.state.tree.nodes.len(),
    ensures
        ({
            let node = step.state.tree.nodes[index as int];
            let saved = step.preview_finished(index as int, PreviewOutcomeView::Saved { path });
            let failed = step.preview_finished(
                index as int,
                PreviewOutcomeView::Failed { message: path },
            );
            let unwritten = step.preview_finished(index as int, PreviewOutcomeView::NotWritten);
            let open = step.state.connected && !node.children_loaded;
            &&& node.cached_path == Some(path) ==> step.state.preview_plan(Some(index)) == (
            PreviewView::Cached { path })
            &&& open && node.source == (NodeSource::Storage { storage_id })
                ==> step.state.listing_request(index as int) == Some((storage_id, None::<u32>))
            &&& open && node.source == (NodeSource::Object { storage_id, handle, is_folder: true })
                ==> step.state.listing_request(index as int) == Some((storage_id, Some(handle)))
            &&& saved.state == (CompactView { tree: saved.state.tree, ..step.state })
            &&& saved.actions == step.actions.push(
                ActionView::UpdateDetail {
                    at: Locations { current: None, mounted: None, mounting: None },
                },
            )
            &&& failed.actions == step.actions.push(
                ActionView::SetMessage {
                    title: Phrase::PreviewFailed.say(step.state.language),
                    detail: path,
                },
            )
            &&& unwritten.actions == step.actions.push(
                ActionView::SetMessage {
                    title: Phrase::PreviewFailed.say(step.state.language),
                    detail: Phrase::PreviewNotWritten.say(step.state.language),
                },
            )
        }),
{
}

} // verus!
