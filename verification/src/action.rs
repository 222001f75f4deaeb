//! What the application does on behalf of the session: outside work and screen updates,
//! in the order in which they are to be done.
use crate::device::{DeviceInfo, DeviceView};
use crate::phrases::{Language, Phrase};
use crate::status::Locations;
use vstd::prelude::*;

verus! {

/// One thing for the application to do.
#[derive(Clone, Debug, PartialEq, Eq)]
pub enum Action {
    /// Show a message in the detail pane.
    SetMessage { title: String, detail: String },
    /// Read the browser's tree afresh.
    ReloadOutline,
    /// Select nothing in the browser.
    ClearOutlineSelection,
    /// Show the selection in the detail pane, with the devices as they stand in `at`.
    UpdateDetail { at: Locations },
    /// Show which devices can be mounted and ejected, and draw the device list.
    UpdateMountControls { at: Locations },
    /// Draw the device list.
    RenderDeviceRows { at: Locations },
    /// Enable or disable the refresh button and the browser.
    EnableControls { enabled: bool },
    /// Show or hide the progress bar, from zero.
    ShowProgress { visible: bool },
    /// Move the progress bar to `done` of `total`.
    ReportProgress { done: u64, total: u64 },
    /// Let the progress bar run without an end.
    ReportActivity,
    /// Unmount and eject the current volume, and forget it.
    EjectMount { mountpoint: String },
    /// Let go of the open device: close its session under the lock, if there is one.
    ReleaseDevice { lock: Option<usize> },
    /// Let go of the open device, if there is one, as it is.
    ForgetDevice,
    /// Keep the device that just connected as the open device.
    AdoptDevice,
    /// Close the session of the device that just connected, under the lock.
    CloseStray { lock: usize },
    /// Keep the volume that was just mounted as the current one.
    AdoptMount,
    /// Drop the volume that was just mounted.
    DiscardMount,
    /// Connect to a device in the background.
    Connect { device: DeviceInfo, lock: usize },
    /// Mount the open device, described by `device`, in the background.
    Mount { device: DeviceInfo, lock: usize },
}

/// What an action holds.
#[verifier::ext_equal]
pub enum ActionView {
    SetMessage { title: Seq<char>, detail: Seq<char> },
    ReloadOutline,
    ClearOutlineSelection,
    UpdateDetail { at: Locations },
    UpdateMountControls { at: Locations },
    RenderDeviceRows { at: Locations },
    EnableControls { enabled: bool },
    ShowProgress { visible: bool },
    ReportProgress { done: u64, total: u64 },
    ReportActivity,
    EjectMount { mountpoint: Seq<char> },
    ReleaseDevice { lock: Option<usize> },
    ForgetDevice,
    AdoptDevice,
    CloseStray { lock: usize },
    AdoptMount,
    DiscardMount,
    Connect { device: DeviceView, lock: usize },
    Mount { device: DeviceView, lock: usize },
}

impl DeepView for Action {
    type V = ActionView;

    open spec fn deep_view(&self) -> ActionView {
        match *self {
            Action::SetMessage { title, detail } => ActionView::SetMessage {
                title: title@,
                detail: detail@,
            },
            Action::ReloadOutline => ActionView::ReloadOutline,
            Action::ClearOutlineSelection => ActionView::ClearOutlineSelection,
            Action::UpdateDetail { at } => ActionView::UpdateDetail { at },
            Action::UpdateMountControls { at } => ActionView::UpdateMountControls { at },
            Action::RenderDeviceRows { at } => ActionView::RenderDeviceRows { at },
            Action::EnableControls { enabled } => ActionView::EnableControls { enabled },
            Action::ShowProgress { visible } => ActionView::ShowProgress { visible },
            Action::ReportProgress { done, total } => ActionView::ReportProgress { done, total },
            Action::ReportActivity => ActionView::ReportActivity,
            Action::EjectMount { mountpoint } => ActionView::EjectMount {
                mountpoint: mountpoint@,
            },
            Action::ReleaseDevice { lock } => ActionView::ReleaseDevice { lock },
            Action::ForgetDevice => ActionView::ForgetDevice,
            Action::AdoptDevice => ActionView::AdoptDevice,
            Action::CloseStray { lock } => ActionView::CloseStray { lock },
            Action::AdoptMount => ActionView::AdoptMount,
            Action::DiscardMount => ActionView::DiscardMount,
            Action::Connect { device, lock } => ActionView::Connect { device: device@, lock },
            Action::Mount { device, lock } => ActionView::Mount { device: device@, lock },
        }
    }
}

/// Adds an action to a list.
pub fn emit(actions: &mut Vec<Action>, action: Action)
    ensures
        final(actions).deep_view() == old(actions).deep_view().push(action.deep_view()),
{
    let ghost before = actions.deep_view();
    actions.push(action);
    assert(actions.deep_view() =~= before.push(action.deep_view()));
}

/// Adds a message to a list.
pub fn set_message(actions: &mut Vec<Action>, title: &str, detail: &str)
    ensures
        final(actions).deep_view() == old(actions).deep_view().push(
            ActionView::SetMessage { title: title@, detail: detail@ },
        ),
{
    emit(
        actions,
        Action::SetMessage { title: title.to_string(), detail: detail.to_string() },
    );
}

/// Adds a message made of two phrases to a list.
pub fn tell(actions: &mut Vec<Action>, language: Language, title: Phrase, detail: Phrase)
    ensures
        final(actions).deep_view() == old(actions).deep_view().push(
            ActionView::SetMessage { title: title.say(language), detail: detail.say(language) },
        ),
{
    set_message(actions, title.text(language), detail.text(language));
}

/// Adds what enabling or disabling the MTP controls takes: the browser and the refresh
/// button, then the device list.
pub fn set_mtp_controls_enabled(actions: &mut Vec<Action>, at: Locations, enabled: bool)
    ensures
        final(actions).deep_view() == old(actions).deep_view().push(
            ActionView::EnableControls { enabled },
        ).push(
            if enabled {
                ActionView::UpdateMountControls { at }
            } else {
                ActionView::RenderDeviceRows { at }
            },
        ),
{
    emit(actions, Action::EnableControls { enabled });
    if enabled {
        emit(actions, Action::UpdateMountControls { at });
    } else {
        emit(actions, Action::RenderDeviceRows { at });
    }
}

/// What the contracts say of an action is what it holds.
pub proof fn law_actions_show_their_fields(
    title: String,
    detail: String,
    device: DeviceInfo,
    lock: usize,
    optional: Option<usize>,
    at: Locations,
    flag: bool,
    done: u64,
    total: u64,
)
    ensures
        (Action::SetMessage { title, detail }).deep_view() == (ActionView::SetMessage {
            title: title@,
            detail: detail@,
        }),
        Action::ReloadOutline.deep_view() == ActionView::ReloadOutline,
        Action::ClearOutlineSelection.deep_view() == ActionView::ClearOutlineSelection,
        (Action::UpdateDetail { at }).deep_view() == (ActionView::UpdateDetail { at }),
        (Action::UpdateMountControls { at }).deep_view() == (ActionView::UpdateMountControls {
            at,
        }),
        (Action::RenderDeviceRows { at }).deep_view() == (ActionView::RenderDeviceRows { at }),
        (Action::EnableControls { enabled: flag }).deep_view() == (ActionView::EnableControls {
            enabled: flag,
        }),
        (Action::ShowProgress { visible: flag }).deep_view() == (ActionView::ShowProgress {
            visible: flag,
        }),
        (Action::ReportProgress { done, total }).deep_view() == (ActionView::ReportProgress {
            done,
            total,
        }),
        Action::ReportActivity.deep_view() == ActionView::ReportActivity,
        (Action::EjectMount { mountpoint: title }).deep_view() == (ActionView::EjectMount {
            mountpoint: title@,
        }),
        (Action::ReleaseDevice { lock: optional }).deep_view() == (ActionView::ReleaseDevice {
            lock: optional,
        }),
        Action::ForgetDevice.deep_view() == ActionView::ForgetDevice,
        Action::AdoptDevice.deep_view() == ActionView::AdoptDevice,
        (Action::CloseStray { lock }).deep_view() == (ActionView::CloseStray { lock }),
        Action::AdoptMount.deep_view() == ActionView::AdoptMount,
        Action::DiscardMount.deep_view() == ActionView::DiscardMount,
        (Action::Connect { device, lock }).deep_view() == (ActionView::Connect {
            device: device@,
            lock,
        }),
        (Action::Mount { device, lock }).deep_view() == (ActionView::Mount {
            device: device@,
            lock,
        }),
{
}

} // verus!
