//! The session with the attached devices: which one is open, what the browser shows of it,
//! and where it is mounted. Every request and every event from the background changes the
//! session and says what is to be done, in order.
use crate::action::{emit, set_message, tell, Action, ActionView};
use crate::device::{DeviceInfo, DeviceView};
use crate::model;
use crate::model::StorageView;
use crate::mount::{MountHandle, MountView};
use crate::phrases::{Language, Phrase};
use crate::status;
use crate::status::{holds_location, sender_device_index, Locations};
use crate::tree;
use crate::tree::{NodeTree, TreeView};
use crate::util;
use std::collections::HashMap;
use vstd::prelude::*;

verus! {

broadcast use vstd::std_specs::hash::group_hash_axioms;

/// What the machine and the application offer.
#[derive(Clone, Copy, Debug, PartialEq, Eq, Structural)]
pub struct Facilities {
    /// Whether macFUSE is installed.
    pub macfuse: bool,
    /// Whether a background connection can report back.
    pub device_events: bool,
    /// Whether a background mount can report back.
    pub mount_events: bool,
    /// Whether a background copy can report back.
    pub copy_events: bool,
}

/// The session with the attached devices.
///
/// Work on a device runs under the lock of its location. Locks are known by number: the
/// locations get the numbers 0, 1, ... in the order in which they first need one.
pub struct Session {
    pub devices: Vec<DeviceInfo>,
    /// Whether the current device is open.
    pub connected: bool,
    pub locations: Locations,
    /// The device to mount as soon as it is open.
    pub pending_mount: Option<u64>,
    pub mount: Option<MountHandle>,
    /// The lock of the current device.
    pub lock: Option<usize>,
    pub locks: HashMap<u64, usize>,
    pub tree: NodeTree,
    /// Why one of the running copies failed.
    pub copy_error: Option<String>,
    /// The user's language.
    pub language: Language,
}

/// What a session holds.
#[verifier::ext_equal]
pub struct StateView {
    pub devices: Seq<DeviceView>,
    pub connected: bool,
    pub locations: Locations,
    pub pending_mount: Option<u64>,
    pub mount: Option<MountView>,
    pub lock: Option<usize>,
    pub locks: Map<u64, usize>,
    pub tree: TreeView,
    pub copy_error: Option<Seq<char>>,
    pub language: Language,
}

/// What an optional volume holds.
pub open spec fn mount_view(mount: Option<MountHandle>) -> Option<MountView> {
    match mount {
        Some(handle) => Some(handle@),
        None => None,
    }
}

impl View for Session {
    type V = StateView;

    open spec fn view(&self) -> StateView {
        StateView {
            devices: self.devices.deep_view(),
            connected: self.connected,
            locations: self.locations,
            pending_mount: self.pending_mount,
            mount: mount_view(self.mount),
            lock: self.lock,
            locks: self.locks@,
            tree: self.tree@,
            copy_error: model::text_option(self.copy_error),
            language: self.language,
        }
    }
}

/// No two locations share a lock, and the numbers in use are the first ones.
pub open spec fn locks_well_formed(locks: Map<u64, usize>) -> bool {
    &&& locks.dom().finite()
    &&& forall|l: u64| #[trigger] locks.contains_key(l) ==> locks[l] < locks.len()
    &&& forall|a: u64, b: u64|
        #[trigger] locks.contains_key(a) && #[trigger] locks.contains_key(b) && a != b ==> locks[a]
            != locks[b]
}

/// The lock of a location, which gets the next number where it has none.
pub open spec fn lock_of(locks: Map<u64, usize>, location_id: u64) -> usize {
    if locks.contains_key(location_id) {
        locks[location_id]
    } else {
        locks.len() as usize
    }
}

impl StateView {
    /// A session that has seen no device.
    pub open spec fn initial(language: Language) -> StateView {
        StateView {
            devices: Seq::empty(),
            connected: false,
            locations: Locations { current: None, mounted: None, mounting: None },
            pending_mount: None,
            mount: None,
            lock: None,
            locks: Map::empty(),
            tree: TreeView::empty(),
            copy_error: None,
            language,
        }
    }

    /// What holds of every session: at most one device is in play, an open device is the
    /// current one, and the current device has its own lock.
    pub open spec fn well_formed(self) -> bool {
        &&& self.connected ==> self.locations.current is Some
        &&& self.locations.current is Some <==> self.lock is Some
        &&& self.locations.current is Some ==> self.locks.contains_key(self.locations.current->0)
            && self.lock == Some(self.locks[self.locations.current->0])
        &&& self.mount is Some <==> self.locations.mounted is Some
        &&& self.locations.current is Some && self.locations.mounted is Some
            ==> self.locations.mounted == self.locations.current
        &&& self.locations.current is Some && self.locations.mounting is Some
            ==> self.locations.mounting == self.locations.current
        &&& self.locations.current is Some && self.pending_mount is Some ==> self.pending_mount
            == self.locations.current
        &&& self.tree.well_formed()
        &&& locks_well_formed(self.locks)
    }

    /// The session with a lock for a location.
    pub open spec fn with_lock(self, location_id: u64) -> StateView {
        StateView {
            locks: self.locks.insert(location_id, lock_of(self.locks, location_id)),
            ..self
        }
    }
}

/// A session on its way through a request: its state and what is to be done so far.
#[verifier::ext_equal]
pub struct Step {
    pub state: StateView,
    pub actions: Seq<ActionView>,
}

impl Step {
    /// Where a request starts.
    pub open spec fn start(state: StateView) -> Step {
        Step { state, actions: Seq::empty() }
    }

    /// One more thing to do.
    pub open spec fn act(self, action: ActionView) -> Step {
        Step { actions: self.actions.push(action), ..self }
    }

    /// The session in another state.
    pub open spec fn with_state(self, state: StateView) -> Step {
        Step { state, ..self }
    }

    /// A message in the detail pane.
    pub open spec fn message(self, title: Seq<char>, detail: Seq<char>) -> Step {
        self.act(ActionView::SetMessage { title, detail })
    }

    /// A message in the detail pane, made of two phrases.
    pub open spec fn tell(self, title: Phrase, detail: Phrase) -> Step {
        self.message(title.say(self.state.language), detail.say(self.state.language))
    }

    /// The detail pane shows the selection.
    pub open spec fn update_detail(self) -> Step {
        self.act(ActionView::UpdateDetail { at: self.state.locations })
    }

    /// The device list and buttons show the devices.
    pub open spec fn update_mount_controls(self) -> Step {
        self.act(ActionView::UpdateMountControls { at: self.state.locations })
    }

    /// The volume is ejected, if there is one.
    pub open spec fn eject_mount(self) -> Step {
        match self.state.mount {
            Some(volume) => self.with_state(StateView { mount: None, ..self.state }).act(
                ActionView::EjectMount { mountpoint: volume.mountpoint },
            ),
            None => self,
        }
    }

    /// The volume is ejected, and no device counts as mounted.
    pub open spec fn unmount(self) -> Step {
        let ejected = self.eject_mount();
        ejected.with_state(
            StateView {
                locations: Locations { mounted: None, ..ejected.state.locations },
                ..ejected.state
            },
        )
    }

    /// The current device is let go of, and with it everything that concerned it.
    pub open spec fn close_device(self) -> Step {
        let ejected = self.eject_mount();
        let closed = ejected.with_state(
            StateView {
                connected: false,
                locations: Locations { current: None, mounted: None, mounting: None },
                pending_mount: None,
                lock: None,
                ..ejected.state
            },
        );
        let released = if self.state.connected {
            closed.act(ActionView::ReleaseDevice { lock: self.state.lock })
        } else {
            closed
        };
        released.update_mount_controls()
    }

    /// The browser is empty.
    pub open spec fn clear_browser(self) -> Step {
        self.with_state(StateView { tree: TreeView::empty(), ..self.state }).act(
            ActionView::ReloadOutline,
        ).update_detail()
    }

    /// The browser and the detail pane show a message.
    pub open spec fn browser_message(self, title: Seq<char>, detail: Seq<char>) -> Step {
        self.with_state(
            StateView {
                tree: TreeView::of_message(title, detail, self.state.language),
                ..self.state
            },
        ).act(ActionView::ReloadOutline).message(title, detail)
    }

    /// A scan for devices has come back.
    pub open spec fn devices_found(self, found: Result<Seq<DeviceView>, Seq<char>>) -> Step {
        let current = self.state.locations.current;
        let scanned = match found {
            Err(message) => self.with_state(
                StateView { devices: Seq::empty(), ..self.state },
            ).message(Phrase::ScanFailed.say(self.state.language), message),
            Ok(found) => {
                let gone = current is Some && !status::has_location(found, current->0);
                let kept = if gone {
                    self.close_device().clear_browser()
                } else {
                    self
                };
                let listed = kept.with_state(StateView { devices: found, ..kept.state });
                if found.len() == 0 {
                    listed.tell(Phrase::NoDevices, Phrase::NoDevicesHint)
                } else if current is None {
                    listed.tell(Phrase::ChooseDevice, Phrase::ChooseDeviceFromList)
                } else {
                    listed
                }
            },
        };
        scanned.update_mount_controls()
    }

    /// A mount of the open device begins in the background, if the machine can mount.
    pub open spec fn mount_device(self, device: DeviceView, facilities: Facilities) -> Step {
        let location_id = device.location_id;
        let free = self.unmount();
        if !facilities.macfuse {
            free.tell(Phrase::ConnectedTitle, Phrase::NoMacfuseHint).update_mount_controls()
        } else if !facilities.mount_events {
            free.tell(Phrase::MountFailed, Phrase::NoMountChannel)
        } else {
            let announced = free.tell(Phrase::Mounting, Phrase::MountingHint);
            let locked = announced.state.with_lock(location_id);
            announced.with_state(
                StateView {
                    locations: Locations { mounting: Some(location_id), ..locked.locations },
                    ..locked
                },
            ).update_mount_controls().act(
                ActionView::Mount { device, lock: lock_of(free.state.locks, location_id) },
            )
        }
    }

    /// A device is chosen, and mounted as soon as it is open if that is asked for.
    pub open spec fn select_device(
        self,
        index: int,
        mount_after_connect: bool,
        facilities: Facilities,
    ) -> Step {
        if !(0 <= index < self.state.devices.len()) {
            self
        } else {
            let device = self.state.devices[index];
            let location_id = device.location_id;
            let cleared = self.act(ActionView::ClearOutlineSelection);
            if self.state.locations.current == Some(location_id) {
                let chosen = if !mount_after_connect {
                    cleared
                } else if self.state.connected {
                    cleared.mount_device(device, facilities)
                } else {
                    cleared.with_state(
                        StateView { pending_mount: Some(location_id), ..cleared.state },
                    )
                };
                chosen.update_detail().update_mount_controls()
            } else {
                let lock = lock_of(self.state.locks, location_id);
                let closed = cleared.close_device();
                let locked = closed.state.with_lock(location_id);
                let chosen = closed.with_state(
                    StateView {
                        locations: Locations { current: Some(location_id), ..locked.locations },
                        lock: Some(lock),
                        pending_mount: if mount_after_connect {
                            Some(location_id)
                        } else {
                            None
                        },
                        ..locked
                    },
                ).browser_message(
                    Phrase::Connecting.say(self.state.language),
                    device.display(),
                ).update_detail().update_mount_controls();
                if facilities.device_events {
                    chosen.update_mount_controls().act(ActionView::Connect { device, lock })
                } else {
                    chosen.browser_message(
                        Phrase::ConnectFailed.say(self.state.language),
                        Phrase::NoDeviceChannel.say(self.state.language),
                    )
                }
            }
        }
    }

    /// A device has connected and its storages are listed.
    pub open spec fn device_connected(
        self,
        device: DeviceView,
        tree: TreeView,
        facilities: Facilities,
    ) -> Step {
        let location_id = device.location_id;
        if self.state.locations.current != Some(location_id) {
            self.with_state(self.state.with_lock(location_id)).act(
                ActionView::CloseStray { lock: lock_of(self.state.locks, location_id) },
            )
        } else {
            let should_mount = self.state.pending_mount == Some(location_id);
            let open = self.with_state(
                StateView {
                    connected: true,
                    tree,
                    ..self.state
                },
            ).act(ActionView::AdoptDevice).act(
                ActionView::ReloadOutline,
            ).update_detail().update_mount_controls();
            if should_mount {
                open.with_state(StateView { pending_mount: None, ..open.state }).mount_device(
                    device,
                    facilities,
                )
            } else {
                open.tell(Phrase::ConnectedTitle, Phrase::ConnectedHint).update_detail()
            }
        }
    }

    /// Connections have finished in the background: the last one counts.
    pub open spec fn device_events(
        self,
        events: Seq<DeviceEventView>,
        facilities: Facilities,
    ) -> Step {
        if events.len() == 0 || self.state.locations.current != Some(
            events.last().device.location_id,
        ) {
            self
        } else {
            match events.last().result {
                Ok(tree) => self.device_connected(events.last().device, tree, facilities),
                Err(message) => self.with_state(
                    StateView {
                        connected: false,
                        locations: Locations { current: None, ..self.state.locations },
                        lock: None,
                        ..self.state
                    },
                ).act(ActionView::ForgetDevice).update_mount_controls().browser_message(
                    Phrase::ConnectFailed.say(self.state.language),
                    message,
                ),
            }
        }
    }

    /// Mounts have finished in the background: the last one counts.
    pub open spec fn mount_events(self, events: Seq<MountEventView>) -> Step {
        if events.len() == 0 {
            self
        } else {
            let location_id = events.last().location_id;
            let settled = StateView {
                locations: Locations { mounting: None, ..self.state.locations },
                ..self.state
            };
            if self.state.locations.current != Some(location_id) {
                let dropped = if events.last().result is Ok {
                    self.act(ActionView::DiscardMount)
                } else {
                    self
                };
                if self.state.locations.mounting == Some(location_id) {
                    dropped.with_state(settled).update_mount_controls()
                } else {
                    dropped
                }
            } else {
                match events.last().result {
                    Ok(volume) => self.with_state(
                        StateView {
                            mount: Some(volume),
                            locations: Locations {
                                mounted: Some(location_id),
                                ..settled.locations
                            },
                            ..settled
                        },
                    ).act(ActionView::AdoptMount).update_mount_controls().message(
                        Phrase::Mounted.say(self.state.language),
                        Phrase::MountedAtLead.say(self.state.language) + volume.mountpoint
                            + Phrase::MountedAtTail.say(self.state.language),
                    ),
                    Err(message) => self.with_state(settled).update_mount_controls().message(
                        Phrase::FinderMountFailed.say(self.state.language),
                        message + Phrase::FinderMountFailedTail.say(self.state.language),
                    ),
                }
            }
        }
    }

    /// A mount is asked for.
    pub open spec fn mount_chosen(self, index: int, facilities: Facilities) -> Step {
        if !(0 <= index < self.state.devices.len()) {
            self
        } else {
            let device = self.state.devices[index];
            let location_id = device.location_id;
            if self.state.locations.mounted == Some(location_id) {
                self.tell(Phrase::AlreadyMounted, Phrase::AlreadyMountedHint)
            } else if self.state.locations.mounting == Some(location_id) {
                self.tell(Phrase::Mounting, Phrase::MountingWait)
            } else if self.state.locations.current == Some(location_id) && self.state.connected {
                self.mount_device(device, facilities)
            } else {
                self.select_device(index, true, facilities)
            }
        }
    }

    /// An ejection is asked for.
    pub open spec fn eject_chosen(self, index: int) -> Step {
        if !(0 <= index < self.state.devices.len()) {
            self
        } else if self.state.locations.mounted != Some(self.state.devices[index].location_id) {
            self.tell(Phrase::NotMounted, Phrase::NotMountedHint)
        } else {
            self.unmount().update_mount_controls().tell(Phrase::Ejected, Phrase::EjectedHint)
        }
    }
}

/// A connection that has finished in the background, with the browser's tree or why it
/// failed.
pub struct DeviceEvent {
    pub device: DeviceInfo,
    pub result: Result<NodeTree, String>,
}

/// What a finished connection holds.
#[verifier::ext_equal]
pub struct DeviceEventView {
    pub device: DeviceView,
    pub result: Result<TreeView, Seq<char>>,
}

impl DeepView for DeviceEvent {
    type V = DeviceEventView;

    open spec fn deep_view(&self) -> DeviceEventView {
        DeviceEventView {
            device: self.device@,
            result: match self.result {
                Ok(tree) => Ok(tree@),
                Err(message) => Err(message@),
            },
        }
    }
}

/// A mount that has finished in the background.
pub struct MountEvent {
    pub location_id: u64,
    pub result: Result<MountHandle, String>,
}

/// What a finished mount holds.
#[verifier::ext_equal]
pub struct MountEventView {
    pub location_id: u64,
    pub result: Result<MountView, Seq<char>>,
}

impl DeepView for MountEvent {
    type V = MountEventView;

    open spec fn deep_view(&self) -> MountEventView {
        MountEventView {
            location_id: self.location_id,
            result: match self.result {
                Ok(handle) => Ok(handle@),
                Err(message) => Err(message@),
            },
        }
    }
}

/// What a scan for devices found.
pub open spec fn found_view(found: Result<Vec<DeviceInfo>, String>) -> Result<
    Seq<DeviceView>,
    Seq<char>,
> {
    match found {
        Ok(devices) => Ok(devices.deep_view()),
        Err(message) => Err(message@),
    }
}

/// The session and the actions so far, as a step.
pub open spec fn step_of(session: Session, actions: Vec<Action>) -> Step {
    Step { state: session@, actions: actions.deep_view() }
}

impl Session {
    fn update_detail(&self, actions: &mut Vec<Action>)
        ensures
            step_of(*self, *final(actions)) == step_of(*self, *old(actions)).update_detail(),
    {
        emit(actions, Action::UpdateDetail { at: self.locations });
    }

    fn update_mount_controls(&self, actions: &mut Vec<Action>)
        ensures
            step_of(*self, *final(actions)) == step_of(
                *self,
                *old(actions),
            ).update_mount_controls(),
    {
        emit(actions, Action::UpdateMountControls { at: self.locations });
    }

    fn eject_mount(&mut self, actions: &mut Vec<Action>)
        ensures
            step_of(*final(self), *final(actions)) == step_of(
                *old(self),
                *old(actions),
            ).eject_mount(),
    {
        if let Some(handle) = &self.mount {
            emit(actions, Action::EjectMount { mountpoint: handle.mountpoint().to_string() });
        }
        self.mount = None;
    }

    fn unmount(&mut self, actions: &mut Vec<Action>)
        ensures
            step_of(*final(self), *final(actions)) == step_of(*old(self), *old(actions)).unmount(),
    {
        self.eject_mount(actions);
        self.locations.mounted = None;
    }

    fn close_device(&mut self, actions: &mut Vec<Action>)
        ensures
            step_of(*final(self), *final(actions)) == step_of(
                *old(self),
                *old(actions),
            ).close_device(),
    {
        let connected: bool = self.connected;
        let lock: Option<usize> = self.lock;
        self.eject_mount(actions);
        self.locations = Locations { current: None, mounted: None, mounting: None };
        self.pending_mount = None;
        self.connected = false;
        self.lock = None;
        if connected {
            emit(actions, Action::ReleaseDevice { lock });
        }
        self.update_mount_controls(actions);
    }

    fn clear_browser(&mut self, actions: &mut Vec<Action>)
        ensures
            step_of(*final(self), *final(actions)) == step_of(
                *old(self),
                *old(actions),
            ).clear_browser(),
    {
        self.tree = NodeTree::new();
        emit(actions, Action::ReloadOutline);
        self.update_detail(actions);
    }

    fn browser_message(&mut self, actions: &mut Vec<Action>, title: &str, detail: &str)
        ensures
            step_of(*final(self), *final(actions)) == step_of(
                *old(self),
                *old(actions),
            ).browser_message(title@, detail@),
    {
        self.tree = NodeTree::of_message(title, detail, self.language);
        emit(actions, Action::ReloadOutline);
        set_message(actions, title, detail);
    }
}

impl Session {
    fn mtp_lock_for_device(&mut self, location_id: u64) -> (r: usize)
        ensures
            r == lock_of(old(self)@.locks, location_id),
            final(self)@ == old(self)@.with_lock(location_id),
            old(self)@.locks.len() <= usize::MAX,
    {
        let count: usize = self.locks.len();
        match self.locks.get(&location_id) {
            Some(lock) => {
                assert(self@ =~= old(self)@.with_lock(location_id));
                *lock
            },
            None => {
                self.locks.insert(location_id, count);
                count
            },
        }
    }
}

impl Session {
    /// A session that has seen no device.
    pub fn new(language: Language) -> (r: Session)
        ensures
            r@ == StateView::initial(language),
            r@.well_formed(),
    {
        let r = Session {
            devices: Vec::new(),
            connected: false,
            locations: Locations { current: None, mounted: None, mounting: None },
            pending_mount: None,
            mount: None,
            lock: None,
            locks: HashMap::new(),
            tree: NodeTree::new(),
            copy_error: None,
            language,
        };
        assert(r@ =~= StateView::initial(language));
        r
    }

    /// Asks the user to choose a device.
    pub fn show_initial_device_prompt(&self) -> (r: Vec<Action>)
        ensures
            step_of(*self, r) == Step::start(self@).act(
                ActionView::RenderDeviceRows { at: self@.locations },
            ).message(
                Phrase::ChooseDevice.say(self@.language),
                Phrase::ChooseDeviceFirst.say(self@.language),
            ),
    {
        let mut actions: Vec<Action> = Vec::new();
        assert(step_of(*self, actions) =~= Step::start(self@));
        emit(&mut actions, Action::RenderDeviceRows { at: self.locations });
        tell(&mut actions, self.language, Phrase::ChooseDevice, Phrase::ChooseDeviceFirst);
        actions
    }

    /// Lets go of the current device: its volume is ejected and its session closed.
    pub fn close_current_device(&mut self) -> (r: Vec<Action>)
        ensures
            step_of(*final(self), r) == Step::start(old(self)@).close_device(),
            old(self)@.well_formed() ==> final(self)@.well_formed(),
    {
        let mut actions: Vec<Action> = Vec::new();
        assert(step_of(*self, actions) =~= Step::start(self@));
        self.close_device(&mut actions);
        actions
    }

    fn apply_found(&mut self, actions: &mut Vec<Action>, found: Result<Vec<DeviceInfo>, String>)
        ensures
            step_of(*final(self), *final(actions)) == step_of(
                *old(self),
                *old(actions),
            ).devices_found(found_view(found)),
    {
        let current: Option<u64> = self.locations.current;
        match found {
            Err(message) => {
                self.devices = Vec::new();
                assert(self@.devices =~= Seq::empty());
                set_message(actions, Phrase::ScanFailed.text(self.language), message.as_str());
            },
            Ok(found) => {
                if let Some(location_id) = current {
                    if !holds_location(&found, location_id) {
                        self.close_device(actions);
                        self.clear_browser(actions);
                    }
                }
                let count: usize = found.len();
                self.devices = found;
                if count == 0 {
                    tell(actions, self.language, Phrase::NoDevices, Phrase::NoDevicesHint);
                } else if current.is_none() {
                    tell(
                        actions,
                        self.language,
                        Phrase::ChooseDevice,
                        Phrase::ChooseDeviceFromList,
                    );
                }
            },
        }
        self.update_mount_controls(actions);
    }
}

/// Asking for a lock gives a location one of its own, and leaves every other location's
/// lock alone.
pub proof fn law_locations_have_their_own_lock(locks: Map<u64, usize>, location_id: u64)
    requires
        locks_well_formed(locks),
        locks.len() <= usize::MAX,
    ensures
        locks_well_formed(locks.insert(location_id, lock_of(locks, location_id))),
        locks.insert(location_id, lock_of(locks, location_id))[location_id] == lock_of(
            locks,
            location_id,
        ),
        forall|l: u64| #[trigger]
            locks.contains_key(l) ==> lock_of(
                locks.insert(location_id, lock_of(locks, location_id)),
                l,
            ) == locks[l],
        forall|l: u64| #[trigger]
            locks.contains_key(l) && l != location_id ==> locks[l] != lock_of(locks, location_id),
{
    let after = locks.insert(location_id, lock_of(locks, location_id));
    if locks.contains_key(location_id) {
        assert(after =~= locks);
    } else {
        assert(after.dom() =~= locks.dom().insert(location_id));
        assert(after.len() == locks.len() + 1);
    }
}

/// Closing the device, filling the browser and showing messages keep a session well formed.
proof fn lemma_basics_keep_session(step: Step, title: Seq<char>, detail: Seq<char>)
    requires
        step.state.well_formed(),
    ensures
        step.close_device().state.well_formed(),
        step.unmount().state.well_formed(),
        step.clear_browser().state.well_formed(),
        step.browser_message(title, detail).state.well_formed(),
{
}

/// Mounting keeps a session well formed.
proof fn lemma_mounting_keeps_session(step: Step, device: DeviceView, facilities: Facilities)
    requires
        step.state.well_formed(),
        step.state.locks.len() <= usize::MAX,
        step.state.locations.current == Some(device.location_id),
    ensures
        step.mount_device(device, facilities).state.well_formed(),
{
    lemma_basics_keep_session(step, Seq::empty(), Seq::empty());
    law_locations_have_their_own_lock(step.state.locks, device.location_id);
}

/// A scan keeps a session well formed and its language.
pub proof fn law_scanning_keeps_session(step: Step, found: Result<Seq<DeviceView>, Seq<char>>)
    requires
        step.state.well_formed(),
    ensures
        step.devices_found(found).state.well_formed(),
        step.devices_found(found).state.language == step.state.language,
{
    lemma_basics_keep_session(step, Seq::empty(), Seq::empty());
    lemma_basics_keep_session(step.close_device(), Seq::empty(), Seq::empty());
}

/// Choosing a device, and asking to mount or eject one, keep a session well formed and its
/// language.
pub proof fn law_choosing_keeps_session(
    step: Step,
    index: int,
    mount_after_connect: bool,
    facilities: Facilities,
)
    requires
        step.state.well_formed(),
        step.state.locks.len() <= usize::MAX,
    ensures
        step.select_device(index, mount_after_connect, facilities).state.well_formed(),
        step.mount_chosen(index, facilities).state.well_formed(),
        step.eject_chosen(index).state.well_formed(),
        step.select_device(index, mount_after_connect, facilities).state.language
            == step.state.language,
        step.mount_chosen(index, facilities).state.language == step.state.language,
        step.eject_chosen(index).state.language == step.state.language,
{
    if 0 <= index < step.state.devices.len() {
        let device = step.state.devices[index];
        let location_id = device.location_id;
        lemma_basics_keep_session(step, Seq::empty(), Seq::empty());
        law_locations_have_their_own_lock(step.state.locks, location_id);
        if step.state.locations.current == Some(location_id) {
            lemma_mounting_keeps_session(step, device, facilities);
            lemma_mounting_keeps_session(
                step.act(ActionView::ClearOutlineSelection),
                device,
                facilities,
            );
        }
    }
}

/// What comes back from the background keeps a session well formed and its language,
/// whatever it is.
pub proof fn law_events_keep_session(
    step: Step,
    device: DeviceView,
    tree: TreeView,
    connections: Seq<DeviceEventView>,
    mounts: Seq<MountEventView>,
    facilities: Facilities,
)
    requires
        step.state.well_formed(),
        step.state.locks.len() <= usize::MAX,
        tree.well_formed(),
        connections.len() > 0 && connections.last().result is Ok ==> (
        connections.last().result->Ok_0).well_formed(),
    ensures
        step.device_connected(device, tree, facilities).state.well_formed(),
        step.device_events(connections, facilities).state.well_formed(),
        step.mount_events(mounts).state.well_formed(),
        step.device_connected(device, tree, facilities).state.language == step.state.language,
        step.device_events(connections, facilities).state.language == step.state.language,
        step.mount_events(mounts).state.language == step.state.language,
{
    law_locations_have_their_own_lock(step.state.locks, device.location_id);
    if step.state.locations.current == Some(device.location_id) {
        lemma_connecting_keeps_session(step, device, tree, facilities);
    }
    if connections.len() > 0 && step.state.locations.current == Some(
        connections.last().device.location_id,
    ) {
        match connections.last().result {
            Ok(listed) => lemma_connecting_keeps_session(
                step,
                connections.last().device,
                listed,
                facilities,
            ),
            Err(_) => {},
        }
    }
}

proof fn lemma_connecting_keeps_session(
    step: Step,
    device: DeviceView,
    tree: TreeView,
    facilities: Facilities,
)
    requires
        step.state.well_formed(),
        step.state.locks.len() <= usize::MAX,
        tree.well_formed(),
        step.state.locations.current == Some(device.location_id),
    ensures
        step.device_connected(device, tree, facilities).state.well_formed(),
{
    let open = step.with_state(
        StateView { connected: true, tree, pending_mount: None, ..step.state },
    ).act(ActionView::AdoptDevice).act(
        ActionView::ReloadOutline,
    ).update_detail().update_mount_controls();
    lemma_mounting_keeps_session(open, device, facilities);
}

impl Session {
    /// Takes in what a scan for devices found.
    pub fn devices_found(&mut self, found: Result<Vec<DeviceInfo>, String>) -> (r: Vec<Action>)
        ensures
            step_of(*final(self), r) == Step::start(old(self)@).devices_found(found_view(found)),
            old(self)@.well_formed() ==> final(self)@.well_formed(),
    {
        let mut actions: Vec<Action> = Vec::new();
        assert(step_of(*self, actions) =~= Step::start(self@));
        proof {
            if self@.well_formed() {
                law_scanning_keeps_session(Step::start(self@), found_view(found));
            }
        }
        self.apply_found(&mut actions, found);
        actions
    }

    /// Takes in what a scan for devices found, or the error that it ended with, which is shown
    /// in a text that it displays as: see [`Session::devices_found`].
    pub fn refresh_devices(&mut self, found: Result<Vec<DeviceInfo>, mtp_rs::Error>) -> (r: Vec<
        Action,
    >)
        ensures
            found matches Ok(devices) ==> step_of(*final(self), r) == Step::start(
                old(self)@,
            ).devices_found(Ok(devices.deep_view())),
            found matches Err(err) ==> exists|message: String|
                util::displays_as(&err, message) && step_of(*final(self), r)
                    == #[trigger] Step::start(old(self)@).devices_found(Err(message@)),
            old(self)@.well_formed() ==> final(self)@.well_formed(),
    {
        let found_text: Result<Vec<DeviceInfo>, String> = match found {
            Ok(devices) => Ok(devices),
            Err(err) => Err(err.to_string()),
        };
        self.devices_found(found_text)
    }

    fn mount_device(
        &mut self,
        actions: &mut Vec<Action>,
        device: DeviceInfo,
        facilities: Facilities,
    )
        ensures
            step_of(*final(self), *final(actions)) == step_of(
                *old(self),
                *old(actions),
            ).mount_device(device@, facilities),
    {
        self.unmount(actions);
        if !facilities.macfuse {
            tell(actions, self.language, Phrase::ConnectedTitle, Phrase::NoMacfuseHint);
            self.update_mount_controls(actions);
            return;
        }
        if !facilities.mount_events {
            tell(actions, self.language, Phrase::MountFailed, Phrase::NoMountChannel);
            return;
        }
        let location_id: u64 = device.location_id;
        let lock: usize = self.mtp_lock_for_device(location_id);
        tell(actions, self.language, Phrase::Mounting, Phrase::MountingHint);
        self.locations.mounting = Some(location_id);
        self.update_mount_controls(actions);
        emit(actions, Action::Mount { device, lock });
    }

    fn select_device(
        &mut self,
        actions: &mut Vec<Action>,
        index: usize,
        mount_after_connect: bool,
        facilities: Facilities,
    )
        ensures
            step_of(*final(self), *final(actions)) == step_of(
                *old(self),
                *old(actions),
            ).select_device(index as int, mount_after_connect, facilities),
    {
        if index >= self.devices.len() {
            return;
        }
        assert(self@.devices[index as int] == self.devices@[index as int]@);
        let device = self.devices[index].copied();
        let location_id: u64 = device.location_id;
        emit(actions, Action::ClearOutlineSelection);
        if self.locations.current == Some(location_id) {
            if mount_after_connect {
                if self.connected {
                    self.mount_device(actions, device, facilities);
                } else {
                    self.pending_mount = Some(location_id);
                }
            }
            self.update_detail(actions);
            self.update_mount_controls(actions);
            return;
        }
        let display = device.display();
        self.close_device(actions);
        let lock: usize = self.mtp_lock_for_device(location_id);
        self.locations.current = Some(location_id);
        self.lock = Some(lock);
        if mount_after_connect {
            self.pending_mount = Some(location_id);
        }
        self.browser_message(actions, Phrase::Connecting.text(self.language), display.as_str());
        self.update_detail(actions);
        self.update_mount_controls(actions);
        self.start_device_connect(actions, device, lock, facilities);
    }

    fn start_device_connect(
        &mut self,
        actions: &mut Vec<Action>,
        device: DeviceInfo,
        lock: usize,
        facilities: Facilities,
    )
        ensures
            step_of(*final(self), *final(actions)) == if facilities.device_events {
                step_of(*old(self), *old(actions)).update_mount_controls().act(
                    ActionView::Connect { device: device@, lock },
                )
            } else {
                step_of(*old(self), *old(actions)).browser_message(
                    Phrase::ConnectFailed.say(old(self)@.language),
                    Phrase::NoDeviceChannel.say(old(self)@.language),
                )
            },
    {
        if !facilities.device_events {
            self.browser_message(
                actions,
                Phrase::ConnectFailed.text(self.language),
                Phrase::NoDeviceChannel.text(self.language),
            );
            return;
        }
        self.update_mount_controls(actions);
        emit(actions, Action::Connect { device, lock });
    }
}

/// The requests that a running copy holds off.
#[derive(Clone, Copy, Debug, PartialEq, Eq, Structural)]
pub enum Guarded {
    Browse,
    Preview,
    Refresh,
    Select,
    Mount,
    Eject,
}

impl Guarded {
    /// What the user is told when the request is held off.
    pub open spec fn refusal(self, language: Language) -> Seq<char> {
        match self {
            Guarded::Browse => Phrase::CopyBusyBrowse.say(language),
            Guarded::Preview => Phrase::CopyBusyPreview.say(language),
            Guarded::Refresh => Phrase::CopyBusyRefresh.say(language),
            Guarded::Select => Phrase::CopyBusySelect.say(language),
            Guarded::Mount => Phrase::CopyBusyMount.say(language),
            Guarded::Eject => Phrase::CopyBusyEject.say(language),
        }
    }

    fn refusal_text(self, language: Language) -> (r: &'static str)
        ensures
            r@ == self.refusal(language),
    {
        match self {
            Guarded::Browse => Phrase::CopyBusyBrowse.text(language),
            Guarded::Preview => Phrase::CopyBusyPreview.text(language),
            Guarded::Refresh => Phrase::CopyBusyRefresh.text(language),
            Guarded::Select => Phrase::CopyBusySelect.text(language),
            Guarded::Mount => Phrase::CopyBusyMount.text(language),
            Guarded::Eject => Phrase::CopyBusyEject.text(language),
        }
    }
}

/// Answers a request that a running copy holds off; `None` where it may go ahead.
pub fn reject_mtp_while_copying(
    active_copies: usize,
    request: Guarded,
    language: Language,
) -> (r: Option<Action>)
    ensures
        r is Some == (active_copies > 0),
        r is Some ==> r->0.deep_view() == (ActionView::SetMessage {
            title: Phrase::CopyBusy.say(language),
            detail: request.refusal(language),
        }),
{
    if active_copies == 0 {
        return None;
    }
    Some(
        Action::SetMessage {
            title: Phrase::CopyBusy.text(language).to_string(),
            detail: request.refusal_text(language).to_string(),
        },
    )
}

impl Step {
    /// A request comes in, which a running copy holds off.
    pub open spec fn guarded(self, active_copies: usize, request: Guarded, allowed: Step) -> Step {
        if active_copies > 0 {
            self.message(
                Phrase::CopyBusy.say(self.state.language),
                request.refusal(self.state.language),
            )
        } else {
            allowed
        }
    }

    /// A device button is pressed.
    pub open spec fn pressed(
        self,
        active_copies: usize,
        request: Guarded,
        tag: isize,
        facilities: Facilities,
    ) -> Step {
        self.guarded(
            active_copies,
            request,
            match status::tagged_index(tag) {
                Some(index) => match request {
                    Guarded::Select => self.select_device(index as int, false, facilities),
                    Guarded::Mount => self.mount_chosen(index as int, facilities),
                    Guarded::Eject => self.eject_chosen(index as int),
                    _ => self,
                },
                None => self,
            },
        )
    }
}

/// While a copy runs, a press on a device button changes nothing and is answered with one
/// message.
pub proof fn law_copying_holds_requests_off(
    step: Step,
    active_copies: usize,
    request: Guarded,
    tag: isize,
    facilities: Facilities,
)
    requires
        active_copies > 0,
    ensures
        step.pressed(active_copies, request, tag, facilities).state == step.state,
        step.pressed(active_copies, request, tag, facilities).actions == step.actions.push(
            ActionView::SetMessage {
                title: Phrase::CopyBusy.say(step.state.language),
                detail: request.refusal(step.state.language),
            },
        ),
{
}

/// Ejecting leaves the browser, the open device and the device list as they were.
pub proof fn law_ejecting_keeps_the_browser(step: Step, index: int)
    ensures
        step.eject_chosen(index).state.tree == step.state.tree,
        step.eject_chosen(index).state.connected == step.state.connected,
        step.eject_chosen(index).state.locations.current == step.state.locations.current,
        step.eject_chosen(index).state.lock == step.state.lock,
        step.eject_chosen(index).state.devices == step.state.devices,
{
}

/// A machine without macFUSE mounts nothing: the browser stays, and no mount begins.
pub proof fn law_no_macfuse_no_mount(step: Step, device: DeviceView, facilities: Facilities)
    requires
        !facilities.macfuse,
    ensures
        step.mount_device(device, facilities).state.tree == step.state.tree,
        step.mount_device(device, facilities).state.connected == step.state.connected,
        step.mount_device(device, facilities).state.mount is None,
        step.mount_device(device, facilities).state.locations.mounting
            == step.state.locations.mounting,
        forall|i: int|
            step.actions.len() <= i < step.mount_device(device, facilities).actions.len()
                ==> !((#[trigger] step.mount_device(device, facilities).actions[i]) is Mount),
{
}

/// Nothing is mounted unless it is asked for: choosing a device starts no mount, and a
/// device that connects is mounted only if a mount was asked for meanwhile.
pub proof fn law_mounting_is_asked_for(
    step: Step,
    index: int,
    device: DeviceView,
    tree: TreeView,
    facilities: Facilities,
)
    requires
        step.state.pending_mount is None,
    ensures
        ({
            let chosen = step.select_device(index, false, facilities);
            let connected = step.device_connected(device, tree, facilities);
            let n = step.actions.len() as int;
            &&& chosen.state.pending_mount is None
            &&& forall|i: int| n <= i < chosen.actions.len() ==> !((#[trigger] chosen.actions[i])
                is Mount)
            &&& connected.state.mount == step.state.mount
            &&& connected.state.locations.mounting == step.state.locations.mounting
            &&& forall|i: int|
                n <= i < connected.actions.len() ==> !((#[trigger] connected.actions[i]) is Mount)
        }),
{
}

/// A device that is asked to mount before it is open is mounted as soon as it connects, on
/// a machine that can mount: one that has to be connected first, and one that is connecting
/// already.
pub proof fn law_pending_mounts_begin(
    step: Step,
    index: int,
    tree: TreeView,
    facilities: Facilities,
)
    requires
        0 <= index < step.state.devices.len(),
        step.state.locations.current != Some(step.state.devices[index].location_id)
            || !step.state.connected,
        step.state.locations.mounted != Some(step.state.devices[index].location_id),
        step.state.locations.mounting != Some(step.state.devices[index].location_id),
        facilities.macfuse,
        facilities.mount_events,
    ensures
        ({
            let device = step.state.devices[index];
            let location_id = device.location_id;
            let lock = lock_of(step.state.locks, location_id);
            let asked = step.mount_chosen(index, facilities);
            let connected = asked.device_connected(device, tree, facilities);
            let connecting = step.state.locations.current == Some(location_id);
            &&& asked.state.pending_mount == Some(location_id)
            &&& !connecting && facilities.device_events ==> asked.actions.last() == (
            ActionView::Connect { device, lock })
            &&& connected.actions.last() == (ActionView::Mount { device, lock })
            &&& connected.state.locations.mounting == Some(location_id)
            &&& connected.state.pending_mount is None
        }),
{
}

/// Asking to mount a device that is mounted or being mounted starts nothing: the answer is
/// one message.
pub proof fn law_mounts_start_once(step: Step, index: int, facilities: Facilities)
    requires
        0 <= index < step.state.devices.len(),
        step.state.locations.mounted == Some(step.state.devices[index].location_id)
            || step.state.locations.mounting == Some(step.state.devices[index].location_id),
    ensures
        step.mount_chosen(index, facilities).state == step.state,
        step.mount_chosen(index, facilities).actions.len() == step.actions.len() + 1,
        step.mount_chosen(index, facilities).actions.last() is SetMessage,
{
}

/// A mount that finishes for the current device is kept, that very volume, and no mount is
/// under way any more; in every other case the session's volume stays as it was.
pub proof fn law_finished_mounts_are_kept(step: Step, mounts: Seq<MountEventView>)
    requires
        mounts.len() > 0,
    ensures
        ({
            let after = step.mount_events(mounts).state;
            let ours = step.state.locations.current == Some(mounts.last().location_id);
            &&& ours && mounts.last().result is Ok ==> after.mount == Some(
                mounts.last().result->Ok_0,
            ) && after.locations.mounted == step.state.locations.current
            &&& !(ours && mounts.last().result is Ok) ==> after.mount == step.state.mount
                && after.locations.mounted == step.state.locations.mounted
            &&& ours ==> after.locations.mounting is None
        }),
{
}

/// A mount that finishes after the user moved on to another device is dropped: the
/// session's own volume stays.
pub proof fn law_late_mounts_are_dropped(step: Step, mounts: Seq<MountEventView>)
    requires
        mounts.len() > 0,
        step.state.locations.current != Some(mounts.last().location_id),
    ensures
        step.mount_events(mounts).state.mount == step.state.mount,
        step.mount_events(mounts).state.locations.mounted == step.state.locations.mounted,
        mounts.last().result is Ok ==> step.mount_events(mounts).actions.contains(
            ActionView::DiscardMount,
        ),
{
    let discarded = step.act(ActionView::DiscardMount);
    assert(discarded.actions[step.actions.len() as int] == ActionView::DiscardMount);
    if mounts.last().result is Ok {
        assert(step.mount_events(mounts).actions[step.actions.len() as int]
            == ActionView::DiscardMount);
    }
}

/// Closing ejects the volume before it closes the device's session, and leaves nothing open.
pub proof fn law_closing_ejects_first(step: Step)
    ensures
        step.close_device().state.mount is None,
        !step.close_device().state.connected,
        step.close_device().state.locations == (Locations {
            current: None,
            mounted: None,
            mounting: None,
        }),
        step.state.mount is Some && step.state.connected ==> {
            let n = step.actions.len() as int;
            &&& step.close_device().actions[n] == (ActionView::EjectMount {
                mountpoint: step.state.mount->0.mountpoint,
            })
            &&& step.close_device().actions[n + 1] == (ActionView::ReleaseDevice {
                lock: step.state.lock,
            })
        },
{
}

impl Session {
    /// Chooses the device at a place in the list, and mounts it as soon as it is open if
    /// that is asked for.
    pub fn select_device_at_index(
        &mut self,
        index: usize,
        mount_after_connect: bool,
        facilities: Facilities,
    ) -> (r: Vec<Action>)
        ensures
            step_of(*final(self), r) == Step::start(old(self)@).select_device(
                index as int,
                mount_after_connect,
                facilities,
            ),
            old(self)@.well_formed() ==> final(self)@.well_formed(),
    {
        let mut actions: Vec<Action> = Vec::new();
        assert(step_of(*self, actions) =~= Step::start(self@));
        proof {
            self.lemma_choosing(index, mount_after_connect, facilities);
        }
        self.select_device(&mut actions, index, mount_after_connect, facilities);
        actions
    }

    proof fn lemma_choosing(&self, index: usize, mount_after_connect: bool, facilities: Facilities)
        ensures
            self@.well_formed() ==> {
                let step = Step::start(self@);
                &&& step.select_device(
                    index as int,
                    mount_after_connect,
                    facilities,
                ).state.well_formed()
                &&& step.mount_chosen(index as int, facilities).state.well_formed()
                &&& step.eject_chosen(index as int).state.well_formed()
            },
    {
        assert(self.locks.len() == self.locks@.len());
        if self@.well_formed() {
            law_choosing_keeps_session(
                Step::start(self@),
                index as int,
                mount_after_connect,
                facilities,
            );
        }
    }

    fn apply_connected(
        &mut self,
        actions: &mut Vec<Action>,
        device: DeviceInfo,
        tree: NodeTree,
        facilities: Facilities,
    )
        ensures
            step_of(*final(self), *final(actions)) == step_of(
                *old(self),
                *old(actions),
            ).device_connected(device@, tree@, facilities),
    {
        let location_id: u64 = device.location_id;
        if self.locations.current != Some(location_id) {
            let lock: usize = self.mtp_lock_for_device(location_id);
            emit(actions, Action::CloseStray { lock });
            return;
        }
        let should_mount: bool = self.pending_mount == Some(location_id);
        self.connected = true;
        self.tree = tree;
        emit(actions, Action::AdoptDevice);
        emit(actions, Action::ReloadOutline);
        self.update_detail(actions);
        self.update_mount_controls(actions);
        if should_mount {
            self.pending_mount = None;
            self.mount_device(actions, device, facilities);
            return;
        }
        tell(actions, self.language, Phrase::ConnectedTitle, Phrase::ConnectedHint);
        self.update_detail(actions);
    }

    /// Takes in a device that has connected, with the tree of its storages. A device that
    /// is no longer the current one is closed again.
    pub fn apply_connected_device(
        &mut self,
        device: DeviceInfo,
        tree: NodeTree,
        facilities: Facilities,
    ) -> (r: Vec<Action>)
        ensures
            step_of(*final(self), r) == Step::start(old(self)@).device_connected(
                device@,
                tree@,
                facilities,
            ),
            old(self)@.well_formed() && tree@.well_formed() ==> final(self)@.well_formed(),
    {
        let mut actions: Vec<Action> = Vec::new();
        assert(step_of(*self, actions) =~= Step::start(self@));
        proof {
            assert(self.locks.len() == self.locks@.len());
            if self@.well_formed() && tree@.well_formed() {
                law_events_keep_session(
                    Step::start(self@),
                    device@,
                    tree@,
                    Seq::empty(),
                    Seq::empty(),
                    facilities,
                );
            }
        }
        self.apply_connected(&mut actions, device, tree, facilities);
        actions
    }

    /// Takes in the connections that have finished in the background. Only the last one
    /// counts, and only for the current device.
    pub fn drain_device_events(&mut self, events: Vec<DeviceEvent>, facilities: Facilities) -> (r:
        Vec<Action>)
        ensures
            step_of(*final(self), r) == Step::start(old(self)@).device_events(
                events.deep_view(),
                facilities,
            ),
            old(self)@.well_formed() && (forall|i: int|
                0 <= i < events@.len() && (#[trigger] events@[i]).result is Ok ==> (
                events@[i].result->Ok_0)@.well_formed()) ==> final(self)@.well_formed(),
    {
        let mut actions: Vec<Action> = Vec::new();
        assert(step_of(*self, actions) =~= Step::start(self@));
        proof {
            assert(self.locks.len() == self.locks@.len());
            if self@.well_formed() && (forall|i: int|
                0 <= i < events@.len() && (#[trigger] events@[i]).result is Ok ==> (
                events@[i].result->Ok_0)@.well_formed()) {
                if events@.len() > 0 {
                    assert(events.deep_view().last() == events@.last().deep_view());
                    assert(events@[events@.len() - 1] == events@.last());
                }
                law_events_keep_session(
                    Step::start(self@),
                    events.deep_view().last().device,
                    TreeView::empty(),
                    events.deep_view(),
                    Seq::empty(),
                    facilities,
                );
            }
        }
        let mut events = events;
        let ghost views = events.deep_view();
        assert(views.len() == events@.len());
        if let Some(event) = events.pop() {
            assert(views.last() == event.deep_view());
            if self.locations.current == Some(event.device.location_id) {
                match event.result {
                    Ok(tree) => {
                        self.apply_connected(&mut actions, event.device, tree, facilities);
                    },
                    Err(message) => {
                        self.connected = false;
                        self.locations.current = None;
                        self.lock = None;
                        emit(&mut actions, Action::ForgetDevice);
                        self.update_mount_controls(&mut actions);
                        self.browser_message(
                            &mut actions,
                            Phrase::ConnectFailed.text(self.language),
                            message.as_str(),
                        );
                    },
                }
            }
        }
        actions
    }
}

impl Session {
    /// Takes in the mounts that have finished in the background. Only the last one counts.
    pub fn drain_mount_events(&mut self, events: Vec<MountEvent>) -> (r: Vec<Action>)
        ensures
            step_of(*final(self), r) == Step::start(old(self)@).mount_events(events.deep_view()),
            old(self)@.well_formed() ==> final(self)@.well_formed(),
    {
        let mut actions: Vec<Action> = Vec::new();
        assert(step_of(*self, actions) =~= Step::start(self@));
        let mut events = events;
        let ghost views = events.deep_view();
        assert(views.len() == events@.len());
        if let Some(event) = events.pop() {
            assert(views.last() == event.deep_view());
            if self.locations.current != Some(event.location_id) {
                if event.result.is_ok() {
                    emit(&mut actions, Action::DiscardMount);
                }
                if self.locations.mounting == Some(event.location_id) {
                    self.locations.mounting = None;
                    self.update_mount_controls(&mut actions);
                }
            } else {
                self.locations.mounting = None;
                match event.result {
                    Ok(handle) => {
                        let mut detail = Phrase::MountedAtLead.text(self.language).to_string();
                        detail.append(handle.mountpoint());
                        detail.append(Phrase::MountedAtTail.text(self.language));
                        self.mount = Some(handle);
                        self.locations.mounted = Some(event.location_id);
                        emit(&mut actions, Action::AdoptMount);
                        self.update_mount_controls(&mut actions);
                        set_message(
                            &mut actions,
                            Phrase::Mounted.text(self.language),
                            detail.as_str(),
                        );
                    },
                    Err(message) => {
                        let mut detail = message;
                        detail.append(Phrase::FinderMountFailedTail.text(self.language));
                        self.update_mount_controls(&mut actions);
                        set_message(
                            &mut actions,
                            Phrase::FinderMountFailed.text(self.language),
                            detail.as_str(),
                        );
                    },
                }
            }
        }
        actions
    }

    fn mount_chosen(&mut self, actions: &mut Vec<Action>, index: usize, facilities: Facilities)
        ensures
            step_of(*final(self), *final(actions)) == step_of(
                *old(self),
                *old(actions),
            ).mount_chosen(index as int, facilities),
    {
        if index >= self.devices.len() {
            return;
        }
        assert(self@.devices[index as int] == self.devices@[index as int]@);
        let location_id: u64 = self.devices[index].location_id;
        if self.locations.mounted == Some(location_id) {
            tell(actions, self.language, Phrase::AlreadyMounted, Phrase::AlreadyMountedHint);
        } else if self.locations.mounting == Some(location_id) {
            tell(actions, self.language, Phrase::Mounting, Phrase::MountingWait);
        } else if self.locations.current == Some(location_id) && self.connected {
            let device = self.devices[index].copied();
            self.mount_device(actions, device, facilities);
        } else {
            self.select_device(actions, index, true, facilities);
        }
    }

    fn eject_chosen(&mut self, actions: &mut Vec<Action>, index: usize)
        ensures
            step_of(*final(self), *final(actions)) == step_of(
                *old(self),
                *old(actions),
            ).eject_chosen(index as int),
    {
        if index >= self.devices.len() {
            return;
        }
        assert(self@.devices[index as int] == self.devices@[index as int]@);
        if self.locations.mounted != Some(self.devices[index].location_id) {
            tell(actions, self.language, Phrase::NotMounted, Phrase::NotMountedHint);
            return;
        }
        self.unmount(actions);
        self.update_mount_controls(actions);
        tell(actions, self.language, Phrase::Ejected, Phrase::EjectedHint);
    }

    /// Mounts the device at a place in the list, connecting it first if need be.
    pub fn mount_device_at_index(&mut self, index: usize, facilities: Facilities) -> (r: Vec<
        Action,
    >)
        ensures
            step_of(*final(self), r) == Step::start(old(self)@).mount_chosen(
                index as int,
                facilities,
            ),
            old(self)@.well_formed() ==> final(self)@.well_formed(),
    {
        let mut actions: Vec<Action> = Vec::new();
        assert(step_of(*self, actions) =~= Step::start(self@));
        proof {
            self.lemma_choosing(index, true, facilities);
        }
        self.mount_chosen(&mut actions, index, facilities);
        actions
    }

    /// Ejects the device at a place in the list.
    pub fn eject_device_at_index(&mut self, index: usize) -> (r: Vec<Action>)
        ensures
            step_of(*final(self), r) == Step::start(old(self)@).eject_chosen(index as int),
            old(self)@.well_formed() ==> final(self)@.well_formed(),
    {
        let mut actions: Vec<Action> = Vec::new();
        assert(step_of(*self, actions) =~= Step::start(self@));
        self.eject_chosen(&mut actions, index);
        actions
    }

    fn press(
        &mut self,
        active_copies: usize,
        request: Guarded,
        tag: isize,
        facilities: Facilities,
    ) -> (r: Vec<Action>)
        ensures
            step_of(*final(self), r) == Step::start(old(self)@).pressed(
                active_copies,
                request,
                tag,
                facilities,
            ),
            old(self)@.well_formed() ==> final(self)@.well_formed(),
    {
        let mut actions: Vec<Action> = Vec::new();
        assert(step_of(*self, actions) =~= Step::start(self@));
        if let Some(refusal) = reject_mtp_while_copying(active_copies, request, self.language) {
            emit(&mut actions, refusal);
            return actions;
        }
        if let Some(index) = sender_device_index(tag) {
            proof {
                self.lemma_choosing(index, false, facilities);
            }
            match request {
                Guarded::Select => self.select_device(&mut actions, index, false, facilities),
                Guarded::Mount => self.mount_chosen(&mut actions, index, facilities),
                Guarded::Eject => self.eject_chosen(&mut actions, index),
                _ => {},
            }
        }
        actions
    }

    /// A press on a device's row chooses the device.
    pub fn select_device_action(
        &mut self,
        active_copies: usize,
        tag: isize,
        facilities: Facilities,
    ) -> (r: Vec<Action>)
        ensures
            step_of(*final(self), r) == Step::start(old(self)@).pressed(
                active_copies,
                Guarded::Select,
                tag,
                facilities,
            ),
            old(self)@.well_formed() ==> final(self)@.well_formed(),
    {
        self.press(active_copies, Guarded::Select, tag, facilities)
    }

    /// A press on the mount button mounts the device.
    pub fn mount_device_action(
        &mut self,
        active_copies: usize,
        tag: isize,
        facilities: Facilities,
    ) -> (r: Vec<Action>)
        ensures
            step_of(*final(self), r) == Step::start(old(self)@).pressed(
                active_copies,
                Guarded::Mount,
                tag,
                facilities,
            ),
            old(self)@.well_formed() ==> final(self)@.well_formed(),
    {
        self.press(active_copies, Guarded::Mount, tag, facilities)
    }

    /// A press on the eject button ejects the device.
    pub fn eject_device_action(
        &mut self,
        active_copies: usize,
        tag: isize,
        facilities: Facilities,
    ) -> (r: Vec<Action>)
        ensures
            step_of(*final(self), r) == Step::start(old(self)@).pressed(
                active_copies,
                Guarded::Eject,
                tag,
                facilities,
            ),
            old(self)@.well_formed() ==> final(self)@.well_formed(),
    {
        self.press(active_copies, Guarded::Eject, tag, facilities)
    }
}

/// When the current device connects, it is open and the browser shows exactly the tree that
/// came with the connection; the open device is taken over, and the rest of the session stays.
/// A device that is not the current one any more is closed again, and changes nothing that the
/// user sees.
pub proof fn law_connected_devices_show_their_tree(
    step: Step,
    device: DeviceView,
    tree: TreeView,
    facilities: Facilities,
)
    ensures
        ({
            let after = step.device_connected(device, tree, facilities);
            let n = step.actions.len() as int;
            let ours = step.state.locations.current == Some(device.location_id);
            &&& ours ==> after.state.tree == tree
            &&& ours ==> after.state.connected
            &&& ours ==> after.state.locations.current == step.state.locations.current
            &&& ours ==> after.state.lock == step.state.lock
            &&& ours ==> after.actions[n] == ActionView::AdoptDevice
            &&& ours ==> after.actions[n + 1] == ActionView::ReloadOutline
            &&& after.state.devices == step.state.devices
            &&& after.state.copy_error == step.state.copy_error
            &&& !ours ==> after.actions == step.actions.push(
                ActionView::CloseStray { lock: lock_of(step.state.locks, device.location_id) },
            )
            &&& !ours ==> after.state.tree == step.state.tree && after.state.connected
                == step.state.connected && after.state.locations == step.state.locations
                && after.state.mount == step.state.mount && after.state.pending_mount
                == step.state.pending_mount && after.state.lock == step.state.lock
        }),
{
}

/// When the current device connects with its storages, every one of them stands at the top of
/// the browser, in the device's order and under its own name, and can be opened.
pub proof fn law_connected_devices_show_every_storage(
    step: Step,
    device: DeviceView,
    storages: Seq<StorageView>,
    facilities: Facilities,
    i: int,
)
    requires
        step.state.locations.current == Some(device.location_id),
        0 <= i < storages.len() <= usize::MAX,
    ensures
        ({
            let tree = TreeView::of_storages(storages, step.state.language);
            let shown = step.device_connected(device, tree, facilities).state.tree;
            &&& shown.root_children.len() == storages.len()
            &&& shown.root_children[i] == i
            &&& shown.nodes.len() == storages.len()
            &&& shown.nodes[i].name == storages[i].description
            &&& shown.listing_request(i) == Some((storages[i].storage_id, None::<u32>))
        }),
{
    tree::law_storages_stand_at_the_top(storages, step.state.language, i);
}

/// Connections that finish in the background: the last one counts, and only for the current
/// device. One that failed lets go of the device, and the browser says why.
pub proof fn law_finished_connections_count(
    step: Step,
    events: Seq<DeviceEventView>,
    facilities: Facilities,
)
    requires
        events.len() > 0,
    ensures
        ({
            let last = events.last();
            let after = step.device_events(events, facilities);
            let ours = step.state.locations.current == Some(last.device.location_id);
            &&& !ours ==> after == step
            &&& ours && last.result is Ok ==> after.state.tree == last.result->Ok_0
                && after.state.connected && after.state.locations.current
                == step.state.locations.current
            &&& ours && last.result is Err ==> {
                &&& !after.state.connected
                &&& after.state.locations.current is None
                &&& after.state.lock is None
                &&& after.state.tree.nodes.len() == 1
                &&& after.state.tree.nodes[0].name == Phrase::ConnectFailed.say(
                    step.state.language,
                )
                &&& after.state.tree.nodes[0].note == last.result->Err_0
                &&& after.state.devices == step.state.devices
                &&& after.actions.contains(ActionView::ForgetDevice)
                &&& after.actions.last() == (ActionView::SetMessage {
                    title: Phrase::ConnectFailed.say(step.state.language),
                    detail: last.result->Err_0,
                })
            }
        }),
        step.device_events(Seq::empty(), facilities) == step,
{
    if step.state.locations.current == Some(events.last().device.location_id)
        && events.last().result is Err {
        assert(step.device_events(events, facilities).actions[step.actions.len() as int]
            == ActionView::ForgetDevice);
    }
}

/// After a scan the device list is what the scan found, whole and in order. The open device,
/// its volume and the browser stay as they were while the device is still there.
pub proof fn law_scans_list_what_they_found(step: Step, found: Seq<DeviceView>, i: int)
    requires
        step.state.locations.current is None || (0 <= i < found.len() && found[i].location_id
            == step.state.locations.current->0),
    ensures
        ({
            let after = step.devices_found(Ok(found)).state;
            &&& after.devices == found
            &&& after.connected == step.state.connected
            &&& after.locations == step.state.locations
            &&& after.pending_mount == step.state.pending_mount
            &&& after.mount == step.state.mount
            &&& after.lock == step.state.lock
            &&& after.locks == step.state.locks
            &&& after.tree == step.state.tree
            &&& after.copy_error == step.state.copy_error
        }),
{
}

/// A scan that does not find the current device any more lets go of it: its volume is ejected,
/// its session closed, and the browser is empty.
pub proof fn law_scans_let_go_of_lost_devices(step: Step, found: Seq<DeviceView>)
    requires
        step.state.locations.current is Some,
        forall|i: int|
            0 <= i < found.len() ==> (#[trigger] found[i]).location_id
                != step.state.locations.current->0,
    ensures
        ({
            let after = step.devices_found(Ok(found));
            let n = step.actions.len() as int;
            &&& after.state.devices == found
            &&& !after.state.connected
            &&& after.state.locations.current is None
            &&& after.state.locations.mounted is None
            &&& after.state.locations.mounting is None
            &&& after.state.pending_mount is None
            &&& after.state.mount is None
            &&& after.state.lock is None
            &&& after.state.tree.nodes.len() == 0
            &&& after.state.tree.root_children.len() == 0
            &&& step.state.mount is Some ==> after.actions[n] == (ActionView::EjectMount {
                mountpoint: step.state.mount->0.mountpoint,
            })
            &&& step.state.mount is None && step.state.connected ==> after.actions[n] == (
            ActionView::ReleaseDevice { lock: step.state.lock })
        }),
{
    assert(!status::has_location(found, step.state.locations.current->0));
}

/// A scan that failed empties the device list and says why; everything else stays. A scan that
/// found nothing says so, and one that found devices asks to choose one where none is chosen.
pub proof fn law_scans_tell_how_they_went(
    step: Step,
    message: Seq<char>,
    found: Seq<DeviceView>,
)
    ensures
        ({
            let failed = step.devices_found(Err(message));
            let n = step.actions.len() as int;
            let words = step.state.language;
            &&& failed.state.devices.len() == 0
            &&& failed.state.connected == step.state.connected
            &&& failed.state.locations == step.state.locations
            &&& failed.state.tree == step.state.tree
            &&& failed.state.mount == step.state.mount
            &&& failed.state.lock == step.state.lock
            &&& failed.actions[n] == (ActionView::SetMessage {
                title: Phrase::ScanFailed.say(words),
                detail: message,
            })
            &&& step.state.locations.current is None && found.len() == 0 ==> step.devices_found(
                Ok(found),
            ).actions[n] == (ActionView::SetMessage {
                title: Phrase::NoDevices.say(words),
                detail: Phrase::NoDevicesHint.say(words),
            })
            &&& step.state.locations.current is None && found.len() > 0 ==> step.devices_found(
                Ok(found),
            ).actions[n] == (ActionView::SetMessage {
                title: Phrase::ChooseDevice.say(words),
                detail: Phrase::ChooseDeviceFromList.say(words),
            })
            &&& step.devices_found(Ok(found)).actions.last() is UpdateMountControls
            &&& failed.actions.last() == (ActionView::UpdateMountControls {
                at: step.state.locations,
            })
        }),
{
}

/// Choosing another device makes that very device the current one, under its own lock, and
/// connects to it; the browser says so. What concerned the device before is let go of.
pub proof fn law_chosen_devices_become_current(
    step: Step,
    index: int,
    mount_after_connect: bool,
    facilities: Facilities,
)
    requires
        0 <= index < step.state.devices.len(),
        step.state.locations.current != Some(step.state.devices[index].location_id),
    ensures
        ({
            let device = step.state.devices[index];
            let after = step.select_device(index, mount_after_connect, facilities);
            let lock = lock_of(step.state.locks, device.location_id);
            &&& after.state.locations.current == Some(device.location_id)
            &&& after.state.locations.mounted is None
            &&& after.state.locations.mounting is None
            &&& after.state.mount is None
            &&& !after.state.connected
            &&& after.state.lock == Some(lock)
            &&& after.state.locks == step.state.locks.insert(device.location_id, lock)
            &&& after.state.devices == step.state.devices
            &&& mount_after_connect ==> after.state.pending_mount == Some(device.location_id)
            &&& !mount_after_connect ==> after.state.pending_mount is None
            &&& after.state.tree.nodes.len() == 1
            &&& facilities.device_events ==> after.state.tree.nodes[0].name
                == Phrase::Connecting.say(step.state.language)
            &&& facilities.device_events ==> after.state.tree.nodes[0].note == device.display()
            &&& facilities.device_events ==> after.actions.last() == (ActionView::Connect {
                device,
                lock,
            })
            &&& !facilities.device_events ==> after.state.tree.nodes[0].name
                == Phrase::ConnectFailed.say(step.state.language)
        }),
{
}

/// Choosing the device that is current already, or none, leaves the open device and the browser
/// alone.
pub proof fn law_choosing_again_changes_nothing(
    step: Step,
    index: int,
    facilities: Facilities,
)
    ensures
        !(0 <= index < step.state.devices.len()) ==> step.select_device(index, false, facilities)
            == step && step.mount_chosen(index, facilities) == step && step.eject_chosen(index)
            == step,
        0 <= index < step.state.devices.len() && step.state.locations.current == Some(
            step.state.devices[index].location_id,
        ) ==> step.select_device(index, false, facilities).state == step.state,
{
}

/// Letting go of the current device keeps the device list, what the browser shows, and the
/// locks.
pub proof fn law_closing_keeps_the_list(step: Step)
    ensures
        ({
            let after = step.close_device().state;
            &&& after.devices == step.state.devices
            &&& after.tree == step.state.tree
            &&& after.locks == step.state.locks
            &&& after.copy_error == step.state.copy_error
            &&& after.lock is None
            &&& after.pending_mount is None
        }),
        step.state.mount is None && step.state.connected ==> step.close_device().actions[
            step.actions.len() as int
        ] == (ActionView::ReleaseDevice { lock: step.state.lock }),
        !step.state.connected && step.state.mount is None ==> step.close_device().actions.len()
            == step.actions.len() + 1,
{
}

/// Asking to mount the open device begins to mount that very device, under its own lock, where
/// the machine can mount; a volume that was mounted is ejected first. The open device and the
/// browser stay.
pub proof fn law_open_devices_are_mounted(step: Step, index: int, facilities: Facilities)
    requires
        0 <= index < step.state.devices.len(),
        step.state.connected,
        step.state.locations.current == Some(step.state.devices[index].location_id),
        step.state.locations.mounted != Some(step.state.devices[index].location_id),
        step.state.locations.mounting != Some(step.state.devices[index].location_id),
    ensures
        ({
            let device = step.state.devices[index];
            let after = step.mount_chosen(index, facilities);
            let can_mount = facilities.macfuse && facilities.mount_events;
            let n = step.actions.len() as int;
            &&& can_mount ==> after.actions.last() == (ActionView::Mount {
                device,
                lock: lock_of(step.state.locks, device.location_id),
            })
            &&& can_mount ==> after.state.locations.mounting == Some(device.location_id)
            &&& !can_mount ==> after.state.locations.mounting == step.state.locations.mounting
            &&& after.state.mount is None
            &&& step.state.mount is Some ==> after.actions[n] == (ActionView::EjectMount {
                mountpoint: step.state.mount->0.mountpoint,
            })
            &&& after.state.tree == step.state.tree
            &&& after.state.connected
            &&& after.state.locations.current == step.state.locations.current
            &&& after.state.devices == step.state.devices
            &&& after.state.lock == step.state.lock
        }),
{
}

/// Ejecting the mounted device ejects its volume by its mount point, and it does not count as
/// mounted any more. A device that is not mounted is not ejected, and the user is told.
pub proof fn law_ejecting_ejects_the_volume(step: Step, index: int)
    requires
        0 <= index < step.state.devices.len(),
    ensures
        ({
            let location_id = step.state.devices[index].location_id;
            let after = step.eject_chosen(index);
            let n = step.actions.len() as int;
            let mounted = step.state.locations.mounted == Some(location_id);
            &&& mounted && step.state.mount is Some ==> after.actions[n] == (
            ActionView::EjectMount { mountpoint: step.state.mount->0.mountpoint })
            &&& mounted ==> after.state.mount is None && after.state.locations.mounted is None
            &&& mounted ==> after.state.locations.mounting == step.state.locations.mounting
            &&& mounted ==> after.actions.last() == (ActionView::SetMessage {
                title: Phrase::Ejected.say(step.state.language),
                detail: Phrase::EjectedHint.say(step.state.language),
            })
            &&& !mounted ==> after.state == step.state
            &&& !mounted ==> after.actions == step.actions.push(
                ActionView::SetMessage {
                    title: Phrase::NotMounted.say(step.state.language),
                    detail: Phrase::NotMountedHint.say(step.state.language),
                },
            )
        }),
{
}

/// Mounts that finish in the background leave the browser, the open device and the device list
/// as they were, and the user is told how it went: where the volume is mounted, or why it is
/// not.
pub proof fn law_finished_mounts_are_told(step: Step, mounts: Seq<MountEventView>)
    requires
        mounts.len() > 0,
    ensures
        ({
            let after = step.mount_events(mounts);
            let last = mounts.last();
            let ours = step.state.locations.current == Some(last.location_id);
            let words = step.state.language;
            &&& after.state.tree == step.state.tree
            &&& after.state.connected == step.state.connected
            &&& after.state.devices == step.state.devices
            &&& after.state.lock == step.state.lock
            &&& after.state.locations.current == step.state.locations.current
            &&& after.state.pending_mount == step.state.pending_mount
            &&& ours && last.result is Ok ==> after.actions.last() == (ActionView::SetMessage {
                title: Phrase::Mounted.say(words),
                detail: Phrase::MountedAtLead.say(words) + last.result->Ok_0.mountpoint
                    + Phrase::MountedAtTail.say(words),
            })
            &&& ours && last.result is Ok ==> after.actions[step.actions.len() as int]
                == ActionView::AdoptMount
            &&& ours && last.result is Err ==> after.actions.last() == (ActionView::SetMessage {
                title: Phrase::FinderMountFailed.say(words),
                detail: last.result->Err_0 + Phrase::FinderMountFailedTail.say(words),
            })
            &&& !ours && step.state.locations.mounting == Some(last.location_id)
                ==> after.state.locations.mounting is None
            &&& !ours && step.state.locations.mounting != Some(last.location_id)
                ==> after.state.locations.mounting == step.state.locations.mounting
        }),
        step.mount_events(Seq::empty()) == step,
{
}

/// A press on a button acts on the device that its tag counts, and does what the button is
/// for; a button without a device does nothing.
pub proof fn law_presses_act_on_their_device(
    step: Step,
    index: usize,
    tag: isize,
    facilities: Facilities,
)
    requires
        index < isize::MAX,
    ensures
        tag == index + 1 ==> step.pressed(0, Guarded::Select, tag, facilities)
            == step.select_device(index as int, false, facilities),
        tag == index + 1 ==> step.pressed(0, Guarded::Mount, tag, facilities) == step.mount_chosen(
            index as int,
            facilities,
        ),
        tag == index + 1 ==> step.pressed(0, Guarded::Eject, tag, facilities) == step.eject_chosen(
            index as int,
        ),
        tag <= 0 ==> step.pressed(0, Guarded::Select, tag, facilities) == step && step.pressed(
            0,
            Guarded::Mount,
            tag,
            facilities,
        ) == step && step.pressed(0, Guarded::Eject, tag, facilities) == step,
{
}

/// What is held off by a copy is told in words of its own.
pub proof fn law_refusals_have_their_own_words(language: Language)
    ensures
        Guarded::Browse.refusal(language) == Phrase::CopyBusyBrowse.say(language),
        Guarded::Preview.refusal(language) == Phrase::CopyBusyPreview.say(language),
        Guarded::Refresh.refusal(language) == Phrase::CopyBusyRefresh.say(language),
        Guarded::Select.refusal(language) == Phrase::CopyBusySelect.say(language),
        Guarded::Mount.refusal(language) == Phrase::CopyBusyMount.say(language),
        Guarded::Eject.refusal(language) == Phrase::CopyBusyEject.say(language),
{
}

/// A session begins with nothing: no device is listed, open, mounted or being mounted, and the
/// browser is empty.
pub proof fn law_sessions_begin_with_nothing(language: Language)
    ensures
        ({
            let state = StateView::initial(language);
            &&& state.devices.len() == 0
            &&& !state.connected
            &&& state.locations.current is None
            &&& state.locations.mounted is None
            &&& state.locations.mounting is None
            &&& state.pending_mount is None
            &&& state.mount is None
            &&& state.lock is None
            &&& state.locks == Map::<u64, usize>::empty()
            &&& state.tree.nodes.len() == 0
            &&& state.tree.root_children.len() == 0
            &&& state.copy_error is None
            &&& state.language == language
        }),
{
}

/// What the contracts say of a session and of what comes back to it is what they hold.
pub proof fn law_sessions_show_their_fields(
    session: Session,
    devices: Vec<DeviceInfo>,
    text: String,
    connection: DeviceEvent,
    mount: MountEvent,
)
    ensures
        session@.devices == session.devices.deep_view(),
        session@.connected == session.connected,
        session@.locations == session.locations,
        session@.pending_mount == session.pending_mount,
        session@.lock == session.lock,
        session@.locks == session.locks@,
        session@.tree == session.tree@,
        session@.language == session.language,
        session.mount matches Some(handle) ==> session@.mount == Some(handle@),
        session.mount is None ==> session@.mount is None,
        session.copy_error matches Some(message) ==> session@.copy_error == Some(message@),
        session.copy_error is None ==> session@.copy_error is None,
        found_view(Ok(devices)) == Ok::<Seq<DeviceView>, Seq<char>>(devices.deep_view()),
        found_view(Err(text)) == Err::<Seq<DeviceView>, Seq<char>>(text@),
        connection.deep_view().device == connection.device@,
        connection.result matches Ok(tree) ==> connection.deep_view().result == Ok::<
            TreeView,
            Seq<char>,
        >(tree@),
        connection.result matches Err(message) ==> connection.deep_view().result == Err::<
            TreeView,
            Seq<char>,
        >(message@),
        mount.deep_view().location_id == mount.location_id,
        mount.result matches Ok(handle) ==> mount.deep_view().result == Ok::<MountView, Seq<char>>(
            handle@,
        ),
        mount.result matches Err(message) ==> mount.deep_view().result == Err::<
            MountView,
            Seq<char>,
        >(message@),
{
}

/// A message fills the browser: it is all that stands there, under its title, and the detail
/// pane shows it too. Nothing else of the session changes.
pub proof fn law_messages_take_over_the_browser(step: Step, title: Seq<char>, detail: Seq<char>)
    ensures
        ({
            let after = step.browser_message(title, detail);
            let shown = after.state.tree;
            &&& shown.root_children == seq![0usize]
            &&& shown.nodes.len() == 1
            &&& shown.nodes[0].name == title
            &&& shown.nodes[0].note == detail
            &&& shown.nodes[0].source is Message
            &&& after.state == (StateView { tree: shown, ..step.state })
            &&& after.actions == step.actions.push(ActionView::ReloadOutline).push(
                ActionView::SetMessage { title, detail },
            )
        }),
        step.clear_browser().state == (StateView {
            tree: step.clear_browser().state.tree,
            ..step.state
        }),
        step.clear_browser().state.tree.nodes.len() == 0,
        step.clear_browser().state.tree.root_children.len() == 0,
        step.clear_browser().actions == step.actions.push(ActionView::ReloadOutline).push(
            ActionView::UpdateDetail { at: step.state.locations },
        ),
{
}

/// A scan changes the device list and nothing else while the current device is there; where it
/// is gone, the device and the browser are let go of, and nothing else.
pub proof fn law_scans_leave_the_rest(step: Step, found: Seq<DeviceView>, message: Seq<char>)
    ensures
        ({
            let current = step.state.locations.current;
            let there = current is None || exists|i: int|
                0 <= i < found.len() && (#[trigger] found[i]).location_id == current->0;
            let after = step.devices_found(Ok(found));
            let failed = step.devices_found(Err(message));
            &&& there ==> after.state == (StateView { devices: found, ..step.state })
            &&& there && current is Some ==> after.actions == step.actions.push(
                ActionView::UpdateMountControls { at: step.state.locations },
            )
            &&& !there ==> after.state == (StateView {
                devices: found,
                connected: false,
                locations: Locations { current: None, mounted: None, mounting: None },
                pending_mount: None,
                mount: None,
                lock: None,
                tree: after.state.tree,
                ..step.state
            })
            &&& !there && found.len() == 0 ==> after.actions[after.actions.len() - 2] == (
            ActionView::SetMessage {
                title: Phrase::NoDevices.say(step.state.language),
                detail: Phrase::NoDevicesHint.say(step.state.language),
            })
            &&& failed.state == (StateView { devices: failed.state.devices, ..step.state })
            &&& failed.actions.len() == step.actions.len() + 2
        }),
{
    if step.state.locations.current is Some {
        assert(status::has_location(found, step.state.locations.current->0) <==> exists|i: int|
            0 <= i < found.len() && (#[trigger] found[i]).location_id
                == step.state.locations.current->0);
    }
}

/// Choosing another device lets go of the one before, and nothing of the rest changes: the
/// device list, the locks of other locations and a copy's failure stay.
pub proof fn law_choosing_leaves_the_rest(
    step: Step,
    index: int,
    mount_after_connect: bool,
    facilities: Facilities,
)
    requires
        0 <= index < step.state.devices.len(),
    ensures
        ({
            let device = step.state.devices[index];
            let location_id = device.location_id;
            let other = step.state.locations.current != Some(location_id);
            let after = step.select_device(index, mount_after_connect, facilities);
            let n = step.actions.len() as int;
            &&& other ==> after.state == (StateView {
                connected: false,
                locations: Locations { current: Some(location_id), mounted: None, mounting: None },
                pending_mount: after.state.pending_mount,
                mount: None,
                lock: after.state.lock,
                locks: after.state.locks,
                tree: after.state.tree,
                ..step.state
            })
            &&& other ==> after.state.tree.root_children == seq![0usize]
            &&& other ==> after.state.tree.nodes[0].source is Message
            &&& other ==> forall|l: u64| #[trigger]
                step.state.locks.contains_key(l) ==> after.state.locks.contains_key(l)
                    && after.state.locks[l] == step.state.locks[l]
            &&& after.actions[n] == ActionView::ClearOutlineSelection
            &&& other && step.state.mount is Some ==> after.actions[n + 1] == (
            ActionView::EjectMount { mountpoint: step.state.mount->0.mountpoint })
            &&& other && step.state.mount is None && step.state.connected ==> after.actions[n + 1]
                == (ActionView::ReleaseDevice { lock: step.state.lock })
            &&& other && step.state.mount is Some && step.state.connected ==> after.actions[n + 2]
                == (ActionView::ReleaseDevice { lock: step.state.lock })
            &&& other ==> after.actions.contains(
                ActionView::SetMessage {
                    title: Phrase::Connecting.say(step.state.language),
                    detail: device.display(),
                },
            )
            &&& other && !facilities.device_events ==> after.actions.last() == (
            ActionView::SetMessage {
                title: Phrase::ConnectFailed.say(step.state.language),
                detail: Phrase::NoDeviceChannel.say(step.state.language),
            })
            &&& other && !facilities.device_events ==> after.state.tree.nodes[0].note
                == Phrase::NoDeviceChannel.say(step.state.language)
            &&& !other && !mount_after_connect ==> after.actions == step.actions.push(
                ActionView::ClearOutlineSelection,
            ).push(ActionView::UpdateDetail { at: step.state.locations }).push(
                ActionView::UpdateMountControls { at: step.state.locations },
            )
            &&& !other && mount_after_connect && !step.state.connected ==> after.state == (
            StateView { pending_mount: Some(location_id), ..step.state })
            &&& !other && mount_after_connect && step.state.connected && facilities.macfuse
                && facilities.mount_events ==> after.state.locations.mounting == Some(location_id)
                && after.actions.contains(
                ActionView::Mount { device, lock: lock_of(step.state.locks, location_id) },
            )
        }),
{
    let device = step.state.devices[index];
    let location_id = device.location_id;
    let after = step.select_device(index, mount_after_connect, facilities);
    let n = step.actions.len() as int;
    if step.state.locations.current != Some(location_id) {
        let ejects: int = if step.state.mount is Some {
            1
        } else {
            0
        };
        let releases: int = if step.state.connected {
            1
        } else {
            0
        };
        let k = n + 1 + ejects + releases + 1 + 1;
        assert(after.actions[k] == (ActionView::SetMessage {
            title: Phrase::Connecting.say(step.state.language),
            detail: device.display(),
        }));
        assert forall|l: u64| #[trigger] step.state.locks.contains_key(l) implies
            after.state.locks.contains_key(l) && after.state.locks[l] == step.state.locks[l] by {
        }
    } else if mount_after_connect && step.state.connected && facilities.macfuse
        && facilities.mount_events {
        assert(after.actions[after.actions.len() - 3] == (ActionView::Mount {
            device,
            lock: lock_of(step.state.locks, location_id),
        }));
    }
}

/// Asking to mount a device that is not open makes it the current one and remembers the mount,
/// whatever the machine can do; asking for one that is mounted or being mounted is answered in
/// words of its own.
pub proof fn law_mounts_are_remembered(step: Step, index: int, facilities: Facilities)
    requires
        0 <= index < step.state.devices.len(),
    ensures
        ({
            let location_id = step.state.devices[index].location_id;
            let after = step.mount_chosen(index, facilities);
            let mounted = step.state.locations.mounted == Some(location_id);
            let mounting = step.state.locations.mounting == Some(location_id);
            let open = step.state.locations.current == Some(location_id) && step.state.connected;
            &&& !mounted && !mounting && !open ==> after.state.pending_mount == Some(location_id)
            &&& !mounted && !mounting && !open ==> after.state.locations.current == Some(
                location_id,
            )
            &&& !mounted && !mounting && !open ==> !after.state.connected
            &&& after.state.devices == step.state.devices
            &&& after.state.copy_error == step.state.copy_error
            &&& mounted ==> after.actions == step.actions.push(
                ActionView::SetMessage {
                    title: Phrase::AlreadyMounted.say(step.state.language),
                    detail: Phrase::AlreadyMountedHint.say(step.state.language),
                },
            )
            &&& !mounted && mounting ==> after.actions == step.actions.push(
                ActionView::SetMessage {
                    title: Phrase::Mounting.say(step.state.language),
                    detail: Phrase::MountingWait.say(step.state.language),
                },
            )
        }),
{
}

/// Beginning a mount changes what is mounted and being mounted, and nothing else; the user is
/// told that it begins, or what the machine lacks.
pub proof fn law_beginning_mounts_are_told(step: Step, device: DeviceView, facilities: Facilities)
    ensures
        ({
            let after = step.mount_device(device, facilities);
            let words = step.state.language;
            let can_mount = facilities.macfuse && facilities.mount_events;
            &&& after.state == (StateView {
                mount: None,
                locations: Locations {
                    mounted: None,
                    mounting: after.state.locations.mounting,
                    ..step.state.locations
                },
                locks: after.state.locks,
                ..step.state
            })
            &&& !can_mount ==> after.state.locks == step.state.locks
            &&& !can_mount ==> after.state.locations.mounting == step.state.locations.mounting
            &&& can_mount ==> after.state.locks == step.state.locks.insert(
                device.location_id,
                lock_of(step.state.locks, device.location_id),
            )
            &&& can_mount ==> after.actions[after.actions.len() - 3] == (ActionView::SetMessage {
                title: Phrase::Mounting.say(words),
                detail: Phrase::MountingHint.say(words),
            })
            &&& can_mount ==> after.actions[after.actions.len() - 2] == (
            ActionView::UpdateMountControls { at: after.state.locations })
            &&& !facilities.macfuse ==> after.actions[after.actions.len() - 2] == (
            ActionView::SetMessage {
                title: Phrase::ConnectedTitle.say(words),
                detail: Phrase::NoMacfuseHint.say(words),
            })
            &&& !facilities.macfuse ==> after.actions.last() == (ActionView::UpdateMountControls {
                at: after.state.locations,
            })
            &&& facilities.macfuse && !facilities.mount_events ==> after.actions.last() == (
            ActionView::SetMessage {
                title: Phrase::MountFailed.say(words),
                detail: Phrase::NoMountChannel.say(words),
            })
            &&& step.state.mount is Some ==> after.actions[step.actions.len() as int] == (
            ActionView::EjectMount { mountpoint: step.state.mount->0.mountpoint })
        }),
{
}

/// A device that connects opens, shows its tree, and is mounted if that was asked for; nothing
/// else changes. Without a mount the user is told what to do next.
pub proof fn law_connecting_leaves_the_rest(
    step: Step,
    device: DeviceView,
    tree: TreeView,
    facilities: Facilities,
)
    requires
        step.state.locations.current == Some(device.location_id),
    ensures
        ({
            let after = step.device_connected(device, tree, facilities);
            let asked = step.state.pending_mount == Some(device.location_id);
            let can_mount = facilities.macfuse && facilities.mount_events;
            let words = step.state.language;
            &&& !asked ==> after.state == (StateView { connected: true, tree, ..step.state })
            &&& !asked ==> after.actions == step.actions.push(ActionView::AdoptDevice).push(
                ActionView::ReloadOutline,
            ).push(ActionView::UpdateDetail { at: step.state.locations }).push(
                ActionView::UpdateMountControls { at: step.state.locations },
            ).push(
                ActionView::SetMessage {
                    title: Phrase::ConnectedTitle.say(words),
                    detail: Phrase::ConnectedHint.say(words),
                },
            ).push(ActionView::UpdateDetail { at: step.state.locations })
            &&& asked ==> after.state == (StateView {
                connected: true,
                tree,
                pending_mount: None,
                mount: None,
                locations: Locations {
                    mounted: None,
                    mounting: after.state.locations.mounting,
                    ..step.state.locations
                },
                locks: after.state.locks,
                ..step.state
            })
            &&& asked && can_mount ==> after.state.locations.mounting == Some(device.location_id)
            &&& asked && can_mount ==> after.actions.last() == (ActionView::Mount {
                device,
                lock: lock_of(step.state.locks, device.location_id),
            })
            &&& asked && !can_mount ==> after.state.locations.mounting
                == step.state.locations.mounting
        }),
{
}

/// What finishes in the background changes what it is about, and nothing else.
pub proof fn law_events_leave_the_rest(
    step: Step,
    connections: Seq<DeviceEventView>,
    mounts: Seq<MountEventView>,
    facilities: Facilities,
)
    requires
        connections.len() > 0,
        mounts.len() > 0,
    ensures
        ({
            let failed = step.device_events(connections, facilities);
            let ours = step.state.locations.current == Some(
                connections.last().device.location_id,
            );
            &&& ours && connections.last().result is Err ==> failed.state == (StateView {
                connected: false,
                locations: Locations { current: None, ..step.state.locations },
                lock: None,
                tree: failed.state.tree,
                ..step.state
            })
            &&& ours && connections.last().result is Err ==> failed.state.tree.root_children
                == seq![0usize]
            &&& ours && connections.last().result is Err ==> failed.actions == step.actions.push(
                ActionView::ForgetDevice,
            ).push(ActionView::UpdateMountControls { at: failed.state.locations }).push(
                ActionView::ReloadOutline,
            ).push(
                ActionView::SetMessage {
                    title: Phrase::ConnectFailed.say(step.state.language),
                    detail: connections.last().result->Err_0,
                },
            )
        }),
        ({
            let after = step.mount_events(mounts);
            let ours = step.state.locations.current == Some(mounts.last().location_id);
            let awaited = step.state.locations.mounting == Some(mounts.last().location_id);
            &&& after.state == (StateView {
                mount: after.state.mount,
                locations: Locations {
                    mounted: after.state.locations.mounted,
                    mounting: after.state.locations.mounting,
                    ..step.state.locations
                },
                ..step.state
            })
            &&& ours && mounts.last().result is Ok ==> after.actions[after.actions.len() - 2] == (
            ActionView::UpdateMountControls { at: after.state.locations })
            &&& ours && mounts.last().result is Ok ==> after.actions.len() == step.actions.len() + 3
            &&& ours && mounts.last().result is Err ==> after.actions[after.actions.len() - 2] == (
            ActionView::UpdateMountControls { at: after.state.locations })
            &&& ours && mounts.last().result is Err ==> after.actions.len() == step.actions.len()
                + 2
            &&& !ours && !awaited && mounts.last().result is Err ==> after == step
            &&& !ours && !awaited && mounts.last().result is Ok ==> after.actions
                == step.actions.push(ActionView::DiscardMount)
            &&& !ours && awaited ==> after.actions.last() == (ActionView::UpdateMountControls {
                at: after.state.locations,
            })
        }),
{
}

/// Ejecting and closing change what is mounted or open, and nothing else, and the buttons show
/// it.
pub proof fn law_ejecting_leaves_the_rest(step: Step, index: int)
    requires
        0 <= index < step.state.devices.len(),
    ensures
        ({
            let ejected = step.eject_chosen(index);
            let closed = step.close_device();
            let mounted = step.state.locations.mounted == Some(
                step.state.devices[index].location_id,
            );
            &&& mounted ==> ejected.state == (StateView {
                mount: None,
                locations: Locations { mounted: None, ..step.state.locations },
                ..step.state
            })
            &&& mounted ==> ejected.actions[ejected.actions.len() - 2] == (
            ActionView::UpdateMountControls { at: ejected.state.locations })
            &&& mounted && step.state.mount is Some ==> ejected.actions.len() == step.actions.len()
                + 3
            &&& mounted && step.state.mount is None ==> ejected.actions.len() == step.actions.len()
                + 2
            &&& closed.state == (StateView {
                connected: false,
                locations: Locations { current: None, mounted: None, mounting: None },
                pending_mount: None,
                mount: None,
                lock: None,
                ..step.state
            })
            &&& closed.actions.last() == (ActionView::UpdateMountControls {
                at: closed.state.locations,
            })
        }),
{
}

/// A location keeps the lock that it has, and one that has none gets a number that no other
/// location has; asking again gives the same lock.
pub proof fn law_locks_are_kept(state: StateView, location_id: u64, other: u64)
    requires
        locks_well_formed(state.locks),
        state.locks.len() < usize::MAX,
    ensures
        ({
            let lock = lock_of(state.locks, location_id);
            let after = state.with_lock(location_id);
            &&& state.locks.contains_key(location_id) ==> lock == state.locks[location_id]
            &&& !state.locks.contains_key(location_id) && state.locks.contains_key(other) ==> lock
                != state.locks[other]
            &&& after.locks.contains_key(location_id) && after.locks[location_id] == lock
            &&& lock_of(after.locks, location_id) == lock
            &&& other != location_id ==> (after.locks.contains_key(other)
                <==> state.locks.contains_key(other))
            &&& state.locks.contains_key(other) ==> after.locks[other] == state.locks[other]
            &&& after == (StateView { locks: after.locks, ..state })
        }),
{
    law_locations_have_their_own_lock(state.locks, location_id);
}

} // verus!
