//! Opening folders in the browser and preparing files for a preview.
use crate::action::{emit, set_message, tell, Action, ActionView};
use crate::model::{NodeSource, NodeView, ObjectInfo, ObjectView};
use crate::paths;
use crate::paths::join_path;
use crate::phrases::{Language, Phrase};
use crate::session;
use crate::session::{Session, StateView, Step};
use crate::text;
use crate::text::decimal_of;
use crate::tree::{NodeTree, NoteStyle, TreeView};
use crate::util;
use crate::util::sanitize_filename;
use vstd::prelude::*;

verus! {

/// A listing to ask the device for, under a lock.
#[derive(Clone, Copy, Debug, PartialEq, Eq, Structural)]
pub struct ListRequest {
    pub storage_id: u32,
    /// The folder to list; the top of the storage where there is none.
    pub parent: Option<u32>,
    pub lock: usize,
}

/// What opening a node comes to.
#[verifier::ext_equal]
pub enum OpeningView {
    /// There is nothing to list.
    Nothing,
    /// It cannot be listed, and why.
    Refused { message: Seq<char> },
    /// The device has to be asked.
    Ask { request: ListRequest },
}

/// What the lock of a device operation comes to: its number, or why there is none.
pub open spec fn checked_lock_view(
    lock: Option<usize>,
    language: Language,
) -> Result<usize, Seq<char>> {
    match lock {
        Some(lock) => Ok(lock),
        None => Err(Phrase::NoLock.say(language)),
    }
}

/// The lock to run a device operation under; without one it does not run.
pub fn checked_lock(lock: Option<usize>, language: Language) -> (r: Result<usize, String>)
    ensures
        r is Ok == lock is Some,
        r is Ok ==> checked_lock_view(lock, language) == Ok::<usize, Seq<char>>(r->Ok_0),
        r is Err ==> checked_lock_view(lock, language) == Err::<usize, Seq<char>>(r->Err_0@),
{
    match lock {
        Some(lock) => Ok(lock),
        None => Err(Phrase::NoLock.text(language).to_string()),
    }
}

/// Why a device operation does not run when its lock was left behind by a crash.
pub fn damaged_lock_message(language: Language) -> (r: String)
    ensures
        r@ == Phrase::DamagedLock.say(language),
{
    Phrase::DamagedLock.text(language).to_string()
}

/// Why a listing was given up after a number of seconds.
pub fn listing_timeout_message(seconds: u64, language: Language) -> (r: String)
    ensures
        r@ == Phrase::ListingTimeoutLead.say(language) + text::decimal(seconds as nat)
            + Phrase::ListingTimeoutTail.say(language),
{
    let mut r = Phrase::ListingTimeoutLead.text(language).to_string();
    r.append(decimal_of(seconds).as_str());
    r.append(Phrase::ListingTimeoutTail.text(language));
    r
}

impl StateView {
    /// What opening node `index` comes to.
    pub open spec fn opening(self, index: int) -> OpeningView {
        if !self.connected {
            OpeningView::Refused { message: Phrase::NoDevice.say(self.language) }
        } else {
            match self.tree.listing_request(index) {
                None => OpeningView::Nothing,
                Some((storage_id, parent)) => match checked_lock_view(self.lock, self.language) {
                    Ok(lock) => OpeningView::Ask {
                        request: ListRequest { storage_id, parent, lock },
                    },
                    Err(message) => OpeningView::Refused { message },
                },
            }
        }
    }

    /// The session with another tree.
    pub open spec fn with_tree(self, tree: TreeView) -> StateView {
        StateView { tree, ..self }
    }
}

/// What came back from listing a folder.
pub open spec fn listing_view(listing: Result<Vec<ObjectInfo>, String>) -> Result<
    Seq<ObjectView>,
    Seq<char>,
> {
    match listing {
        Ok(objects) => Ok(objects.deep_view()),
        Err(message) => Err(message@),
    }
}

impl TreeView {
    /// The tree with what came back from listing node `index`.
    pub open spec fn listed(
        self,
        index: int,
        storage_id: u32,
        listing: Result<Seq<ObjectView>, Seq<char>>,
        language: Language,
    ) -> TreeView {
        match listing {
            Ok(objects) => self.with_listing(
                index,
                NoteStyle::Usage,
                storage_id,
                objects,
                language,
            ),
            Err(message) => self.with_failure(index, message, language),
        }
    }
}

impl StateView {
    /// What opening node `index` comes to when the device gives `answer` if it is asked: the
    /// session then, and why the node could not be listed, if it could not.
    pub open spec fn opened(self, index: int, answer: Result<Seq<ObjectView>, Seq<char>>) -> (
        StateView,
        Result<(), Seq<char>>,
    ) {
        match self.opening(index) {
            OpeningView::Nothing => (self, Ok(())),
            OpeningView::Refused { message } => (self, Err(message)),
            OpeningView::Ask { request } => self.answered(index, request.storage_id, answer),
        }
    }

    /// What the device's answer to a listing of node `index` comes to.
    pub open spec fn answered(
        self,
        index: int,
        storage_id: u32,
        answer: Result<Seq<ObjectView>, Seq<char>>,
    ) -> (StateView, Result<(), Seq<char>>) {
        match answer {
            Ok(objects) => (
                self.with_tree(
                    self.tree.with_listing(
                        index,
                        NoteStyle::Usage,
                        storage_id,
                        objects,
                        self.language,
                    ),
                ),
                Ok(()),
            ),
            Err(message) => (self, Err(message)),
        }
    }
}

/// The text of a failure, if there is one.
pub open spec fn failure_view(r: Result<(), String>) -> Result<(), Seq<char>> {
    match r {
        Ok(_) => Ok(()),
        Err(message) => Err(message@),
    }
}

impl Session {
    /// What opening node `index` comes to: the listing to ask the device for, if there is
    /// one, or why the node cannot be listed. The session stays as it is.
    pub fn load_children_result(&self, index: usize) -> (r: Result<Option<ListRequest>, String>)
        ensures
            match self@.opening(index as int) {
                OpeningView::Nothing => r == Ok::<Option<ListRequest>, String>(None),
                OpeningView::Ask { request } => r == Ok::<Option<ListRequest>, String>(
                    Some(request),
                ),
                OpeningView::Refused { message } => r is Err && r->Err_0@ == message,
            },
    {
        if !self.connected {
            return Err(Phrase::NoDevice.text(self.language).to_string());
        }
        match self.tree.listing_request(index) {
            None => Ok(None),
            Some((storage_id, parent)) => match checked_lock(self.lock, self.language) {
                Ok(lock) => Ok(Some(ListRequest { storage_id, parent, lock })),
                Err(message) => Err(message),
            },
        }
    }

    /// Fills in node `index` with what the device listed. Where it failed to, the session
    /// stays as it is, and the failure is handed on.
    pub fn listing_arrived(
        &mut self,
        index: usize,
        storage_id: u32,
        listing: Result<Vec<ObjectInfo>, String>,
    ) -> (r: Result<(), String>)
        requires
            listing is Ok ==> index < old(self)@.tree.nodes.len(),
        ensures
            (final(self)@, failure_view(r)) == old(self)@.answered(
                index as int,
                storage_id,
                listing_view(listing),
            ),
            old(self)@.well_formed() ==> final(self)@.well_formed(),
    {
        match listing {
            Ok(objects) => {
                self.tree.fill(index, NoteStyle::Usage, storage_id, &objects, self.language);
                Ok(())
            },
            Err(message) => Err(message),
        }
    }

    /// Opens node `index`: gives the listing to ask the device for, if there is one. What
    /// cannot be listed gets a child that says why.
    pub fn load_children(&mut self, index: usize) -> (r: Option<ListRequest>)
        requires
            old(self)@.connected || index < old(self)@.tree.nodes.len(),
        ensures
            match old(self)@.opening(index as int) {
                OpeningView::Nothing => r is None && final(self)@ == old(self)@,
                OpeningView::Ask { request } => r == Some(request) && final(self)@ == old(self)@,
                OpeningView::Refused { message } => r is None && final(self)@ == old(
                    self,
                )@.with_tree(
                    old(self)@.tree.with_failure(index as int, message, old(self)@.language),
                ),
            },
            old(self)@.well_formed() ==> final(self)@.well_formed(),
    {
        match self.load_children_result(index) {
            Ok(request) => request,
            Err(message) => {
                self.tree.fill_failure(index, message.as_str(), self.language);
                None
            },
        }
    }

    /// Fills in node `index` with what came back from listing it.
    pub fn children_listed(
        &mut self,
        index: usize,
        storage_id: u32,
        listing: Result<Vec<ObjectInfo>, String>,
    )
        requires
            index < old(self)@.tree.nodes.len(),
        ensures
            final(self)@ == old(self)@.with_tree(
                old(self)@.tree.listed(
                    index as int,
                    storage_id,
                    listing_view(listing),
                    old(self)@.language,
                ),
            ),
            old(self)@.well_formed() ==> final(self)@.well_formed(),
    {
        if let Err(message) = self.listing_arrived(index, storage_id, listing) {
            self.tree.fill_failure(index, message.as_str(), self.language);
        }
    }
}

/// A node that is not there, is filled in already, or is no container is opened without
/// asking the device, and nothing changes.
pub proof fn law_opening_needs_a_container(
    state: StateView,
    index: int,
    answer: Result<Seq<ObjectView>, Seq<char>>,
)
    requires
        state.connected,
        !(0 <= index < state.tree.nodes.len()) || state.tree.nodes[index].children_loaded
            || state.tree.nodes[index].source is Message || state.tree.nodes[index].is_file(),
    ensures
        state.opening(index) is Nothing,
        state.opened(index, answer) == (state, Ok::<(), Seq<char>>(())),
{
}

/// A listing that fails changes nothing, so that it can be tried again: the node still has
/// to be listed if it had to be before.
pub proof fn law_failed_listings_can_be_repeated(
    state: StateView,
    index: int,
    answer: Result<Seq<ObjectView>, Seq<char>>,
)
    requires
        state.opened(index, answer).1 is Err,
    ensures
        state.opened(index, answer).0 == state,
        state.opening(index) is Ask ==> !state.opened(
            index,
            answer,
        ).0.tree.nodes[index].children_loaded,
{
}

/// After a listing that went well, opening the node again asks for nothing and changes
/// nothing.
pub proof fn law_listings_are_done_once(
    state: StateView,
    index: int,
    answer: Result<Seq<ObjectView>, Seq<char>>,
    again: Result<Seq<ObjectView>, Seq<char>>,
)
    requires
        state.opened(index, answer).1 is Ok,
    ensures
        ({
            let after = state.opened(index, answer).0;
            &&& after.opening(index) is Nothing
            &&& after.opened(index, again) == (after, Ok::<(), Seq<char>>(()))
        }),
{
}

/// A file to download for a preview, under a lock if there is one, and the name to keep it
/// under.
#[derive(Clone, Debug, PartialEq, Eq)]
pub struct PreviewRequest {
    pub storage_id: u32,
    pub handle: u32,
    pub file_name: String,
    pub lock: Option<usize>,
}

/// What preparing a preview comes to.
#[derive(Clone, Debug, PartialEq, Eq)]
pub enum PreviewPlan {
    /// There is nothing to preview.
    Nothing,
    /// The file is here already.
    Cached { path: String },
    /// The file has to be downloaded.
    Download { request: PreviewRequest },
}

/// What preparing a preview comes to.
#[verifier::ext_equal]
pub enum PreviewView {
    Nothing,
    Cached { path: Seq<char> },
    Download { storage_id: u32, handle: u32, file_name: Seq<char>, lock: Option<usize> },
}

impl DeepView for PreviewPlan {
    type V = PreviewView;

    open spec fn deep_view(&self) -> PreviewView {
        match *self {
            PreviewPlan::Nothing => PreviewView::Nothing,
            PreviewPlan::Cached { path } => PreviewView::Cached { path: path@ },
            PreviewPlan::Download { request } => PreviewView::Download {
                storage_id: request.storage_id,
                handle: request.handle,
                file_name: request.file_name@,
                lock: request.lock,
            },
        }
    }
}

/// The name to keep a previewed file under.
pub open spec fn preview_name(handle: u32, name: Seq<char>) -> Seq<char> {
    text::decimal(handle as nat) + "-"@ + util::sanitized(name)
}

/// The name to keep a previewed file under.
pub fn preview_file_name(handle: u32, name: &str) -> (r: String)
    ensures
        r@ == preview_name(handle, name@),
{
    let mut r = decimal_of(handle as u64);
    r.append("-");
    r.append(sanitize_filename(name).as_str());
    r
}

/// Files with different handles are kept apart, whatever they are called.
pub proof fn law_preview_names_distinct(
    handle_a: u32,
    name_a: Seq<char>,
    handle_b: u32,
    name_b: Seq<char>,
)
    requires
        handle_a != handle_b,
    ensures
        preview_name(handle_a, name_a) != preview_name(handle_b, name_b),
{
    reveal_strlit("-");
    let digits_a = text::decimal(handle_a as nat);
    let digits_b = text::decimal(handle_b as nat);
    let full_a = preview_name(handle_a, name_a);
    let full_b = preview_name(handle_b, name_b);
    text::law_decimal_reads_back(handle_a as nat);
    text::law_decimal_reads_back(handle_b as nat);
    if full_a == full_b {
        assert(full_a[digits_a.len() as int] == '-');
        assert(full_b[digits_b.len() as int] == '-');
        if digits_a.len() < digits_b.len() {
            assert(full_b[digits_a.len() as int] == digits_b[digits_a.len() as int]);
            assert(text::is_digit(digits_b[digits_a.len() as int]));
        } else if digits_b.len() < digits_a.len() {
            assert(full_a[digits_b.len() as int] == digits_a[digits_b.len() as int]);
            assert(text::is_digit(digits_a[digits_b.len() as int]));
        } else {
            assert(digits_a =~= full_a.take(digits_a.len() as int));
            assert(digits_b =~= full_b.take(digits_b.len() as int));
            text::law_decimal_distinct(handle_a as nat, handle_b as nat);
        }
    }
}

/// Where the preview of a file is kept, below the machine's temporary directory.
pub fn preview_path(temp_dir: &str, file_name: &str) -> (r: String)
    ensures
        r@ == paths::joined(paths::joined(temp_dir@, "macmtp-quicklook"@), file_name@),
{
    join_path(join_path(temp_dir, "macmtp-quicklook").as_str(), file_name)
}

/// The directory that previews are kept in, below the machine's temporary directory.
pub fn preview_dir(temp_dir: &str) -> (r: String)
    ensures
        r@ == paths::joined(temp_dir@, "macmtp-quicklook"@),
{
    join_path(temp_dir, "macmtp-quicklook")
}

impl StateView {
    /// What preparing a preview of the selection comes to.
    pub open spec fn preview_plan(self, selected: Option<usize>) -> PreviewView {
        match selected {
            None => PreviewView::Nothing,
            Some(index) => {
                let node = self.tree.nodes[index as int];
                match (node.cached_path, node.source, self.lock) {
                    (Some(path), _, _) => PreviewView::Cached { path },
                    (
                        None,
                        NodeSource::Object { storage_id, handle, is_folder: false },
                        Some(lock),
                    ) => if self.connected {
                        PreviewView::Download {
                            storage_id,
                            handle,
                            file_name: preview_name(handle, node.name),
                            lock: Some(lock),
                        }
                    } else {
                        PreviewView::Nothing
                    },
                    _ => PreviewView::Nothing,
                }
            },
        }
    }

    /// Whether a preview of the selection calls for a file of the device that is not here.
    pub open spec fn preview_misses(self, selected: Option<usize>) -> bool {
        selected is Some && self.tree.nodes[selected->0 as int].cached_path is None
            && self.tree.nodes[selected->0 as int].is_file()
    }
}

impl Step {
    /// A preview of the selection is being prepared.
    pub open spec fn preparing_preview(self, selected: Option<usize>) -> Step {
        if self.state.preview_misses(selected) {
            let announced = self.tell(Phrase::PreparingPreview, Phrase::PreparingPreviewHint);
            if self.state.connected && self.state.lock is None {
                announced.tell(Phrase::PreviewFailed, Phrase::NoLock)
            } else {
                announced
            }
        } else {
            self
        }
    }

    /// The download for a preview has come back.
    pub open spec fn preview_finished(self, index: int, outcome: PreviewOutcomeView) -> Step {
        match outcome {
            PreviewOutcomeView::Failed { message } => self.message(
                Phrase::PreviewFailed.say(self.state.language),
                message,
            ),
            PreviewOutcomeView::NoDirectory => self,
            PreviewOutcomeView::NotWritten => self.tell(
                Phrase::PreviewFailed,
                Phrase::PreviewNotWritten,
            ),
            PreviewOutcomeView::Saved { path } => self.with_state(
                self.state.with_tree(self.state.tree.with_cached_path(index, path)),
            ).update_detail(),
        }
    }
}

impl TreeView {
    /// The tree in which node `index` is known to be kept at `path`.
    pub open spec fn with_cached_path(self, index: int, path: Seq<char>) -> TreeView {
        TreeView {
            nodes: self.nodes.update(
                index,
                NodeView { cached_path: Some(path), ..self.nodes[index] },
            ),
            ..self
        }
    }
}

/// How the download for a preview ended.
#[derive(Clone, Debug, PartialEq, Eq)]
pub enum PreviewOutcome {
    /// The device or its lock failed.
    Failed { message: String },
    /// There is no place to keep the file.
    NoDirectory,
    /// The file could not be written.
    NotWritten,
    /// The file is kept at `path`.
    Saved { path: String },
}

/// How the download for a preview ended.
#[verifier::ext_equal]
pub enum PreviewOutcomeView {
    Failed { message: Seq<char> },
    NoDirectory,
    NotWritten,
    Saved { path: Seq<char> },
}

impl DeepView for PreviewOutcome {
    type V = PreviewOutcomeView;

    open spec fn deep_view(&self) -> PreviewOutcomeView {
        match *self {
            PreviewOutcome::Failed { message } => PreviewOutcomeView::Failed { message: message@ },
            PreviewOutcome::NoDirectory => PreviewOutcomeView::NoDirectory,
            PreviewOutcome::NotWritten => PreviewOutcomeView::NotWritten,
            PreviewOutcome::Saved { path } => PreviewOutcomeView::Saved { path: path@ },
        }
    }
}

impl NodeTree {
    pub(crate) fn set_cached_path(&mut self, index: usize, path: String)
        requires
            index < old(self)@.nodes.len(),
        ensures
            final(self)@ == old(self)@.with_cached_path(index as int, path@),
    {
        self.nodes[index].cached_path = Some(path);
        assert(self@.nodes =~= old(self)@.with_cached_path(index as int, path@).nodes);
    }
}

impl Session {
    /// Prepares a preview of the selection: see [`StateView::preview_plan`] and
    /// [`Step::preparing_preview`].
    pub fn prepare_selected_file_for_preview(&self, selected: Option<usize>) -> (r: (
        PreviewPlan,
        Vec<Action>,
    ))
        requires
            selected matches Some(index) ==> index < self@.tree.nodes.len(),
        ensures
            r.0.deep_view() == self@.preview_plan(selected),
            session::step_of(*self, r.1) == Step::start(self@).preparing_preview(selected),
    {
        let mut actions: Vec<Action> = Vec::new();
        assert(session::step_of(*self, actions) =~= Step::start(self@));
        let index: usize = match selected {
            Some(index) => index,
            None => {
                return (PreviewPlan::Nothing, actions);
            },
        };
        let node = &self.tree.nodes[index];
        assert(self@.tree.nodes[index as int] == node@);
        if let Some(path) = &node.cached_path {
            return (PreviewPlan::Cached { path: path.clone() }, actions);
        }
        match node.source {
            NodeSource::Object { storage_id, handle, is_folder } => {
                if is_folder {
                    return (PreviewPlan::Nothing, actions);
                }
                tell(
                    &mut actions,
                    self.language,
                    Phrase::PreparingPreview,
                    Phrase::PreparingPreviewHint,
                );
                if !self.connected {
                    return (PreviewPlan::Nothing, actions);
                }
                match checked_lock(self.lock, self.language) {
                    Ok(lock) => {
                        let request = PreviewRequest {
                            storage_id,
                            handle,
                            file_name: preview_file_name(handle, node.name.as_str()),
                            lock: Some(lock),
                        };
                        (PreviewPlan::Download { request }, actions)
                    },
                    Err(message) => {
                        set_message(
                            &mut actions,
                            Phrase::PreviewFailed.text(self.language),
                            message.as_str(),
                        );
                        (PreviewPlan::Nothing, actions)
                    },
                }
            },
            _ => (PreviewPlan::Nothing, actions),
        }
    }

    /// Takes in how the download for a preview of node `index` ended, and gives the file to
    /// preview, if there is one.
    pub fn finish_preview(&mut self, index: usize, outcome: PreviewOutcome) -> (r: (
        Option<String>,
        Vec<Action>,
    ))
        requires
            index < old(self)@.tree.nodes.len(),
        ensures
            session::step_of(*final(self), r.1) == Step::start(old(self)@).preview_finished(
                index as int,
                outcome.deep_view(),
            ),
            r.0 is Some == (outcome is Saved),
            r.0 is Some ==> outcome.deep_view() == (PreviewOutcomeView::Saved { path: r.0->0@ }),
            old(self)@.well_formed() ==> final(self)@.well_formed(),
    {
        let mut actions: Vec<Action> = Vec::new();
        assert(session::step_of(*self, actions) =~= Step::start(self@));
        match outcome {
            PreviewOutcome::Failed { message } => {
                set_message(
                    &mut actions,
                    Phrase::PreviewFailed.text(self.language),
                    message.as_str(),
                );
                (None, actions)
            },
            PreviewOutcome::NoDirectory => (None, actions),
            PreviewOutcome::NotWritten => {
                tell(&mut actions, self.language, Phrase::PreviewFailed, Phrase::PreviewNotWritten);
                (None, actions)
            },
            PreviewOutcome::Saved { path } => {
                self.tree.set_cached_path(index, path.clone());
                emit(&mut actions, Action::UpdateDetail { at: self.locations });
                (Some(path), actions)
            },
        }
    }
}

/// A file is downloaded for a preview once: after that it is found where it was kept.
pub proof fn law_previews_download_once(step: Step, index: usize, path: Seq<char>)
    requires
        index < step.state.tree.nodes.len(),
    ensures
        step.preview_finished(
            index as int,
            PreviewOutcomeView::Saved { path },
        ).state.preview_plan(Some(index)) == (PreviewView::Cached { path }),
        !step.preview_finished(
            index as int,
            PreviewOutcomeView::Saved { path },
        ).state.preview_misses(Some(index)),
{
}

/// A folder is listed once: after that opening it asks the device for nothing.
pub proof fn law_folders_are_listed_once(
    state: StateView,
    index: int,
    storage_id: u32,
    listing: Result<Seq<ObjectView>, Seq<char>>,
)
    requires
        state.connected,
        0 <= index < state.tree.nodes.len(),
    ensures
        state.with_tree(
            state.tree.listed(index, storage_id, listing, state.language),
        ).opening(index) is Nothing,
{
}

/// The entries of a listed folder stand below it in the browser in the device's order, each
/// with its object's own name, size and dates.
pub proof fn law_listed_objects_are_the_children(
    tree: TreeView,
    index: int,
    storage_id: u32,
    objects: Seq<ObjectView>,
    language: Language,
    i: int,
)
    requires
        0 <= index < tree.nodes.len(),
        0 <= i < objects.len(),
        tree.nodes.len() + objects.len() <= usize::MAX,
    ensures
        ({
            let after = tree.listed(index, storage_id, Ok(objects), language);
            let children = after.children_of(Some(index as usize));
            &&& children.len() == objects.len()
            &&& after.nodes[children[i] as int].name == objects[i].filename
            &&& after.nodes[children[i] as int].created == objects[i].created
            &&& after.nodes[children[i] as int].modified == objects[i].modified
            &&& !objects[i].is_folder ==> after.nodes[children[i] as int].size
                == util::bytes_text(objects[i].size as nat)
            &&& after.nodes[children[i] as int].cached_path is None
            &&& after.nodes[children[i] as int].can_expand == objects[i].is_folder
            &&& after.nodes[children[i] as int].source == (NodeSource::Object {
                storage_id,
                handle: objects[i].handle,
                is_folder: objects[i].is_folder,
            })
        }),
{
}

/// In an open device a folder that was listed asks, when it is opened, for its own contents,
/// under the device's lock; and so does a storage at the top.
pub proof fn law_listed_folders_ask_for_themselves(
    state: StateView,
    index: int,
    storage_id: u32,
    objects: Seq<ObjectView>,
    i: int,
    lock: usize,
)
    requires
        state.connected,
        state.lock == Some(lock),
        0 <= index < state.tree.nodes.len(),
        0 <= i < objects.len(),
        state.tree.nodes.len() + objects.len() <= usize::MAX,
        objects[i].is_folder,
    ensures
        ({
            let after = state.answered(index, storage_id, Ok(objects)).0;
            after.opening(after.tree.nodes[index].children[i] as int) == (OpeningView::Ask {
                request: ListRequest { storage_id, parent: Some(objects[i].handle), lock },
            })
        }),
{
}

/// Nothing is listed without an open device or without its lock, and the user is told which
/// is missing.
pub proof fn law_listing_needs_device_and_lock(state: StateView, index: int)
    ensures
        !state.connected ==> state.opening(index) == (OpeningView::Refused {
            message: Phrase::NoDevice.say(state.language),
        }),
        state.connected && state.lock is None && state.tree.listing_request(index) is Some
            ==> state.opening(index) == (OpeningView::Refused {
            message: Phrase::NoLock.say(state.language),
        }),
        state.opening(index) matches OpeningView::Ask { request } ==> state.connected && Some(
            request.lock,
        ) == state.lock && Some((request.storage_id, request.parent))
            == state.tree.listing_request(index),
{
}

/// A listing that went well fills in the browser and touches nothing else of the session.
pub proof fn law_listings_change_the_tree_only(
    state: StateView,
    index: int,
    storage_id: u32,
    objects: Seq<ObjectView>,
    message: Seq<char>,
)
    ensures
        ({
            let after = state.answered(index, storage_id, Ok(objects)).0;
            &&& state.answered(index, storage_id, Ok(objects)).1 is Ok
            &&& after.devices == state.devices
            &&& after.connected == state.connected
            &&& after.locations == state.locations
            &&& after.pending_mount == state.pending_mount
            &&& after.mount == state.mount
            &&& after.lock == state.lock
            &&& after.locks == state.locks
            &&& after.copy_error == state.copy_error
            &&& after.language == state.language
        }),
        state.answered(index, storage_id, Err(message)) == (state, Err::<(), Seq<char>>(message)),
{
}

/// In the session's tree, a listing and a failure end up below the node that was opened: see
/// [`law_listed_objects_are_the_children`] for what stands there.
pub proof fn law_answers_go_below_their_node(
    tree: TreeView,
    index: int,
    storage_id: u32,
    objects: Seq<ObjectView>,
    message: Seq<char>,
    language: Language,
    other: int,
)
    requires
        0 <= index < tree.nodes.len(),
        0 <= other < tree.nodes.len(),
        other != index,
        tree.nodes.len() < usize::MAX,
    ensures
        ({
            let filled = tree.listed(index, storage_id, Ok(objects), language);
            let failed = tree.listed(index, storage_id, Err(message), language);
            &&& filled.root_children == tree.root_children
            &&& failed.root_children == tree.root_children
            &&& filled.nodes[other] == tree.nodes[other]
            &&& failed.nodes[other] == tree.nodes[other]
            &&& failed.nodes[index].children == seq![tree.nodes.len() as usize]
            &&& failed.nodes[tree.nodes.len() as int].name == Phrase::ListingFailed.say(language)
            &&& failed.nodes[tree.nodes.len() as int].note == message
        }),
{
    let failed = tree.listed(index, storage_id, Err(message), language);
    assert(failed.nodes[index].children =~= seq![tree.nodes.len() as usize]);
}

/// Finishing the preview of one node leaves the plan of every other node as it was: a file is
/// found only at the path that was saved for that very node. Besides that path nothing in the
/// session changes.
pub proof fn law_previews_are_kept_apart(step: Step, index: int, other: usize, path: Seq<char>)
    requires
        0 <= index < step.state.tree.nodes.len(),
        other < step.state.tree.nodes.len(),
    ensures
        ({
            let after = step.preview_finished(index, PreviewOutcomeView::Saved { path }).state;
            let before = step.state.tree.nodes[other as int];
            let node = after.tree.nodes[other as int];
            &&& other != index ==> after.preview_plan(Some(other)) == step.state.preview_plan(
                Some(other),
            )
            &&& other != index ==> node == before
            &&& other == index ==> after.preview_plan(Some(other)) == (PreviewView::Cached { path })
            &&& node.name == before.name && node.kind == before.kind && node.size == before.size
            &&& node.created == before.created && node.modified == before.modified
            &&& node.note == before.note && node.source == before.source
            &&& node.children == before.children
            &&& node.children_loaded == before.children_loaded
            &&& node.can_expand == before.can_expand
            &&& after.tree.nodes.len() == step.state.tree.nodes.len()
            &&& after.tree.root_children == step.state.tree.root_children
            &&& after.connected == step.state.connected && after.lock == step.state.lock
            &&& after.devices == step.state.devices && after.locations == step.state.locations
            &&& after.mount == step.state.mount
            &&& after.pending_mount == step.state.pending_mount
        }),
{
}

/// A preview that could not be saved changes nothing, so that it is fetched again the next
/// time; the user is told why, unless there was no place to keep it.
pub proof fn law_failed_previews_change_nothing(step: Step, index: int, message: Seq<char>)
    ensures
        ({
            let failed = step.preview_finished(index, PreviewOutcomeView::Failed { message });
            let unwritten = step.preview_finished(index, PreviewOutcomeView::NotWritten);
            &&& failed.state == step.state
            &&& failed.actions == step.actions.push(
                ActionView::SetMessage {
                    title: Phrase::PreviewFailed.say(step.state.language),
                    detail: message,
                },
            )
            &&& unwritten.state == step.state
            &&& unwritten.actions == step.actions.push(
                ActionView::SetMessage {
                    title: Phrase::PreviewFailed.say(step.state.language),
                    detail: Phrase::PreviewNotWritten.say(step.state.language),
                },
            )
            &&& step.preview_finished(index, PreviewOutcomeView::NoDirectory) == step
        }),
{
}

/// A preview of a file that is not here fetches that very file from the device, under the
/// device's lock. Of anything else nothing is fetched: not without a selection, not of a
/// folder, a storage or a message, and not without an open device.
pub proof fn law_previews_fetch_the_selected_file(
    state: StateView,
    index: usize,
    storage_id: u32,
    handle: u32,
    lock: usize,
)
    requires
        index < state.tree.nodes.len(),
        state.tree.nodes[index as int].cached_path is None,
    ensures
        ({
            let node = state.tree.nodes[index as int];
            let plan = state.preview_plan(Some(index));
            let is_this = node.source == (NodeSource::Object {
                storage_id,
                handle,
                is_folder: false,
            });
            &&& state.preview_plan(None) is Nothing
            &&& is_this && state.connected && state.lock == Some(lock) ==> (plan matches
                PreviewView::Download {
                storage_id: s,
                handle: h,
                lock: l,
                ..
            } && s == storage_id && h == handle && l == Some(lock))
            &&& !state.connected ==> plan is Nothing
            &&& state.lock is None ==> plan is Nothing
            &&& node.source is Storage || node.source is Message ==> plan is Nothing
            &&& node.source == (NodeSource::Object { storage_id, handle, is_folder: true })
                ==> plan is Nothing
        }),
{
}

/// Every listed file can be previewed: it is fetched by the handle that the device listed it
/// under, and kept under a name that ends in its own.
pub proof fn law_listed_files_are_fetched(
    state: StateView,
    index: int,
    storage_id: u32,
    objects: Seq<ObjectView>,
    i: int,
    lock: usize,
)
    requires
        state.connected,
        state.lock == Some(lock),
        0 <= index < state.tree.nodes.len(),
        0 <= i < objects.len(),
        state.tree.nodes.len() + objects.len() <= usize::MAX,
        !objects[i].is_folder,
    ensures
        ({
            let after = state.answered(index, storage_id, Ok(objects)).0;
            after.preview_plan(Some(after.tree.nodes[index].children[i])) == (
            PreviewView::Download {
                storage_id,
                handle: objects[i].handle,
                file_name: preview_name(objects[i].handle, objects[i].filename),
                lock: Some(lock),
            })
        }),
{
}

/// The name that a preview is kept under is the object's number, a dash and the object's own
/// name, extension and all, as far as a path can carry it.
pub proof fn law_preview_names_keep_the_name(handle: u32, name: Seq<char>)
    ensures
        name.len() > 0 && !name.contains('/') && !name.contains('\\') && !name.contains(':')
            && !name.contains('\0') ==> preview_name(handle, name) == text::decimal(handle as nat)
            + "-"@ + name,
        name.len() > 0 ==> preview_name(handle, name).len() == text::decimal(handle as nat).len()
            + 1 + name.len(),
        !preview_name(handle, name).contains('/'),
{
    reveal_strlit("-");
    util::law_sanitized_keeps_the_rest(name);
    util::law_sanitized_is_safe(name);
    text::law_decimal_reads_back(handle as nat);
    let kept = preview_name(handle, name);
    let digits = text::decimal(handle as nat);
    assert forall|i: int| 0 <= i < kept.len() implies kept[i] != '/' by {
        if i < digits.len() {
            assert(kept[i] == digits[i]);
            assert(text::is_digit(digits[i]));
        } else if i > digits.len() {
            let rest = util::sanitized(name);
            assert(kept[i] == rest[i - digits.len() - 1]);
            assert(rest.contains(rest[i - digits.len() - 1]));
        }
    }
}

/// Preparing a preview changes nothing in the session. The user is told when a file has to be
/// fetched, and when that cannot begin for want of a lock.
pub proof fn law_preparing_previews_changes_nothing(step: Step, selected: Option<usize>)
    ensures
        ({
            let after = step.preparing_preview(selected);
            let misses = selected is Some
                && step.state.tree.nodes[selected->0 as int].cached_path is None && (
            step.state.tree.nodes[selected->0 as int].source matches NodeSource::Object {
                is_folder: false,
                ..
            });
            &&& after.state == step.state
            &&& !misses ==> after.actions == step.actions
            &&& misses ==> after.actions[step.actions.len() as int] == (ActionView::SetMessage {
                title: Phrase::PreparingPreview.say(step.state.language),
                detail: Phrase::PreparingPreviewHint.say(step.state.language),
            })
            &&& misses && step.state.connected && step.state.lock is None ==> after.actions.last()
                == (ActionView::SetMessage {
                title: Phrase::PreviewFailed.say(step.state.language),
                detail: Phrase::NoLock.say(step.state.language),
            })
            &&& misses && !(step.state.connected && step.state.lock is None)
                ==> after.actions.len() == step.actions.len() + 1
        }),
{
}

/// With an open device and its lock, whatever has to be listed is asked for: a storage from
/// its top and a folder by its own handle, wherever it stands.
pub proof fn law_open_devices_are_asked(
    state: StateView,
    index: int,
    storage_id: u32,
    handle: u32,
    lock: usize,
)
    requires
        state.connected,
        state.lock == Some(lock),
        0 <= index < state.tree.nodes.len(),
        !state.tree.nodes[index].children_loaded,
    ensures
        ({
            let source = state.tree.nodes[index].source;
            &&& source == (NodeSource::Storage { storage_id }) ==> state.opening(index) == (
            OpeningView::Ask { request: ListRequest { storage_id, parent: None, lock } })
            &&& source == (NodeSource::Object { storage_id, handle, is_folder: true })
                ==> state.opening(index) == (OpeningView::Ask {
                request: ListRequest { storage_id, parent: Some(handle), lock },
            })
        }),
        checked_lock_view(state.lock, state.language) == Ok::<usize, Seq<char>>(lock),
        checked_lock_view(None, state.language) == Err::<usize, Seq<char>>(
            Phrase::NoLock.say(state.language),
        ),
{
}

/// Opening a node comes to what its answer comes to where the device is asked, and to nothing
/// but the refusal where it is not. An answer fills the session's tree as a listing does.
pub proof fn law_opening_takes_the_answer(
    state: StateView,
    index: int,
    objects: Seq<ObjectView>,
    message: Seq<char>,
    storage_id: u32,
)
    ensures
        ({
            let after = state.answered(index, storage_id, Ok(objects)).0;
            &&& after.tree == state.tree.listed(index, storage_id, Ok(objects), state.language)
            &&& after == (StateView { tree: after.tree, ..state })
        }),
        state.opening(index) matches OpeningView::Ask { request } ==> {
            &&& state.opened(index, Ok(objects)) == state.answered(
                index,
                request.storage_id,
                Ok(objects),
            )
            &&& state.opened(index, Err(message)) == (state, Err::<(), Seq<char>>(message))
        },
        state.opening(index) matches OpeningView::Refused { message: why } ==> state.opened(
            index,
            Ok(objects),
        ) == (state, Err::<(), Seq<char>>(why)),
        state.opening(index) is Nothing ==> state.opened(index, Ok(objects)) == (state, Ok::<
            (),
            Seq<char>,
        >(())),
{
}

/// A node that is kept somewhere is found there, and a file that is not is fetched to be kept
/// under its number and its own name. Once it is saved, the detail pane shows it.
pub proof fn law_previews_are_found_where_they_are_kept(
    step: Step,
    index: usize,
    storage_id: u32,
    handle: u32,
    path: Seq<char>,
)
    requires
        index < step.state.tree.nodes.len(),
    ensures
        ({
            let node = step.state.tree.nodes[index as int];
            let plan = step.state.preview_plan(Some(index));
            let saved = step.preview_finished(index as int, PreviewOutcomeView::Saved { path });
            &&& node.cached_path == Some(path) ==> plan == (PreviewView::Cached { path })
            &&& node.cached_path is None && node.source == (NodeSource::Object {
                storage_id,
                handle,
                is_folder: false,
            }) && step.state.connected && step.state.lock is Some ==> plan == (
            PreviewView::Download {
                storage_id,
                handle,
                file_name: preview_name(handle, node.name),
                lock: step.state.lock,
            })
            &&& plan is Cached ==> node.cached_path is Some
            &&& saved.actions == step.actions.push(
                ActionView::UpdateDetail { at: step.state.locations },
            )
            &&& saved.state == (StateView { tree: saved.state.tree, ..step.state })
        }),
{
}

/// Behind the number and the dash, the name that a preview is kept under has every character
/// of the object's own name in its place, with an underscore for each that a path cannot
/// carry.
pub proof fn law_preview_names_keep_characters(handle: u32, name: Seq<char>, at: int)
    requires
        0 <= at < name.len(),
    ensures
        ({
            let kept = preview_name(handle, name);
            let digits = text::decimal(handle as nat);
            let c = name[at];
            &&& digits.is_prefix_of(kept)
            &&& kept[digits.len() as int] == '-'
            &&& c != '/' && c != '\\' && c != ':' && c != '\0' ==> kept[digits.len() + 1 + at] == c
            &&& c == '/' || c == '\\' || c == ':' || c == '\0' ==> kept[digits.len() + 1 + at]
                == '_'
        }),
{
    reveal_strlit("-");
    util::law_sanitized_keeps_the_rest(name);
    let kept = preview_name(handle, name);
    let digits = text::decimal(handle as nat);
    assert(digits =~= kept.subrange(0, digits.len() as int));
    assert(kept[digits.len() + 1 + at] == util::sanitized(name)[at]);
}

/// What the contracts say of plans, outcomes and answers is what they hold.
pub proof fn law_previews_show_their_fields(
    path: String,
    request: PreviewRequest,
    objects: Vec<ObjectInfo>,
)
    ensures
        PreviewPlan::Nothing.deep_view() == PreviewView::Nothing,
        (PreviewPlan::Cached { path }).deep_view() == (PreviewView::Cached { path: path@ }),
        (PreviewPlan::Download { request }).deep_view() == (PreviewView::Download {
            storage_id: request.storage_id,
            handle: request.handle,
            file_name: request.file_name@,
            lock: request.lock,
        }),
        (PreviewOutcome::Failed { message: path }).deep_view() == (PreviewOutcomeView::Failed {
            message: path@,
        }),
        PreviewOutcome::NoDirectory.deep_view() == PreviewOutcomeView::NoDirectory,
        PreviewOutcome::NotWritten.deep_view() == PreviewOutcomeView::NotWritten,
        (PreviewOutcome::Saved { path }).deep_view() == (PreviewOutcomeView::Saved {
            path: path@,
        }),
        listing_view(Ok(objects)) == Ok::<Seq<ObjectView>, Seq<char>>(objects.deep_view()),
        listing_view(Err(path)) == Err::<Seq<ObjectView>, Seq<char>>(path@),
        failure_view(Ok(())) == Ok::<(), Seq<char>>(()),
        failure_view(Err(path)) == Err::<(), Seq<char>>(path@),
{
}

} // verus!
