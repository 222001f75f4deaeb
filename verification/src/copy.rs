//! Copying dragged nodes to the Mac: starting a copy, and showing how the copies go.
use crate::action::{emit, set_message, set_mtp_controls_enabled, tell, Action, ActionView};
use crate::browse;
use crate::browse::checked_lock;
use crate::drag;
use crate::drag::file_promise_index;
use crate::model::{NodeSource, ObjectView};
use crate::phrases::{Language, Phrase};
use crate::session;
use crate::session::{Facilities, Session, StateView, Step};
use crate::text;
use crate::text::decimal_of;
use crate::tree::{NodeTree, TreeView};
use crate::util;
use crate::util::format_bytes;
use vstd::prelude::*;

verus! {

/// A file or folder of the device to copy.
#[derive(Clone, Debug, PartialEq, Eq)]
pub struct ExportNode {
    pub name: String,
    pub storage_id: u32,
    pub handle: u32,
    pub is_folder: bool,
}

/// What a node to copy holds.
#[verifier::ext_equal]
pub struct ExportView {
    pub name: Seq<char>,
    pub storage_id: u32,
    pub handle: u32,
    pub is_folder: bool,
}

impl View for ExportNode {
    type V = ExportView;

    open spec fn view(&self) -> ExportView {
        ExportView {
            name: self.name@,
            storage_id: self.storage_id,
            handle: self.handle,
            is_folder: self.is_folder,
        }
    }
}

impl TreeView {
    /// Node `index` as something to copy: files and folders of the device can be copied.
    pub open spec fn export(self, index: int) -> Option<ExportView> {
        if 0 <= index < self.nodes.len() {
            match self.nodes[index].source {
                NodeSource::Object { storage_id, handle, is_folder } => Some(
                    ExportView { name: self.nodes[index].name, storage_id, handle, is_folder },
                ),
                _ => None,
            }
        } else {
            None
        }
    }
}

impl NodeTree {
    /// Node `index` as something to copy: see [`TreeView::export`].
    pub fn export_node(&self, index: usize) -> (r: Option<ExportNode>)
        ensures
            r is Some == self@.export(index as int) is Some,
            r is Some ==> Some(r->0@) == self@.export(index as int),
    {
        if index >= self.nodes.len() {
            return None;
        }
        let node = &self.nodes[index];
        assert(self@.nodes[index as int] == node@);
        match node.source {
            NodeSource::Object { storage_id, handle, is_folder } => Some(
                ExportNode { name: node.name.clone(), storage_id, handle, is_folder },
            ),
            _ => None,
        }
    }
}

/// A copy to run in the background, under a lock.
#[derive(Clone, Debug, PartialEq, Eq)]
pub struct CopyJob {
    pub node: ExportNode,
    pub path: String,
    pub lock: usize,
}

/// What a copy holds.
#[verifier::ext_equal]
pub struct JobView {
    pub node: ExportView,
    pub path: Seq<char>,
    pub lock: usize,
}

impl View for CopyJob {
    type V = JobView;

    open spec fn view(&self) -> JobView {
        JobView { node: self.node@, path: self.path@, lock: self.lock }
    }
}

/// The characters of an optional string slice.
pub open spec fn slice_option(s: Option<&str>) -> Option<Seq<char>> {
    match s {
        Some(s) => Some(s@),
        None => None,
    }
}

impl StateView {
    /// What a promise to copy comes to: the copy, or why there is none. The promise carries
    /// `marker`, and is to be kept at `path`.
    pub open spec fn copy_job(
        self,
        marker: Option<Seq<char>>,
        path: Option<Seq<char>>,
        facilities: Facilities,
    ) -> Result<JobView, Seq<char>> {
        if marker is None || drag::marked_index(marker->0) is None {
            Err(Phrase::NoDragItem.say(self.language))
        } else if path is None {
            Err(Phrase::NoDragPath.say(self.language))
        } else {
            match self.tree.export(drag::marked_index(marker->0)->0 as int) {
                None => Err(Phrase::NotCopyable.say(self.language)),
                Some(node) => if !self.connected {
                    Err(Phrase::NoDevice.say(self.language))
                } else if !facilities.copy_events {
                    Err(Phrase::NoCopyChannel.say(self.language))
                } else {
                    match browse::checked_lock_view(self.lock, self.language) {
                        Ok(lock) => Ok(JobView { node, path: path->0, lock }),
                        Err(message) => Err(message),
                    }
                },
            }
        }
    }
}

impl Step {
    /// The MTP controls are enabled or disabled.
    pub open spec fn controls_enabled(self, enabled: bool) -> Step {
        let set = self.act(ActionView::EnableControls { enabled });
        if enabled {
            set.update_mount_controls()
        } else {
            set.act(ActionView::RenderDeviceRows { at: self.state.locations })
        }
    }

    /// A copy begins. Where it is the only one, earlier failures are forgotten.
    pub open spec fn copy_begins(self, active_copies: usize) -> Step {
        let fresh = if active_copies == 0 {
            self.with_state(StateView { copy_error: None, ..self.state })
        } else {
            self
        };
        fresh.tell(Phrase::Copying, Phrase::CopyingHint).copy_shown()
    }

    /// The screen shows that a copy runs.
    pub open spec fn copy_shown(self) -> Step {
        self.act(ActionView::ShowProgress { visible: true }).controls_enabled(false)
    }
}

/// The outcome of a promise to copy, as far as it is text.
pub open spec fn job_result(r: Result<(CopyJob, Vec<Action>), String>) -> Result<
    JobView,
    Seq<char>,
> {
    match r {
        Ok((job, _)) => Ok(job@),
        Err(message) => Err(message@),
    }
}

impl Session {
    /// Starts to keep a promise: gives the copy to run and what is to be done on the screen,
    /// or why the promise cannot be kept.
    pub fn start_file_promise_copy(
        &mut self,
        marker: Option<&str>,
        path: Option<&str>,
        active_copies: usize,
        facilities: Facilities,
    ) -> (r: Result<(CopyJob, Vec<Action>), String>)
        ensures
            job_result(r) == old(self)@.copy_job(
                slice_option(marker),
                slice_option(path),
                facilities,
            ),
            r is Ok ==> session::step_of(*final(self), r->Ok_0.1) == Step::start(
                old(self)@,
            ).copy_begins(active_copies),
            r is Err ==> final(self)@ == old(self)@,
            old(self)@.well_formed() ==> final(self)@.well_formed(),
    {
        let index: usize = match marker {
            Some(marker) => match file_promise_index(marker) {
                Some(index) => index,
                None => {
                    return Err(Phrase::NoDragItem.text(self.language).to_string());
                },
            },
            None => {
                return Err(Phrase::NoDragItem.text(self.language).to_string());
            },
        };
        let path = match path {
            Some(path) => path.to_string(),
            None => {
                return Err(Phrase::NoDragPath.text(self.language).to_string());
            },
        };
        let node = match self.tree.export_node(index) {
            Some(node) => node,
            None => {
                return Err(Phrase::NotCopyable.text(self.language).to_string());
            },
        };
        if !self.connected {
            return Err(Phrase::NoDevice.text(self.language).to_string());
        }
        if !facilities.copy_events {
            return Err(Phrase::NoCopyChannel.text(self.language).to_string());
        }
        let lock: usize = match checked_lock(self.lock, self.language) {
            Ok(lock) => lock,
            Err(message) => {
                return Err(message);
            },
        };
        let mut actions: Vec<Action> = Vec::new();
        assert(session::step_of(*self, actions) =~= Step::start(self@));
        if active_copies == 0 {
            self.copy_error = None;
        }
        tell(&mut actions, self.language, Phrase::Copying, Phrase::CopyingHint);
        emit(&mut actions, Action::ShowProgress { visible: true });
        set_mtp_controls_enabled(&mut actions, self.locations, false);
        Ok((CopyJob { node, path, lock }, actions))
    }
}

/// What the user is told when a promise cannot be kept.
pub fn copy_refused(message: &str, language: Language) -> (r: Action)
    ensures
        r.deep_view() == (ActionView::SetMessage {
            title: Phrase::CopyFailed.say(language),
            detail: message@,
        }),
{
    Action::SetMessage {
        title: Phrase::CopyFailed.text(language).to_string(),
        detail: message.to_string(),
    }
}

/// What a copy in the background reports.
#[derive(Debug, PartialEq, Eq)]
pub enum CopyEvent {
    Started,
    Progress { name: String, bytes_done: u64, bytes_total: Option<u64>, files_done: usize },
    Finished { result: Result<(), String> },
}

/// How far a copy is.
#[verifier::ext_equal]
pub struct ProgressView {
    pub name: Seq<char>,
    pub bytes_done: u64,
    pub bytes_total: Option<u64>,
    pub files_done: usize,
}

/// What a report holds.
#[verifier::ext_equal]
pub enum CopyEventView {
    Started,
    Progress { progress: ProgressView },
    Finished { result: Result<(), Seq<char>> },
}

impl DeepView for CopyEvent {
    type V = CopyEventView;

    open spec fn deep_view(&self) -> CopyEventView {
        match *self {
            CopyEvent::Started => CopyEventView::Started,
            CopyEvent::Progress { name, bytes_done, bytes_total, files_done } =>
                CopyEventView::Progress {
                progress: ProgressView { name: name@, bytes_done, bytes_total, files_done },
            },
            CopyEvent::Finished { result } => CopyEventView::Finished {
                result: match result {
                    Ok(_) => Ok(()),
                    Err(message) => Err(message@),
                },
            },
        }
    }
}

/// The last progress among reports.
pub open spec fn last_progress(events: Seq<CopyEventView>) -> Option<ProgressView>
    decreases events.len(),
{
    if events.len() == 0 {
        None
    } else {
        match events.last() {
            CopyEventView::Progress { progress } => Some(progress),
            _ => last_progress(events.drop_last()),
        }
    }
}

/// The last outcome among reports.
pub open spec fn last_result(events: Seq<CopyEventView>) -> Option<Result<(), Seq<char>>>
    decreases events.len(),
{
    if events.len() == 0 {
        None
    } else {
        match events.last() {
            CopyEventView::Finished { result } => Some(result),
            _ => last_result(events.drop_last()),
        }
    }
}

/// What the user is told about a progress.
pub open spec fn progress_text(progress: ProgressView, language: Language) -> Seq<char> {
    match progress.bytes_total {
        Some(total) if total > 0 => progress.name + Phrase::CopyProgressLead.say(language)
            + util::bytes_text(progress.bytes_done as nat) + " / "@ + util::bytes_text(total as nat)
            + Phrase::CopyProgressCount.say(language) + text::decimal(progress.files_done as nat)
            + Phrase::CopyCountTail.say(language),
        _ => progress.name + Phrase::CopyCountLead.say(language) + text::decimal(
            progress.files_done as nat,
        ) + Phrase::CopyCountTail.say(language),
    }
}

impl Step {
    /// Each start of a copy among the reports is shown.
    pub open spec fn copies_started(self, events: Seq<CopyEventView>) -> Step
        decreases events.len(),
    {
        if events.len() == 0 {
            self
        } else {
            let before = self.copies_started(events.drop_last());
            if events.last() is Started {
                before.copy_shown()
            } else {
                before
            }
        }
    }

    /// A progress is shown.
    pub open spec fn copy_progress(self, progress: ProgressView) -> Step {
        let bar = match progress.bytes_total {
            Some(total) if total > 0 => self.act(
                ActionView::ReportProgress { done: progress.bytes_done, total },
            ),
            _ => self.act(ActionView::ReportActivity),
        };
        bar.message(
            Phrase::Copying.say(self.state.language),
            progress_text(progress, self.state.language),
        )
    }

    /// A copy has ended. When it was the last one running, the user learns whether any
    /// failed.
    pub open spec fn copy_finished(
        self,
        result: Result<(), Seq<char>>,
        active_copies: usize,
    ) -> Step {
        let copy_error = match result {
            Ok(_) => self.state.copy_error,
            Err(message) => Some(message),
        };
        if active_copies == 0 {
            let quiet = self.with_state(StateView { copy_error: None, ..self.state }).act(
                ActionView::ShowProgress { visible: false },
            ).controls_enabled(true);
            match copy_error {
                Some(message) => quiet.message(
                    Phrase::CopyFailed.say(self.state.language),
                    message,
                ),
                None => quiet.tell(Phrase::CopyDone, Phrase::CopyDoneHint),
            }
        } else {
            self.with_state(StateView { copy_error, ..self.state })
        }
    }

    /// Copies have reported from the background. Every start counts, and of the rest the
    /// last progress and the last outcome.
    pub open spec fn copy_events(self, events: Seq<CopyEventView>, active_copies: usize) -> Step {
        let started = self.copies_started(events);
        let shown = match last_progress(events) {
            Some(progress) => started.copy_progress(progress),
            None => started,
        };
        match last_result(events) {
            Some(result) => shown.copy_finished(result, active_copies),
            None => shown,
        }
    }
}

fn progress_detail(
    name: &str,
    bytes_done: u64,
    bytes_total: Option<u64>,
    files_done: usize,
    language: Language,
) -> (r: String)
    ensures
        r@ == progress_text(
            ProgressView { name: name@, bytes_done, bytes_total, files_done },
            language,
        ),
{
    let mut detail = name.to_string();
    match bytes_total {
        Some(total) if total > 0 => {
            detail.append(Phrase::CopyProgressLead.text(language));
            detail.append(format_bytes(bytes_done).as_str());
            detail.append(" / ");
            detail.append(format_bytes(total).as_str());
            detail.append(Phrase::CopyProgressCount.text(language));
            detail.append(decimal_of(files_done as u64).as_str());
            detail.append(Phrase::CopyCountTail.text(language));
        },
        _ => {
            detail.append(Phrase::CopyCountLead.text(language));
            detail.append(decimal_of(files_done as u64).as_str());
            detail.append(Phrase::CopyCountTail.text(language));
        },
    }
    detail
}

impl Session {
    fn update_copy_progress(
        &self,
        actions: &mut Vec<Action>,
        name: &str,
        bytes_done: u64,
        bytes_total: Option<u64>,
        files_done: usize,
    )
        ensures
            session::step_of(*self, *final(actions)) == session::step_of(
                *self,
                *old(actions),
            ).copy_progress(ProgressView { name: name@, bytes_done, bytes_total, files_done }),
    {
        match bytes_total {
            Some(total) if total > 0 => {
                emit(actions, Action::ReportProgress { done: bytes_done, total });
            },
            _ => {
                emit(actions, Action::ReportActivity);
            },
        }
        let detail = progress_detail(name, bytes_done, bytes_total, files_done, self.language);
        set_message(actions, Phrase::Copying.text(self.language), detail.as_str());
    }

    fn finish_copy(
        &mut self,
        actions: &mut Vec<Action>,
        result: Result<(), String>,
        active_copies: usize,
    )
        ensures
            session::step_of(*final(self), *final(actions)) == session::step_of(
                *old(self),
                *old(actions),
            ).copy_finished(
                match result {
                    Ok(_) => Ok(()),
                    Err(message) => Err(message@),
                },
                active_copies,
            ),
    {
        if let Err(message) = result {
            self.copy_error = Some(message);
        }
        if active_copies == 0 {
            emit(actions, Action::ShowProgress { visible: false });
            set_mtp_controls_enabled(actions, self.locations, true);
            match self.copy_error.take() {
                Some(message) => set_message(
                    actions,
                    Phrase::CopyFailed.text(self.language),
                    message.as_str(),
                ),
                None => tell(actions, self.language, Phrase::CopyDone, Phrase::CopyDoneHint),
            }
        }
    }

    /// Takes in what the copies in the background have reported: see [`Step::copy_events`].
    pub fn drain_copy_events(&mut self, events: Vec<CopyEvent>, active_copies: usize) -> (r: Vec<
        Action,
    >)
        ensures
            session::step_of(*final(self), r) == Step::start(old(self)@).copy_events(
                events.deep_view(),
                active_copies,
            ),
            old(self)@.well_formed() ==> final(self)@.well_formed(),
    {
        let mut actions: Vec<Action> = Vec::new();
        let ghost begin = Step::start(self@);
        assert(session::step_of(*self, actions) =~= begin);
        let ghost views = events.deep_view();
        let mut progress: Option<(String, u64, Option<u64>, usize)> = None;
        let mut outcome: Option<Result<(), String>> = None;
        for i in 0..events.len()
            invariant
                views == events.deep_view(),
                *self == *old(self),
                begin == Step::start(old(self)@),
                session::step_of(*self, actions) == begin.copies_started(views.take(i as int)),
                last_progress(views.take(i as int)) == match progress {
                    Some((name, bytes_done, bytes_total, files_done)) => Some(
                        ProgressView { name: name@, bytes_done, bytes_total, files_done },
                    ),
                    None => None::<ProgressView>,
                },
                last_result(views.take(i as int)) == match outcome {
                    Some(Ok(_)) => Some(Ok::<(), Seq<char>>(())),
                    Some(Err(message)) => Some(Err::<(), Seq<char>>(message@)),
                    None => None::<Result<(), Seq<char>>>,
                },
        {
            let ghost upto = views.take(i + 1);
            assert(upto.drop_last() =~= views.take(i as int));
            assert(upto.last() == events@[i as int].deep_view());
            match &events[i] {
                CopyEvent::Started => {
                    emit(&mut actions, Action::ShowProgress { visible: true });
                    set_mtp_controls_enabled(&mut actions, self.locations, false);
                },
                CopyEvent::Progress { name, bytes_done, bytes_total, files_done } => {
                    progress = Some((name.clone(), *bytes_done, *bytes_total, *files_done));
                },
                CopyEvent::Finished { result } => {
                    outcome = Some(
                        match result {
                            Ok(_) => Ok(()),
                            Err(message) => Err(message.clone()),
                        },
                    );
                },
            }
        }
        assert(views.take(events@.len() as int) =~= views);
        if let Some((name, bytes_done, bytes_total, files_done)) = progress {
            self.update_copy_progress(
                &mut actions,
                name.as_str(),
                bytes_done,
                bytes_total,
                files_done,
            );
        }
        if let Some(result) = outcome {
            self.finish_copy(&mut actions, result, active_copies);
        }
        actions
    }
}

/// When the last running copy ends, the user learns of a failure of any that was noted
/// since the first of them began, and the slate is clean; the controls come back either way.
pub proof fn law_failures_are_told_once(step: Step, result: Result<(), Seq<char>>)
    ensures
        ({
            let after = step.copy_finished(result, 0);
            &&& after.state.copy_error is None
            &&& result is Ok && step.state.copy_error is None ==> after.actions.last() == (
            ActionView::SetMessage {
                title: Phrase::CopyDone.say(step.state.language),
                detail: Phrase::CopyDoneHint.say(step.state.language),
            })
            &&& result is Ok && step.state.copy_error is Some ==> after.actions.last() == (
            ActionView::SetMessage {
                title: Phrase::CopyFailed.say(step.state.language),
                detail: step.state.copy_error->0,
            })
            &&& result is Err ==> after.actions.last() == (ActionView::SetMessage {
                title: Phrase::CopyFailed.say(step.state.language),
                detail: result->Err_0,
            })
            &&& after.actions[step.actions.len() as int + 1] == (ActionView::EnableControls {
                enabled: true,
            })
        }),
{
}

/// As long as another copy runs, the end of one shows nothing, but its failure is kept.
pub proof fn law_failures_wait_for_the_last_copy(
    step: Step,
    result: Result<(), Seq<char>>,
    active_copies: usize,
)
    requires
        active_copies > 0,
    ensures
        step.copy_finished(result, active_copies).actions == step.actions,
        step.copy_finished(result, active_copies).state.copy_error == match result {
            Ok(_) => step.state.copy_error,
            Err(message) => Some(message),
        },
{
}

/// Every promise for dragged things can be kept while the device is open: it leads to a
/// copy of the promised node, under the device's lock, to the path that is asked for.
pub proof fn law_promises_can_be_kept(
    state: StateView,
    indexes: Seq<usize>,
    i: int,
    path: Seq<char>,
    facilities: Facilities,
)
    requires
        0 <= i < drag::promise_views(state.tree, indexes).len(),
        state.connected,
        state.lock is Some,
        facilities.copy_events,
    ensures
        ({
            let marker = drag::promise_views(state.tree, indexes)[i].marker;
            let node = drag::marked_index(marker)->0;
            &&& state.tree.export(node as int) is Some
            &&& state.copy_job(Some(marker), Some(path), facilities) == Ok::<JobView, Seq<char>>(
                JobView {
                    node: state.tree.export(node as int)->0,
                    path,
                    lock: state.lock->0,
                },
            )
        }),
{
    drag::law_promises_lead_back(state.tree, indexes, i);
}

/// A listed object that is dragged out is copied as what the device listed: by its storage and
/// handle, under its own name.
pub proof fn law_listed_objects_are_copied_as_themselves(
    state: StateView,
    index: int,
    storage_id: u32,
    objects: Seq<ObjectView>,
    i: int,
    path: Seq<char>,
    lock: usize,
    facilities: Facilities,
)
    requires
        state.connected,
        state.lock == Some(lock),
        facilities.copy_events,
        0 <= index < state.tree.nodes.len(),
        0 <= i < objects.len(),
        state.tree.nodes.len() + objects.len() <= usize::MAX,
    ensures
        ({
            let after = state.answered(index, storage_id, Ok(objects)).0;
            let node = after.tree.nodes[index].children[i];
            let job = after.copy_job(Some(drag::marker_view(node)), Some(path), facilities);
            &&& job is Ok
            &&& job->Ok_0.node.name == objects[i].filename
            &&& job->Ok_0.node.storage_id == storage_id
            &&& job->Ok_0.node.handle == objects[i].handle
            &&& job->Ok_0.node.is_folder == objects[i].is_folder
            &&& job->Ok_0.path == path
            &&& job->Ok_0.lock == lock
        }),
{
    let after = state.answered(index, storage_id, Ok(objects)).0;
    drag::law_markers_lead_back(after.tree.nodes[index].children[i]);
}

/// A node that can be copied is a file or a folder of the device, and is copied as what it
/// stands for.
pub proof fn law_copies_are_of_the_node(
    tree: TreeView,
    index: int,
    storage_id: u32,
    handle: u32,
    is_folder: bool,
)
    ensures
        !(0 <= index < tree.nodes.len()) ==> tree.export(index) is None,
        0 <= index < tree.nodes.len() && (tree.nodes[index].source is Storage
            || tree.nodes[index].source is Message) ==> tree.export(index) is None,
        0 <= index < tree.nodes.len() && tree.nodes[index].source == (NodeSource::Object {
            storage_id,
            handle,
            is_folder,
        }) ==> {
            let node = tree.export(index)->0;
            &&& tree.export(index) is Some
            &&& node.name == tree.nodes[index].name
            &&& node.storage_id == storage_id
            &&& node.handle == handle
            &&& node.is_folder == is_folder
        },
{
}

/// A promise that cannot be kept is refused with the first reason that holds: nothing was
/// dragged, there is no path, the node cannot be copied, no device is open, nobody takes the
/// progress, or the device has no lock.
pub proof fn law_refused_copies_tell_why(
    state: StateView,
    index: usize,
    path: Seq<char>,
    facilities: Facilities,
)
    ensures
        ({
            let marker = Some(drag::marker_view(index));
            let at = Some(path);
            let copyable = index < state.tree.nodes.len() && state.tree.nodes[index as int].source
                is Object;
            let words = state.language;
            &&& state.copy_job(None, at, facilities) == Err::<JobView, Seq<char>>(
                Phrase::NoDragItem.say(words),
            )
            &&& state.copy_job(marker, None, facilities) == Err::<JobView, Seq<char>>(
                Phrase::NoDragPath.say(words),
            )
            &&& !copyable ==> state.copy_job(marker, at, facilities) == Err::<JobView, Seq<char>>(
                Phrase::NotCopyable.say(words),
            )
            &&& copyable && !state.connected ==> state.copy_job(marker, at, facilities) == Err::<
                JobView,
                Seq<char>,
            >(Phrase::NoDevice.say(words))
            &&& copyable && state.connected && !facilities.copy_events ==> state.copy_job(
                marker,
                at,
                facilities,
            ) == Err::<JobView, Seq<char>>(Phrase::NoCopyChannel.say(words))
            &&& copyable && state.connected && facilities.copy_events && state.lock is None
                ==> state.copy_job(marker, at, facilities) == Err::<JobView, Seq<char>>(
                Phrase::NoLock.say(words),
            )
        }),
{
    drag::law_markers_lead_back(index);
}

/// The beginning of a copy is shown: a message, the progress bar, and controls that do not
/// work meanwhile. Of the session only an earlier failure is forgotten, and that only where no
/// other copy runs.
pub proof fn law_beginning_copies_are_shown(step: Step, active_copies: usize)
    ensures
        ({
            let after = step.copy_begins(active_copies);
            let n = step.actions.len() as int;
            &&& after.actions.len() == n + 4
            &&& after.actions.take(n) == step.actions
            &&& after.actions[n] == (ActionView::SetMessage {
                title: Phrase::Copying.say(step.state.language),
                detail: Phrase::CopyingHint.say(step.state.language),
            })
            &&& after.actions[n + 1] == (ActionView::ShowProgress { visible: true })
            &&& after.actions[n + 2] == (ActionView::EnableControls { enabled: false })
            &&& after.actions[n + 3] == (ActionView::RenderDeviceRows { at: step.state.locations })
            &&& active_copies == 0 ==> after.state.copy_error is None
            &&& active_copies > 0 ==> after.state.copy_error == step.state.copy_error
            &&& after.state.tree == step.state.tree
            &&& after.state.locks == step.state.locks
            &&& after.state.language == step.state.language
            &&& after.state.devices == step.state.devices
            &&& after.state.connected == step.state.connected
            &&& after.state.locations == step.state.locations
            &&& after.state.lock == step.state.lock
            &&& after.state.mount == step.state.mount
            &&& after.state.pending_mount == step.state.pending_mount
        }),
{
    let after = step.copy_begins(active_copies);
    assert(after.actions.take(step.actions.len() as int) =~= step.actions);
}

/// Of several reports the last progress counts, and the last outcome: whatever else comes
/// before or after them.
pub proof fn law_the_last_reports_count(events: Seq<CopyEventView>, k: int)
    requires
        0 <= k < events.len(),
    ensures
        events[k] is Progress && (forall|j: int|
            k < j < events.len() ==> !((#[trigger] events[j]) is Progress)) ==> last_progress(
            events,
        ) == Some(events[k]->progress),
        events[k] is Finished && (forall|j: int|
            k < j < events.len() ==> !((#[trigger] events[j]) is Finished)) ==> last_result(events)
            == Some(events[k]->result),
        (forall|j: int| 0 <= j < events.len() ==> !((#[trigger] events[j]) is Progress))
            ==> last_progress(events) is None,
        (forall|j: int| 0 <= j < events.len() ==> !((#[trigger] events[j]) is Finished))
            ==> last_result(events) is None,
    decreases events.len(),
{
    let before = events.drop_last();
    assert(forall|j: int| 0 <= j < before.len() ==> before[j] == events[j]);
    if k < before.len() {
        law_the_last_reports_count(before, k);
    } else if before.len() > 0 {
        law_the_last_reports_count(before, 0);
    }
    assert(events.last() == events[events.len() - 1]);
}

/// A progress is shown with the name of what is copied, how far it is of how much, and how
/// many files are done; where nothing is known of how much, with the files alone.
pub proof fn law_progress_is_told(progress: ProgressView, language: Language, step: Step)
    ensures
        ({
            let told = progress_text(progress, language);
            let count = text::decimal(progress.files_done as nat) + Phrase::CopyCountTail.say(
                language,
            );
            let of = util::bytes_text(progress.bytes_done as nat) + " / "@ + util::bytes_text(
                progress.bytes_total->0 as nat,
            );
            let known = progress.bytes_total is Some && progress.bytes_total->0 > 0;
            &&& progress.name.is_prefix_of(told)
            &&& told.skip(told.len() - count.len()) == count
            &&& known ==> text::holds_text(told, of)
            &&& step.copy_progress(progress).state == step.state
            &&& step.copy_progress(progress).actions.len() == step.actions.len() + 2
            &&& known ==> step.copy_progress(progress).actions[step.actions.len() as int] == (
            ActionView::ReportProgress {
                done: progress.bytes_done,
                total: progress.bytes_total->0,
            })
            &&& !known ==> step.copy_progress(progress).actions[step.actions.len() as int]
                == ActionView::ReportActivity
            &&& step.copy_progress(progress).actions.last() == (ActionView::SetMessage {
                title: Phrase::Copying.say(step.state.language),
                detail: progress_text(progress, step.state.language),
            })
        }),
{
    let told = progress_text(progress, language);
    let count = text::decimal(progress.files_done as nat) + Phrase::CopyCountTail.say(language);
    let of = util::bytes_text(progress.bytes_done as nat) + " / "@ + util::bytes_text(
        progress.bytes_total->0 as nat,
    );
    assert(progress.name =~= told.subrange(0, progress.name.len() as int));
    assert(told.skip(told.len() - count.len()) =~= count);
    if progress.bytes_total is Some && progress.bytes_total->0 > 0 {
        let start = progress.name.len() + Phrase::CopyProgressLead.say(language).len();
        assert(told.subrange(start as int, start as int + of.len()) =~= of);
    }
}

/// Reports of copies change nothing in the session but the failure that is kept, and every
/// start among them is shown.
pub proof fn law_reports_keep_the_session(
    step: Step,
    events: Seq<CopyEventView>,
    active_copies: usize,
)
    ensures
        ({
            let after = step.copy_events(events, active_copies).state;
            &&& after.devices == step.state.devices
            &&& after.connected == step.state.connected
            &&& after.locations == step.state.locations
            &&& after.pending_mount == step.state.pending_mount
            &&& after.mount == step.state.mount
            &&& after.lock == step.state.lock
            &&& after.locks == step.state.locks
            &&& after.tree == step.state.tree
            &&& after.language == step.state.language
            &&& last_result(events) is None ==> after.copy_error == step.state.copy_error
        }),
        step.copies_started(events).state == step.state,
        events.len() > 0 && events.last() is Started ==> step.copies_started(events).actions
            == step.copies_started(events.drop_last()).actions.push(
            ActionView::ShowProgress { visible: true },
        ).push(ActionView::EnableControls { enabled: false }).push(
            ActionView::RenderDeviceRows { at: step.state.locations },
        ),
        events.len() > 0 && !(events.last() is Started) ==> step.copies_started(events)
            == step.copies_started(events.drop_last()),
    decreases events.len(),
{
    lemma_starts_keep_state(step, events);
    if events.len() > 0 {
        lemma_starts_keep_state(step, events.drop_last());
    }
}

proof fn lemma_starts_keep_state(step: Step, events: Seq<CopyEventView>)
    ensures
        step.copies_started(events).state == step.state,
    decreases events.len(),
{
    if events.len() > 0 {
        lemma_starts_keep_state(step, events.drop_last());
    }
}

/// What the contracts say of a copy and its reports is what they hold.
pub proof fn law_copies_show_their_fields(
    node: ExportNode,
    job: CopyJob,
    name: String,
    bytes_done: u64,
    bytes_total: Option<u64>,
    files_done: usize,
)
    ensures
        node@.name == node.name@,
        node@.storage_id == node.storage_id,
        node@.handle == node.handle,
        node@.is_folder == node.is_folder,
        job@.node == job.node@,
        job@.path == job.path@,
        job@.lock == job.lock,
        (CopyEvent::Progress { name, bytes_done, bytes_total, files_done }).deep_view() == (
        CopyEventView::Progress {
            progress: ProgressView { name: name@, bytes_done, bytes_total, files_done },
        }),
        (CopyEvent::Finished { result: Err(name) }).deep_view() == (CopyEventView::Finished {
            result: Err(name@),
        }),
        (CopyEvent::Finished { result: Ok(()) }).deep_view() == (CopyEventView::Finished {
            result: Ok(()),
        }),
        CopyEvent::Started.deep_view() == CopyEventView::Started,
{
}

/// A dragged file or folder of the open device is copied as itself, to the path that is asked
/// for, under the device's lock. What carries no marker of a dragged node is refused.
pub proof fn law_dragged_nodes_are_copied_as_themselves(
    state: StateView,
    index: usize,
    storage_id: u32,
    handle: u32,
    is_folder: bool,
    path: Seq<char>,
    facilities: Facilities,
    stray: Seq<char>,
)
    ensures
        state.connected && facilities.copy_events && state.lock is Some && index
            < state.tree.nodes.len() && state.tree.nodes[index as int].source == (
        NodeSource::Object { storage_id, handle, is_folder }) ==> state.copy_job(
            Some(drag::marker_view(index)),
            Some(path),
            facilities,
        ) == Ok::<JobView, Seq<char>>(
            JobView {
                node: ExportView {
                    name: state.tree.nodes[index as int].name,
                    storage_id,
                    handle,
                    is_folder,
                },
                path,
                lock: state.lock->0,
            },
        ),
        drag::marked_index(stray) is None ==> state.copy_job(Some(stray), Some(path), facilities)
            == Err::<JobView, Seq<char>>(Phrase::NoDragItem.say(state.language)),
{
    drag::law_markers_lead_back(index);
}

/// Reports are shown in one go: the starts, then the last progress, then the last outcome. The
/// outcome of the last running copy tells the failure that came with it, else one that was
/// kept, and else that all is done.
pub proof fn law_reports_are_shown_in_one_go(
    step: Step,
    events: Seq<CopyEventView>,
    active_copies: usize,
)
    ensures
        ({
            let after = step.copy_events(events, active_copies);
            let words = step.state.language;
            let kept = step.state.copy_error;
            &&& last_progress(events) is None && last_result(events) is None ==> after
                == step.copies_started(events)
            &&& last_progress(events) is Some && last_result(events) is None
                ==> after.actions.len() == step.copies_started(events).actions.len() + 2
            &&& last_progress(events) is Some ==> after.actions[step.copies_started(
                events,
            ).actions.len() as int + 1] == (ActionView::SetMessage {
                title: Phrase::Copying.say(words),
                detail: progress_text(last_progress(events)->0, words),
            })
            &&& last_result(events) is Some && last_result(events)->0 is Err ==> (if active_copies
                == 0 {
                after.state.copy_error is None && after.actions.last() == (
                ActionView::SetMessage {
                    title: Phrase::CopyFailed.say(words),
                    detail: last_result(events)->0->Err_0,
                })
            } else {
                after.state.copy_error == Some(last_result(events)->0->Err_0)
            })
            &&& last_result(events) is Some && last_result(events)->0 is Ok ==> (if active_copies
                > 0 {
                after.state.copy_error == kept
            } else if kept is Some {
                after.state.copy_error is None && after.actions.last() == (
                ActionView::SetMessage { title: Phrase::CopyFailed.say(words), detail: kept->0 })
            } else {
                after.state.copy_error is None && after.actions.last() == (
                ActionView::SetMessage {
                    title: Phrase::CopyDone.say(words),
                    detail: Phrase::CopyDoneHint.say(words),
                })
            })
        }),
{
    lemma_starts_keep_state(step, events);
}

/// When the last running copy ends, the progress bar goes, the controls work again and show
/// the devices, and the user is told how it went. Nothing else of the session changes.
pub proof fn law_ended_copies_free_the_controls(step: Step, result: Result<(), Seq<char>>)
    ensures
        ({
            let after = step.copy_finished(result, 0);
            let n = step.actions.len() as int;
            &&& after.actions.len() == n + 4
            &&& after.actions[n] == (ActionView::ShowProgress { visible: false })
            &&& after.actions[n + 1] == (ActionView::EnableControls { enabled: true })
            &&& after.actions[n + 2] == (ActionView::UpdateMountControls {
                at: step.state.locations,
            })
            &&& after.actions[n + 3] is SetMessage
            &&& after.state == (StateView { copy_error: None, ..step.state })
        }),
        forall|active: usize|
            active > 0 ==> #[trigger] step.copy_finished(result, active).state == (StateView {
                copy_error: step.copy_finished(result, active).state.copy_error,
                ..step.state
            }),
{
}

/// The text of a progress is made of the name, how far the copy is of how much where that is
/// known, and how many files are done.
pub proof fn law_progress_texts_tell_name_and_numbers(progress: ProgressView, language: Language)
    ensures
        ({
            let count = text::decimal(progress.files_done as nat) + Phrase::CopyCountTail.say(
                language,
            );
            let total = progress.bytes_total->0;
            let known = progress.bytes_total is Some && total > 0;
            &&& known ==> progress_text(progress, language) == progress.name + (
            Phrase::CopyProgressLead.say(language) + util::bytes_text(progress.bytes_done as nat)
                + " / "@ + util::bytes_text(total as nat) + Phrase::CopyProgressCount.say(language)
                + count)
            &&& !known ==> progress_text(progress, language) == progress.name + (
            Phrase::CopyCountLead.say(language) + count)
        }),
{
    let count = text::decimal(progress.files_done as nat) + Phrase::CopyCountTail.say(language);
    let total = progress.bytes_total->0;
    assert(progress.bytes_total is Some && total > 0 ==> progress_text(progress, language)
        =~= progress.name + (Phrase::CopyProgressLead.say(language) + util::bytes_text(
        progress.bytes_done as nat,
    ) + " / "@ + util::bytes_text(total as nat) + Phrase::CopyProgressCount.say(language)
        + count));
    assert(!(progress.bytes_total is Some && total > 0) ==> progress_text(progress, language)
        =~= progress.name + (Phrase::CopyCountLead.say(language) + count));
}

/// What the contracts say of a promise's outcome and of optional text is what they hold.
pub proof fn law_outcomes_show_their_fields(
    job: CopyJob,
    actions: Vec<Action>,
    message: String,
    slice: &str,
)
    ensures
        job_result(Ok((job, actions))) == Ok::<JobView, Seq<char>>(job@),
        job_result(Err(message)) == Err::<JobView, Seq<char>>(message@),
        slice_option(Some(slice)) == Some(slice@),
        slice_option(None) is None,
{
}

} // verus!
