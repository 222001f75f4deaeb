//! Copying a file, or a folder with everything below it, from the device: what to do next,
//! and what to report on the way.
use crate::copy::{CopyEvent, CopyEventView, ExportNode, ExportView, ProgressView};
use crate::model::{ObjectInfo, ObjectView};
use crate::paths;
use crate::phrases::{Language, Phrase};
use crate::util;
use crate::util::sanitize_filename;
use vstd::prelude::*;

verus! {

/// Where something is to be copied to.
#[derive(Clone, Debug, PartialEq, Eq)]
pub enum Place {
    /// At a path.
    At { path: String },
    /// In a folder, under a name that is free there when the time comes.
    In { parent: String, name: String },
}

/// Where something is to be copied to.
#[verifier::ext_equal]
pub enum PlaceView {
    At { path: Seq<char> },
    In { parent: Seq<char>, name: Seq<char> },
}

impl DeepView for Place {
    type V = PlaceView;

    open spec fn deep_view(&self) -> PlaceView {
        match *self {
            Place::At { path } => PlaceView::At { path: path@ },
            Place::In { parent, name } => PlaceView::In { parent: parent@, name: name@ },
        }
    }
}

/// Something that waits to be copied.
#[derive(Clone, Debug, PartialEq, Eq)]
pub struct Pending {
    pub node: ExportNode,
    pub place: Place,
}

/// What waits to be copied.
#[verifier::ext_equal]
pub struct PendingView {
    pub node: ExportView,
    pub place: PlaceView,
}

impl DeepView for Pending {
    type V = PendingView;

    open spec fn deep_view(&self) -> PendingView {
        PendingView { node: self.node@, place: self.place.deep_view() }
    }
}

/// What is being copied, and to which path.
#[derive(Clone, Debug, PartialEq, Eq)]
pub struct Current {
    pub node: ExportNode,
    pub path: String,
}

/// What is being copied, and to which path.
#[verifier::ext_equal]
pub struct CurrentView {
    pub node: ExportView,
    pub path: Seq<char>,
}

impl DeepView for Current {
    type V = CurrentView;

    open spec fn deep_view(&self) -> CurrentView {
        CurrentView { node: self.node@, path: self.path@ }
    }
}

/// A copy under way. What waits is kept with the next one last.
#[derive(Clone, Debug)]
pub struct Exporter {
    stack: Vec<Pending>,
    current: Option<Current>,
    files_done: usize,
}

/// What a copy under way holds: what waits, the next one first; what is being copied; and
/// how many files have been copied.
#[verifier::ext_equal]
pub struct ExporterView {
    pub queue: Seq<PendingView>,
    pub current: Option<CurrentView>,
    pub files_done: usize,
}

spec fn queue_of(stack: Seq<Pending>) -> Seq<PendingView> {
    Seq::new(stack.len(), |i: int| stack[stack.len() - 1 - i].deep_view())
}

impl View for Exporter {
    type V = ExporterView;

    closed spec fn view(&self) -> ExporterView {
        ExporterView {
            queue: queue_of(self.stack@),
            current: match self.current {
                Some(current) => Some(current.deep_view()),
                None => None,
            },
            files_done: self.files_done,
        }
    }
}

/// An object in a folder as something to copy.
pub open spec fn child_view(folder: ExportView, object: ObjectView) -> ExportView {
    ExportView {
        name: object.filename,
        storage_id: folder.storage_id,
        handle: object.handle,
        is_folder: object.is_folder,
    }
}

/// An object in a folder that is being copied waits for its place in the folder's copy.
pub open spec fn child_pending(folder: CurrentView, object: ObjectView) -> PendingView {
    PendingView {
        node: child_view(folder.node, object),
        place: PlaceView::In { parent: folder.path, name: util::sanitized(object.filename) },
    }
}

/// What to do next.
#[derive(Clone, Debug, PartialEq, Eq)]
pub enum ExportAction {
    /// Find a free name in a folder.
    FindPlace { parent: String, name: String },
    /// Make a folder.
    MakeFolder { path: String },
    /// Copy a file.
    CopyFile { storage_id: u32, handle: u32, path: String },
    /// Nothing: everything is copied.
    Finish,
}

/// What to do next.
#[verifier::ext_equal]
pub enum ExportActionView {
    FindPlace { parent: Seq<char>, name: Seq<char> },
    MakeFolder { path: Seq<char> },
    CopyFile { storage_id: u32, handle: u32, path: Seq<char> },
    Finish,
}

impl DeepView for ExportAction {
    type V = ExportActionView;

    open spec fn deep_view(&self) -> ExportActionView {
        match *self {
            ExportAction::FindPlace { parent, name } => ExportActionView::FindPlace {
                parent: parent@,
                name: name@,
            },
            ExportAction::MakeFolder { path } => ExportActionView::MakeFolder { path: path@ },
            ExportAction::CopyFile { storage_id, handle, path } => ExportActionView::CopyFile {
                storage_id,
                handle,
                path: path@,
            },
            ExportAction::Finish => ExportActionView::Finish,
        }
    }
}

impl ExporterView {
    /// What to do next.
    pub open spec fn next_action(self) -> ExportActionView {
        if self.queue.len() == 0 {
            ExportActionView::Finish
        } else {
            let node = self.queue[0].node;
            match self.queue[0].place {
                PlaceView::In { parent, name } => ExportActionView::FindPlace { parent, name },
                PlaceView::At { path } => if node.is_folder {
                    ExportActionView::MakeFolder { path }
                } else {
                    ExportActionView::CopyFile {
                        storage_id: node.storage_id,
                        handle: node.handle,
                        path,
                    }
                },
            }
        }
    }

    /// The next one has its place.
    pub open spec fn placed(self, path: Seq<char>) -> ExporterView {
        ExporterView {
            queue: self.queue.update(
                0,
                PendingView { place: PlaceView::At { path }, ..self.queue[0] },
            ),
            ..self
        }
    }

    /// The next one is being copied, if it has its place.
    pub open spec fn entered(self) -> ExporterView {
        if self.queue.len() > 0 && self.queue[0].place is At {
            ExporterView {
                queue: self.queue.drop_first(),
                current: Some(
                    CurrentView { node: self.queue[0].node, path: self.queue[0].place->At_path },
                ),
                ..self
            }
        } else {
            self
        }
    }

    /// The folder that is being copied holds the given objects, which come next.
    pub open spec fn listed(self, objects: Seq<ObjectView>) -> ExporterView {
        ExporterView {
            queue: objects.map_values(|o: ObjectView| child_pending(self.current->0, o))
                + self.queue,
            current: None,
            ..self
        }
    }

    /// The file that is being copied is done.
    pub open spec fn copied(self) -> ExporterView {
        ExporterView { current: None, files_done: (self.files_done + 1) as usize, ..self }
    }
}

proof fn lemma_push_pending(before: Seq<Pending>, pending: Pending)
    ensures
        queue_of(before.push(pending)) == seq![pending.deep_view()] + queue_of(before),
{
    assert(queue_of(before.push(pending)) =~= seq![pending.deep_view()] + queue_of(before));
}

impl Exporter {
    /// A copy of a node to a path.
    pub fn new(node: ExportNode, path: String) -> (r: Exporter)
        ensures
            r@ == (ExporterView {
                queue: seq![PendingView { node: node@, place: PlaceView::At { path: path@ } }],
                current: None,
                files_done: 0,
            }),
    {
        let mut stack: Vec<Pending> = Vec::new();
        stack.push(Pending { node, place: Place::At { path } });
        let r = Exporter { stack, current: None, files_done: 0 };
        assert(r@.queue =~= seq![
            PendingView { node: node@, place: PlaceView::At { path: path@ } },
        ]);
        r
    }

    /// How many files and folders are still to be taken up.
    pub fn pending(&self) -> (r: usize)
        ensures
            r == self@.queue.len(),
    {
        self.stack.len()
    }

    /// How many files have been copied.
    pub fn files_done(&self) -> (r: usize)
        ensures
            r == self@.files_done,
    {
        self.files_done
    }

    /// Takes up the next one and says what to do: see [`ExporterView::next_action`].
    pub fn advance(&mut self) -> (r: ExportAction)
        ensures
            r.deep_view() == old(self)@.next_action(),
            final(self)@ == old(self)@.entered(),
    {
        let ghost queue = self@.queue;
        match self.stack.pop() {
            None => ExportAction::Finish,
            Some(pending) => {
                assert(queue[0] == pending.deep_view());
                match pending.place {
                    Place::In { parent, name } => {
                        let action = ExportAction::FindPlace {
                            parent: parent.clone(),
                            name: name.clone(),
                        };
                        self.stack.push(
                            Pending { node: pending.node, place: Place::In { parent, name } },
                        );
                        assert(self@ =~= old(self)@);
                        action
                    },
                    Place::At { path } => {
                        let action = if pending.node.is_folder {
                            ExportAction::MakeFolder { path: path.clone() }
                        } else {
                            ExportAction::CopyFile {
                                storage_id: pending.node.storage_id,
                                handle: pending.node.handle,
                                path: path.clone(),
                            }
                        };
                        self.current = Some(Current { node: pending.node, path });
                        assert(self@.queue =~= queue.drop_first());
                        action
                    },
                }
            },
        }
    }

    /// Takes in the free path that was found for the next one.
    pub fn placed(&mut self, path: String)
        requires
            old(self)@.queue.len() > 0,
        ensures
            final(self)@ == old(self)@.placed(path@),
    {
        let last: usize = self.stack.len() - 1;
        self.stack[last].place = Place::At { path };
        assert(self@.queue =~= old(self)@.placed(path@).queue);
    }

    /// The folder that is being copied has been made: gives what to report.
    pub fn folder_made(&self) -> (r: CopyEvent)
        requires
            self@.current is Some,
        ensures
            r.deep_view() == (CopyEventView::Progress {
                progress: ProgressView {
                    name: self@.current->0.node.name,
                    bytes_done: 0,
                    bytes_total: None,
                    files_done: self@.files_done,
                },
            }),
    {
        let name = match &self.current {
            Some(current) => current.node.name.clone(),
            None => String::new(),
        };
        CopyEvent::Progress {
            name,
            bytes_done: 0,
            bytes_total: None,
            files_done: self.files_done,
        }
    }

    /// The storage and the handle of what is being copied.
    pub fn current_object(&self) -> (r: Option<(u32, u32)>)
        ensures
            r == match self@.current {
                Some(current) => Some((current.node.storage_id, current.node.handle)),
                None => None::<(u32, u32)>,
            },
    {
        match &self.current {
            Some(current) => Some((current.node.storage_id, current.node.handle)),
            None => None,
        }
    }

    /// Takes in the objects of the folder that is being copied. They come next, in their
    /// order.
    pub fn folder_listed(&mut self, objects: &Vec<ObjectInfo>)
        requires
            old(self)@.current is Some,
        ensures
            final(self)@ == old(self)@.listed(objects.deep_view()),
    {
        let ghost before = self@;
        let ghost views = objects.deep_view();
        let ghost make = |o: ObjectView| child_pending(before.current->0, o);
        if let Some(current) = self.current.take() {
            let mut i: usize = objects.len();
            assert(views.skip(i as int).map_values(make) + before.queue =~= before.queue);
            while i > 0
                invariant
                    i <= objects@.len(),
                    views == objects.deep_view(),
                    before.current == Some(current.deep_view()),
                    make == (|o: ObjectView| child_pending(before.current->0, o)),
                    queue_of(self.stack@) == views.skip(i as int).map_values(make) + before.queue,
                    self.files_done == before.files_done,
                    self.current is None,
                decreases i,
            {
                i = i - 1;
                let object = &objects[i];
                assert(views[i as int] == object.deep_view());
                let pending = Pending {
                    node: ExportNode {
                        name: object.filename.clone(),
                        storage_id: current.node.storage_id,
                        handle: object.handle,
                        is_folder: object.is_folder(),
                    },
                    place: Place::In {
                        parent: current.path.clone(),
                        name: sanitize_filename(object.filename.as_str()),
                    },
                };
                assert(pending.deep_view() == make(views[i as int]));
                proof {
                    lemma_push_pending(self.stack@, pending);
                }
                self.stack.push(pending);
                assert(queue_of(self.stack@) =~= views.skip(i as int).map_values(make)
                    + before.queue);
            }
            assert(views.skip(0) =~= views);
            assert(self@ =~= before.listed(views));
        }
    }

    /// The file that is being copied, of `total` bytes, is done: gives what to report.
    pub fn file_copied(&mut self, total: u64) -> (r: CopyEvent)
        requires
            old(self)@.current is Some,
            old(self)@.files_done < usize::MAX,
        ensures
            final(self)@ == old(self)@.copied(),
            r.deep_view() == (CopyEventView::Progress {
                progress: ProgressView {
                    name: old(self)@.current->0.node.name,
                    bytes_done: total,
                    bytes_total: Some(total),
                    files_done: (old(self)@.files_done + 1) as usize,
                },
            }),
    {
        let name = match &self.current {
            Some(current) => current.node.name.clone(),
            None => String::new(),
        };
        self.current = None;
        self.files_done = self.files_done + 1;
        CopyEvent::Progress {
            name,
            bytes_done: total,
            bytes_total: Some(total),
            files_done: self.files_done,
        }
    }

    /// A piece of the file that is being copied has been written: gives what to report, if
    /// the last such report is at least 120 milliseconds old.
    pub fn chunk_written(&self, bytes_done: u64, total: u64, elapsed_ms: u128) -> (r: Option<
        CopyEvent,
    >)
        requires
            self@.current is Some,
        ensures
            r is Some == (elapsed_ms >= 120),
            r is Some ==> r->0.deep_view() == (CopyEventView::Progress {
                progress: ProgressView {
                    name: self@.current->0.node.name,
                    bytes_done,
                    bytes_total: Some(total),
                    files_done: self@.files_done,
                },
            }),
    {
        if elapsed_ms < 120 {
            return None;
        }
        let name = match &self.current {
            Some(current) => current.node.name.clone(),
            None => String::new(),
        };
        Some(
            CopyEvent::Progress {
                name,
                bytes_done,
                bytes_total: Some(total),
                files_done: self.files_done,
            },
        )
    }
}

/// What can go wrong on the Mac's side of the work.
#[derive(Clone, Copy, Debug, PartialEq, Eq, Structural)]
pub enum Fault {
    /// A folder could not be made.
    Folder,
    /// The folder that a file goes into could not be made.
    Target,
    /// A file could not be made or written.
    Write,
    /// A copy could not be started.
    CopyRuntime,
    /// A connection could not be started.
    ConnectRuntime,
}

impl Fault {
    /// How the report of the fault begins.
    pub open spec fn lead(self, language: Language) -> Seq<char> {
        match self {
            Fault::Folder => Phrase::FolderFaultLead.say(language),
            Fault::Target => Phrase::TargetFaultLead.say(language),
            Fault::Write => Phrase::WriteFaultLead.say(language),
            Fault::CopyRuntime => Phrase::CopyRuntimeFaultLead.say(language),
            Fault::ConnectRuntime => Phrase::ConnectRuntimeFaultLead.say(language),
        }
    }

    /// The report of the fault; `err` is the system's own text.
    pub fn report(self, err: &str, language: Language) -> (r: String)
        ensures
            r@ == self.lead(language) + err@,
    {
        let mut r = match self {
            Fault::Folder => Phrase::FolderFaultLead.text(language).to_string(),
            Fault::Target => Phrase::TargetFaultLead.text(language).to_string(),
            Fault::Write => Phrase::WriteFaultLead.text(language).to_string(),
            Fault::CopyRuntime => Phrase::CopyRuntimeFaultLead.text(language).to_string(),
            Fault::ConnectRuntime => Phrase::ConnectRuntimeFaultLead.text(language).to_string(),
        };
        r.append(err);
        r
    }
}

/// A file or folder of the device with everything below it.
pub ghost struct DeviceTree {
    pub node: ExportView,
    pub children: Seq<DeviceTree>,
}

impl DeviceTree {
    /// The node and everything below it, each folder before what it holds.
    pub open spec fn everything(self) -> Seq<ExportView>
        decreases self,
    {
        if self.node.is_folder {
            seq![self.node] + everything_in(self.children)
        } else {
            seq![self.node]
        }
    }

    /// Whether the tree is what the device lists.
    pub open spec fn is_listed(self, list: spec_fn(ExportView) -> Seq<ObjectView>) -> bool
        decreases self,
    {
        self.node.is_folder ==> {
            &&& self.children.len() == list(self.node).len()
            &&& forall|i: int|
                0 <= i < self.children.len() ==> (#[trigger] self.children[i]).node == child_view(
                    self.node,
                    list(self.node)[i],
                )
            &&& all_listed(self.children, list)
        }
    }
}

/// Everything in a row of trees, one tree after the other.
pub open spec fn everything_in(forest: Seq<DeviceTree>) -> Seq<ExportView>
    decreases forest,
{
    if forest.len() == 0 {
        Seq::empty()
    } else {
        forest[0].everything() + everything_in(forest.drop_first())
    }
}

/// Whether each tree of a row is what the device lists.
pub open spec fn all_listed(
    forest: Seq<DeviceTree>,
    list: spec_fn(ExportView) -> Seq<ObjectView>,
) -> bool
    decreases forest,
{
    forest.len() == 0 || (forest[0].is_listed(list) && all_listed(forest.drop_first(), list))
}

/// How many of the nodes are files.
pub open spec fn file_count(nodes: Seq<ExportView>) -> nat
    decreases nodes.len(),
{
    if nodes.len() == 0 {
        0
    } else {
        file_count(nodes.drop_first()) + if nodes[0].is_folder {
            0nat
        } else {
            1nat
        }
    }
}

/// What a copy did: what it copied, in order, and how it ended.
pub ghost struct Run {
    pub visits: Seq<CurrentView>,
    pub end: ExporterView,
}

/// A number of steps of a copy in which nothing fails. The device answers with `list`; the
/// free path for a name in a folder, with so many steps to go, is `place`.
pub open spec fn run(
    exporter: ExporterView,
    list: spec_fn(ExportView) -> Seq<ObjectView>,
    place: spec_fn(nat, Seq<char>, Seq<char>) -> Seq<char>,
    steps: nat,
) -> Run
    decreases steps,
{
    if steps == 0 || exporter.queue.len() == 0 {
        Run { visits: Seq::empty(), end: exporter }
    } else {
        let ready = match exporter.queue[0].place {
            PlaceView::In { parent, name } => exporter.placed(place(steps, parent, name)),
            PlaceView::At { .. } => exporter,
        };
        let entered = ready.entered();
        let node = entered.current->0.node;
        let after = if node.is_folder {
            entered.listed(list(node))
        } else {
            entered.copied()
        };
        let rest = run(after, list, place, (steps - 1) as nat);
        Run { visits: seq![entered.current->0] + rest.visits, end: rest.end }
    }
}

proof fn lemma_forests_add(
    a: Seq<DeviceTree>,
    b: Seq<DeviceTree>,
    list: spec_fn(ExportView) -> Seq<ObjectView>,
)
    ensures
        everything_in(a + b) == everything_in(a) + everything_in(b),
        all_listed(a, list) && all_listed(b, list) ==> all_listed(a + b, list),
    decreases a.len(),
{
    if a.len() == 0 {
        assert(a + b =~= b);
        assert(everything_in(a) + everything_in(b) =~= everything_in(b));
    } else {
        lemma_forests_add(a.drop_first(), b, list);
        assert((a + b).drop_first() =~= a.drop_first() + b);
        assert((a + b)[0] == a[0]);
        assert(everything_in(a + b) =~= everything_in(a) + everything_in(b));
    }
}

/// A copy in which nothing fails copies every file and folder that the device lists below
/// what was asked for, each once, a folder before what it holds and everything in the
/// device's order, and then is done. It has counted the files.
pub proof fn law_export_copies_everything(
    exporter: ExporterView,
    forest: Seq<DeviceTree>,
    list: spec_fn(ExportView) -> Seq<ObjectView>,
    place: spec_fn(nat, Seq<char>, Seq<char>) -> Seq<char>,
)
    requires
        exporter.queue.len() == forest.len(),
        forall|i: int|
            0 <= i < forest.len() ==> (#[trigger] exporter.queue[i]).node == forest[i].node,
        all_listed(forest, list),
        exporter.files_done + file_count(everything_in(forest)) <= usize::MAX,
    ensures
        ({
            let everything = everything_in(forest);
            let done = run(exporter, list, place, everything.len());
            &&& done.visits.map_values(|c: CurrentView| c.node) == everything
            &&& done.end.queue.len() == 0
            &&& done.end.files_done == exporter.files_done + file_count(everything)
        }),
    decreases everything_in(forest).len(),
{
    let everything = everything_in(forest);
    let done = run(exporter, list, place, everything.len());
    let nodes = |c: CurrentView| c.node;
    if forest.len() == 0 {
        assert(done.visits.map_values(nodes) =~= everything);
    } else {
        let tree = forest[0];
        let below = if tree.node.is_folder {
            tree.children
        } else {
            Seq::empty()
        };
        let rest = below + forest.drop_first();
        lemma_forests_add(below, forest.drop_first(), list);
        assert(tree.everything() =~= seq![tree.node] + everything_in(below));
        assert(everything =~= seq![tree.node] + everything_in(rest));
        assert(everything.drop_first() =~= everything_in(rest));
        let ready = match exporter.queue[0].place {
            PlaceView::In { parent, name } => exporter.placed(
                place(everything.len(), parent, name),
            ),
            PlaceView::At { .. } => exporter,
        };
        let entered = ready.entered();
        assert(entered.current->0.node == tree.node);
        let after = if tree.node.is_folder {
            entered.listed(list(tree.node))
        } else {
            entered.copied()
        };
        assert(tree.is_listed(list));
        assert(entered.queue =~= exporter.queue.drop_first());
        if tree.node.is_folder {
            assert(tree.children.len() == list(tree.node).len());
        }
        assert(after.queue.len() == rest.len());
        assert forall|i: int| 0 <= i < rest.len() implies (#[trigger] after.queue[i]).node
            == rest[i].node by {
            if i < below.len() {
                assert(rest[i] == tree.children[i]);
            } else {
                let j = i - below.len() + 1;
                assert(rest[i] == forest[j]);
                assert(exporter.queue[j].node == forest[j].node);
                assert(after.queue[i] == exporter.queue[j]);
            }
        }
        law_export_copies_everything(after, rest, list, place);
        let later = run(after, list, place, everything_in(rest).len());
        assert(done.visits =~= seq![entered.current->0] + later.visits);
        assert(done.visits.map_values(nodes) =~= seq![tree.node] + later.visits.map_values(nodes));
    }
}

/// Whatever a device calls an object, every place tried for its copy stands directly in the
/// copy of its folder: below the folder's path there is no further slash, and what follows is
/// a component of a path. Only for an object called `.` or `..` the first place tried is the
/// folder itself or the one above it; the numbered places are in the folder again.
pub proof fn law_copies_stay_in_their_folder(
    folder: CurrentView,
    object: ObjectView,
    attempt: nat,
)
    ensures
        ({
            let pending = child_pending(folder, object);
            let path = paths::child_candidate(
                pending.place->parent,
                pending.place->name,
                attempt,
            );
            &&& folder.path.is_prefix_of(path)
            &&& forall|i: int| folder.path.len() < i < path.len() ==> path[i] != '/'
            &&& paths::is_component(paths::child_part(folder.path, path)) || attempt == 0 && (
            object.filename == "."@ || object.filename == ".."@)
        }),
{
    reveal_strlit("preview.bin");
    reveal_strlit(".");
    reveal_strlit("..");
    let name = util::sanitized(object.filename);
    if name == "."@ {
        assert(name[0] == util::safe_char(object.filename[0]));
        assert(object.filename =~= "."@);
    }
    if name == ".."@ {
        assert(name.len() == 2);
        assert(name[0] == util::safe_char(object.filename[0]));
        assert(name[1] == util::safe_char(object.filename[1]));
        assert(object.filename =~= ".."@);
    }
    util::law_sanitized_is_safe(object.filename);
    paths::law_children_stand_in_their_directory(folder.path, name, attempt);
}

/// The objects of a folder that is being copied come next, all of them, in the device's
/// order, and then what waited before. Each is the object that the device listed in the
/// folder's own storage, and waits for a place in the copy of that folder: under its own name
/// where a path can carry it, and else with every character kept that a path can carry.
pub proof fn law_listed_objects_keep_their_names(
    exporter: ExporterView,
    objects: Seq<ObjectView>,
    i: int,
)
    requires
        exporter.current is Some,
        0 <= i < objects.len(),
    ensures
        ({
            let folder = exporter.current->0;
            let after = exporter.listed(objects);
            let child = after.queue[i];
            let name = objects[i].filename;
            &&& after.queue.len() == objects.len() + exporter.queue.len()
            &&& after.queue.skip(objects.len() as int) == exporter.queue
            &&& after.files_done == exporter.files_done
            &&& after.current is None
            &&& child.node.name == name
            &&& child.node.storage_id == folder.node.storage_id
            &&& child.node.handle == objects[i].handle
            &&& child.node.is_folder == objects[i].is_folder
            &&& child.place is In
            &&& child.place->parent == folder.path
            &&& name.len() > 0 && !name.contains('/') && !name.contains('\\') && !name.contains(
                ':',
            ) && !name.contains('\0') ==> child.place->name == name
            &&& name.len() > 0 ==> child.place->name.len() == name.len()
            &&& forall|k: int|
                0 <= k < name.len() && !(name[k] == '/' || name[k] == '\\' || name[k] == ':'
                    || name[k] == '\0') ==> #[trigger] child.place->name[k] == name[k]
            &&& forall|k: int|
                0 <= k < name.len() && (name[k] == '/' || name[k] == '\\' || name[k] == ':'
                    || name[k] == '\0') ==> #[trigger] child.place->name[k] == '_'
            &&& name.len() == 0 ==> child.place->name == "preview.bin"@
        }),
{
    util::law_sanitized_keeps_the_rest(objects[i].filename);
    let after = exporter.listed(objects);
    assert(after.queue.skip(objects.len() as int) =~= exporter.queue);
    assert(after.queue[i].place->name == util::sanitized(objects[i].filename));
}

/// A folder without objects is done with at once.
pub proof fn law_empty_folders_add_nothing(exporter: ExporterView)
    ensures
        exporter.listed(Seq::empty()).queue == exporter.queue,
        exporter.listed(Seq::empty()).current is None,
        exporter.listed(Seq::empty()).files_done == exporter.files_done,
{
    assert(exporter.listed(Seq::empty()).queue =~= exporter.queue);
}

/// What comes next is asked a place for first, by its folder and its name. Once it has one it
/// is copied to that very path: a folder is made there, and a file fetched there by its own
/// storage and handle. Nothing else that waits is touched meanwhile. The copy is finished
/// exactly when nothing waits.
pub proof fn law_copies_go_where_they_are_placed(
    exporter: ExporterView,
    path: Seq<char>,
    parent: Seq<char>,
    name: Seq<char>,
)
    ensures
        exporter.next_action() is Finish <==> exporter.queue.len() == 0,
        exporter.queue.len() == 0 ==> exporter.entered() == exporter,
        exporter.queue.len() > 0 && exporter.queue[0].place == (PlaceView::In { parent, name })
            ==> exporter.next_action() == (ExportActionView::FindPlace { parent, name })
            && exporter.entered() == exporter,
        exporter.queue.len() > 0 ==> {
            let node = exporter.queue[0].node;
            let placed = exporter.placed(path);
            let entered = placed.entered();
            &&& node.is_folder ==> placed.next_action() == (ExportActionView::MakeFolder { path })
            &&& !node.is_folder ==> placed.next_action() == (ExportActionView::CopyFile {
                storage_id: node.storage_id,
                handle: node.handle,
                path,
            })
            &&& placed.queue.len() == exporter.queue.len()
            &&& placed.files_done == exporter.files_done
            &&& placed.current == exporter.current
            &&& entered.current is Some
            &&& entered.current->0.node == node
            &&& entered.current->0.path == path
            &&& entered.queue == exporter.queue.skip(1)
            &&& entered.files_done == exporter.files_done
        },
{
    if exporter.queue.len() > 0 {
        assert(exporter.placed(path).entered().queue =~= exporter.queue.skip(1));
    }
}

/// A file that is copied counts once, and leaves what waits as it was.
pub proof fn law_copied_files_count_once(exporter: ExporterView)
    requires
        exporter.files_done < usize::MAX,
    ensures
        exporter.copied().files_done == exporter.files_done + 1,
        exporter.copied().queue == exporter.queue,
        exporter.copied().current is None,
{
}

/// A file listed in a folder that is being copied to a path is, once a free path was found
/// for it there, fetched to that path; and a folder is made there and its own objects then go
/// below it.
pub proof fn law_everything_lands_below_its_folder(
    exporter: ExporterView,
    object: ObjectView,
    path: Seq<char>,
    inner: ObjectView,
)
    requires
        exporter.current is Some,
    ensures
        ({
            let folder = exporter.current->0;
            let listed = exporter.listed(seq![object]);
            let placed = listed.placed(path);
            let below = placed.entered().listed(seq![inner]);
            &&& listed.next_action() is FindPlace
            &&& listed.next_action()->FindPlace_parent == folder.path
            &&& !object.is_folder ==> placed.next_action() == (ExportActionView::CopyFile {
                storage_id: folder.node.storage_id,
                handle: object.handle,
                path,
            })
            &&& object.is_folder ==> placed.next_action() == (ExportActionView::MakeFolder { path })
            &&& below.next_action() is FindPlace
            &&& below.next_action()->FindPlace_parent == path
            &&& below.queue[0].node.storage_id == folder.node.storage_id
            &&& below.queue[0].node.handle == inner.handle
        }),
{
}

/// Every fault is reported in its own words, followed by the system's.
pub proof fn law_faults_have_their_own_words(language: Language)
    ensures
        Fault::Folder.lead(language) == Phrase::FolderFaultLead.say(language),
        Fault::Target.lead(language) == Phrase::TargetFaultLead.say(language),
        Fault::Write.lead(language) == Phrase::WriteFaultLead.say(language),
        Fault::CopyRuntime.lead(language) == Phrase::CopyRuntimeFaultLead.say(language),
        Fault::ConnectRuntime.lead(language) == Phrase::ConnectRuntimeFaultLead.say(language),
{
}

/// What the contracts say of an action is what it holds.
pub proof fn law_export_actions_show_their_fields(
    parent: String,
    name: String,
    storage_id: u32,
    handle: u32,
)
    ensures
        (ExportAction::FindPlace { parent, name }).deep_view() == (ExportActionView::FindPlace {
            parent: parent@,
            name: name@,
        }),
        (ExportAction::MakeFolder { path: name }).deep_view() == (ExportActionView::MakeFolder {
            path: name@,
        }),
        (ExportAction::CopyFile { storage_id, handle, path: name }).deep_view() == (
        ExportActionView::CopyFile { storage_id, handle, path: name@ }),
        ExportAction::Finish.deep_view() == ExportActionView::Finish,
{
}

/// What the contracts say of a copy under way is what its fields hold: of what waits, the last
/// on the stack comes next.
proof fn law_exporters_show_their_fields(
    exporter: Exporter,
    pending: Pending,
    current: Current,
    path: String,
    name: String,
    i: int,
)
    ensures
        exporter@.queue.len() == exporter.stack@.len(),
        0 <= i < exporter.stack@.len() ==> exporter@.queue[i] == exporter.stack@[
            exporter.stack@.len() - 1 - i
        ].deep_view(),
        exporter@.files_done == exporter.files_done,
        exporter.current is None <==> exporter@.current is None,
        exporter.current matches Some(c) ==> exporter@.current->0.node == c.node@
            && exporter@.current->0.path == c.path@,
        pending.deep_view().node == pending.node@,
        pending.deep_view().place == pending.place.deep_view(),
        current.deep_view().node == current.node@,
        current.deep_view().path == current.path@,
        (Place::At { path }).deep_view() == (PlaceView::At { path: path@ }),
        (Place::In { parent: path, name }).deep_view() == (PlaceView::In {
            parent: path@,
            name: name@,
        }),
{
}

} // verus!
