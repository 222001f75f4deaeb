//! The read-only file system of a mounted device: inodes, directories and attributes.
use crate::model::{ObjectInfo, ObjectView, StorageInfo, StorageView};
use crate::names;
use crate::names::NameCounts;
use crate::text;
use crate::text::{decimal_of, same_text};
use crate::util;
use crate::util::sanitize_filename;
use std::collections::HashMap;
use vstd::prelude::*;

verus! {

broadcast use vstd::std_specs::hash::group_hash_axioms;

/// The inode of the volume's root directory.
pub const ROOT_INO: u64 = 1;

/// The inodes of storages have this bit.
pub const STORAGE_INO_BASE: u64 = 0x4000_0000_0000_0000;

/// The inodes of objects have this bit.
pub const OBJECT_INO_BASE: u64 = 0x8000_0000_0000_0000;

/// The block size that files report.
pub const BLOCK_SIZE: u32 = 4096;

/// Why a file system request is refused.
#[derive(Clone, Copy, Debug, PartialEq, Eq, Structural)]
pub enum FsError {
    /// The device or the cache failed.
    Io,
    /// No such file or directory.
    NotFound,
    /// A directory was asked for and this is none.
    NotADirectory,
    /// A file was asked for and this is a directory.
    IsADirectory,
    /// The volume cannot be written to.
    ReadOnly,
}

/// What an inode stands for.
#[derive(Clone, Copy, Debug, PartialEq, Eq, Structural)]
pub enum FsEntryKind {
    Root,
    Storage { storage_id: u32 },
    Object { storage_id: u32, handle: u32, is_folder: bool },
}

/// An inode of the volume.
#[derive(Clone, Debug)]
pub struct FsEntry {
    pub ino: u64,
    pub parent: u64,
    pub name: String,
    pub kind: FsEntryKind,
    pub size: u64,
}

/// What an inode holds.
#[verifier::ext_equal]
pub struct EntryView {
    pub ino: u64,
    pub parent: u64,
    pub name: Seq<char>,
    pub kind: FsEntryKind,
    pub size: u64,
}

impl DeepView for FsEntry {
    type V = EntryView;

    open spec fn deep_view(&self) -> EntryView {
        EntryView {
            ino: self.ino,
            parent: self.parent,
            name: self.name@,
            kind: self.kind,
            size: self.size,
        }
    }
}

impl EntryView {
    /// Whether the inode is a directory: everything but a plain file is.
    pub open spec fn is_directory(self) -> bool {
        !(self.kind matches FsEntryKind::Object { is_folder: false, .. })
    }
}

/// The inode of the storage at position `index`.
pub open spec fn storage_ino(index: u64) -> u64 {
    STORAGE_INO_BASE | index
}

/// The inode of an object.
pub open spec fn object_ino_view(storage_id: u32, handle: u32) -> u64 {
    OBJECT_INO_BASE | ((storage_id as u64) << 32) | handle as u64
}

/// The inode of an object.
pub fn object_ino(storage_id: u32, handle: u32) -> (r: u64)
    ensures
        r == object_ino_view(storage_id, handle),
{
    OBJECT_INO_BASE | ((storage_id as u64) << 32) | handle as u64
}

/// The inodes known so far, and the listings of the directories that were opened.
pub struct FsState {
    entries: HashMap<u64, FsEntry>,
    children: HashMap<u64, Vec<u64>>,
}

/// What the file system knows.
#[verifier::ext_equal]
pub struct FsView {
    pub entries: Map<u64, EntryView>,
    pub children: Map<u64, Seq<u64>>,
}

impl View for FsState {
    type V = FsView;

    closed spec fn view(&self) -> FsView {
        FsView {
            entries: self.entries@.map_values(|e: FsEntry| e.deep_view()),
            children: self.children@.map_values(|c: Vec<u64>| c@),
        }
    }
}

/// The root directory.
pub open spec fn root_view() -> EntryView {
    EntryView {
        ino: ROOT_INO,
        parent: ROOT_INO,
        name: Seq::empty(),
        kind: FsEntryKind::Root,
        size: 0,
    }
}

/// What has to be done to list a directory.
#[derive(Clone, Debug)]
pub enum ListingPlan {
    /// The listing is known.
    Known(Vec<u64>),
    /// The device has to list its storages.
    Storages,
    /// The device has to list a storage's top level or, with `parent`, a folder.
    Objects { storage_id: u32, parent: Option<u32> },
}

/// What a listing plan holds.
#[verifier::ext_equal]
pub enum ListingPlanView {
    Known(Seq<u64>),
    Storages,
    Objects { storage_id: u32, parent: Option<u32> },
}

impl DeepView for ListingPlan {
    type V = ListingPlanView;

    open spec fn deep_view(&self) -> ListingPlanView {
        match self {
            ListingPlan::Known(inos) => ListingPlanView::Known(inos@),
            ListingPlan::Storages => ListingPlanView::Storages,
            ListingPlan::Objects { storage_id, parent } => ListingPlanView::Objects {
                storage_id: *storage_id,
                parent: *parent,
            },
        }
    }
}

/// The base names of the storages in the root directory.
pub open spec fn storage_names(storages: Seq<StorageView>) -> Seq<Seq<char>> {
    storages.map_values(|s: StorageView| names::base_name(util::sanitized(s.description)))
}

/// The base names of the objects of a directory.
pub open spec fn object_names(objects: Seq<ObjectView>) -> Seq<Seq<char>> {
    objects.map_values(|o: ObjectView| names::base_name(util::sanitized(o.filename)))
}

/// The inodes of a device's storages.
pub open spec fn storage_entries(parent: u64, storages: Seq<StorageView>) -> Seq<EntryView> {
    Seq::new(
        storages.len(),
        |i: int|
            EntryView {
                ino: storage_ino(i as u64),
                parent,
                name: names::assigned_name(storage_names(storages), i),
                kind: FsEntryKind::Storage { storage_id: storages[i].storage_id },
                size: 0,
            },
    )
}

/// The inodes of a listed directory's objects.
pub open spec fn object_entries(
    parent: u64,
    storage_id: u32,
    objects: Seq<ObjectView>,
) -> Seq<EntryView> {
    Seq::new(
        objects.len(),
        |i: int|
            EntryView {
                ino: object_ino_view(storage_id, objects[i].handle),
                parent,
                name: names::assigned_name(object_names(objects), i),
                kind: FsEntryKind::Object {
                    storage_id,
                    handle: objects[i].handle,
                    is_folder: objects[i].is_folder,
                },
                size: if objects[i].is_folder {
                    0
                } else {
                    objects[i].size
                },
            },
    )
}

/// `entries` with `list` recorded in order: of entries with the same inode the last stays.
pub open spec fn recorded(entries: Map<u64, EntryView>, list: Seq<EntryView>) -> Map<u64, EntryView>
    decreases list.len(),
{
    if list.len() == 0 {
        entries
    } else {
        recorded(entries, list.drop_last()).insert(list.last().ino, list.last())
    }
}

/// The inodes of entries, in order.
pub open spec fn inos_of(list: Seq<EntryView>) -> Seq<u64> {
    list.map_values(|e: EntryView| e.ino)
}

/// The first of `children` that is known and called `name`.
pub open spec fn first_named(
    entries: Map<u64, EntryView>,
    children: Seq<u64>,
    name: Option<Seq<char>>,
) -> Option<EntryView>
    decreases children.len(),
{
    if children.len() == 0 {
        None
    } else if entries.contains_key(children[0]) && Some(entries[children[0]].name) == name {
        Some(entries[children[0]])
    } else {
        first_named(entries, children.drop_first(), name)
    }
}

impl FsView {
    /// Before anything was listed, only the root directory is known.
    pub open spec fn empty() -> FsView {
        FsView {
            entries: Map::empty().insert(ROOT_INO, root_view()),
            children: Map::empty(),
        }
    }

    /// The root is known; every entry is kept under its own inode and lies in a known
    /// directory; listings are of known directories and name known entries only.
    pub open spec fn well_formed(self) -> bool {
        &&& self.entries.contains_key(ROOT_INO)
        &&& self.entries[ROOT_INO] == root_view()
        &&& forall|ino: u64| #[trigger]
            self.entries.contains_key(ino) ==> self.entries[ino].ino == ino
                && self.entries.contains_key(self.entries[ino].parent)
        &&& forall|ino: u64| #[trigger]
            self.children.contains_key(ino) ==> self.entries.contains_key(ino)
        &&& forall|ino: u64, i: int|
            self.children.contains_key(ino) && 0 <= i < self.children[ino].len()
                ==> self.entries.contains_key(#[trigger] self.children[ino][i])
    }

    /// What has to be done to list directory `ino`, or why it cannot be listed.
    pub open spec fn listing_plan(self, ino: u64) -> Result<ListingPlanView, FsError> {
        if self.children.contains_key(ino) {
            Ok(ListingPlanView::Known(self.children[ino]))
        } else if !self.entries.contains_key(ino) {
            Err(FsError::NotFound)
        } else {
            match self.entries[ino].kind {
                FsEntryKind::Root => Ok(ListingPlanView::Storages),
                FsEntryKind::Storage { storage_id } => Ok(
                    ListingPlanView::Objects { storage_id, parent: None },
                ),
                FsEntryKind::Object { storage_id, handle, is_folder } => if is_folder {
                    Ok(ListingPlanView::Objects { storage_id, parent: Some(handle) })
                } else {
                    Err(FsError::NotADirectory)
                },
            }
        }
    }

    /// The file system after `list` was listed in directory `ino`.
    pub open spec fn with_listing(self, ino: u64, list: Seq<EntryView>) -> FsView {
        FsView {
            entries: recorded(self.entries, list),
            children: self.children.insert(ino, inos_of(list)),
        }
    }

    /// Whether inode `ino` may be opened: only for reading, and only if it is a known file.
    pub open spec fn opening(self, ino: u64, read_only: bool) -> Result<(), FsError> {
        if !read_only {
            Err(FsError::ReadOnly)
        } else {
            match self.entry(ino) {
                Ok(entry) => if entry.is_directory() {
                    Err(FsError::IsADirectory)
                } else {
                    Ok(())
                },
                Err(err) => Err(err),
            }
        }
    }

    /// The entry of an inode, if it is known.
    pub open spec fn entry(self, ino: u64) -> Result<EntryView, FsError> {
        if self.entries.contains_key(ino) {
            Ok(self.entries[ino])
        } else {
            Err(FsError::NotFound)
        }
    }
}

proof fn lemma_storage_ino_bits(index: u64)
    ensures
        storage_ino(index) >= STORAGE_INO_BASE,
        index < 0x4000_0000_0000_0000 ==> storage_ino(index) < OBJECT_INO_BASE,
        index < 0x4000_0000_0000_0000 ==> storage_ino(index) - STORAGE_INO_BASE == index,
{
    assert(0x4000_0000_0000_0000u64 | index >= 0x4000_0000_0000_0000u64) by (bit_vector);
    assert(index < 0x4000_0000_0000_0000u64 ==> 0x4000_0000_0000_0000u64 | index
        == 0x4000_0000_0000_0000u64 + index) by (bit_vector);
}

proof fn lemma_object_ino_bits(storage_id: u32, handle: u32)
    ensures
        object_ino_view(storage_id, handle) >= OBJECT_INO_BASE,
{
    assert(0x8000_0000_0000_0000u64 | ((storage_id as u64) << 32) | handle as u64
        >= 0x8000_0000_0000_0000u64) by (bit_vector);
}

/// Different objects have different inodes, for storages whose identifier is below 2^31.
pub proof fn law_object_inos_distinct(
    storage_a: u32,
    handle_a: u32,
    storage_b: u32,
    handle_b: u32,
)
    requires
        storage_a < 0x8000_0000,
        storage_b < 0x8000_0000,
        object_ino_view(storage_a, handle_a) == object_ino_view(storage_b, handle_b),
    ensures
        storage_a == storage_b,
        handle_a == handle_b,
{
    assert(storage_a < 0x8000_0000u32 && storage_b < 0x8000_0000u32 && (0x8000_0000_0000_0000u64 | (
    (storage_a as u64) << 32) | handle_a as u64) == (0x8000_0000_0000_0000u64 | ((storage_b as u64)
        << 32) | handle_b as u64) ==> storage_a == storage_b && handle_a == handle_b)
        by (bit_vector);
}

/// Objects of one storage have different inodes exactly when their handles differ.
pub proof fn law_handles_decide_inos(storage_id: u32, handle_a: u32, handle_b: u32)
    ensures
        object_ino_view(storage_id, handle_a) == object_ino_view(storage_id, handle_b)
            <==> handle_a == handle_b,
{
    assert((0x8000_0000_0000_0000u64 | ((storage_id as u64) << 32) | handle_a as u64) == (
    0x8000_0000_0000_0000u64 | ((storage_id as u64) << 32) | handle_b as u64) ==> handle_a
        == handle_b) by (bit_vector);
}

/// The root, the storages and the objects never share an inode, and neither do two
/// storages, for fewer than 2^62 storages.
pub proof fn law_inode_ranges_disjoint(
    index_a: u64,
    index_b: u64,
    storage_id: u32,
    handle: u32,
)
    requires
        index_a < index_b < 0x4000_0000_0000_0000,
    ensures
        storage_ino(index_a) != storage_ino(index_b),
        storage_ino(index_a) != ROOT_INO,
        storage_ino(index_b) != ROOT_INO,
        object_ino_view(storage_id, handle) != ROOT_INO,
        storage_ino(index_a) != object_ino_view(storage_id, handle),
        storage_ino(index_b) != object_ino_view(storage_id, handle),
{
    lemma_storage_ino_bits(index_a);
    lemma_storage_ino_bits(index_b);
    lemma_object_ino_bits(storage_id, handle);
}

proof fn lemma_recorded(entries: Map<u64, EntryView>, list: Seq<EntryView>)
    ensures
        forall|ino: u64| #[trigger]
            recorded(entries, list).contains_key(ino) <==> entries.contains_key(ino)
                || inos_of(list).contains(ino),
        forall|ino: u64|
            !inos_of(list).contains(ino) && entries.contains_key(ino) ==> #[trigger] recorded(
                entries,
                list,
            )[ino] == entries[ino],
        forall|ino: u64|
            inos_of(list).contains(ino) ==> list.contains(#[trigger] recorded(entries, list)[ino])
                && recorded(entries, list)[ino].ino == ino,
    decreases list.len(),
{
    if list.len() > 0 {
        let init = list.drop_last();
        lemma_recorded(entries, init);
        assert(inos_of(list) =~= inos_of(init).push(list.last().ino));
        assert forall|ino: u64| inos_of(list).contains(ino) <==> inos_of(init).contains(ino) || ino
            == list.last().ino by {
            if inos_of(init).contains(ino) {
                let k = choose|k: int| 0 <= k < init.len() && inos_of(init)[k] == ino;
                assert(inos_of(list)[k] == ino);
            }
            assert(inos_of(list)[list.len() - 1] == list.last().ino);
        }
        assert(forall|e: EntryView| init.contains(e) ==> list.contains(e));
        assert(list.contains(list[list.len() - 1]));
    }
}

proof fn lemma_listing_keeps_state(state: FsView, ino: u64, list: Seq<EntryView>)
    requires
        state.well_formed(),
        state.entries.contains_key(ino),
        forall|i: int|
            0 <= i < list.len() ==> (#[trigger] list[i]).parent == ino && list[i].ino != ROOT_INO,
    ensures
        state.with_listing(ino, list).well_formed(),
{
    lemma_recorded(state.entries, list);
    let after = state.with_listing(ino, list);
    if inos_of(list).contains(ROOT_INO) {
        let k = choose|k: int| 0 <= k < list.len() && inos_of(list)[k] == ROOT_INO;
        assert(list[k].ino == ROOT_INO);
    }
    assert forall|n: u64, i: int|
        after.children.contains_key(n) && 0 <= i < after.children[n].len() implies after.entries.contains_key(
    #[trigger] after.children[n][i]) by {
        if n == ino {
            assert(inos_of(list).contains(inos_of(list)[i]));
        } else {
            assert(state.entries.contains_key(state.children[n][i]));
        }
    }
    assert forall|n: u64| #[trigger] after.entries.contains_key(n) implies after.entries[n].ino == n
        && after.entries.contains_key(after.entries[n].parent) by {
        if inos_of(list).contains(n) {
            assert(list.contains(after.entries[n]));
        } else {
            assert(state.entries.contains_key(n));
            assert(state.entries.contains_key(state.entries[n].parent));
        }
    }
}

proof fn lemma_recorded_distinct(entries: Map<u64, EntryView>, list: Seq<EntryView>, i: int)
    requires
        0 <= i < list.len(),
        forall|a: int, b: int|
            0 <= a < b < list.len() ==> #[trigger] list[a].ino != #[trigger] list[b].ino,
    ensures
        recorded(entries, list).contains_key(list[i].ino),
        recorded(entries, list)[list[i].ino] == list[i],
    decreases list.len(),
{
    if i < list.len() - 1 {
        lemma_recorded_distinct(entries, list.drop_last(), i);
        assert(list[i].ino != list[list.len() - 1].ino);
    }
}

proof fn lemma_first_named(
    entries: Map<u64, EntryView>,
    list: Seq<EntryView>,
    from: int,
    i: int,
)
    requires
        0 <= from <= i < list.len(),
        forall|a: int|
            0 <= a < list.len() ==> entries.contains_key((#[trigger] list[a]).ino)
                && entries[list[a].ino] == list[a],
        forall|a: int| 0 <= a < i ==> (#[trigger] list[a]).name != list[i].name,
    ensures
        first_named(entries, inos_of(list).skip(from), Some(list[i].name)) == Some(list[i]),
    decreases i - from,
{
    let rest = inos_of(list).skip(from);
    assert(rest[0] == list[from].ino);
    if from < i {
        lemma_first_named(entries, list, from + 1, i);
        assert(rest.drop_first() =~= inos_of(list).skip(from + 1));
    }
}

proof fn lemma_known_children(entries: Map<u64, EntryView>, list: Seq<EntryView>)
    requires
        forall|a: int|
            0 <= a < list.len() ==> entries.contains_key((#[trigger] list[a]).ino)
                && entries[list[a].ino] == list[a],
    ensures
        known_children(entries, inos_of(list)) == list,
    decreases list.len(),
{
    if list.len() > 0 {
        let init = list.drop_last();
        assert forall|a: int| 0 <= a < init.len() implies entries.contains_key(
            (#[trigger] init[a]).ino,
        ) && entries[init[a].ino] == init[a] by {
            assert(init[a] == list[a]);
        }
        lemma_known_children(entries, init);
        assert(inos_of(list).drop_last() =~= inos_of(init));
        assert(inos_of(list).last() == list[list.len() - 1].ino);
    }
    assert(known_children(entries, inos_of(list)) =~= list);
}

/// What a device lists in a directory is what the volume shows there, in the same order,
/// and every name shown leads back to its own entry: for objects with different handles of
/// which none is called like the numbered form of another's repeated name.
pub proof fn law_listing_and_lookup_agree(
    state: FsView,
    parent: u64,
    storage_id: u32,
    objects: Seq<ObjectView>,
    i: int,
)
    requires
        0 <= i < objects.len(),
        forall|a: int, b: int|
            0 <= a < b < objects.len() ==> #[trigger] objects[a].handle
                != #[trigger] objects[b].handle,
        !names::has_number_clash(object_names(objects)),
    ensures
        ({
            let list = object_entries(parent, storage_id, objects);
            let after = state.with_listing(parent, list);
            &&& after.listing_plan(parent) == Ok::<ListingPlanView, FsError>(
                ListingPlanView::Known(inos_of(list)),
            )
            &&& known_children(after.entries, inos_of(list)) == list
            &&& first_named(after.entries, inos_of(list), Some(list[i].name)) == Some(list[i])
        }),
{
    let list = object_entries(parent, storage_id, objects);
    let after = state.with_listing(parent, list);
    assert forall|a: int, b: int| 0 <= a < b < list.len() implies #[trigger] list[a].ino
        != #[trigger] list[b].ino by {
        law_handles_decide_inos(storage_id, objects[a].handle, objects[b].handle);
    }
    assert forall|a: int| 0 <= a < list.len() implies after.entries.contains_key(
        (#[trigger] list[a]).ino,
    ) && after.entries[list[a].ino] == list[a] by {
        lemma_recorded_distinct(state.entries, list, a);
    }
    assert forall|a: int| 0 <= a < i implies (#[trigger] list[a]).name != list[i].name by {
        names::law_assigned_names_distinct(object_names(objects), a, i);
    }
    lemma_known_children(after.entries, list);
    lemma_first_named(after.entries, list, 0, i);
    assert(inos_of(list).skip(0) =~= inos_of(list));
}

/// The storages that a device lists are what the volume shows in its root, in the same
/// order, and every name shown leads back to its own storage: for fewer than 2^62 storages of
/// which none is called like the numbered form of another's repeated name.
pub proof fn law_storages_and_lookup_agree(
    state: FsView,
    parent: u64,
    storages: Seq<StorageView>,
    i: int,
)
    requires
        0 <= i < storages.len() < 0x4000_0000_0000_0000,
        !names::has_number_clash(storage_names(storages)),
    ensures
        ({
            let list = storage_entries(parent, storages);
            let after = state.with_listing(parent, list);
            &&& after.listing_plan(parent) == Ok::<ListingPlanView, FsError>(
                ListingPlanView::Known(inos_of(list)),
            )
            &&& known_children(after.entries, inos_of(list)) == list
            &&& first_named(after.entries, inos_of(list), Some(list[i].name)) == Some(list[i])
            &&& list[i].kind == (FsEntryKind::Storage { storage_id: storages[i].storage_id })
        }),
{
    let list = storage_entries(parent, storages);
    let after = state.with_listing(parent, list);
    assert forall|a: int, b: int| 0 <= a < b < list.len() implies #[trigger] list[a].ino
        != #[trigger] list[b].ino by {
        law_inode_ranges_disjoint(a as u64, b as u64, 0, 0);
    }
    assert forall|a: int| 0 <= a < list.len() implies after.entries.contains_key(
        (#[trigger] list[a]).ino,
    ) && after.entries[list[a].ino] == list[a] by {
        lemma_recorded_distinct(state.entries, list, a);
    }
    assert forall|a: int| 0 <= a < i implies (#[trigger] list[a]).name != list[i].name by {
        names::law_assigned_names_distinct(storage_names(storages), a, i);
    }
    lemma_known_children(after.entries, list);
    lemma_first_named(after.entries, list, 0, i);
    assert(inos_of(list).skip(0) =~= inos_of(list));
}

fn entry_of_object(
    counts: &mut NameCounts,
    parent: u64,
    storage_id: u32,
    object: &ObjectInfo,
) -> (r: FsEntry)
    requires
        old(counts).count(names::base_name(util::sanitized(object.filename@))) < usize::MAX,
    ensures
        ({
            let name = names::base_name(util::sanitized(object.filename@));
            let view = object.deep_view();
            &&& final(counts).count(name) == old(counts).count(name) + 1
            &&& forall|other: Seq<char>|
                other != name ==> #[trigger] final(counts).count(other) == old(counts).count(other)
            &&& r.deep_view() == EntryView {
                ino: object_ino_view(storage_id, view.handle),
                parent,
                name: names::numbered(name, old(counts).count(name) + 1),
                kind: FsEntryKind::Object {
                    storage_id,
                    handle: view.handle,
                    is_folder: view.is_folder,
                },
                size: if view.is_folder {
                    0
                } else {
                    view.size
                },
            }
        }),
{
    let name = counts.unique_name(sanitize_filename(object.filename.as_str()));
    let is_folder: bool = object.is_folder();
    FsEntry {
        ino: object_ino(storage_id, object.handle),
        parent,
        name,
        kind: FsEntryKind::Object { storage_id, handle: object.handle, is_folder },
        size: if is_folder {
            0
        } else {
            object.size
        },
    }
}

/// The inodes of a directory that the device listed: see [`object_entries`].
pub fn load_objects(parent: u64, storage_id: u32, objects: &Vec<ObjectInfo>) -> (r: Vec<FsEntry>)
    ensures
        r.deep_view() == object_entries(parent, storage_id, objects.deep_view()),
{
    let mut counts = NameCounts::new();
    let mut r: Vec<FsEntry> = Vec::new();
    let ghost views = objects.deep_view();
    let ghost all = object_names(views);
    for i in 0..objects.len()
        invariant
            views == objects.deep_view(),
            all == object_names(views),
            forall|name: Seq<char>| #[trigger]
                counts.count(name) == names::occurrences(all, i as nat, name),
            r@.len() == i,
            forall|j: int|
                0 <= j < i ==> (#[trigger] r@[j]).deep_view() == object_entries(
                    parent,
                    storage_id,
                    views,
                )[j],
    {
        let ghost name = all[i as int];
        proof {
            assert(name == names::base_name(util::sanitized(objects@[i as int].filename@)));
            names::lemma_occurrences_bounded(all, i as nat, name);
            assert(counts.count(name) == names::occurrences(all, i as nat, name));
        }
        let entry = entry_of_object(&mut counts, parent, storage_id, &objects[i]);
        assert(views[i as int] == objects@[i as int].deep_view());
        assert(entry.deep_view() == object_entries(parent, storage_id, views)[i as int]);
        r.push(entry);
    }
    assert(r.deep_view() =~= object_entries(parent, storage_id, views));
    r
}

/// The inodes of the storages that the device listed: see [`storage_entries`].
pub fn load_storages(parent: u64, storages: &Vec<StorageInfo>) -> (r: Vec<FsEntry>)
    ensures
        r.deep_view() == storage_entries(parent, storages.deep_view()),
{
    let mut counts = NameCounts::new();
    let mut r: Vec<FsEntry> = Vec::new();
    let ghost views = storages.deep_view();
    let ghost all = storage_names(views);
    for i in 0..storages.len()
        invariant
            views == storages.deep_view(),
            all == storage_names(views),
            forall|name: Seq<char>| #[trigger]
                counts.count(name) == names::occurrences(all, i as nat, name),
            r@.len() == i,
            forall|j: int|
                0 <= j < i ==> (#[trigger] r@[j]).deep_view() == storage_entries(parent, views)[j],
    {
        let ghost name = all[i as int];
        proof {
            assert(name == names::base_name(util::sanitized(storages@[i as int].description@)));
            names::lemma_occurrences_bounded(all, i as nat, name);
            assert(counts.count(name) == names::occurrences(all, i as nat, name));
        }
        let name = counts.unique_name(sanitize_filename(storages[i].description.as_str()));
        assert(views[i as int] == storages@[i as int].deep_view());
        r.push(
            FsEntry {
                ino: STORAGE_INO_BASE | i as u64,
                parent,
                name,
                kind: FsEntryKind::Storage { storage_id: storages[i].storage_id },
                size: 0,
            },
        );
    }
    assert(r.deep_view() =~= storage_entries(parent, views));
    r
}

/// The type of a directory entry.
#[derive(Clone, Copy, Debug, PartialEq, Eq, Structural)]
pub enum FileKind {
    Directory,
    RegularFile,
}

/// The attributes of an inode. The time stamps are seconds since the epoch.
#[derive(Clone, Copy, Debug, PartialEq, Eq, Structural)]
pub struct FileAttr {
    pub ino: u64,
    pub size: u64,
    pub blocks: u64,
    pub atime_secs: u64,
    pub mtime_secs: u64,
    pub ctime_secs: u64,
    pub crtime_secs: u64,
    pub kind: FileKind,
    pub perm: u16,
    pub nlink: u32,
    pub uid: u32,
    pub gid: u32,
    pub rdev: u32,
    pub blksize: u32,
    pub flags: u32,
}

/// The attributes of an inode for the user and group `uid` and `gid`: read-only, with the
/// size of files in bytes and in 512-byte blocks, and size 0 for directories.
pub open spec fn attr_view(entry: EntryView, uid: u32, gid: u32) -> FileAttr {
    let dir = entry.is_directory();
    FileAttr {
        ino: entry.ino,
        size: if dir {
            0
        } else {
            entry.size
        },
        blocks: ((entry.size + 511) / 512) as u64,
        atime_secs: 0,
        mtime_secs: 0,
        ctime_secs: 0,
        crtime_secs: 0,
        kind: if dir {
            FileKind::Directory
        } else {
            FileKind::RegularFile
        },
        perm: if dir {
            0o555
        } else {
            0o444
        },
        nlink: if dir {
            2
        } else {
            1
        },
        uid,
        gid,
        rdev: 0,
        blksize: BLOCK_SIZE,
        flags: 0,
    }
}

/// No inode is writable by anybody.
pub proof fn law_nothing_is_writable(entry: EntryView, uid: u32, gid: u32)
    ensures
        attr_view(entry, uid, gid).perm & 0o222 == 0,
{
    assert(0o555u16 & 0o222u16 == 0) by (bit_vector);
    assert(0o444u16 & 0o222u16 == 0) by (bit_vector);
}

/// The attributes of an inode: see [`attr_view`].
pub fn attr_for(entry: &FsEntry, uid: u32, gid: u32) -> (r: FileAttr)
    ensures
        r == attr_view(entry.deep_view(), uid, gid),
{
    let is_dir: bool = match entry.kind {
        FsEntryKind::Object { is_folder, .. } => is_folder,
        _ => true,
    };
    let whole: u64 = entry.size / 512;
    let blocks: u64 = if entry.size % 512 == 0 {
        whole
    } else {
        whole + 1
    };
    assert(blocks == (entry.size + 511) / 512);
    FileAttr {
        ino: entry.ino,
        size: if is_dir {
            0
        } else {
            entry.size
        },
        blocks,
        atime_secs: 0,
        mtime_secs: 0,
        ctime_secs: 0,
        crtime_secs: 0,
        kind: if is_dir {
            FileKind::Directory
        } else {
            FileKind::RegularFile
        },
        perm: if is_dir {
            0o555
        } else {
            0o444
        },
        nlink: if is_dir {
            2
        } else {
            1
        },
        uid,
        gid,
        rdev: 0,
        blksize: BLOCK_SIZE,
        flags: 0,
    }
}

/// One line of a directory listing. `offset` is where the next line continues.
#[derive(Clone, Debug, PartialEq, Eq)]
pub struct DirEntry {
    pub ino: u64,
    pub offset: u64,
    pub kind: FileKind,
    pub name: String,
}

/// What a line of a directory listing holds.
#[verifier::ext_equal]
pub struct DirEntryView {
    pub ino: u64,
    pub offset: u64,
    pub kind: FileKind,
    pub name: Seq<char>,
}

impl DeepView for DirEntry {
    type V = DirEntryView;

    open spec fn deep_view(&self) -> DirEntryView {
        DirEntryView { ino: self.ino, offset: self.offset, kind: self.kind, name: self.name@ }
    }
}

/// Those of `children` that are known, in order.
pub open spec fn known_children(
    entries: Map<u64, EntryView>,
    children: Seq<u64>,
) -> Seq<EntryView>
    decreases children.len(),
{
    if children.len() == 0 {
        Seq::empty()
    } else {
        let before = known_children(entries, children.drop_last());
        if entries.contains_key(children.last()) {
            before.push(entries[children.last()])
        } else {
            before
        }
    }
}

/// The line at `position` of the listing of directory `directory` with the entries `known`:
/// the directory itself, its parent, then the entries.
pub open spec fn directory_line(
    directory: EntryView,
    known: Seq<EntryView>,
    position: int,
) -> DirEntryView {
    let offset = (position + 1) as u64;
    if position == 0 {
        DirEntryView { ino: directory.ino, offset, kind: FileKind::Directory, name: "."@ }
    } else if position == 1 {
        DirEntryView { ino: directory.parent, offset, kind: FileKind::Directory, name: ".."@ }
    } else {
        let entry = known[position - 2];
        DirEntryView {
            ino: entry.ino,
            offset,
            kind: if entry.is_directory() {
                FileKind::Directory
            } else {
                FileKind::RegularFile
            },
            name: entry.name,
        }
    }
}

/// The listing of a directory from line `from` on.
pub open spec fn directory_lines(
    directory: EntryView,
    known: Seq<EntryView>,
    from: nat,
) -> Seq<DirEntryView> {
    if from >= known.len() + 2 {
        Seq::empty()
    } else {
        Seq::new(
            (known.len() + 2 - from) as nat,
            |i: int| directory_line(directory, known, from + i),
        )
    }
}

/// A listing that starts at some line gives what the whole listing has from there on, and
/// nothing where it starts behind the end. One that stopped after any of its lines and is
/// continued at that line's offset goes on with the next: no line is lost and none repeated.
pub proof fn law_listing_resumes(directory: EntryView, known: Seq<EntryView>, from: nat, line: int)
    requires
        known.len() + 2 <= u64::MAX,
    ensures
        directory_lines(directory, known, 0).len() == known.len() + 2,
        ({
            let whole = directory_lines(directory, known, 0);
            let lines = directory_lines(directory, known, from);
            &&& from < whole.len() ==> lines == whole.skip(from as int)
            &&& from >= whole.len() ==> lines.len() == 0
            &&& 0 <= line < lines.len() ==> lines == lines.take(line + 1) + directory_lines(
                directory,
                known,
                lines[line].offset as nat,
            )
        }),
{
    let whole = directory_lines(directory, known, 0);
    let lines = directory_lines(directory, known, from);
    if from < whole.len() {
        assert(lines =~= whole.skip(from as int));
    }
    if 0 <= line < lines.len() {
        assert(lines[line].offset == from + line + 1);
        let rest = directory_lines(directory, known, (from + line + 1) as nat);
        assert(lines =~= lines.take(line + 1) + rest);
    }
}

/// Where a file's contents come from and the names they are cached under: `file` when
/// complete, `part` while downloading.
#[derive(Clone, Debug, PartialEq, Eq)]
pub struct CachedFile {
    pub storage_id: u32,
    pub handle: u32,
    pub file: String,
    pub part: String,
}

/// The name that the contents of inode `ino` are cached under.
pub open spec fn cache_name(ino: u64) -> Seq<char> {
    text::decimal(ino as nat)
}

/// The name that the contents of inode `ino` are downloaded under.
pub open spec fn part_name(ino: u64) -> Seq<char> {
    text::decimal(ino as nat) + ".part"@
}

/// The files in the cache are kept apart: different inodes have different names, and a
/// download never goes by the name of a complete file.
pub proof fn law_cache_names_distinct(ino_a: u64, ino_b: u64)
    ensures
        ino_a != ino_b ==> cache_name(ino_a) != cache_name(ino_b),
        ino_a != ino_b ==> part_name(ino_a) != part_name(ino_b),
        cache_name(ino_a) != part_name(ino_b),
{
    reveal_strlit(".part");
    let digits_a = text::decimal(ino_a as nat);
    let digits_b = text::decimal(ino_b as nat);
    text::law_decimal_reads_back(ino_a as nat);
    text::law_decimal_reads_back(ino_b as nat);
    if cache_name(ino_a) == cache_name(ino_b) {
        text::law_decimal_distinct(ino_a as nat, ino_b as nat);
    }
    if part_name(ino_a) == part_name(ino_b) {
        assert(part_name(ino_a).len() == digits_a.len() + 5);
        assert(part_name(ino_b).len() == digits_b.len() + 5);
        assert(digits_a =~= part_name(ino_a).take(digits_a.len() as int));
        assert(digits_b =~= part_name(ino_b).take(digits_b.len() as int));
        text::law_decimal_distinct(ino_a as nat, ino_b as nat);
    }
    if cache_name(ino_a) == part_name(ino_b) {
        assert(part_name(ino_b)[digits_b.len() as int] == '.');
        assert(text::is_digit(digits_a[digits_b.len() as int]));
    }
}

/// Whether `open(2)` flags ask for reading only: the access mode is neither write-only (1)
/// nor read-write (2).
pub open spec fn flags_read_only(flags: i32) -> bool {
    flags & 3 != 1 && flags & 3 != 2
}

/// Calls `fuser::OpenFlags::acc_mode`: the answer is whether it gives `O_RDONLY`. It gives
/// that unless the flags, under the system's `O_ACCMODE`, are `O_WRONLY` (1) or `O_RDWR`
/// (2). `O_ACCMODE` is 3; under musl it has the bit 0x200000 besides, so that nothing is
/// claimed of flags that ask for writing and have that bit.
#[verifier::external_body]
fn opens_read_only(flags: i32) -> (r: bool)
    ensures
        flags & 0x200000 == 0 ==> r == flags_read_only(flags),
        flags_read_only(flags) ==> r,
{
    fuser::OpenFlags(flags).acc_mode() == fuser::OpenAccMode::O_RDONLY
}

/// What [`FsState::open`] answers to flags that ask for writing, alone or with reading, is
/// that the volume is read-only: for every inode, and whatever other bits the flags have. To
/// all other flags it gives one and the same answer.
pub proof fn law_writing_is_refused(fs: FsView, ino: u64, flags: i32)
    ensures
        flags & 3 == 1 || flags & 3 == 2 ==> fs.opening(ino, flags_read_only(flags)) == Err::<
            (),
            FsError,
        >(FsError::ReadOnly),
        !(flags & 3 == 1 || flags & 3 == 2) ==> fs.opening(ino, flags_read_only(flags))
            == fs.opening(ino, true),
{
}

impl FsState {
    /// A file system in which nothing was listed yet.
    pub fn new() -> (r: FsState)
        ensures
            r@ == FsView::empty(),
            r@.well_formed(),
    {
        let mut entries: HashMap<u64, FsEntry> = HashMap::new();
        let root = FsEntry {
            ino: ROOT_INO,
            parent: ROOT_INO,
            name: String::new(),
            kind: FsEntryKind::Root,
            size: 0,
        };
        assert(root.deep_view() == root_view());
        entries.insert(ROOT_INO, root);
        let r = FsState { entries, children: HashMap::new() };
        assert(r@.entries =~= FsView::empty().entries);
        assert(r@.children =~= FsView::empty().children);
        r
    }

    /// What has to be done to list directory `parent`: see [`FsView::listing_plan`].
    pub fn load_children(&self, parent: u64) -> (r: Result<ListingPlan, FsError>)
        ensures
            match r {
                Ok(plan) => self@.listing_plan(parent) == Ok::<ListingPlanView, FsError>(
                    plan.deep_view(),
                ),
                Err(err) => self@.listing_plan(parent) == Err::<ListingPlanView, FsError>(err),
            },
    {
        if let Some(children) = self.children.get(&parent) {
            return Ok(ListingPlan::Known(children.clone()));
        }
        match self.entries.get(&parent) {
            None => Err(FsError::NotFound),
            Some(entry) => match entry.kind {
                FsEntryKind::Root => Ok(ListingPlan::Storages),
                FsEntryKind::Storage { storage_id } => Ok(
                    ListingPlan::Objects { storage_id, parent: None },
                ),
                FsEntryKind::Object { storage_id, handle, is_folder } => if is_folder {
                    Ok(ListingPlan::Objects { storage_id, parent: Some(handle) })
                } else {
                    Err(FsError::NotADirectory)
                },
            },
        }
    }

    fn record(&mut self, parent: u64, list: Vec<FsEntry>) -> (r: Vec<u64>)
        ensures
            final(self)@ == old(self)@.with_listing(parent, list.deep_view()),
            r@ == inos_of(list.deep_view()),
    {
        let ghost before = self@;
        let ghost views = list.deep_view();
        let mut inos: Vec<u64> = Vec::new();
        for i in 0..list.len()
            invariant
                views == list.deep_view(),
                inos@ == inos_of(views.take(i as int)),
        {
            inos.push(list[i].ino);
            assert(inos@ =~= inos_of(views.take(i + 1)));
        }
        assert(views.take(views.len() as int) =~= views);
        assert(views.take(0) =~= Seq::<EntryView>::empty());
        for entry in it: list
            invariant
                it.seq() == list@,
                views == list.deep_view(),
                self@ == (FsView {
                    entries: recorded(before.entries, views.take(it.index() as int)),
                    ..before
                }),
        {
            let ghost n = it.index() as int;
            let ghost map = self.entries@;
            assert(entry.deep_view() == views[n]);
            self.entries.insert(entry.ino, entry);
            proof {
                assert(views.take(n + 1).drop_last() =~= views.take(n));
                assert(views.take(n + 1).last() == views[n]);
                assert(self@.entries =~= recorded(before.entries, views.take(n + 1)));
            }
        }
        self.children.insert(parent, inos.clone());
        assert(self@.children =~= before.children.insert(parent, inos_of(views)));
        assert(self@ =~= before.with_listing(parent, views));
        inos
    }

    /// Records the storages that the device listed, and gives their inodes.
    pub fn storages_listed(&mut self, parent: u64, storages: &Vec<StorageInfo>) -> (r: Vec<u64>)
        requires
            old(self)@.entries.contains_key(parent),
        ensures
            final(self)@ == old(self)@.with_listing(
                parent,
                storage_entries(parent, storages.deep_view()),
            ),
            r@ == inos_of(storage_entries(parent, storages.deep_view())),
            old(self)@.well_formed() ==> final(self)@.well_formed(),
    {
        let ghost before = self@;
        let list = load_storages(parent, storages);
        proof {
            let views = storage_entries(parent, storages.deep_view());
            assert forall|i: int| 0 <= i < views.len() implies (#[trigger] views[i]).parent
                == parent && views[i].ino != ROOT_INO by {
                lemma_storage_ino_bits(i as u64);
            }
            if before.well_formed() {
                lemma_listing_keeps_state(before, parent, views);
            }
        }
        self.record(parent, list)
    }

    /// Records the objects that the device listed, and gives their inodes.
    pub fn objects_listed(&mut self, parent: u64, storage_id: u32, objects: &Vec<ObjectInfo>) -> (r:
        Vec<u64>)
        requires
            old(self)@.entries.contains_key(parent),
        ensures
            final(self)@ == old(self)@.with_listing(
                parent,
                object_entries(parent, storage_id, objects.deep_view()),
            ),
            r@ == inos_of(object_entries(parent, storage_id, objects.deep_view())),
            old(self)@.well_formed() ==> final(self)@.well_formed(),
    {
        let ghost before = self@;
        let list = load_objects(parent, storage_id, objects);
        proof {
            let views = object_entries(parent, storage_id, objects.deep_view());
            assert forall|i: int| 0 <= i < views.len() implies (#[trigger] views[i]).parent
                == parent && views[i].ino != ROOT_INO by {
                lemma_object_ino_bits(storage_id, objects.deep_view()[i].handle);
            }
            if before.well_formed() {
                lemma_listing_keeps_state(before, parent, views);
            }
        }
        self.record(parent, list)
    }

    /// The attributes of the first of `children` that is called `name`. A name that is no
    /// text (`None`) is nobody's.
    pub fn lookup(&self, children: &Vec<u64>, name: Option<&str>, uid: u32, gid: u32) -> (r: Result<
        FileAttr,
        FsError,
    >)
        ensures
            r == (match first_named(
                self@.entries,
                children@,
                match name {
                    Some(name) => Some(name@),
                    None => None,
                },
            ) {
                Some(entry) => Ok::<FileAttr, FsError>(attr_view(entry, uid, gid)),
                None => Err::<FileAttr, FsError>(FsError::NotFound),
            }),
    {
        let ghost wanted: Option<Seq<char>> = match name {
            Some(name) => Some(name@),
            None => None,
        };
        assert(children@.skip(0) =~= children@);
        for i in 0..children.len()
            invariant
                wanted == (match name {
                    Some(name) => Some(name@),
                    None => None::<Seq<char>>,
                }),
                first_named(self@.entries, children@, wanted) == first_named(
                    self@.entries,
                    children@.skip(i as int),
                    wanted,
                ),
        {
            assert(children@.skip(i as int).drop_first() =~= children@.skip(i + 1));
            if let Some(entry) = self.entries.get(&children[i]) {
                assert(self@.entries[children@[i as int]] == entry.deep_view());
                if let Some(name) = name {
                    if same_text(entry.name.as_str(), name) {
                        return Ok(attr_for(entry, uid, gid));
                    }
                }
            }
        }
        Err(FsError::NotFound)
    }

    /// The attributes of an inode.
    pub fn getattr(&self, ino: u64, uid: u32, gid: u32) -> (r: Result<FileAttr, FsError>)
        ensures
            r == (match self@.entry(ino) {
                Ok(entry) => Ok::<FileAttr, FsError>(attr_view(entry, uid, gid)),
                Err(err) => Err::<FileAttr, FsError>(err),
            }),
    {
        match self.entries.get(&ino) {
            Some(entry) => {
                assert(self@.entries[ino] == entry.deep_view());
                Ok(attr_for(entry, uid, gid))
            },
            None => Err(FsError::NotFound),
        }
    }

    /// Whether a file may be opened with the given `open(2)` flags. The access mode stands in
    /// their two lowest bits; the others play no part, whatever they mean to the system.
    pub fn open(&self, ino: u64, flags: i32) -> (r: Result<(), FsError>)
        ensures
            r == self@.opening(ino, flags_read_only(flags)),
    {
        assert((flags & 3) & 0x200000 == 0 && (flags & 3) & 3 == flags & 3) by (bit_vector);
        self.open_for(ino, opens_read_only(flags & 3))
    }

    /// Whether a file may be opened: only for reading, and only if it is a known file.
    pub fn open_for(&self, ino: u64, read_only: bool) -> (r: Result<(), FsError>)
        ensures
            r == self@.opening(ino, read_only),
    {
        if !read_only {
            return Err(FsError::ReadOnly);
        }
        match self.entries.get(&ino) {
            Some(entry) => {
                assert(self@.entries[ino] == entry.deep_view());
                match entry.kind {
                    FsEntryKind::Object { is_folder, .. } => if is_folder {
                        Err(FsError::IsADirectory)
                    } else {
                        Ok(())
                    },
                    _ => Err(FsError::IsADirectory),
                }
            },
            None => Err(FsError::NotFound),
        }
    }

    /// Where the contents of a file come from, and the names they are cached under.
    pub fn cached_file(&self, ino: u64) -> (r: Result<CachedFile, FsError>)
        ensures
            match (self@.entry(ino), r) {
                (Ok(entry), Ok(cached)) => {
                    &&& entry.kind == (FsEntryKind::Object {
                        storage_id: cached.storage_id,
                        handle: cached.handle,
                        is_folder: false,
                    })
                    &&& cached.file@ == cache_name(entry.ino)
                    &&& cached.part@ == part_name(entry.ino)
                },
                (Ok(entry), Err(err)) => entry.is_directory() && err == FsError::IsADirectory,
                (Err(err), _) => r == Err::<CachedFile, FsError>(err),
            },
    {
        match self.entries.get(&ino) {
            Some(entry) => {
                assert(self@.entries[ino] == entry.deep_view());
                match entry.kind {
                    FsEntryKind::Object { storage_id, handle, is_folder: false } => {
                        let file = decimal_of(entry.ino);
                        let mut part = file.clone();
                        part.append(".part");
                        Ok(CachedFile { storage_id, handle, file, part })
                    },
                    _ => Err(FsError::IsADirectory),
                }
            },
            None => Err(FsError::NotFound),
        }
    }

    /// The listing of directory `ino`, whose children are `children`, from line `offset` on.
    pub fn readdir(&self, ino: u64, children: &Vec<u64>, offset: u64) -> (r: Result<
        Vec<DirEntry>,
        FsError,
    >)
        ensures
            match (self@.entry(ino), r) {
                (Ok(directory), Ok(lines)) => lines.deep_view() == directory_lines(
                    EntryView { ino, ..directory },
                    known_children(self@.entries, children@),
                    offset as nat,
                ),
                (Err(err), Err(e)) => err == e,
                _ => false,
            },
    {
        let directory = match self.entries.get(&ino) {
            Some(entry) => entry,
            None => {
                return Err(FsError::NotFound);
            },
        };
        let ghost dir = EntryView { ino, ..directory.deep_view() };
        let ghost known = known_children(self@.entries, children@);
        let mut lines: Vec<DirEntry> = Vec::new();
        if offset == 0 {
            lines.push(
                DirEntry { ino, offset: 1, kind: FileKind::Directory, name: ".".to_string() },
            );
        }
        if offset <= 1 {
            lines.push(
                DirEntry {
                    ino: directory.parent,
                    offset: 2,
                    kind: FileKind::Directory,
                    name: "..".to_string(),
                },
            );
        }
        let mut count: u128 = 2;
        let ghost mut upto = known_children(self@.entries, children@.take(0));
        assert(lines.deep_view() =~= directory_lines(dir, upto, offset as nat));
        for i in 0..children.len()
            invariant
                upto == known_children(self@.entries, children@.take(i as int)),
                count == upto.len() + 2,
                upto.len() <= i,
                lines.deep_view() == directory_lines(dir, upto, offset as nat),
        {
            proof {
                assert(children@.take(i + 1).drop_last() =~= children@.take(i as int));
                assert(children@.take(i + 1).last() == children@[i as int]);
            }
            let ghost next = known_children(self@.entries, children@.take(i + 1));
            if let Some(entry) = self.entries.get(&children[i]) {
                assert(self@.entries[children@[i as int]] == entry.deep_view());
                assert(next == upto.push(entry.deep_view()));
                let ghost before = lines.deep_view();
                if offset as u128 <= count {
                    let attr = attr_for(entry, 0, 0);
                    let line = DirEntry {
                        ino: entry.ino,
                        offset: (count + 1) as u64,
                        kind: attr.kind,
                        name: entry.name.clone(),
                    };
                    lines.push(line);
                    assert(lines.deep_view() =~= before.push(line.deep_view()));
                }
                count = count + 1;
                assert(lines.deep_view() =~= directory_lines(dir, next, offset as nat));
            }
            proof {
                upto = next;
            }
        }
        assert(children@.take(children@.len() as int) =~= children@);
        Ok(lines)
    }
}

/// What a directory takes to be listed goes by what it is, wherever it lies: the root asks for
/// the storages, a storage for its own top, and a folder for its own contents. A file cannot
/// be listed, nor can what is not known. What was listed is known.
pub proof fn law_directories_are_listed_by_what_they_are(
    state: FsView,
    ino: u64,
    storage_id: u32,
    handle: u32,
)
    ensures
        state.children.contains_key(ino) ==> state.listing_plan(ino) == Ok::<
            ListingPlanView,
            FsError,
        >(ListingPlanView::Known(state.children[ino])),
        !state.children.contains_key(ino) && !state.entries.contains_key(ino)
            ==> state.listing_plan(ino) == Err::<ListingPlanView, FsError>(FsError::NotFound),
        !state.children.contains_key(ino) && state.entries.contains_key(ino) ==> {
            let kind = state.entries[ino].kind;
            let plan = state.listing_plan(ino);
            &&& kind is Root ==> plan == Ok::<ListingPlanView, FsError>(ListingPlanView::Storages)
            &&& kind == (FsEntryKind::Storage { storage_id }) ==> plan == Ok::<
                ListingPlanView,
                FsError,
            >(ListingPlanView::Objects { storage_id, parent: None })
            &&& kind == (FsEntryKind::Object { storage_id, handle, is_folder: true }) ==> plan
                == Ok::<ListingPlanView, FsError>(
                ListingPlanView::Objects { storage_id, parent: Some(handle) },
            )
            &&& kind == (FsEntryKind::Object { storage_id, handle, is_folder: false }) ==> plan
                == Err::<ListingPlanView, FsError>(FsError::NotADirectory)
        },
{
}

/// The objects that a device lists in a directory become known, each under an inode of its
/// own, in that directory, with its own size. A folder among them that was not listed yet asks
/// for its own contents; a file can be opened and fetched by its own handle.
pub proof fn law_listed_objects_become_known(
    state: FsView,
    parent: u64,
    storage_id: u32,
    objects: Seq<ObjectView>,
    i: int,
)
    requires
        0 <= i < objects.len(),
        forall|a: int, b: int|
            0 <= a < b < objects.len() ==> #[trigger] objects[a].handle
                != #[trigger] objects[b].handle,
        !state.children.contains_key(object_ino_view(storage_id, objects[i].handle)),
        parent != object_ino_view(storage_id, objects[i].handle),
    ensures
        ({
            let list = object_entries(parent, storage_id, objects);
            let after = state.with_listing(parent, list);
            let ino = after.children[parent][i];
            let entry = after.entries[ino];
            let object = objects[i];
            &&& after.children[parent].len() == objects.len()
            &&& after.entries.contains_key(ino)
            &&& entry.ino == ino
            &&& entry.parent == parent
            &&& entry.kind == (FsEntryKind::Object {
                storage_id,
                handle: object.handle,
                is_folder: object.is_folder,
            })
            &&& !object.is_folder ==> entry.size == object.size
            &&& object.is_folder ==> entry.size == 0
            &&& object.is_folder ==> after.listing_plan(ino) == Ok::<ListingPlanView, FsError>(
                ListingPlanView::Objects { storage_id, parent: Some(object.handle) },
            )
            &&& !object.is_folder ==> after.opening(ino, true) == Ok::<(), FsError>(())
            &&& object.is_folder ==> after.opening(ino, true) == Err::<(), FsError>(
                FsError::IsADirectory,
            )
        }),
{
    let list = object_entries(parent, storage_id, objects);
    assert forall|a: int, b: int| 0 <= a < b < list.len() implies #[trigger] list[a].ino
        != #[trigger] list[b].ino by {
        law_handles_decide_inos(storage_id, objects[a].handle, objects[b].handle);
    }
    lemma_recorded_distinct(state.entries, list, i);
    assert(inos_of(list)[i] == list[i].ino);
}

/// The storages that a device lists in the root become known, each under an inode of its own.
/// One that was not listed yet asks for its own top, and none can be opened as a file.
pub proof fn law_listed_storages_become_known(
    state: FsView,
    parent: u64,
    storages: Seq<StorageView>,
    i: int,
)
    requires
        0 <= i < storages.len() < 0x4000_0000_0000_0000,
        !state.children.contains_key(storage_ino(i as u64)),
        parent != storage_ino(i as u64),
    ensures
        ({
            let list = storage_entries(parent, storages);
            let after = state.with_listing(parent, list);
            let ino = after.children[parent][i];
            let entry = after.entries[ino];
            &&& after.children[parent].len() == storages.len()
            &&& after.entries.contains_key(ino)
            &&& entry.ino == ino
            &&& entry.parent == parent
            &&& entry.kind == (FsEntryKind::Storage { storage_id: storages[i].storage_id })
            &&& entry.size == 0
            &&& after.listing_plan(ino) == Ok::<ListingPlanView, FsError>(
                ListingPlanView::Objects { storage_id: storages[i].storage_id, parent: None },
            )
            &&& after.opening(ino, true) == Err::<(), FsError>(FsError::IsADirectory)
        }),
{
    let list = storage_entries(parent, storages);
    assert forall|a: int, b: int| 0 <= a < b < list.len() implies #[trigger] list[a].ino
        != #[trigger] list[b].ino by {
        law_inode_ranges_disjoint(a as u64, b as u64, 0, 0);
    }
    lemma_recorded_distinct(state.entries, list, i);
    assert(inos_of(list)[i] == list[i].ino);
}

/// An object whose name a path can carry is shown under that very name where no object before
/// it in the directory has the same, and so is a storage.
pub proof fn law_volume_keeps_names(
    parent: u64,
    storage_id: u32,
    objects: Seq<ObjectView>,
    storages: Seq<StorageView>,
    i: int,
)
    ensures
        0 <= i < objects.len() && util::sanitized(objects[i].filename) == objects[i].filename && (
        forall|k: int|
            0 <= k < i ==> util::sanitized((#[trigger] objects[k]).filename)
                != objects[i].filename) ==> object_entries(parent, storage_id, objects)[i].name
            == objects[i].filename,
        0 <= i < storages.len() && util::sanitized(storages[i].description)
            == storages[i].description && (forall|k: int|
            0 <= k < i ==> util::sanitized((#[trigger] storages[k]).description)
                != storages[i].description) ==> storage_entries(parent, storages)[i].name
            == storages[i].description,
{
    if 0 <= i < objects.len() && util::sanitized(objects[i].filename) == objects[i].filename && (
    forall|k: int|
        0 <= k < i ==> util::sanitized((#[trigger] objects[k]).filename) != objects[i].filename) {
        let all = object_names(objects);
        util::law_sanitized_is_safe(objects[i].filename);
        assert forall|k: int| 0 <= k < i implies #[trigger] all[k] != all[i] by {
            util::law_sanitized_is_safe(objects[k].filename);
            assert(util::sanitized(objects[k].filename) != objects[i].filename);
        }
        names::law_first_names_are_kept(all, i);
    }
    if 0 <= i < storages.len() && util::sanitized(storages[i].description)
        == storages[i].description && (forall|k: int|
        0 <= k < i ==> util::sanitized((#[trigger] storages[k]).description)
            != storages[i].description) {
        let all = storage_names(storages);
        util::law_sanitized_is_safe(storages[i].description);
        assert forall|k: int| 0 <= k < i implies #[trigger] all[k] != all[i] by {
            util::law_sanitized_is_safe(storages[k].description);
            assert(util::sanitized(storages[k].description) != storages[i].description);
        }
        names::law_first_names_are_kept(all, i);
    }
}

/// Listing a directory leaves every other directory's listing, and every entry that is not
/// listed anew, as it was.
pub proof fn law_listings_leave_the_rest(
    state: FsView,
    parent: u64,
    list: Seq<EntryView>,
    other: u64,
)
    ensures
        ({
            let after = state.with_listing(parent, list);
            &&& other != parent ==> after.children.contains_key(other)
                == state.children.contains_key(other)
            &&& other != parent && state.children.contains_key(other) ==> after.children[other]
                == state.children[other]
            &&& (forall|k: int| 0 <= k < list.len() ==> (#[trigger] list[k]).ino != other)
                ==> after.entry(other) == state.entry(other)
        }),
{
    lemma_recorded(state.entries, list);
    if forall|k: int| 0 <= k < list.len() ==> (#[trigger] list[k]).ino != other {
        if inos_of(list).contains(other) {
            let k = choose|k: int| 0 <= k < list.len() && inos_of(list)[k] == other;
            assert(list[k].ino == other);
        }
        let after = state.with_listing(parent, list);
        assert(after.entries.contains_key(other) == state.entries.contains_key(other));
    }
}

/// The attributes of a file tell its size in bytes, and in blocks of 512 bytes as many as it
/// takes; a directory has no size. Everything is readable and nothing writable, belongs to who
/// asks, and has the type of what it is.
pub proof fn law_attributes_tell_the_entry(entry: EntryView, uid: u32, gid: u32)
    ensures
        ({
            let attr = attr_view(entry, uid, gid);
            let is_file = entry.kind matches FsEntryKind::Object { is_folder: false, .. };
            &&& attr.ino == entry.ino
            &&& is_file ==> attr.size == entry.size && attr.kind is RegularFile && attr.perm
                == 0o444 && attr.nlink == 1
            &&& !is_file ==> attr.size == 0 && attr.kind is Directory && attr.perm == 0o555
                && attr.nlink == 2
            &&& attr.blocks * 512 >= entry.size
            &&& attr.blocks * 512 < entry.size + 512
            &&& attr.uid == uid
            &&& attr.gid == gid
            &&& attr.atime_secs == 0 && attr.mtime_secs == 0 && attr.ctime_secs == 0
            &&& attr.crtime_secs == 0
            &&& attr.rdev == 0 && attr.flags == 0
            &&& attr.blksize == 4096
        }),
{
}

/// A listed directory shows itself as `.`, the directory that it lies in as `..`, and then its
/// entries, all of them in order, each with its own inode, name and type.
pub proof fn law_listings_show_the_entries(
    directory: EntryView,
    known: Seq<EntryView>,
    i: int,
)
    requires
        known.len() + 2 <= u64::MAX,
    ensures
        ({
            let lines = directory_lines(directory, known, 0);
            &&& lines.len() == known.len() + 2
            &&& lines[0].ino == directory.ino && lines[0].name == "."@
            &&& lines[1].ino == directory.parent && lines[1].name == ".."@
            &&& lines[0].kind is Directory && lines[1].kind is Directory
            &&& 0 <= i < known.len() ==> {
                let line = lines[i + 2];
                let is_file = known[i].kind matches FsEntryKind::Object { is_folder: false, .. };
                &&& line.ino == known[i].ino
                &&& line.name == known[i].name
                &&& is_file ==> line.kind is RegularFile
                &&& !is_file ==> line.kind is Directory
            }
        }),
{
}

/// Of the children of a directory those that are known are shown, in order.
pub proof fn law_known_children_are_shown(
    entries: Map<u64, EntryView>,
    children: Seq<u64>,
    child: u64,
)
    ensures
        known_children(entries, Seq::empty()) == Seq::<EntryView>::empty(),
        entries.contains_key(child) ==> known_children(entries, children.push(child))
            == known_children(entries, children).push(entries[child]),
        !entries.contains_key(child) ==> known_children(entries, children.push(child))
            == known_children(entries, children),
{
    assert(children.push(child).drop_last() =~= children);
}

/// A name is looked up among a directory's own children: what is found is a known one of that
/// name and the first such, and nothing is found only where there is none.
pub proof fn law_lookups_find_the_name(
    entries: Map<u64, EntryView>,
    children: Seq<u64>,
    name: Seq<char>,
)
    ensures
        first_named(entries, children, None) is None,
        first_named(entries, children, Some(name)) matches Some(entry) ==> exists|k: int|
            0 <= k < children.len() && entries.contains_key(#[trigger] children[k])
                && entries[children[k]] == entry && entry.name == name && (forall|j: int|
                0 <= j < k && entries.contains_key(#[trigger] children[j])
                    ==> entries[children[j]].name != name),
        first_named(entries, children, Some(name)) is None ==> forall|k: int|
            0 <= k < children.len() && entries.contains_key(#[trigger] children[k])
                ==> entries[children[k]].name != name,
    decreases children.len(),
{
    if children.len() > 0 {
        let rest = children.drop_first();
        law_lookups_find_the_name(entries, rest, name);
        let first = entries.contains_key(children[0]) && entries[children[0]].name == name;
        if first {
            assert(first_named(entries, children, Some(name)) == Some(entries[children[0]]));
        } else {
            assert(first_named(entries, children, Some(name)) == first_named(
                entries,
                rest,
                Some(name),
            ));
            if first_named(entries, rest, Some(name)) is Some {
                let entry = first_named(entries, rest, Some(name))->0;
                let k = choose|k: int|
                    0 <= k < rest.len() && entries.contains_key(#[trigger] rest[k])
                        && entries[rest[k]] == entry && entry.name == name && (forall|j: int|
                        0 <= j < k && entries.contains_key(#[trigger] rest[j])
                            ==> entries[rest[j]].name != name);
                assert(children[k + 1] == rest[k]);
                assert forall|j: int|
                    0 <= j < k + 1 && entries.contains_key(
                        #[trigger] children[j],
                    ) implies entries[children[j]].name != name by {
                    if j > 0 {
                        assert(rest[j - 1] == children[j]);
                    }
                }
            } else {
                assert forall|k: int|
                    0 <= k < children.len() && entries.contains_key(
                        #[trigger] children[k],
                    ) implies entries[children[k]].name != name by {
                    if k > 0 {
                        assert(rest[k - 1] == children[k]);
                    }
                }
            }
        }
        assert(first_named(entries, children, None) == first_named(entries, rest, None));
    }
}

/// A known file opens for reading, and nothing else does: a directory is no file, and what is
/// not known is not found.
pub proof fn law_known_files_open(state: FsView, ino: u64)
    ensures
        ({
            let is_file = state.entries.contains_key(ino) && (state.entries[ino].kind matches
                FsEntryKind::Object { is_folder: false, .. });
            &&& is_file ==> state.opening(ino, true) == Ok::<(), FsError>(())
            &&& !state.entries.contains_key(ino) ==> state.opening(ino, true) == Err::<
                (),
                FsError,
            >(FsError::NotFound)
            &&& state.entries.contains_key(ino) && !is_file ==> state.opening(ino, true) == Err::<
                (),
                FsError,
            >(FsError::IsADirectory)
            &&& state.opening(ino, false) == Err::<(), FsError>(FsError::ReadOnly)
            &&& state.entries.contains_key(ino) ==> state.entry(ino) == Ok::<EntryView, FsError>(
                state.entries[ino],
            )
            &&& !state.entries.contains_key(ino) ==> state.entry(ino) == Err::<EntryView, FsError>(
                FsError::NotFound,
            )
        }),
{
}

/// A volume begins with its root alone, which asks for the storages.
pub proof fn law_volumes_begin_at_the_root(ino: u64)
    ensures
        FsView::empty().well_formed(),
        FsView::empty().entries.contains_key(ino) <==> ino == 1,
        FsView::empty().entries[1].kind is Root,
        FsView::empty().entries[1].parent == 1,
        FsView::empty().listing_plan(1) == Ok::<ListingPlanView, FsError>(
            ListingPlanView::Storages,
        ),
{
}

/// What the contracts say of entries, lines and plans is what they hold.
pub proof fn law_entries_show_their_fields(
    entry: FsEntry,
    line: DirEntry,
    inos: Vec<u64>,
    storage_id: u32,
    parent: Option<u32>,
)
    ensures
        entry.deep_view().ino == entry.ino,
        entry.deep_view().parent == entry.parent,
        entry.deep_view().name == entry.name@,
        entry.deep_view().kind == entry.kind,
        entry.deep_view().size == entry.size,
        line.deep_view().ino == line.ino,
        line.deep_view().offset == line.offset,
        line.deep_view().kind == line.kind,
        line.deep_view().name == line.name@,
        ListingPlan::Known(inos).deep_view() == ListingPlanView::Known(inos@),
        ListingPlan::Storages.deep_view() == ListingPlanView::Storages,
        (ListingPlan::Objects { storage_id, parent }).deep_view() == (ListingPlanView::Objects {
            storage_id,
            parent,
        }),
{
}

/// The inode of an object of a storage whose identifier is below 2^31 is made of both numbers:
/// 2^63, then the storage's identifier times 2^32, then the handle. Storages count on from
/// 2^62.
pub proof fn law_inodes_are_made_of_their_numbers(storage_id: u32, handle: u32, index: u64)
    ensures
        storage_id < 0x8000_0000 ==> object_ino_view(storage_id, handle) == 0x8000_0000_0000_0000
            + storage_id * 0x1_0000_0000 + handle,
        index < 0x4000_0000_0000_0000 ==> storage_ino(index) == 0x4000_0000_0000_0000 + index,
        ROOT_INO == 1,
{
    lemma_storage_ino_bits(index);
    assert(storage_id < 0x8000_0000u32 ==> (0x8000_0000_0000_0000u64 | ((storage_id as u64) << 32)
        | handle as u64) == 0x8000_0000_0000_0000u64 + (storage_id as u64) * 0x1_0000_0000u64
        + handle as u64) by (bit_vector);
}

/// The name of an object on the volume is the object's own, with each character that a path
/// cannot carry replaced by an underscore and no other. One that is called like one before it
/// in the directory has its number behind that; so it is with storages.
pub proof fn law_volume_names_are_the_objects_own(
    parent: u64,
    storage_id: u32,
    objects: Seq<ObjectView>,
    storages: Seq<StorageView>,
    i: int,
    at: int,
)
    ensures
        0 <= i < objects.len() ==> {
            let own = objects[i].filename;
            let name = object_entries(parent, storage_id, objects)[i].name;
            let base = util::sanitized(own);
            let repeated = exists|k: int|
                0 <= k < i && util::sanitized((#[trigger] objects[k]).filename) == base;
            &&& own.len() > 0 ==> name.len() >= own.len()
            &&& 0 <= at < own.len() && own[at] != '/' && own[at] != '\\' && own[at] != ':'
                && own[at] != '\0' ==> name[at] == own[at]
            &&& 0 <= at < own.len() && (own[at] == '/' || own[at] == '\\' || own[at] == ':'
                || own[at] == '\0') ==> name[at] == '_'
            &&& own.len() > 0 && !repeated ==> name.len() == own.len()
            &&& repeated ==> name == base + " "@ + text::decimal(
                names::occurrences(object_names(objects), (i + 1) as nat, base),
            )
        },
        0 <= i < storages.len() ==> {
            let own = storages[i].description;
            let name = storage_entries(parent, storages)[i].name;
            let base = util::sanitized(own);
            let repeated = exists|k: int|
                0 <= k < i && util::sanitized((#[trigger] storages[k]).description) == base;
            &&& 0 <= at < own.len() && own[at] != '/' && own[at] != '\\' && own[at] != ':'
                && own[at] != '\0' ==> name[at] == own[at]
            &&& 0 <= at < own.len() && (own[at] == '/' || own[at] == '\\' || own[at] == ':'
                || own[at] == '\0') ==> name[at] == '_'
            &&& own.len() > 0 && !repeated ==> name.len() == own.len()
            &&& repeated ==> name == base + " "@ + text::decimal(
                names::occurrences(storage_names(storages), (i + 1) as nat, base),
            )
        },
{
    if 0 <= i < objects.len() {
        let all = object_names(objects);
        assert forall|k: int| 0 <= k < objects.len() implies #[trigger] all[k] == util::sanitized(
            objects[k].filename,
        ) by {
            util::law_sanitized_is_safe(objects[k].filename);
        }
        util::law_sanitized_keeps_the_rest(objects[i].filename);
        let base = util::sanitized(objects[i].filename);
        if exists|k: int|
            0 <= k < i && util::sanitized((#[trigger] objects[k]).filename) == base {
            let k = choose|k: int|
                0 <= k < i && util::sanitized((#[trigger] objects[k]).filename) == base;
            assert(all[k] == all[i]);
            names::law_later_names_are_numbered(all, k, i);
        } else {
            assert forall|k: int| 0 <= k < i implies #[trigger] all[k] != all[i] by {
                assert(util::sanitized(objects[k].filename) != base);
            }
            names::law_first_names_are_kept(all, i);
        }
    }
    if 0 <= i < storages.len() {
        let all = storage_names(storages);
        assert forall|k: int| 0 <= k < storages.len() implies #[trigger] all[k] == util::sanitized(
            storages[k].description,
        ) by {
            util::law_sanitized_is_safe(storages[k].description);
        }
        util::law_sanitized_keeps_the_rest(storages[i].description);
        let base = util::sanitized(storages[i].description);
        if exists|k: int|
            0 <= k < i && util::sanitized((#[trigger] storages[k]).description) == base {
            let k = choose|k: int|
                0 <= k < i && util::sanitized((#[trigger] storages[k]).description) == base;
            assert(all[k] == all[i]);
            names::law_later_names_are_numbered(all, k, i);
        } else {
            assert forall|k: int| 0 <= k < i implies #[trigger] all[k] != all[i] by {
                assert(util::sanitized(storages[k].description) != base);
            }
            names::law_first_names_are_kept(all, i);
        }
    }
}

/// The contents of a file are cached under its inode's number, in decimal, and downloaded
/// under the same with `.part` behind it.
pub proof fn law_cache_names_tell_the_inode(ino: u64)
    ensures
        text::digits_value(cache_name(ino)) == ino,
        part_name(ino) == cache_name(ino) + ".part"@,
{
    text::law_decimal_reads_back(ino as nat);
}

/// What is listed is recorded one by one: each entry under its own inode, in place of one that
/// was recorded there before.
pub proof fn law_entries_are_recorded_one_by_one(
    entries: Map<u64, EntryView>,
    list: Seq<EntryView>,
    entry: EntryView,
)
    ensures
        recorded(entries, Seq::empty()) == entries,
        recorded(entries, list.push(entry)) == recorded(entries, list).insert(entry.ino, entry),
        inos_of(list.push(entry)) == inos_of(list).push(entry.ino),
{
    assert(list.push(entry).drop_last() =~= list);
    assert(inos_of(list.push(entry)) =~= inos_of(list).push(entry.ino));
}

} // verus!
