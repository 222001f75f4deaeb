//! The visible rows of the browser: the selected file, and the next and the previous one.
use crate::model::NodeSource;
use crate::tree::{NodeTree, TreeView};
use vstd::prelude::*;

verus! {

/// A way to walk through the rows.
#[derive(Clone, Copy, Debug, PartialEq, Eq, Structural)]
pub enum Direction {
    Down,
    Up,
}

/// The way to walk for a key: the down and the up arrow have one.
pub open spec fn key_direction(key_code: u16) -> Option<Direction> {
    if key_code == 125 {
        Some(Direction::Down)
    } else if key_code == 126 {
        Some(Direction::Up)
    } else {
        None
    }
}

/// The way to walk for a key: see [`key_direction`].
pub fn preview_direction(key_code: u16) -> (r: Option<Direction>)
    ensures
        r == key_direction(key_code),
{
    match key_code {
        125 => Some(Direction::Down),
        126 => Some(Direction::Up),
        _ => None,
    }
}

/// Whether a key opens the preview: the space bar does, where the browser has something to
/// call.
pub fn opens_preview(key_code: u16, has_target: bool) -> (r: bool)
    ensures
        r == (key_code == 49 && has_target),
{
    key_code == 49 && has_target
}

/// Whether a row shows a file. `rows` holds the node of each visible row.
pub open spec fn file_row(tree: TreeView, rows: Seq<Option<usize>>, row: int) -> bool {
    0 <= row < rows.len() && rows[row] is Some && tree.is_file_at(rows[row]->0 as int)
}

/// Whether `row` comes after `from` on the way.
pub open spec fn ahead(direction: Direction, from: int, row: int) -> bool {
    match direction {
        Direction::Down => from < row,
        Direction::Up => row < from,
    }
}

/// Whether `row` is the next file after `from` on the way.
pub open spec fn next_file(
    tree: TreeView,
    rows: Seq<Option<usize>>,
    direction: Direction,
    from: int,
    row: int,
) -> bool {
    &&& file_row(tree, rows, row)
    &&& ahead(direction, from, row)
    &&& forall|between: int|
        ahead(direction, from, between) && ahead(direction, between, row) ==> !(#[trigger] file_row(
            tree,
            rows,
            between,
        ))
}

/// Whether a row shows a file: see [`file_row`].
pub fn is_file_row(tree: &NodeTree, rows: &Vec<Option<usize>>, row: usize) -> (r: bool)
    ensures
        r == file_row(tree@, rows@, row as int),
{
    if row >= rows.len() {
        return false;
    }
    match rows[row] {
        Some(index) => tree.is_file_at(index),
        None => false,
    }
}

/// The selected row, if it shows a file; a negative number means that no row is selected.
pub fn selected_file_row(tree: &NodeTree, rows: &Vec<Option<usize>>, selected: isize) -> (r: Option<
    usize,
>)
    ensures
        r is Some == file_row(tree@, rows@, selected as int),
        r is Some ==> r->0 == selected,
{
    if selected < 0 {
        return None;
    }
    let row: usize = selected as usize;
    if is_file_row(tree, rows, row) {
        Some(row)
    } else {
        None
    }
}

/// The row of the next file on the way from the selected one; `None` where no file is
/// selected or none comes after it.
pub fn select_preview_file_relative(
    tree: &NodeTree,
    rows: &Vec<Option<usize>>,
    selected: isize,
    direction: Direction,
) -> (r: Option<usize>)
    ensures
        r is Some ==> file_row(tree@, rows@, selected as int) && next_file(
            tree@,
            rows@,
            direction,
            selected as int,
            r->0 as int,
        ),
        r is None && file_row(tree@, rows@, selected as int) ==> forall|row: int|
            ahead(direction, selected as int, row) ==> !(#[trigger] file_row(tree@, rows@, row)),
{
    let from: usize = match selected_file_row(tree, rows, selected) {
        Some(row) => row,
        None => {
            return None;
        },
    };
    match direction {
        Direction::Down => {
            let mut row: usize = from + 1;
            while row < rows.len()
                invariant
                    direction is Down,
                    from == selected,
                    file_row(tree@, rows@, from as int),
                    from < row <= rows@.len(),
                    forall|between: int|
                        from < between < row ==> !(#[trigger] file_row(tree@, rows@, between)),
                decreases rows@.len() - row,
            {
                if is_file_row(tree, rows, row) {
                    return Some(row);
                }
                row = row + 1;
            }
            None
        },
        Direction::Up => {
            let mut row: usize = from;
            while row > 0
                invariant
                    direction is Up,
                    from == selected,
                    file_row(tree@, rows@, from as int),
                    row <= from < rows@.len(),
                    forall|between: int|
                        row <= between < from ==> !(#[trigger] file_row(tree@, rows@, between)),
                decreases row,
            {
                row = row - 1;
                if is_file_row(tree, rows, row) {
                    return Some(row);
                }
            }
            None
        },
    }
}

/// Whether the selection can be previewed now: it is a file, and no copy runs.
pub fn accepts_preview(tree: &NodeTree, selected: Option<usize>, active_copies: usize) -> (r: bool)
    ensures
        r == (active_copies == 0 && selected is Some && tree@.is_file_at(selected->0 as int)),
{
    active_copies == 0 && tree.selected_file(selected).is_some()
}

/// How many items there are to preview.
pub fn number_of_preview_items(tree: &NodeTree, selected: Option<usize>) -> (r: usize)
    ensures
        r == if selected is Some && tree@.is_file_at(selected->0 as int) {
            1usize
        } else {
            0usize
        },
{
    if tree.selected_file(selected).is_some() {
        1
    } else {
        0
    }
}

/// Walking one file on and one file back leads to where the walk began.
pub proof fn law_walking_back_returns(
    tree: TreeView,
    rows: Seq<Option<usize>>,
    direction: Direction,
    from: int,
    row: int,
    back: int,
)
    requires
        file_row(tree, rows, from),
        next_file(tree, rows, direction, from, row),
        next_file(
            tree,
            rows,
            match direction {
                Direction::Down => Direction::Up,
                Direction::Up => Direction::Down,
            },
            row,
            back,
        ),
    ensures
        back == from,
{
}

/// The down arrow walks to higher rows and the up arrow to lower ones; no other key walks.
pub proof fn law_arrows_walk(key_code: u16, from: int, row: int)
    ensures
        key_code == 125 ==> key_direction(key_code) is Some && (ahead(
            key_direction(key_code)->0,
            from,
            row,
        ) <==> row > from),
        key_code == 126 ==> key_direction(key_code) is Some && (ahead(
            key_direction(key_code)->0,
            from,
            row,
        ) <==> row < from),
        key_code != 125 && key_code != 126 ==> key_direction(key_code) is None,
{
}

/// A walk leads to a row that shows a file of the device, and passes none: a row shows a file
/// exactly when the node in it is one.
pub proof fn law_walks_lead_to_files(
    tree: TreeView,
    rows: Seq<Option<usize>>,
    direction: Direction,
    from: int,
    row: int,
    between: int,
)
    requires
        next_file(tree, rows, direction, from, row),
    ensures
        0 <= row < rows.len(),
        rows[row] is Some,
        rows[row]->0 < tree.nodes.len(),
        tree.nodes[rows[row]->0 as int].source matches NodeSource::Object {
            is_folder: false,
            ..
        },
        direction is Down ==> row > from,
        direction is Up ==> row < from,
        0 <= between < rows.len() && (from < between < row || row < between < from) ==> !(
        rows[between] is Some && rows[between]->0 < tree.nodes.len() && (
        tree.nodes[rows[between]->0 as int].source matches NodeSource::Object {
            is_folder: false,
            ..
        })),
{
    if from < between < row || row < between < from {
        assert(!file_row(tree, rows, between));
    }
}

} // verus!
