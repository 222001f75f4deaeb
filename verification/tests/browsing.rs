use macmtp::action::Action;
use macmtp::browse::{
    checked_lock, damaged_lock_message, listing_timeout_message, preview_dir, preview_path,
    ListRequest, PreviewOutcome, PreviewPlan, PreviewRequest,
};
use macmtp::dates::{date_text, Moment};
use macmtp::detail::update_detail;
use macmtp::device::DeviceInfo;
use macmtp::model::{message_node, BrowserNode, NodeSource, ObjectInfo, StorageInfo};
use macmtp::phrases::Language;
use macmtp::rows::{
    accepts_preview, is_file_row, number_of_preview_items, opens_preview, preview_direction,
    select_preview_file_relative, selected_file_row, Direction,
};
use macmtp::session::{Facilities, Session};
use macmtp::status::Locations;
use macmtp::tree::{cell_text, storage_nodes, NodeTree, NoteStyle};
use mtp_rs::ptp::DateTime;

const ALL: Facilities = Facilities {
    macfuse: true,
    device_events: true,
    mount_events: true,
    copy_events: true,
};

fn nameless() -> DeviceInfo {
    DeviceInfo {
        manufacturer: None,
        product: None,
        serial_number: None,
        location_id: 1,
    }
}

fn message(title: &str, detail: &str) -> Action {
    Action::SetMessage {
        title: title.to_string(),
        detail: detail.to_string(),
    }
}

fn object(handle: u32, name: &str, size: u64, folder: bool) -> ObjectInfo {
    ObjectInfo {
        handle,
        filename: name.to_string(),
        size,
        format: if folder { 0x3001 } else { 0x3000 },
        association_type: 0,
        created: None,
        modified: None,
    }
}

fn storage(storage_id: u32, description: &str) -> StorageInfo {
    StorageInfo {
        storage_id,
        description: description.to_string(),
        free_space_bytes: 1536,
    }
}

fn connected() -> Session {
    let mut session = Session::new(Language::SimplifiedChinese);
    session.devices_found(Ok(vec![nameless()]));
    session.select_device_at_index(0, false, ALL);
    session.apply_connected_device(nameless(), storage_nodes(&vec![storage(3, "Card")], Language::SimplifiedChinese), ALL);
    session
}

fn browsed() -> Session {
    let mut session = connected();
    session.children_listed(
        0,
        3,
        Ok(vec![
            object(10, "DCIM", 0, true),
            object(11, "a:b.txt", 2048, false),
            object(12, "c.txt", 5, false),
        ]),
    );
    session
}

#[test]
fn messages_are_inert() {
    let node = message_node("t", "d", "Status");
    assert_eq!((node.name.as_str(), node.note.as_str()), ("t", "d"));
    assert_eq!((node.kind.as_str(), node.size.as_str()), ("Status", "--"));
    assert!(!node.is_file() && !node.is_folder() && !node.can_expand);
    assert!(node.children_loaded && node.children.is_empty());
}

#[test]
fn folders_are_told_by_their_codes() {
    assert!(object(1, "d", 0, true).is_folder());
    assert!(!object(1, "f", 0, false).is_folder());
    let generic = ObjectInfo {
        association_type: 1,
        ..object(1, "d", 0, false)
    };
    assert!(generic.is_folder());
    for association_type in [0u16, 2, 3, 7] {
        let other = ObjectInfo {
            association_type,
            ..object(1, "d", 0, false)
        };
        assert!(!other.is_folder());
    }
}

#[test]
fn storages_stand_at_the_top() {
    let tree = storage_nodes(&vec![storage(3, "Card"), storage(4, "Internal")], Language::SimplifiedChinese);
    assert_eq!(tree.root_children, vec![0, 1]);
    assert_eq!(tree.nodes[1].name, "Internal");
    assert_eq!(tree.nodes[1].kind, "存储");
    assert_eq!(tree.nodes[1].size, "1.5 KB");
    assert_eq!(tree.nodes[1].note, "Storage ID: 4\n可用空间: 1.5 KB");
    assert_eq!(tree.nodes[1].source, NodeSource::Storage { storage_id: 4 });
    assert!(tree.nodes[1].can_expand && !tree.nodes[1].children_loaded);

    let none = storage_nodes(&vec![], Language::SimplifiedChinese);
    assert_eq!(none.root_children, vec![0]);
    assert_eq!(none.nodes[0].name, "设备没有可用存储");
    assert_eq!(none.nodes[0].note, "MTP 设备未返回 storage 列表。");
}

#[test]
fn folders_open_with_what_the_device_lists() {
    let mut session = connected();
    assert_eq!(
        session.load_children(0),
        Some(ListRequest {
            storage_id: 3,
            parent: None,
            lock: 0
        })
    );
    session = browsed();
    let tree = &session.tree;
    assert_eq!(tree.nodes[0].children, vec![1, 2, 3]);
    assert_eq!(tree.nodes[1].kind, "文件夹");
    assert_eq!(tree.nodes[1].size, "--");
    assert!(tree.nodes[1].can_expand);
    assert_eq!(tree.nodes[2].kind, "文件");
    assert_eq!(tree.nodes[2].size, "2.0 KB");
    assert_eq!(
        tree.nodes[2].note,
        "选中文件按下空格预览文件\n选中后拖拽到Finder可复制文件到本机"
    );
    assert_eq!(session.load_children(0), None);
    assert_eq!(session.load_children(2), None);
    assert_eq!(session.load_children(99), None);
    assert_eq!(
        session.load_children(1),
        Some(ListRequest {
            storage_id: 3,
            parent: Some(10),
            lock: 0
        })
    );
}

#[test]
fn what_cannot_be_listed_says_why() {
    let mut session = browsed();
    session.children_listed(1, 3, Err("Operation timed out".to_string()));
    assert_eq!(session.tree.nodes[1].children, vec![4]);
    assert_eq!(session.tree.nodes[4].name, "目录读取失败");
    assert_eq!(session.tree.nodes[4].note, "Operation timed out");
    assert_eq!(session.load_children(1), None);

    let mut closed = browsed();
    closed.close_current_device();
    assert_eq!(closed.load_children(1), None);
    assert_eq!(closed.tree.nodes[4].note, "设备未连接。");

    let mut unlocked = browsed();
    unlocked.lock = None;
    assert_eq!(unlocked.load_children(1), None);
    assert_eq!(unlocked.tree.nodes[4].note, "设备操作锁未初始化。");
}

#[test]
fn operations_need_their_lock() {
    assert_eq!(checked_lock(Some(4), Language::SimplifiedChinese), Ok(4));
    assert_eq!(checked_lock(None, Language::SimplifiedChinese), Err("设备操作锁未初始化。".to_string()));
    assert_eq!(damaged_lock_message(Language::SimplifiedChinese), "MTP 操作锁已损坏。");
    assert_eq!(listing_timeout_message(15, Language::SimplifiedChinese), "MTP 目录读取超过 15 秒。");
}

#[test]
fn the_outline_shows_the_tree() {
    let session = browsed();
    let tree = &session.tree;
    assert_eq!(tree.outline_number_of_children(None), 1);
    assert_eq!(tree.outline_number_of_children(Some(0)), 3);
    assert_eq!(tree.outline_child(2, Some(0)), 3);
    assert_eq!(tree.outline_child(0, None), 0);
    assert!(tree.outline_is_expandable(Some(1)));
    assert!(!tree.outline_is_expandable(Some(2)));
    assert!(!tree.outline_is_expandable(Some(9)));
    assert!(!tree.outline_is_expandable(None));
    assert!(tree.is_drag_copyable(1) && tree.is_drag_copyable(2));
    assert!(!tree.is_drag_copyable(0) && !tree.is_drag_copyable(9));
}

#[test]
fn cells_show_their_column() {
    let session = browsed();
    let node = &session.tree.nodes[2];
    assert_eq!(cell_text(node, "name", "c", "m"), "a:b.txt");
    assert_eq!(cell_text(node, "kind", "c", "m"), "文件");
    assert_eq!(cell_text(node, "size", "c", "m"), "2.0 KB");
    assert_eq!(cell_text(node, "created", "c", "m"), "c");
    assert_eq!(cell_text(node, "modified", "c", "m"), "m");
    assert_eq!(cell_text(node, "other", "c", "m"), "a:b.txt");
}

#[test]
fn dates_are_carried_through() {
    let when = DateTime {
        year: 2024,
        month: 2,
        day: 29,
        hour: 1,
        minute: 2,
        second: 3,
    };
    let mut tree = storage_nodes(&vec![storage(3, "Card")], Language::SimplifiedChinese);
    let dated = ObjectInfo {
        modified: Some(when),
        ..object(1, "a", 0, false)
    };
    tree.fill(0, NoteStyle::Usage, 3, &vec![dated], Language::SimplifiedChinese);
    assert_eq!(tree.nodes[1].modified, Some(when));
    assert_eq!(tree.nodes[1].created, None);
}

#[test]
fn the_detail_pane_shows_the_selected_node() {
    let session = browsed();
    let at: Locations = session.locations;
    let file = update_detail(&session.tree, &session.devices, at, Some(2), "c", " m ", Language::SimplifiedChinese);
    assert_eq!(file.title, "a:b.txt");
    assert!(!file.hidden);
    let lines: Vec<(&str, &str)> = file
        .rows
        .iter()
        .map(|row| (row.label.as_str(), row.value.as_str()))
        .collect();
    assert_eq!(
        lines,
        vec![("类型", "文件"), ("大小", "2.0 KB"), ("创建时间", "c"), ("修改时间", "m")]
    );
    let folder = update_detail(&session.tree, &session.devices, at, Some(1), "c", "m", Language::SimplifiedChinese);
    assert_eq!(folder.rows[1].label, "项目");
    assert_eq!(folder.rows[1].value, "0 个");
    assert_eq!(folder.rows.len(), 4);
    let card = update_detail(&session.tree, &session.devices, at, Some(0), "c", "m", Language::SimplifiedChinese);
    assert_eq!(card.rows.len(), 2);
    assert_eq!(card.rows[1].value, "3 个");
}

#[test]
fn previews_download_once() {
    let mut session = browsed();
    let (plan, actions) = session.prepare_selected_file_for_preview(Some(2));
    assert_eq!(
        plan,
        PreviewPlan::Download {
            request: PreviewRequest {
                storage_id: 3,
                handle: 11,
                file_name: "11-a_b.txt".to_string(),
                lock: Some(0),
            }
        }
    );
    assert_eq!(
        actions,
        vec![message("正在准备预览", "正在从 MTP 设备复制文件到临时目录。")]
    );
    let path = preview_path("/tmp", "11-a_b.txt");
    assert_eq!(path, "/tmp/macmtp-quicklook/11-a_b.txt");
    assert_eq!(preview_dir("/tmp"), "/tmp/macmtp-quicklook");
    let (shown, actions) =
        session.finish_preview(2, PreviewOutcome::Saved { path: path.clone() });
    assert_eq!(shown, Some(path.clone()));
    assert_eq!(actions, vec![Action::UpdateDetail { at: session.locations }]);
    assert_eq!(
        session.prepare_selected_file_for_preview(Some(2)),
        (PreviewPlan::Cached { path }, vec![])
    );
}

#[test]
fn previews_fail_with_a_reason() {
    let mut session = browsed();
    assert_eq!(
        session.finish_preview(2, PreviewOutcome::Failed { message: "x".to_string() }),
        (None, vec![message("预览失败", "x")])
    );
    assert_eq!(session.finish_preview(2, PreviewOutcome::NoDirectory), (None, vec![]));
    assert_eq!(
        session.finish_preview(2, PreviewOutcome::NotWritten),
        (None, vec![message("预览失败", "无法写入临时预览文件。")])
    );
    let preparing = message("正在准备预览", "正在从 MTP 设备复制文件到临时目录。");
    session.lock = None;
    assert_eq!(
        session.prepare_selected_file_for_preview(Some(2)),
        (
            PreviewPlan::Nothing,
            vec![preparing.clone(), message("预览失败", "设备操作锁未初始化。")]
        )
    );
    session.close_current_device();
    assert_eq!(
        session.prepare_selected_file_for_preview(Some(2)),
        (PreviewPlan::Nothing, vec![preparing])
    );
}

#[test]
fn only_files_are_previewed() {
    let session = browsed();
    for selected in [None, Some(0), Some(1)] {
        assert_eq!(
            session.prepare_selected_file_for_preview(selected),
            (PreviewPlan::Nothing, vec![])
        );
        assert_eq!(number_of_preview_items(&session.tree, selected), 0);
        assert!(!accepts_preview(&session.tree, selected, 0));
    }
    assert_eq!(number_of_preview_items(&session.tree, Some(2)), 1);
    assert!(accepts_preview(&session.tree, Some(2), 0));
    assert!(!accepts_preview(&session.tree, Some(2), 1));
}

#[test]
fn keys_walk_and_open() {
    assert_eq!(preview_direction(125), Some(Direction::Down));
    assert_eq!(preview_direction(126), Some(Direction::Up));
    assert_eq!(preview_direction(49), None);
    assert!(opens_preview(49, true));
    assert!(!opens_preview(49, false));
    assert!(!opens_preview(36, true));
}

fn file(name: &str) -> BrowserNode {
    BrowserNode {
        source: NodeSource::Object {
            storage_id: 1,
            handle: 1,
            is_folder: false,
        },
        ..message_node(name, "", "")
    }
}

#[test]
fn walking_goes_from_file_to_file() {
    let tree = NodeTree {
        nodes: vec![file("a"), message_node("m", "", ""), file("b")],
        root_children: vec![0, 1, 2],
    };
    let rows = vec![Some(0), Some(1), None, Some(2), Some(1)];
    assert!(is_file_row(&tree, &rows, 0));
    assert!(!is_file_row(&tree, &rows, 2));
    assert!(!is_file_row(&tree, &rows, 9));
    assert_eq!(selected_file_row(&tree, &rows, 3), Some(3));
    assert_eq!(selected_file_row(&tree, &rows, 1), None);
    assert_eq!(selected_file_row(&tree, &rows, -1), None);
    let walk = |from: isize, direction| select_preview_file_relative(&tree, &rows, from, direction);
    assert_eq!(walk(0, Direction::Down), Some(3));
    assert_eq!(walk(3, Direction::Up), Some(0));
    assert_eq!(walk(3, Direction::Down), None);
    assert_eq!(walk(0, Direction::Up), None);
    assert_eq!(walk(1, Direction::Down), None);
    assert_eq!(walk(-1, Direction::Down), None);
}

#[test]
fn opening_says_what_it_comes_to() {
    let fresh = Session::new(Language::SimplifiedChinese);
    assert_eq!(fresh.load_children_result(0), Err("设备未连接。".to_string()));
    assert!(fresh.tree.nodes.is_empty());
    let mut session = browsed();
    for index in [0, 2, 99] {
        assert_eq!(session.load_children_result(index), Ok(None));
    }
    let request = ListRequest {
        storage_id: 3,
        parent: Some(10),
        lock: 0,
    };
    assert_eq!(session.load_children_result(1), Ok(Some(request)));
    session.lock = None;
    assert_eq!(
        session.load_children_result(1),
        Err("设备操作锁未初始化。".to_string())
    );
}

#[test]
fn failed_listings_can_be_repeated() {
    let mut session = browsed();
    let before = session.load_children_result(1);
    assert_eq!(
        session.listing_arrived(1, 3, Err("x".to_string())),
        Err("x".to_string())
    );
    assert_eq!(session.tree.nodes.len(), 4);
    assert_eq!(session.load_children_result(1), before);
    assert_eq!(session.listing_arrived(1, 3, Ok(vec![object(20, "p", 1, false)])), Ok(()));
    assert_eq!(session.tree.nodes[1].children, vec![4]);
    assert_eq!(session.load_children_result(1), Ok(None));
}

#[test]
fn dates_are_written_to_the_minute() {
    let date = Moment {
        year: 987,
        month: 2,
        day: 29,
        hour: 0,
        minute: 59,
    };
    assert_eq!(date_text(Some(date)), "0987-02-29 00:59");
    assert_eq!(date_text(None), "--");
}
