use macmtp::action::Action;
use macmtp::copy::{copy_refused, CopyEvent, CopyJob, ExportNode};
use macmtp::device::DeviceInfo;
use macmtp::drag::{
    drag_ended, drag_item_index, drag_marker, drag_promises, drag_will_begin, drag_written,
    file_promise, file_promise_index, node_indexes_from_items, promise_file_name, DragItem,
    FilePromise,
};
use macmtp::export::{ExportAction, Exporter, Fault};
use macmtp::model::{ObjectInfo, StorageInfo};
use macmtp::phrases::Language;
use macmtp::session::{Facilities, Session};
use macmtp::status::Locations;
use macmtp::tree::storage_nodes;

const ALL: Facilities = Facilities {
    macfuse: true,
    device_events: true,
    mount_events: true,
    copy_events: true,
};

fn nameless() -> DeviceInfo {
    DeviceInfo {
        manufacturer: None,
        product: None,
        serial_number: None,
        location_id: 1,
    }
}

fn message(title: &str, detail: &str) -> Action {
    Action::SetMessage {
        title: title.to_string(),
        detail: detail.to_string(),
    }
}

fn object(handle: u32, name: &str, size: u64, folder: bool) -> ObjectInfo {
    ObjectInfo {
        handle,
        filename: name.to_string(),
        size,
        format: if folder { 0x3001 } else { 0x3000 },
        association_type: 0,
        created: None,
        modified: None,
    }
}

fn browsed() -> Session {
    let mut session = Session::new(Language::SimplifiedChinese);
    session.devices_found(Ok(vec![nameless()]));
    session.select_device_at_index(0, false, ALL);
    let storage = StorageInfo {
        storage_id: 3,
        description: "Card".to_string(),
        free_space_bytes: 0,
    };
    session.apply_connected_device(nameless(), storage_nodes(&vec![storage], Language::SimplifiedChinese), ALL);
    session.children_listed(
        0,
        3,
        Ok(vec![object(10, "D/CIM", 0, true), object(11, "a.txt", 5, false)]),
    );
    session
}

fn at_one() -> Locations {
    Locations {
        current: Some(1),
        mounted: None,
        mounting: None,
    }
}

fn copy_shown() -> Vec<Action> {
    vec![
        Action::ShowProgress { visible: true },
        Action::EnableControls { enabled: false },
        Action::RenderDeviceRows { at: at_one() },
    ]
}

fn copy_over() -> Vec<Action> {
    vec![
        Action::ShowProgress { visible: false },
        Action::EnableControls { enabled: true },
        Action::UpdateMountControls { at: at_one() },
    ]
}

#[test]
fn markers_lead_back_to_their_node() {
    for index in [0usize, 7, 10, usize::MAX] {
        assert_eq!(drag_marker(index), format!("macmtp-node:{index}"));
        assert_eq!(file_promise_index(&drag_marker(index)), Some(index));
    }
    for marker in ["", "macmtp-node", "macmtp-node:", "macmtp-node:x", "node:1", "macmtp-node:-1"] {
        assert_eq!(file_promise_index(marker), None);
    }
}

#[test]
fn dragged_things_are_sorted_out() {
    let items = vec![
        DragItem::Node { index: 4 },
        DragItem::Other,
        DragItem::Text { text: "macmtp-node:2".to_string() },
        DragItem::Text { text: "hello".to_string() },
    ];
    assert_eq!(drag_item_index(&items[1]), None);
    assert_eq!(node_indexes_from_items(&items), vec![4, 2]);
    assert!(node_indexes_from_items(&vec![]).is_empty());
}

#[test]
fn files_and_folders_are_promised() {
    let session = browsed();
    let folder = FilePromise {
        file_type: "public.folder".to_string(),
        marker: "macmtp-node:1".to_string(),
    };
    let file = FilePromise {
        file_type: "public.data".to_string(),
        marker: "macmtp-node:2".to_string(),
    };
    assert_eq!(file_promise(&session.tree, 0), None);
    assert_eq!(file_promise(&session.tree, 9), None);
    let items = vec![
        DragItem::Node { index: 1 },
        DragItem::Node { index: 0 },
        DragItem::Node { index: 2 },
        DragItem::Node { index: 9 },
    ];
    assert_eq!(drag_promises(&session.tree, &items), vec![folder, file]);
}

#[test]
fn promised_files_have_a_usable_name() {
    let session = browsed();
    assert_eq!(promise_file_name(&session.tree, Some("macmtp-node:1")), "D_CIM");
    assert_eq!(promise_file_name(&session.tree, Some("macmtp-node:9")), "MacMTP Item");
    assert_eq!(promise_file_name(&session.tree, Some("x")), "MacMTP Item");
    assert_eq!(promise_file_name(&session.tree, None), "MacMTP Item");
}

#[test]
fn drags_tell_how_they_go() {
    let ready = message("可以拖拽复制", "已准备 3 个文件承诺，松开鼠标后开始复制。");
    assert_eq!(drag_will_begin(3, Language::SimplifiedChinese), ready);
    assert_eq!(drag_written(3, true, Language::SimplifiedChinese), ready);
    assert_eq!(drag_written(3, false, Language::SimplifiedChinese), message("拖拽复制失败", "无法写入拖拽剪贴板。"));
    assert_eq!(drag_ended(true, Language::SimplifiedChinese), Some(message("拖拽已取消", "没有复制文件。")));
    assert_eq!(drag_ended(false, Language::SimplifiedChinese), None);
    assert_eq!(copy_refused("x", Language::SimplifiedChinese), message("拖拽复制失败", "x"));
}

#[test]
fn a_promise_starts_a_copy() {
    let mut session = browsed();
    session.copy_error = Some("old".to_string());
    let (job, actions) = session
        .start_file_promise_copy(Some("macmtp-node:2"), Some("/Users/u/a.txt"), 0, ALL)
        .unwrap();
    assert_eq!(
        job,
        CopyJob {
            node: ExportNode {
                name: "a.txt".to_string(),
                storage_id: 3,
                handle: 11,
                is_folder: false,
            },
            path: "/Users/u/a.txt".to_string(),
            lock: 0,
        }
    );
    let mut expected = vec![message("正在复制拖拽项目", "正在从 MTP 设备复制到目标位置。")];
    expected.extend(copy_shown());
    assert_eq!(actions, expected);
    assert_eq!(session.copy_error, None);

    session.copy_error = Some("other copy".to_string());
    session
        .start_file_promise_copy(Some("macmtp-node:1"), Some("/x"), 1, ALL)
        .unwrap();
    assert_eq!(session.copy_error, Some("other copy".to_string()));
}

#[test]
fn promises_that_cannot_be_kept_say_why() {
    let mut session = browsed();
    let file = Some("macmtp-node:2");
    let path = Some("/x");
    let mut refused = |marker: Option<&str>, path: Option<&str>, facilities: Facilities| {
        session
            .start_file_promise_copy(marker, path, 0, facilities)
            .unwrap_err()
    };
    assert_eq!(refused(None, path, ALL), "找不到拖拽项目。");
    assert_eq!(refused(Some("x"), path, ALL), "找不到拖拽项目。");
    assert_eq!(refused(file, None, ALL), "Finder没有提供有效目标路径。");
    assert_eq!(refused(Some("macmtp-node:0"), path, ALL), "只能拖拽 MTP 文件或文件夹。");
    assert_eq!(refused(Some("macmtp-node:9"), path, ALL), "只能拖拽 MTP 文件或文件夹。");
    let silent = Facilities {
        copy_events: false,
        ..ALL
    };
    assert_eq!(refused(file, path, silent), "复制进度通道未初始化。");
    session.lock = None;
    assert_eq!(
        session.start_file_promise_copy(file, path, 0, ALL),
        Err("设备操作锁未初始化。".to_string())
    );
    session.close_current_device();
    assert_eq!(
        session.start_file_promise_copy(file, path, 0, ALL),
        Err("设备未连接。".to_string())
    );
}

fn progress(name: &str, done: u64, total: Option<u64>, files: usize) -> CopyEvent {
    CopyEvent::Progress {
        name: name.to_string(),
        bytes_done: done,
        bytes_total: total,
        files_done: files,
    }
}

#[test]
fn only_the_last_progress_is_shown() {
    let mut session = browsed();
    let mut expected = copy_shown();
    expected.push(Action::ReportProgress {
        done: 1024,
        total: 2048,
    });
    expected.push(message(
        "正在复制拖拽项目",
        "b\n已完成 1.0 KB / 2.0 KB，共 3 个文件。",
    ));
    assert_eq!(
        session.drain_copy_events(
            vec![
                progress("a", 1, Some(2), 0),
                CopyEvent::Started,
                progress("b", 1024, Some(2048), 3),
            ],
            1
        ),
        expected
    );
    for total in [None, Some(0)] {
        assert_eq!(
            session.drain_copy_events(vec![progress("f", 0, total, 2)], 1),
            vec![
                Action::ReportActivity,
                message("正在复制拖拽项目", "f\n已复制 2 个文件。"),
            ]
        );
    }
    assert!(session.drain_copy_events(vec![], 0).is_empty());
}

#[test]
fn the_last_copy_tells_the_outcome() {
    let mut session = browsed();
    let mut expected = copy_over();
    expected.push(message("拖拽复制完成", "文件已复制到目标位置。"));
    assert_eq!(
        session.drain_copy_events(vec![CopyEvent::Finished { result: Ok(()) }], 0),
        expected
    );
    let failed = CopyEvent::Finished {
        result: Err("disk full".to_string()),
    };
    assert!(session.drain_copy_events(vec![failed], 1).is_empty());
    assert_eq!(session.copy_error, Some("disk full".to_string()));
    let mut expected = copy_over();
    expected.push(message("拖拽复制失败", "disk full"));
    assert_eq!(
        session.drain_copy_events(vec![CopyEvent::Finished { result: Ok(()) }], 0),
        expected
    );
    assert_eq!(session.copy_error, None);
}

fn node(name: &str, handle: u32, is_folder: bool) -> ExportNode {
    ExportNode {
        name: name.to_string(),
        storage_id: 3,
        handle,
        is_folder,
    }
}

#[test]
fn a_file_is_copied_to_its_path() {
    let mut export = Exporter::new(node("a.txt", 11, false), "/t/a.txt".to_string());
    assert_eq!(
        export.advance(),
        ExportAction::CopyFile {
            storage_id: 3,
            handle: 11,
            path: "/t/a.txt".to_string()
        }
    );
    assert_eq!(export.current_object(), Some((3, 11)));
    assert_eq!(export.chunk_written(4, 10, 119), None);
    assert_eq!(export.chunk_written(4, 10, 120), Some(progress("a.txt", 4, Some(10), 0)));
    assert_eq!(export.file_copied(10), progress("a.txt", 10, Some(10), 1));
    assert_eq!(export.files_done(), 1);
    assert_eq!(export.current_object(), None);
    assert_eq!(export.advance(), ExportAction::Finish);
}

fn listing(handle: u32) -> Vec<ObjectInfo> {
    match handle {
        1 => vec![
            object(2, "sub", 0, true),
            object(5, "x/y", 1, false),
            object(6, "z", 1, false),
        ],
        2 => vec![object(3, "p", 1, false), object(4, "empty", 0, true)],
        _ => vec![],
    }
}

#[test]
fn a_folder_is_copied_with_everything_in_it() {
    let mut export = Exporter::new(node("root", 1, true), "/t/root".to_string());
    let mut visited = Vec::new();
    let mut reports = Vec::new();
    loop {
        match export.advance() {
            ExportAction::FindPlace { parent, name } => export.placed(format!("{parent}/{name}")),
            ExportAction::MakeFolder { path } => {
                visited.push(path);
                reports.push(export.folder_made());
                let (_, handle) = export.current_object().unwrap();
                export.folder_listed(&listing(handle));
            }
            ExportAction::CopyFile { path, .. } => {
                visited.push(path);
                reports.push(export.file_copied(1));
            }
            ExportAction::Finish => break,
        }
    }
    assert_eq!(
        visited,
        vec![
            "/t/root",
            "/t/root/sub",
            "/t/root/sub/p",
            "/t/root/sub/empty",
            "/t/root/x_y",
            "/t/root/z",
        ]
    );
    assert_eq!(
        reports,
        vec![
            progress("root", 0, None, 0),
            progress("sub", 0, None, 0),
            progress("p", 1, Some(1), 1),
            progress("empty", 0, None, 1),
            progress("x/y", 1, Some(1), 2),
            progress("z", 1, Some(1), 3),
        ]
    );
    assert_eq!(export.files_done(), 3);
}

#[test]
fn faults_carry_the_systems_text() {
    assert_eq!(Fault::Folder.report("e", Language::SimplifiedChinese), "无法创建文件夹: e");
    assert_eq!(Fault::Target.report("e", Language::SimplifiedChinese), "无法创建目标目录: e");
    assert_eq!(Fault::Write.report("e", Language::SimplifiedChinese), "无法写入文件: e");
    assert_eq!(Fault::CopyRuntime.report("e", Language::SimplifiedChinese), "无法创建复制运行时: e");
    assert_eq!(Fault::ConnectRuntime.report("e", Language::SimplifiedChinese), "无法创建设备连接运行时: e");
}
