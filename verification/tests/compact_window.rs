use macmtp::action::Action;
use macmtp::browse::{PreviewOutcome, PreviewPlan, PreviewRequest};
use macmtp::compact::{update_detail, Compact};
use macmtp::device::DeviceInfo;
use macmtp::model::{ObjectInfo, StorageInfo};
use macmtp::phrases::Language;
use macmtp::status::Locations;

const NOWHERE: Locations = Locations {
    current: None,
    mounted: None,
    mounting: None,
};

fn message(title: &str, detail: &str) -> Action {
    Action::SetMessage {
        title: title.to_string(),
        detail: detail.to_string(),
    }
}

fn kindle() -> DeviceInfo {
    DeviceInfo {
        manufacturer: Some("Amazon".to_string()),
        product: Some("Kindle".to_string()),
        serial_number: None,
        location_id: 5,
    }
}

fn card() -> StorageInfo {
    StorageInfo {
        storage_id: 3,
        description: "Card".to_string(),
        free_space_bytes: 0,
    }
}

fn opened() -> Compact {
    let mut window = Compact::new(Language::SimplifiedChinese);
    window.devices_found(Ok(vec![kindle()]));
    window.device_opened(Ok(()));
    window.load_storages(Ok(vec![card()]));
    window.children_listed(
        0,
        3,
        Ok(vec![ObjectInfo {
            handle: 11,
            filename: "a.txt".to_string(),
            size: 5,
            format: 0x3000,
            association_type: 0,
            created: None,
            modified: None,
        }]),
    );
    window
}

#[test]
fn the_menu_lists_the_devices() {
    let mut window = Compact::new(Language::SimplifiedChinese);
    let (titles, actions) = window.devices_found(Ok(vec![kindle()]));
    assert_eq!(
        titles,
        vec!["选择 MTP 设备...", "Amazon Kindle (location: 00000005)"]
    );
    assert_eq!(
        actions,
        vec![
            message("请选择设备", "从左上角设备菜单选择一个 MTP 设备。"),
            Action::ForgetDevice,
            Action::ReloadOutline,
        ]
    );
    let (titles, actions) = window.devices_found(Ok(vec![]));
    assert_eq!(titles, vec!["未发现 MTP 设备"]);
    assert_eq!(
        actions[0],
        message(
            "未发现 MTP 设备",
            "连接 Android/Kindle 等 MTP 设备后点击菜单 Device -> Refresh Devices。"
        )
    );
    let (titles, actions) = window.refresh_devices(Err(mtp_rs::Error::Timeout));
    assert_eq!(titles, vec!["设备扫描失败"]);
    assert_eq!(actions[0], message("设备扫描失败", "Operation timed out"));
}

#[test]
fn a_refresh_closes_the_device() {
    let mut window = opened();
    window.refresh_devices(Ok(vec![kindle()]));
    assert!(!window.connected);
    assert!(window.tree.nodes.is_empty());
    assert_eq!(window.devices.len(), 1);
}

#[test]
fn menu_titles_choose_their_device() {
    let window = opened();
    assert_eq!(window.select_current_device(-1), None);
    assert_eq!(window.select_current_device(0), None);
    assert_eq!(
        window.select_current_device(1),
        Some((5, message("正在连接设备", "Amazon Kindle (location: 00000005)")))
    );
    assert_eq!(window.select_current_device(2), None);
}

#[test]
fn opening_can_fail() {
    let mut window = opened();
    assert_eq!(
        window.device_opened(Err("busy".to_string())),
        vec![
            Action::ForgetDevice,
            message("连接设备失败", "busy"),
            Action::ReloadOutline,
        ]
    );
    assert!(!window.connected && window.tree.nodes.is_empty());
    assert!(window.load_storages(Ok(vec![card()])).is_empty());
    assert_eq!(window.device_opened(Ok(())), vec![Action::AdoptDevice]);
    assert_eq!(
        window.load_storages(Err("x".to_string())),
        vec![message("读取存储失败", "x")]
    );
    assert_eq!(
        window.load_storages(Ok(vec![card()])),
        vec![Action::ReloadOutline, Action::UpdateDetail { at: NOWHERE }]
    );
}

#[test]
fn notes_carry_the_identifiers() {
    let mut window = opened();
    assert_eq!(
        window.tree.nodes[1].note,
        "Handle: 11\nStorage: 3\nQuick Look 时才会下载文件。"
    );
    assert_eq!(window.load_children(0), None);
    window.load_storages(Ok(vec![card()]));
    assert_eq!(window.load_children(0), Some((3, None)));
    window.children_listed(0, 3, Err("x".to_string()));
    assert_eq!(window.tree.nodes[1].name, "目录读取失败");
    window.device_opened(Err("y".to_string()));
    assert_eq!(window.load_children(0), None);
}

#[test]
fn the_compact_detail_is_one_text() {
    let window = opened();
    assert_eq!(
        update_detail(&window.tree, Some(1), Language::SimplifiedChinese),
        (
            "a.txt".to_string(),
            "文件\n5 B\n\nHandle: 11\nStorage: 3\nQuick Look 时才会下载文件。".to_string()
        )
    );
    assert_eq!(
        update_detail(&window.tree, Some(0), Language::SimplifiedChinese),
        (
            "Card".to_string(),
            "存储\n1 个项目\n\nStorage ID: 3\n可用空间: 0 B".to_string()
        )
    );
    let hint = (
        "未选择文件".to_string(),
        "选择 MTP 设备后展开目录；选中文件按空格才会下载到临时目录并 Quick Look。".to_string(),
    );
    assert_eq!(update_detail(&window.tree, None, Language::SimplifiedChinese), hint);
    assert_eq!(update_detail(&window.tree, Some(7), Language::SimplifiedChinese), hint);
}

#[test]
fn the_compact_window_previews_without_a_lock() {
    let mut window = opened();
    let (plan, actions) = window.prepare_selected_file_for_preview(Some(1));
    assert_eq!(
        plan,
        PreviewPlan::Download {
            request: PreviewRequest {
                storage_id: 3,
                handle: 11,
                file_name: "11-a.txt".to_string(),
                lock: None,
            }
        }
    );
    assert_eq!(actions.len(), 1);
    assert_eq!(
        window.finish_preview(1, PreviewOutcome::Failed { message: "x".to_string() }),
        (None, vec![message("预览失败", "x")])
    );
    assert_eq!(window.finish_preview(1, PreviewOutcome::NoDirectory), (None, vec![]));
    assert_eq!(
        window.finish_preview(1, PreviewOutcome::NotWritten),
        (None, vec![message("预览失败", "无法写入临时预览文件。")])
    );
    let saved = PreviewOutcome::Saved { path: "/tmp/p".to_string() };
    assert_eq!(
        window.finish_preview(1, saved),
        (Some("/tmp/p".to_string()), vec![Action::UpdateDetail { at: NOWHERE }])
    );
    assert_eq!(
        window.prepare_selected_file_for_preview(Some(1)).0,
        PreviewPlan::Cached { path: "/tmp/p".to_string() }
    );
    assert_eq!(window.prepare_selected_file_for_preview(Some(0)).0, PreviewPlan::Nothing);
    assert_eq!(window.prepare_selected_file_for_preview(None).0, PreviewPlan::Nothing);
}
