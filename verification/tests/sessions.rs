use macmtp::action::Action;
use macmtp::device::DeviceInfo;
use macmtp::model::StorageInfo;
use macmtp::mount::MountHandle;
use macmtp::phrases::Language;
use macmtp::session::{
    reject_mtp_while_copying, DeviceEvent, Facilities, Guarded, MountEvent, Session,
};
use macmtp::status::Locations;
use macmtp::tree::{storage_nodes, NodeTree};

const ALL: Facilities = Facilities {
    macfuse: true,
    device_events: true,
    mount_events: true,
    copy_events: true,
};

const NOWHERE: Locations = Locations {
    current: None,
    mounted: None,
    mounting: None,
};

fn current(location_id: u64) -> Locations {
    Locations {
        current: Some(location_id),
        ..NOWHERE
    }
}

fn device(product: &str, location_id: u64) -> DeviceInfo {
    DeviceInfo {
        manufacturer: None,
        product: Some(product.to_string()),
        serial_number: None,
        location_id,
    }
}

fn message(title: &str, detail: &str) -> Action {
    Action::SetMessage {
        title: title.to_string(),
        detail: detail.to_string(),
    }
}

fn storages() -> NodeTree {
    storage_nodes(
        &vec![StorageInfo {
            storage_id: 65537,
            description: "Internal".to_string(),
            free_space_bytes: 2048,
        }],
        Language::SimplifiedChinese,
    )
}

fn two_devices() -> Session {
    let mut session = Session::new(Language::SimplifiedChinese);
    session.devices_found(Ok(vec![device("A", 1), device("B", 2)]));
    session
}

fn connected() -> Session {
    let mut session = two_devices();
    session.select_device_at_index(0, false, ALL);
    session.apply_connected_device(device("A", 1), storages(), ALL);
    session
}

fn mounted() -> Session {
    let mut session = connected();
    session.mount_device_at_index(0, ALL);
    session.drain_mount_events(vec![MountEvent {
        location_id: 1,
        result: Ok(MountHandle::new("/Volumes/MacMTP - A".to_string(), "/tmp/c".to_string())),
    }]);
    session
}

#[test]
fn the_first_prompt_asks_for_a_device() {
    let session = Session::new(Language::SimplifiedChinese);
    assert_eq!(
        session.show_initial_device_prompt(),
        vec![
            Action::RenderDeviceRows { at: NOWHERE },
            message("请选择设备", "左侧设备栏会在启动时扫描 MTP 设备，也可以点击刷新。"),
        ]
    );
}

#[test]
fn scans_list_the_devices() {
    let mut session = Session::new(Language::SimplifiedChinese);
    assert_eq!(
        session.devices_found(Ok(vec![device("A", 1)])),
        vec![
            message("请选择设备", "从左侧设备栏选择一个 MTP 设备。"),
            Action::UpdateMountControls { at: NOWHERE },
        ]
    );
    assert_eq!(session.devices.len(), 1);
    assert_eq!(
        session.devices_found(Ok(vec![])),
        vec![
            message(
                "未发现 MTP 设备",
                "连接 Android/Kindle 等 MTP 设备后点击左侧刷新按钮。"
            ),
            Action::UpdateMountControls { at: NOWHERE },
        ]
    );
    assert!(session.devices.is_empty());
}

#[test]
fn a_failed_scan_tells_the_error() {
    let mut session = connected();
    let actions = session.refresh_devices(Err(mtp_rs::Error::NoDevice));
    assert_eq!(
        actions,
        vec![
            message("设备扫描失败", &mtp_rs::Error::NoDevice.to_string()),
            Action::UpdateMountControls { at: current(1) },
        ]
    );
    assert!(session.devices.is_empty());
    assert!(session.connected);
}

#[test]
fn a_device_that_is_gone_is_closed() {
    let mut session = mounted();
    let actions = session.refresh_devices(Ok(vec![device("B", 2)]));
    assert_eq!(
        actions,
        vec![
            Action::EjectMount {
                mountpoint: "/Volumes/MacMTP - A".to_string()
            },
            Action::ReleaseDevice { lock: Some(0) },
            Action::UpdateMountControls { at: NOWHERE },
            Action::ReloadOutline,
            Action::UpdateDetail { at: NOWHERE },
            Action::UpdateMountControls { at: NOWHERE },
        ]
    );
    assert!(!session.connected);
    assert!(session.tree.nodes.is_empty());
    assert_eq!(session.devices.len(), 1);
}

#[test]
fn a_device_that_stays_is_kept() {
    let mut session = connected();
    let actions = session.devices_found(Ok(vec![device("B", 2), device("A", 1)]));
    assert_eq!(actions, vec![Action::UpdateMountControls { at: current(1) }]);
    assert!(session.connected);
    assert_eq!(session.tree.nodes.len(), 1);
}

#[test]
fn choosing_a_device_connects_it() {
    let mut session = two_devices();
    let actions = session.select_device_at_index(1, false, ALL);
    let display = "Unknown B (location: 00000002)";
    assert_eq!(
        actions,
        vec![
            Action::ClearOutlineSelection,
            Action::UpdateMountControls { at: NOWHERE },
            Action::ReloadOutline,
            message("正在连接设备", display),
            Action::UpdateDetail { at: current(2) },
            Action::UpdateMountControls { at: current(2) },
            Action::UpdateMountControls { at: current(2) },
            Action::Connect {
                device: device("B", 2),
                lock: 0
            },
        ]
    );
    assert_eq!(session.tree.nodes[0].name, "正在连接设备");
    assert_eq!(session.tree.nodes[0].kind, "状态");
    assert!(session.select_device_at_index(9, false, ALL).is_empty());
}

#[test]
fn choosing_without_a_way_back_fails() {
    let mut session = two_devices();
    let facilities = Facilities {
        device_events: false,
        ..ALL
    };
    let actions = session.select_device_at_index(0, false, facilities);
    assert_eq!(
        actions.last(),
        Some(&message("连接设备失败", "设备事件通道未初始化。"))
    );
    assert_eq!(session.tree.nodes[0].name, "连接设备失败");
}

#[test]
fn locations_keep_their_own_lock() {
    let mut session = two_devices();
    session.select_device_at_index(0, false, ALL);
    assert_eq!(session.lock, Some(0));
    session.select_device_at_index(1, false, ALL);
    assert_eq!(session.lock, Some(1));
    session.select_device_at_index(0, false, ALL);
    assert_eq!(session.lock, Some(0));
    assert_eq!(session.locks.len(), 2);
}

#[test]
fn a_connected_device_fills_the_browser() {
    let mut session = two_devices();
    session.select_device_at_index(0, false, ALL);
    let actions = session.drain_device_events(
        vec![DeviceEvent {
            device: device("A", 1),
            result: Ok(storages()),
        }],
        ALL,
    );
    assert_eq!(
        actions,
        vec![
            Action::AdoptDevice,
            Action::ReloadOutline,
            Action::UpdateDetail { at: current(1) },
            Action::UpdateMountControls { at: current(1) },
            message(
                "已连接设备",
                "可使用内置浏览器浏览文件，或使用右侧按钮挂载到系统。"
            ),
            Action::UpdateDetail { at: current(1) },
        ]
    );
    assert!(session.connected);
    assert_eq!(session.tree.nodes[0].name, "Internal");
}

#[test]
fn only_the_last_connection_counts() {
    let mut session = two_devices();
    session.select_device_at_index(0, false, ALL);
    session.select_device_at_index(1, false, ALL);
    let late = DeviceEvent {
        device: device("A", 1),
        result: Ok(storages()),
    };
    assert!(session.drain_device_events(vec![late], ALL).is_empty());
    assert!(!session.connected);
    assert!(session.drain_device_events(vec![], ALL).is_empty());
    let failed = DeviceEvent {
        device: device("B", 2),
        result: Err("busy".to_string()),
    };
    let actions = session.drain_device_events(
        vec![
            DeviceEvent {
                device: device("B", 2),
                result: Ok(storages()),
            },
            failed,
        ],
        ALL,
    );
    assert_eq!(
        actions,
        vec![
            Action::ForgetDevice,
            Action::UpdateMountControls { at: NOWHERE },
            Action::ReloadOutline,
            message("连接设备失败", "busy"),
        ]
    );
    assert_eq!(session.locations, NOWHERE);
    assert_eq!(session.lock, None);
}

#[test]
fn a_stray_connection_is_closed_again() {
    let mut session = two_devices();
    session.select_device_at_index(0, false, ALL);
    assert_eq!(
        session.apply_connected_device(device("B", 2), storages(), ALL),
        vec![Action::CloseStray { lock: 1 }]
    );
    assert!(!session.connected);
}

#[test]
fn mounting_waits_for_the_connection() {
    let mut session = two_devices();
    let actions = session.mount_device_at_index(0, ALL);
    assert_eq!(
        actions.last(),
        Some(&Action::Connect {
            device: device("A", 1),
            lock: 0
        })
    );
    assert_eq!(session.pending_mount, Some(1));
    let actions = session.apply_connected_device(device("A", 1), storages(), ALL);
    let mounting = Locations {
        mounting: Some(1),
        ..current(1)
    };
    assert_eq!(
        actions,
        vec![
            Action::AdoptDevice,
            Action::ReloadOutline,
            Action::UpdateDetail { at: current(1) },
            Action::UpdateMountControls { at: current(1) },
            message("正在挂载", "内置浏览器已可使用，挂载将在后台完成。"),
            Action::UpdateMountControls { at: mounting },
            Action::Mount {
                device: device("A", 1),
                lock: 0
            },
        ]
    );
    assert_eq!(session.pending_mount, None);
}

#[test]
fn asking_twice_mounts_once() {
    let mut session = connected();
    session.mount_device_at_index(0, ALL);
    assert_eq!(
        session.mount_device_at_index(0, ALL),
        vec![message("正在挂载", "请等待这个设备的挂载操作完成。")]
    );
    let mut session = mounted();
    assert_eq!(
        session.mount_device_at_index(0, ALL),
        vec![message("已挂载", "这个设备已经挂载。")]
    );
    assert!(session.mount_device_at_index(5, ALL).is_empty());
}

#[test]
fn mounting_needs_macfuse_and_a_way_back() {
    let mut session = connected();
    let without = Facilities {
        macfuse: false,
        ..ALL
    };
    assert_eq!(
        session.mount_device_at_index(0, without),
        vec![
            message(
                "已连接设备",
                "未检测到 macFUSE，保留内置浏览器模式。安装 macFUSE 后可挂载到系统。"
            ),
            Action::UpdateMountControls { at: current(1) },
        ]
    );
    let silent = Facilities {
        mount_events: false,
        ..ALL
    };
    assert_eq!(
        session.mount_device_at_index(0, silent),
        vec![message("挂载失败", "挂载事件通道未初始化，仍可使用内置浏览器。")]
    );
    assert_eq!(session.tree.nodes.len(), 1);
    assert!(session.connected);
}

#[test]
fn choosing_the_open_device_again_keeps_it() {
    let mut session = connected();
    assert_eq!(
        session.select_device_at_index(0, false, ALL),
        vec![
            Action::ClearOutlineSelection,
            Action::UpdateDetail { at: current(1) },
            Action::UpdateMountControls { at: current(1) },
        ]
    );
    assert!(session.connected);
}

#[test]
fn a_finished_mount_is_kept() {
    let mut session = connected();
    session.mount_device_at_index(0, ALL);
    let actions = session.drain_mount_events(vec![MountEvent {
        location_id: 1,
        result: Ok(MountHandle::new("/Volumes/X".to_string(), "/tmp/c".to_string())),
    }]);
    let at = Locations {
        mounted: Some(1),
        ..current(1)
    };
    assert_eq!(
        actions,
        vec![
            Action::AdoptMount,
            Action::UpdateMountControls { at },
            message("已挂载到 Finder", "设备已挂载到 /Volumes/X。退出前会自动推出。"),
        ]
    );
    assert_eq!(session.mount.as_ref().unwrap().mountpoint(), "/Volumes/X");
    assert_eq!(session.mount.as_ref().unwrap().cache_dir(), "/tmp/c");
}

#[test]
fn a_failed_mount_leaves_the_browser() {
    let mut session = connected();
    session.mount_device_at_index(0, ALL);
    assert_eq!(
        session.drain_mount_events(vec![MountEvent {
            location_id: 1,
            result: Err("FUSE 挂载失败: x".to_string()),
        }]),
        vec![
            Action::UpdateMountControls { at: current(1) },
            message("Finder 挂载失败", "FUSE 挂载失败: x\n仍可使用内置浏览器。"),
        ]
    );
    assert!(session.connected);
}

#[test]
fn a_late_mount_is_dropped() {
    let mut session = connected();
    session.mount_device_at_index(0, ALL);
    session.select_device_at_index(1, false, ALL);
    let late = MountEvent {
        location_id: 1,
        result: Ok(MountHandle::new("/Volumes/X".to_string(), "/tmp/c".to_string())),
    };
    assert_eq!(session.drain_mount_events(vec![late]), vec![Action::DiscardMount]);
    assert!(session.mount.is_none());
    assert!(session.drain_mount_events(vec![]).is_empty());
}

#[test]
fn a_mount_that_outlives_its_device_stops_counting() {
    let mut session = connected();
    session.mount_device_at_index(0, ALL);
    session.drain_device_events(
        vec![DeviceEvent {
            device: device("A", 1),
            result: Err("gone".to_string()),
        }],
        ALL,
    );
    assert_eq!(session.locations.mounting, Some(1));
    assert_eq!(
        session.drain_mount_events(vec![MountEvent {
            location_id: 1,
            result: Err("x".to_string()),
        }]),
        vec![Action::UpdateMountControls { at: NOWHERE }]
    );
}

#[test]
fn ejecting_leaves_the_browser() {
    let mut session = mounted();
    assert_eq!(
        session.eject_device_at_index(0),
        vec![
            Action::EjectMount {
                mountpoint: "/Volumes/MacMTP - A".to_string()
            },
            Action::UpdateMountControls { at: current(1) },
            message("已推出", "内置浏览器仍可继续使用当前设备。"),
        ]
    );
    assert!(session.connected);
    assert_eq!(session.tree.nodes.len(), 1);
    assert_eq!(
        session.eject_device_at_index(0),
        vec![message("未挂载", "这个设备当前没有挂载。")]
    );
    assert!(session.eject_device_at_index(7).is_empty());
}

#[test]
fn closing_ejects_before_it_closes() {
    let mut session = mounted();
    assert_eq!(
        session.close_current_device(),
        vec![
            Action::EjectMount {
                mountpoint: "/Volumes/MacMTP - A".to_string()
            },
            Action::ReleaseDevice { lock: Some(0) },
            Action::UpdateMountControls { at: NOWHERE },
        ]
    );
    assert_eq!(
        session.close_current_device(),
        vec![Action::UpdateMountControls { at: NOWHERE }]
    );
}

#[test]
fn a_running_copy_holds_requests_off() {
    let refusals = [
        (Guarded::Browse, "正在复制文件，暂时不能读取目录。"),
        (Guarded::Preview, "正在复制文件，暂时不能预览。"),
        (Guarded::Refresh, "正在复制文件，暂时不能刷新设备。"),
        (Guarded::Select, "正在复制文件，暂时不能切换设备。"),
        (Guarded::Mount, "正在复制文件，暂时不能挂载设备。"),
        (Guarded::Eject, "正在复制文件，暂时不能推出设备。"),
    ];
    for (request, detail) in refusals {
        assert_eq!(reject_mtp_while_copying(0, request, Language::SimplifiedChinese), None);
        assert_eq!(
            reject_mtp_while_copying(2, request, Language::SimplifiedChinese),
            Some(message("MTP 正在复制", detail))
        );
    }
    let mut session = two_devices();
    assert_eq!(
        session.select_device_action(1, 1, ALL),
        vec![message("MTP 正在复制", "正在复制文件，暂时不能切换设备。")]
    );
    assert_eq!(session.locations, NOWHERE);
}

#[test]
fn presses_act_on_the_tagged_device() {
    let mut session = two_devices();
    assert!(session.select_device_action(0, 0, ALL).is_empty());
    session.select_device_action(0, 2, ALL);
    assert_eq!(session.locations.current, Some(2));
    session.mount_device_action(0, 1, ALL);
    assert_eq!(session.pending_mount, Some(1));
    assert_eq!(
        session.eject_device_action(0, 1, ALL),
        vec![message("未挂载", "这个设备当前没有挂载。")]
    );
}

#[test]
fn a_mount_uses_the_latest_description() {
    let mut session = connected();
    session.devices_found(Ok(vec![device("A renamed", 1)]));
    let actions = session.mount_device_at_index(0, ALL);
    assert_eq!(
        actions.last(),
        Some(&Action::Mount {
            device: device("A renamed", 1),
            lock: 0
        })
    );
}

#[test]
fn only_a_finished_mount_replaces_the_volume() {
    let mut session = mounted();
    let handle = |path: &str| MountHandle::new(path.to_string(), format!("{path}.cache"));
    session.drain_mount_events(vec![MountEvent {
        location_id: 1,
        result: Err("x".to_string()),
    }]);
    assert_eq!(session.mount.as_ref().unwrap().cache_dir(), "/tmp/c");
    session.drain_mount_events(vec![MountEvent {
        location_id: 2,
        result: Ok(handle("/b")),
    }]);
    assert_eq!(session.mount.as_ref().unwrap().mountpoint(), "/Volumes/MacMTP - A");
    session.drain_mount_events(vec![MountEvent {
        location_id: 1,
        result: Ok(handle("/a")),
    }]);
    assert_eq!(session.mount.as_ref().unwrap().mountpoint(), "/a");
    assert_eq!(session.mount.as_ref().unwrap().cache_dir(), "/a.cache");
}

#[test]
fn a_mount_asked_for_while_connecting_begins_then() {
    let mut session = two_devices();
    session.select_device_at_index(0, false, ALL);
    let asked = session.mount_device_at_index(0, ALL);
    assert!(!asked.iter().any(|action| matches!(action, Action::Mount { .. })));
    assert_eq!(session.pending_mount, Some(1));
    let actions = session.apply_connected_device(device("A", 1), storages(), ALL);
    assert!(matches!(actions.last(), Some(Action::Mount { device, .. }) if device.location_id == 1));
    assert_eq!(session.locations.mounting, Some(1));
    assert_eq!(session.pending_mount, None);
}
