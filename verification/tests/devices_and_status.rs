use macmtp::action::Action;
use macmtp::detail::{info_heading, update_detail, Detail, DetailRow};
use macmtp::device::DeviceInfo;
use macmtp::phrases::Language;
use macmtp::status::{
    detail_device_controls, empty_list_label, holds_location, render_device_rows,
    selected_device_index, sender_device_index, ButtonState, DeviceRow, Locations,
};
use macmtp::tree::NodeTree;

fn device(manufacturer: Option<&str>, product: Option<&str>, location_id: u64) -> DeviceInfo {
    DeviceInfo {
        manufacturer: manufacturer.map(str::to_string),
        product: product.map(str::to_string),
        serial_number: None,
        location_id,
    }
}

const NOWHERE: Locations = Locations {
    current: None,
    mounted: None,
    mounting: None,
};

#[test]
fn devices_describe_themselves() {
    let mut pixel = device(Some("Google"), Some("Pixel 8"), 0x14100000);
    assert_eq!(pixel.display(), "Google Pixel 8 (location: 14100000)");
    pixel.serial_number = Some("S1".to_string());
    assert_eq!(
        pixel.display(),
        "Google Pixel 8 (serial: S1, location: 14100000)"
    );
    assert_eq!(
        device(None, None, 5).display(),
        "Unknown Unknown (location: 00000005)"
    );
    assert_eq!(
        device(None, None, u64::MAX).display(),
        "Unknown Unknown (location: ffffffffffffffff)"
    );
}

#[test]
fn device_names_fall_back() {
    let unnamed = device(Some("  "), Some("\t"), 1);
    assert_eq!(unnamed.device_list_name(Language::SimplifiedChinese), "MTP 设备");
    assert_eq!(unnamed.device_manufacturer(Language::SimplifiedChinese), "未提供");
    assert_eq!(unnamed.device_serial(Language::SimplifiedChinese), "未提供");
    let named = device(Some(" Amazon "), Some(" Kindle\n"), 1);
    assert_eq!(named.device_list_name(Language::SimplifiedChinese), "Kindle");
    assert_eq!(named.device_manufacturer(Language::SimplifiedChinese), "Amazon");
}

#[test]
fn status_lines_follow_the_locations() {
    let at = Locations {
        current: Some(3),
        mounted: Some(1),
        mounting: Some(2),
    };
    assert_eq!(at.mount_status(1, Language::SimplifiedChinese), "已挂载到 Finder");
    assert_eq!(at.mount_status(2, Language::SimplifiedChinese), "正在挂载到 Finder");
    assert_eq!(at.mount_status(3, Language::SimplifiedChinese), "已连接，未挂载");
    assert_eq!(at.mount_status(4, Language::SimplifiedChinese), "未连接");
}

#[test]
fn the_first_device_at_a_location_is_the_selected_one() {
    let devices = vec![
        device(None, None, 7),
        device(None, None, 9),
        device(None, None, 9),
    ];
    assert_eq!(selected_device_index(&devices, Some(9)), Some(1));
    assert_eq!(selected_device_index(&devices, Some(8)), None);
    assert_eq!(selected_device_index(&devices, None), None);
    assert!(holds_location(&devices, 7));
    assert!(!holds_location(&devices, 8));
}

#[test]
fn buttons_follow_the_selected_device() {
    let devices = vec![device(None, None, 7), device(None, None, 9)];
    let open = Locations {
        current: Some(9),
        mounted: None,
        mounting: None,
    };
    let controls = detail_device_controls(&devices, open, 0);
    assert_eq!(controls.mount, ButtonState { tag: 2, enabled: true });
    assert_eq!(controls.eject, ButtonState { tag: 2, enabled: false });

    let mounted = Locations {
        mounted: Some(9),
        ..open
    };
    let controls = detail_device_controls(&devices, mounted, 0);
    assert!(!controls.mount.enabled);
    assert!(controls.eject.enabled);

    let mounting = Locations {
        mounting: Some(9),
        ..open
    };
    let controls = detail_device_controls(&devices, mounting, 0);
    assert!(!controls.mount.enabled);
    assert!(!controls.eject.enabled);

    let controls = detail_device_controls(&devices, NOWHERE, 0);
    assert_eq!(controls.mount, ButtonState { tag: 0, enabled: false });
    assert_eq!(controls.eject, ButtonState { tag: 0, enabled: false });
}

#[test]
fn a_copy_disables_every_device_control() {
    let devices = vec![device(None, None, 7)];
    for mounted in [None, Some(7)] {
        let at = Locations {
            current: Some(7),
            mounted,
            mounting: None,
        };
        let controls = detail_device_controls(&devices, at, 1);
        assert!(!controls.mount.enabled && !controls.eject.enabled);
        let row = &render_device_rows(&devices, at, 1, Language::SimplifiedChinese)[0];
        assert!(!row.select.enabled && !row.mount.enabled);
    }
}

#[test]
fn tags_lead_back_to_their_device() {
    assert_eq!(sender_device_index(-1), None);
    assert_eq!(sender_device_index(0), None);
    assert_eq!(sender_device_index(1), Some(0));
    let devices = vec![device(None, None, 7), device(None, None, 9)];
    for (index, row) in render_device_rows(&devices, NOWHERE, 0, Language::SimplifiedChinese).iter().enumerate() {
        assert_eq!(sender_device_index(row.select.tag as isize), Some(index));
        assert_eq!(sender_device_index(row.mount.tag as isize), Some(index));
    }
}

#[test]
fn device_rows_show_name_and_status() {
    let devices = vec![device(None, Some("Pixel"), 7), device(None, None, 9)];
    let at = Locations {
        current: Some(9),
        mounted: Some(7),
        mounting: None,
    };
    assert_eq!(
        render_device_rows(&devices, at, 0, Language::SimplifiedChinese),
        vec![
            DeviceRow {
                title: "Pixel".to_string(),
                status: "已挂载到 Finder".to_string(),
                selected: false,
                select: ButtonState { tag: 1, enabled: true },
                mount: ButtonState { tag: 1, enabled: false },
            },
            DeviceRow {
                title: "MTP 设备".to_string(),
                status: "已连接，未挂载".to_string(),
                selected: true,
                select: ButtonState { tag: 2, enabled: true },
                mount: ButtonState { tag: 2, enabled: true },
            },
        ]
    );
    assert_eq!(empty_list_label(Language::SimplifiedChinese), "未发现 MTP 设备");
}

fn row(label: &str, value: &str) -> DetailRow {
    DetailRow {
        label: label.to_string(),
        value: value.to_string(),
    }
}

#[test]
fn the_detail_pane_falls_back_to_the_device() {
    let mut kindle = device(Some("Amazon"), Some("Kindle"), 0xab);
    kindle.serial_number = Some(" G0 ".to_string());
    let at = Locations {
        current: Some(0xab),
        mounted: Some(0xab),
        mounting: None,
    };
    let tree = NodeTree::new();
    assert_eq!(
        update_detail(&tree, &vec![kindle], at, None, "", "", Language::SimplifiedChinese),
        Detail {
            title: "Kindle".to_string(),
            detail: String::new(),
            hidden: true,
            rows: vec![
                row("状态", "已挂载到 Finder"),
                row("制造商", "Amazon"),
                row("序列号", "G0"),
                row("位置", "000000ab"),
            ],
        }
    );
    let nothing = update_detail(&tree, &vec![], NOWHERE, Some(4), "", "", Language::SimplifiedChinese);
    assert_eq!(nothing.title, "未选择文件");
    assert_eq!(nothing.detail, "选择 MTP 设备后展开目录");
    assert!(!nothing.hidden);
    assert!(nothing.rows.is_empty());
    assert_eq!(info_heading(&nothing.rows, Language::SimplifiedChinese), None);
    assert_eq!(info_heading(&vec![row("a", "b")], Language::SimplifiedChinese), Some("信息"));
}

#[test]
fn actions_compare_by_what_they_hold() {
    assert_ne!(
        Action::UpdateDetail { at: NOWHERE },
        Action::UpdateMountControls { at: NOWHERE }
    );
}

#[test]
fn each_row_offers_the_mount() {
    let devices = vec![device(None, None, 7), device(None, None, 9), device(None, None, 11)];
    let at = Locations {
        current: Some(9),
        mounted: None,
        mounting: Some(11),
    };
    let rows = render_device_rows(&devices, at, 0, Language::SimplifiedChinese);
    let enabled: Vec<bool> = rows.iter().map(|row| row.mount.enabled).collect();
    assert_eq!(enabled, vec![true, true, false]);
    assert_eq!(rows[1].mount, detail_device_controls(&devices, at, 0).mount);
}
