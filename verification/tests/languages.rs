use macmtp::action::Action;
use macmtp::browse::{checked_lock, listing_timeout_message};
use macmtp::compact::Compact;
use macmtp::copy::CopyEvent;
use macmtp::detail::update_detail;
use macmtp::device::DeviceInfo;
use macmtp::drag::drag_will_begin;
use macmtp::export::Fault;
use macmtp::model::{ObjectInfo, StorageInfo};
use macmtp::mount::{plan_mount, MOUNTPOINT_COUNT};
use macmtp::phrases::{Language, Phrase};
use macmtp::session::{reject_mtp_while_copying, Facilities, Guarded, MountEvent, Session};
use macmtp::status::{empty_list_label, Locations};
use macmtp::tree::{storage_nodes, NoteStyle};
use macmtp::util::describe_error;

const ENGLISH: Language = Language::English;

const NOWHERE: Locations = Locations {
    current: None,
    mounted: None,
    mounting: None,
};

const ALL: Facilities = Facilities {
    macfuse: true,
    device_events: true,
    mount_events: true,
    copy_events: true,
};

fn message(title: &str, detail: &str) -> Action {
    Action::SetMessage {
        title: title.to_string(),
        detail: detail.to_string(),
    }
}

fn nameless() -> DeviceInfo {
    DeviceInfo {
        location_id: 7,
        manufacturer: None,
        product: None,
        serial_number: None,
    }
}

#[test]
fn phrases_are_said_in_both_languages() {
    assert_eq!(Phrase::Status.text(Language::English), "Status");
    assert_eq!(Phrase::Status.text(Language::SimplifiedChinese), "状态");
    assert_eq!(Phrase::Folder.text(Language::English), "Folder");
    assert_eq!(Phrase::Folder.text(Language::SimplifiedChinese), "文件夹");
}

#[test]
fn tags_choose_the_language() {
    for tag in ["zh", "zh-Hans", "zh_CN", "zh-Hans-CN"] {
        assert_eq!(Language::of_tag(tag), Language::SimplifiedChinese);
    }
    for tag in ["", "z", "en", "en-GB", "zha", "fr-zh"] {
        assert_eq!(Language::of_tag(tag), Language::English);
    }
}

#[test]
fn an_english_session_speaks_english() {
    let mut session = Session::new(ENGLISH);
    assert_eq!(
        session.show_initial_device_prompt()[1],
        message(
            "Choose a device",
            "The device list on the left scans for MTP devices at launch. You can also click Refresh.",
        )
    );
    assert_eq!(
        session.load_children_result(0),
        Err("The device is not connected.".to_string())
    );
    let found = session.devices_found(Ok(vec![nameless()]));
    assert_eq!(
        found[0],
        message("Choose a device", "Choose an MTP device from the list on the left.")
    );
    session.select_device_at_index(0, false, ALL);
    let failed = MountEvent {
        location_id: 7,
        result: Err("no".to_string()),
    };
    session.drain_mount_events(vec![failed]);
    assert_eq!(session.language, ENGLISH);
    assert_eq!(session.tree.nodes[0].kind, "Status");
    assert_eq!(session.tree.nodes[0].name, "Connecting to the device");
}

#[test]
fn english_nodes_and_details() {
    let storage = StorageInfo {
        storage_id: 3,
        description: "Card".to_string(),
        free_space_bytes: 2048,
    };
    let mut tree = storage_nodes(&vec![storage], ENGLISH);
    assert_eq!(tree.nodes[0].kind, "Storage");
    assert_eq!(tree.nodes[0].note, "Storage ID: 3\nFree space: 2.0 KB");
    let folder = ObjectInfo {
        handle: 9,
        filename: "DCIM".to_string(),
        size: 0,
        format: 0x3001,
        association_type: 1,
        created: None,
        modified: None,
    };
    tree.fill(0, NoteStyle::Usage, 3, &vec![folder], ENGLISH);
    assert_eq!(tree.nodes[1].kind, "Folder");
    let detail = update_detail(&tree, &vec![], NOWHERE, Some(0), "", "", ENGLISH);
    let labels: Vec<&str> = detail.rows.iter().map(|row| row.label.as_str()).collect();
    assert_eq!(labels[0], "Kind");
    let none = storage_nodes(&vec![], ENGLISH);
    assert_eq!(none.nodes[0].name, "The device has no storage");
}

#[test]
fn english_progress_and_refusals() {
    let mut session = Session::new(ENGLISH);
    let progress = CopyEvent::Progress {
        name: "a".to_string(),
        bytes_done: 1024,
        bytes_total: Some(2048),
        files_done: 3,
    };
    let shown = session.drain_copy_events(vec![progress], 1);
    assert!(shown.contains(&message(
        "Copying the dragged items",
        "a\nCompleted 1.0 KB / 2.0 KB, 3 files.",
    )));
    assert_eq!(
        reject_mtp_while_copying(1, Guarded::Eject, ENGLISH),
        Some(message(
            "MTP is copying",
            "Files are being copied. Devices cannot be ejected now.",
        ))
    );
    assert_eq!(
        drag_will_begin(2, ENGLISH),
        message(
            "Ready to copy by dragging",
            "Prepared 2 file promises. Release the mouse to start copying.",
        )
    );
}

#[test]
fn english_labels_and_errors() {
    assert_eq!(empty_list_label(ENGLISH), "No MTP devices found");
    assert_eq!(NOWHERE.mount_status(7, ENGLISH), "Not connected");
    assert_eq!(nameless().device_list_name(ENGLISH), "MTP device");
    assert_eq!(nameless().device_serial(ENGLISH), "Not provided");
    assert_eq!(
        checked_lock(None, ENGLISH),
        Err("The lock for device operations is not ready.".to_string())
    );
    assert_eq!(
        listing_timeout_message(15, ENGLISH),
        "Reading the MTP folder took more than 15 seconds."
    );
    assert_eq!(Fault::Write.report("e", ENGLISH), "The file could not be written: e");
    assert_eq!(
        plan_mount(&nameless(), true, &vec![true; MOUNTPOINT_COUNT], ENGLISH).unwrap_err(),
        "No free /Volumes/MacMTP mount point was found."
    );
    assert!(describe_error("x".to_string(), true, ENGLISH).starts_with("x\n\nptpcamerad of macOS"));
}

#[test]
fn the_english_compact_window() {
    let mut window = Compact::new(ENGLISH);
    let (titles, actions) = window.devices_found(Ok(vec![]));
    assert_eq!(titles, vec!["No MTP devices found".to_string()]);
    assert!(actions.contains(&message(
        "No MTP devices found",
        "Connect an Android, Kindle or other MTP device, then choose Device -> Refresh Devices.",
    )));
    let (titles, _) = window.devices_found(Ok(vec![nameless()]));
    assert_eq!(titles[0], "Choose an MTP device...");
}
