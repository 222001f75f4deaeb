use macmtp::device::DeviceInfo;
use macmtp::fs::{
    attr_for, load_objects, load_storages, object_ino, DirEntry, FileKind, FsEntry, FsEntryKind,
    FsError, FsState, ListingPlan, BLOCK_SIZE, OBJECT_INO_BASE, ROOT_INO, STORAGE_INO_BASE,
};
use macmtp::model::{ObjectInfo, StorageInfo};
use macmtp::mount::{
    cache_dir_failure, existing_mountpoints, macfuse_available, macfuse_paths, mount_failure,
    mount_options, mountpoint_candidates, plan_mount, unique_mountpoint, volume_name,
    volume_name_of, MountFlag, MOUNTPOINT_COUNT,
};
use macmtp::phrases::Language;

fn device(manufacturer: Option<&str>, product: Option<&str>) -> DeviceInfo {
    DeviceInfo {
        manufacturer: manufacturer.map(str::to_string),
        product: product.map(str::to_string),
        serial_number: None,
        location_id: 42,
    }
}

fn object(handle: u32, name: &str, size: u64, folder: bool) -> ObjectInfo {
    ObjectInfo {
        handle,
        filename: name.to_string(),
        size,
        format: if folder { 0x3001 } else { 0x3000 },
        association_type: 0,
        created: None,
        modified: None,
    }
}

fn storage(storage_id: u32, description: &str) -> StorageInfo {
    StorageInfo {
        storage_id,
        description: description.to_string(),
        free_space_bytes: 0,
    }
}

#[test]
fn macfuse_is_found_at_any_of_its_places() {
    assert_eq!(
        macfuse_paths(),
        vec![
            "/Library/Filesystems/macfuse.fs",
            "/Library/Frameworks/MacFUSE.framework",
            "/usr/local/lib/libfuse.dylib",
            "/opt/homebrew/lib/libfuse.dylib",
        ]
    );
    assert!(macfuse_available(&vec![false, false, true, false]));
    assert!(!macfuse_available(&vec![false, false, false, false]));
}

#[test]
fn volumes_are_named_after_the_device() {
    let name = |manufacturer, product| volume_name(&device(manufacturer, product));
    assert_eq!(name(Some("Google"), Some("Pixel 8")), "MacMTP - Google Pixel 8");
    assert_eq!(name(Some("GOOGLE"), Some("google pixel")), "MacMTP - google pixel");
    assert_eq!(name(Some("ÄÖ"), Some("äö 1")), "MacMTP - äö 1");
    assert_eq!(name(None, Some(" Kindle ")), "MacMTP - Kindle");
    assert_eq!(name(Some("Amazon"), Some("  ")), "MacMTP - Amazon");
    assert_eq!(name(None, None), "MacMTP - MTP Device");
    assert_eq!(name(Some("a/b"), Some("c:d")), "MacMTP - a_b c_d");
    assert_eq!(volume_name_of("A", "aB", "a", "ab"), "MacMTP - aB");
    assert_eq!(volume_name_of("A", "aB", "x", "ab"), "MacMTP - A aB");
}

#[test]
fn mount_points_stand_below_volumes() {
    let places = mountpoint_candidates("MacMTP - X");
    assert_eq!(places.len(), MOUNTPOINT_COUNT);
    assert_eq!(places[0], "/Volumes/MacMTP - X");
    assert_eq!(places[1], "/Volumes/MacMTP - X 1");
    assert_eq!(places[99], "/Volumes/MacMTP - X 99");
    for i in 0..places.len() {
        for j in 0..i {
            assert_ne!(places[i], places[j]);
        }
    }
}

#[test]
fn the_first_free_mount_point_is_taken() {
    let mut exists = vec![false; MOUNTPOINT_COUNT];
    exists[0] = true;
    exists[2] = true;
    assert_eq!(unique_mountpoint("V", &exists, Language::SimplifiedChinese), Ok("/Volumes/V 1".to_string()));
    assert_eq!(existing_mountpoints("V", &exists), vec!["/Volumes/V", "/Volumes/V 2"]);
    assert_eq!(
        unique_mountpoint("V", &vec![true; MOUNTPOINT_COUNT], Language::SimplifiedChinese),
        Err("无法找到可用的 /Volumes/MacMTP 挂载点名称。".to_string())
    );
}

#[test]
fn mounts_are_read_only() {
    let options = mount_options("MacMTP - X");
    assert_eq!(
        options,
        vec![
            MountFlag::ReadOnly,
            MountFlag::NoDev,
            MountFlag::NoSuid,
            MountFlag::NoExec,
            MountFlag::NoAtime,
            MountFlag::FsName("MacMTP".to_string()),
            MountFlag::Subtype("mtp".to_string()),
            MountFlag::Custom("volname=MacMTP - X".to_string()),
            MountFlag::Custom("local".to_string()),
        ]
    );
}

#[test]
fn a_mount_is_planned() {
    let info = device(None, Some("Kindle"));
    let free = vec![false; MOUNTPOINT_COUNT];
    let plan = plan_mount(&info, true, &free, Language::SimplifiedChinese).unwrap();
    assert_eq!(plan.volume_name, "MacMTP - Kindle");
    assert_eq!(plan.mountpoint, "/Volumes/MacMTP - Kindle");
    assert_eq!(plan.cache_dir, "macmtp-fuse-cache-42");
    assert_eq!(plan.options, mount_options("MacMTP - Kindle"));
    assert_eq!(
        plan_mount(&info, false, &free, Language::SimplifiedChinese).unwrap_err(),
        "未检测到 macFUSE，跳过 Finder 挂载。"
    );
    assert_eq!(
        plan_mount(&info, true, &vec![true; MOUNTPOINT_COUNT], Language::SimplifiedChinese).unwrap_err(),
        "无法找到可用的 /Volumes/MacMTP 挂载点名称。"
    );
    assert_eq!(cache_dir_failure("e", Language::SimplifiedChinese), "无法创建 FUSE 缓存目录: e");
    assert_eq!(mount_failure("e", Language::SimplifiedChinese), "FUSE 挂载失败: e");
}

#[test]
fn inodes_tell_their_kind() {
    assert_eq!(object_ino(0, 0), OBJECT_INO_BASE);
    assert_eq!(object_ino(0x10001, 7), 0x8001_0001_0000_0007);
    assert_eq!(load_storages(ROOT_INO, &vec![storage(9, "a")])[0].ino, STORAGE_INO_BASE);
    assert_ne!(object_ino(1, 2), object_ino(2, 1));
    assert_eq!(object_ino(1, 2), object_ino(0x8000_0001, 2));
}

#[test]
fn names_in_a_directory_are_made_different() {
    let entries = load_objects(
        5,
        1,
        &vec![
            object(1, "a", 3, false),
            object(2, "a", 4, true),
            object(3, "a/b", 5, false),
            object(4, "", 6, false),
        ],
    );
    let names: Vec<&str> = entries.iter().map(|e| e.name.as_str()).collect();
    assert_eq!(names, vec!["a", "a 2", "a_b", "preview.bin"]);
    let sizes: Vec<u64> = entries.iter().map(|e| e.size).collect();
    assert_eq!(sizes, vec![3, 0, 5, 6]);
    assert!(entries.iter().all(|e| e.parent == 5));
}

#[test]
fn attributes_are_read_only() {
    let file = FsEntry {
        ino: 8,
        parent: 1,
        name: "f".to_string(),
        kind: FsEntryKind::Object {
            storage_id: 1,
            handle: 2,
            is_folder: false,
        },
        size: 513,
    };
    let attr = attr_for(&file, 501, 20);
    assert_eq!((attr.ino, attr.size, attr.blocks), (8, 513, 2));
    assert_eq!((attr.kind, attr.perm, attr.nlink), (FileKind::RegularFile, 0o444, 1));
    assert_eq!((attr.uid, attr.gid, attr.blksize), (501, 20, BLOCK_SIZE));
    let huge = FsEntry {
        size: u64::MAX,
        ..file.clone()
    };
    assert_eq!(attr_for(&huge, 0, 0).blocks, u64::MAX.div_ceil(512));
    let folder = FsEntry {
        kind: FsEntryKind::Storage { storage_id: 1 },
        size: 0,
        ..file
    };
    let attr = attr_for(&folder, 0, 0);
    assert_eq!((attr.kind, attr.perm, attr.nlink), (FileKind::Directory, 0o555, 2));
    assert_eq!(attr.size, 0);
}

fn listed() -> (FsState, Vec<u64>, Vec<u64>) {
    let mut fs = FsState::new();
    let top = fs.storages_listed(ROOT_INO, &vec![storage(7, "Card"), storage(8, "Card")]);
    let files = fs.objects_listed(
        top[1],
        8,
        &vec![object(1, "a.txt", 10, false), object(2, "sub", 0, true)],
    );
    (fs, top, files)
}

fn same_plan(plan: Result<ListingPlan, FsError>, expected: ListingPlan) -> bool {
    match (plan, expected) {
        (Ok(ListingPlan::Known(a)), ListingPlan::Known(b)) => a == b,
        (Ok(ListingPlan::Storages), ListingPlan::Storages) => true,
        (
            Ok(ListingPlan::Objects { storage_id, parent }),
            ListingPlan::Objects {
                storage_id: id,
                parent: folder,
            },
        ) => storage_id == id && parent == folder,
        _ => false,
    }
}

#[test]
fn directories_are_listed_once() {
    let fresh = FsState::new();
    assert!(same_plan(fresh.load_children(ROOT_INO), ListingPlan::Storages));
    let (fs, top, files) = listed();
    assert!(same_plan(fs.load_children(ROOT_INO), ListingPlan::Known(top.clone())));
    assert!(same_plan(fs.load_children(top[1]), ListingPlan::Known(files.clone())));
    assert!(same_plan(
        fs.load_children(top[0]),
        ListingPlan::Objects {
            storage_id: 7,
            parent: None
        }
    ));
    assert!(same_plan(
        fs.load_children(files[1]),
        ListingPlan::Objects {
            storage_id: 8,
            parent: Some(2)
        }
    ));
    assert_eq!(fs.load_children(files[0]).err(), Some(FsError::NotADirectory));
    assert_eq!(fs.load_children(99).err(), Some(FsError::NotFound));
}

#[test]
fn files_are_looked_up_by_name() {
    let (fs, top, files) = listed();
    let found = fs.lookup(&top, Some("Card 2"), 1, 2).unwrap();
    assert_eq!(found.ino, top[1]);
    let file = fs.lookup(&files, Some("a.txt"), 1, 2).unwrap();
    assert_eq!((file.ino, file.size, file.uid, file.gid), (files[0], 10, 1, 2));
    assert_eq!(fs.lookup(&files, Some("b"), 0, 0), Err(FsError::NotFound));
    assert_eq!(fs.lookup(&files, None, 0, 0), Err(FsError::NotFound));
    assert_eq!(fs.getattr(files[0], 1, 2), Ok(file));
    assert_eq!(fs.getattr(12345, 0, 0), Err(FsError::NotFound));
}

#[test]
fn files_open_for_reading_only() {
    let (fs, top, files) = listed();
    assert_eq!(fs.open(files[0], 0), Ok(()));
    assert_eq!(fs.open(files[0], 0x1000), Ok(()));
    for flags in [1, 2, 0x401, 0x8002] {
        assert_eq!(fs.open(files[0], flags), Err(FsError::ReadOnly));
        assert_eq!(fs.open(99, flags), Err(FsError::ReadOnly));
    }
    for flags in [0x200000, 0x200003, 0x240000, -4] {
        assert_eq!(fs.open(files[0], flags), Ok(()));
    }
    for flags in [0x200001, 0x200002, 0x240402, -2, -3, i32::MIN + 1] {
        assert_eq!(fs.open(files[0], flags), Err(FsError::ReadOnly));
        assert_eq!(fs.open(99, flags), Err(FsError::ReadOnly));
    }
    assert_eq!(fs.open(files[0], 3), Ok(()));
    assert_eq!(fs.open(files[1], 0), Err(FsError::IsADirectory));
    assert_eq!(fs.open(top[0], 0), Err(FsError::IsADirectory));
    assert_eq!(fs.open(99, 0), Err(FsError::NotFound));
    assert_eq!(fs.open_for(files[0], true), Ok(()));
    assert_eq!(fs.open_for(files[0], false), Err(FsError::ReadOnly));
}

#[test]
fn contents_are_cached_by_inode() {
    let (fs, top, files) = listed();
    let cached = fs.cached_file(files[0]).unwrap();
    assert_eq!((cached.storage_id, cached.handle), (8, 1));
    assert_eq!(cached.file, files[0].to_string());
    assert_eq!(cached.part, format!("{}.part", files[0]));
    assert_eq!(fs.cached_file(top[0]), Err(FsError::IsADirectory));
    assert_eq!(fs.cached_file(99), Err(FsError::NotFound));
}

fn line(ino: u64, offset: u64, kind: FileKind, name: &str) -> DirEntry {
    DirEntry {
        ino,
        offset,
        kind,
        name: name.to_string(),
    }
}

#[test]
fn listings_resume_where_they_stopped() {
    let (fs, top, files) = listed();
    let all = vec![
        line(top[1], 1, FileKind::Directory, "."),
        line(ROOT_INO, 2, FileKind::Directory, ".."),
        line(files[0], 3, FileKind::RegularFile, "a.txt"),
        line(files[1], 4, FileKind::Directory, "sub"),
    ];
    for from in 0..6usize {
        assert_eq!(
            fs.readdir(top[1], &files, from as u64).unwrap(),
            all[from.min(all.len())..].to_vec()
        );
    }
    assert_eq!(fs.readdir(99, &files, 0), Err(FsError::NotFound));
    let mut with_stranger = files.clone();
    with_stranger.insert(0, 555);
    assert_eq!(fs.readdir(top[1], &with_stranger, 0).unwrap(), all);
}

#[test]
fn listings_taken_line_by_line_are_whole() {
    let (fs, top, files) = listed();
    let whole = fs.readdir(top[1], &files, 0).unwrap();
    let mut taken = Vec::new();
    let mut offset = 0;
    while let Some(line) = fs.readdir(top[1], &files, offset).unwrap().into_iter().next() {
        offset = line.offset;
        taken.push(line);
    }
    assert_eq!(taken, whole);
    assert!(fs.readdir(top[1], &files, u64::MAX).unwrap().is_empty());
}

#[test]
fn mountpoints_of_any_name_are_distinct() {
    for name in ["V", "V 1", "a/b", "相机"] {
        let mut places = mountpoint_candidates(name);
        places.sort();
        places.dedup();
        assert_eq!(places.len(), MOUNTPOINT_COUNT);
    }
}

#[test]
fn every_storage_is_found_by_its_name() {
    let mut fs = FsState::new();
    let storages = vec![storage(7, "Card"), storage(8, "Card"), storage(9, "Internal")];
    let top = fs.storages_listed(ROOT_INO, &storages);
    let lines = fs.readdir(ROOT_INO, &top, 2).unwrap();
    let names: Vec<&str> = lines.iter().map(|line| line.name.as_str()).collect();
    assert_eq!(names, ["Card", "Card 2", "Internal"]);
    for (line, ino) in lines.iter().zip(&top) {
        assert_eq!(fs.lookup(&top, Some(&line.name), 0, 0).unwrap().ino, *ino);
        assert_ne!(*ino, ROOT_INO);
    }
}

#[test]
fn every_listed_name_is_found() {
    let (fs, top, files) = listed();
    for entry in fs.readdir(top[1], &files, 2).unwrap() {
        assert_eq!(fs.lookup(&files, Some(&entry.name), 0, 0).unwrap().ino, entry.ino);
    }
}
