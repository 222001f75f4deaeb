//! What the application says, in the languages that it speaks.
use crate::text::chars_of;
use vstd::prelude::*;

verus! {

/// A language of the application.
#[derive(Clone, Copy, Debug, PartialEq, Eq, Structural)]
pub enum Language {
    English,
    SimplifiedChinese,
}

/// Whether a language tag names Chinese: its first part is `zh`.
pub open spec fn names_chinese(tag: Seq<char>) -> bool {
    &&& tag.len() >= 2
    &&& tag[0] == 'z'
    &&& tag[1] == 'h'
    &&& tag.len() == 2 || tag[2] == '-' || tag[2] == '_'
}

impl Language {
    /// The language that a tag such as `zh-Hans` asks for: Simplified Chinese for any kind of
    /// Chinese, and English for anything else.
    pub fn of_tag(tag: &str) -> (r: Language)
        ensures
            r == (if names_chinese(tag@) {
                Language::SimplifiedChinese
            } else {
                Language::English
            }),
    {
        let chars = chars_of(tag);
        if chars.len() >= 2 && chars[0] == 'z' && chars[1] == 'h' && (chars.len() == 2 || chars[2]
            == '-' || chars[2] == '_') {
            Language::SimplifiedChinese
        } else {
            Language::English
        }
    }
}

/// A phrase of the application, or a piece of one: a lead stands before what is inserted, a
/// tail behind it.
#[derive(Clone, Copy, Debug, PartialEq, Eq, Structural)]
pub enum Phrase {
    Status,
    Kind,
    Size,
    Items,
    Created,
    Modified,
    Manufacturer,
    SerialNumber,
    Location,
    Information,
    Name,
    Added,
    Devices,
    Refresh,
    Mount,
    Eject,
    Quit,
    Folder,
    File,
    Storage,
    NotProvided,
    UnnamedDevice,
    ItemCountTail,
    CompactItemCountTail,
    FreeSpaceLead,
    ObjectUsage,
    QuickLookTail,
    NoSelection,
    NoSelectionHint,
    CompactNoSelectionHint,
    Mounted,
    MountingNow,
    ConnectedNotMounted,
    NotConnected,
    ChooseDevice,
    ChooseDeviceFirst,
    ChooseDeviceFromList,
    ChooseDeviceFromMenu,
    MenuHeading,
    NoDevices,
    NoDevicesHint,
    CompactNoDevicesHint,
    ScanFailed,
    Connecting,
    ConnectFailed,
    NoDeviceChannel,
    ConnectedTitle,
    ConnectedHint,
    NoMacfuseHint,
    NoMacfuse,
    MountFailed,
    NoMountChannel,
    Mounting,
    MountingHint,
    MountingWait,
    AlreadyMounted,
    AlreadyMountedHint,
    NotMounted,
    NotMountedHint,
    Ejected,
    EjectedHint,
    MountedAtLead,
    MountedAtTail,
    FinderMountFailed,
    FinderMountFailedTail,
    NoFreeMountpoint,
    CacheDirFailedLead,
    FuseMountFailedLead,
    NoStorages,
    NoStoragesHint,
    StoragesFailed,
    ListingFailed,
    ListingTimeoutLead,
    ListingTimeoutTail,
    NoDevice,
    NoLock,
    DamagedLock,
    PreparingPreview,
    PreparingPreviewHint,
    PreviewFailed,
    PreviewNotWritten,
    CopyBusy,
    CopyBusyBrowse,
    CopyBusyPreview,
    CopyBusyRefresh,
    CopyBusySelect,
    CopyBusyMount,
    CopyBusyEject,
    DragReady,
    DragReadyLead,
    DragReadyTail,
    DragNotWritten,
    DragCancelled,
    DragCancelledHint,
    CopyFailed,
    CopyDone,
    CopyDoneHint,
    Copying,
    CopyingHint,
    CopyProgressLead,
    CopyProgressCount,
    CopyCountLead,
    CopyCountTail,
    NoDragItem,
    NoDragPath,
    NotCopyable,
    NoCopyChannel,
    FolderFaultLead,
    TargetFaultLead,
    WriteFaultLead,
    CopyRuntimeFaultLead,
    ConnectRuntimeFaultLead,
    ExclusiveAccessAdvice,
}

impl Phrase {
    /// The phrase in a language.
    pub open spec fn say(self, language: Language) -> Seq<char> {
        match language {
            Language::English => self.english(),
            Language::SimplifiedChinese => self.chinese(),
        }
    }

    /// The phrase in English.
    pub open spec fn english(self) -> Seq<char> {
        match self {
            Phrase::Status => "Status"@,
            Phrase::Kind => "Kind"@,
            Phrase::Size => "Size"@,
            Phrase::Items => "Items"@,
            Phrase::Created => "Created"@,
            Phrase::Modified => "Modified"@,
            Phrase::Manufacturer => "Manufacturer"@,
            Phrase::SerialNumber => "Serial number"@,
            Phrase::Location => "Location"@,
            Phrase::Information => "Information"@,
            Phrase::Name => "Name"@,
            Phrase::Added => "Added"@,
            Phrase::Devices => "Devices"@,
            Phrase::Refresh => "Refresh"@,
            Phrase::Mount => "Mount"@,
            Phrase::Eject => "Eject"@,
            Phrase::Quit => "Quit MacMTP"@,
            Phrase::Folder => "Folder"@,
            Phrase::File => "File"@,
            Phrase::Storage => "Storage"@,
            Phrase::NotProvided => "Not provided"@,
            Phrase::UnnamedDevice => "MTP device"@,
            Phrase::ItemCountTail => " items"@,
            Phrase::CompactItemCountTail => " items\n\n"@,
            Phrase::FreeSpaceLead => "\nFree space: "@,
            Phrase::ObjectUsage => "Select a file and press Space to preview it\nDrag the selection to Finder to copy it to this Mac"@,
            Phrase::QuickLookTail => "\nThe file is downloaded only for Quick Look."@,
            Phrase::NoSelection => "No file selected"@,
            Phrase::NoSelectionHint => "Select an MTP device, then expand its folders"@,
            Phrase::CompactNoSelectionHint => "Select an MTP device, then expand its folders. A file is downloaded to a temporary folder for Quick Look only when you press Space."@,
            Phrase::Mounted => "Mounted in Finder"@,
            Phrase::MountingNow => "Mounting in Finder"@,
            Phrase::ConnectedNotMounted => "Connected, not mounted"@,
            Phrase::NotConnected => "Not connected"@,
            Phrase::ChooseDevice => "Choose a device"@,
            Phrase::ChooseDeviceFirst => "The device list on the left scans for MTP devices at launch. You can also click Refresh."@,
            Phrase::ChooseDeviceFromList => "Choose an MTP device from the list on the left."@,
            Phrase::ChooseDeviceFromMenu => "Choose an MTP device from the menu at the top left."@,
            Phrase::MenuHeading => "Choose an MTP device..."@,
            Phrase::NoDevices => "No MTP devices found"@,
            Phrase::NoDevicesHint => "Connect an Android, Kindle or other MTP device, then click the refresh button on the left."@,
            Phrase::CompactNoDevicesHint => "Connect an Android, Kindle or other MTP device, then choose Device -> Refresh Devices."@,
            Phrase::ScanFailed => "Scanning for devices failed"@,
            Phrase::Connecting => "Connecting to the device"@,
            Phrase::ConnectFailed => "Connecting to the device failed"@,
            Phrase::NoDeviceChannel => "The channel for device events is not ready."@,
            Phrase::ConnectedTitle => "Device connected"@,
            Phrase::ConnectedHint => "Browse files in this window, or mount the device with the button on the right."@,
            Phrase::NoMacfuseHint => "macFUSE was not found, so files are browsed in this window. Install macFUSE to mount devices."@,
            Phrase::NoMacfuse => "macFUSE was not found. The device is not mounted in Finder."@,
            Phrase::MountFailed => "Mounting failed"@,
            Phrase::NoMountChannel => "The channel for mount events is not ready. You can still browse in this window."@,
            Phrase::Mounting => "Mounting"@,
            Phrase::MountingHint => "You can browse in this window already. The mount finishes in the background."@,
            Phrase::MountingWait => "Wait until this device is mounted."@,
            Phrase::AlreadyMounted => "Already mounted"@,
            Phrase::AlreadyMountedHint => "This device is mounted already."@,
            Phrase::NotMounted => "Not mounted"@,
            Phrase::NotMountedHint => "This device is not mounted."@,
            Phrase::Ejected => "Ejected"@,
            Phrase::EjectedHint => "You can still browse this device in this window."@,
            Phrase::MountedAtLead => "The device is mounted at "@,
            Phrase::MountedAtTail => ". It is ejected before MacMTP quits."@,
            Phrase::FinderMountFailed => "Mounting in Finder failed"@,
            Phrase::FinderMountFailedTail => "\nYou can still browse in this window."@,
            Phrase::NoFreeMountpoint => "No free /Volumes/MacMTP mount point was found."@,
            Phrase::CacheDirFailedLead => "The FUSE cache folder could not be made: "@,
            Phrase::FuseMountFailedLead => "FUSE mount failed: "@,
            Phrase::NoStorages => "The device has no storage"@,
            Phrase::NoStoragesHint => "The MTP device listed no storages."@,
            Phrase::StoragesFailed => "Reading the storages failed"@,
            Phrase::ListingFailed => "Reading the folder failed"@,
            Phrase::ListingTimeoutLead => "Reading the MTP folder took more than "@,
            Phrase::ListingTimeoutTail => " seconds."@,
            Phrase::NoDevice => "The device is not connected."@,
            Phrase::NoLock => "The lock for device operations is not ready."@,
            Phrase::DamagedLock => "The lock for MTP operations is damaged."@,
            Phrase::PreparingPreview => "Preparing the preview"@,
            Phrase::PreparingPreviewHint => "Copying the file from the MTP device to a temporary folder."@,
            Phrase::PreviewFailed => "The preview failed"@,
            Phrase::PreviewNotWritten => "The temporary preview file could not be written."@,
            Phrase::CopyBusy => "MTP is copying"@,
            Phrase::CopyBusyBrowse => "Files are being copied. Folders cannot be read now."@,
            Phrase::CopyBusyPreview => "Files are being copied. Previews are not possible now."@,
            Phrase::CopyBusyRefresh => "Files are being copied. Devices cannot be refreshed now."@,
            Phrase::CopyBusySelect => "Files are being copied. You cannot switch devices now."@,
            Phrase::CopyBusyMount => "Files are being copied. Devices cannot be mounted now."@,
            Phrase::CopyBusyEject => "Files are being copied. Devices cannot be ejected now."@,
            Phrase::DragReady => "Ready to copy by dragging"@,
            Phrase::DragReadyLead => "Prepared "@,
            Phrase::DragReadyTail => " file promises. Release the mouse to start copying."@,
            Phrase::DragNotWritten => "The drag pasteboard could not be written."@,
            Phrase::DragCancelled => "Dragging cancelled"@,
            Phrase::DragCancelledHint => "No files were copied."@,
            Phrase::CopyFailed => "Copying by dragging failed"@,
            Phrase::CopyDone => "Copying by dragging finished"@,
            Phrase::CopyDoneHint => "The files were copied to their destination."@,
            Phrase::Copying => "Copying the dragged items"@,
            Phrase::CopyingHint => "Copying from the MTP device to the destination."@,
            Phrase::CopyProgressLead => "\nCompleted "@,
            Phrase::CopyProgressCount => ", "@,
            Phrase::CopyCountLead => "\nCopied "@,
            Phrase::CopyCountTail => " files."@,
            Phrase::NoDragItem => "The dragged item was not found."@,
            Phrase::NoDragPath => "Finder gave no valid destination."@,
            Phrase::NotCopyable => "Only MTP files and folders can be dragged."@,
            Phrase::NoCopyChannel => "The channel for copy progress is not ready."@,
            Phrase::FolderFaultLead => "The folder could not be made: "@,
            Phrase::TargetFaultLead => "The destination folder could not be made: "@,
            Phrase::WriteFaultLead => "The file could not be written: "@,
            Phrase::CopyRuntimeFaultLead => "The copy could not be started: "@,
            Phrase::ConnectRuntimeFaultLead => "The connection could not be started: "@,
            Phrase::ExclusiveAccessAdvice => "\n\nptpcamerad of macOS or Android File Transfer may hold the device. Quit such programs, and if need be run: pkill -9 ptpcamerad"@,
        }
    }

    /// The phrase in simplified Chinese.
    pub open spec fn chinese(self) -> Seq<char> {
        match self {
            Phrase::Status => "状态"@,
            Phrase::Kind => "类型"@,
            Phrase::Size => "大小"@,
            Phrase::Items => "项目"@,
            Phrase::Created => "创建时间"@,
            Phrase::Modified => "修改时间"@,
            Phrase::Manufacturer => "制造商"@,
            Phrase::SerialNumber => "序列号"@,
            Phrase::Location => "位置"@,
            Phrase::Information => "信息"@,
            Phrase::Name => "名称"@,
            Phrase::Added => "添加时间"@,
            Phrase::Devices => "设备"@,
            Phrase::Refresh => "刷新"@,
            Phrase::Mount => "挂载"@,
            Phrase::Eject => "推出"@,
            Phrase::Quit => "退出 MacMTP"@,
            Phrase::Folder => "文件夹"@,
            Phrase::File => "文件"@,
            Phrase::Storage => "存储"@,
            Phrase::NotProvided => "未提供"@,
            Phrase::UnnamedDevice => "MTP 设备"@,
            Phrase::ItemCountTail => " 个"@,
            Phrase::CompactItemCountTail => " 个项目\n\n"@,
            Phrase::FreeSpaceLead => "\n可用空间: "@,
            Phrase::ObjectUsage => "选中文件按下空格预览文件\n选中后拖拽到Finder可复制文件到本机"@,
            Phrase::QuickLookTail => "\nQuick Look 时才会下载文件。"@,
            Phrase::NoSelection => "未选择文件"@,
            Phrase::NoSelectionHint => "选择 MTP 设备后展开目录"@,
            Phrase::CompactNoSelectionHint => "选择 MTP 设备后展开目录；选中文件按空格才会下载到临时目录并 Quick Look。"@,
            Phrase::Mounted => "已挂载到 Finder"@,
            Phrase::MountingNow => "正在挂载到 Finder"@,
            Phrase::ConnectedNotMounted => "已连接，未挂载"@,
            Phrase::NotConnected => "未连接"@,
            Phrase::ChooseDevice => "请选择设备"@,
            Phrase::ChooseDeviceFirst => "左侧设备栏会在启动时扫描 MTP 设备，也可以点击刷新。"@,
            Phrase::ChooseDeviceFromList => "从左侧设备栏选择一个 MTP 设备。"@,
            Phrase::ChooseDeviceFromMenu => "从左上角设备菜单选择一个 MTP 设备。"@,
            Phrase::MenuHeading => "选择 MTP 设备..."@,
            Phrase::NoDevices => "未发现 MTP 设备"@,
            Phrase::NoDevicesHint => "连接 Android/Kindle 等 MTP 设备后点击左侧刷新按钮。"@,
            Phrase::CompactNoDevicesHint => "连接 Android/Kindle 等 MTP 设备后点击菜单 Device -> Refresh Devices。"@,
            Phrase::ScanFailed => "设备扫描失败"@,
            Phrase::Connecting => "正在连接设备"@,
            Phrase::ConnectFailed => "连接设备失败"@,
            Phrase::NoDeviceChannel => "设备事件通道未初始化。"@,
            Phrase::ConnectedTitle => "已连接设备"@,
            Phrase::ConnectedHint => "可使用内置浏览器浏览文件，或使用右侧按钮挂载到系统。"@,
            Phrase::NoMacfuseHint => "未检测到 macFUSE，保留内置浏览器模式。安装 macFUSE 后可挂载到系统。"@,
            Phrase::NoMacfuse => "未检测到 macFUSE，跳过 Finder 挂载。"@,
            Phrase::MountFailed => "挂载失败"@,
            Phrase::NoMountChannel => "挂载事件通道未初始化，仍可使用内置浏览器。"@,
            Phrase::Mounting => "正在挂载"@,
            Phrase::MountingHint => "内置浏览器已可使用，挂载将在后台完成。"@,
            Phrase::MountingWait => "请等待这个设备的挂载操作完成。"@,
            Phrase::AlreadyMounted => "已挂载"@,
            Phrase::AlreadyMountedHint => "这个设备已经挂载。"@,
            Phrase::NotMounted => "未挂载"@,
            Phrase::NotMountedHint => "这个设备当前没有挂载。"@,
            Phrase::Ejected => "已推出"@,
            Phrase::EjectedHint => "内置浏览器仍可继续使用当前设备。"@,
            Phrase::MountedAtLead => "设备已挂载到 "@,
            Phrase::MountedAtTail => "。退出前会自动推出。"@,
            Phrase::FinderMountFailed => "Finder 挂载失败"@,
            Phrase::FinderMountFailedTail => "\n仍可使用内置浏览器。"@,
            Phrase::NoFreeMountpoint => "无法找到可用的 /Volumes/MacMTP 挂载点名称。"@,
            Phrase::CacheDirFailedLead => "无法创建 FUSE 缓存目录: "@,
            Phrase::FuseMountFailedLead => "FUSE 挂载失败: "@,
            Phrase::NoStorages => "设备没有可用存储"@,
            Phrase::NoStoragesHint => "MTP 设备未返回 storage 列表。"@,
            Phrase::StoragesFailed => "读取存储失败"@,
            Phrase::ListingFailed => "目录读取失败"@,
            Phrase::ListingTimeoutLead => "MTP 目录读取超过 "@,
            Phrase::ListingTimeoutTail => " 秒。"@,
            Phrase::NoDevice => "设备未连接。"@,
            Phrase::NoLock => "设备操作锁未初始化。"@,
            Phrase::DamagedLock => "MTP 操作锁已损坏。"@,
            Phrase::PreparingPreview => "正在准备预览"@,
            Phrase::PreparingPreviewHint => "正在从 MTP 设备复制文件到临时目录。"@,
            Phrase::PreviewFailed => "预览失败"@,
            Phrase::PreviewNotWritten => "无法写入临时预览文件。"@,
            Phrase::CopyBusy => "MTP 正在复制"@,
            Phrase::CopyBusyBrowse => "正在复制文件，暂时不能读取目录。"@,
            Phrase::CopyBusyPreview => "正在复制文件，暂时不能预览。"@,
            Phrase::CopyBusyRefresh => "正在复制文件，暂时不能刷新设备。"@,
            Phrase::CopyBusySelect => "正在复制文件，暂时不能切换设备。"@,
            Phrase::CopyBusyMount => "正在复制文件，暂时不能挂载设备。"@,
            Phrase::CopyBusyEject => "正在复制文件，暂时不能推出设备。"@,
            Phrase::DragReady => "可以拖拽复制"@,
            Phrase::DragReadyLead => "已准备 "@,
            Phrase::DragReadyTail => " 个文件承诺，松开鼠标后开始复制。"@,
            Phrase::DragNotWritten => "无法写入拖拽剪贴板。"@,
            Phrase::DragCancelled => "拖拽已取消"@,
            Phrase::DragCancelledHint => "没有复制文件。"@,
            Phrase::CopyFailed => "拖拽复制失败"@,
            Phrase::CopyDone => "拖拽复制完成"@,
            Phrase::CopyDoneHint => "文件已复制到目标位置。"@,
            Phrase::Copying => "正在复制拖拽项目"@,
            Phrase::CopyingHint => "正在从 MTP 设备复制到目标位置。"@,
            Phrase::CopyProgressLead => "\n已完成 "@,
            Phrase::CopyProgressCount => "，共 "@,
            Phrase::CopyCountLead => "\n已复制 "@,
            Phrase::CopyCountTail => " 个文件。"@,
            Phrase::NoDragItem => "找不到拖拽项目。"@,
            Phrase::NoDragPath => "Finder没有提供有效目标路径。"@,
            Phrase::NotCopyable => "只能拖拽 MTP 文件或文件夹。"@,
            Phrase::NoCopyChannel => "复制进度通道未初始化。"@,
            Phrase::FolderFaultLead => "无法创建文件夹: "@,
            Phrase::TargetFaultLead => "无法创建目标目录: "@,
            Phrase::WriteFaultLead => "无法写入文件: "@,
            Phrase::CopyRuntimeFaultLead => "无法创建复制运行时: "@,
            Phrase::ConnectRuntimeFaultLead => "无法创建设备连接运行时: "@,
            Phrase::ExclusiveAccessAdvice => "\n\nmacOS 的 ptpcamerad 或 Android File Transfer 可能占用了设备。请退出相关程序，必要时临时运行: pkill -9 ptpcamerad"@,
        }
    }

    fn english_text(self) -> (r: &'static str)
        ensures
            r@ == self.english(),
    {
        match self {
            Phrase::Status => "Status",
            Phrase::Kind => "Kind",
            Phrase::Size => "Size",
            Phrase::Items => "Items",
            Phrase::Created => "Created",
            Phrase::Modified => "Modified",
            Phrase::Manufacturer => "Manufacturer",
            Phrase::SerialNumber => "Serial number",
            Phrase::Location => "Location",
            Phrase::Information => "Information",
            Phrase::Name => "Name",
            Phrase::Added => "Added",
            Phrase::Devices => "Devices",
            Phrase::Refresh => "Refresh",
            Phrase::Mount => "Mount",
            Phrase::Eject => "Eject",
            Phrase::Quit => "Quit MacMTP",
            Phrase::Folder => "Folder",
            Phrase::File => "File",
            Phrase::Storage => "Storage",
            Phrase::NotProvided => "Not provided",
            Phrase::UnnamedDevice => "MTP device",
            Phrase::ItemCountTail => " items",
            Phrase::CompactItemCountTail => " items\n\n",
            Phrase::FreeSpaceLead => "\nFree space: ",
            Phrase::ObjectUsage => "Select a file and press Space to preview it\nDrag the selection to Finder to copy it to this Mac",
            Phrase::QuickLookTail => "\nThe file is downloaded only for Quick Look.",
            Phrase::NoSelection => "No file selected",
            Phrase::NoSelectionHint => "Select an MTP device, then expand its folders",
            Phrase::CompactNoSelectionHint => "Select an MTP device, then expand its folders. A file is downloaded to a temporary folder for Quick Look only when you press Space.",
            Phrase::Mounted => "Mounted in Finder",
            Phrase::MountingNow => "Mounting in Finder",
            Phrase::ConnectedNotMounted => "Connected, not mounted",
            Phrase::NotConnected => "Not connected",
            Phrase::ChooseDevice => "Choose a device",
            Phrase::ChooseDeviceFirst => "The device list on the left scans for MTP devices at launch. You can also click Refresh.",
            Phrase::ChooseDeviceFromList => "Choose an MTP device from the list on the left.",
            Phrase::ChooseDeviceFromMenu => "Choose an MTP device from the menu at the top left.",
            Phrase::MenuHeading => "Choose an MTP device...",
            Phrase::NoDevices => "No MTP devices found",
            Phrase::NoDevicesHint => "Connect an Android, Kindle or other MTP device, then click the refresh button on the left.",
            Phrase::CompactNoDevicesHint => "Connect an Android, Kindle or other MTP device, then choose Device -> Refresh Devices.",
            Phrase::ScanFailed => "Scanning for devices failed",
            Phrase::Connecting => "Connecting to the device",
            Phrase::ConnectFailed => "Connecting to the device failed",
            Phrase::NoDeviceChannel => "The channel for device events is not ready.",
            Phrase::ConnectedTitle => "Device connected",
            Phrase::ConnectedHint => "Browse files in this window, or mount the device with the button on the right.",
            Phrase::NoMacfuseHint => "macFUSE was not found, so files are browsed in this window. Install macFUSE to mount devices.",
            Phrase::NoMacfuse => "macFUSE was not found. The device is not mounted in Finder.",
            Phrase::MountFailed => "Mounting failed",
            Phrase::NoMountChannel => "The channel for mount events is not ready. You can still browse in this window.",
            Phrase::Mounting => "Mounting",
            Phrase::MountingHint => "You can browse in this window already. The mount finishes in the background.",
            Phrase::MountingWait => "Wait until this device is mounted.",
            Phrase::AlreadyMounted => "Already mounted",
            Phrase::AlreadyMountedHint => "This device is mounted already.",
            Phrase::NotMounted => "Not mounted",
            Phrase::NotMountedHint => "This device is not mounted.",
            Phrase::Ejected => "Ejected",
            Phrase::EjectedHint => "You can still browse this device in this window.",
            Phrase::MountedAtLead => "The device is mounted at ",
            Phrase::MountedAtTail => ". It is ejected before MacMTP quits.",
            Phrase::FinderMountFailed => "Mounting in Finder failed",
            Phrase::FinderMountFailedTail => "\nYou can still browse in this window.",
            Phrase::NoFreeMountpoint => "No free /Volumes/MacMTP mount point was found.",
            Phrase::CacheDirFailedLead => "The FUSE cache folder could not be made: ",
            Phrase::FuseMountFailedLead => "FUSE mount failed: ",
            Phrase::NoStorages => "The device has no storage",
            Phrase::NoStoragesHint => "The MTP device listed no storages.",
            Phrase::StoragesFailed => "Reading the storages failed",
            Phrase::ListingFailed => "Reading the folder failed",
            Phrase::ListingTimeoutLead => "Reading the MTP folder took more than ",
            Phrase::ListingTimeoutTail => " seconds.",
            Phrase::NoDevice => "The device is not connected.",
            Phrase::NoLock => "The lock for device operations is not ready.",
            Phrase::DamagedLock => "The lock for MTP operations is damaged.",
            Phrase::PreparingPreview => "Preparing the preview",
            Phrase::PreparingPreviewHint => "Copying the file from the MTP device to a temporary folder.",
            Phrase::PreviewFailed => "The preview failed",
            Phrase::PreviewNotWritten => "The temporary preview file could not be written.",
            Phrase::CopyBusy => "MTP is copying",
            Phrase::CopyBusyBrowse => "Files are being copied. Folders cannot be read now.",
            Phrase::CopyBusyPreview => "Files are being copied. Previews are not possible now.",
            Phrase::CopyBusyRefresh => "Files are being copied. Devices cannot be refreshed now.",
            Phrase::CopyBusySelect => "Files are being copied. You cannot switch devices now.",
            Phrase::CopyBusyMount => "Files are being copied. Devices cannot be mounted now.",
            Phrase::CopyBusyEject => "Files are being copied. Devices cannot be ejected now.",
            Phrase::DragReady => "Ready to copy by dragging",
            Phrase::DragReadyLead => "Prepared ",
            Phrase::DragReadyTail => " file promises. Release the mouse to start copying.",
            Phrase::DragNotWritten => "The drag pasteboard could not be written.",
            Phrase::DragCancelled => "Dragging cancelled",
            Phrase::DragCancelledHint => "No files were copied.",
            Phrase::CopyFailed => "Copying by dragging failed",
            Phrase::CopyDone => "Copying by dragging finished",
            Phrase::CopyDoneHint => "The files were copied to their destination.",
            Phrase::Copying => "Copying the dragged items",
            Phrase::CopyingHint => "Copying from the MTP device to the destination.",
            Phrase::CopyProgressLead => "\nCompleted ",
            Phrase::CopyProgressCount => ", ",
            Phrase::CopyCountLead => "\nCopied ",
            Phrase::CopyCountTail => " files.",
            Phrase::NoDragItem => "The dragged item was not found.",
            Phrase::NoDragPath => "Finder gave no valid destination.",
            Phrase::NotCopyable => "Only MTP files and folders can be dragged.",
            Phrase::NoCopyChannel => "The channel for copy progress is not ready.",
            Phrase::FolderFaultLead => "The folder could not be made: ",
            Phrase::TargetFaultLead => "The destination folder could not be made: ",
            Phrase::WriteFaultLead => "The file could not be written: ",
            Phrase::CopyRuntimeFaultLead => "The copy could not be started: ",
            Phrase::ConnectRuntimeFaultLead => "The connection could not be started: ",
            Phrase::ExclusiveAccessAdvice => "\n\nptpcamerad of macOS or Android File Transfer may hold the device. Quit such programs, and if need be run: pkill -9 ptpcamerad",
        }
    }

    fn chinese_text(self) -> (r: &'static str)
        ensures
            r@ == self.chinese(),
    {
        match self {
            Phrase::Status => "状态",
            Phrase::Kind => "类型",
            Phrase::Size => "大小",
            Phrase::Items => "项目",
            Phrase::Created => "创建时间",
            Phrase::Modified => "修改时间",
            Phrase::Manufacturer => "制造商",
            Phrase::SerialNumber => "序列号",
            Phrase::Location => "位置",
            Phrase::Information => "信息",
            Phrase::Name => "名称",
            Phrase::Added => "添加时间",
            Phrase::Devices => "设备",
            Phrase::Refresh => "刷新",
            Phrase::Mount => "挂载",
            Phrase::Eject => "推出",
            Phrase::Quit => "退出 MacMTP",
            Phrase::Folder => "文件夹",
            Phrase::File => "文件",
            Phrase::Storage => "存储",
            Phrase::NotProvided => "未提供",
            Phrase::UnnamedDevice => "MTP 设备",
            Phrase::ItemCountTail => " 个",
            Phrase::CompactItemCountTail => " 个项目\n\n",
            Phrase::FreeSpaceLead => "\n可用空间: ",
            Phrase::ObjectUsage => "选中文件按下空格预览文件\n选中后拖拽到Finder可复制文件到本机",
            Phrase::QuickLookTail => "\nQuick Look 时才会下载文件。",
            Phrase::NoSelection => "未选择文件",
            Phrase::NoSelectionHint => "选择 MTP 设备后展开目录",
            Phrase::CompactNoSelectionHint => "选择 MTP 设备后展开目录；选中文件按空格才会下载到临时目录并 Quick Look。",
            Phrase::Mounted => "已挂载到 Finder",
            Phrase::MountingNow => "正在挂载到 Finder",
            Phrase::ConnectedNotMounted => "已连接，未挂载",
            Phrase::NotConnected => "未连接",
            Phrase::ChooseDevice => "请选择设备",
            Phrase::ChooseDeviceFirst => "左侧设备栏会在启动时扫描 MTP 设备，也可以点击刷新。",
            Phrase::ChooseDeviceFromList => "从左侧设备栏选择一个 MTP 设备。",
            Phrase::ChooseDeviceFromMenu => "从左上角设备菜单选择一个 MTP 设备。",
            Phrase::MenuHeading => "选择 MTP 设备...",
            Phrase::NoDevices => "未发现 MTP 设备",
            Phrase::NoDevicesHint => "连接 Android/Kindle 等 MTP 设备后点击左侧刷新按钮。",
            Phrase::CompactNoDevicesHint => "连接 Android/Kindle 等 MTP 设备后点击菜单 Device -> Refresh Devices。",
            Phrase::ScanFailed => "设备扫描失败",
            Phrase::Connecting => "正在连接设备",
            Phrase::ConnectFailed => "连接设备失败",
            Phrase::NoDeviceChannel => "设备事件通道未初始化。",
            Phrase::ConnectedTitle => "已连接设备",
            Phrase::ConnectedHint => "可使用内置浏览器浏览文件，或使用右侧按钮挂载到系统。",
            Phrase::NoMacfuseHint => "未检测到 macFUSE，保留内置浏览器模式。安装 macFUSE 后可挂载到系统。",
            Phrase::NoMacfuse => "未检测到 macFUSE，跳过 Finder 挂载。",
            Phrase::MountFailed => "挂载失败",
            Phrase::NoMountChannel => "挂载事件通道未初始化，仍可使用内置浏览器。",
            Phrase::Mounting => "正在挂载",
            Phrase::MountingHint => "内置浏览器已可使用，挂载将在后台完成。",
            Phrase::MountingWait => "请等待这个设备的挂载操作完成。",
            Phrase::AlreadyMounted => "已挂载",
            Phrase::AlreadyMountedHint => "这个设备已经挂载。",
            Phrase::NotMounted => "未挂载",
            Phrase::NotMountedHint => "这个设备当前没有挂载。",
            Phrase::Ejected => "已推出",
            Phrase::EjectedHint => "内置浏览器仍可继续使用当前设备。",
            Phrase::MountedAtLead => "设备已挂载到 ",
            Phrase::MountedAtTail => "。退出前会自动推出。",
            Phrase::FinderMountFailed => "Finder 挂载失败",
            Phrase::FinderMountFailedTail => "\n仍可使用内置浏览器。",
            Phrase::NoFreeMountpoint => "无法找到可用的 /Volumes/MacMTP 挂载点名称。",
            Phrase::CacheDirFailedLead => "无法创建 FUSE 缓存目录: ",
            Phrase::FuseMountFailedLead => "FUSE 挂载失败: ",
            Phrase::NoStorages => "设备没有可用存储",
            Phrase::NoStoragesHint => "MTP 设备未返回 storage 列表。",
            Phrase::StoragesFailed => "读取存储失败",
            Phrase::ListingFailed => "目录读取失败",
            Phrase::ListingTimeoutLead => "MTP 目录读取超过 ",
            Phrase::ListingTimeoutTail => " 秒。",
            Phrase::NoDevice => "设备未连接。",
            Phrase::NoLock => "设备操作锁未初始化。",
            Phrase::DamagedLock => "MTP 操作锁已损坏。",
            Phrase::PreparingPreview => "正在准备预览",
            Phrase::PreparingPreviewHint => "正在从 MTP 设备复制文件到临时目录。",
            Phrase::PreviewFailed => "预览失败",
            Phrase::PreviewNotWritten => "无法写入临时预览文件。",
            Phrase::CopyBusy => "MTP 正在复制",
            Phrase::CopyBusyBrowse => "正在复制文件，暂时不能读取目录。",
            Phrase::CopyBusyPreview => "正在复制文件，暂时不能预览。",
            Phrase::CopyBusyRefresh => "正在复制文件，暂时不能刷新设备。",
            Phrase::CopyBusySelect => "正在复制文件，暂时不能切换设备。",
            Phrase::CopyBusyMount => "正在复制文件，暂时不能挂载设备。",
            Phrase::CopyBusyEject => "正在复制文件，暂时不能推出设备。",
            Phrase::DragReady => "可以拖拽复制",
            Phrase::DragReadyLead => "已准备 ",
            Phrase::DragReadyTail => " 个文件承诺，松开鼠标后开始复制。",
            Phrase::DragNotWritten => "无法写入拖拽剪贴板。",
            Phrase::DragCancelled => "拖拽已取消",
            Phrase::DragCancelledHint => "没有复制文件。",
            Phrase::CopyFailed => "拖拽复制失败",
            Phrase::CopyDone => "拖拽复制完成",
            Phrase::CopyDoneHint => "文件已复制到目标位置。",
            Phrase::Copying => "正在复制拖拽项目",
            Phrase::CopyingHint => "正在从 MTP 设备复制到目标位置。",
            Phrase::CopyProgressLead => "\n已完成 ",
            Phrase::CopyProgressCount => "，共 ",
            Phrase::CopyCountLead => "\n已复制 ",
            Phrase::CopyCountTail => " 个文件。",
            Phrase::NoDragItem => "找不到拖拽项目。",
            Phrase::NoDragPath => "Finder没有提供有效目标路径。",
            Phrase::NotCopyable => "只能拖拽 MTP 文件或文件夹。",
            Phrase::NoCopyChannel => "复制进度通道未初始化。",
            Phrase::FolderFaultLead => "无法创建文件夹: ",
            Phrase::TargetFaultLead => "无法创建目标目录: ",
            Phrase::WriteFaultLead => "无法写入文件: ",
            Phrase::CopyRuntimeFaultLead => "无法创建复制运行时: ",
            Phrase::ConnectRuntimeFaultLead => "无法创建设备连接运行时: ",
            Phrase::ExclusiveAccessAdvice => "\n\nmacOS 的 ptpcamerad 或 Android File Transfer 可能占用了设备。请退出相关程序，必要时临时运行: pkill -9 ptpcamerad",
        }
    }

    /// The phrase in a language: see [`Phrase::say`].
    pub fn text(self, language: Language) -> (r: &'static str)
        ensures
            r@ == self.say(language),
    {
        match language {
            Language::English => self.english_text(),
            Language::SimplifiedChinese => self.chinese_text(),
        }
    }
}

/// Any kind of Chinese is Chinese, however its tag goes on behind `zh` and a dash or an
/// underscore; no other tag is.
pub proof fn law_tags_name_their_language(rest: Seq<char>, tag: Seq<char>, c: char)
    ensures
        names_chinese(seq!['z', 'h']),
        names_chinese(seq!['z', 'h', '-'] + rest),
        names_chinese(seq!['z', 'h', '_'] + rest),
        c != '-' && c != '_' ==> !names_chinese(seq!['z', 'h', c] + rest),
        names_chinese(tag) ==> tag.len() >= 2 && tag[0] == 'z' && tag[1] == 'h',
{
}

/// The phrases for different states, kinds and outcomes are different in both languages, so
/// that the user can tell them apart.
pub proof fn law_outcomes_are_told_apart(language: Language)
    ensures
        Phrase::Mounted.say(language) != Phrase::MountingNow.say(language),
        Phrase::Mounted.say(language) != Phrase::ConnectedNotMounted.say(language),
        Phrase::Mounted.say(language) != Phrase::NotConnected.say(language),
        Phrase::MountingNow.say(language) != Phrase::ConnectedNotMounted.say(language),
        Phrase::MountingNow.say(language) != Phrase::NotConnected.say(language),
        Phrase::ConnectedNotMounted.say(language) != Phrase::NotConnected.say(language),
        Phrase::Folder.say(language) != Phrase::File.say(language),
        Phrase::Folder.say(language) != Phrase::Storage.say(language),
        Phrase::File.say(language) != Phrase::Storage.say(language),
        Phrase::CopyDone.say(language) != Phrase::CopyFailed.say(language),
        Phrase::CopyDone.say(language) != Phrase::Copying.say(language),
        Phrase::CopyFailed.say(language) != Phrase::Copying.say(language),
        Phrase::Ejected.say(language) != Phrase::NotMounted.say(language),
        Phrase::Ejected.say(language) != Phrase::AlreadyMounted.say(language),
        Phrase::NotMounted.say(language) != Phrase::AlreadyMounted.say(language),
        Phrase::Mounting.say(language) != Phrase::AlreadyMounted.say(language),
        Phrase::Mounting.say(language) != Phrase::MountFailed.say(language),
        Phrase::Connecting.say(language) != Phrase::ConnectFailed.say(language),
        Phrase::Connecting.say(language) != Phrase::ConnectedTitle.say(language),
        Phrase::ConnectFailed.say(language) != Phrase::ConnectedTitle.say(language),
        Phrase::NoDevices.say(language) != Phrase::ScanFailed.say(language),
        Phrase::NoDevices.say(language) != Phrase::ChooseDevice.say(language),
        Phrase::ScanFailed.say(language) != Phrase::ChooseDevice.say(language),
        Phrase::PreparingPreview.say(language) != Phrase::PreviewFailed.say(language),
        Phrase::Created.say(language) != Phrase::Modified.say(language),
{
    match language {
        Language::English => {
            reveal_strlit("Mounted in Finder");
            assert("Mounted in Finder"@.len() == 17);
            reveal_strlit("Mounting in Finder");
            assert("Mounting in Finder"@.len() == 18);
            reveal_strlit("Connected, not mounted");
            assert("Connected, not mounted"@.len() == 22);
            reveal_strlit("Not connected");
            assert("Not connected"@.len() == 13);
            reveal_strlit("Folder");
            assert("Folder"@.len() == 6);
            reveal_strlit("File");
            assert("File"@.len() == 4);
            reveal_strlit("Storage");
            assert("Storage"@.len() == 7);
            reveal_strlit("Copying by dragging finished");
            assert("Copying by dragging finished"@.len() == 28);
            reveal_strlit("Copying by dragging failed");
            assert("Copying by dragging failed"@.len() == 26);
            reveal_strlit("Copying the dragged items");
            assert("Copying the dragged items"@.len() == 25);
            reveal_strlit("Ejected");
            assert("Ejected"@.len() == 7);
            reveal_strlit("Not mounted");
            assert("Not mounted"@.len() == 11);
            reveal_strlit("Already mounted");
            assert("Already mounted"@.len() == 15);
            reveal_strlit("Mounting");
            assert("Mounting"@.len() == 8);
            reveal_strlit("Mounting failed");
            assert("Mounting failed"@.len() == 15);
            reveal_strlit("Connecting to the device");
            assert("Connecting to the device"@.len() == 24);
            reveal_strlit("Connecting to the device failed");
            assert("Connecting to the device failed"@.len() == 31);
            reveal_strlit("Device connected");
            assert("Device connected"@.len() == 16);
            reveal_strlit("No MTP devices found");
            assert("No MTP devices found"@.len() == 20);
            reveal_strlit("Scanning for devices failed");
            assert("Scanning for devices failed"@.len() == 27);
            reveal_strlit("Choose a device");
            assert("Choose a device"@.len() == 15);
            reveal_strlit("Preparing the preview");
            assert("Preparing the preview"@.len() == 21);
            reveal_strlit("The preview failed");
            assert("The preview failed"@.len() == 18);
            reveal_strlit("Created");
            assert("Created"@.len() == 7);
            reveal_strlit("Modified");
            assert("Modified"@.len() == 8);
        },
        Language::SimplifiedChinese => {
            reveal_strlit("已挂载到 Finder");
            assert("已挂载到 Finder"@.len() == 11);
            reveal_strlit("正在挂载到 Finder");
            assert("正在挂载到 Finder"@.len() == 12);
            reveal_strlit("已连接，未挂载");
            assert("已连接，未挂载"@.len() == 7);
            reveal_strlit("未连接");
            assert("未连接"@.len() == 3);
            reveal_strlit("文件夹");
            assert("文件夹"@.len() == 3);
            reveal_strlit("文件");
            assert("文件"@.len() == 2);
            reveal_strlit("存储");
            assert("存储"@.len() == 2);
            reveal_strlit("拖拽复制完成");
            assert("拖拽复制完成"@.len() == 6);
            reveal_strlit("拖拽复制失败");
            assert("拖拽复制失败"@.len() == 6);
            reveal_strlit("正在复制拖拽项目");
            assert("正在复制拖拽项目"@.len() == 8);
            reveal_strlit("已推出");
            assert("已推出"@.len() == 3);
            reveal_strlit("未挂载");
            assert("未挂载"@.len() == 3);
            reveal_strlit("已挂载");
            assert("已挂载"@.len() == 3);
            reveal_strlit("正在挂载");
            assert("正在挂载"@.len() == 4);
            reveal_strlit("挂载失败");
            assert("挂载失败"@.len() == 4);
            reveal_strlit("正在连接设备");
            assert("正在连接设备"@.len() == 6);
            reveal_strlit("连接设备失败");
            assert("连接设备失败"@.len() == 6);
            reveal_strlit("已连接设备");
            assert("已连接设备"@.len() == 5);
            reveal_strlit("未发现 MTP 设备");
            assert("未发现 MTP 设备"@.len() == 10);
            reveal_strlit("设备扫描失败");
            assert("设备扫描失败"@.len() == 6);
            reveal_strlit("请选择设备");
            assert("请选择设备"@.len() == 5);
            reveal_strlit("正在准备预览");
            assert("正在准备预览"@.len() == 6);
            reveal_strlit("预览失败");
            assert("预览失败"@.len() == 4);
            reveal_strlit("创建时间");
            assert("创建时间"@.len() == 4);
            reveal_strlit("修改时间");
            assert("修改时间"@.len() == 4);
            assert("文件"@[0] == '文');
            assert("存储"@[0] == '存');
            assert("拖拽复制完成"@[4] == '完');
            assert("拖拽复制失败"@[4] == '失');
            assert("已推出"@[0] == '已');
            assert("未挂载"@[0] == '未');
            assert("已推出"@[1] == '推');
            assert("已挂载"@[1] == '挂');
            assert("已挂载"@[0] == '已');
            assert("正在挂载"@[0] == '正');
            assert("挂载失败"@[0] == '挂');
            assert("正在连接设备"@[0] == '正');
            assert("连接设备失败"@[0] == '连');
            assert("创建时间"@[0] == '创');
            assert("修改时间"@[0] == '修');
        },
    }
}

} // verus!
