//! Mounting a device in the Finder: volume names, mount points and mount options.
use crate::device;
use crate::device::{trimmed, DeviceInfo, DeviceView};
use crate::paths;
use crate::paths::join_path;
use crate::phrases::{Language, Phrase};
use crate::text;
use crate::text::{decimal_of, has_prefix, to_lowercase};
use crate::util;
use crate::util::sanitize_filename;
use vstd::prelude::*;

verus! {

/// How many mount points are tried for one volume.
pub const MOUNTPOINT_COUNT: usize = 100;

/// The places where an installed macFUSE shows.
pub open spec fn macfuse_places() -> Seq<Seq<char>> {
    seq![
        "/Library/Filesystems/macfuse.fs"@,
        "/Library/Frameworks/MacFUSE.framework"@,
        "/usr/local/lib/libfuse.dylib"@,
        "/opt/homebrew/lib/libfuse.dylib"@,
    ]
}

/// The places to look at to find out whether macFUSE is installed.
pub fn macfuse_paths() -> (r: Vec<String>)
    ensures
        r.deep_view() == macfuse_places(),
{
    let mut r: Vec<String> = Vec::new();
    r.push("/Library/Filesystems/macfuse.fs".to_string());
    r.push("/Library/Frameworks/MacFUSE.framework".to_string());
    r.push("/usr/local/lib/libfuse.dylib".to_string());
    r.push("/opt/homebrew/lib/libfuse.dylib".to_string());
    assert(r.deep_view() =~= macfuse_places());
    r
}

/// Whether macFUSE is installed: something exists at one of its places. `exists` answers
/// for each of [`macfuse_paths`] in turn.
pub fn macfuse_available(exists: &Vec<bool>) -> (r: bool)
    ensures
        r == exists@.contains(true),
{
    for i in 0..exists.len()
        invariant
            forall|j: int| 0 <= j < i ==> !exists@[j],
    {
        if exists[i] {
            assert(exists@[i as int]);
            return true;
        }
    }
    false
}

/// The name of a device made of its manufacturer and product. `branded` says that the
/// product's name begins with the manufacturer's already.
pub open spec fn device_label(
    manufacturer: Seq<char>,
    product: Seq<char>,
    branded: bool,
) -> Seq<char> {
    if manufacturer.len() > 0 && product.len() > 0 && !branded {
        manufacturer + " "@ + product
    } else if product.len() > 0 {
        product
    } else if manufacturer.len() > 0 {
        manufacturer
    } else {
        "MTP Device"@
    }
}

/// The volume name of a device.
pub open spec fn volume_text(
    manufacturer: Seq<char>,
    product: Seq<char>,
    branded: bool,
) -> Seq<char> {
    "MacMTP - "@ + util::sanitized(device_label(manufacturer, product, branded))
}

/// The volume name of a device with the given manufacturer and product names; the last two
/// arguments are the same two names in lower case.
pub fn volume_name_of(
    manufacturer: &str,
    product: &str,
    lower_manufacturer: &str,
    lower_product: &str,
) -> (r: String)
    ensures
        r@ == volume_text(
            manufacturer@,
            product@,
            lower_manufacturer@.is_prefix_of(lower_product@),
        ),
{
    let has_manufacturer: bool = manufacturer.unicode_len() > 0;
    let has_product: bool = product.unicode_len() > 0;
    let mut label: String;
    if has_manufacturer && has_product && !has_prefix(lower_product, lower_manufacturer) {
        label = manufacturer.to_string();
        label.append(" ");
        label.append(product);
    } else if has_product {
        label = product.to_string();
    } else if has_manufacturer {
        label = manufacturer.to_string();
    } else {
        label = "MTP Device".to_string();
    }
    let mut r = "MacMTP - ".to_string();
    r.append(sanitize_filename(label.as_str()).as_str());
    r
}

/// The volume name of a device: its manufacturer and product without surrounding white
/// space, the manufacturer left out where the product's name begins with it in any case
/// of letters.
pub open spec fn volume_view(info: DeviceView) -> Seq<char> {
    let manufacturer = text::trim(device::text_or(info.manufacturer, Seq::empty()));
    let product = text::trim(device::text_or(info.product, Seq::empty()));
    let branded = text::lowercase(manufacturer).is_prefix_of(text::lowercase(product));
    volume_text(manufacturer, product, branded)
}

/// The volume name of a device: see [`volume_view`].
pub fn volume_name(info: &DeviceInfo) -> (r: String)
    ensures
        r@ == volume_view(info@),
{
    let manufacturer = trimmed(&info.manufacturer);
    let product = trimmed(&info.product);
    let lower_manufacturer = to_lowercase(manufacturer.as_str());
    let lower_product = to_lowercase(product.as_str());
    volume_name_of(
        manufacturer.as_str(),
        product.as_str(),
        lower_manufacturer.as_str(),
        lower_product.as_str(),
    )
}

/// The mount points tried for a volume: below `/Volumes`, first under the volume's name,
/// then with the numbers 1, 2, and so on.
pub open spec fn mountpoint_candidate(volume_name: Seq<char>, number: nat) -> Seq<char> {
    paths::joined(
        "/Volumes"@,
        if number == 0 {
            volume_name
        } else {
            volume_name + " "@ + text::decimal(number)
        },
    )
}

fn mountpoint_candidate_of(volume_name: &str, number: usize) -> (r: String)
    ensures
        r@ == mountpoint_candidate(volume_name@, number as nat),
{
    let mut name = volume_name.to_string();
    if number != 0 {
        name.append(" ");
        name.append(decimal_of(number as u64).as_str());
    }
    join_path("/Volumes", name.as_str())
}

/// All mount points tried for a volume, in their order.
pub fn mountpoint_candidates(volume_name: &str) -> (r: Vec<String>)
    ensures
        r.deep_view() == Seq::new(
            MOUNTPOINT_COUNT as nat,
            |i: int| mountpoint_candidate(volume_name@, i as nat),
        ),
{
    let mut r: Vec<String> = Vec::new();
    for i in 0..MOUNTPOINT_COUNT
        invariant
            r@.len() == i,
            forall|j: int|
                0 <= j < i ==> (#[trigger] r@[j])@ == mountpoint_candidate(volume_name@, j as nat),
    {
        r.push(mountpoint_candidate_of(volume_name, i));
    }
    assert(r.deep_view() =~= Seq::new(
        MOUNTPOINT_COUNT as nat,
        |i: int| mountpoint_candidate(volume_name@, i as nat),
    ));
    r
}

/// The first mount point that is free. `exists` says for each of
/// [`mountpoint_candidates`] whether something is there.
pub fn unique_mountpoint(volume_name: &str, exists: &Vec<bool>, language: Language) -> (r: Result<
    String,
    String,
>)
    requires
        exists@.len() == MOUNTPOINT_COUNT,
    ensures
        match r {
            Ok(path) => exists|i: int|
                0 <= i < MOUNTPOINT_COUNT && !(#[trigger] exists@[i]) && path@
                    == mountpoint_candidate(volume_name@, i as nat) && (forall|j: int|
                    0 <= j < i ==> exists@[j]),
            Err(message) => (forall|j: int| 0 <= j < MOUNTPOINT_COUNT ==> exists@[j]) && message@
                == Phrase::NoFreeMountpoint.say(language),
        },
{
    for i in 0..MOUNTPOINT_COUNT
        invariant
            exists@.len() == MOUNTPOINT_COUNT,
            forall|j: int| 0 <= j < i ==> exists@[j],
    {
        if !exists[i] {
            assert(!exists@[i as int]);
            return Ok(mountpoint_candidate_of(volume_name, i));
        }
    }
    Err(Phrase::NoFreeMountpoint.text(language).to_string())
}

/// Those of the first `count` mount points where something is, in their order.
pub open spec fn occupied_mountpoints(
    volume_name: Seq<char>,
    exists: Seq<bool>,
    count: nat,
) -> Seq<Seq<char>>
    decreases count,
{
    if count == 0 {
        Seq::empty()
    } else {
        let before = occupied_mountpoints(volume_name, exists, (count - 1) as nat);
        if exists[count - 1] {
            before.push(mountpoint_candidate(volume_name, (count - 1) as nat))
        } else {
            before
        }
    }
}

/// The mount points to clear before mounting: those where something is.
pub fn existing_mountpoints(volume_name: &str, exists: &Vec<bool>) -> (r: Vec<String>)
    requires
        exists@.len() == MOUNTPOINT_COUNT,
    ensures
        r.deep_view() == occupied_mountpoints(volume_name@, exists@, MOUNTPOINT_COUNT as nat),
{
    let mut r: Vec<String> = Vec::new();
    assert(r.deep_view() =~= Seq::<Seq<char>>::empty());
    for i in 0..MOUNTPOINT_COUNT
        invariant
            exists@.len() == MOUNTPOINT_COUNT,
            r.deep_view() == occupied_mountpoints(volume_name@, exists@, i as nat),
    {
        if exists[i] {
            let path = mountpoint_candidate_of(volume_name, i);
            let ghost before = r;
            r.push(path);
            assert(r.deep_view() =~= before.deep_view().push(path@));
        }
    }
    r
}

/// A mount option.
#[derive(Clone, Debug, PartialEq, Eq)]
pub enum MountFlag {
    ReadOnly,
    NoDev,
    NoSuid,
    NoExec,
    NoAtime,
    FsName(String),
    Subtype(String),
    Custom(String),
}

/// What a mount option holds.
#[verifier::ext_equal]
pub enum MountFlagView {
    ReadOnly,
    NoDev,
    NoSuid,
    NoExec,
    NoAtime,
    FsName(Seq<char>),
    Subtype(Seq<char>),
    Custom(Seq<char>),
}

impl DeepView for MountFlag {
    type V = MountFlagView;

    open spec fn deep_view(&self) -> MountFlagView {
        match self {
            MountFlag::ReadOnly => MountFlagView::ReadOnly,
            MountFlag::NoDev => MountFlagView::NoDev,
            MountFlag::NoSuid => MountFlagView::NoSuid,
            MountFlag::NoExec => MountFlagView::NoExec,
            MountFlag::NoAtime => MountFlagView::NoAtime,
            MountFlag::FsName(name) => MountFlagView::FsName(name@),
            MountFlag::Subtype(name) => MountFlagView::Subtype(name@),
            MountFlag::Custom(option) => MountFlagView::Custom(option@),
        }
    }
}

/// The options that a volume is mounted with. The first makes it read-only.
pub open spec fn mount_option_views(volume_name: Seq<char>) -> Seq<MountFlagView> {
    seq![
        MountFlagView::ReadOnly,
        MountFlagView::NoDev,
        MountFlagView::NoSuid,
        MountFlagView::NoExec,
        MountFlagView::NoAtime,
        MountFlagView::FsName("MacMTP"@),
        MountFlagView::Subtype("mtp"@),
        MountFlagView::Custom("volname="@ + volume_name),
        MountFlagView::Custom("local"@),
    ]
}

/// The options that a volume is mounted with.
pub fn mount_options(volume_name: &str) -> (r: Vec<MountFlag>)
    ensures
        r.deep_view() == mount_option_views(volume_name@),
{
    let mut volname = "volname=".to_string();
    volname.append(volume_name);
    let mut r: Vec<MountFlag> = Vec::new();
    r.push(MountFlag::ReadOnly);
    r.push(MountFlag::NoDev);
    r.push(MountFlag::NoSuid);
    r.push(MountFlag::NoExec);
    r.push(MountFlag::NoAtime);
    r.push(MountFlag::FsName("MacMTP".to_string()));
    r.push(MountFlag::Subtype("mtp".to_string()));
    r.push(MountFlag::Custom(volname));
    r.push(MountFlag::Custom("local".to_string()));
    assert(r.deep_view() =~= mount_option_views(volume_name@));
    r
}

/// The name of the directory that holds downloads for a device's volume.
pub fn cache_dir_name(location_id: u64) -> (r: String)
    ensures
        r@ == "macmtp-fuse-cache-"@ + text::decimal(location_id as nat),
{
    let mut r = "macmtp-fuse-cache-".to_string();
    r.append(decimal_of(location_id).as_str());
    r
}

/// What a mount needs: where, with which options, and the name of its download directory.
#[derive(Clone, Debug)]
pub struct MountPlan {
    pub volume_name: String,
    pub mountpoint: String,
    pub cache_dir: String,
    pub options: Vec<MountFlag>,
}

/// Plans the mount of a device. `exists` says for each of the volume's
/// [`mountpoint_candidates`] whether something is there.
pub fn plan_mount(
    info: &DeviceInfo,
    macfuse: bool,
    exists: &Vec<bool>,
    language: Language,
) -> (r: Result<MountPlan, String>)
    requires
        exists@.len() == MOUNTPOINT_COUNT,
    ensures
        match r {
            Ok(plan) => {
                &&& macfuse
                &&& plan.volume_name@ == volume_view(info@)
                &&& plan.cache_dir@ == "macmtp-fuse-cache-"@ + text::decimal(
                    info.location_id as nat,
                )
                &&& plan.options.deep_view() == mount_option_views(volume_view(info@))
                &&& exists|i: int|
                    0 <= i < MOUNTPOINT_COUNT && !(#[trigger] exists@[i]) && plan.mountpoint@
                        == mountpoint_candidate(volume_view(info@), i as nat) && (forall|j: int|
                        0 <= j < i ==> exists@[j])
            },
            Err(message) => if macfuse {
                (forall|j: int| 0 <= j < MOUNTPOINT_COUNT ==> exists@[j]) && message@
                    == Phrase::NoFreeMountpoint.say(language)
            } else {
                message@ == Phrase::NoMacfuse.say(language)
            },
        },
{
    if !macfuse {
        return Err(Phrase::NoMacfuse.text(language).to_string());
    }
    let volume_name = volume_name(info);
    match unique_mountpoint(volume_name.as_str(), exists, language) {
        Ok(mountpoint) => {
            let options = mount_options(volume_name.as_str());
            Ok(
                MountPlan {
                    volume_name,
                    mountpoint,
                    cache_dir: cache_dir_name(info.location_id),
                    options,
                },
            )
        },
        Err(message) => Err(message),
    }
}

/// The message for a download directory that could not be made.
pub fn cache_dir_failure(err: &str, language: Language) -> (r: String)
    ensures
        r@ == Phrase::CacheDirFailedLead.say(language) + err@,
{
    let mut r = Phrase::CacheDirFailedLead.text(language).to_string();
    r.append(err);
    r
}

/// The message for a mount that failed.
pub fn mount_failure(err: &str, language: Language) -> (r: String)
    ensures
        r@ == Phrase::FuseMountFailedLead.say(language) + err@,
{
    let mut r = Phrase::FuseMountFailedLead.text(language).to_string();
    r.append(err);
    r
}

/// A mounted volume: where it is mounted and where its downloads are kept.
#[derive(Clone, Debug)]
pub struct MountHandle {
    mountpoint: String,
    cache_dir: String,
}

/// What a mounted volume holds.
#[verifier::ext_equal]
pub struct MountView {
    pub mountpoint: Seq<char>,
    pub cache_dir: Seq<char>,
}

impl View for MountHandle {
    type V = MountView;

    open spec fn view(&self) -> MountView {
        MountView { mountpoint: self.mountpoint_view(), cache_dir: self.cache_dir_view() }
    }
}

impl MountHandle {
    /// Where the volume is mounted.
    pub closed spec fn mountpoint_view(&self) -> Seq<char> {
        self.mountpoint@
    }

    /// Where the volume's downloads are kept.
    pub closed spec fn cache_dir_view(&self) -> Seq<char> {
        self.cache_dir@
    }

    /// Records a mounted volume.
    pub fn new(mountpoint: String, cache_dir: String) -> (r: MountHandle)
        ensures
            r@ == (MountView { mountpoint: mountpoint@, cache_dir: cache_dir@ }),
    {
        MountHandle { mountpoint, cache_dir }
    }

    /// Where the volume is mounted.
    pub fn mountpoint(&self) -> (r: &str)
        ensures
            r@ == self@.mountpoint,
    {
        self.mountpoint.as_str()
    }

    /// Where the volume's downloads are kept.
    pub fn cache_dir(&self) -> (r: &str)
        ensures
            r@ == self@.cache_dir,
    {
        self.cache_dir.as_str()
    }
}

/// Every mount point tried for a device is `/Volumes/MacMTP - ` followed by a name, and a
/// component of its own below `/Volumes`: the name holds no further separator.
pub proof fn law_volumes_appear_under_macmtp(info: DeviceView, number: nat)
    ensures
        "/Volumes/MacMTP - "@.is_prefix_of(mountpoint_candidate(volume_view(info), number)),
        !mountpoint_candidate(volume_view(info), number).skip(9).contains('/'),
{
    reveal_strlit("/Volumes/MacMTP - ");
    reveal_strlit("/Volumes");
    reveal_strlit("MacMTP - ");
    reveal_strlit("/");
    reveal_strlit(" ");
    let volume = volume_view(info);
    let manufacturer = text::trim(device::text_or(info.manufacturer, Seq::empty()));
    let product = text::trim(device::text_or(info.product, Seq::empty()));
    let branded = text::lowercase(manufacturer).is_prefix_of(text::lowercase(product));
    let label = util::sanitized(device_label(manufacturer, product, branded));
    util::law_sanitized_is_safe(device_label(manufacturer, product, branded));
    text::law_decimal_reads_back(number);
    assert(volume == "MacMTP - "@ + label);
    assert(volume[0] == 'M');
    let path = mountpoint_candidate(volume, number);
    let prefix = "/Volumes/MacMTP - "@;
    assert(prefix =~= path.subrange(0, prefix.len() as int));
    let tail = path.skip(9);
    let digits = text::decimal(number);
    assert forall|i: int| 0 <= i < tail.len() implies tail[i] != '/' by {
        if i < 9 {
            assert(tail[i] == "MacMTP - "@[i]);
        } else if i < 9 + label.len() {
            assert(tail[i] == label[i - 9]);
            assert(label.contains(label[i - 9]));
        } else if i == 9 + label.len() {
            assert(tail[i] == ' ');
        } else {
            assert(tail[i] == digits[i - 10 - label.len()]);
            assert(text::is_digit(digits[i - 10 - label.len()]));
        }
    }
}

/// The mount points tried for a volume are all different, whatever the volume is called. (A
/// name that is empty or begins with a separator is not a component of a path.)
pub proof fn law_mountpoints_distinct(volume_name: Seq<char>, i: nat, j: nat)
    requires
        i < j,
        volume_name.len() > 0,
        volume_name[0] != '/',
    ensures
        mountpoint_candidate(volume_name, i) != mountpoint_candidate(volume_name, j),
{
    reveal_strlit("/Volumes");
    reveal_strlit("/");
    reveal_strlit(" ");
    let left = mountpoint_candidate(volume_name, i);
    let right = mountpoint_candidate(volume_name, j);
    let n = 10 + volume_name.len() as int;
    let dj = text::decimal(j);
    text::law_decimal_reads_back(j);
    assert(right.skip(n) =~= dj);
    if left == right {
        if i == 0 {
            assert(left.len() == n - 1);
        } else {
            assert(left.skip(n) =~= text::decimal(i));
            text::law_decimal_distinct(i, j);
        }
    }
}

/// The mount points tried for a device are all different.
pub proof fn law_device_mountpoints_distinct(info: DeviceView, i: nat, j: nat)
    requires
        i < j,
    ensures
        mountpoint_candidate(volume_view(info), i) != mountpoint_candidate(volume_view(info), j),
{
    reveal_strlit("MacMTP - ");
    assert(volume_view(info)[0] == 'M');
    law_mountpoints_distinct(volume_view(info), i, j);
}

/// Every volume is mounted read-only.
pub proof fn law_mounts_are_read_only(volume_name: Seq<char>)
    ensures
        mount_option_views(volume_name).contains(MountFlagView::ReadOnly),
{
    assert(mount_option_views(volume_name)[0] == MountFlagView::ReadOnly);
}

/// A volume is named after its device: the manufacturer and the product, the product alone
/// where its name begins with the manufacturer's or there is no manufacturer, and the
/// manufacturer alone where there is no product. Names that a path can carry stay as they are.
pub proof fn law_volumes_are_named_after_their_device(
    manufacturer: Seq<char>,
    product: Seq<char>,
    branded: bool,
)
    requires
        util::sanitized(manufacturer) == manufacturer || manufacturer.len() == 0,
        util::sanitized(product) == product || product.len() == 0,
    ensures
        ({
            let name = volume_text(manufacturer, product, branded);
            let head = "MacMTP - "@;
            &&& manufacturer.len() > 0 && product.len() > 0 && !branded ==> name == head
                + manufacturer + seq![' '] + product
            &&& manufacturer.len() > 0 && product.len() > 0 && branded ==> name == head + product
            &&& manufacturer.len() == 0 && product.len() > 0 ==> name == head + product
            &&& manufacturer.len() > 0 && product.len() == 0 ==> name == head + manufacturer
            &&& manufacturer.len() == 0 && product.len() == 0 ==> name == head + "MTP Device"@
        }),
{
    reveal_strlit(" ");
    reveal_strlit("MTP Device");
    let name = volume_text(manufacturer, product, branded);
    let both = manufacturer + " "@ + product;
    util::law_sanitized_is_safe(manufacturer);
    util::law_sanitized_is_safe(product);
    if manufacturer.len() > 0 && product.len() > 0 {
        assert forall|i: int| 0 <= i < both.len() implies util::safe_char(#[trigger] both[i])
            == both[i] by {
            if i < manufacturer.len() {
                assert(both[i] == manufacturer[i]);
                assert(manufacturer.contains(manufacturer[i]));
            } else if i == manufacturer.len() {
                assert(both[i] == ' ');
            } else {
                assert(both[i] == product[i - manufacturer.len() - 1]);
                assert(product.contains(product[i - manufacturer.len() - 1]));
            }
        }
        assert(util::sanitized(both) =~= both);
        assert(name.len() > 0);
        assert("MacMTP - "@ + both =~= "MacMTP - "@ + manufacturer + seq![' '] + product);
    }
    assert(util::sanitized("MTP Device"@) =~= "MTP Device"@);
}

/// The device's own names, without white space around them, make up the volume's name, and it
/// depends on nothing else of the device.
pub proof fn law_volume_names_come_from_the_device(info: DeviceView, other: DeviceView)
    ensures
        ({
            let manufacturer = match info.manufacturer {
                Some(name) => text::trim(name),
                None => Seq::empty(),
            };
            let product = match info.product {
                Some(name) => text::trim(name),
                None => Seq::empty(),
            };
            volume_view(info) == volume_text(
                manufacturer,
                product,
                text::lowercase(manufacturer).is_prefix_of(text::lowercase(product)),
            )
        }),
        info.manufacturer == other.manufacturer && info.product == other.product ==> volume_view(
            info,
        ) == volume_view(other),
{
    assert(text::trim(Seq::empty()) =~= Seq::empty());
}

/// The mount points tried for a volume stand in `/Volumes` under the volume's own name, and
/// then with the numbers 1, 2, and so on behind it.
pub proof fn law_mountpoints_carry_the_volume_name(volume_name: Seq<char>, number: nat)
    requires
        volume_name.len() > 0,
        volume_name[0] != '/',
    ensures
        mountpoint_candidate(volume_name, 0) == "/Volumes/"@ + volume_name,
        number > 0 ==> mountpoint_candidate(volume_name, number) == "/Volumes/"@ + volume_name
            + seq![' '] + text::decimal(number),
{
    reveal_strlit("/Volumes");
    reveal_strlit("/Volumes/");
    reveal_strlit("/");
    reveal_strlit(" ");
    assert(mountpoint_candidate(volume_name, 0) =~= "/Volumes/"@ + volume_name);
    if number > 0 {
        assert(mountpoint_candidate(volume_name, number) =~= "/Volumes/"@ + volume_name + seq![' ']
            + text::decimal(number));
    }
}

/// The mount points to clear are those where something is: each of them, and no other.
pub proof fn law_occupied_mountpoints_are_cleared(
    volume_name: Seq<char>,
    exists: Seq<bool>,
    count: nat,
    i: nat,
)
    requires
        volume_name.len() > 0,
        volume_name[0] != '/',
        i < count <= exists.len(),
    ensures
        occupied_mountpoints(volume_name, exists, count).contains(
            mountpoint_candidate(volume_name, i),
        ) <==> exists[i as int],
    decreases count,
{
    let place = mountpoint_candidate(volume_name, i);
    let shorter = occupied_mountpoints(volume_name, exists, (count - 1) as nat);
    let all = occupied_mountpoints(volume_name, exists, count);
    if i < count - 1 {
        law_occupied_mountpoints_are_cleared(volume_name, exists, (count - 1) as nat, i);
        law_mountpoints_distinct(volume_name, i, (count - 1) as nat);
        if shorter.contains(place) {
            let k = choose|k: int| 0 <= k < shorter.len() && shorter[k] == place;
            assert(all[k] == place);
        }
        if all.contains(place) {
            let k = choose|k: int| 0 <= k < all.len() && all[k] == place;
            assert(k < shorter.len());
            assert(shorter[k] == place);
        }
    } else {
        if exists[i as int] {
            assert(all[all.len() - 1] == place);
        } else {
            lemma_later_mountpoints_are_not_listed(volume_name, exists, (count - 1) as nat, i);
        }
    }
}

proof fn lemma_later_mountpoints_are_not_listed(
    volume_name: Seq<char>,
    exists: Seq<bool>,
    count: nat,
    i: nat,
)
    requires
        volume_name.len() > 0,
        volume_name[0] != '/',
        count <= i,
        count <= exists.len(),
    ensures
        !occupied_mountpoints(volume_name, exists, count).contains(
            mountpoint_candidate(volume_name, i),
        ),
    decreases count,
{
    if count > 0 {
        let place = mountpoint_candidate(volume_name, i);
        let shorter = occupied_mountpoints(volume_name, exists, (count - 1) as nat);
        let all = occupied_mountpoints(volume_name, exists, count);
        lemma_later_mountpoints_are_not_listed(volume_name, exists, (count - 1) as nat, i);
        law_mountpoints_distinct(volume_name, (count - 1) as nat, i);
        if all.contains(place) {
            let k = choose|k: int| 0 <= k < all.len() && all[k] == place;
            if k < shorter.len() {
                assert(shorter[k] == place);
            }
        }
    }
}

/// A volume is mounted read-only, without devices, set-user rights or programs, as a local
/// volume of this application, and the Finder shows it under its own name.
pub proof fn law_mounts_carry_their_options(volume_name: Seq<char>)
    ensures
        mount_option_views(volume_name).contains(MountFlagView::ReadOnly),
        mount_option_views(volume_name).contains(MountFlagView::NoDev),
        mount_option_views(volume_name).contains(MountFlagView::NoSuid),
        mount_option_views(volume_name).contains(MountFlagView::NoExec),
        mount_option_views(volume_name).contains(MountFlagView::NoAtime),
        mount_option_views(volume_name).contains(MountFlagView::FsName("MacMTP"@)),
        mount_option_views(volume_name).contains(MountFlagView::Subtype("mtp"@)),
        mount_option_views(volume_name).contains(
            MountFlagView::Custom("volname="@ + volume_name),
        ),
        mount_option_views(volume_name).contains(MountFlagView::Custom("local"@)),
        mount_option_views(volume_name).len() == 9,
{
    let options = mount_option_views(volume_name);
    assert(options[0] == MountFlagView::ReadOnly);
    assert(options[1] == MountFlagView::NoDev);
    assert(options[2] == MountFlagView::NoSuid);
    assert(options[3] == MountFlagView::NoExec);
    assert(options[4] == MountFlagView::NoAtime);
    assert(options[5] == MountFlagView::FsName("MacMTP"@));
    assert(options[6] == MountFlagView::Subtype("mtp"@));
    assert(options[7] == MountFlagView::Custom("volname="@ + volume_name));
    assert(options[8] == MountFlagView::Custom("local"@));
}

/// What the contracts say of a mount option is what it holds.
pub proof fn law_mount_options_show_their_fields(text: String)
    ensures
        MountFlag::ReadOnly.deep_view() == MountFlagView::ReadOnly,
        MountFlag::NoDev.deep_view() == MountFlagView::NoDev,
        MountFlag::NoSuid.deep_view() == MountFlagView::NoSuid,
        MountFlag::NoExec.deep_view() == MountFlagView::NoExec,
        MountFlag::NoAtime.deep_view() == MountFlagView::NoAtime,
        MountFlag::FsName(text).deep_view() == MountFlagView::FsName(text@),
        MountFlag::Subtype(text).deep_view() == MountFlagView::Subtype(text@),
        MountFlag::Custom(text).deep_view() == MountFlagView::Custom(text@),
{
}

/// Whatever a device is called, its volume is called `MacMTP - ` and its names, with an
/// underscore for each character that a path cannot carry.
pub proof fn law_volume_names_are_made_safe(
    manufacturer: Seq<char>,
    product: Seq<char>,
    branded: bool,
    at: int,
)
    ensures
        ({
            let both = manufacturer.len() > 0 && product.len() > 0 && !branded;
            let label = if both {
                manufacturer + seq![' '] + product
            } else if product.len() > 0 {
                product
            } else {
                manufacturer
            };
            let name = volume_text(manufacturer, product, branded);
            &&& "MacMTP - "@.is_prefix_of(name)
            &&& label.len() > 0 ==> name.len() == "MacMTP - "@.len() + label.len()
            &&& 0 <= at < label.len() ==> name["MacMTP - "@.len() + at] == if label[at] == '/'
                || label[at] == '\\' || label[at] == ':' || label[at] == '\0' {
                '_'
            } else {
                label[at]
            }
        }),
{
    reveal_strlit(" ");
    let label = device_label(manufacturer, product, branded);
    let name = volume_text(manufacturer, product, branded);
    let head = "MacMTP - "@;
    assert(head =~= name.subrange(0, head.len() as int));
    assert(" "@ =~= seq![' ']);
    util::law_sanitized_keeps_the_rest(label);
    if 0 <= at < label.len() {
        assert(name[head.len() + at] == util::sanitized(label)[at]);
    }
}

/// The mount points to clear come in the order in which they are tried.
pub proof fn law_occupied_mountpoints_come_in_order(
    volume_name: Seq<char>,
    exists: Seq<bool>,
    count: nat,
)
    requires
        count < exists.len(),
    ensures
        occupied_mountpoints(volume_name, exists, 0) == Seq::<Seq<char>>::empty(),
        exists[count as int] ==> occupied_mountpoints(volume_name, exists, count + 1)
            == occupied_mountpoints(volume_name, exists, count).push(
            mountpoint_candidate(volume_name, count),
        ),
        !exists[count as int] ==> occupied_mountpoints(volume_name, exists, count + 1)
            == occupied_mountpoints(volume_name, exists, count),
        MOUNTPOINT_COUNT == 100,
{
}

/// An installed macFUSE shows as a file system, as a framework, or as its library in one of the
/// two places where libraries are installed.
pub proof fn law_macfuse_shows_in_its_places()
    ensures
        macfuse_places().len() == 4,
        macfuse_places().contains("/Library/Filesystems/macfuse.fs"@),
        macfuse_places().contains("/Library/Frameworks/MacFUSE.framework"@),
        macfuse_places().contains("/usr/local/lib/libfuse.dylib"@),
        macfuse_places().contains("/opt/homebrew/lib/libfuse.dylib"@),
{
    let places = macfuse_places();
    assert(places[0] == "/Library/Filesystems/macfuse.fs"@);
    assert(places[1] == "/Library/Frameworks/MacFUSE.framework"@);
    assert(places[2] == "/usr/local/lib/libfuse.dylib"@);
    assert(places[3] == "/opt/homebrew/lib/libfuse.dylib"@);
}

} // verus!
