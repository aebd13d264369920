//! The drives of a host: which mounts are listed, what is recorded of each,
//! and how the scans of one call are merged without listing a path twice.

use crate::platform::{views, Platform};
use crate::sorting::{
    is_permutation, key_views, lemma_permutation_onto, lemma_stable_order_is_permutation, precedes,
    reorder, stable_order, SortKey, SortKeyView,
};
use crate::text::{
    chars_of, count_trailing, find_chars, has_substring, is_one_of,
    lemma_text_before_irreflexive, lemma_text_before_total, lemma_text_before_transitive,
    lowercase, same_text, slice_of, starts_with, text_before,
    to_lowercase, trailing, without_trailing, CharSet,
};
use vstd::hash_set::StringHashSet;
use vstd::prelude::*;

verus! {

/// The file-system types that have no storage behind them.
pub open spec fn virtual_types() -> Seq<Seq<char>> {
    seq![
        "tmpfs"@,
        "cgroup"@,
        "cgroup2"@,
        "sysfs"@,
        "proc"@,
        "devtmpfs"@,
        "securityfs"@,
        "debugfs"@,
        "configfs"@,
        "fusectl"@,
        "mqueue"@,
        "hugetlbfs"@,
        "devpts"@,
        "bpf"@,
        "tracefs"@,
        "pstore"@,
        "efivarfs"@,
        "squashfs"@,
        "overlay"@,
        "fuse.portal"@,
        "portal"@,
        "autofs"@,
        "ramfs"@,
        "rpc_pipefs"@,
    ]
}

/// Whether a text holds one of the virtual types, at its start or anywhere
/// else.
pub open spec fn has_virtual_type(text: Seq<char>) -> bool {
    exists|i: int|
        0 <= i < virtual_types().len() && has_substring(text, #[trigger] virtual_types()[i])
}

/// Whether a file-system type is virtual: its lowercase form holds one of
/// the virtual types.
pub open spec fn virtual_filesystem(file_system: Seq<char>) -> bool {
    has_virtual_type(lowercase(file_system))
}

/// Whether a text holds one of the virtual types.
pub fn holds_virtual_type(text: &str) -> (r: bool)
    ensures
        r == has_virtual_type(text@),
{
    let chars = chars_of(text);
    let types: [&str; 24] = [
        "tmpfs",
        "cgroup",
        "cgroup2",
        "sysfs",
        "proc",
        "devtmpfs",
        "securityfs",
        "debugfs",
        "configfs",
        "fusectl",
        "mqueue",
        "hugetlbfs",
        "devpts",
        "bpf",
        "tracefs",
        "pstore",
        "efivarfs",
        "squashfs",
        "overlay",
        "fuse.portal",
        "portal",
        "autofs",
        "ramfs",
        "rpc_pipefs",
    ];
    assert(views(types@) =~= virtual_types());
    let mut i: usize = 0;
    while i < 24
        invariant
            i <= 24,
            chars@ == text@,
            views(types@) == virtual_types(),
            forall|k: int| 0 <= k < i ==> !has_substring(chars@, #[trigger] virtual_types()[k]),
        decreases 24 - i,
    {
        assert(views(types@)[i as int] == types@[i as int]@);
        let pattern = chars_of(types[i]);
        if find_chars(&chars, &pattern).is_some() {
            return true;
        }
        i += 1;
    }
    false
}

/// Whether a file-system type is virtual.
pub fn is_virtual_filesystem(file_system: &str) -> (r: bool)
    ensures
        r == virtual_filesystem(file_system@),
{
    holds_virtual_type(to_lowercase(file_system).as_str())
}

/// The file-system types that are reached over a network.
pub open spec fn network_types() -> Seq<Seq<char>> {
    seq![
        "nfs"@,
        "nfs4"@,
        "cifs"@,
        "smbfs"@,
        "fuse.sshfs"@,
        "fuse.rclone"@,
        "fuse.gvfsd-fuse"@,
    ]
}

/// Whether a file-system type is one of the network types, without regard
/// to case.
pub open spec fn network_filesystem(file_system: Seq<char>) -> bool {
    network_types().contains(lowercase(file_system))
}

/// Whether a text is one of the network types.
pub fn holds_network_type(text: &str) -> (r: bool)
    ensures
        r == network_types().contains(text@),
{
    let chars = chars_of(text);
    let types: [&str; 7] = [
        "nfs",
        "nfs4",
        "cifs",
        "smbfs",
        "fuse.sshfs",
        "fuse.rclone",
        "fuse.gvfsd-fuse",
    ];
    assert(views(types@) =~= network_types());
    is_one_of(&chars, &types)
}

/// Whether a file-system type is one of the network types, without regard
/// to case.
pub fn is_network_filesystem(file_system: &str) -> (r: bool)
    ensures
        r == network_filesystem(file_system@),
{
    holds_network_type(to_lowercase(file_system).as_str())
}

/// Whether a mount point lies where users mount volumes.
pub open spec fn user_mount(mount_point: Seq<char>) -> bool {
    ||| "/media/"@.is_prefix_of(mount_point)
    ||| "/mnt/"@.is_prefix_of(mount_point)
    ||| "/run/media/"@.is_prefix_of(mount_point)
}

/// Whether a Linux host leaves a mount out of its drives: a virtual file
/// system, a device whose name is exactly `none`, a mount point under
/// `/dev/` other than `/dev/pts`, the root, and every mount that is neither
/// a user mount nor of a network type.
pub open spec fn skip_linux_mount(
    file_system: Seq<char>,
    name: Seq<char>,
    mount_point: Seq<char>,
) -> bool {
    ||| virtual_filesystem(file_system)
    ||| name == "none"@
    ||| ("/dev/"@.is_prefix_of(mount_point) && !"/dev/pts"@.is_prefix_of(mount_point))
    ||| mount_point == "/"@
    ||| !(user_mount(mount_point) || network_filesystem(file_system))
}

/// Whether a Linux host leaves a mount out of its drives.
pub fn should_skip_linux_mount(file_system: &str, name: &str, mount_point: &str) -> (r: bool)
    ensures
        r == skip_linux_mount(file_system@, name@, mount_point@),
{
    if is_virtual_filesystem(file_system) {
        return true;
    }
    if same_text(name, "none") {
        return true;
    }
    if starts_with(mount_point, "/dev/") && !starts_with(mount_point, "/dev/pts") {
        return true;
    }
    if same_text(mount_point, "/") {
        return true;
    }
    let is_user_mount = starts_with(mount_point, "/media/") || starts_with(mount_point, "/mnt/")
        || starts_with(mount_point, "/run/media/");
    if is_user_mount || is_network_filesystem(file_system) {
        return false;
    }
    true
}

/// Whether a macOS host leaves a mount out of its drives: the root and what
/// lies under `/System/Volumes/` or `/private/`.
pub open spec fn skip_macos_mount(mount_point: Seq<char>) -> bool {
    ||| mount_point == "/"@
    ||| "/System/Volumes/"@.is_prefix_of(mount_point)
    ||| "/private/"@.is_prefix_of(mount_point)
}

/// Whether a macOS host leaves a mount out of its drives.
pub fn should_skip_macos_mount(mount_point: &str) -> (r: bool)
    ensures
        r == skip_macos_mount(mount_point@),
{
    same_text(mount_point, "/") || starts_with(mount_point, "/System/Volumes/") || starts_with(
        mount_point,
        "/private/",
    )
}

/// The last component of a mount point: what stands between its last slash
/// and its end, slashes at the end not counted. A mount point made of
/// slashes only, or empty, is its own last component.
pub open spec fn last_component(mount_point: Seq<char>) -> Seq<char> {
    let stem = without_trailing(mount_point, CharSet::Only('/'));
    if stem.len() == 0 {
        mount_point
    } else {
        stem.skip(stem.len() - trailing(stem, CharSet::Except('/')))
    }
}

/// The last component of a mount point.
pub fn mount_point_last_component(mount_point: &str) -> (r: String)
    ensures
        r@ == last_component(mount_point@),
{
    let v = chars_of(mount_point);
    let slashes = count_trailing(&v, CharSet::Only('/'));
    if slashes == v.len() {
        return mount_point.to_owned();
    }
    let stem = mount_point.substring_char(0, v.len() - slashes);
    let w = chars_of(stem);
    let n = count_trailing(&w, CharSet::Except('/'));
    slice_of(stem, w.len() - n, w.len())
}

/// What is in use of a drive: its capacity less what is available, and
/// nothing where more is available than the capacity.
pub open spec fn used_of(total: u64, available: u64) -> u64 {
    if available <= total {
        (total - available) as u64
    } else {
        0
    }
}

/// The share of a drive that is in use, in percent, rounded to the nearest
/// whole number, halves upwards; zero for a drive without capacity.
pub open spec fn percent_of(used: u64, total: u64) -> int {
    if total == 0 {
        0
    } else {
        (200 * used + total) / (2 * total)
    }
}

/// The rounded percentage lies between 0 and 100 for every drive that uses
/// no more than its capacity.
pub proof fn lemma_percent_bounds(used: u64, total: u64)
    requires
        used <= total,
    ensures
        0 <= percent_of(used, total) <= 100,
{
    if total > 0 {
        let n = 200 * used + total;
        let d = 2 * total;
        assert(0 <= n / d <= 100) by (nonlinear_arith)
            requires
                0 <= n <= 100 * d + d / 2,
                d > 0,
        ;
    }
}

/// The rounded percentage differs from the exact one by no more than a half:
/// twice the capacity times the result is within one capacity of two hundred
/// times what is used.
pub proof fn lemma_percent_rounds(used: u64, total: u64)
    requires
        total > 0,
    ensures
        200 * used - total < 2 * total * percent_of(used, total) <= 200 * used + total,
{
    let n = 200 * used + total;
    let d = 2 * total;
    assert(n - d < d * (n / d) <= n) by (nonlinear_arith)
        requires
            d > 0,
            n >= 0,
    ;
}

/// What is in use of a drive and its share in percent.
pub fn usage(total: u64, available: u64) -> (r: (u64, u8))
    ensures
        r.0 == used_of(total, available),
        r.1 == percent_of(r.0, total),
        r.1 <= 100,
{
    let used: u64 = if available <= total {
        total - available
    } else {
        0
    };
    proof {
        lemma_percent_bounds(used, total);
    }
    if total == 0 {
        (used, 0)
    } else {
        let n: u128 = 200 * (used as u128) + (total as u128);
        let d: u128 = 2 * (total as u128);
        (used, (n / d) as u8)
    }
}

/// The physical medium behind a mount, as the host reports it.
#[derive(Clone, Copy, Debug, PartialEq, Eq, Structural)]
pub enum DiskKind {
    HDD,
    SSD,
    Unknown,
}

/// One row of the host's table of mounted file systems.
#[derive(Clone, Debug, PartialEq, Eq)]
pub struct DiskProbe {
    /// The device's name; on Windows and macOS the volume's label.
    pub name: String,
    pub mount_point: String,
    /// The mount point, normalized.
    pub path: String,
    pub file_system: String,
    pub kind: DiskKind,
    pub total_space: u64,
    pub available_space: u64,
    pub is_removable: bool,
    pub is_read_only: bool,
}

/// The mathematical form of a `DiskProbe`.
pub struct DiskProbeView {
    pub name: Seq<char>,
    pub mount_point: Seq<char>,
    pub path: Seq<char>,
    pub file_system: Seq<char>,
    pub kind: DiskKind,
    pub total_space: u64,
    pub available_space: u64,
    pub is_removable: bool,
    pub is_read_only: bool,
}

impl View for DiskProbe {
    type V = DiskProbeView;

    open spec fn view(&self) -> DiskProbeView {
        DiskProbeView {
            name: self.name@,
            mount_point: self.mount_point@,
            path: self.path@,
            file_system: self.file_system@,
            kind: self.kind,
            total_space: self.total_space,
            available_space: self.available_space,
            is_removable: self.is_removable,
            is_read_only: self.is_read_only,
        }
    }
}

/// What a stat of an entry of the network-volumes directory gave.
#[derive(Clone, Copy, Debug, PartialEq, Eq)]
pub struct VolumeMetadata {
    pub len: u64,
    pub is_dir: bool,
}

/// One entry of the directory under which macOS mounts network volumes.
#[derive(Clone, Debug, PartialEq, Eq)]
pub struct VolumeProbe {
    pub file_name: String,
    pub mount_point: String,
    /// The mount point, normalized.
    pub path: String,
    /// Whether the entry leads to a directory.
    pub is_dir: bool,
    /// The stat of the entry, where it could be read.
    pub metadata: Option<VolumeMetadata>,
}

/// The mathematical form of a `VolumeProbe`.
pub struct VolumeProbeView {
    pub file_name: Seq<char>,
    pub mount_point: Seq<char>,
    pub path: Seq<char>,
    pub is_dir: bool,
    pub metadata: Option<VolumeMetadata>,
}

impl View for VolumeProbe {
    type V = VolumeProbeView;

    open spec fn view(&self) -> VolumeProbeView {
        VolumeProbeView {
            file_name: self.file_name@,
            mount_point: self.mount_point@,
            path: self.path@,
            is_dir: self.is_dir,
            metadata: self.metadata,
        }
    }
}

/// What Windows reports of a volume: its label, its file system and its flags.
#[derive(Clone, Debug, PartialEq, Eq)]
pub struct VolumeInformation {
    pub label: String,
    pub file_system: String,
    pub flags: u32,
}

/// The mathematical form of a `VolumeInformation`.
pub struct VolumeInformationView {
    pub label: Seq<char>,
    pub file_system: Seq<char>,
    pub flags: u32,
}

impl View for VolumeInformation {
    type V = VolumeInformationView;

    open spec fn view(&self) -> VolumeInformationView {
        VolumeInformationView {
            label: self.label@,
            file_system: self.file_system@,
            flags: self.flags,
        }
    }
}

/// The capacity of a volume and what is free of it, in bytes.
#[derive(Clone, Copy, Debug, PartialEq, Eq)]
pub struct DiskSpace {
    pub total: u64,
    pub free: u64,
}

/// What was asked of Windows about one drive letter. The volume and the
/// space are absent where the query failed or was not made.
#[derive(Clone, Debug, PartialEq, Eq)]
pub struct RemoteDriveProbe {
    /// The root of the drive: its letter, a colon and a backslash.
    pub mount_point: String,
    /// The root, normalized.
    pub path: String,
    /// The kind of drive that the system reports for the root.
    pub drive_type: u32,
    pub volume: Option<VolumeInformation>,
    pub space: Option<DiskSpace>,
}

/// The mathematical form of a `RemoteDriveProbe`.
pub struct RemoteDriveProbeView {
    pub mount_point: Seq<char>,
    pub path: Seq<char>,
    pub drive_type: u32,
    pub volume: Option<VolumeInformationView>,
    pub space: Option<DiskSpace>,
}

impl View for RemoteDriveProbe {
    type V = RemoteDriveProbeView;

    open spec fn view(&self) -> RemoteDriveProbeView {
        RemoteDriveProbeView {
            mount_point: self.mount_point@,
            path: self.path@,
            drive_type: self.drive_type,
            volume: match self.volume {
                Some(volume) => Some(volume@),
                None => None,
            },
            space: self.space,
        }
    }
}

/// One drive of the host.
#[derive(Clone, Debug, PartialEq, Eq)]
pub struct DriveInfo {
    pub name: String,
    pub path: String,
    pub mount_point: String,
    pub file_system: String,
    /// `HDD`, `SSD`, `Network` or `Unknown`.
    pub drive_type: String,
    pub total_space: u64,
    pub available_space: u64,
    pub used_space: u64,
    /// What is in use, in percent of the capacity, rounded.
    pub percent_used: u8,
    pub is_removable: bool,
    pub is_read_only: bool,
    pub is_mounted: bool,
    pub device_path: String,
}

/// The mathematical form of a `DriveInfo`.
pub struct DriveInfoView {
    pub name: Seq<char>,
    pub path: Seq<char>,
    pub mount_point: Seq<char>,
    pub file_system: Seq<char>,
    pub drive_type: Seq<char>,
    pub total_space: u64,
    pub available_space: u64,
    pub used_space: u64,
    pub percent_used: u8,
    pub is_removable: bool,
    pub is_read_only: bool,
    pub is_mounted: bool,
    pub device_path: Seq<char>,
}

impl View for DriveInfo {
    type V = DriveInfoView;

    open spec fn view(&self) -> DriveInfoView {
        DriveInfoView {
            name: self.name@,
            path: self.path@,
            mount_point: self.mount_point@,
            file_system: self.file_system@,
            drive_type: self.drive_type@,
            total_space: self.total_space,
            available_space: self.available_space,
            used_space: self.used_space,
            percent_used: self.percent_used,
            is_removable: self.is_removable,
            is_read_only: self.is_read_only,
            is_mounted: self.is_mounted,
            device_path: self.device_path@,
        }
    }
}

impl DriveInfoView {
    /// What holds of every drive record: what is in use is the capacity less
    /// what is available, never negative, and the percentage is the rounded
    /// share of it, zero for a drive without capacity.
    pub open spec fn wf(self) -> bool {
        &&& self.used_space == used_of(self.total_space, self.available_space)
        &&& self.percent_used == percent_of(self.used_space, self.total_space)
    }
}

/// Every well-formed drive record uses no more than its capacity, and its
/// percentage lies between 0 and 100.
pub proof fn lemma_drive_usage_bounds(drive: DriveInfoView)
    requires
        drive.wf(),
    ensures
        drive.used_space <= drive.total_space,
        drive.available_space <= drive.total_space ==> drive.used_space == drive.total_space
            - drive.available_space,
        0 <= drive.percent_used <= 100,
{
    lemma_percent_bounds(drive.used_space, drive.total_space);
}

/// The file-system types whose drives are of type `Network`.
pub open spec fn network_drive_types() -> Seq<Seq<char>> {
    seq![
        "nfs"@,
        "nfs4"@,
        "cifs"@,
        "smbfs"@,
        "fuse.sshfs"@,
        "fuse.rclone"@,
        "fuse.gvfsd-fuse"@,
        "afpfs"@,
    ]
}

/// The type of a drive: `Network` where the file system, without regard to
/// case, is one of the network drive types; else the medium.
pub open spec fn drive_type_of(file_system: Seq<char>, kind: DiskKind) -> Seq<char> {
    if network_drive_types().contains(lowercase(file_system)) {
        "Network"@
    } else {
        match kind {
            DiskKind::HDD => "HDD"@,
            DiskKind::SSD => "SSD"@,
            DiskKind::Unknown => "Unknown"@,
        }
    }
}

/// Whether a text is one of the network drive types.
pub fn holds_network_drive_type(text: &str) -> (r: bool)
    ensures
        r == network_drive_types().contains(text@),
{
    let chars = chars_of(text);
    let types: [&str; 8] = [
        "nfs",
        "nfs4",
        "cifs",
        "smbfs",
        "fuse.sshfs",
        "fuse.rclone",
        "fuse.gvfsd-fuse",
        "afpfs",
    ];
    assert(views(types@) =~= network_drive_types());
    is_one_of(&chars, &types)
}

/// The type of a drive.
pub fn drive_type(file_system: &str, kind: DiskKind) -> (r: String)
    ensures
        r@ == drive_type_of(file_system@, kind),
{
    if holds_network_drive_type(to_lowercase(file_system).as_str()) {
        "Network".to_owned()
    } else {
        match kind {
            DiskKind::HDD => "HDD".to_owned(),
            DiskKind::SSD => "SSD".to_owned(),
            DiskKind::Unknown => "Unknown".to_owned(),
        }
    }
}

/// The name under which Windows shows a drive: its label, or `unlabelled`
/// where it has none, and in brackets its root without the closing
/// backslash, which is its letter and a colon.
pub open spec fn labelled_root(label: Seq<char>, unlabelled: Seq<char>, root: Seq<char>) -> Seq<
    char,
> {
    (if label.len() == 0 {
        unlabelled
    } else {
        label
    }) + " ("@ + without_trailing(root, CharSet::Only('\\')) + ")"@
}

/// The name under which Windows shows a drive.
fn windows_display_name(label: &str, unlabelled: &str, root: &str) -> (r: String)
    ensures
        r@ == labelled_root(label@, unlabelled@, root@),
{
    let v = chars_of(root);
    let slashes = count_trailing(&v, CharSet::Only('\\'));
    let stem = root.substring_char(0, v.len() - slashes);
    let mut name = if label.unicode_len() == 0 {
        unlabelled.to_owned()
    } else {
        label.to_owned()
    };
    name.append(" (");
    name.append(stem);
    name.append(")");
    name
}

/// The name under which a mounted drive is shown. Windows shows the label
/// and the root; Linux the last component of the mount point; macOS the
/// label, and for a drive without one the last component.
pub open spec fn display_name(platform: Platform, disk: DiskProbeView) -> Seq<char> {
    match platform {
        Platform::Windows => labelled_root(disk.name, "Local Disk"@, disk.mount_point),
        Platform::Linux => last_component(disk.mount_point),
        Platform::MacOs => if disk.name.len() == 0 {
            last_component(disk.mount_point)
        } else {
            disk.name
        },
    }
}

/// Whether a row of the mount table is listed: it has a capacity, and the
/// host's rules do not leave it out.
pub open spec fn disk_listed(platform: Platform, disk: DiskProbeView) -> bool {
    disk.total_space != 0 && match platform {
        Platform::Linux => !skip_linux_mount(disk.file_system, disk.name, disk.mount_point),
        Platform::MacOs => !skip_macos_mount(disk.mount_point),
        Platform::Windows => true,
    }
}

/// Whether a row of the mount table is listed.
pub fn is_disk_listed(platform: Platform, disk: &DiskProbe) -> (r: bool)
    ensures
        r == disk_listed(platform, disk@),
{
    disk.total_space != 0 && match platform {
        Platform::Linux => !should_skip_linux_mount(
            disk.file_system.as_str(),
            disk.name.as_str(),
            disk.mount_point.as_str(),
        ),
        Platform::MacOs => !should_skip_macos_mount(disk.mount_point.as_str()),
        Platform::Windows => true,
    }
}

/// The record of a row of the mount table.
pub open spec fn drive_of_disk(platform: Platform, disk: DiskProbeView) -> DriveInfoView {
    let used = used_of(disk.total_space, disk.available_space);
    DriveInfoView {
        name: display_name(platform, disk),
        path: disk.path,
        mount_point: disk.mount_point,
        file_system: disk.file_system,
        drive_type: drive_type_of(disk.file_system, disk.kind),
        total_space: disk.total_space,
        available_space: disk.available_space,
        used_space: used,
        percent_used: percent_of(used, disk.total_space) as u8,
        is_removable: disk.is_removable,
        is_read_only: disk.is_read_only,
        is_mounted: true,
        device_path: disk.name,
    }
}

/// The record of a row of the mount table.
pub fn drive_from_disk(platform: Platform, disk: &DiskProbe) -> (r: DriveInfo)
    ensures
        r@ == drive_of_disk(platform, disk@),
        r@.wf(),
{
    let name = match platform {
        Platform::Windows => windows_display_name(
            disk.name.as_str(),
            "Local Disk",
            disk.mount_point.as_str(),
        ),
        Platform::Linux => mount_point_last_component(disk.mount_point.as_str()),
        Platform::MacOs => if disk.name.as_str().unicode_len() == 0 {
            mount_point_last_component(disk.mount_point.as_str())
        } else {
            disk.name.clone()
        },
    };
    let (used_space, percent_used) = usage(disk.total_space, disk.available_space);
    DriveInfo {
        name,
        path: disk.path.clone(),
        mount_point: disk.mount_point.clone(),
        file_system: disk.file_system.clone(),
        drive_type: drive_type(disk.file_system.as_str(), disk.kind),
        total_space: disk.total_space,
        available_space: disk.available_space,
        used_space,
        percent_used,
        is_removable: disk.is_removable,
        is_read_only: disk.is_read_only,
        is_mounted: true,
        device_path: disk.name.clone(),
    }
}

/// Whether an entry of the network-volumes directory is listed: a directory
/// whose stat could be read.
pub open spec fn volume_listed(volume: VolumeProbeView) -> bool {
    volume.is_dir && match volume.metadata {
        Some(metadata) => !(metadata.len == 0 && !metadata.is_dir),
        None => false,
    }
}

/// The record of a network volume on macOS. Its capacity is not asked for:
/// the sizes are zero.
pub open spec fn drive_of_volume(volume: VolumeProbeView) -> DriveInfoView {
    DriveInfoView {
        name: volume.file_name,
        path: volume.path,
        mount_point: volume.mount_point,
        file_system: "Network"@,
        drive_type: "Network"@,
        total_space: 0,
        available_space: 0,
        used_space: 0,
        percent_used: 0,
        is_removable: false,
        is_read_only: false,
        is_mounted: true,
        device_path: Seq::empty(),
    }
}

/// The record of a network volume on macOS.
pub fn drive_from_volume(volume: &VolumeProbe) -> (r: DriveInfo)
    ensures
        r@ == drive_of_volume(volume@),
        r@.wf(),
{
    DriveInfo {
        name: volume.file_name.clone(),
        path: volume.path.clone(),
        mount_point: volume.mount_point.clone(),
        file_system: "Network".to_owned(),
        drive_type: "Network".to_owned(),
        total_space: 0,
        available_space: 0,
        used_space: 0,
        percent_used: 0,
        is_removable: false,
        is_read_only: false,
        is_mounted: true,
        device_path: String::new(),
    }
}

/// The kind that Windows reports for a drive that lies on a network.
pub const DRIVE_REMOTE: u32 = 4;

/// The volume flag that marks a volume as read-only.
pub const FILE_READ_ONLY_VOLUME: u32 = 0x00080000;

/// Whether a drive letter leads to a network drive.
pub fn is_remote_drive(drive_type: u32) -> (r: bool)
    ensures
        r == (drive_type == DRIVE_REMOTE),
{
    drive_type == DRIVE_REMOTE
}

/// Whether a remote drive is listed: its space could be asked for and it
/// has a capacity.
pub open spec fn remote_listed(remote: RemoteDriveProbeView) -> bool {
    match remote.space {
        Some(space) => space.total != 0,
        None => false,
    }
}

/// The record of a remote drive on Windows. Where the volume could not be
/// asked, it has no label, its file system is `Network` and it is writable.
pub open spec fn drive_of_remote(remote: RemoteDriveProbeView) -> DriveInfoView {
    let space = remote.space->0;
    let used = used_of(space.total, space.free);
    DriveInfoView {
        name: labelled_root(
            match remote.volume {
                Some(volume) => volume.label,
                None => Seq::empty(),
            },
            "Network Drive"@,
            remote.mount_point,
        ),
        path: remote.path,
        mount_point: remote.mount_point,
        file_system: match remote.volume {
            Some(volume) => volume.file_system,
            None => "Network"@,
        },
        drive_type: "Network"@,
        total_space: space.total,
        available_space: space.free,
        used_space: used,
        percent_used: percent_of(used, space.total) as u8,
        is_removable: false,
        is_read_only: match remote.volume {
            Some(volume) => volume.flags & FILE_READ_ONLY_VOLUME != 0,
            None => false,
        },
        is_mounted: true,
        device_path: remote.mount_point,
    }
}

/// The record of a remote drive on Windows, where it is listed.
pub fn drive_from_remote(remote: &RemoteDriveProbe) -> (r: Option<DriveInfo>)
    ensures
        r is Some <==> remote_listed(remote@),
        r matches Some(drive) ==> drive@ == drive_of_remote(remote@) && drive@.wf(),
{
    let space = match remote.space {
        Some(space) => space,
        None => {
            return None;
        },
    };
    if space.total == 0 {
        return None;
    }
    let (used_space, percent_used) = usage(space.total, space.free);
    proof {
        reveal_strlit("");
        assert(""@ =~= Seq::<char>::empty());
    }
    let (name, file_system, is_read_only) = match &remote.volume {
        Some(volume) => (
            windows_display_name(
                volume.label.as_str(),
                "Network Drive",
                remote.mount_point.as_str(),
            ),
            volume.file_system.clone(),
            volume.flags & FILE_READ_ONLY_VOLUME != 0,
        ),
        None => (
            windows_display_name("", "Network Drive", remote.mount_point.as_str()),
            "Network".to_owned(),
            false,
        ),
    };
    Some(
        DriveInfo {
            name,
            path: remote.path.clone(),
            mount_point: remote.mount_point.clone(),
            file_system,
            drive_type: "Network".to_owned(),
            total_space: space.total,
            available_space: space.free,
            used_space,
            percent_used,
            is_removable: false,
            is_read_only,
            is_mounted: true,
            device_path: remote.mount_point.clone(),
        },
    )
}

/// What the scans of one call have gathered: the drives found, in the order
/// in which they were found, and the normalized paths that are taken.
pub struct Scan {
    pub drives: Seq<DriveInfoView>,
    pub seen: Set<Seq<char>>,
}

impl Scan {
    /// The scan that has found nothing yet.
    pub open spec fn empty() -> Scan {
        Scan { drives: Seq::empty(), seen: Set::empty() }
    }

    /// The scan after one more drive.
    pub open spec fn with(self, drive: DriveInfoView) -> Scan {
        Scan { drives: self.drives.push(drive), seen: self.seen.insert(drive.path) }
    }

    /// Whether the path of every drive found is taken, no two drives found
    /// share a path, and every drive found is well formed.
    pub open spec fn wf(self) -> bool {
        &&& forall|i: int| 0 <= i < self.drives.len() ==> self.seen.contains(#[trigger] self.drives[i].path)
        &&& forall|i: int, j: int|
            0 <= i < j < self.drives.len() ==> #[trigger] self.drives[i].path
                != #[trigger] self.drives[j].path
        &&& forall|i: int| 0 <= i < self.drives.len() ==> (#[trigger] self.drives[i]).wf()
    }
}

/// The scan after one row of the mount table: the row adds a drive where it
/// is listed and its path is not taken.
pub open spec fn scan_disk(platform: Platform, scan: Scan, disk: DiskProbeView) -> Scan {
    if disk_listed(platform, disk) && !scan.seen.contains(disk.path) {
        scan.with(drive_of_disk(platform, disk))
    } else {
        scan
    }
}

/// The scan after the rows of the mount table, taken in order.
pub open spec fn scan_disks(platform: Platform, start: Scan, disks: Seq<DiskProbeView>) -> Scan
    decreases disks.len(),
{
    if disks.len() == 0 {
        start
    } else {
        scan_disk(platform, scan_disks(platform, start, disks.drop_last()), disks.last())
    }
}

/// The scan after one entry of the network-volumes directory: the entry
/// adds a drive where it is listed and its path is not taken.
pub open spec fn scan_volume(scan: Scan, volume: VolumeProbeView) -> Scan {
    if volume_listed(volume) && !scan.seen.contains(volume.path) {
        scan.with(drive_of_volume(volume))
    } else {
        scan
    }
}

/// The scan after the entries of the network-volumes directory, in order.
pub open spec fn scan_volumes(start: Scan, volumes: Seq<VolumeProbeView>) -> Scan
    decreases volumes.len(),
{
    if volumes.len() == 0 {
        start
    } else {
        scan_volume(scan_volumes(start, volumes.drop_last()), volumes.last())
    }
}

/// The scan after one drive letter. A letter that leads to no network drive,
/// or whose path is taken, changes nothing. Any other takes its path, and
/// adds a drive where it is listed.
pub open spec fn scan_remote(scan: Scan, remote: RemoteDriveProbeView) -> Scan {
    if remote.drive_type != DRIVE_REMOTE || scan.seen.contains(remote.path) {
        scan
    } else if remote_listed(remote) {
        scan.with(drive_of_remote(remote))
    } else {
        Scan { drives: scan.drives, seen: scan.seen.insert(remote.path) }
    }
}

/// The scan after the drive letters, in order.
pub open spec fn scan_remotes(start: Scan, remotes: Seq<RemoteDriveProbeView>) -> Scan
    decreases remotes.len(),
{
    if remotes.len() == 0 {
        start
    } else {
        scan_remote(scan_remotes(start, remotes.drop_last()), remotes.last())
    }
}

/// Everything that one call finds: the mount table first, then on macOS the
/// network volumes and on Windows the remote drive letters.
pub open spec fn found_drives(
    platform: Platform,
    disks: Seq<DiskProbeView>,
    volumes: Seq<VolumeProbeView>,
    remotes: Seq<RemoteDriveProbeView>,
) -> Scan {
    let mounted = scan_disks(platform, Scan::empty(), disks);
    match platform {
        Platform::Linux => mounted,
        Platform::MacOs => scan_volumes(mounted, volumes),
        Platform::Windows => scan_remotes(mounted, remotes),
    }
}

/// The record of a row of the mount table is well formed.
pub proof fn lemma_drive_of_disk_wf(platform: Platform, disk: DiskProbeView)
    ensures
        drive_of_disk(platform, disk).wf(),
{
    lemma_percent_bounds(used_of(disk.total_space, disk.available_space), disk.total_space);
}

/// The record of a remote drive is well formed.
pub proof fn lemma_drive_of_remote_wf(remote: RemoteDriveProbeView)
    requires
        remote.space is Some,
    ensures
        drive_of_remote(remote).wf(),
{
    let space = remote.space->0;
    lemma_percent_bounds(used_of(space.total, space.free), space.total);
}

/// A well-formed scan stays well formed with a well-formed drive whose path
/// was not taken.
proof fn lemma_with_wf(scan: Scan, drive: DriveInfoView)
    requires
        scan.wf(),
        drive.wf(),
        !scan.seen.contains(drive.path),
    ensures
        scan.with(drive).wf(),
{
    let next = scan.with(drive);
    assert forall|i: int, j: int| 0 <= i < j < next.drives.len() implies #[trigger] next.drives[i].path
        != #[trigger] next.drives[j].path by {
        if j == scan.drives.len() {
            assert(scan.seen.contains(scan.drives[i].path));
        }
    }
}

/// The rows of the mount table keep a scan well formed.
pub proof fn lemma_scan_disks_wf(platform: Platform, start: Scan, disks: Seq<DiskProbeView>)
    requires
        start.wf(),
    ensures
        scan_disks(platform, start, disks).wf(),
    decreases disks.len(),
{
    if disks.len() > 0 {
        lemma_scan_disks_wf(platform, start, disks.drop_last());
        let before = scan_disks(platform, start, disks.drop_last());
        let disk = disks.last();
        lemma_drive_of_disk_wf(platform, disk);
        if disk_listed(platform, disk) && !before.seen.contains(disk.path) {
            lemma_with_wf(before, drive_of_disk(platform, disk));
        }
    }
}

/// The network volumes keep a scan well formed.
pub proof fn lemma_scan_volumes_wf(start: Scan, volumes: Seq<VolumeProbeView>)
    requires
        start.wf(),
    ensures
        scan_volumes(start, volumes).wf(),
    decreases volumes.len(),
{
    if volumes.len() > 0 {
        lemma_scan_volumes_wf(start, volumes.drop_last());
        let before = scan_volumes(start, volumes.drop_last());
        let volume = volumes.last();
        if volume_listed(volume) && !before.seen.contains(volume.path) {
            lemma_with_wf(before, drive_of_volume(volume));
        }
    }
}

/// The drive letters keep a scan well formed.
pub proof fn lemma_scan_remotes_wf(start: Scan, remotes: Seq<RemoteDriveProbeView>)
    requires
        start.wf(),
    ensures
        scan_remotes(start, remotes).wf(),
    decreases remotes.len(),
{
    if remotes.len() > 0 {
        lemma_scan_remotes_wf(start, remotes.drop_last());
        let before = scan_remotes(start, remotes.drop_last());
        let remote = remotes.last();
        if remote.drive_type == DRIVE_REMOTE && !before.seen.contains(remote.path) && remote_listed(
            remote,
        ) {
            lemma_drive_of_remote_wf(remote);
            lemma_with_wf(before, drive_of_remote(remote));
        }
    }
}

/// What one call finds is well formed: no two drives share a normalized
/// path, and every record is well formed.
pub proof fn lemma_found_drives_wf(
    platform: Platform,
    disks: Seq<DiskProbeView>,
    volumes: Seq<VolumeProbeView>,
    remotes: Seq<RemoteDriveProbeView>,
)
    ensures
        found_drives(platform, disks, volumes, remotes).wf(),
{
    lemma_scan_disks_wf(platform, Scan::empty(), disks);
    let mounted = scan_disks(platform, Scan::empty(), disks);
    lemma_scan_volumes_wf(mounted, volumes);
    lemma_scan_remotes_wf(mounted, remotes);
}

/// The scan that a list of drives and a set of taken paths stand for.
pub open spec fn scan_of(drives: Seq<DriveInfo>, seen: Set<Seq<char>>) -> Scan {
    Scan { drives: views(drives), seen }
}

/// Adds a drive to the drives found and takes its path.
fn record(drives: &mut Vec<DriveInfo>, seen_paths: &mut StringHashSet, drive: DriveInfo)
    ensures
        scan_of(final(drives)@, final(seen_paths)@).drives == scan_of(
            old(drives)@,
            old(seen_paths)@,
        ).with(drive@).drives,
        scan_of(final(drives)@, final(seen_paths)@).seen == scan_of(
            old(drives)@,
            old(seen_paths)@,
        ).with(drive@).seen,
{
    seen_paths.insert(drive.path.clone());
    let ghost before = drives@;
    drives.push(drive);
    assert(views(drives@) =~= views(before).push(drive@));
}

/// Adds the listed rows of the mount table to the drives found, each under
/// its path unless that is taken.
pub fn append_mounted_disks(
    platform: Platform,
    drives: &mut Vec<DriveInfo>,
    seen_paths: &mut StringHashSet,
    disks: &Vec<DiskProbe>,
)
    ensures
        scan_of(final(drives)@, final(seen_paths)@).drives == scan_disks(
            platform,
            scan_of(old(drives)@, old(seen_paths)@),
            views(disks@),
        ).drives,
        scan_of(final(drives)@, final(seen_paths)@).seen == scan_disks(
            platform,
            scan_of(old(drives)@, old(seen_paths)@),
            views(disks@),
        ).seen,
{
    let ghost start = scan_of(drives@, seen_paths@);
    let ghost rows = views(disks@);
    assert(rows.take(0) =~= Seq::empty());
    let mut i: usize = 0;
    while i < disks.len()
        invariant
            i <= disks.len(),
            rows == views(disks@),
            scan_of(drives@, seen_paths@).drives == scan_disks(platform, start, rows.take(i as int)).drives,
            scan_of(drives@, seen_paths@).seen == scan_disks(platform, start, rows.take(i as int)).seen,
        decreases disks.len() - i,
    {
        assert(rows.take(i + 1).drop_last() == rows.take(i as int));
        assert(rows.take(i + 1).last() == disks@[i as int]@);
        let disk = &disks[i];
        if is_disk_listed(platform, disk) && !seen_paths.contains(disk.path.as_str()) {
            record(drives, seen_paths, drive_from_disk(platform, disk));
        }
        i += 1;
    }
    assert(rows.take(disks@.len() as int) == rows);
}

/// Adds the network volumes of macOS to the drives found: each entry of the
/// network-volumes directory that is a directory, whose stat could be read
/// and whose path is not taken.
pub fn append_macos_network_volumes(
    drives: &mut Vec<DriveInfo>,
    seen_paths: &mut StringHashSet,
    volumes: &Vec<VolumeProbe>,
)
    ensures
        scan_of(final(drives)@, final(seen_paths)@).drives == scan_volumes(
            scan_of(old(drives)@, old(seen_paths)@),
            views(volumes@),
        ).drives,
        scan_of(final(drives)@, final(seen_paths)@).seen == scan_volumes(
            scan_of(old(drives)@, old(seen_paths)@),
            views(volumes@),
        ).seen,
{
    let ghost start = scan_of(drives@, seen_paths@);
    let ghost rows = views(volumes@);
    assert(rows.take(0) =~= Seq::empty());
    let mut i: usize = 0;
    while i < volumes.len()
        invariant
            i <= volumes.len(),
            rows == views(volumes@),
            scan_of(drives@, seen_paths@).drives == scan_volumes(start, rows.take(i as int)).drives,
            scan_of(drives@, seen_paths@).seen == scan_volumes(start, rows.take(i as int)).seen,
        decreases volumes.len() - i,
    {
        assert(rows.take(i + 1).drop_last() == rows.take(i as int));
        assert(rows.take(i + 1).last() == volumes@[i as int]@);
        let volume = &volumes[i];
        let listed = volume.is_dir && match volume.metadata {
            Some(metadata) => !(metadata.len == 0 && !metadata.is_dir),
            None => false,
        };
        if listed && !seen_paths.contains(volume.path.as_str()) {
            record(drives, seen_paths, drive_from_volume(volume));
        }
        i += 1;
    }
    assert(rows.take(volumes@.len() as int) == rows);
}

/// Adds the remote drives of Windows to the drives found. A drive letter
/// that leads to a network drive takes its path, unless that is taken, and
/// is listed where its space could be asked for and it has a capacity.
pub fn append_windows_network_drives(
    drives: &mut Vec<DriveInfo>,
    seen_paths: &mut StringHashSet,
    remotes: &Vec<RemoteDriveProbe>,
)
    ensures
        scan_of(final(drives)@, final(seen_paths)@).drives == scan_remotes(
            scan_of(old(drives)@, old(seen_paths)@),
            views(remotes@),
        ).drives,
        scan_of(final(drives)@, final(seen_paths)@).seen == scan_remotes(
            scan_of(old(drives)@, old(seen_paths)@),
            views(remotes@),
        ).seen,
{
    let ghost start = scan_of(drives@, seen_paths@);
    let ghost rows = views(remotes@);
    assert(rows.take(0) =~= Seq::empty());
    let mut i: usize = 0;
    while i < remotes.len()
        invariant
            i <= remotes.len(),
            rows == views(remotes@),
            scan_of(drives@, seen_paths@).drives == scan_remotes(start, rows.take(i as int)).drives,
            scan_of(drives@, seen_paths@).seen == scan_remotes(start, rows.take(i as int)).seen,
        decreases remotes.len() - i,
    {
        assert(rows.take(i + 1).drop_last() == rows.take(i as int));
        assert(rows.take(i + 1).last() == remotes@[i as int]@);
        let remote = &remotes[i];
        if is_remote_drive(remote.drive_type) && !seen_paths.contains(remote.path.as_str()) {
            match drive_from_remote(remote) {
                Some(drive) => {
                    record(drives, seen_paths, drive);
                },
                None => {
                    seen_paths.insert(remote.path.clone());
                },
            }
        }
        i += 1;
    }
    assert(rows.take(remotes@.len() as int) == rows);
}

/// Whether the paths of the drives ascend strictly, in the order of strings.
pub open spec fn paths_ascend(drives: Seq<DriveInfoView>) -> bool {
    forall|i: int, j: int|
        0 <= i < j < drives.len() ==> text_before(
            #[trigger] drives[i].path,
            #[trigger] drives[j].path,
        )
}

/// Whether `listing` holds the drives of `found`, each once, in the order
/// that `order` gives.
pub open spec fn arranges(
    order: Seq<usize>,
    listing: Seq<DriveInfoView>,
    found: Seq<DriveInfoView>,
) -> bool {
    &&& is_permutation(order, found.len() as int)
    &&& listing.len() == found.len()
    &&& forall|i: int| 0 <= i < listing.len() ==> listing[i] == found[#[trigger] order[i] as int]
}

/// Whether `listing` is the listing of the drives found: the same drives,
/// each once, with strictly ascending paths.
pub open spec fn is_listing_of(listing: Seq<DriveInfoView>, found: Seq<DriveInfoView>) -> bool {
    &&& paths_ascend(listing)
    &&& exists|order: Seq<usize>| arranges(order, listing, found)
}

/// No two drives of a listing with ascending paths share a normalized path.
pub proof fn lemma_listing_paths_unique(listing: Seq<DriveInfoView>)
    requires
        paths_ascend(listing),
    ensures
        forall|i: int, j: int|
            0 <= i < listing.len() && 0 <= j < listing.len() && i != j ==> #[trigger] listing[i].path
                != #[trigger] listing[j].path,
{
    assert forall|i: int, j: int|
        0 <= i < listing.len() && 0 <= j < listing.len() && i != j implies #[trigger] listing[i].path
        != #[trigger] listing[j].path by {
        lemma_text_before_irreflexive(listing[i].path);
        if i < j {
            assert(text_before(listing[i].path, listing[j].path));
        } else {
            assert(text_before(listing[j].path, listing[i].path));
        }
    }
}

/// Two listings of the same drives agree at every place.
proof fn lemma_listings_agree_at(
    found: Seq<DriveInfoView>,
    first: Seq<DriveInfoView>,
    first_order: Seq<usize>,
    second: Seq<DriveInfoView>,
    second_order: Seq<usize>,
    i: int,
)
    requires
        paths_ascend(first),
        paths_ascend(second),
        arranges(first_order, first, found),
        arranges(second_order, second, found),
        0 <= i < found.len(),
    ensures
        first[i] == second[i],
    decreases i,
{
    let n = found.len() as int;
    lemma_permutation_onto(second_order, n, first_order[i] as int);
    let j = choose|j: int| 0 <= j < n && #[trigger] second_order[j] == first_order[i];
    assert(second[j] == first[i]);
    lemma_permutation_onto(first_order, n, second_order[i] as int);
    let k = choose|k: int| 0 <= k < n && #[trigger] first_order[k] == second_order[i];
    assert(first[k] == second[i]);
    lemma_text_before_irreflexive(first[i].path);
    lemma_text_before_irreflexive(second[i].path);
    if j < i {
        lemma_listings_agree_at(found, first, first_order, second, second_order, j);
        assert(text_before(first[j].path, first[i].path));
    } else if k < i {
        lemma_listings_agree_at(found, first, first_order, second, second_order, k);
        assert(text_before(second[k].path, second[i].path));
    } else if j > i && k > i {
        assert(text_before(second[i].path, second[j].path));
        assert(text_before(first[i].path, first[k].path));
        lemma_text_before_transitive(second[i].path, first[i].path, second[i].path);
    }
}

/// Two listings of the same drives are the same listing: the same records
/// in the same order, and so the same normalized paths.
pub proof fn lemma_listing_determined(
    found: Seq<DriveInfoView>,
    first: Seq<DriveInfoView>,
    second: Seq<DriveInfoView>,
)
    requires
        is_listing_of(first, found),
        is_listing_of(second, found),
    ensures
        first == second,
{
    let first_order = choose|order: Seq<usize>| arranges(order, first, found);
    let second_order = choose|order: Seq<usize>| arranges(order, second, found);
    assert forall|i: int| 0 <= i < first.len() implies first[i] == second[i] by {
        lemma_listings_agree_at(found, first, first_order, second, second_order, i);
    }
    assert(first =~= second);
}

/// The normalized paths of the drives, as a set.
pub open spec fn drive_paths(drives: Seq<DriveInfoView>) -> Set<Seq<char>> {
    Set::new(|path: Seq<char>| exists|i: int| 0 <= i < drives.len() && #[trigger] drives[i].path == path)
}

/// The normalized paths of the rows of a mount table that are listed.
pub open spec fn listed_disk_paths(platform: Platform, disks: Seq<DiskProbeView>) -> Set<Seq<char>> {
    Set::new(
        |path: Seq<char>|
            exists|i: int|
                0 <= i < disks.len() && disk_listed(platform, #[trigger] disks[i]) && disks[i].path
                    == path,
    )
}

/// The normalized paths of the entries of the network-volumes directory
/// that are listed.
pub open spec fn listed_volume_paths(volumes: Seq<VolumeProbeView>) -> Set<Seq<char>> {
    Set::new(
        |path: Seq<char>|
            exists|i: int|
                0 <= i < volumes.len() && volume_listed(#[trigger] volumes[i]) && volumes[i].path
                    == path,
    )
}

/// Whether the paths taken are exactly those of the drives found.
pub open spec fn paths_exact(scan: Scan) -> bool {
    scan.seen =~= drive_paths(scan.drives)
}

/// One more drive adds its path to the paths of the drives.
proof fn lemma_with_paths(scan: Scan, drive: DriveInfoView)
    requires
        paths_exact(scan),
    ensures
        paths_exact(scan.with(drive)),
        scan.with(drive).seen == scan.seen.insert(drive.path),
{
    let next = scan.with(drive);
    assert forall|path: Seq<char>| next.seen.contains(path) <==> drive_paths(next.drives).contains(
        path,
    ) by {
        if drive_paths(next.drives).contains(path) {
            let i = choose|i: int| 0 <= i < next.drives.len() && #[trigger] next.drives[i].path == path;
            if i < scan.drives.len() {
                assert(scan.drives[i].path == path);
                assert(drive_paths(scan.drives).contains(path));
            }
        }
        if scan.seen.contains(path) {
            assert(drive_paths(scan.drives).contains(path));
            let i = choose|i: int| 0 <= i < scan.drives.len() && #[trigger] scan.drives[i].path == path;
            assert(next.drives[i].path == path);
        }
        if path == drive.path {
            assert(next.drives[scan.drives.len() as int].path == path);
        }
    }
}

/// After the rows of a mount table the paths taken are those taken before
/// and those of the rows that are listed, whatever the order of the rows.
pub proof fn lemma_scan_disks_paths(platform: Platform, start: Scan, disks: Seq<DiskProbeView>)
    requires
        paths_exact(start),
    ensures
        paths_exact(scan_disks(platform, start, disks)),
        scan_disks(platform, start, disks).seen =~= start.seen.union(
            listed_disk_paths(platform, disks),
        ),
    decreases disks.len(),
{
    if disks.len() > 0 {
        let rest = disks.drop_last();
        let disk = disks.last();
        lemma_scan_disks_paths(platform, start, rest);
        let before = scan_disks(platform, start, rest);
        let after = scan_disks(platform, start, disks);
        if disk_listed(platform, disk) && !before.seen.contains(disk.path) {
            lemma_with_paths(before, drive_of_disk(platform, disk));
        }
        assert forall|path: Seq<char>| after.seen.contains(path) <==> start.seen.union(
            listed_disk_paths(platform, disks),
        ).contains(path) by {
            if listed_disk_paths(platform, disks).contains(path) {
                let i = choose|i: int|
                    0 <= i < disks.len() && disk_listed(platform, #[trigger] disks[i]) && disks[i].path
                        == path;
                if i < rest.len() {
                    assert(rest[i] == disks[i]);
                    assert(listed_disk_paths(platform, rest).contains(path));
                }
            }
            if listed_disk_paths(platform, rest).contains(path) {
                let i = choose|i: int|
                    0 <= i < rest.len() && disk_listed(platform, #[trigger] rest[i]) && rest[i].path
                        == path;
                assert(disks[i] == rest[i]);
            }
            if disk_listed(platform, disk) && disk.path == path {
                assert(disks[disks.len() - 1] == disk);
            }
        }
    } else {
        assert(listed_disk_paths(platform, disks) =~= Set::empty());
    }
}

/// After the entries of the network-volumes directory the paths taken are
/// those taken before and those of the entries that are listed, whatever
/// the order of the entries.
pub proof fn lemma_scan_volumes_paths(start: Scan, volumes: Seq<VolumeProbeView>)
    requires
        paths_exact(start),
    ensures
        paths_exact(scan_volumes(start, volumes)),
        scan_volumes(start, volumes).seen =~= start.seen.union(listed_volume_paths(volumes)),
    decreases volumes.len(),
{
    if volumes.len() > 0 {
        let rest = volumes.drop_last();
        let volume = volumes.last();
        lemma_scan_volumes_paths(start, rest);
        let before = scan_volumes(start, rest);
        let after = scan_volumes(start, volumes);
        if volume_listed(volume) && !before.seen.contains(volume.path) {
            lemma_with_paths(before, drive_of_volume(volume));
        }
        assert forall|path: Seq<char>| after.seen.contains(path) <==> start.seen.union(
            listed_volume_paths(volumes),
        ).contains(path) by {
            if listed_volume_paths(volumes).contains(path) {
                let i = choose|i: int|
                    0 <= i < volumes.len() && volume_listed(#[trigger] volumes[i]) && volumes[i].path
                        == path;
                if i < rest.len() {
                    assert(rest[i] == volumes[i]);
                    assert(listed_volume_paths(rest).contains(path));
                }
            }
            if listed_volume_paths(rest).contains(path) {
                let i = choose|i: int|
                    0 <= i < rest.len() && volume_listed(#[trigger] rest[i]) && rest[i].path == path;
                assert(volumes[i] == rest[i]);
            }
            if volume_listed(volume) && volume.path == path {
                assert(volumes[volumes.len() - 1] == volume);
            }
        }
    } else {
        assert(listed_volume_paths(volumes) =~= Set::empty());
    }
}

/// On Linux and macOS the normalized paths that a call finds are those of
/// the rows and entries that are listed: they depend on which rows the
/// tables hold, not on their order, and two calls on the same state find the
/// same paths.
pub proof fn lemma_found_paths(
    platform: Platform,
    disks: Seq<DiskProbeView>,
    volumes: Seq<VolumeProbeView>,
    remotes: Seq<RemoteDriveProbeView>,
)
    requires
        platform != Platform::Windows,
    ensures
        drive_paths(found_drives(platform, disks, volumes, remotes).drives) =~= (if platform
            == Platform::MacOs {
            listed_disk_paths(platform, disks).union(listed_volume_paths(volumes))
        } else {
            listed_disk_paths(platform, disks)
        }),
{
    assert(drive_paths(Scan::empty().drives) =~= Set::empty());
    lemma_scan_disks_paths(platform, Scan::empty(), disks);
    let mounted = scan_disks(platform, Scan::empty(), disks);
    lemma_scan_volumes_paths(mounted, volumes);
}

/// A listing holds the paths of the drives found, no more and no fewer.
pub proof fn lemma_listing_paths(listing: Seq<DriveInfoView>, found: Seq<DriveInfoView>)
    requires
        is_listing_of(listing, found),
    ensures
        drive_paths(listing) =~= drive_paths(found),
{
    let order = choose|order: Seq<usize>| arranges(order, listing, found);
    assert forall|path: Seq<char>| drive_paths(listing).contains(path) <==> drive_paths(
        found,
    ).contains(path) by {
        if drive_paths(listing).contains(path) {
            let i = choose|i: int| 0 <= i < listing.len() && #[trigger] listing[i].path == path;
            assert(listing[i] == found[order[i] as int]);
        }
        if drive_paths(found).contains(path) {
            let k = choose|k: int| 0 <= k < found.len() && #[trigger] found[k].path == path;
            lemma_permutation_onto(order, found.len() as int, k);
            let i = choose|i: int| 0 <= i < found.len() && #[trigger] order[i] == k;
            assert(listing[i] == found[k]);
            assert(listing[i].path == path);
        }
    }
}

/// The keys by which the drives are ordered: their normalized paths.
fn path_keys(drives: &Vec<DriveInfo>) -> (keys: Vec<SortKey>)
    ensures
        keys@.len() == drives@.len(),
        forall|k: int|
            0 <= k < keys@.len() ==> (#[trigger] keys@[k])@ == (SortKeyView {
                rank: 0,
                text: drives@[k].path@,
            }),
{
    let mut keys: Vec<SortKey> = Vec::new();
    let mut i: usize = 0;
    while i < drives.len()
        invariant
            i <= drives.len(),
            keys@.len() == i,
            forall|k: int|
                0 <= k < i ==> (#[trigger] keys@[k])@ == (SortKeyView {
                    rank: 0,
                    text: drives@[k].path@,
                }),
        decreases drives.len() - i,
    {
        keys.push(SortKey { rank: 0, text: chars_of(drives[i].path.as_str()) });
        i += 1;
    }
    keys
}

/// The drives of the host.
///
/// `disks` is the host's table of mounted file systems; `volumes` holds the
/// entries of the network-volumes directory and is read on macOS only;
/// `remotes` holds what was asked about the drive letters and is read on
/// Windows only. The result lists every drive found once, with strictly
/// ascending normalized paths, and every record is well formed. The call
/// never fails.
pub fn get_system_drives(
    platform: Platform,
    disks: &Vec<DiskProbe>,
    volumes: &Vec<VolumeProbe>,
    remotes: &Vec<RemoteDriveProbe>,
) -> (r: Result<Vec<DriveInfo>, String>)
    ensures
        r is Ok,
        is_listing_of(
            views(r->Ok_0@),
            found_drives(platform, views(disks@), views(volumes@), views(remotes@)).drives,
        ),
        forall|i: int| 0 <= i < r->Ok_0@.len() ==> (#[trigger] views(r->Ok_0@)[i]).wf(),
{
    let mut drives: Vec<DriveInfo> = Vec::new();
    let mut seen_paths = StringHashSet::new();
    assert(scan_of(drives@, seen_paths@).drives =~= Scan::empty().drives);
    assert(scan_of(drives@, seen_paths@).seen =~= Scan::empty().seen);
    append_mounted_disks(platform, &mut drives, &mut seen_paths, disks);
    match platform {
        Platform::Linux => {},
        Platform::MacOs => {
            append_macos_network_volumes(&mut drives, &mut seen_paths, volumes);
        },
        Platform::Windows => {
            append_windows_network_drives(&mut drives, &mut seen_paths, remotes);
        },
    }
    let ghost scan = found_drives(platform, views(disks@), views(volumes@), views(remotes@));
    let ghost found = scan.drives;
    assert(views(drives@) == found);
    proof {
        lemma_found_drives_wf(platform, views(disks@), views(volumes@), views(remotes@));
    }
    let keys = path_keys(&drives);
    let order = stable_order(&keys);
    let ghost ks = key_views(keys@);
    proof {
        lemma_stable_order_is_permutation(ks, order@);
    }
    let ghost items = drives@;
    let sorted = reorder(drives, &order);
    proof {
        let listing = views(sorted@);
        assert forall|i: int| 0 <= i < listing.len() implies listing[i] == found[#[trigger] order@[i] as int] by {
            assert(sorted@[i] == items[order@[i] as int]);
        }
        assert(arranges(order@, listing, found));
        assert forall|i: int, j: int| 0 <= i < j < listing.len() implies text_before(
            #[trigger] listing[i].path,
            #[trigger] listing[j].path,
        ) by {
            let x = order@[i] as int;
            let y = order@[j] as int;
            assert(precedes(ks, x, y));
            assert(ks[x] == keys@[x]@ && ks[y] == keys@[y]@);
            assert(x != y);
            lemma_text_before_total(found[x].path, found[y].path);
            if x < y {
                assert(found[x].path != found[y].path);
            } else {
                assert(found[y].path != found[x].path);
            }
        }
        assert forall|i: int| 0 <= i < sorted@.len() implies (#[trigger] views(sorted@)[i]).wf() by {
            assert(listing[i] == found[order@[i] as int]);
        }
    }
    Ok(sorted)
}

} // verus!
