use dir_reader::drives::{
    append_macos_network_volumes, append_mounted_disks, append_windows_network_drives,
    drive_from_disk, drive_type, get_system_drives, holds_network_drive_type, holds_network_type, holds_virtual_type,
    is_network_filesystem,
    is_remote_drive,
    is_virtual_filesystem, mount_point_last_component, should_skip_linux_mount,
    should_skip_macos_mount, usage, DiskKind, DiskProbe, DiskSpace, DriveInfo, RemoteDriveProbe,
    VolumeInformation, VolumeMetadata, VolumeProbe,
};
use dir_reader::platform::Platform;
use dir_reader::text::text_hash_set;

fn disk(name: &str, mount_point: &str, file_system: &str, total: u64, available: u64) -> DiskProbe {
    DiskProbe {
        name: name.to_string(),
        mount_point: mount_point.to_string(),
        path: mount_point.replace('\\', "/"),
        file_system: file_system.to_string(),
        kind: DiskKind::SSD,
        total_space: total,
        available_space: available,
        is_removable: false,
        is_read_only: false,
    }
}

fn volume(name: &str) -> VolumeProbe {
    VolumeProbe {
        file_name: name.to_string(),
        mount_point: format!("/Volumes/{}", name),
        path: format!("/Volumes/{}", name),
        is_dir: true,
        metadata: Some(VolumeMetadata { len: 96, is_dir: true }),
    }
}

fn remote(letter: char, total: u64, free: u64) -> RemoteDriveProbe {
    RemoteDriveProbe {
        mount_point: format!("{}:\\", letter),
        path: format!("{}:/", letter),
        drive_type: 4,
        volume: Some(VolumeInformation {
            label: "Share".to_string(),
            file_system: "NTFS".to_string(),
            flags: 0,
        }),
        space: Some(DiskSpace { total, free }),
    }
}

fn paths(drives: &[DriveInfo]) -> Vec<String> {
    drives.iter().map(|drive| drive.path.clone()).collect()
}

fn list(platform: Platform, disks: Vec<DiskProbe>) -> Vec<DriveInfo> {
    get_system_drives(platform, &disks, &Vec::new(), &Vec::new()).unwrap()
}

#[test]
fn virtual_file_systems() {
    for fs in [
        "tmpfs", "cgroup", "cgroup2", "sysfs", "proc", "devtmpfs", "securityfs", "debugfs",
        "configfs", "fusectl", "mqueue", "hugetlbfs", "devpts", "bpf", "tracefs", "pstore",
        "efivarfs", "squashfs", "overlay", "fuse.portal", "portal", "autofs", "ramfs",
        "rpc_pipefs",
    ] {
        assert!(is_virtual_filesystem(fs), "{}", fs);
    }
    assert!(is_virtual_filesystem("TMPFS"));
    assert!(is_virtual_filesystem("overlayfs"));
    assert!(is_virtual_filesystem("fuse.overlay"));
    assert!(is_virtual_filesystem("xprocx"));
}

#[test]
fn real_file_systems_are_not_virtual() {
    for fs in ["ext4", "btrfs", "xfs", "vfat", "ntfs", "nfs4", "cifs", "fuse.sshfs", "", "tmpf"] {
        assert!(!is_virtual_filesystem(fs), "{}", fs);
    }
}

#[test]
fn network_file_systems() {
    for fs in ["nfs", "nfs4", "cifs", "smbfs", "fuse.sshfs", "fuse.rclone", "fuse.gvfsd-fuse"] {
        assert!(is_network_filesystem(fs), "{}", fs);
    }
    assert!(is_network_filesystem("NFS"));
    assert!(is_network_filesystem("Cifs"));
    for fs in ["nfs3", "afpfs", "ext4", "fuse", "", "xnfs", "nfs "] {
        assert!(!is_network_filesystem(fs), "{}", fs);
    }
}

#[test]
fn linux_mounts_that_are_listed() {
    assert!(!should_skip_linux_mount("ext4", "/dev/sdb1", "/media/user/USB"));
    assert!(!should_skip_linux_mount("vfat", "/dev/sdc1", "/mnt/stick"));
    assert!(!should_skip_linux_mount("ntfs", "/dev/sdd1", "/run/media/user/Data"));
    assert!(!should_skip_linux_mount("nfs4", "server:/export", "/srv/data"));
    assert!(!should_skip_linux_mount("CIFS", "//nas/share", "/home/user/nas"));
    assert!(!should_skip_linux_mount("nfs", "server:/x", "/dev/pts"));
}

#[test]
fn only_the_exact_name_none_is_left_out() {
    for name in ["NONE", "None", "none ", " none", "nonesuch", "no", ""] {
        assert!(!should_skip_linux_mount("ext4", name, "/mnt/x"), "{:?}", name);
    }
}

#[test]
fn texts_that_are_network_types() {
    for text in ["nfs", "nfs4", "cifs", "smbfs", "fuse.sshfs", "fuse.rclone", "fuse.gvfsd-fuse"] {
        assert!(holds_network_type(text), "{}", text);
        assert!(holds_network_drive_type(text), "{}", text);
    }
    assert!(holds_network_drive_type("afpfs"));
    assert!(!holds_network_type("afpfs"));
    for text in ["NFS", "nfs3", "", "ext4", " nfs"] {
        assert!(!holds_network_type(text), "{:?}", text);
        assert!(!holds_network_drive_type(text), "{:?}", text);
    }
}

#[test]
fn texts_that_hold_a_virtual_type() {
    assert!(holds_virtual_type("tmpfs"));
    assert!(holds_virtual_type("fuse.overlayfs"));
    assert!(holds_virtual_type("xbpfx"));
    assert!(!holds_virtual_type("TMPFS"));
    assert!(!holds_virtual_type("ext4"));
    assert!(!holds_virtual_type(""));
}

#[test]
fn linux_mounts_that_are_left_out() {
    assert!(should_skip_linux_mount("tmpfs", "tmpfs", "/media/ram"));
    assert!(should_skip_linux_mount("ext4", "none", "/mnt/x"));
    assert!(should_skip_linux_mount("nfs", "none", "/srv/x"));
    assert!(should_skip_linux_mount("nfs", "server:/x", "/dev/shm"));
    assert!(should_skip_linux_mount("nfs", "server:/x", "/"));
    assert!(should_skip_linux_mount("ext4", "/dev/sda1", "/"));
    assert!(should_skip_linux_mount("ext4", "/dev/sda2", "/home"));
    assert!(should_skip_linux_mount("ext4", "/dev/sda3", "/mnt"));
    assert!(should_skip_linux_mount("ext4", "/dev/sda3", "/media"));
    assert!(should_skip_linux_mount("ext4", "/dev/sda3", "/boot/efi"));
}

#[test]
fn macos_mounts() {
    assert!(should_skip_macos_mount("/"));
    assert!(should_skip_macos_mount("/System/Volumes/Data"));
    assert!(should_skip_macos_mount("/private/var/vm"));
    assert!(!should_skip_macos_mount("/Volumes/Backup"));
    assert!(!should_skip_macos_mount("/System/Volumes"));
    assert!(!should_skip_macos_mount("/private"));
    assert!(!should_skip_macos_mount(""));
}

#[test]
fn last_component_of_a_mount_point() {
    assert_eq!(mount_point_last_component("/media/user/USB"), "USB");
    assert_eq!(mount_point_last_component("/mnt/data/"), "data");
    assert_eq!(mount_point_last_component("/mnt/data///"), "data");
    assert_eq!(mount_point_last_component("plain"), "plain");
    assert_eq!(mount_point_last_component("/"), "/");
    assert_eq!(mount_point_last_component("///"), "///");
    assert_eq!(mount_point_last_component(""), "");
    assert_eq!(mount_point_last_component("/mnt/My Disk"), "My Disk");
}

#[test]
fn used_space_and_percentage() {
    assert_eq!(usage(1000, 250), (750, 75));
    assert_eq!(usage(1000, 1000), (0, 0));
    assert_eq!(usage(1000, 0), (1000, 100));
    assert_eq!(usage(3, 2), (1, 33));
    assert_eq!(usage(3, 1), (2, 67));
    assert_eq!(usage(200, 199), (1, 1));
    assert_eq!(usage(1000, 996), (4, 0));
    assert_eq!(usage(1000, 995), (5, 1));
    assert_eq!(usage(u64::MAX, 0), (u64::MAX, 100));
    assert_eq!(usage(u64::MAX, 1), (u64::MAX - 1, 100));
}

#[test]
fn more_available_than_capacity_counts_as_nothing_used() {
    assert_eq!(usage(100, 250), (0, 0));
    assert_eq!(usage(0, 0), (0, 0));
    assert_eq!(usage(0, 5), (0, 0));
}

#[test]
fn type_of_a_drive() {
    assert_eq!(drive_type("ext4", DiskKind::HDD), "HDD");
    assert_eq!(drive_type("apfs", DiskKind::SSD), "SSD");
    assert_eq!(drive_type("vfat", DiskKind::Unknown), "Unknown");
    for fs in [
        "nfs", "nfs4", "cifs", "smbfs", "fuse.sshfs", "fuse.rclone", "fuse.gvfsd-fuse", "afpfs",
        "NFS4", "AFPFS",
    ] {
        assert_eq!(drive_type(fs, DiskKind::SSD), "Network", "{}", fs);
    }
}

#[test]
fn record_of_a_linux_mount() {
    let mut probe = disk("/dev/sdb1", "/media/user/USB STICK", "vfat", 8_000, 6_000);
    probe.is_removable = true;
    probe.is_read_only = true;
    probe.kind = DiskKind::HDD;
    let drive = drive_from_disk(Platform::Linux, &probe);
    assert_eq!(
        drive,
        DriveInfo {
            name: "USB STICK".to_string(),
            path: "/media/user/USB STICK".to_string(),
            mount_point: "/media/user/USB STICK".to_string(),
            file_system: "vfat".to_string(),
            drive_type: "HDD".to_string(),
            total_space: 8_000,
            available_space: 6_000,
            used_space: 2_000,
            percent_used: 25,
            is_removable: true,
            is_read_only: true,
            is_mounted: true,
            device_path: "/dev/sdb1".to_string(),
        }
    );
}

#[test]
fn names_of_windows_drives() {
    let labelled = drive_from_disk(Platform::Windows, &disk("System", "C:\\", "NTFS", 10, 5));
    assert_eq!(labelled.name, "System (C:)");
    assert_eq!(labelled.path, "C:/");
    assert_eq!(labelled.mount_point, "C:\\");
    assert_eq!(labelled.device_path, "System");
    let unlabelled = drive_from_disk(Platform::Windows, &disk("", "D:\\", "NTFS", 10, 5));
    assert_eq!(unlabelled.name, "Local Disk (D:)");
}

#[test]
fn names_of_macos_drives() {
    let labelled = drive_from_disk(Platform::MacOs, &disk("Backup", "/Volumes/TM", "apfs", 10, 5));
    assert_eq!(labelled.name, "Backup");
    let unlabelled = drive_from_disk(Platform::MacOs, &disk("", "/Volumes/TM", "apfs", 10, 5));
    assert_eq!(unlabelled.name, "TM");
}

#[test]
fn tmpfs_never_appears_among_linux_drives() {
    let drives = list(
        Platform::Linux,
        vec![
            disk("tmpfs", "/media/ramdisk", "tmpfs", 16_000_000_000, 1),
            disk("tmpfs", "/mnt/tmp", "tmpfs", u64::MAX, 0),
            disk("/dev/sdb1", "/media/usb", "ext4", 100, 50),
        ],
    );
    assert_eq!(paths(&drives), vec!["/media/usb"]);
}

#[test]
fn mounts_without_capacity_are_left_out() {
    for platform in [Platform::Linux, Platform::MacOs, Platform::Windows] {
        let drives = list(platform, vec![disk("x", "/mnt/x", "ext4", 0, 0)]);
        assert!(drives.is_empty());
    }
}

#[test]
fn no_two_drives_share_a_path_and_the_first_wins() {
    let drives = list(
        Platform::Linux,
        vec![
            disk("/dev/sdb1", "/mnt/data", "ext4", 100, 50),
            disk("/dev/sdc1", "/mnt/data", "xfs", 200, 50),
            disk("/dev/sdd1", "/mnt/other", "ext4", 300, 50),
            disk("/dev/sde1", "/mnt/other", "ext4", 400, 50),
        ],
    );
    assert_eq!(paths(&drives), vec!["/mnt/data", "/mnt/other"]);
    assert_eq!(drives[0].device_path, "/dev/sdb1");
    assert_eq!(drives[1].device_path, "/dev/sdd1");
}

#[test]
fn a_mount_that_is_left_out_takes_no_path() {
    let drives = list(
        Platform::Linux,
        vec![
            disk("none", "/mnt/data", "ext4", 100, 50),
            disk("/dev/sdc1", "/mnt/data", "xfs", 200, 50),
        ],
    );
    assert_eq!(drives.len(), 1);
    assert_eq!(drives[0].device_path, "/dev/sdc1");
}

#[test]
fn drives_are_ordered_by_path() {
    let drives = list(
        Platform::Linux,
        vec![
            disk("c", "/mnt/zeta", "ext4", 100, 50),
            disk("a", "/media/b", "ext4", 100, 50),
            disk("b", "/mnt/Alpha", "ext4", 100, 50),
            disk("d", "/media/a", "ext4", 100, 50),
            disk("e", "/mnt/alpha", "ext4", 100, 50),
        ],
    );
    assert_eq!(
        paths(&drives),
        vec!["/media/a", "/media/b", "/mnt/Alpha", "/mnt/alpha", "/mnt/zeta"]
    );
}

#[test]
fn listing_twice_gives_the_same_paths() {
    let disks = vec![
        disk("a", "/mnt/a", "ext4", 100, 50),
        disk("b", "/media/b", "nfs", 100, 50),
        disk("c", "/mnt/a", "ext4", 100, 50),
    ];
    let first = get_system_drives(Platform::Linux, &disks, &Vec::new(), &Vec::new()).unwrap();
    let second = get_system_drives(Platform::Linux, &disks, &Vec::new(), &Vec::new()).unwrap();
    assert_eq!(first, second);
    let mut reversed = disks.clone();
    reversed.reverse();
    let third = get_system_drives(Platform::Linux, &reversed, &Vec::new(), &Vec::new()).unwrap();
    assert_eq!(paths(&first), paths(&third));
}

#[test]
fn every_record_is_consistent() {
    let drives = list(
        Platform::Windows,
        vec![
            disk("A", "A:\\", "NTFS", 1000, 1),
            disk("B", "B:\\", "NTFS", 1000, 999),
            disk("C", "C:\\", "NTFS", 10, 20),
            disk("D", "D:\\", "NTFS", 7, 3),
        ],
    );
    assert_eq!(drives.len(), 4);
    for drive in &drives {
        assert_eq!(drive.used_space, drive.total_space.saturating_sub(drive.available_space));
        assert!(drive.percent_used <= 100);
        let exact = drive.used_space as f64 / drive.total_space as f64 * 100.0;
        assert_eq!(drive.percent_used as f64, exact.round());
        assert!(drive.is_mounted);
    }
}

#[test]
fn linux_reads_neither_volumes_nor_drive_letters() {
    let drives = get_system_drives(
        Platform::Linux,
        &vec![disk("a", "/mnt/a", "ext4", 100, 50)],
        &vec![volume("nas")],
        &vec![remote('Z', 100, 50)],
    )
    .unwrap();
    assert_eq!(paths(&drives), vec!["/mnt/a"]);
}

#[test]
fn macos_adds_its_network_volumes() {
    let mut file = volume("notes.txt");
    file.is_dir = false;
    let mut unreadable = volume("locked");
    unreadable.metadata = None;
    let drives = get_system_drives(
        Platform::MacOs,
        &vec![
            disk("Macintosh HD", "/", "apfs", 100, 50),
            disk("Data", "/System/Volumes/Data", "apfs", 100, 50),
            disk("Backup", "/Volumes/Backup", "apfs", 100, 40),
        ],
        &vec![volume("nas"), volume("Backup"), file, unreadable, volume("nas")],
        &vec![remote('Z', 100, 50)],
    )
    .unwrap();
    assert_eq!(paths(&drives), vec!["/Volumes/Backup", "/Volumes/nas"]);
    assert_eq!(drives[0].drive_type, "SSD");
    assert_eq!(
        drives[1],
        DriveInfo {
            name: "nas".to_string(),
            path: "/Volumes/nas".to_string(),
            mount_point: "/Volumes/nas".to_string(),
            file_system: "Network".to_string(),
            drive_type: "Network".to_string(),
            total_space: 0,
            available_space: 0,
            used_space: 0,
            percent_used: 0,
            is_removable: false,
            is_read_only: false,
            is_mounted: true,
            device_path: String::new(),
        }
    );
}

#[test]
fn windows_adds_its_remote_drives() {
    let mut local = remote('E', 100, 50);
    local.drive_type = 3;
    let mut no_space = remote('X', 100, 50);
    no_space.space = None;
    let empty = remote('Y', 0, 0);
    let mut read_only = remote('Z', 1000, 250);
    read_only.volume = Some(VolumeInformation {
        label: String::new(),
        file_system: "NTFS".to_string(),
        flags: 0x00080000 | 0x3,
    });
    let mut unknown = remote('W', 10, 10);
    unknown.volume = None;
    let drives = get_system_drives(
        Platform::Windows,
        &vec![disk("System", "C:\\", "NTFS", 100, 50), disk("Net", "V:\\", "NTFS", 100, 50)],
        &vec![volume("nas")],
        &vec![local, remote('V', 5, 5), no_space, empty, read_only, unknown],
    )
    .unwrap();
    assert_eq!(paths(&drives), vec!["C:/", "V:/", "W:/", "Z:/"]);
    assert_eq!(drives[1].name, "Net (V:)");
    assert_eq!(
        drives[2],
        DriveInfo {
            name: "Network Drive (W:)".to_string(),
            path: "W:/".to_string(),
            mount_point: "W:\\".to_string(),
            file_system: "Network".to_string(),
            drive_type: "Network".to_string(),
            total_space: 10,
            available_space: 10,
            used_space: 0,
            percent_used: 0,
            is_removable: false,
            is_read_only: false,
            is_mounted: true,
            device_path: "W:\\".to_string(),
        }
    );
    assert_eq!(drives[3].name, "Network Drive (Z:)");
    assert_eq!(drives[3].file_system, "NTFS");
    assert!(drives[3].is_read_only);
    assert_eq!(drives[3].used_space, 750);
    assert_eq!(drives[3].percent_used, 75);
}

#[test]
fn a_remote_drive_without_space_still_takes_its_path() {
    let mut first = remote('Z', 100, 50);
    first.space = None;
    let second = remote('Z', 100, 50);
    let mut drives = Vec::new();
    let mut seen = text_hash_set(&Vec::new());
    append_windows_network_drives(&mut drives, &mut seen, &vec![first, second]);
    assert!(drives.is_empty());
    assert_eq!(seen.len(), 1);
    assert!(seen.contains("Z:/"));
}

#[test]
fn appending_respects_the_paths_already_taken() {
    let mut drives = Vec::new();
    let mut seen = text_hash_set(&vec!["/Volumes/nas".to_string()]);
    append_macos_network_volumes(&mut drives, &mut seen, &vec![volume("nas"), volume("media")]);
    assert_eq!(paths(&drives), vec!["/Volumes/media"]);
    assert_eq!(seen.len(), 2);
    assert!(seen.contains("/Volumes/nas") && seen.contains("/Volumes/media"));
    append_mounted_disks(
        Platform::MacOs,
        &mut drives,
        &mut seen,
        &vec![disk("m", "/Volumes/media", "apfs", 1, 1), disk("n", "/Volumes/new", "apfs", 1, 1)],
    );
    assert_eq!(paths(&drives), vec!["/Volumes/media", "/Volumes/new"]);
    assert_eq!(seen.len(), 3);
    assert!(seen.contains("/Volumes/new"));
    assert!(!seen.contains("/Volumes/other"));
}

#[test]
fn set_of_the_texts_of_a_list() {
    let set = text_hash_set(&vec!["a".to_string(), "b".to_string(), "a".to_string()]);
    assert_eq!(set.len(), 2);
    assert!(set.contains("a") && set.contains("b") && !set.contains("c"));
    assert!(text_hash_set(&Vec::new()).is_empty());
}

#[test]
fn remote_drive_type() {
    assert!(is_remote_drive(4));
    assert!(!is_remote_drive(3));
    assert!(!is_remote_drive(0));
}
