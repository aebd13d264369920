//! The removable partitions of a Linux host that are not mounted, found from
//! what was read of its block devices.

use crate::mount::Command;
use crate::platform::{opt_view, views, Platform};
use crate::text::{
    after_first_line, contains, first_line, first_word, first_word_of, has_substring, join, parse_u64, parsed_u64, replace, replaced, same_text, split_first_line, starts_with,
    to_uppercase, trim, trimmed, uppercase,
};
use vstd::hash_set::StringHashSet;
use vstd::prelude::*;

verus! {

/// A partition that can be mounted.
#[derive(Clone, Debug, PartialEq, Eq)]
pub struct MountableDevice {
    /// The label of the file system, or the partition's name in uppercase.
    pub name: String,
    pub device_path: String,
    pub file_system: String,
    /// The capacity in bytes.
    pub size: u64,
}

/// The mathematical form of a `MountableDevice`.
pub struct MountableDeviceView {
    pub name: Seq<char>,
    pub device_path: Seq<char>,
    pub file_system: Seq<char>,
    pub size: u64,
}

impl View for MountableDevice {
    type V = MountableDeviceView;

    open spec fn view(&self) -> MountableDeviceView {
        MountableDeviceView {
            name: self.name@,
            device_path: self.device_path@,
            file_system: self.file_system@,
            size: self.size,
        }
    }
}

/// An entry of a block device's directory.
#[derive(Clone, Debug, PartialEq, Eq)]
pub struct SubEntry {
    pub name: String,
    /// Whether the entry holds the file that marks a partition.
    pub is_partition: bool,
}

/// The mathematical form of a `SubEntry`.
pub struct SubEntryView {
    pub name: Seq<char>,
    pub is_partition: bool,
}

impl View for SubEntry {
    type V = SubEntryView;

    open spec fn view(&self) -> SubEntryView {
        SubEntryView { name: self.name@, is_partition: self.is_partition }
    }
}

/// What was read about one partition. A part that could not be read is absent.
#[derive(Clone, Debug, PartialEq, Eq)]
pub struct PartitionProbe {
    pub name: String,
    /// The device node's path with every link resolved.
    pub canonical_path: Option<String>,
    /// Whether the device node exists.
    pub exists: bool,
    /// What the file-system probe printed, where it could be run.
    pub fs_type_output: Option<String>,
    /// The text of the partition's size in sectors, or of the whole device's
    /// where the partition has none.
    pub size_text: Option<String>,
}

/// The mathematical form of a `PartitionProbe`.
pub struct PartitionProbeView {
    pub name: Seq<char>,
    pub canonical_path: Option<Seq<char>>,
    pub exists: bool,
    pub fs_type_output: Option<Seq<char>>,
    pub size_text: Option<Seq<char>>,
}

impl View for PartitionProbe {
    type V = PartitionProbeView;

    open spec fn view(&self) -> PartitionProbeView {
        PartitionProbeView {
            name: self.name@,
            canonical_path: opt_view(self.canonical_path),
            exists: self.exists,
            fs_type_output: opt_view(self.fs_type_output),
            size_text: opt_view(self.size_text),
        }
    }
}

/// What was read about one block device.
#[derive(Clone, Debug, PartialEq, Eq)]
pub struct BlockDeviceProbe {
    pub name: String,
    /// The text of the device's removable flag.
    pub removable_flag: Option<String>,
    /// The device's directory with every link resolved.
    pub resolved_path: Option<String>,
    /// The entries of the device's directory, in the order read.
    pub sub_entries: Vec<SubEntry>,
    /// One probe for each partition that `partition_names` gives.
    pub partitions: Vec<PartitionProbe>,
}

/// The mathematical form of a `BlockDeviceProbe`.
pub struct BlockDeviceProbeView {
    pub name: Seq<char>,
    pub removable_flag: Option<Seq<char>>,
    pub resolved_path: Option<Seq<char>>,
    pub sub_entries: Seq<SubEntryView>,
    pub partitions: Seq<PartitionProbeView>,
}

impl View for BlockDeviceProbe {
    type V = BlockDeviceProbeView;

    open spec fn view(&self) -> BlockDeviceProbeView {
        BlockDeviceProbeView {
            name: self.name@,
            removable_flag: opt_view(self.removable_flag),
            resolved_path: opt_view(self.resolved_path),
            sub_entries: views(self.sub_entries@),
            partitions: views(self.partitions@),
        }
    }
}

/// A link of the directory that names devices by label, and the device it
/// leads to, every link resolved.
#[derive(Clone, Debug, PartialEq, Eq)]
pub struct LabelLink {
    pub file_name: String,
    pub target: Option<String>,
}

/// The mathematical form of a `LabelLink`.
pub struct LabelLinkView {
    pub file_name: Seq<char>,
    pub target: Option<Seq<char>>,
}

impl View for LabelLink {
    type V = LabelLinkView;

    open spec fn view(&self) -> LabelLinkView {
        LabelLinkView { file_name: self.file_name@, target: opt_view(self.target) }
    }
}

/// The devices that the lines of a mount table name: the first word of each
/// line that has one.
pub open spec fn mount_sources(table: Seq<char>) -> Seq<Seq<char>>
    decreases table.len(),
{
    if table.len() == 0 {
        Seq::empty()
    } else {
        let word = first_word(first_line(table));
        let rest = mount_sources(after_first_line(table));
        if word.len() > 0 {
            seq![word] + rest
        } else {
            rest
        }
    }
}

/// The devices that the lines of a mount table name.
pub fn mounted_device_names(table: &str) -> (names: Vec<String>)
    ensures
        views(names@) == mount_sources(table@),
{
    let mut names: Vec<String> = Vec::new();
    let mut rest: &str = table;
    assert(views(names@) =~= Seq::empty());
    while rest.unicode_len() > 0
        invariant
            views(names@) + mount_sources(rest@) == mount_sources(table@),
        decreases rest@.len(),
    {
        let ghost before = views(names@);
        let ghost whole = rest@;
        let (line, tail) = split_first_line(rest);
        match first_word_of(line) {
            Some(word) => {
                assert(mount_sources(whole) == seq![word@] + mount_sources(tail@));
                names.push(word);
                assert(views(names@) =~= before + seq![word@]);
                assert(views(names@) + mount_sources(tail@) =~= before + mount_sources(whole));
            },
            None => {},
        }
        rest = tail;
    }
    assert(mount_sources(rest@) =~= Seq::empty());
    assert(views(names@) + Seq::<Seq<char>>::empty() =~= views(names@));
    names
}

/// Whether a block device is never a removable drive: a loopback device, a
/// RAM disk, a device-mapper or a compressed-RAM device.
pub open spec fn block_skipped(name: Seq<char>) -> bool {
    ||| "loop"@.is_prefix_of(name)
    ||| "ram"@.is_prefix_of(name)
    ||| "dm-"@.is_prefix_of(name)
    ||| "zram"@.is_prefix_of(name)
}

/// Whether a block device is never a removable drive.
pub fn is_block_skipped(name: &str) -> (r: bool)
    ensures
        r == block_skipped(name@),
{
    starts_with(name, "loop") || starts_with(name, "ram") || starts_with(name, "dm-")
        || starts_with(name, "zram")
}

/// Whether a block device is removable: its removable flag reads `1`, or
/// its resolved path shows that it hangs on a USB bus.
pub open spec fn block_removable(
    removable_flag: Option<Seq<char>>,
    resolved_path: Option<Seq<char>>,
) -> bool {
    ||| removable_flag matches Some(flag) && trimmed(flag) == "1"@
    ||| resolved_path matches Some(path) && has_substring(path, "/usb"@)
}

/// Whether a block device is removable.
pub fn is_block_removable(removable_flag: &Option<String>, resolved_path: &Option<String>) -> (r:
    bool)
    ensures
        r == block_removable(opt_view(*removable_flag), opt_view(*resolved_path)),
{
    let flagged = match removable_flag {
        Some(flag) => same_text(trim(flag.as_str()).as_str(), "1"),
        None => false,
    };
    flagged || match resolved_path {
        Some(path) => contains(path.as_str(), "/usb"),
        None => false,
    }
}

/// Whether the partitions of a block device are looked at.
pub open spec fn block_qualifies(block: BlockDeviceProbeView) -> bool {
    !block_skipped(block.name) && block_removable(block.removable_flag, block.resolved_path)
}

/// The entries of a device's directory that are its partitions: those whose
/// name begins with the device's and which hold the partition marker.
pub open spec fn marked_partitions(block_name: Seq<char>, entries: Seq<SubEntryView>) -> Seq<
    Seq<char>,
>
    decreases entries.len(),
{
    if entries.len() == 0 {
        Seq::empty()
    } else {
        let before = marked_partitions(block_name, entries.drop_last());
        let entry = entries.last();
        if block_name.is_prefix_of(entry.name) && entry.is_partition {
            before.push(entry.name)
        } else {
            before
        }
    }
}

/// The partitions of a block device: its marked partitions, or the device
/// itself where it has none.
pub open spec fn partitions_of(block_name: Seq<char>, entries: Seq<SubEntryView>) -> Seq<
    Seq<char>,
> {
    let marked = marked_partitions(block_name, entries);
    if marked.len() == 0 {
        seq![block_name]
    } else {
        marked
    }
}

/// The partitions of a block device.
pub fn partition_names(block_name: &str, entries: &Vec<SubEntry>) -> (names: Vec<String>)
    ensures
        views(names@) == partitions_of(block_name@, views(entries@)),
{
    let ghost all = views(entries@);
    let mut names: Vec<String> = Vec::new();
    let mut i: usize = 0;
    assert(all.take(0) =~= Seq::empty());
    assert(views(names@) =~= Seq::empty());
    while i < entries.len()
        invariant
            i <= entries.len(),
            all == views(entries@),
            views(names@) == marked_partitions(block_name@, all.take(i as int)),
        decreases entries.len() - i,
    {
        assert(all.take(i + 1).drop_last() == all.take(i as int));
        assert(all.take(i + 1).last() == entries@[i as int]@);
        if starts_with(entries[i].name.as_str(), block_name) && entries[i].is_partition {
            let ghost before = views(names@);
            let name = entries[i].name.clone();
            names.push(name);
            assert(views(names@) =~= before.push(name@));
        }
        i += 1;
    }
    assert(all.take(entries@.len() as int) == all);
    if names.len() == 0 {
        let name = block_name.to_owned();
        names.push(name);
        assert(views(names@) =~= seq![block_name@]);
    }
    names
}

/// The path of the device node of a partition.
pub open spec fn device_node(name: Seq<char>) -> Seq<char> {
    "/dev/"@ + name
}

/// The path of the device node of a partition.
pub fn device_node_path(name: &str) -> (r: String)
    ensures
        r@ == device_node(name@),
{
    join("/dev/", name)
}

/// The command that asks for the type of the file system on a partition.
pub fn get_partition_fs_type_command(name: &str) -> (command: Command)
    ensures
        command@.program == "lsblk"@,
        command@.args == seq!["-no"@, "FSTYPE"@, device_node(name@)],
        command@.input is None,
{
    let mut args: Vec<String> = Vec::new();
    args.push("-no".to_owned());
    args.push("FSTYPE".to_owned());
    args.push(device_node_path(name));
    let command = Command { program: "lsblk".to_owned(), args, input: None };
    assert(command@.args =~= seq!["-no"@, "FSTYPE"@, device_node(name@)]);
    command
}

/// The type of the file system that the probe found: what it printed,
/// trimmed; none where it could not be run or printed nothing.
pub open spec fn fs_type_of(output: Option<Seq<char>>) -> Option<Seq<char>> {
    match output {
        Some(text) => if trimmed(text).len() == 0 {
            None
        } else {
            Some(trimmed(text))
        },
        None => None,
    }
}

/// The type of the file system that the probe found.
pub fn get_partition_fs_type(output: &Option<String>) -> (r: Option<String>)
    ensures
        opt_view(r) == fs_type_of(opt_view(*output)),
{
    match output {
        Some(text) => {
            let fs_type = trim(text.as_str());
            if fs_type.as_str().unicode_len() == 0 {
                None
            } else {
                Some(fs_type)
            }
        },
        None => None,
    }
}

/// The text of `\x20`, which stands for a space in the name of a label link.
pub open spec fn escaped_space() -> Seq<char> {
    seq!['\\', 'x', '2', '0']
}

/// The label that the first link with the target `device` gives: the link's
/// name, with each escaped space written as a space.
pub open spec fn label_among(links: Seq<LabelLinkView>, device: Seq<char>) -> Option<Seq<char>>
    decreases links.len(),
{
    if links.len() == 0 {
        None
    } else if links[0].target == Some(device) {
        Some(replaced(links[0].file_name, escaped_space(), " "@))
    } else {
        label_among(links.skip(1), device)
    }
}

/// The label of a device. There is none where the directory of labels or
/// the resolved path of the device could not be read, and where no link
/// leads to the device.
pub open spec fn device_label(
    canonical_path: Option<Seq<char>>,
    links: Option<Seq<LabelLinkView>>,
) -> Option<Seq<char>> {
    match (links, canonical_path) {
        (Some(links), Some(device)) => label_among(links, device),
        _ => None,
    }
}

/// The label that the first link with the target `device` gives.
fn find_label(links: &Vec<LabelLink>, device: &str) -> (r: Option<String>)
    ensures
        opt_view(r) == label_among(views(links@), device@),
{
    let ghost all = views(links@);
    let mut i: usize = 0;
    assert(all.skip(0) =~= all);
    while i < links.len()
        invariant
            i <= links.len(),
            all == views(links@),
            label_among(all, device@) == label_among(all.skip(i as int), device@),
        decreases links.len() - i,
    {
        let ghost rest = all.skip(i as int);
        assert(rest[0] == links@[i as int]@);
        assert(rest.skip(1) =~= all.skip(i + 1));
        let leads_here = match &links[i].target {
            Some(target) => same_text(target.as_str(), device),
            None => false,
        };
        if leads_here {
            proof {
                reveal_strlit("\\x20");
                assert("\\x20"@ =~= escaped_space());
            }
            return Some(replace(links[i].file_name.as_str(), "\\x20", " "));
        }
        i += 1;
    }
    None
}

/// The label of a device: `canonical_path` is its resolved path and `links`
/// the directory of labels, each absent where it could not be read.
pub fn get_device_label(canonical_path: &Option<String>, links: &Option<Vec<LabelLink>>) -> (r:
    Option<String>)
    ensures
        opt_view(r) == device_label(opt_view(*canonical_path), links_view(*links)),
{
    match (links, canonical_path) {
        (Some(links), Some(device)) => find_label(links, device.as_str()),
        _ => None,
    }
}

/// The number of sectors that a size text gives: the number it writes,
/// whitespace around it not counted, and zero where there is no text or it
/// writes no number.
pub open spec fn sectors_of(size_text: Option<Seq<char>>) -> u64 {
    match size_text {
        Some(text) => match parsed_u64(trimmed(text)) {
            Some(sectors) => sectors,
            None => 0,
        },
        None => 0,
    }
}

/// The number of sectors that a size text gives.
pub fn sector_count(size_text: &Option<String>) -> (r: u64)
    ensures
        r == sectors_of(opt_view(*size_text)),
{
    match size_text {
        Some(text) => match parse_u64(trim(text.as_str()).as_str()) {
            Some(sectors) => sectors,
            None => 0,
        },
        None => 0,
    }
}

/// The number of bytes in a sector.
pub const SECTOR_BYTES: u64 = 512;

/// Whether the capacity of a partition, in bytes, is a number that a `u64` holds.
pub open spec fn capacity_fits(partition: PartitionProbeView) -> bool {
    sectors_of(partition.size_text) * SECTOR_BYTES <= u64::MAX
}

/// Whether the capacity of a partition, in bytes, is a number that a `u64` holds.
pub fn partition_capacity_fits(partition: &PartitionProbe) -> (r: bool)
    ensures
        r == capacity_fits(partition@),
{
    sector_count(&partition.size_text) <= u64::MAX / SECTOR_BYTES
}

/// Whether a partition is mounted: the mount table names its device node or
/// the node's resolved path.
pub open spec fn partition_mounted(
    name: Seq<char>,
    canonical_path: Option<Seq<char>>,
    mounted: Set<Seq<char>>,
) -> bool {
    mounted.contains(device_node(name)) || (canonical_path matches Some(path) && mounted.contains(
        path,
    ))
}

/// Whether a partition is mounted.
pub fn is_partition_mounted(
    name: &str,
    canonical_path: &Option<String>,
    mounted: &StringHashSet,
) -> (r: bool)
    ensures
        r == partition_mounted(name@, opt_view(*canonical_path), mounted@),
{
    let node = device_node_path(name);
    mounted.contains(node.as_str()) || match canonical_path {
        Some(path) => mounted.contains(path.as_str()),
        None => false,
    }
}

/// The record of a partition, where it can be mounted: its device node
/// exists, neither the node nor its resolved path is mounted, and the probe
/// found a file system on it.
pub open spec fn device_of_partition(
    partition: PartitionProbeView,
    mounted: Set<Seq<char>>,
    links: Option<Seq<LabelLinkView>>,
) -> Option<MountableDeviceView> {
    let node = device_node(partition.name);
    if partition_mounted(partition.name, partition.canonical_path, mounted) || !partition.exists {
        None
    } else {
        match fs_type_of(partition.fs_type_output) {
            Some(file_system) => Some(
                MountableDeviceView {
                    name: match device_label(partition.canonical_path, links) {
                        Some(label) => label,
                        None => uppercase(partition.name),
                    },
                    device_path: node,
                    file_system,
                    size: (sectors_of(partition.size_text) * SECTOR_BYTES) as u64,
                },
            ),
            None => None,
        }
    }
}

/// The record of a partition, where it can be mounted.
pub fn mountable_partition(
    partition: &PartitionProbe,
    mounted: &StringHashSet,
    links: &Option<Vec<LabelLink>>,
) -> (r: Option<MountableDevice>)
    requires
        capacity_fits(partition@),
    ensures
        r is Some <==> device_of_partition(partition@, mounted@, links_view(*links)) is Some,
        r matches Some(device) ==> device_of_partition(
            partition@,
            mounted@,
            links_view(*links),
        ) == Some(device@),
{
    if is_partition_mounted(partition.name.as_str(), &partition.canonical_path, mounted)
        || !partition.exists {
        return None;
    }
    let node = device_node_path(partition.name.as_str());
    let file_system = match get_partition_fs_type(&partition.fs_type_output) {
        Some(file_system) => file_system,
        None => {
            return None;
        },
    };
    let name = match get_device_label(&partition.canonical_path, links) {
        Some(label) => label,
        None => to_uppercase(partition.name.as_str()),
    };
    let size = sector_count(&partition.size_text) * SECTOR_BYTES;
    Some(MountableDevice { name, device_path: node, file_system, size })
}

/// The first probe of a partition of the name given.
pub open spec fn probe_named(partitions: Seq<PartitionProbeView>, name: Seq<char>) -> Option<
    PartitionProbeView,
>
    decreases partitions.len(),
{
    if partitions.len() == 0 {
        None
    } else if partitions[0].name == name {
        Some(partitions[0])
    } else {
        probe_named(partitions.skip(1), name)
    }
}

/// The position of the first probe of a partition of the name given.
fn find_probe(partitions: &Vec<PartitionProbe>, name: &str) -> (r: Option<usize>)
    ensures
        r matches Some(i) ==> i < partitions@.len() && probe_named(views(partitions@), name@) == Some(
            partitions@[i as int]@,
        ),
        r is None ==> probe_named(views(partitions@), name@) is None,
{
    let ghost all = views(partitions@);
    let mut i: usize = 0;
    assert(all.skip(0) =~= all);
    while i < partitions.len()
        invariant
            i <= partitions.len(),
            all == views(partitions@),
            probe_named(all, name@) == probe_named(all.skip(i as int), name@),
        decreases partitions.len() - i,
    {
        let ghost rest = all.skip(i as int);
        assert(rest[0] == partitions@[i as int]@);
        assert(rest.skip(1) =~= all.skip(i + 1));
        if same_text(partitions[i].name.as_str(), name) {
            return Some(i);
        }
        i += 1;
    }
    None
}

/// The record of the partition of the name given, where it was probed and
/// can be mounted.
pub open spec fn device_named(
    name: Seq<char>,
    partitions: Seq<PartitionProbeView>,
    mounted: Set<Seq<char>>,
    links: Option<Seq<LabelLinkView>>,
) -> Option<MountableDeviceView> {
    match probe_named(partitions, name) {
        Some(partition) => device_of_partition(partition, mounted, links),
        None => None,
    }
}

/// The records of the partitions named, in the order of the names.
pub open spec fn devices_named(
    names: Seq<Seq<char>>,
    partitions: Seq<PartitionProbeView>,
    mounted: Set<Seq<char>>,
    links: Option<Seq<LabelLinkView>>,
) -> Seq<MountableDeviceView>
    decreases names.len(),
{
    if names.len() == 0 {
        Seq::empty()
    } else {
        let before = devices_named(names.drop_last(), partitions, mounted, links);
        match device_named(names.last(), partitions, mounted, links) {
            Some(device) => before.push(device),
            None => before,
        }
    }
}

/// The records that a block device gives: none unless it is removable and
/// not skipped; else those of its partitions.
pub open spec fn devices_of_block(
    block: BlockDeviceProbeView,
    mounted: Set<Seq<char>>,
    links: Option<Seq<LabelLinkView>>,
) -> Seq<MountableDeviceView> {
    if block_qualifies(block) {
        devices_named(partitions_of(block.name, block.sub_entries), block.partitions, mounted, links)
    } else {
        Seq::empty()
    }
}

/// The records that the block devices give, in their order.
pub open spec fn mountable_devices(
    blocks: Seq<BlockDeviceProbeView>,
    mounted: Set<Seq<char>>,
    links: Option<Seq<LabelLinkView>>,
) -> Seq<MountableDeviceView>
    decreases blocks.len(),
{
    if blocks.len() == 0 {
        Seq::empty()
    } else {
        mountable_devices(blocks.drop_last(), mounted, links) + devices_of_block(
            blocks.last(),
            mounted,
            links,
        )
    }
}

/// Whether the capacity of every partition probed fits.
pub open spec fn capacities_fit(blocks: Seq<BlockDeviceProbeView>) -> bool {
    forall|i: int, j: int|
        0 <= i < blocks.len() && 0 <= j < blocks[i].partitions.len() ==> capacity_fits(
            #[trigger] blocks[i].partitions[j],
        )
}

/// The view of the directory of labels.
pub open spec fn links_view(links: Option<Vec<LabelLink>>) -> Option<Seq<LabelLinkView>> {
    match links {
        Some(links) => Some(views(links@)),
        None => None,
    }
}

/// Adds the records that one block device gives.
fn append_block_devices(
    devices: &mut Vec<MountableDevice>,
    block: &BlockDeviceProbe,
    mounted: &StringHashSet,
    links: &Option<Vec<LabelLink>>,
)
    requires
        forall|j: int| 0 <= j < block@.partitions.len() ==> capacity_fits(#[trigger] block@.partitions[j]),
    ensures
        views(final(devices)@) == views(old(devices)@) + devices_of_block(
            block@,
            mounted@,
            links_view(*links),
        ),
{
    let ghost start = views(devices@);
    let ghost taken = mounted@;
    let ghost labels = links_view(*links);
    if is_block_skipped(block.name.as_str()) || !is_block_removable(
        &block.removable_flag,
        &block.resolved_path,
    ) {
        assert(views(devices@) =~= start + Seq::<MountableDeviceView>::empty());
        return ;
    }
    let names = partition_names(block.name.as_str(), &block.sub_entries);
    let ghost all = views(names@);
    let ghost probes = block@.partitions;
    let mut i: usize = 0;
    assert(all.take(0) =~= Seq::empty());
    assert(views(devices@) =~= start + Seq::<MountableDeviceView>::empty());
    while i < names.len()
        invariant
            i <= names.len(),
            all == views(names@),
            probes == views(block.partitions@),
            taken == mounted@,
            labels == links_view(*links),
            forall|j: int| 0 <= j < probes.len() ==> capacity_fits(#[trigger] probes[j]),
            views(devices@) == start + devices_named(all.take(i as int), probes, taken, labels),
        decreases names.len() - i,
    {
        assert(all.take(i + 1).drop_last() == all.take(i as int));
        assert(all.take(i + 1).last() == names@[i as int]@);
        let ghost before = views(devices@);
        match find_probe(&block.partitions, names[i].as_str()) {
            Some(at) => {
                assert(probes[at as int] == block.partitions@[at as int]@);
                match mountable_partition(&block.partitions[at], mounted, links) {
                    Some(device) => {
                        devices.push(device);
                        assert(views(devices@) =~= before.push(device@));
                    },
                    None => {},
                }
            },
            None => {},
        }
        i += 1;
        assert(views(devices@) =~= start + devices_named(all.take(i as int), probes, taken, labels));
    }
    assert(all.take(names@.len() as int) == all);
}

/// The removable partitions of a Linux host that can be mounted.
///
/// `blocks` holds what was read of the block devices, `mounted` the resolved
/// paths of the devices that the mount table names, and `links` the
/// directory of labels, absent where it could not be read. A block device
/// counts where it is removable and not skipped; its partitions are its
/// marked entries, or the device itself where it has none. A partition is
/// listed where it was probed, its device node exists, neither the node nor
/// its resolved path is mounted, and a file system was found on it.
pub fn linux_get_mountable_devices(
    blocks: &Vec<BlockDeviceProbe>,
    mounted: &StringHashSet,
    links: &Option<Vec<LabelLink>>,
) -> (devices: Vec<MountableDevice>)
    requires
        capacities_fit(views(blocks@)),
    ensures
        views(devices@) == mountable_devices(views(blocks@), mounted@, links_view(*links)),
{
    let ghost all = views(blocks@);
    let mut devices: Vec<MountableDevice> = Vec::new();
    let mut i: usize = 0;
    assert(all.take(0) =~= Seq::empty());
    assert(views(devices@) =~= Seq::empty());
    while i < blocks.len()
        invariant
            i <= blocks.len(),
            all == views(blocks@),
            capacities_fit(all),
            views(devices@) == mountable_devices(
                all.take(i as int),
                mounted@,
                links_view(*links),
            ),
        decreases blocks.len() - i,
    {
        assert(all.take(i + 1).drop_last() == all.take(i as int));
        assert(all.take(i + 1).last() == blocks@[i as int]@);
        assert forall|j: int| 0 <= j < blocks@[i as int]@.partitions.len() implies capacity_fits(
            #[trigger] blocks@[i as int]@.partitions[j],
        ) by {
            assert(all[i as int] == blocks@[i as int]@);
            assert(capacity_fits(all[i as int].partitions[j]));
        }
        append_block_devices(&mut devices, &blocks[i], mounted, links);
        i += 1;
    }
    assert(all.take(blocks@.len() as int) == all);
    devices
}

/// Whether the capacity of every partition probed fits: what
/// `get_mountable_devices` asks of its caller.
pub fn block_capacities_fit(blocks: &Vec<BlockDeviceProbe>) -> (r: bool)
    ensures
        r == capacities_fit(views(blocks@)),
{
    let ghost all = views(blocks@);
    let mut i: usize = 0;
    while i < blocks.len()
        invariant
            i <= blocks.len(),
            all == views(blocks@),
            forall|a: int, b: int|
                0 <= a < i && 0 <= b < all[a].partitions.len() ==> capacity_fits(
                    #[trigger] all[a].partitions[b],
                ),
        decreases blocks.len() - i,
    {
        let block = &blocks[i];
        assert(all[i as int] == block@);
        let mut j: usize = 0;
        while j < block.partitions.len()
            invariant
                j <= block.partitions.len(),
                i < blocks.len(),
                all == views(blocks@),
                all[i as int] == block@,
                forall|b: int| 0 <= b < j ==> capacity_fits(#[trigger] block@.partitions[b]),
            decreases block.partitions.len() - j,
        {
            assert(block@.partitions[j as int] == block.partitions@[j as int]@);
            if !partition_capacity_fits(&block.partitions[j]) {
                assert(!capacity_fits(all[i as int].partitions[j as int]));
                return false;
            }
            j += 1;
        }
        i += 1;
    }
    true
}

/// The partitions that can be mounted: on Linux those that
/// `linux_get_mountable_devices` finds, elsewhere none. The call never fails.
pub fn get_mountable_devices(
    platform: Platform,
    blocks: &Vec<BlockDeviceProbe>,
    mounted: &StringHashSet,
    links: &Option<Vec<LabelLink>>,
) -> (r: Result<Vec<MountableDevice>, String>)
    requires
        platform == Platform::Linux ==> capacities_fit(views(blocks@)),
    ensures
        r is Ok,
        views(r->Ok_0@) == (if platform == Platform::Linux {
            mountable_devices(views(blocks@), mounted@, links_view(*links))
        } else {
            Seq::empty()
        }),
{
    match platform {
        Platform::Linux => Ok(linux_get_mountable_devices(blocks, mounted, links)),
        _ => {
            let devices: Vec<MountableDevice> = Vec::new();
            assert(views(devices@) =~= Seq::empty());
            Ok(devices)
        },
    }
}

} // verus!
