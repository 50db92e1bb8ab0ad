//! What the collector knows of the machine, as plain values, and the
//! updates of single values in it.

use vstd::prelude::*;
use vstd::string::*;
use crate::block::read_block;
use crate::text::text_lines;

verus! {

/// The memory in use and in all, in bytes.
#[derive(Clone, Copy, Debug, PartialEq, Eq, Structural)]
pub struct Memory {
    pub used: u64,
    pub total: u64,
}

/// A disk by the place where it is mounted, with the space in use and in
/// all, in bytes.
#[derive(Clone, Debug)]
pub struct Disk {
    pub name: String,
    pub used: u64,
    pub total: u64,
}

/// The packages that each package manager has installed.
#[derive(Clone, Copy, Debug, PartialEq, Eq, Structural)]
pub struct Packages {
    pub pacman: u64,
    pub winget: u64,
    pub dnf: u64,
    pub apt: u64,
    pub brew: u64,
    pub emerge: u64,
}

/// Everything that is shown of the machine.
#[derive(Clone, Debug)]
pub struct SystemInfo {
    pub cpu: String,
    pub distro: String,
    pub motherboard: String,
    pub kernel: String,
    pub gpus: Vec<String>,
    pub memory: Memory,
    pub disks: Vec<Disk>,
    pub local_ip: String,
    pub public_ip: String,
    pub hostname: String,
    pub boot_time: u64,
    pub packages: Packages,
}

/// Sets the name of the host, where the values of the machine have been
/// collected already. Before that nothing is kept.
pub fn push_hostname(info: &mut Option<SystemInfo>, string: &str)
    ensures
        *old(info) is None ==> *final(info) is None,
        *old(info) is Some ==> *final(info) is Some && (*final(info))->0.hostname@ == string@
            && *final(info) == Some(
            SystemInfo { hostname: (*final(info))->0.hostname, ..(*old(info))->0 },
        ),
{
    match info {
        Some(system_info) => {
            system_info.hostname = string.to_owned();
        },
        None => {},
    }
}

/// Sets the name of the motherboard, where the values of the machine have
/// been collected already. Before that nothing is kept.
pub fn push_motherboard_value(info: &mut Option<SystemInfo>, string: &str)
    ensures
        *old(info) is None ==> *final(info) is None,
        *old(info) is Some ==> *final(info) is Some && (*final(info))->0.motherboard@ == string@
            && *final(info) == Some(
            SystemInfo { motherboard: (*final(info))->0.motherboard, ..(*old(info))->0 },
        ),
{
    match info {
        Some(system_info) => {
            system_info.motherboard = string.to_owned();
        },
        None => {},
    }
}

/// The packages in the listing that a package manager printed: one to
/// the line, behind `heading` lines that name none. A listing with fewer
/// lines than that names nothing that can be counted.
pub open spec fn listed(listing: Seq<char>, heading: u64) -> Option<u64> {
    if heading <= text_lines(listing).len() <= u64::MAX {
        Some((text_lines(listing).len() - heading) as u64)
    } else {
        None
    }
}

/// Counts the packages in the listing that a package manager printed: its
/// lines, less the `heading` lines in front that name no package.
pub fn count_listed(listing: &str, heading: u64) -> (count: Option<u64>)
    ensures
        count == listed(listing@, heading),
{
    let block = read_block(listing);
    assert(crate::text::block_view(block).len() == block.len());
    let lines = block.len() as u128;
    if lines > u64::MAX as u128 || lines < heading as u128 {
        None
    } else {
        Some((lines - heading as u128) as u64)
    }
}

/// The disk with the space in use worked out from the space in all and
/// the space that is free.
pub fn disk_usage(name: String, total: u64, available: u64) -> (disk: Disk)
    requires
        available <= total,
    ensures
        disk.name == name,
        disk.total == total,
        disk.used == total - available,
{
    Disk { name, used: total - available, total }
}

} // verus!
