use hayabusa::telemetry::{
    count_listed, disk_usage, push_hostname, push_motherboard_value, Disk, Memory, Packages,
    SystemInfo,
};

fn machine() -> SystemInfo {
    SystemInfo {
        cpu: "cpu".to_string(),
        distro: "Arch Linux".to_string(),
        motherboard: "board".to_string(),
        kernel: "6.1".to_string(),
        gpus: vec!["gpu".to_string()],
        memory: Memory { used: 1, total: 2 },
        disks: vec![Disk { name: "/".to_string(), used: 3, total: 4 }],
        local_ip: "10.0.0.2".to_string(),
        public_ip: "1.2.3.4".to_string(),
        hostname: "host".to_string(),
        boot_time: 5,
        packages: Packages { pacman: 6, winget: 0, dnf: 0, apt: 0, brew: 0, emerge: 0 },
    }
}

#[test]
fn the_host_name_is_set_once_the_machine_is_known() {
    let mut info = Some(machine());
    push_hostname(&mut info, "fresh");
    let info = info.unwrap();
    assert_eq!(info.hostname, "fresh");
    assert_eq!(info.motherboard, "board");
    assert_eq!(info.cpu, "cpu");
    assert_eq!(info.disks.len(), 1);
    assert_eq!(info.packages.pacman, 6);
    let mut nothing: Option<SystemInfo> = None;
    push_hostname(&mut nothing, "fresh");
    assert!(nothing.is_none());
}

#[test]
fn the_motherboard_is_set_once_the_machine_is_known() {
    let mut info = Some(machine());
    push_motherboard_value(&mut info, "B550");
    let info = info.unwrap();
    assert_eq!(info.motherboard, "B550");
    assert_eq!(info.hostname, "host");
    assert_eq!(info.memory, Memory { used: 1, total: 2 });
    let mut nothing: Option<SystemInfo> = None;
    push_motherboard_value(&mut nothing, "B550");
    assert!(nothing.is_none());
}

#[test]
fn packages_are_counted_by_the_line() {
    assert_eq!(count_listed("a 1.0\nb 2.0\nc 3.0\n", 0), Some(3));
    assert_eq!(count_listed("Listing...\na/now 1.0\nb/now 2.0\n", 1), Some(2));
    assert_eq!(count_listed("h\nh\nh\nh\nh\npkg", 5), Some(1));
    assert_eq!(count_listed("Listing...\n", 1), Some(0));
    assert_eq!(count_listed("", 0), Some(0));
}

#[test]
fn a_listing_without_its_heading_counts_nothing() {
    assert_eq!(count_listed("", 1), None);
    assert_eq!(count_listed("a\nb", 5), None);
}

#[test]
fn the_space_in_use_is_what_is_not_free() {
    let disk = disk_usage("/home".to_string(), 1000, 250);
    assert_eq!(disk.name, "/home");
    assert_eq!(disk.total, 1000);
    assert_eq!(disk.used, 750);
    assert_eq!(disk_usage("/".to_string(), 5, 5).used, 0);
}
