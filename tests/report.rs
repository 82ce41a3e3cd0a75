use fust::health::health;
use fust::report::{get_status, DiskFacts, HostFacts, Status};

fn facts() -> HostFacts {
    HostFacts {
        name: "Linux".to_string(),
        host_name: "box".to_string(),
        os_version: "Linux 12".to_string(),
        kernel: "6.1.0".to_string(),
        cpus: 8,
        uptime_secs: 9420,
        boot_time_secs: 1431648000,
        total_memory: 1024,
        used_memory: 0,
        free_memory: 1536,
        available_memory: 1048576,
        disks: vec![DiskFacts {
            name: "sda".to_string(),
            kind: "SSD".to_string(),
            mount_point: "/".to_string(),
            file_system: "ext4".to_string(),
            is_removable: false,
            total_space: 2048,
            available_space: 1024,
        }],
    }
}

#[test]
fn health_check_returns_ok() {
    let body = health();
    assert_eq!(body.status, 0);
    assert_eq!(body.description, "running");
}

#[test]
fn status_formats_sizes_durations_and_times() {
    let st = Status::new(&facts());
    assert_eq!(st.status, 0);
    assert_eq!(st.description, "running");
    assert_eq!(st.host_name, "box");
    assert_eq!(st.uptime, "2h 37m");
    assert_eq!(st.cpus, 8);
    assert_eq!(st.boot_time.as_deref(), Some("2015-05-15T00:00:00+00:00"));
    assert_eq!(st.mem.total, "1 KiB");
    assert_eq!(st.mem.used, "0 B");
    assert_eq!(st.mem.available, "1 MiB");
    assert_eq!(st.disks.len(), 1);
    assert_eq!(st.disks[0].total, "2 KiB");
    assert_eq!(st.disks[0].mount_point, "/");
}

#[test]
fn boot_time_beyond_the_calendar_is_absent() {
    let mut f = facts();
    f.boot_time_secs = u64::MAX;
    assert_eq!(get_status(&f).boot_time, None);
}

#[test]
fn uptime_text_lists_every_nonzero_unit() {
    let mut f = facts();
    f.uptime_secs = 31_557_600 + 2 * 2_630_016 + 86_400 + 61;
    assert_eq!(Status::new(&f).uptime, "1year 2months 1day 1m 1s");
    f.uptime_secs = 0;
    assert_eq!(Status::new(&f).uptime, "0s");
}
