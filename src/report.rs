use vstd::prelude::*;
use vstd::string::*;

use crate::text::decimal;

verus! {

/// What `humansize::format_size` with binary units makes of a byte count.
pub uninterp spec fn size_text(n: u64) -> Seq<char>;

/// One unit of a duration's text: the count and the unit's name, with an `s`
/// for a plural count where `plural`; nothing for a count of zero.
pub open spec fn unit_text(value: nat, name: Seq<char>, plural: bool) -> Seq<char> {
    if value == 0 {
        Seq::empty()
    } else if plural && value > 1 {
        decimal(value) + name + seq!['s']
    } else {
        decimal(value) + name
    }
}

/// The non-empty parts, separated by single spaces.
pub open spec fn join_parts(parts: Seq<Seq<char>>) -> Seq<char>
    decreases parts.len(),
{
    if parts.len() == 0 {
        Seq::empty()
    } else {
        let rest = join_parts(parts.drop_last());
        if parts.last().len() == 0 {
            rest
        } else if rest.len() == 0 {
            parts.last()
        } else {
            rest + seq![' '] + parts.last()
        }
    }
}

/// The text of a whole number of seconds, as `humantime::format_duration`
/// writes it: years of 365.25 days, months of 30.44 days, then days, hours,
/// minutes and seconds, each only where it is not zero; `0s` for zero.
pub open spec fn duration_text(secs: u64) -> Seq<char> {
    if secs == 0 {
        seq!['0', 's']
    } else {
        let years = secs / 31_557_600;
        let ydays = secs % 31_557_600;
        let months = ydays / 2_630_016;
        let mdays = ydays % 2_630_016;
        let days = mdays / 86400;
        let day_secs = mdays % 86400;
        join_parts(
            seq![
                unit_text(years as nat, seq!['y', 'e', 'a', 'r'], true),
                unit_text(months as nat, seq!['m', 'o', 'n', 't', 'h'], true),
                unit_text(days as nat, seq!['d', 'a', 'y'], true),
                unit_text((day_secs / 3600) as nat, seq!['h'], false),
                unit_text((day_secs % 3600 / 60) as nat, seq!['m'], false),
                unit_text((day_secs % 60) as nat, seq!['s'], false),
            ],
        )
    }
}

/// The RFC 3339 text of a Unix timestamp, as `chrono` writes it.
pub uninterp spec fn rfc3339_text(secs: i64) -> Seq<char>;

/// Relies on `humansize::format_size` with the `BINARY` options: the text is
/// determined by the byte count alone.
#[verifier::external_body]
fn format_size(n: u64) -> (r: String)
    ensures
        r@ == size_text(n),
{
    humansize::format_size(n, humansize::BINARY)
}

/// Relies on `humantime::format_duration`, rendered through its `Display`
/// impl, for a duration of whole seconds (`duration_text` states its text).
#[verifier::external_body]
fn format_uptime(secs: u64) -> (r: String)
    ensures
        r@ == duration_text(secs),
{
    humantime::format_duration(std::time::Duration::new(secs, 0)).to_string()
}

/// Relies on `chrono::Utc.timestamp_opt(secs, 0)`, which yields a time
/// exactly when the timestamp's day lies within chrono's date range (years
/// -262143 to 262142), and on `DateTime::to_rfc3339` for its text.
#[verifier::external_body]
fn format_timestamp(secs: i64) -> (r: Option<String>)
    ensures
        r matches Some(t) ==> t@ == rfc3339_text(secs),
        0 <= secs <= 0x100_0000_0000 ==> r is Some,
{
    chrono::TimeZone::timestamp_opt(&chrono::Utc, secs, 0).single().map(|d| d.to_rfc3339())
}

/// What the host reports of one disk.
#[derive(Debug, Clone)]
pub struct DiskFacts {
    pub name: String,
    pub kind: String,
    pub mount_point: String,
    pub file_system: String,
    pub is_removable: bool,
    pub total_space: u64,
    pub available_space: u64,
}

/// What the host reports of itself, in raw numbers.
#[derive(Debug, Clone)]
pub struct HostFacts {
    pub name: String,
    pub host_name: String,
    pub os_version: String,
    pub kernel: String,
    /// Number of CPUs.
    pub cpus: usize,
    pub uptime_secs: u64,
    pub boot_time_secs: u64,
    pub total_memory: u64,
    pub used_memory: u64,
    pub free_memory: u64,
    pub available_memory: u64,
    pub disks: Vec<DiskFacts>,
}

/// Memory sizes, as text.
#[derive(Debug, Clone)]
pub struct Mem {
    pub total: String,
    pub used: String,
    pub free: String,
    pub available: String,
}

/// One disk, with its sizes as text.
#[derive(Debug, Clone)]
pub struct Disk {
    pub name: String,
    pub kind: String,
    pub mount_point: String,
    pub file_system: String,
    pub is_removable: bool,
    pub total: String,
    pub available: String,
}

/// The status report of the running process and its host.
#[derive(Debug, Clone)]
pub struct Status {
    pub status: i8,
    pub description: String,
    pub name: String,
    pub host_name: String,
    pub os_version: String,
    pub kernel: String,
    pub uptime: String,
    /// Number of CPUs.
    pub cpus: usize,
    /// The boot time in RFC 3339 form; `None` where it lies outside the
    /// representable dates.
    pub boot_time: Option<String>,
    pub mem: Mem,
    pub disks: Vec<Disk>,
}

/// A disk's report says what its facts say, sizes as text.
pub open spec fn disk_reports(d: Disk, f: DiskFacts) -> bool {
    &&& d.name == f.name
    &&& d.kind == f.kind
    &&& d.mount_point == f.mount_point
    &&& d.file_system == f.file_system
    &&& d.is_removable == f.is_removable
    &&& d.total@ == size_text(f.total_space)
    &&& d.available@ == size_text(f.available_space)
}

/// The report of a disk.
pub fn disk_report(f: &DiskFacts) -> (d: Disk)
    ensures
        disk_reports(d, *f),
{
    Disk {
        name: f.name.clone(),
        kind: f.kind.clone(),
        mount_point: f.mount_point.clone(),
        file_system: f.file_system.clone(),
        is_removable: f.is_removable,
        total: format_size(f.total_space),
        available: format_size(f.available_space),
    }
}

/// `r` is the report of a running process on a host with the given facts.
pub open spec fn reports(r: Status, facts: HostFacts) -> bool {
    &&& r.status == 0
    &&& r.description@ == "running"@
    &&& r.name == facts.name
    &&& r.host_name == facts.host_name
    &&& r.os_version == facts.os_version
    &&& r.kernel == facts.kernel
    &&& r.uptime@ == duration_text(facts.uptime_secs)
    &&& r.cpus == facts.cpus
    &&& (r.boot_time matches Some(t) ==> t@ == rfc3339_text(facts.boot_time_secs as i64))
    &&& (facts.boot_time_secs <= 0x100_0000_0000 ==> r.boot_time is Some)
    &&& r.mem.total@ == size_text(facts.total_memory)
    &&& r.mem.used@ == size_text(facts.used_memory)
    &&& r.mem.free@ == size_text(facts.free_memory)
    &&& r.mem.available@ == size_text(facts.available_memory)
    &&& r.disks@.len() == facts.disks@.len()
    &&& forall|i: int| 0 <= i < r.disks@.len() ==> disk_reports(r.disks@[i], facts.disks@[i])
}

impl Status {
    /// The report of a running process on a host with the given facts.
    pub fn new(facts: &HostFacts) -> (r: Status)
        ensures
            reports(r, *facts),
    {
        let mut disks: Vec<Disk> = Vec::new();
        let mut i: usize = 0;
        while i < facts.disks.len()
            invariant
                i <= facts.disks@.len(),
                disks@.len() == i,
                forall|j: int| 0 <= j < i ==> disk_reports(disks@[j], facts.disks@[j]),
            decreases facts.disks@.len() - i,
        {
            disks.push(disk_report(&facts.disks[i]));
            i = i + 1;
        }
        let boot_time = if facts.boot_time_secs <= 0x7fff_ffff_ffff_ffff {
            format_timestamp(facts.boot_time_secs as i64)
        } else {
            None
        };
        Status {
            status: 0,
            description: String::from_str("running"),
            name: facts.name.clone(),
            host_name: facts.host_name.clone(),
            os_version: facts.os_version.clone(),
            kernel: facts.kernel.clone(),
            uptime: format_uptime(facts.uptime_secs),
            cpus: facts.cpus,
            boot_time,
            mem: Mem {
                total: format_size(facts.total_memory),
                used: format_size(facts.used_memory),
                free: format_size(facts.free_memory),
                available: format_size(facts.available_memory),
            },
            disks,
        }
    }
}

/// The status report, from the host's facts.
pub fn get_status(facts: &HostFacts) -> (r: Status)
    ensures
        reports(r, *facts),
{
    Status::new(facts)
}

} // verus!
