//! The host report: what one host says about itself at one point in time.
//!
//! A report is a plain value. The registry never looks inside one except for
//! its `ip`, which identifies the host. Measurements are carried as IEEE 754
//! bit patterns, so that a stored report is bit for bit what was handed in.

use vstd::prelude::*;

verus! {

/// A single-precision IEEE 754 measurement, held as its bit pattern.
#[derive(Clone, Copy, Debug, PartialEq, Eq, Structural)]
pub struct Float32 {
    pub bits: u32,
}

/// A double-precision IEEE 754 measurement, held as its bit pattern.
#[derive(Clone, Copy, Debug, PartialEq, Eq, Structural)]
pub struct Float64 {
    pub bits: u64,
}

impl Float32 {
    pub fn from_bits(bits: u32) -> (value: Float32)
        ensures
            value.bits == bits,
    {
        Float32 { bits }
    }

    pub fn to_bits(self) -> (bits: u32)
        ensures
            bits == self.bits,
    {
        self.bits
    }
}

impl Float64 {
    pub fn from_bits(bits: u64) -> (value: Float64)
        ensures
            value.bits == bits,
    {
        Float64 { bits }
    }

    pub fn to_bits(self) -> (bits: u64)
        ensures
            bits == self.bits,
    {
        self.bits
    }
}

/// One mounted disk of a host.
#[derive(Debug, PartialEq, Eq)]
pub struct DiskInfo {
    pub path: String,
    pub usage: Float32,
    pub size: Float32,
}

/// The mathematical value of a [`DiskInfo`].
pub ghost struct DiskInfoView {
    pub path: Seq<char>,
    pub usage: Float32,
    pub size: Float32,
}

impl View for DiskInfo {
    type V = DiskInfoView;

    open spec fn view(&self) -> DiskInfoView {
        DiskInfoView { path: self.path@, usage: self.usage, size: self.size }
    }
}

impl Clone for DiskInfo {
    fn clone(&self) -> (copy: Self)
        ensures
            copy@ == self@,
    {
        DiskInfo { path: self.path.clone(), usage: self.usage, size: self.size }
    }
}

/// The state of one host. The four `gpu_*` fields are `None` for a host that
/// reported no GPU; `None` is a value of its own and never stands for zero.
/// Every other field is always there. No field is checked against another or
/// against a range.
#[derive(Debug, PartialEq, Eq)]
pub struct HostInfo {
    pub hostname: String,
    /// Identifies the host. Taken as it is: no trimming, no parsing. A
    /// report whose `ip` is empty names no host and is never stored.
    pub ip: String,
    pub uptime: Float64,
    pub cpu_usage: Float32,
    pub cpu_frequency: Float32,
    pub gpu_usage: Option<Float32>,
    pub gpu_frequency: Option<Float32>,
    pub cpu_temperature: Float32,
    pub gpu_temperature: Option<Float32>,
    pub memory_usage: Float32,
    pub memory_max: Float32,
    pub disks: Vec<DiskInfo>,
    pub processes: Vec<String>,
    pub os_name: String,
    pub os_version: String,
    pub os_kernel: String,
    pub os_architecture: String,
    pub cpu_model: String,
    pub gpu_model: Option<String>,
}

/// The mathematical value of a [`HostInfo`].
pub ghost struct HostInfoView {
    pub hostname: Seq<char>,
    pub ip: Seq<char>,
    pub uptime: Float64,
    pub cpu_usage: Float32,
    pub cpu_frequency: Float32,
    pub gpu_usage: Option<Float32>,
    pub gpu_frequency: Option<Float32>,
    pub cpu_temperature: Float32,
    pub gpu_temperature: Option<Float32>,
    pub memory_usage: Float32,
    pub memory_max: Float32,
    pub disks: Seq<DiskInfoView>,
    pub processes: Seq<Seq<char>>,
    pub os_name: Seq<char>,
    pub os_version: Seq<char>,
    pub os_kernel: Seq<char>,
    pub os_architecture: Seq<char>,
    pub cpu_model: Seq<char>,
    pub gpu_model: Option<Seq<char>>,
}

/// The values of a list of disks, in order.
pub open spec fn disk_views(disks: Seq<DiskInfo>) -> Seq<DiskInfoView> {
    Seq::new(disks.len(), |i: int| disks[i]@)
}

/// The values of a list of strings, in order.
pub open spec fn string_views(strings: Seq<String>) -> Seq<Seq<char>> {
    Seq::new(strings.len(), |i: int| strings[i]@)
}

/// The value of a string that may be absent.
pub open spec fn optional_string_view(text: Option<String>) -> Option<Seq<char>> {
    match text {
        Some(s) => Some(s@),
        None => None,
    }
}

impl View for HostInfo {
    type V = HostInfoView;

    open spec fn view(&self) -> HostInfoView {
        HostInfoView {
            hostname: self.hostname@,
            ip: self.ip@,
            uptime: self.uptime,
            cpu_usage: self.cpu_usage,
            cpu_frequency: self.cpu_frequency,
            gpu_usage: self.gpu_usage,
            gpu_frequency: self.gpu_frequency,
            cpu_temperature: self.cpu_temperature,
            gpu_temperature: self.gpu_temperature,
            memory_usage: self.memory_usage,
            memory_max: self.memory_max,
            disks: disk_views(self.disks@),
            processes: string_views(self.processes@),
            os_name: self.os_name@,
            os_version: self.os_version@,
            os_kernel: self.os_kernel@,
            os_architecture: self.os_architecture@,
            cpu_model: self.cpu_model@,
            gpu_model: optional_string_view(self.gpu_model),
        }
    }
}

/// The values of a list of reports, in order.
pub open spec fn report_views(reports: Seq<HostInfo>) -> Seq<HostInfoView> {
    Seq::new(reports.len(), |i: int| reports[i]@)
}

fn clone_disks(disks: &Vec<DiskInfo>) -> (copy: Vec<DiskInfo>)
    ensures
        disk_views(copy@) == disk_views(disks@),
{
    let mut copy: Vec<DiskInfo> = Vec::new();
    let mut i: usize = 0;
    while i < disks.len()
        invariant
            i <= disks@.len(),
            copy@.len() == i,
            forall|k: int| 0 <= k < i ==> copy@[k]@ == disks@[k]@,
        decreases disks@.len() - i,
    {
        copy.push(disks[i].clone());
        i += 1;
    }
    assert(disk_views(copy@) =~= disk_views(disks@));
    copy
}

fn clone_strings(strings: &Vec<String>) -> (copy: Vec<String>)
    ensures
        string_views(copy@) == string_views(strings@),
{
    let mut copy: Vec<String> = Vec::new();
    let mut i: usize = 0;
    while i < strings.len()
        invariant
            i <= strings@.len(),
            copy@.len() == i,
            forall|k: int| 0 <= k < i ==> copy@[k]@ == strings@[k]@,
        decreases strings@.len() - i,
    {
        copy.push(strings[i].clone());
        i += 1;
    }
    assert(string_views(copy@) =~= string_views(strings@));
    copy
}

fn clone_optional_string(text: &Option<String>) -> (copy: Option<String>)
    ensures
        optional_string_view(copy) == optional_string_view(*text),
{
    match text {
        Some(s) => Some(s.clone()),
        None => None,
    }
}

impl Clone for HostInfo {
    /// A copy that shares nothing with `self` and has the same value: every
    /// field, every list in its order, and absent fields absent.
    fn clone(&self) -> (copy: Self)
        ensures
            copy@ == self@,
    {
        HostInfo {
            hostname: self.hostname.clone(),
            ip: self.ip.clone(),
            uptime: self.uptime,
            cpu_usage: self.cpu_usage,
            cpu_frequency: self.cpu_frequency,
            gpu_usage: self.gpu_usage,
            gpu_frequency: self.gpu_frequency,
            cpu_temperature: self.cpu_temperature,
            gpu_temperature: self.gpu_temperature,
            memory_usage: self.memory_usage,
            memory_max: self.memory_max,
            disks: clone_disks(&self.disks),
            processes: clone_strings(&self.processes),
            os_name: self.os_name.clone(),
            os_version: self.os_version.clone(),
            os_kernel: self.os_kernel.clone(),
            os_architecture: self.os_architecture.clone(),
            cpu_model: self.cpu_model.clone(),
            gpu_model: clone_optional_string(&self.gpu_model),
        }
    }
}

} // verus!
