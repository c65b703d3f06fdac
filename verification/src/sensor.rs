//! Sensor-side decisions that do not touch hardware: whether a GPU name is an
//! integrated part, the short CPU name shown on the tile, the RAM type named
//! by its SMBIOS code, the order of drives, which sensor labels belong to the
//! CPU or the GPU, and the network data the widget shows.

use vstd::prelude::*;
use crate::text::{
    chars_of, contains, contains_str, find_first, find_first_exec, is_ws, join, join_vec,
    last_before, last_before_exec, lower_seq, lower_vec, occurs_at, remove_all, remove_all_vec,
    slice_range, starts_with, starts_with_seq, str_eq, string_of, to_lowercase, to_uppercase,
    trim, trim_end_char, trim_end_char_vec, trim_vec, unicode_lowercase, unicode_uppercase, words,
    words_vec,
};

verus! {

/// Traffic counters of one network interface, in bytes.
#[derive(Debug)]
pub struct NetInterface {
    pub name: String,
    pub upload_bytes_sec: u64,
    pub download_bytes_sec: u64,
    pub total_uploaded: u64,
    pub total_downloaded: u64,
}

/// All network interfaces of one poll.
#[derive(Debug)]
pub struct NetworkData {
    pub interfaces: Vec<NetInterface>,
}

// ---------------------------------------------------------------------
// Integrated or discrete GPU

/// Name fragments that only discrete cards carry.
pub open spec fn discrete_markers() -> Seq<&'static str> {
    seq![
        "geforce",
        "nvidia",
        "rtx",
        "gtx",
        "quadro",
        "tesla",
        "titan",
        "radeon rx",
        "radeon pro",
        "firepro",
        "instinct",
        "arc",
    ]
}

/// Model numbers of the mobile Radeon APU graphics.
pub open spec fn apu_models() -> Seq<&'static str> {
    seq!["610m", "660m", "680m", "740m", "760m", "780m", "860m", "880m", "890m"]
}

/// Some fragment of `list` occurs in `n`.
pub open spec fn contains_any(n: Seq<char>, list: Seq<&'static str>) -> bool {
    exists|i: int| 0 <= i < list.len() && contains(n, #[trigger] list[i]@)
}

/// Whether a lowercased adapter name is an integrated GPU. Discrete markers
/// veto first; then the Intel, AMD APU and ARM/Apple integrated families.
pub open spec fn integrated_lower(n: Seq<char>) -> bool {
    if contains_any(n, discrete_markers()) {
        false
    } else if contains(n, "uhd graphics"@) || contains(n, "hd graphics"@) || contains(n, "iris"@) {
        true
    } else if contains(n, "intel"@) && contains(n, "graphics"@) {
        true
    } else if contains(n, "radeon"@) && contains(n, "graphics"@) {
        true
    } else if contains(n, "radeon"@) && contains_any(n, apu_models()) {
        true
    } else {
        contains(n, "adreno"@) || contains(n, "mali"@) || contains(n, "apple m"@)
    }
}

fn contains_any_exec(n: &[char], list: &Vec<&'static str>) -> (r: bool)
    ensures
        r == contains_any(n@, list@),
{
    let mut i: usize = 0;
    while i < list.len()
        invariant
            i <= list@.len(),
            forall|j: int| 0 <= j < i ==> !contains(n@, #[trigger] list@[j]@),
        decreases list@.len() - i,
    {
        if contains_str(n, list[i]) {
            return true;
        }
        i = i + 1;
    }
    false
}

/// Whether an adapter name is an integrated GPU, by its ASCII-lowercased
/// name. Correctness leans towards "never call a discrete card integrated".
pub fn gpu_name_is_integrated(name: &str) -> (r: bool)
    ensures
        r == integrated_lower(lower_seq(name@)),
{
    let cs = chars_of(name);
    let n = lower_vec(cs.as_slice());
    let discrete: Vec<&'static str> = vec![
        "geforce",
        "nvidia",
        "rtx",
        "gtx",
        "quadro",
        "tesla",
        "titan",
        "radeon rx",
        "radeon pro",
        "firepro",
        "instinct",
        "arc",
    ];
    assert(discrete@ == discrete_markers());
    if contains_any_exec(n.as_slice(), &discrete) {
        return false;
    }
    if contains_str(n.as_slice(), "uhd graphics") || contains_str(n.as_slice(), "hd graphics")
        || contains_str(n.as_slice(), "iris") {
        return true;
    }
    if contains_str(n.as_slice(), "intel") && contains_str(n.as_slice(), "graphics") {
        return true;
    }
    if contains_str(n.as_slice(), "radeon") && contains_str(n.as_slice(), "graphics") {
        return true;
    }
    let apu: Vec<&'static str> = vec![
        "610m",
        "660m",
        "680m",
        "740m",
        "760m",
        "780m",
        "860m",
        "880m",
        "890m",
    ];
    assert(apu@ == apu_models());
    if contains_str(n.as_slice(), "radeon") && contains_any_exec(n.as_slice(), &apu) {
        return true;
    }
    contains_str(n.as_slice(), "adreno") || contains_str(n.as_slice(), "mali") || contains_str(
        n.as_slice(),
        "apple m",
    )
}

/// A name that carries a discrete marker is never taken for an integrated
/// GPU.
pub proof fn law_discrete_never_integrated(name: Seq<char>, i: int)
    requires
        0 <= i < discrete_markers().len(),
        contains(lower_seq(name), discrete_markers()[i]@),
    ensures
        !integrated_lower(lower_seq(name)),
{
}

// ---------------------------------------------------------------------
// CPU name

/// The name with its marketing suffix cut: when `-Core Processor` occurs,
/// everything from the last space before it on is dropped.
pub open spec fn cut_core_suffix(n: Seq<char>) -> Seq<char> {
    match find_first(n, "-Core Processor"@) {
        Some(idx) => match last_before(n, ' ', idx) {
            Some(sp) => n.take(sp),
            None => n,
        },
        None => n,
    }
}

/// The CPU name shown on the tile: `(R)` and `(TM)` removed, the
/// `N-Core Processor` suffix cut, and runs of whitespace collapsed to single
/// spaces with none at the ends.
pub open spec fn short_cpu_name(name: Seq<char>) -> Seq<char> {
    let n = remove_all(remove_all(name, "(R)"@), "(TM)"@);
    join(words(cut_core_suffix(n)), seq![' '])
}

pub fn shorten_cpu_name(name: &str) -> (r: String)
    ensures
        r@ == short_cpu_name(name@),
{
    let cs = chars_of(name);
    let reg = chars_of("(R)");
    let tm = chars_of("(TM)");
    let a = remove_all_vec(cs.as_slice(), reg.as_slice());
    let n = remove_all_vec(a.as_slice(), tm.as_slice());
    let suffix = chars_of("-Core Processor");
    let cut = match find_first_exec(n.as_slice(), suffix.as_slice()) {
        Some(idx) => {
            proof {
                assert(occurs_at(n@, suffix@, idx as int)) by {
                    let c = choose|k: int| crate::text::is_first_occurrence(n@, suffix@, k);
                    assert(crate::text::is_first_occurrence(n@, suffix@, c));
                }
            }
            match last_before_exec(n.as_slice(), ' ', idx) {
                Some(sp) => slice_range(n.as_slice(), 0, sp),
                None => n,
            }
        },
        None => n,
    };
    assert(cut@ == cut_core_suffix(n@));
    let ws = words_vec(cut.as_slice());
    let sp = vec![' '];
    let joined = join_vec(&ws, sp.as_slice());
    assert(sp@ =~= seq![' ']);
    string_of(joined.as_slice())
}

// ---------------------------------------------------------------------
// Memory, drives and sensor labels

/// The memory generation an SMBIOS memory-type code names, or empty.
pub open spec fn memory_type_of(code: u32) -> Seq<char> {
    if code == 20 {
        "DDR"@
    } else if code == 21 {
        "DDR2"@
    } else if code == 24 {
        "DDR3"@
    } else if code == 26 {
        "DDR4"@
    } else if code == 34 {
        "DDR5"@
    } else {
        Seq::empty()
    }
}

pub fn memory_type_name(code: u32) -> (r: String)
    ensures
        r@ == memory_type_of(code),
{
    if code == 20 {
        "DDR".to_owned()
    } else if code == 21 {
        "DDR2".to_owned()
    } else if code == 24 {
        "DDR3".to_owned()
    } else if code == 26 {
        "DDR4".to_owned()
    } else if code == 34 {
        "DDR5".to_owned()
    } else {
        String::new()
    }
}

/// A numeric WMI property as it comes back from the query.
#[derive(Debug)]
pub enum WmiNumber {
    UI4(u32),
    UI2(u16),
    I4(i32),
    I2(i16),
    Other,
}

/// A WMI number read as `u32` (signed values are reinterpreted, as by `as`);
/// a missing or non-numeric property reads as 0.
pub fn wmi_u32(v: Option<WmiNumber>) -> (r: u32)
    ensures
        r == match v {
            Some(WmiNumber::UI4(n)) => n,
            Some(WmiNumber::UI2(n)) => n as u32,
            Some(WmiNumber::I4(n)) => n as u32,
            Some(WmiNumber::I2(n)) => n as u32,
            _ => 0,
        },
{
    match v {
        Some(WmiNumber::UI4(n)) => n,
        Some(WmiNumber::UI2(n)) => n as u32,
        Some(WmiNumber::I4(n)) => n as u32,
        Some(WmiNumber::I2(n)) => n as u32,
        _ => 0,
    }
}

/// RAM speed and type from the first memory module's properties: nothing
/// when the speed is unknown (0).
pub fn ram_info(speed: u32, memory_type: u32) -> (r: Option<(u32, String)>)
    ensures
        match r {
            Some(p) => speed != 0 && p.0 == speed && p.1@ == memory_type_of(memory_type),
            None => speed == 0,
        },
{
    if speed == 0 {
        return None;
    }
    Some((speed, memory_type_name(memory_type)))
}

/// The system drive (`C:`) comes first.
pub open spec fn is_system_drive(mount: Seq<char>) -> bool {
    starts_with(mount, "C:"@)
}

/// Positions of the mounts that are (or are not) the system drive, in order.
pub open spec fn drive_positions(mounts: Seq<Seq<char>>, system: bool) -> Seq<usize>
    decreases mounts.len(),
{
    if mounts.len() == 0 {
        Seq::empty()
    } else {
        let prev = drive_positions(mounts.drop_last(), system);
        if is_system_drive(mounts.last()) == system {
            prev.push((mounts.len() - 1) as usize)
        } else {
            prev
        }
    }
}

/// The display order of drives: the `C:` drive first, the rest in mount
/// order (a stable sort on "is not `C:`").
pub fn drive_order(mounts: &Vec<String>) -> (r: Vec<usize>)
    ensures
        r@ == drive_positions(mounts@.map_values(|m: String| m@), true) + drive_positions(
            mounts@.map_values(|m: String| m@),
            false,
        ),
{
    let ghost ms = mounts@.map_values(|m: String| m@);
    let c = chars_of("C:");
    let mut first: Vec<usize> = Vec::new();
    let mut rest: Vec<usize> = Vec::new();
    let mut i: usize = 0;
    while i < mounts.len()
        invariant
            i <= mounts@.len(),
            c@ == "C:"@,
            ms == mounts@.map_values(|m: String| m@),
            first@ == drive_positions(ms.take(i as int), true),
            rest@ == drive_positions(ms.take(i as int), false),
        decreases mounts@.len() - i,
    {
        assert(ms.take(i + 1).drop_last() =~= ms.take(i as int));
        assert(ms.take(i + 1).last() == mounts@[i as int]@);
        let m = chars_of(mounts[i].as_str());
        if starts_with_seq(m.as_slice(), c.as_slice()) {
            first.push(i);
        } else {
            rest.push(i);
        }
        i = i + 1;
    }
    assert(ms.take(mounts@.len() as int) =~= ms);
    let mut k: usize = 0;
    let ghost f0 = first@;
    while k < rest.len()
        invariant
            k <= rest@.len(),
            first@ == f0 + rest@.take(k as int),
        decreases rest@.len() - k,
    {
        first.push(rest[k]);
        k = k + 1;
        assert(first@ =~= f0 + rest@.take(k as int));
    }
    assert(rest@.take(rest@.len() as int) =~= rest@);
    first
}

/// The key a drive's model is filed under: its mount without trailing
/// backslashes, uppercased; nothing when that is empty.
pub fn drive_key(mount: &str) -> (r: Option<String>)
    ensures
        match r {
            Some(k) => k@ == unicode_uppercase(trim_end_char(mount@, '\\')) && k@.len() > 0,
            None => unicode_uppercase(trim_end_char(mount@, '\\')).len() == 0,
        },
{
    let cs = chars_of(mount);
    let t = trim_end_char_vec(cs.as_slice(), '\\');
    let ts = string_of(t.as_slice());
    let up = to_uppercase(ts.as_str());
    if up.as_str().is_empty() {
        return None;
    }
    Some(up)
}

/// The model recorded for a drive: the trimmed model text, when any is left.
pub fn drive_model(model: &str) -> (r: Option<String>)
    ensures
        match r {
            Some(m) => m@ == trim(model@) && trim(model@).len() > 0,
            None => trim(model@).len() == 0,
        },
{
    let cs = chars_of(model);
    let t = trim_vec(cs.as_slice());
    if t.len() == 0 {
        None
    } else {
        Some(string_of(t.as_slice()))
    }
}

/// A kernel hardware-monitor label of the CPU package temperature: it
/// contains `package`, `tctl` or `tdie`, in any case.
pub open spec fn is_hwmon_package(lowered: Seq<char>) -> bool {
    contains(lowered, "package"@) || contains(lowered, "tctl"@) || contains(lowered, "tdie"@)
}

pub fn is_hwmon_cpu_label(label: &str) -> (r: bool)
    ensures
        r == is_hwmon_package(unicode_lowercase(label@)),
{
    let l = to_lowercase(label);
    let lc = chars_of(l.as_str());
    contains_str(lc.as_slice(), "package") || contains_str(lc.as_slice(), "tctl") || contains_str(
        lc.as_slice(),
        "tdie",
    )
}

/// What a hardware-monitor temperature sensor measures, by its name.
#[derive(Debug, Clone, Copy, PartialEq, Eq, Structural)]
pub enum MonitorSensor {
    /// The CPU package as a whole, preferred when present.
    Package,
    /// One core (or the AMD control temperature); the hottest one is used.
    Core,
    /// Not a CPU temperature.
    Other,
}

/// The kind of a hardware-monitor sensor: only names containing `cpu`
/// count; `package` marks the package, else `core` or `tctl` a core. Names
/// are compared lower-cased.
pub open spec fn monitor_sensor_of(lowered: Seq<char>) -> MonitorSensor {
    if !contains(lowered, "cpu"@) {
        MonitorSensor::Other
    } else if contains(lowered, "package"@) {
        MonitorSensor::Package
    } else if contains(lowered, "core"@) || contains(lowered, "tctl"@) {
        MonitorSensor::Core
    } else {
        MonitorSensor::Other
    }
}

pub fn monitor_sensor(name: &str) -> (r: MonitorSensor)
    ensures
        r == monitor_sensor_of(unicode_lowercase(name@)),
{
    let l = to_lowercase(name);
    let lc = chars_of(l.as_str());
    if !contains_str(lc.as_slice(), "cpu") {
        MonitorSensor::Other
    } else if contains_str(lc.as_slice(), "package") {
        MonitorSensor::Package
    } else if contains_str(lc.as_slice(), "core") || contains_str(lc.as_slice(), "tctl") {
        MonitorSensor::Core
    } else {
        MonitorSensor::Other
    }
}

/// A sensor label that names the CPU package: it contains `cpu`, `package`
/// or `tctl`, in any case.
pub open spec fn is_cpu_label(lowered: Seq<char>) -> bool {
    contains(lowered, "cpu"@) || contains(lowered, "package"@) || contains(lowered, "tctl"@)
}

pub fn is_cpu_temp_label(label: &str) -> (r: bool)
    ensures
        r == is_cpu_label(unicode_lowercase(label@)),
{
    let l = to_lowercase(label);
    let lc = chars_of(l.as_str());
    contains_str(lc.as_slice(), "cpu") || contains_str(lc.as_slice(), "package") || contains_str(
        lc.as_slice(),
        "tctl",
    )
}

/// A sensor label that names the GPU: it contains `gpu`, in any case.
pub fn is_gpu_temp_label(label: &str) -> (r: bool)
    ensures
        r == contains(unicode_lowercase(label@), "gpu"@),
{
    let l = to_lowercase(label);
    let lc = chars_of(l.as_str());
    contains_str(lc.as_slice(), "gpu")
}

} // verus!
