//! CPU temperature through the PawnIO driver, without the driver: which
//! decode a CPU needs (from its CPUID words and brand string), the decode of
//! the AMD SMN and Intel MSR thermal registers, the sanity gate, and the
//! cached driver probe that a user action can reset.
//!
//! Temperatures are in eighths of a degree Celsius, the resolution of the
//! AMD register; every reading here is an exact multiple of that.

use vstd::prelude::*;
use crate::text::{
    chars_of, contains, contains_str, lossy_text, string_of, trim, trim_end_char,
    trim_end_char_vec, trim_vec, utf8_lossy,
};

verus! {

/// Which bundled driver module matches the CPU.
#[derive(Debug, PartialEq, Eq, Structural)]
pub enum CpuKind {
    /// AMD Zen (families 0x17, 0x19, 0x1A).
    Amd17,
    Intel,
}

/// The decode to apply once the matching module is loaded.
#[derive(Debug, Clone, Copy, PartialEq, Eq, Structural)]
pub enum TempDecode {
    /// AMD Zen; `tctl_offset` (whole degrees, at most 0) converts Tctl to Tdie.
    Amd17 { tctl_offset: i32 },
    Intel,
}

/// The little-endian bytes of a register.
pub open spec fn le_bytes(x: u32) -> Seq<u8> {
    seq![(x & 0xff) as u8, ((x >> 8) & 0xff) as u8, ((x >> 16) & 0xff) as u8, ((x >> 24) & 0xff) as u8]
}

fn push_le_bytes(out: &mut Vec<u8>, x: u32)
    ensures
        final(out)@ == old(out)@ + le_bytes(x),
{
    out.push((x & 0xff) as u8);
    out.push(((x >> 8) & 0xff) as u8);
    out.push(((x >> 16) & 0xff) as u8);
    out.push(((x >> 24) & 0xff) as u8);
    assert(out@ =~= old(out)@ + le_bytes(x));
}

/// The CPU family from CPUID leaf 1 `eax`: the base family, plus the
/// extended family when the base is 0xF.
pub open spec fn family_of(eax: u32) -> u32 {
    let base = (eax >> 8) & 0xF;
    let ext = (eax >> 20) & 0xFF;
    if base == 0xF {
        (base + ext) as u32
    } else {
        base
    }
}

pub fn cpu_family(eax: u32) -> (r: u32)
    ensures
        r == family_of(eax),
{
    let base = (eax >> 8) & 0xF;
    let ext = (eax >> 20) & 0xFF;
    assert(base <= 0xF && ext <= 0xFF) by (bit_vector)
        requires
            base == (eax >> 8) & 0xF,
            ext == (eax >> 20) & 0xFF,
    ;
    if base == 0xF {
        base + ext
    } else {
        base
    }
}

/// The 12 vendor bytes of CPUID leaf 0: `ebx`, `edx`, `ecx` in that order.
pub open spec fn vendor_bytes(ebx: u32, edx: u32, ecx: u32) -> Seq<u8> {
    le_bytes(ebx) + le_bytes(edx) + le_bytes(ecx)
}

/// `AuthenticAMD`.
pub open spec fn amd_vendor() -> Seq<u8> {
    seq![65u8, 117, 116, 104, 101, 110, 116, 105, 99, 65, 77, 68]
}

/// `GenuineIntel`.
pub open spec fn intel_vendor() -> Seq<u8> {
    seq![71u8, 101, 110, 117, 105, 110, 101, 73, 110, 116, 101, 108]
}

/// The vendor text of CPUID leaf 0.
pub fn vendor_string(ebx: u32, edx: u32, ecx: u32) -> (r: String)
    ensures
        r@ == lossy_text(vendor_bytes(ebx, edx, ecx)),
{
    let mut b: Vec<u8> = Vec::new();
    push_le_bytes(&mut b, ebx);
    push_le_bytes(&mut b, edx);
    push_le_bytes(&mut b, ecx);
    assert(b@ =~= vendor_bytes(ebx, edx, ecx));
    utf8_lossy(b.as_slice())
}

/// The module a CPU needs: AMD Zen families 0x17/0x19/0x1A, or any Intel.
pub open spec fn kind_of(vendor: Seq<u8>, family: u32) -> Option<CpuKind> {
    if vendor == amd_vendor() && (family == 0x17 || family == 0x19 || family == 0x1A) {
        Some(CpuKind::Amd17)
    } else if vendor == intel_vendor() {
        Some(CpuKind::Intel)
    } else {
        None
    }
}

/// The vendor registers `AuthenticAMD` and `GenuineIntel` give.
proof fn lemma_vendor_registers()
    ensures
        vendor_bytes(0x6874_7541, 0x6974_6e65, 0x444d_4163) == seq![
            'A' as u8, 'u' as u8, 't' as u8, 'h' as u8, 'e' as u8, 'n' as u8,
            't' as u8, 'i' as u8, 'c' as u8, 'A' as u8, 'M' as u8, 'D' as u8,
        ],
        vendor_bytes(0x756e_6547, 0x4965_6e69, 0x6c65_746e) == seq![
            'G' as u8, 'e' as u8, 'n' as u8, 'u' as u8, 'i' as u8, 'n' as u8,
            'e' as u8, 'I' as u8, 'n' as u8, 't' as u8, 'e' as u8, 'l' as u8,
        ],
{
    assert(le_bytes(0x6874_7541) =~= seq![0x41u8, 0x75, 0x74, 0x68]) by {
        assert((0x6874_7541u32 & 0xff) as u8 == 0x41u8 && ((0x6874_7541u32 >> 8) & 0xff) as u8 == 0x75u8
            && ((0x6874_7541u32 >> 16) & 0xff) as u8 == 0x74u8 && ((0x6874_7541u32 >> 24) & 0xff) as u8
            == 0x68u8) by (bit_vector);
    }
    assert(le_bytes(0x6974_6e65) =~= seq![0x65u8, 0x6e, 0x74, 0x69]) by {
        assert((0x6974_6e65u32 & 0xff) as u8 == 0x65u8 && ((0x6974_6e65u32 >> 8) & 0xff) as u8 == 0x6eu8
            && ((0x6974_6e65u32 >> 16) & 0xff) as u8 == 0x74u8 && ((0x6974_6e65u32 >> 24) & 0xff) as u8
            == 0x69u8) by (bit_vector);
    }
    assert(le_bytes(0x444d_4163) =~= seq![0x63u8, 0x41, 0x4d, 0x44]) by {
        assert((0x444d_4163u32 & 0xff) as u8 == 0x63u8 && ((0x444d_4163u32 >> 8) & 0xff) as u8 == 0x41u8
            && ((0x444d_4163u32 >> 16) & 0xff) as u8 == 0x4du8 && ((0x444d_4163u32 >> 24) & 0xff) as u8
            == 0x44u8) by (bit_vector);
    }
    assert(le_bytes(0x756e_6547) =~= seq![0x47u8, 0x65, 0x6e, 0x75]) by {
        assert((0x756e_6547u32 & 0xff) as u8 == 0x47u8 && ((0x756e_6547u32 >> 8) & 0xff) as u8 == 0x65u8
            && ((0x756e_6547u32 >> 16) & 0xff) as u8 == 0x6eu8 && ((0x756e_6547u32 >> 24) & 0xff) as u8
            == 0x75u8) by (bit_vector);
    }
    assert(le_bytes(0x4965_6e69) =~= seq![0x69u8, 0x6e, 0x65, 0x49]) by {
        assert((0x4965_6e69u32 & 0xff) as u8 == 0x69u8 && ((0x4965_6e69u32 >> 8) & 0xff) as u8 == 0x6eu8
            && ((0x4965_6e69u32 >> 16) & 0xff) as u8 == 0x65u8 && ((0x4965_6e69u32 >> 24) & 0xff) as u8
            == 0x49u8) by (bit_vector);
    }
    assert(le_bytes(0x6c65_746e) =~= seq![0x6eu8, 0x74, 0x65, 0x6c]) by {
        assert((0x6c65_746eu32 & 0xff) as u8 == 0x6eu8 && ((0x6c65_746eu32 >> 8) & 0xff) as u8 == 0x74u8
            && ((0x6c65_746eu32 >> 16) & 0xff) as u8 == 0x65u8 && ((0x6c65_746eu32 >> 24) & 0xff) as u8
            == 0x6cu8) by (bit_vector);
    }
    assert(vendor_bytes(0x6874_7541, 0x6974_6e65, 0x444d_4163) =~= seq![
        'A' as u8, 'u' as u8, 't' as u8, 'h' as u8, 'e' as u8, 'n' as u8,
        't' as u8, 'i' as u8, 'c' as u8, 'A' as u8, 'M' as u8, 'D' as u8,
    ]);
    assert(vendor_bytes(0x756e_6547, 0x4965_6e69, 0x6c65_746e) =~= seq![
        'G' as u8, 'e' as u8, 'n' as u8, 'u' as u8, 'i' as u8, 'n' as u8,
        'e' as u8, 'I' as u8, 'n' as u8, 't' as u8, 'e' as u8, 'l' as u8,
    ]);
}

/// The module choice from CPUID: an `AuthenticAMD` CPU of family 0x17
/// (Zen, Zen 2), 0x19 (Zen 3, Zen 4) or 0x1A (Zen 5), that is base family
/// 0xF with extended family 8, 0xA or 0xB, uses the Family 17h module; an
/// AMD CPU of any other family (base family below 0xF, or another extended
/// family) is unsupported; every `GenuineIntel` CPU uses the Intel module.
pub proof fn law_cpu_kind_from_cpuid(eax1: u32)
    ensures
        ((eax1 >> 8) & 0xF == 0xF && ((eax1 >> 20) & 0xFF == 0x8 || (eax1 >> 20) & 0xFF == 0xA
            || (eax1 >> 20) & 0xFF == 0xB)) ==> kind_of(
            vendor_bytes(0x6874_7541, 0x6974_6e65, 0x444d_4163),
            family_of(eax1),
        ) == Some(CpuKind::Amd17),
        ((eax1 >> 8) & 0xF != 0xF || !((eax1 >> 20) & 0xFF == 0x8 || (eax1 >> 20) & 0xFF == 0xA
            || (eax1 >> 20) & 0xFF == 0xB)) ==> kind_of(
            vendor_bytes(0x6874_7541, 0x6974_6e65, 0x444d_4163),
            family_of(eax1),
        ) is None,
        kind_of(vendor_bytes(0x756e_6547, 0x4965_6e69, 0x6c65_746e), family_of(eax1)) == Some(
            CpuKind::Intel,
        ),
{
    lemma_vendor_registers();
    assert(amd_vendor() =~= vendor_bytes(0x6874_7541, 0x6974_6e65, 0x444d_4163));
    assert(intel_vendor() =~= vendor_bytes(0x756e_6547, 0x4965_6e69, 0x6c65_746e));
    assert(amd_vendor() != intel_vendor()) by {
        assert(amd_vendor()[0] != intel_vendor()[0]);
    }
    let base = (eax1 >> 8) & 0xF;
    let ext = (eax1 >> 20) & 0xFF;
    assert(base <= 0xF && ext <= 0xFF) by (bit_vector)
        requires
            base == (eax1 >> 8) & 0xF,
            ext == (eax1 >> 20) & 0xFF,
    ;
}

fn bytes_eq(a: &[u8], b: &[u8]) -> (r: bool)
    ensures
        r == (a@ == b@),
{
    if a.len() != b.len() {
        return false;
    }
    let mut i: usize = 0;
    while i < a.len()
        invariant
            i <= a@.len(),
            a@.len() == b@.len(),
            forall|j: int| 0 <= j < i ==> a@[j] == b@[j],
        decreases a@.len() - i,
    {
        if a[i] != b[i] {
            return false;
        }
        i = i + 1;
    }
    assert(a@ =~= b@);
    true
}

/// Which bundled module matches the CPU, from the CPUID leaf 0 vendor
/// registers and leaf 1 `eax`.
pub fn cpu_info(ebx: u32, edx: u32, ecx: u32, eax1: u32) -> (r: Option<CpuKind>)
    ensures
        r == kind_of(vendor_bytes(ebx, edx, ecx), family_of(eax1)),
{
    let mut b: Vec<u8> = Vec::new();
    push_le_bytes(&mut b, ebx);
    push_le_bytes(&mut b, edx);
    push_le_bytes(&mut b, ecx);
    assert(b@ =~= vendor_bytes(ebx, edx, ecx));
    let family = cpu_family(eax1);
    let amd: Vec<u8> = vec![65u8, 117, 116, 104, 101, 110, 116, 105, 99, 65, 77, 68];
    let intel: Vec<u8> = vec![71u8, 101, 110, 117, 105, 110, 101, 73, 110, 116, 101, 108];
    assert(amd@ =~= amd_vendor());
    assert(intel@ =~= intel_vendor());
    if bytes_eq(b.as_slice(), amd.as_slice()) && (family == 0x17 || family == 0x19 || family
        == 0x1A) {
        Some(CpuKind::Amd17)
    } else if bytes_eq(b.as_slice(), intel.as_slice()) {
        Some(CpuKind::Intel)
    } else {
        None
    }
}

/// The brand-string bytes of CPUID leaves 0x80000002..4: each leaf's `eax`,
/// `ebx`, `ecx`, `edx`, little-endian.
pub open spec fn brand_bytes(regs: Seq<u32>) -> Seq<u8>
    decreases regs.len(),
{
    if regs.len() == 0 {
        Seq::empty()
    } else {
        brand_bytes(regs.drop_last()) + le_bytes(regs.last())
    }
}

/// The brand string: empty when the extended leaves stop short of
/// 0x80000004; else the text of the bytes without trailing NULs, trimmed.
pub open spec fn brand_of(max_ext_leaf: u32, regs: Seq<u32>) -> Seq<char> {
    if max_ext_leaf < 0x8000_0004 {
        Seq::empty()
    } else {
        trim(trim_end_char(lossy_text(brand_bytes(regs)), '\0'))
    }
}

/// The CPUID brand string from the highest extended leaf and the twelve
/// registers of leaves 0x80000002..0x80000004.
pub fn brand_string(max_ext_leaf: u32, regs: &[u32]) -> (r: String)
    requires
        regs@.len() == 12,
    ensures
        r@ == brand_of(max_ext_leaf, regs@),
{
    if max_ext_leaf < 0x8000_0004 {
        return String::new();
    }
    let mut bytes: Vec<u8> = Vec::new();
    let mut i: usize = 0;
    while i < regs.len()
        invariant
            i <= regs@.len(),
            bytes@ == brand_bytes(regs@.take(i as int)),
        decreases regs@.len() - i,
    {
        assert(regs@.take(i + 1).drop_last() =~= regs@.take(i as int));
        push_le_bytes(&mut bytes, regs[i]);
        i = i + 1;
    }
    assert(regs@.take(regs@.len() as int) =~= regs@);
    let s = utf8_lossy(bytes.as_slice());
    let cs = chars_of(s.as_str());
    let t = trim_end_char_vec(cs.as_slice(), '\0');
    let tt = trim_vec(t.as_slice());
    string_of(tt.as_slice())
}

/// The Tctl-to-Tdie offset (whole degrees) for the early Ryzen and
/// Threadripper parts that need one, by brand string; 0 for the rest.
pub open spec fn tctl_offset_of(brand: Seq<char>) -> i32 {
    if contains(brand, "1600X"@) || contains(brand, "1700X"@) || contains(brand, "1800X"@) {
        -20i32
    } else if contains(brand, "Threadripper"@) && (contains(brand, " 19"@) || contains(
        brand,
        " 29"@,
    )) {
        -27i32
    } else if contains(brand, "2700X"@) {
        -10i32
    } else {
        0
    }
}

pub fn amd_tctl_offset(brand: &str) -> (r: i32)
    ensures
        r == tctl_offset_of(brand@),
{
    let b = chars_of(brand);
    let s = b.as_slice();
    if contains_str(s, "1600X") || contains_str(s, "1700X") || contains_str(s, "1800X") {
        -20i32
    } else if contains_str(s, "Threadripper") && (contains_str(s, " 19") || contains_str(
        s,
        " 29",
    )) {
        -27i32
    } else if contains_str(s, "2700X") {
        -10i32
    } else {
        0
    }
}

/// The decode for a matched CPU, given its brand string.
pub fn decode_for(kind: CpuKind, brand: &str) -> (r: TempDecode)
    ensures
        r == match kind {
            CpuKind::Amd17 => TempDecode::Amd17 { tctl_offset: tctl_offset_of(brand@) },
            CpuKind::Intel => TempDecode::Intel,
        },
{
    match kind {
        CpuKind::Amd17 => TempDecode::Amd17 { tctl_offset: amd_tctl_offset(brand) },
        CpuKind::Intel => TempDecode::Intel,
    }
}

// ---------------------------------------------------------------------
// Register decode

/// The AMD thermal register selects the -49 degree range: bit 19, or both
/// bits 17 and 16.
pub open spec fn amd_range_offset(raw: u32) -> bool {
    (raw & 0x80000) != 0 || (raw & 0x30000) == 0x30000
}

/// AMD Zen temperature in eighths of a degree: bits 31..21 of the SMN
/// thermal register, minus 49 degrees in the offset range, plus the Tctl
/// offset.
pub open spec fn amd17_eighths(raw: u32, tctl_offset: i32) -> int {
    (raw >> 21) as int - (if amd_range_offset(raw) {
        392int
    } else {
        0int
    }) + 8 * tctl_offset
}

pub fn read_amd17(raw: u32, tctl_offset: i32) -> (r: i64)
    ensures
        r == amd17_eighths(raw, tctl_offset),
{
    let range_offset = (raw & 0x80000) != 0 || (raw & 0x30000) == 0x30000;
    let hi = raw >> 21;
    assert(hi < 2048) by (bit_vector)
        requires
            hi == raw >> 21,
    ;
    let mut t: i64 = hi as i64;
    if range_offset {
        t = t - 392;
    }
    t + 8 * (tctl_offset as i64)
}

/// TjMax from `IA32_TEMPERATURE_TARGET` (`eax`): bits 23..16 when the read
/// worked and they are nonzero, else 100 degrees.
pub open spec fn tjmax_of(target: Option<u32>) -> u32 {
    match target {
        Some(eax) => if ((eax >> 16) & 0xFF) > 0 {
            (eax >> 16) & 0xFF
        } else {
            100
        },
        None => 100,
    }
}

pub fn intel_tjmax(target: Option<u32>) -> (r: u32)
    ensures
        r == tjmax_of(target),
{
    match target {
        Some(eax) => {
            let v = (eax >> 16) & 0xFF;
            if v > 0 {
                v
            } else {
                100
            }
        },
        None => 100,
    }
}

/// The distance to TjMax from a thermal status register (`eax`): bits
/// 22..16, when the read worked and the reading-valid bit 31 is set.
pub open spec fn delta_of(status: Option<u32>) -> Option<u32> {
    match status {
        Some(eax) => if eax & 0x8000_0000 == 0 {
            None
        } else {
            Some((eax & 0x007F_0000) >> 16)
        },
        None => None,
    }
}

pub fn thermal_delta(status: Option<u32>) -> (r: Option<u32>)
    ensures
        r == delta_of(status),
{
    match status {
        Some(eax) => if eax & 0x8000_0000 == 0 {
            None
        } else {
            Some((eax & 0x007F_0000) >> 16)
        },
        None => None,
    }
}

/// Intel package temperature in eighths of a degree: TjMax minus the
/// package delta, or the core delta when the package one is missing.
pub open spec fn intel_eighths(target: Option<u32>, package: Option<u32>, core: Option<u32>) -> Option<int> {
    let d = match delta_of(package) {
        Some(d) => Some(d),
        None => delta_of(core),
    };
    match d {
        Some(d) => Some(8 * (tjmax_of(target) - d)),
        None => None,
    }
}

pub fn read_intel(target: Option<u32>, package: Option<u32>, core: Option<u32>) -> (r: Option<i64>)
    ensures
        match r {
            Some(t) => intel_eighths(target, package, core) == Some(t as int),
            None => intel_eighths(target, package, core) is None,
        },
{
    let tjmax = intel_tjmax(target);
    let d = match thermal_delta(package) {
        Some(d) => Some(d),
        None => thermal_delta(core),
    };
    match d {
        Some(d) => Some(8 * (tjmax as i64 - d as i64)),
        None => None,
    }
}

/// The sanity gate: a die is never below 0 or above 130 degrees.
pub open spec fn plausible_eighths(t: int) -> bool {
    0 <= t <= 130 * 8
}

pub fn gate_temp(t: i64) -> (r: Option<i64>)
    ensures
        r == (if plausible_eighths(t as int) {
            Some(t)
        } else {
            None::<i64>
        }),
{
    if 0 <= t && t <= 1040 {
        Some(t)
    } else {
        None
    }
}

// ---------------------------------------------------------------------
// The cached driver probe

/// The driver probe: not tried yet, tried and unavailable, or open with
/// the decode it needs.
#[derive(Debug, PartialEq, Eq, Structural)]
pub enum DriverProbe {
    NotProbed,
    Unavailable,
    Ready(TempDecode),
}

/// What a probe records.
pub open spec fn probed(opened: Option<TempDecode>) -> DriverProbe {
    match opened {
        Some(d) => DriverProbe::Ready(d),
        None => DriverProbe::Unavailable,
    }
}

/// Whether the next reading has to probe the driver first.
pub fn needs_probe(state: &DriverProbe) -> (r: bool)
    ensures
        r == (*state is NotProbed),
{
    match state {
        DriverProbe::NotProbed => true,
        _ => false,
    }
}

/// Record the result of probing the driver.
pub fn record_probe(state: &mut DriverProbe, opened: Option<TempDecode>)
    ensures
        *final(state) == probed(opened),
{
    *state = match opened {
        Some(d) => DriverProbe::Ready(d),
        None => DriverProbe::Unavailable,
    };
}

/// Drop the cached probe so the next reading re-detects the driver.
pub fn reset(state: &mut DriverProbe)
    ensures
        *final(state) == DriverProbe::NotProbed,
{
    *state = DriverProbe::NotProbed;
}

/// Called after the user installs or removes the driver: the next poll
/// re-detects it.
pub fn refresh_cpu_temp_driver(state: &mut DriverProbe)
    ensures
        *final(state) == DriverProbe::NotProbed,
{
    reset(state);
}

/// The decode a cached probe gives: the one found when the driver opened,
/// none otherwise.
pub open spec fn decode_of(state: DriverProbe) -> Option<TempDecode> {
    match state {
        DriverProbe::Ready(d) => Some(d),
        _ => None,
    }
}

/// One reading's use of the cached probe: the state afterwards and the
/// decode used. Not yet probed: the probe's result is recorded and used;
/// otherwise the cached result stands.
pub open spec fn next_decode(state: DriverProbe, opened: Option<TempDecode>) -> (DriverProbe, Option<TempDecode>) {
    if state is NotProbed {
        (probed(opened), opened)
    } else {
        (state, decode_of(state))
    }
}

/// The decode for the next temperature reading; `opened` is what probing
/// the driver finds, used only when the driver has not been probed (the
/// caller probes only when `needs_probe` says so).
pub fn reading_decode(state: &mut DriverProbe, opened: Option<TempDecode>) -> (r: Option<TempDecode>)
    ensures
        (*final(state), r) == next_decode(*old(state), opened),
{
    if needs_probe(state) {
        record_probe(state, opened);
    }
    match state {
        DriverProbe::Ready(d) => Some(*d),
        _ => None,
    }
}

/// After a reset the next reading probes the driver again and uses what
/// that probe finds; without a reset, once the driver was found unavailable
/// every later reading has no decode, whatever a later probe would find.
pub proof fn law_reset_reprobes(state: DriverProbe, opened: Option<TempDecode>, later: Option<TempDecode>)
    ensures
        next_decode(DriverProbe::NotProbed, opened).1 == opened,
        next_decode(next_decode(DriverProbe::NotProbed, None).0, later) == (
            DriverProbe::Unavailable,
            None::<TempDecode>,
        ),
        !(state is NotProbed) ==> next_decode(state, later).0 == state,
{
}

/// A probe's result is kept: no state it leaves asks for another probe.
pub proof fn law_probe_is_cached(opened: Option<TempDecode>)
    ensures
        !(probed(opened) is NotProbed),
{
}

} // verus!
