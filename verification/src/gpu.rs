//! GPU telemetry decisions for AMD and Intel adapters: the Intel control
//! library's version words and result codes, the order in which its
//! initialisation is tried, the live clock and temperature taken from the
//! per-engine perf data, and the utilisation sampler that turns two
//! snapshots of cumulative engine busy time into the busiest engine's load.

use vstd::prelude::*;

verus! {

// ---------------------------------------------------------------------
// Intel control library

/// `CTL_MAKE_VERSION(major, minor)`: the major version in the high half.
pub open spec fn version_word(major: u16, minor: u16) -> u32 {
    ((major as u32) << 16) | (minor as u32)
}

pub fn make_version(major: u16, minor: u16) -> (r: u32)
    ensures
        r == version_word(major, minor),
        r == major as u32 * 65536 + minor as u32,
{
    let r = ((major as u32) << 16) | (minor as u32);
    assert(((major as u32) << 16) | (minor as u32) == major as u32 * 65536 + minor as u32)
        by (bit_vector);
    r
}

/// The (major, minor) halves of a version word.
pub fn version_parts(v: u32) -> (r: (u16, u16))
    ensures
        r.0 == v / 65536,
        r.1 == v % 65536,
{
    let hi = (v >> 16) as u16;
    let lo = (v & 0xffff) as u16;
    assert(((v >> 16) as u16) == v / 65536 && ((v & 0xffff) as u16) == v % 65536) by (bit_vector);
    (hi, lo)
}

/// Splitting a made version gives back its two halves.
pub proof fn law_version_round_trip(major: u16, minor: u16)
    ensures
        version_word(major, minor) / 65536 == major,
        version_word(major, minor) % 65536 == minor,
{
    assert(version_word(major, minor) / 65536 == major && version_word(major, minor) % 65536
        == minor) by (bit_vector);
}

/// The short name of a library result code seen in the field, or empty.
pub open spec fn result_text(r: i32) -> Seq<char> {
    let u = r as u32;
    if u == 0 {
        "SUCCESS"@
    } else if u == 0x4000_0001 {
        "NOT_INITIALIZED"@
    } else if u == 0x4000_0002 {
        "ALREADY_INITIALIZED"@
    } else if u == 0x4000_0007 {
        "NOT_AVAILABLE"@
    } else if u == 0x4000_0009 {
        "UNSUPPORTED_VERSION"@
    } else if u == 0x4000_000C {
        "INVALID_API_HANDLE"@
    } else if u == 0x4000_0020 {
        "PLATFORM_NOT_SUPPORTED"@
    } else if u == 0x4000_0021 {
        "UNKNOWN_APPLICATION_UID"@
    } else {
        Seq::empty()
    }
}

pub fn result_name(r: i32) -> (s: String)
    ensures
        s@ == result_text(r),
{
    let u = r as u32;
    if u == 0 {
        "SUCCESS".to_owned()
    } else if u == 0x4000_0001 {
        "NOT_INITIALIZED".to_owned()
    } else if u == 0x4000_0002 {
        "ALREADY_INITIALIZED".to_owned()
    } else if u == 0x4000_0007 {
        "NOT_AVAILABLE".to_owned()
    } else if u == 0x4000_0009 {
        "UNSUPPORTED_VERSION".to_owned()
    } else if u == 0x4000_000C {
        "INVALID_API_HANDLE".to_owned()
    } else if u == 0x4000_0020 {
        "PLATFORM_NOT_SUPPORTED".to_owned()
    } else if u == 0x4000_0021 {
        "UNKNOWN_APPLICATION_UID".to_owned()
    } else {
        String::new()
    }
}

/// The library versions to request, in order.
pub open spec fn app_versions() -> Seq<(u16, u16)> {
    seq![(1u16, 1u16), (1u16, 2u16), (1u16, 3u16), (2u16, 0u16), (1u16, 0u16)]
}

/// The initialisation attempts, in order: application UID 0 (the zeroed
/// one) with each version, then UID 1 (the registered one) with each.
pub open spec fn init_attempt(k: int) -> (usize, u16, u16) {
    ((k / 5) as usize, app_versions()[k % 5].0, app_versions()[k % 5].1)
}

pub fn init_attempts() -> (r: Vec<(usize, u16, u16)>)
    ensures
        r@.len() == 10,
        forall|k: int| 0 <= k < 10 ==> r@[k] == init_attempt(k),
{
    let versions: Vec<(u16, u16)> = vec![(1, 1), (1, 2), (1, 3), (2, 0), (1, 0)];
    assert(versions@ =~= app_versions());
    let mut r: Vec<(usize, u16, u16)> = Vec::new();
    let mut uid: usize = 0;
    while uid < 2
        invariant
            uid <= 2,
            versions@ == app_versions(),
            r@.len() == uid * 5,
            forall|k: int| 0 <= k < r@.len() ==> r@[k] == init_attempt(k),
        decreases 2 - uid,
    {
        let mut j: usize = 0;
        while j < 5
            invariant
                uid < 2,
                j <= 5,
                versions@ == app_versions(),
                r@.len() == uid * 5 + j,
                forall|k: int| 0 <= k < r@.len() ==> r@[k] == init_attempt(k),
            decreases 5 - j,
        {
            let (major, minor) = versions[j];
            let ghost k = (uid * 5 + j) as int;
            assert(k / 5 == uid && k % 5 == j) by (nonlinear_arith)
                requires
                    k == uid * 5 + j,
                    j < 5,
            ;
            r.push((uid, major, minor));
            j = j + 1;
        }
        uid = uid + 1;
    }
    r
}

/// The cached library state: not tried yet, unavailable, or ready.
#[derive(Debug)]
pub enum LibraryState {
    Uninit,
    Failed,
    Ready,
}

/// The state after an initialisation attempt.
pub fn after_discovery(found: bool) -> (r: LibraryState)
    ensures
        r == (if found {
            LibraryState::Ready
        } else {
            LibraryState::Failed
        }),
{
    if found {
        LibraryState::Ready
    } else {
        LibraryState::Failed
    }
}

// ---------------------------------------------------------------------
// Engine perf data

/// Some node query succeeded.
pub open spec fn any_node(nodes: Seq<Option<u64>>) -> bool {
    exists|i: int| 0 <= i < nodes.len() && nodes[i] is Some
}

/// The highest frequency among the nodes that answered (0 if none did).
pub open spec fn max_hz(nodes: Seq<Option<u64>>) -> u64
    decreases nodes.len(),
{
    if nodes.len() == 0 {
        0
    } else {
        let m = max_hz(nodes.drop_last());
        match nodes.last() {
            Some(f) => if f > m {
                f
            } else {
                m
            },
            None => m,
        }
    }
}

/// The live core clock in Hz from the per-node frequencies: the highest
/// live one; 0 when nodes answered but all are idle; nothing when no node
/// answered.
pub open spec fn clock_of(nodes: Seq<Option<u64>>) -> Option<u64> {
    if max_hz(nodes) > 0 {
        Some(max_hz(nodes))
    } else if any_node(nodes) {
        Some(0)
    } else {
        None
    }
}

pub fn best_clock_hz(nodes: &[Option<u64>]) -> (r: Option<u64>)
    ensures
        r == clock_of(nodes@),
{
    let mut any = false;
    let mut best: u64 = 0;
    let mut i: usize = 0;
    while i < nodes.len()
        invariant
            i <= nodes@.len(),
            best == max_hz(nodes@.take(i as int)),
            any == any_node(nodes@.take(i as int)),
        decreases nodes@.len() - i,
    {
        let ghost t = nodes@.take(i + 1);
        assert(t.drop_last() =~= nodes@.take(i as int));
        assert(t.last() == nodes@[i as int]);
        match nodes[i] {
            Some(f) => {
                any = true;
                assert(t[i as int] is Some);
                if f > best {
                    best = f;
                }
            },
            None => {
                assert(any_node(t) == any_node(nodes@.take(i as int))) by {
                    if any_node(t) {
                        let w = choose|k: int| 0 <= k < t.len() && t[k] is Some;
                        assert(nodes@.take(i as int)[w] is Some);
                    }
                }
            },
        }
        proof {
            if any && !any_node(nodes@.take(i as int)) {
                assert(t[i as int] is Some);
            }
        }
        i = i + 1;
    }
    assert(nodes@.take(nodes@.len() as int) =~= nodes@);
    if best > 0 {
        Some(best)
    } else if any {
        Some(0)
    } else {
        None
    }
}

/// The adapter temperature in tenths of a degree, when the driver reports
/// one (a positive value).
pub fn adapter_temp(deci_c: Option<u32>) -> (r: Option<u32>)
    ensures
        r == match deci_c {
            Some(t) => if t > 0 {
                Some(t)
            } else {
                None
            },
            None => None,
        },
{
    match deci_c {
        Some(t) => if t > 0 {
            Some(t)
        } else {
            None
        },
        None => None,
    }
}

// ---------------------------------------------------------------------
// Utilisation

/// The busiest engine's busy-time growth between two samples (100 ns
/// ticks); an engine whose counter went back counts as idle.
pub open spec fn busiest_delta(cur: Seq<i64>, prev: Seq<i64>) -> int
    decreases cur.len(),
{
    if cur.len() == 0 {
        0
    } else {
        let m = busiest_delta(cur.drop_last(), prev);
        let d = cur.last() - prev[cur.len() - 1];
        let d0 = if d > 0 {
            d
        } else {
            0
        };
        if d0 > m {
            d0
        } else {
            m
        }
    }
}

pub proof fn lemma_busiest_bounds(cur: Seq<i64>, prev: Seq<i64>)
    ensures
        0 <= busiest_delta(cur, prev) <= u64::MAX,
    decreases cur.len(),
{
    if cur.len() > 0 {
        lemma_busiest_bounds(cur.drop_last(), prev);
    }
}

/// One utilisation reading: the busiest engine's busy time over the time
/// between the two samples. The load in percent is
/// `busiest_100ns * 100 / (elapsed_ns / 100)`, capped at 100.
#[derive(Debug)]
pub struct UsageSample {
    pub busiest_100ns: u64,
    pub elapsed_ns: u64,
}

/// Holds the previous sample (when it was taken, in nanoseconds on a
/// monotonic clock, and each engine's cumulative busy time).
#[derive(Debug)]
pub struct UsageSampler {
    prev: Option<(u64, Vec<i64>)>,
}

impl UsageSampler {
    /// The previous sample, if any.
    pub closed spec fn previous(&self) -> Option<(u64, Seq<i64>)> {
        match self.prev {
            Some((t, v)) => Some((t, v@)),
            None => None,
        }
    }

    pub fn new() -> (r: UsageSampler)
        ensures
            r.previous() is None,
    {
        UsageSampler { prev: None }
    }

    /// Take a sample at `now_ns` with each engine's cumulative busy time.
    /// Gives a reading when a previous sample over the same engines exists
    /// and time has passed since it; the sample becomes the new baseline
    /// either way.
    pub fn read(&mut self, now_ns: u64, cur: Vec<i64>) -> (r: Option<UsageSample>)
        ensures
            final(self).previous() == Some((now_ns, cur@)),
            match old(self).previous() {
                Some((t0, p)) => if p.len() == cur@.len() && now_ns > t0 {
                    r matches Some(s) && s.busiest_100ns == busiest_delta(cur@, p) && s.elapsed_ns
                        == now_ns - t0
                } else {
                    r is None
                },
                None => r is None,
            },
    {
        let usage = match &self.prev {
            Some((t0, prev)) => {
                if prev.len() == cur.len() && now_ns > *t0 {
                    let mut m: u64 = 0;
                    let mut i: usize = 0;
                    while i < cur.len()
                        invariant
                            i <= cur@.len(),
                            prev@.len() == cur@.len(),
                            m == busiest_delta(cur@.take(i as int), prev@),
                        decreases cur@.len() - i,
                    {
                        let ghost t = cur@.take(i + 1);
                        assert(t.drop_last() =~= cur@.take(i as int));
                        proof {
                            lemma_busiest_bounds(t, prev@);
                        }
                        let d: i128 = cur[i] as i128 - prev[i] as i128;
                        if d > 0 && d as u64 > m {
                            m = d as u64;
                        }
                        i = i + 1;
                    }
                    assert(cur@.take(cur@.len() as int) =~= cur@);
                    Some(UsageSample { busiest_100ns: m, elapsed_ns: now_ns - *t0 })
                } else {
                    None
                }
            },
            None => None,
        };
        self.prev = Some((now_ns, cur));
        usage
    }
}

} // verus!
