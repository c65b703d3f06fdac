//! Per-address authentication rate limiting for the sensor feed: after
//! `MAX_FAILS` failed handshakes an address is refused until its lockout
//! expires; a successful handshake clears its record.

use vstd::prelude::*;
use crate::text::str_eq;

verus! {

/// Failed handshakes after which an address is locked out.
pub const MAX_FAILS: u32 = 5;
/// How long a lockout lasts after the latest failure, in milliseconds.
pub const LOCKOUT_MS: u64 = 60_000;

/// One address's failure count and the end of its lockout window.
#[derive(Debug)]
pub struct FailureRecord {
    pub ip: String,
    pub fails: u32,
    pub until_ms: u64,
}

/// The failure records of all addresses that failed since their last success.
#[derive(Debug)]
pub struct RateLimiter {
    entries: Vec<FailureRecord>,
}

/// Whether the record map refuses `ip` at `now`.
pub open spec fn locked(m: Map<Seq<char>, (u32, u64)>, ip: Seq<char>, now: u64) -> bool {
    match m.get(ip) {
        Some((fails, until)) => fails >= MAX_FAILS && now < until,
        None => false,
    }
}

/// The record map after one more failure of `ip` at `now`.
pub open spec fn after_failure(m: Map<Seq<char>, (u32, u64)>, ip: Seq<char>, now: u64) -> Map<
    Seq<char>,
    (u32, u64),
> {
    m.insert(
        ip,
        (
            match m.get(ip) {
                Some((fails, _)) => (fails + 1) as u32,
                None => 1u32,
            },
            (now + LOCKOUT_MS) as u64,
        ),
    )
}

/// The records keyed by address, later entries overriding earlier ones.
pub open spec fn map_of(s: Seq<FailureRecord>) -> Map<Seq<char>, (u32, u64)>
    decreases s.len(),
{
    if s.len() == 0 {
        Map::empty()
    } else {
        map_of(s.drop_last()).insert(s.last().ip@, (s.last().fails, s.last().until_ms))
    }
}

/// No address appears twice.
pub open spec fn unique_ips(s: Seq<FailureRecord>) -> bool {
    forall|i: int, j: int| 0 <= i < j < s.len() ==> s[i].ip@ != s[j].ip@
}

/// The address map of a record sequence with distinct addresses holds exactly
/// those addresses, each with its own record.
pub proof fn lemma_map_of(s: Seq<FailureRecord>)
    requires
        unique_ips(s),
    ensures
        forall|k: Seq<char>| #[trigger] map_of(s).contains_key(k) <==> exists|i: int|
            0 <= i < s.len() && s[i].ip@ == k,
        forall|i: int| 0 <= i < s.len() ==> #[trigger] map_of(s)[s[i].ip@] == (
            s[i].fails,
            s[i].until_ms,
        ),
    decreases s.len(),
{
    if s.len() > 0 {
        let t = s.drop_last();
        assert(unique_ips(t));
        lemma_map_of(t);
        assert(map_of(s) == map_of(t).insert(s.last().ip@, (s.last().fails, s.last().until_ms)));
        assert forall|k: Seq<char>| #[trigger] map_of(s).contains_key(k) <==> exists|i: int|
            0 <= i < s.len() && s[i].ip@ == k by {
            if map_of(s).contains_key(k) {
                if k == s.last().ip@ {
                    assert(s[s.len() - 1].ip@ == k);
                } else {
                    assert(map_of(t).contains_key(k));
                    let i = choose|i: int| 0 <= i < t.len() && t[i].ip@ == k;
                    assert(s[i].ip@ == k);
                }
            }
            if exists|i: int| 0 <= i < s.len() && s[i].ip@ == k {
                let i = choose|i: int| 0 <= i < s.len() && s[i].ip@ == k;
                if i < s.len() - 1 {
                    assert(t[i].ip@ == k);
                }
            }
        }
        assert forall|i: int| 0 <= i < s.len() implies #[trigger] map_of(s)[s[i].ip@] == (
            s[i].fails,
            s[i].until_ms,
        ) by {
            if i < s.len() - 1 {
                assert(t[i] == s[i]);
                assert(s[i].ip@ != s.last().ip@);
                assert(map_of(t)[t[i].ip@] == (t[i].fails, t[i].until_ms));
            }
        }
    }
}

impl RateLimiter {
    /// The failure record of each address.
    pub closed spec fn view(&self) -> Map<Seq<char>, (u32, u64)> {
        map_of(self.entries@)
    }

    pub closed spec fn wf(&self) -> bool {
        unique_ips(self.entries@)
    }

    /// An empty limiter.
    pub fn new() -> (r: Self)
        ensures
            r.wf(),
            r.view() == Map::<Seq<char>, (u32, u64)>::empty(),
    {
        RateLimiter { entries: Vec::new() }
    }

    fn find(&self, ip: &str) -> (r: Option<usize>)
        requires
            self.wf(),
        ensures
            match r {
                Some(i) => i < self.entries@.len() && self.entries@[i as int].ip@ == ip@,
                None => forall|i: int|
                    0 <= i < self.entries@.len() ==> self.entries@[i].ip@ != ip@,
            },
    {
        let mut i: usize = 0;
        while i < self.entries.len()
            invariant
                i <= self.entries@.len(),
                forall|j: int| 0 <= j < i ==> self.entries@[j].ip@ != ip@,
            decreases self.entries@.len() - i,
        {
            if str_eq(self.entries[i].ip.as_str(), ip) {
                return Some(i);
            }
            i = i + 1;
        }
        None
    }

    /// Whether `ip` is currently refused: it has failed at least `MAX_FAILS`
    /// times and `now_ms` is still before the end of its lockout.
    pub fn is_locked_out(&self, ip: &str, now_ms: u64) -> (r: bool)
        requires
            self.wf(),
        ensures
            r == locked(self.view(), ip@, now_ms),
    {
        proof {
            lemma_map_of(self.entries@);
        }
        match self.find(ip) {
            Some(i) => {
                let e = &self.entries[i];
                e.fails >= MAX_FAILS && now_ms < e.until_ms
            },
            None => {
                assert(!self.view().contains_key(ip@));
                false
            },
        }
    }

    /// The failures counted for `ip` since its last success (0 for none).
    pub fn failures(&self, ip: &str) -> (r: u32)
        requires
            self.wf(),
        ensures
            r == match self.view().get(ip@) {
                Some((fails, _)) => fails,
                None => 0,
            },
    {
        proof {
            lemma_map_of(self.entries@);
        }
        match self.find(ip) {
            Some(i) => self.entries[i].fails,
            None => {
                assert(!self.view().contains_key(ip@));
                0
            },
        }
    }

    /// Count one more failure for `ip` and restart its lockout window at
    /// `now_ms`.
    pub fn record_failure(&mut self, ip: &str, now_ms: u64)
        requires
            old(self).wf(),
            now_ms <= u64::MAX - LOCKOUT_MS,
            old(self).view().contains_key(ip@) ==> old(self).view()[ip@].0 < u32::MAX,
        ensures
            final(self).wf(),
            final(self).view() == after_failure(old(self).view(), ip@, now_ms),
    {
        proof {
            lemma_map_of(self.entries@);
        }
        let ghost old_s = self.entries@;
        let until = now_ms + LOCKOUT_MS;
        match self.find(ip) {
            Some(i) => {
                let fails = self.entries[i].fails + 1;
                let rec = FailureRecord { ip: self.entries[i].ip.clone(), fails, until_ms: until };
                self.entries.set(i, rec);
                proof {
                    let s = self.entries@;
                    assert(s == old_s.update(i as int, rec));
                    assert(unique_ips(s)) by {
                        assert forall|a: int, b: int| 0 <= a < b < s.len() implies s[a].ip@ != s[b].ip@ by {
                            if a == i {
                                assert(old_s[b].ip@ != old_s[a].ip@);
                            } else if b == i {
                                assert(old_s[b].ip@ != old_s[a].ip@);
                            }
                        }
                    }
                    lemma_map_of(s);
                    let want = map_of(old_s).insert(ip@, (fails, until));
                    assert forall|k: Seq<char>| #[trigger] map_of(s).contains_key(k) <==> want.contains_key(k) by {
                        assert(s[i as int].ip@ == ip@);
                        if want.contains_key(k) && k != ip@ {
                            let j = choose|j: int| 0 <= j < old_s.len() && old_s[j].ip@ == k;
                            assert(s[j].ip@ == k);
                        }
                        if map_of(s).contains_key(k) {
                            let j = choose|j: int| 0 <= j < s.len() && s[j].ip@ == k;
                            if j != i {
                                assert(old_s[j].ip@ == k);
                            }
                        }
                    }
                    assert forall|k: Seq<char>| #[trigger] map_of(s).contains_key(k) implies map_of(s)[k] == want[k] by {
                        let j = choose|j: int| 0 <= j < s.len() && s[j].ip@ == k;
                        if j != i {
                            assert(old_s[j] == s[j]);
                            assert(map_of(old_s)[old_s[j].ip@] == (old_s[j].fails, old_s[j].until_ms));
                        }
                    }
                    assert(map_of(s) =~= want);
                }
            },
            None => {
                let rec = FailureRecord { ip: ip.to_owned(), fails: 1, until_ms: until };
                self.entries.push(rec);
                proof {
                    let s = self.entries@;
                    assert(s.drop_last() =~= old_s);
                    assert(unique_ips(s));
                    assert(!map_of(old_s).contains_key(ip@));
                }
            },
        }
    }

    /// Forget `ip`'s failures (after it authenticated).
    pub fn reset_failures(&mut self, ip: &str)
        requires
            old(self).wf(),
        ensures
            final(self).wf(),
            final(self).view() == old(self).view().remove(ip@),
    {
        proof {
            lemma_map_of(self.entries@);
        }
        let ghost old_s = self.entries@;
        match self.find(ip) {
            Some(i) => {
                let _ = self.entries.remove(i);
                proof {
                    let s = self.entries@;
                    assert(s == old_s.remove(i as int));
                    assert forall|a: int, b: int| 0 <= a < b < s.len() implies s[a].ip@ != s[b].ip@ by {
                        let a2 = if a < i { a } else { a + 1 };
                        let b2 = if b < i { b } else { b + 1 };
                        assert(s[a] == old_s[a2]);
                        assert(s[b] == old_s[b2]);
                    }
                    lemma_map_of(s);
                    let want = map_of(old_s).remove(ip@);
                    assert forall|k: Seq<char>| #[trigger] map_of(s).contains_key(k) <==> want.contains_key(k) by {
                        if want.contains_key(k) {
                            let j = choose|j: int| 0 <= j < old_s.len() && old_s[j].ip@ == k;
                            assert(j != i);
                            let j2 = if j < i { j } else { j - 1 };
                            assert(s[j2] == old_s[j]);
                        }
                        if map_of(s).contains_key(k) {
                            let j = choose|j: int| 0 <= j < s.len() && s[j].ip@ == k;
                            let j2 = if j < i { j } else { j + 1 };
                            assert(s[j] == old_s[j2]);
                            assert(j2 != i);
                        }
                    }
                    assert forall|k: Seq<char>| #[trigger] map_of(s).contains_key(k) implies map_of(s)[k] == want[k] by {
                        let j = choose|j: int| 0 <= j < s.len() && s[j].ip@ == k;
                        let j2 = if j < i { j } else { j + 1 };
                        assert(s[j] == old_s[j2]);
                        assert(map_of(old_s)[old_s[j2].ip@] == (old_s[j2].fails, old_s[j2].until_ms));
                    }
                    assert(map_of(s) =~= want);
                }
            },
            None => {
                assert(!map_of(old_s).contains_key(ip@));
                assert(map_of(old_s).remove(ip@) =~= map_of(old_s));
            },
        }
    }
}

/// After a reset an address is not locked out, whatever the time.
pub proof fn law_reset_unlocks(m: Map<Seq<char>, (u32, u64)>, ip: Seq<char>, now: u64)
    ensures
        !locked(m.remove(ip), ip, now),
{
}

/// The `MAX_FAILS`-th failure locks the address out for exactly the window
/// that it starts.
pub proof fn law_fifth_failure_locks(
    m: Map<Seq<char>, (u32, u64)>,
    ip: Seq<char>,
    now: u64,
    later: u64,
)
    requires
        m.contains_key(ip),
        m[ip].0 == MAX_FAILS - 1,
        now <= u64::MAX - LOCKOUT_MS,
    ensures
        locked(after_failure(m, ip, now), ip, later) == (later < now + LOCKOUT_MS),
{
}

/// Fewer than `MAX_FAILS` failures never lock an address out.
pub proof fn law_below_limit_not_locked(m: Map<Seq<char>, (u32, u64)>, ip: Seq<char>, now: u64)
    requires
        m.contains_key(ip) ==> m[ip].0 < MAX_FAILS,
    ensures
        !locked(m, ip, now),
{
}

/// A failure of one address leaves every other address's state unchanged.
pub proof fn law_failure_is_per_address(
    m: Map<Seq<char>, (u32, u64)>,
    ip: Seq<char>,
    other: Seq<char>,
    now: u64,
    t: u64,
)
    requires
        ip != other,
    ensures
        locked(after_failure(m, ip, now), other, t) == locked(m, other, t),
{
    assert(after_failure(m, ip, now).get(other) == m.get(other));
}

} // verus!
