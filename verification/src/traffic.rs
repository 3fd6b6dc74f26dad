use vstd::prelude::*;

use crate::peers::ReportedPeer;
use crate::text::str_eq;

verus! {

#[verifier::external_type_specification]
#[verifier::external_body]
pub struct ExInstant(std::time::Instant);

/// Seconds after start-up during which reports only set baselines.
pub const REPORT_COOLDOWN_SECS: u64 = 90;

/// The last counters a reporter gave for one peer ip.
#[derive(Debug)]
pub struct Snapshot {
    pub reporter: String,
    pub ip: String,
    pub rx: u64,
    pub tx: u64,
}

/// Per-(reporter, ip) counter snapshots, from which traffic deltas are
/// taken, and the start time that governs the cool-down.
pub struct TrafficState {
    snapshots: Vec<Snapshot>,
    started_at: std::time::Instant,
}

pub open spec fn snapshot_key(e: Snapshot) -> (Seq<char>, Seq<char>) {
    (e.reporter@, e.ip@)
}

pub open spec fn snapshot_map(s: Seq<Snapshot>) -> Map<(Seq<char>, Seq<char>), (u64, u64)>
    decreases s.len(),
{
    if s.len() == 0 {
        Map::empty()
    } else {
        snapshot_map(s.drop_last()).insert(snapshot_key(s.last()), (s.last().rx, s.last().tx))
    }
}

pub open spec fn keys_distinct(s: Seq<Snapshot>) -> bool {
    forall|i: int, j: int|
        #![trigger s[i], s[j]]
        0 <= i < j < s.len() ==> snapshot_key(s[i]) != snapshot_key(s[j])
}

impl View for TrafficState {
    type V = Map<(Seq<char>, Seq<char>), (u64, u64)>;

    closed spec fn view(&self) -> Map<(Seq<char>, Seq<char>), (u64, u64)> {
        snapshot_map(self.snapshots@)
    }
}

impl TrafficState {
    /// Well-formed: at most one snapshot per (reporter, ip).
    pub closed spec fn wf(&self) -> bool {
        keys_distinct(self.snapshots@)
    }
}

pub open spec fn counter_or_zero(c: Option<u64>) -> u64 {
    match c {
        Some(v) => v,
        None => 0,
    }
}

/// `a - b`, or 0 when the counter went backwards.
pub open spec fn sat_sub(a: u64, b: u64) -> int {
    if a >= b {
        a - b
    } else {
        0
    }
}

/// One peer of a report against the snapshots: the new snapshots, and the
/// (ip, bytes) to charge, if any. A peer without ip, or with both counters
/// zero, changes nothing; otherwise its counters become the new snapshot,
/// and the growth of both counters since the previous snapshot is charged
/// unless the report falls in the cool-down or there is no growth.
pub open spec fn peer_step(
    m: Map<(Seq<char>, Seq<char>), (u64, u64)>,
    reporter: Seq<char>,
    peer: ReportedPeer,
    cooldown: bool,
) -> (Map<(Seq<char>, Seq<char>), (u64, u64)>, Option<(Seq<char>, int)>) {
    match peer.ip {
        None => (m, None),
        Some(ip) => {
            let rx = counter_or_zero(peer.rx_bytes);
            let tx = counter_or_zero(peer.tx_bytes);
            if rx == 0 && tx == 0 {
                (m, None)
            } else {
                let k = (reporter, ip@);
                let d = if m.contains_key(k) {
                    sat_sub(rx, m[k].0) + sat_sub(tx, m[k].1)
                } else {
                    0
                };
                let m2 = m.insert(k, (rx, tx));
                if cooldown || d == 0 {
                    (m2, None)
                } else {
                    (m2, Some((ip@, d)))
                }
            }
        },
    }
}

/// All peers of a report, in order.
pub open spec fn peers_step(
    m: Map<(Seq<char>, Seq<char>), (u64, u64)>,
    reporter: Seq<char>,
    peers: Seq<ReportedPeer>,
    cooldown: bool,
) -> (Map<(Seq<char>, Seq<char>), (u64, u64)>, Seq<(Seq<char>, int)>)
    decreases peers.len(),
{
    if peers.len() == 0 {
        (m, Seq::empty())
    } else {
        let (m1, out) = peers_step(m, reporter, peers.drop_last(), cooldown);
        let (m2, o) = peer_step(m1, reporter, peers.last(), cooldown);
        (
            m2,
            match o {
                Some(x) => out.push(x),
                None => out,
            },
        )
    }
}

/// The ips that a report names (with or without traffic).
pub open spec fn reported_ips(peers: Seq<ReportedPeer>) -> Set<Seq<char>> {
    Set::new(
        |x: Seq<char>|
            exists|i: int| 0 <= i < peers.len() && (#[trigger] peers[i]).ip is Some && peers[i].ip->0@ == x,
    )
}

/// Drops the snapshots of `reporter` for ips it no longer reports.
pub open spec fn drop_stale(
    m: Map<(Seq<char>, Seq<char>), (u64, u64)>,
    reporter: Seq<char>,
    ips: Set<Seq<char>>,
) -> Map<(Seq<char>, Seq<char>), (u64, u64)> {
    Map::new(
        |k: (Seq<char>, Seq<char>)| m.contains_key(k) && (k.0 != reporter || ips.contains(k.1)),
        |k: (Seq<char>, Seq<char>)| m[k],
    )
}

/// Every charge fits in a `u64` (the sum of the two counter deltas does not
/// overflow).
pub open spec fn deltas_fit(out: Seq<(Seq<char>, int)>) -> bool {
    forall|j: int| 0 <= j < out.len() ==> (#[trigger] out[j]).1 <= u64::MAX
}

/// What a report does: `None` when some charge overflows a `u64`; otherwise
/// the new snapshots and the charges in report order. A report without a
/// (non-empty) reporter changes nothing and charges nothing.
pub open spec fn report_outcome(
    m: Map<(Seq<char>, Seq<char>), (u64, u64)>,
    reporter: Option<Seq<char>>,
    peers: Seq<ReportedPeer>,
    cooldown: bool,
) -> Option<(Map<(Seq<char>, Seq<char>), (u64, u64)>, Seq<(Seq<char>, int)>)> {
    match reporter {
        Some(r) => {
            if r.len() == 0 {
                Some((m, Seq::empty()))
            } else {
                let (m1, out) = peers_step(m, r, peers, cooldown);
                if deltas_fit(out) {
                    Some((drop_stale(m1, r, reported_ips(peers)), out))
                } else {
                    None
                }
            }
        },
        None => Some((m, Seq::empty())),
    }
}

pub open spec fn opt_string_view(s: Option<String>) -> Option<Seq<char>> {
    match s {
        Some(v) => Some(v@),
        None => None,
    }
}

pub open spec fn charges_view(v: Seq<(String, u64)>) -> Seq<(Seq<char>, int)> {
    v.map_values(|p: (String, u64)| (p.0@, p.1 as int))
}

/// The cool-down holds while fewer than `REPORT_COOLDOWN_SECS` whole
/// seconds have passed.
pub open spec fn cooldown_at(elapsed_secs: u64) -> bool {
    elapsed_secs < REPORT_COOLDOWN_SECS
}

/// Whether a traffic report arriving `elapsed_secs` after start-up falls in
/// the cool-down.
pub fn in_cooldown_after(elapsed_secs: u64) -> (r: bool)
    ensures
        r == cooldown_at(elapsed_secs),
{
    elapsed_secs < REPORT_COOLDOWN_SECS
}

/// Calls `std::time::Instant::now`. Nothing is stated of the result: it is
/// the clock's reading.
#[verifier::external_body]
fn instant_now() -> std::time::Instant {
    std::time::Instant::now()
}

/// Calls `std::time::Instant::elapsed`. Nothing is stated of the result: it
/// depends on the clock.
#[verifier::external_body]
fn instant_elapsed(start: &std::time::Instant) -> core::time::Duration {
    start.elapsed()
}

/// Calls `std::time::Duration::as_secs`. Nothing is stated of the result:
/// the duration is opaque here.
#[verifier::external_body]
fn duration_whole_secs(d: &core::time::Duration) -> u64 {
    d.as_secs()
}

proof fn lemma_snapshot_map_char(s: Seq<Snapshot>)
    requires
        keys_distinct(s),
    ensures
        forall|k: (Seq<char>, Seq<char>)|
            #[trigger] snapshot_map(s).contains_key(k) <==> exists|i: int|
                0 <= i < s.len() && snapshot_key(#[trigger] s[i]) == k,
        forall|i: int|
            0 <= i < s.len() ==> snapshot_map(s)[snapshot_key(#[trigger] s[i])] == (s[i].rx, s[i].tx),
    decreases s.len(),
{
    if s.len() > 0 {
        let t = s.drop_last();
        assert(keys_distinct(t)) by {
            assert forall|i: int, j: int| #![trigger t[i], t[j]] 0 <= i < j < t.len() implies snapshot_key(
                t[i],
            ) != snapshot_key(t[j]) by {
                assert(t[i] == s[i] && t[j] == s[j]);
            }
        }
        lemma_snapshot_map_char(t);
        assert forall|k: (Seq<char>, Seq<char>)|
            #[trigger] snapshot_map(s).contains_key(k) <==> exists|i: int|
                0 <= i < s.len() && snapshot_key(#[trigger] s[i]) == k by {
            if snapshot_map(s).contains_key(k) {
                if k == snapshot_key(s.last()) {
                    assert(snapshot_key(s[s.len() - 1]) == k);
                } else {
                    assert(snapshot_map(t).contains_key(k));
                    let i = choose|i: int| 0 <= i < t.len() && snapshot_key(#[trigger] t[i]) == k;
                    assert(s[i] == t[i]);
                }
            }
            if exists|i: int| 0 <= i < s.len() && snapshot_key(#[trigger] s[i]) == k {
                let i = choose|i: int| 0 <= i < s.len() && snapshot_key(#[trigger] s[i]) == k;
                if i < s.len() - 1 {
                    assert(t[i] == s[i]);
                    assert(snapshot_map(t).contains_key(k));
                }
            }
        }
        assert forall|i: int| 0 <= i < s.len() implies snapshot_map(s)[snapshot_key(#[trigger] s[i])] == (
        s[i].rx, s[i].tx) by {
            if i < s.len() - 1 {
                assert(t[i] == s[i]);
                assert(snapshot_key(s[i]) != snapshot_key(s[s.len() - 1]));
            }
        }
    }
}

fn copy_snapshots(v: &Vec<Snapshot>) -> (r: Vec<Snapshot>)
    ensures
        r@ == v@,
{
    let mut r: Vec<Snapshot> = Vec::new();
    let mut i: usize = 0;
    while i < v.len()
        invariant
            i <= v.len(),
            r@ =~= v@.take(i as int),
        decreases v.len() - i,
    {
        let e = &v[i];
        r.push(Snapshot { reporter: e.reporter.clone(), ip: e.ip.clone(), rx: e.rx, tx: e.tx });
        i = i + 1;
    }
    assert(v@.take(v.len() as int) =~= v@);
    r
}

fn find_snapshot(s: &Vec<Snapshot>, reporter: &String, ip: &String) -> (res: Option<usize>)
    ensures
        match res {
            Some(i) => i < s@.len() && snapshot_key(s@[i as int]) == (reporter@, ip@),
            None => forall|i: int| 0 <= i < s@.len() ==> snapshot_key(#[trigger] s@[i]) != (reporter@, ip@),
        },
{
    let mut i: usize = 0;
    while i < s.len()
        invariant
            i <= s@.len(),
            forall|j: int| 0 <= j < i ==> snapshot_key(#[trigger] s@[j]) != (reporter@, ip@),
        decreases s.len() - i,
    {
        if s[i].reporter == *reporter && s[i].ip == *ip {
            return Some(i);
        }
        i = i + 1;
    }
    None
}

fn ip_is_reported(peers: &Vec<ReportedPeer>, ip: &String) -> (res: bool)
    ensures
        res == reported_ips(peers@).contains(ip@),
{
    let mut i: usize = 0;
    while i < peers.len()
        invariant
            i <= peers@.len(),
            forall|j: int| 0 <= j < i ==> !((#[trigger] peers@[j]).ip is Some && peers@[j].ip->0@ == ip@),
        decreases peers.len() - i,
    {
        match &peers[i].ip {
            Some(p) => {
                if *p == *ip {
                    assert(peers@[i as int].ip is Some && peers@[i as int].ip->0@ == ip@);
                    return true;
                }
            },
            None => {},
        }
        i = i + 1;
    }
    false
}

/// If `ps` is a prefix of `qs`, the charges of `ps` are a prefix of those of `qs`.
proof fn lemma_charges_prefix(
    m: Map<(Seq<char>, Seq<char>), (u64, u64)>,
    r: Seq<char>,
    qs: Seq<ReportedPeer>,
    n: int,
    c: bool,
)
    requires
        0 <= n <= qs.len(),
    ensures
        peers_step(m, r, qs.take(n), c).1.len() <= peers_step(m, r, qs, c).1.len(),
        forall|j: int|
            0 <= j < peers_step(m, r, qs.take(n), c).1.len() ==> #[trigger] peers_step(
                m,
                r,
                qs.take(n),
                c,
            ).1[j] == peers_step(m, r, qs, c).1[j],
    decreases qs.len(),
{
    if n == qs.len() {
        assert(qs.take(n) =~= qs);
    } else {
        let t = qs.drop_last();
        assert(t.take(n) =~= qs.take(n));
        lemma_charges_prefix(m, r, t, n, c);
    }
}

impl TrafficState {
    /// A fresh state with no snapshots, started now.
    pub fn new() -> (s: Self)
        ensures
            s.wf(),
            s@ == Map::<(Seq<char>, Seq<char>), (u64, u64)>::empty(),
    {
        TrafficState { snapshots: Vec::new(), started_at: instant_now() }
    }

    /// The whole seconds since start-up, as the clock reads them now, and
    /// whether reports still fall in the cool-down at that reading.
    pub fn cooldown_reading(&self) -> (r: (u64, bool))
        ensures
            r.1 == cooldown_at(r.0),
    {
        let d = instant_elapsed(&self.started_at);
        let secs = duration_whole_secs(&d);
        (secs, in_cooldown_after(secs))
    }

    /// Whether reports still fall in the cool-down after start-up.
    pub fn in_cooldown(&self) -> bool {
        self.cooldown_reading().1
    }

    /// Records a report: takes the traffic deltas of its peers against the
    /// stored snapshots, replaces the snapshots by the reported counters,
    /// and drops the reporter's snapshots for ips it no longer reports.
    /// Returns the charges (ip, bytes) in report order, or `None`, leaving
    /// the state as it was, when a charge would overflow a `u64`.
    pub fn try_record_report(
        &mut self,
        reporter: &Option<String>,
        peers: &Vec<ReportedPeer>,
        in_cooldown: bool,
    ) -> (res: Option<Vec<(String, u64)>>)
        requires
            old(self).wf(),
        ensures
            final(self).wf(),
            match report_outcome(old(self)@, opt_string_view(*reporter), peers@, in_cooldown) {
                None => res is None && final(self)@ == old(self)@,
                Some(o) => res is Some && final(self)@ == o.0 && charges_view(res->0@) == o.1,
            },
    {
        let ghost m0 = self@;
        let r = match reporter {
            Some(r) => r,
            None => {
                assert(charges_view(Seq::<(String, u64)>::empty()) =~= Seq::empty());
                return Some(Vec::new());
            },
        };
        if r.as_str().is_empty() {
            assert(charges_view(Seq::<(String, u64)>::empty()) =~= Seq::empty());
            return Some(Vec::new());
        }
        let mut work = copy_snapshots(&self.snapshots);
        let mut out: Vec<(String, u64)> = Vec::new();
        let n = peers.len();
        let mut i: usize = 0;
        while i < n
            invariant
                n == peers@.len(),
                i <= n,
                r@.len() > 0,
                opt_string_view(*reporter) == Some(r@),
                m0 == old(self)@,
                m0 == snapshot_map(self.snapshots@),
                keys_distinct(self.snapshots@),
                keys_distinct(work@),
                snapshot_map(work@) == peers_step(m0, r@, peers@.take(i as int), in_cooldown).0,
                charges_view(out@) == peers_step(m0, r@, peers@.take(i as int), in_cooldown).1,
                deltas_fit(peers_step(m0, r@, peers@.take(i as int), in_cooldown).1),
            decreases n - i,
        {
            let ghost prev = peers_step(m0, r@, peers@.take(i as int), in_cooldown);
            let peer = &peers[i];
            assert(peers@.take(i + 1).drop_last() =~= peers@.take(i as int));
            assert(peers@.take(i + 1).last() == peers@[i as int]);
            let ghost next = peers_step(m0, r@, peers@.take(i + 1), in_cooldown);
            let ghost st = peer_step(prev.0, r@, *peer, in_cooldown);
            assert(next.0 == st.0);
            match &peer.ip {
                None => {},
                Some(ip) => {
                    let rx = match peer.rx_bytes {
                        Some(v) => v,
                        None => 0,
                    };
                    let tx = match peer.tx_bytes {
                        Some(v) => v,
                        None => 0,
                    };
                    if rx != 0 || tx != 0 {
                        proof {
                            lemma_snapshot_map_char(work@);
                        }
                        let ghost k = (r@, ip@);
                        let found = find_snapshot(&work, r, ip);
                        let ghost w0 = work@;
                        let (drx, dtx) = match found {
                            Some(idx) => {
                                let prx = work[idx].rx;
                                let ptx = work[idx].tx;
                                assert(snapshot_map(w0).contains_key(k));
                                assert(snapshot_map(w0)[k] == (prx, ptx));
                                work.set(
                                    idx,
                                    Snapshot { reporter: r.clone(), ip: ip.clone(), rx: rx, tx: tx },
                                );
                                proof {
                                    let w1 = work@;
                                    assert(keys_distinct(w1)) by {
                                        assert forall|a: int, b: int|
                                            #![trigger w1[a], w1[b]]
                                            0 <= a < b < w1.len() implies snapshot_key(w1[a])
                                            != snapshot_key(w1[b]) by {
                                            if a != idx && b != idx {
                                                assert(w1[a] == w0[a] && w1[b] == w0[b]);
                                            } else if a == idx {
                                                assert(w1[b] == w0[b]);
                                                assert(snapshot_key(w0[a]) != snapshot_key(w0[b]));
                                            } else {
                                                assert(w1[a] == w0[a]);
                                                assert(snapshot_key(w0[a]) != snapshot_key(w0[b]));
                                            }
                                        }
                                    }
                                    lemma_snapshot_map_char(w1);
                                    assert(snapshot_map(w1) =~= snapshot_map(w0).insert(k, (rx, tx))) by {
                                        assert forall|kk: (Seq<char>, Seq<char>)|
                                            #[trigger] snapshot_map(w1).contains_key(kk)
                                                <==> snapshot_map(w0).insert(k, (rx, tx)).contains_key(
                                                kk,
                                            ) by {
                                            if snapshot_map(w0).contains_key(kk) {
                                                let j = choose|j: int|
                                                    0 <= j < w0.len() && snapshot_key(#[trigger] w0[j])
                                                        == kk;
                                                if j != idx {
                                                    assert(w1[j] == w0[j]);
                                                } else {
                                                    assert(snapshot_key(w1[j]) == kk);
                                                }
                                            }
                                            if kk == k {
                                                assert(snapshot_key(w1[idx as int]) == kk);
                                            }
                                            if snapshot_map(w1).contains_key(kk) {
                                                let j = choose|j: int|
                                                    0 <= j < w1.len() && snapshot_key(#[trigger] w1[j])
                                                        == kk;
                                                if j != idx {
                                                    assert(w1[j] == w0[j]);
                                                }
                                            }
                                        }
                                        assert forall|kk: (Seq<char>, Seq<char>)|
                                            #[trigger] snapshot_map(w1).contains_key(kk) implies snapshot_map(
                                            w1,
                                        )[kk] == snapshot_map(w0).insert(k, (rx, tx))[kk] by {
                                            let j = choose|j: int|
                                                0 <= j < w1.len() && snapshot_key(#[trigger] w1[j]) == kk;
                                            if j != idx {
                                                assert(w1[j] == w0[j]);
                                            }
                                        }
                                    }
                                }
                                (rx.saturating_sub(prx), tx.saturating_sub(ptx))
                            },
                            None => {
                                assert(!snapshot_map(w0).contains_key(k));
                                work.push(Snapshot { reporter: r.clone(), ip: ip.clone(), rx: rx, tx: tx });
                                proof {
                                    let w1 = work@;
                                    assert(w1.drop_last() =~= w0);
                                    assert(keys_distinct(w1)) by {
                                        assert forall|a: int, b: int|
                                            #![trigger w1[a], w1[b]]
                                            0 <= a < b < w1.len() implies snapshot_key(w1[a])
                                            != snapshot_key(w1[b]) by {
                                            assert(w1[a] == w0[a]);
                                            if b < w0.len() {
                                                assert(w1[b] == w0[b]);
                                            }
                                        }
                                    }
                                }
                                (0u64, 0u64)
                            },
                        };
                        assert(snapshot_map(work@) == st.0);
                        if !in_cooldown {
                            match drx.checked_add(dtx) {
                                None => {
                                    proof {
                                        lemma_charges_prefix(m0, r@, peers@, i + 1, in_cooldown);
                                        let full = peers_step(m0, r@, peers@, in_cooldown).1;
                                        assert(st.1 is Some);
                                        let (_cip, amount) = st.1->0;
                                        assert(amount > u64::MAX);
                                        assert(next.1.len() == prev.1.len() + 1);
                                        assert(next.1.last().1 > u64::MAX);
                                        assert(next.1[next.1.len() - 1] == full[next.1.len() - 1]);
                                        assert(!deltas_fit(full));
                                    }
                                    assert(final(self)@ == old(self)@);
                                    return None;
                                },
                                Some(d) => {
                                    if d != 0 {
                                        let ghost o0 = out@;
                                        out.push((ip.clone(), d));
                                        assert(charges_view(out@) =~= charges_view(o0).push((ip@, d as int)));
                                    }
                                },
                            }
                        }
                    }
                },
            }
            assert(snapshot_map(work@) == next.0);
            assert(charges_view(out@) == next.1);
            assert(deltas_fit(next.1));
            i = i + 1;
        }
        assert(peers@.take(n as int) =~= peers@);
        let ghost stepped = peers_step(m0, r@, peers@, in_cooldown);
        let mut kept: Vec<Snapshot> = Vec::new();
        let wn = work.len();
        let mut j: usize = 0;
        while j < wn
            invariant
                wn == work@.len(),
                j <= wn,
                r@.len() > 0,
                keys_distinct(work@),
                keys_distinct(kept@),
                forall|a: int|
                    0 <= a < kept@.len() ==> exists|b: int|
                        0 <= b < j && snapshot_key(#[trigger] kept@[a]) == snapshot_key(work@[b]),
                snapshot_map(kept@) =~= drop_stale(
                    snapshot_map(work@.take(j as int)),
                    r@,
                    reported_ips(peers@),
                ),
            decreases wn - j,
        {
            let e = &work[j];
            let ghost k0 = kept@;
            assert(work@.take(j + 1).drop_last() =~= work@.take(j as int));
            assert(work@.take(j + 1).last() == work@[j as int]);
            let keep = !(e.reporter == *r) || ip_is_reported(peers, &e.ip);
            if keep {
                kept.push(Snapshot { reporter: e.reporter.clone(), ip: e.ip.clone(), rx: e.rx, tx: e.tx });
                proof {
                    let k1 = kept@;
                    assert(k1.drop_last() =~= k0);
                    assert(keys_distinct(k1)) by {
                        assert forall|a: int, b: int|
                            #![trigger k1[a], k1[b]]
                            0 <= a < b < k1.len() implies snapshot_key(k1[a]) != snapshot_key(k1[b]) by {
                            assert(k1[a] == k0[a]);
                            if b < k0.len() {
                                assert(k1[b] == k0[b]);
                            } else {
                                let c = choose|c: int|
                                    0 <= c < j && snapshot_key(#[trigger] k0[a]) == snapshot_key(work@[c]);
                                assert(snapshot_key(work@[c]) != snapshot_key(work@[j as int]));
                            }
                        }
                    }
                    assert forall|a: int| 0 <= a < k1.len() implies exists|b: int|
                        0 <= b < j + 1 && snapshot_key(#[trigger] k1[a]) == snapshot_key(work@[b]) by {
                        if a < k0.len() {
                            assert(k1[a] == k0[a]);
                            let c = choose|c: int|
                                0 <= c < j && snapshot_key(#[trigger] k0[a]) == snapshot_key(work@[c]);
                            assert(snapshot_key(k1[a]) == snapshot_key(work@[c]));
                        } else {
                            assert(snapshot_key(k1[a]) == snapshot_key(work@[j as int]));
                        }
                    }
                }
            } else {
                proof {
                    assert forall|a: int| 0 <= a < kept@.len() implies exists|b: int|
                        0 <= b < j + 1 && snapshot_key(#[trigger] kept@[a]) == snapshot_key(work@[b]) by {
                        let c = choose|c: int|
                            0 <= c < j && snapshot_key(#[trigger] kept@[a]) == snapshot_key(work@[c]);
                        assert(snapshot_key(kept@[a]) == snapshot_key(work@[c]));
                    }
                }
            }
            j = j + 1;
        }
        assert(work@.take(wn as int) =~= work@);
        self.snapshots = kept;
        Some(out)
    }
}

/// The ips of the peers that name one are pairwise distinct.
pub open spec fn reported_ips_distinct(peers: Seq<ReportedPeer>) -> bool {
    forall|i: int, j: int|
        #![trigger peers[i], peers[j]]
        0 <= i < j < peers.len() && peers[i].ip is Some && peers[j].ip is Some ==> peers[i].ip->0@
            != peers[j].ip->0@
}

/// The peer carries an ip and some traffic, so a report records it.
pub open spec fn peer_has_traffic(p: ReportedPeer) -> bool {
    p.ip is Some && !(counter_or_zero(p.rx_bytes) == 0 && counter_or_zero(p.tx_bytes) == 0)
}

proof fn lemma_cooldown_steps_charge_nothing(
    m: Map<(Seq<char>, Seq<char>), (u64, u64)>,
    r: Seq<char>,
    ps: Seq<ReportedPeer>,
)
    ensures
        peers_step(m, r, ps, true).1 == Seq::<(Seq<char>, int)>::empty(),
    decreases ps.len(),
{
    if ps.len() > 0 {
        lemma_cooldown_steps_charge_nothing(m, r, ps.drop_last());
    }
}

proof fn lemma_steps_touch_only_reporter(
    m: Map<(Seq<char>, Seq<char>), (u64, u64)>,
    r: Seq<char>,
    ps: Seq<ReportedPeer>,
    c: bool,
)
    ensures
        forall|k: (Seq<char>, Seq<char>)|
            k.0 != r ==> (#[trigger] peers_step(m, r, ps, c).0.contains_key(k) == m.contains_key(k) && (
            m.contains_key(k) ==> peers_step(m, r, ps, c).0[k] == m[k])),
        forall|k: (Seq<char>, Seq<char>)|
            #[trigger] peers_step(m, r, ps, c).0.contains_key(k) ==> m.contains_key(k) || (k.0 == r
                && exists|i: int| 0 <= i < ps.len() && (#[trigger] ps[i]).ip is Some && ps[i].ip->0@ == k.1),
    decreases ps.len(),
{
    if ps.len() > 0 {
        let t = ps.drop_last();
        lemma_steps_touch_only_reporter(m, r, t, c);
        assert forall|k: (Seq<char>, Seq<char>)|
            k.0 != r implies (#[trigger] peers_step(m, r, ps, c).0.contains_key(k) == m.contains_key(k) && (
            m.contains_key(k) ==> peers_step(m, r, ps, c).0[k] == m[k])) by {
            assert(peers_step(m, r, t, c).0.contains_key(k) == m.contains_key(k));
        }
        assert forall|k: (Seq<char>, Seq<char>)|
            #[trigger] peers_step(m, r, ps, c).0.contains_key(k) implies m.contains_key(k) || (k.0 == r
                && exists|i: int| 0 <= i < ps.len() && (#[trigger] ps[i]).ip is Some && ps[i].ip->0@ == k.1) by {
            if peers_step(m, r, t, c).0.contains_key(k) {
                if !m.contains_key(k) {
                    let i = choose|i: int| 0 <= i < t.len() && (#[trigger] t[i]).ip is Some && t[i].ip->0@ == k.1;
                    assert(ps[i] == t[i]);
                }
            } else {
                assert(ps[ps.len() - 1] == ps.last());
            }
        }
    }
}

proof fn lemma_first_steps_charge_nothing(
    m: Map<(Seq<char>, Seq<char>), (u64, u64)>,
    r: Seq<char>,
    ps: Seq<ReportedPeer>,
    c: bool,
)
    requires
        reported_ips_distinct(ps),
        forall|i: int| 0 <= i < ps.len() && (#[trigger] ps[i]).ip is Some ==> !m.contains_key((r, ps[i].ip->0@)),
    ensures
        peers_step(m, r, ps, c).1 == Seq::<(Seq<char>, int)>::empty(),
    decreases ps.len(),
{
    if ps.len() > 0 {
        let t = ps.drop_last();
        assert(reported_ips_distinct(t)) by {
            assert forall|i: int, j: int|
                #![trigger t[i], t[j]]
                0 <= i < j < t.len() && t[i].ip is Some && t[j].ip is Some implies t[i].ip->0@ != t[j].ip->0@ by {
                assert(t[i] == ps[i] && t[j] == ps[j]);
            }
        }
        assert forall|i: int| 0 <= i < t.len() && (#[trigger] t[i]).ip is Some implies !m.contains_key(
            (r, t[i].ip->0@),
        ) by {
            assert(t[i] == ps[i]);
        }
        lemma_first_steps_charge_nothing(m, r, t, c);
        lemma_steps_touch_only_reporter(m, r, t, c);
        let p = ps.last();
        assert(p == ps[ps.len() - 1]);
        if p.ip is Some {
            let k = (r, p.ip->0@);
            if peers_step(m, r, t, c).0.contains_key(k) {
                let i = choose|i: int| 0 <= i < t.len() && (#[trigger] t[i]).ip is Some && t[i].ip->0@ == k.1;
                assert(t[i] == ps[i]);
            }
        }
    }
}

proof fn lemma_steady_steps(
    m: Map<(Seq<char>, Seq<char>), (u64, u64)>,
    r: Seq<char>,
    ps: Seq<ReportedPeer>,
    c: bool,
)
    requires
        forall|i: int|
            0 <= i < ps.len() && peer_has_traffic(#[trigger] ps[i]) ==> m.contains_key((r, ps[i].ip->0@))
                && m[(r, ps[i].ip->0@)] == (counter_or_zero(ps[i].rx_bytes), counter_or_zero(ps[i].tx_bytes)),
    ensures
        peers_step(m, r, ps, c) == (m, Seq::<(Seq<char>, int)>::empty()),
    decreases ps.len(),
{
    if ps.len() > 0 {
        let t = ps.drop_last();
        assert forall|i: int| 0 <= i < t.len() && peer_has_traffic(#[trigger] t[i]) implies m.contains_key(
            (r, t[i].ip->0@),
        ) && m[(r, t[i].ip->0@)] == (counter_or_zero(t[i].rx_bytes), counter_or_zero(t[i].tx_bytes)) by {
            assert(t[i] == ps[i]);
        }
        lemma_steady_steps(m, r, t, c);
        let p = ps.last();
        assert(p == ps[ps.len() - 1]);
        if peer_has_traffic(p) {
            let k = (r, p.ip->0@);
            assert(m.insert(k, m[k]) =~= m);
        }
    }
}

proof fn lemma_steps_keep_last_counters(
    m: Map<(Seq<char>, Seq<char>), (u64, u64)>,
    r: Seq<char>,
    ps: Seq<ReportedPeer>,
    c: bool,
)
    requires
        reported_ips_distinct(ps),
    ensures
        forall|i: int|
            0 <= i < ps.len() && peer_has_traffic(#[trigger] ps[i]) ==> peers_step(m, r, ps, c).0.contains_key(
                (r, ps[i].ip->0@),
            ) && peers_step(m, r, ps, c).0[(r, ps[i].ip->0@)] == (
                counter_or_zero(ps[i].rx_bytes),
                counter_or_zero(ps[i].tx_bytes),
            ),
    decreases ps.len(),
{
    if ps.len() > 0 {
        let t = ps.drop_last();
        assert(reported_ips_distinct(t)) by {
            assert forall|i: int, j: int|
                #![trigger t[i], t[j]]
                0 <= i < j < t.len() && t[i].ip is Some && t[j].ip is Some implies t[i].ip->0@ != t[j].ip->0@ by {
                assert(t[i] == ps[i] && t[j] == ps[j]);
            }
        }
        lemma_steps_keep_last_counters(m, r, t, c);
        let p = ps.last();
        assert(p == ps[ps.len() - 1]);
        assert forall|i: int| 0 <= i < ps.len() && peer_has_traffic(#[trigger] ps[i]) implies peers_step(
            m,
            r,
            ps,
            c,
        ).0.contains_key((r, ps[i].ip->0@)) && peers_step(m, r, ps, c).0[(r, ps[i].ip->0@)] == (
            counter_or_zero(ps[i].rx_bytes),
            counter_or_zero(ps[i].tx_bytes),
        ) by {
            if i < ps.len() - 1 {
                assert(t[i] == ps[i]);
            }
        }
    }
}

/// A report without a reporter, or with an empty one, changes no snapshot
/// and charges nothing.
pub proof fn lemma_anonymous_report_is_ignored(
    m: Map<(Seq<char>, Seq<char>), (u64, u64)>,
    reporter: Option<Seq<char>>,
    peers: Seq<ReportedPeer>,
    cooldown: bool,
)
    requires
        reporter is None || reporter->0.len() == 0,
    ensures
        report_outcome(m, reporter, peers, cooldown) == Some((m, Seq::<(Seq<char>, int)>::empty())),
{
}

/// During the cool-down a report charges nothing; it still records the
/// reported counters as snapshots.
pub proof fn lemma_cooldown_charges_nothing(
    m: Map<(Seq<char>, Seq<char>), (u64, u64)>,
    reporter: Seq<char>,
    peers: Seq<ReportedPeer>,
)
    requires
        reporter.len() > 0,
    ensures
        report_outcome(m, Some(reporter), peers, true) == Some(
            (
                drop_stale(peers_step(m, reporter, peers, true).0, reporter, reported_ips(peers)),
                Seq::<(Seq<char>, int)>::empty(),
            ),
        ),
{
    lemma_cooldown_steps_charge_nothing(m, reporter, peers);
}

/// A peer seen for the first time only sets its baseline: a report whose
/// ips are distinct and none of which has a snapshot charges nothing.
pub proof fn lemma_first_sighting_charges_nothing(
    m: Map<(Seq<char>, Seq<char>), (u64, u64)>,
    reporter: Seq<char>,
    peers: Seq<ReportedPeer>,
    cooldown: bool,
)
    requires
        reporter.len() > 0,
        reported_ips_distinct(peers),
        forall|i: int|
            0 <= i < peers.len() && (#[trigger] peers[i]).ip is Some ==> !m.contains_key(
                (reporter, peers[i].ip->0@),
            ),
    ensures
        report_outcome(m, Some(reporter), peers, cooldown) is Some,
        ({
            let (_m1, charges) = report_outcome(m, Some(reporter), peers, cooldown)->0;
            charges == Seq::<(Seq<char>, int)>::empty()
        }),
{
    lemma_first_steps_charge_nothing(m, reporter, peers, cooldown);
}

/// One known peer: the charge is the growth of its two counters since the
/// last snapshot, a counter that went backwards counting as no growth, so
/// a reset connection is never over-charged; nothing is charged without
/// growth; the new counters become the snapshot.
pub proof fn lemma_known_peer_charged_growth(
    m: Map<(Seq<char>, Seq<char>), (u64, u64)>,
    reporter: Seq<char>,
    peer: ReportedPeer,
)
    requires
        reporter.len() > 0,
        peer_has_traffic(peer),
        m.contains_key((reporter, peer.ip->0@)),
    ensures
        ({
            let k = (reporter, peer.ip->0@);
            let rx = counter_or_zero(peer.rx_bytes);
            let tx = counter_or_zero(peer.tx_bytes);
            let d = sat_sub(rx, m[k].0) + sat_sub(tx, m[k].1);
            report_outcome(m, Some(reporter), seq![peer], false) == if d <= u64::MAX {
                Some(
                    (
                        drop_stale(m.insert(k, (rx, tx)), reporter, reported_ips(seq![peer])),
                        if d == 0 {
                            Seq::<(Seq<char>, int)>::empty()
                        } else {
                            seq![(peer.ip->0@, d)]
                        },
                    ),
                )
            } else {
                None
            }
        }),
{
    let ps = seq![peer];
    assert(ps.drop_last() =~= Seq::<ReportedPeer>::empty());
    assert(peers_step(m, reporter, ps.drop_last(), false) == (m, Seq::<(Seq<char>, int)>::empty()));
    assert(ps.last() == peer);
    let d = sat_sub(counter_or_zero(peer.rx_bytes), m[(reporter, peer.ip->0@)].0) + sat_sub(
        counter_or_zero(peer.tx_bytes),
        m[(reporter, peer.ip->0@)].1,
    );
    let k = (reporter, peer.ip->0@);
    let rx = counter_or_zero(peer.rx_bytes);
    let tx = counter_or_zero(peer.tx_bytes);
    assert(peer_step(m, reporter, peer, false).0 == m.insert(k, (rx, tx)));
    if d != 0 {
        let out = seq![(peer.ip->0@, d)];
        assert(Seq::<(Seq<char>, int)>::empty().push((peer.ip->0@, d)) =~= out);
        assert(peers_step(m, reporter, ps, false) == (m.insert(k, (rx, tx)), out));
        assert(out[0] == (peer.ip->0@, d));
        if d <= u64::MAX {
            assert(deltas_fit(out));
        } else {
            assert(!deltas_fit(out));
        }
    } else {
        assert(peers_step(m, reporter, ps, false) == (m.insert(k, (rx, tx)), Seq::<(Seq<char>, int)>::empty()));
        assert(deltas_fit(Seq::<(Seq<char>, int)>::empty()));
    }
}

/// Sending the same report again (its ips distinct) charges nothing and
/// leaves the snapshots as they are, in or out of the cool-down.
pub proof fn lemma_repeated_report_charges_nothing(
    m: Map<(Seq<char>, Seq<char>), (u64, u64)>,
    reporter: Seq<char>,
    peers: Seq<ReportedPeer>,
    first_cooldown: bool,
    second_cooldown: bool,
)
    requires
        reporter.len() > 0,
        reported_ips_distinct(peers),
        report_outcome(m, Some(reporter), peers, first_cooldown) is Some,
    ensures
        ({
            let (m1, _charges) = report_outcome(m, Some(reporter), peers, first_cooldown)->0;
            report_outcome(m1, Some(reporter), peers, second_cooldown) == Some(
                (m1, Seq::<(Seq<char>, int)>::empty()),
            )
        }),
{
    let big = peers_step(m, reporter, peers, first_cooldown).0;
    let ips = reported_ips(peers);
    let m1 = drop_stale(big, reporter, ips);
    lemma_steps_keep_last_counters(m, reporter, peers, first_cooldown);
    assert forall|i: int| 0 <= i < peers.len() && peer_has_traffic(#[trigger] peers[i]) implies m1.contains_key(
        (reporter, peers[i].ip->0@),
    ) && m1[(reporter, peers[i].ip->0@)] == (
        counter_or_zero(peers[i].rx_bytes),
        counter_or_zero(peers[i].tx_bytes),
    ) by {
        assert(ips.contains(peers[i].ip->0@));
    }
    lemma_steady_steps(m1, reporter, peers, second_cooldown);
    assert(drop_stale(m1, reporter, ips) =~= m1);
    assert(deltas_fit(Seq::<(Seq<char>, int)>::empty()));
}

/// A report touches only its reporter's snapshots: afterwards every
/// snapshot of the reporter is for an ip it reported, and the snapshots of
/// every other reporter are as they were.
pub proof fn lemma_report_scope(
    m: Map<(Seq<char>, Seq<char>), (u64, u64)>,
    reporter: Seq<char>,
    peers: Seq<ReportedPeer>,
    cooldown: bool,
)
    requires
        reporter.len() > 0,
        report_outcome(m, Some(reporter), peers, cooldown) is Some,
    ensures
        ({
            let (m1, _charges) = report_outcome(m, Some(reporter), peers, cooldown)->0;
            &&& forall|k: (Seq<char>, Seq<char>)|
                #[trigger] m1.contains_key(k) && k.0 == reporter ==> reported_ips(peers).contains(k.1)
            &&& forall|k: (Seq<char>, Seq<char>)|
                k.0 != reporter ==> (#[trigger] m1.contains_key(k) == m.contains_key(k) && (m.contains_key(k)
                    ==> m1[k] == m[k]))
        }),
{
    lemma_steps_touch_only_reporter(m, reporter, peers, cooldown);
}

/// A quota to set: bytes allowed to an ip per period (`hour`, `day`,
/// `week` or `month`).
#[derive(Debug)]
pub struct SetQuotaRequest {
    pub ip: String,
    pub period_type: String,
    pub limit_bytes: i64,
    pub enabled: Option<bool>,
}

#[derive(Debug)]
pub struct DeleteQuotaRequest {
    pub id: i32,
}

#[derive(Debug)]
pub struct UsageQuery {
    pub ip: Option<String>,
}

/// The periods a quota may be set for.
pub open spec fn is_quota_period(p: Seq<char>) -> bool {
    p == "hour"@ || p == "day"@ || p == "week"@ || p == "month"@
}

/// The `chrono` format of the usage key of a period type; any other type
/// is keyed by day.
pub open spec fn period_format_spec(p: Seq<char>) -> Seq<char> {
    if p == "hour"@ {
        "%Y-%m-%dT%H"@
    } else if p == "day"@ {
        "%Y-%m-%d"@
    } else if p == "week"@ {
        "%G-W%V"@
    } else if p == "month"@ {
        "%Y-%m"@
    } else {
        "%Y-%m-%d"@
    }
}

/// Whether a quota period type is accepted (the others are refused with 400).
pub fn quota_period_valid(period_type: &str) -> (r: bool)
    ensures
        r == is_quota_period(period_type@),
{
    str_eq(period_type, "hour") || str_eq(period_type, "day") || str_eq(period_type, "week") || str_eq(
        period_type,
        "month",
    )
}

/// The format of the usage key for a period type.
pub fn period_format(period_type: &str) -> (f: &'static str)
    ensures
        f@ == period_format_spec(period_type@),
{
    if str_eq(period_type, "hour") {
        "%Y-%m-%dT%H"
    } else if str_eq(period_type, "day") {
        "%Y-%m-%d"
    } else if str_eq(period_type, "week") {
        "%G-W%V"
    } else if str_eq(period_type, "month") {
        "%Y-%m"
    } else {
        "%Y-%m-%d"
    }
}

/// The local date and hour of an instant as `chrono` reads them, with the
/// year and week of its ISO 8601 week date.
#[derive(Debug, Clone, Copy, PartialEq, Eq, Structural)]
pub struct LocalDateFields {
    pub year: i32,
    pub month: u32,
    pub day: u32,
    pub hour: u32,
    pub iso_year: i32,
    pub iso_week: u32,
}

/// A leap year of the proleptic Gregorian calendar.
pub open spec fn is_leap_year(y: int) -> bool {
    y % 4 == 0 && (y % 100 != 0 || y % 400 == 0)
}

/// The number of days of month `m` (1 to 12) of year `y`.
pub open spec fn days_in_month(y: int, m: int) -> int {
    if m == 2 {
        if is_leap_year(y) {
            29
        } else {
            28
        }
    } else if m == 4 || m == 6 || m == 9 || m == 11 {
        30
    } else {
        31
    }
}

/// Days from 1970-01-01 to the date `y`-`m`-`d` of the proleptic Gregorian
/// calendar (negative before it), counting years from March so that the
/// leap day ends a year.
pub open spec fn days_from_civil(y: int, m: int, d: int) -> int {
    let ya = if m <= 2 {
        y - 1
    } else {
        y
    };
    let era = ya / 400;
    let yoe = ya - era * 400;
    let mp = (m + 9) % 12;
    let doy = (153 * mp + 2) / 5 + d - 1;
    let doe = yoe * 365 + yoe / 4 - yoe / 100 + doy;
    era * 146097 + doe - 719468
}

/// The ISO weekday of a date: 1 for Monday to 7 for Sunday (1970-01-01 was
/// a Thursday).
pub open spec fn iso_weekday(y: int, m: int, d: int) -> int {
    (days_from_civil(y, m, d) + 3) % 7 + 1
}

/// The day of the year of a date, from 1.
pub open spec fn ordinal_day(y: int, m: int, d: int) -> int {
    days_from_civil(y, m, d) - days_from_civil(y, 1, 1) + 1
}

/// The number of ISO weeks of ISO year `y`: 53 when it starts on a
/// Thursday, or on a Wednesday in a leap year; 52 otherwise.
pub open spec fn iso_weeks_in_year(y: int) -> int {
    let jan1 = iso_weekday(y, 1, 1);
    if jan1 == 4 || (is_leap_year(y) && jan1 == 3) {
        53
    } else {
        52
    }
}

/// The ISO 8601 week date (year, week) of a date: week 1 is the week with
/// the year's first Thursday, weeks start on Monday.
pub open spec fn iso_week_date(y: int, m: int, d: int) -> (int, int) {
    let w = (ordinal_day(y, m, d) - iso_weekday(y, m, d) + 10) / 7;
    if w < 1 {
        (y - 1, iso_weeks_in_year(y - 1))
    } else if w > iso_weeks_in_year(y) {
        (y + 1, 1)
    } else {
        (y, w)
    }
}

/// A date and hour that `chrono` can hold: a year in its range, a day that
/// exists in its month, an hour of the day, and the ISO week date of that
/// calendar date.
pub open spec fn date_fields_valid(d: LocalDateFields) -> bool {
    &&& -262143 <= d.year <= 262142
    &&& 1 <= d.month <= 12
    &&& 1 <= d.day <= days_in_month(d.year as int, d.month as int)
    &&& d.hour <= 23
    &&& (d.iso_year as int, d.iso_week as int) == iso_week_date(d.year as int, d.month as int, d.day as int)
}

/// The character of a decimal digit (0 to 9).
pub open spec fn digit_char(v: int) -> char {
    (('0' as int) + v) as char
}

/// The decimal digits of `n`, without leading zeros.
pub open spec fn decimal(n: nat) -> Seq<char>
    decreases n,
{
    if n < 10 {
        seq![digit_char(n as int)]
    } else {
        decimal(n / 10).push(digit_char((n % 10) as int))
    }
}

/// `s` with zeros in front, to at least `w` characters.
pub open spec fn zero_pad(s: Seq<char>, w: int) -> Seq<char> {
    if s.len() >= w {
        s
    } else {
        Seq::new((w - s.len()) as nat, |i: int| '0') + s
    }
}

/// A two-digit field (0 to 99), zero-padded, as `%m`, `%d`, `%H` and `%V`
/// write it.
pub open spec fn two_digit_field(v: int) -> Seq<char> {
    seq![digit_char(v / 10), digit_char(v % 10)]
}

/// A year as `%Y` and `%G` write it: four digits, zero-padded, for the years
/// 0 to 9999; otherwise a sign followed by at least four digits.
pub open spec fn year_field(y: int) -> Seq<char> {
    if 0 <= y <= 9999 {
        zero_pad(decimal(y as nat), 4)
    } else if y < 0 {
        seq!['-'] + zero_pad(decimal((-y) as nat), 4)
    } else {
        seq!['+'] + zero_pad(decimal(y as nat), 4)
    }
}

/// The usage key that a usage-key format gives for a date and hour:
/// `YYYY-MM-DDTHH`, `YYYY-MM-DD`, `GGGG-WVV` (ISO week date) or `YYYY-MM`.
pub open spec fn period_key_text(fmt: Seq<char>, d: LocalDateFields) -> Seq<char> {
    if fmt == "%Y-%m-%dT%H"@ {
        year_field(d.year as int) + seq!['-'] + two_digit_field(d.month as int) + seq!['-'] + two_digit_field(
            d.day as int,
        ) + seq!['T'] + two_digit_field(d.hour as int)
    } else if fmt == "%Y-%m-%d"@ {
        year_field(d.year as int) + seq!['-'] + two_digit_field(d.month as int) + seq!['-'] + two_digit_field(
            d.day as int,
        )
    } else if fmt == "%G-W%V"@ {
        year_field(d.iso_year as int) + seq!['-', 'W'] + two_digit_field(d.iso_week as int)
    } else if fmt == "%Y-%m"@ {
        year_field(d.year as int) + seq!['-'] + two_digit_field(d.month as int)
    } else {
        Seq::empty()
    }
}

/// Calls `chrono::Local::now()` once, formats that instant with
/// `DateTime::format(fmt)`, and reads its local date, hour and ISO week date
/// (`Datelike::year`, `month`, `day`, `iso_week`, `Timelike::hour`). The
/// format is one of the four usage-key formats, all of which `chrono`
/// accepts (an invalid one would make `to_string` panic). Claimed: the
/// fields are a date `chrono` can hold (its years run from -262143 to
/// 262142) together with the ISO 8601 week date of that date, and the text
/// is those same fields written as `period_key_text` says, which is how
/// `chrono` writes `%Y`, `%G` (`write_year`) and `%m`, `%d`, `%H`, `%V`
/// (`write_two`, zero-padded). Which instant is read is the local clock's
/// and is not stated.
#[verifier::external_body]
fn local_now_key(fmt: &str) -> (r: (String, LocalDateFields))
    requires
        fmt@ == "%Y-%m-%dT%H"@ || fmt@ == "%Y-%m-%d"@ || fmt@ == "%G-W%V"@ || fmt@ == "%Y-%m"@,
    ensures
        date_fields_valid(r.1),
        r.0@ == period_key_text(fmt@, r.1),
{
    let now = chrono::Local::now();
    let iso = chrono::Datelike::iso_week(&now);
    let d = LocalDateFields {
        year: chrono::Datelike::year(&now),
        month: chrono::Datelike::month(&now),
        day: chrono::Datelike::day(&now),
        hour: chrono::Timelike::hour(&now),
        iso_year: iso.year(),
        iso_week: iso.week(),
    };
    (now.format(fmt).to_string(), d)
}

/// The usage key of the current period in local time, in the format that
/// `period_format` picks for the period type, with the local date and hour
/// that it names.
pub fn current_period_key_with_date(period_type: &str) -> (r: (String, LocalDateFields))
    ensures
        date_fields_valid(r.1),
        r.0@ == period_key_text(period_format_spec(period_type@), r.1),
{
    let f = period_format(period_type);
    local_now_key(f)
}

/// The usage key of the current period in local time, in the format that
/// `period_format` picks for the period type: the key of some date and hour
/// (the clock's).
pub fn current_period_key(period_type: &str) -> (r: String)
    ensures
        exists|d: LocalDateFields|
            #[trigger] date_fields_valid(d) && r@ == period_key_text(period_format_spec(period_type@), d),
{
    let (k, d) = current_period_key_with_date(period_type);
    assert(date_fields_valid(d) && k@ == period_key_text(period_format_spec(period_type@), d));
    k
}

/// For one date and hour, the hour key extends the day key, and the day key
/// extends the month key.
pub proof fn lemma_period_keys_nest(d: LocalDateFields)
    ensures
        period_key_text(period_format_spec("day"@), d).is_prefix_of(
            period_key_text(period_format_spec("hour"@), d),
        ),
        period_key_text(period_format_spec("month"@), d).is_prefix_of(
            period_key_text(period_format_spec("day"@), d),
        ),
{
    reveal_strlit("hour");
    reveal_strlit("day");
    reveal_strlit("month");
    reveal_strlit("%Y-%m-%dT%H");
    reveal_strlit("%Y-%m-%d");
    reveal_strlit("%Y-%m");
    reveal_strlit("%G-W%V");
    assert("%Y-%m-%dT%H"@.len() == 11);
    assert("%Y-%m-%d"@.len() == 8);
    assert("%G-W%V"@.len() == 6);
    assert("%Y-%m"@.len() == 5);
    let m = period_key_text("%Y-%m"@, d);
    let dk = period_key_text("%Y-%m-%d"@, d);
    let hk = period_key_text("%Y-%m-%dT%H"@, d);
    assert(dk =~= m + seq!['-'] + two_digit_field(d.day as int));
    assert(hk =~= dk + seq!['T'] + two_digit_field(d.hour as int));
    assert(hk.subrange(0, dk.len() as int) =~= dk);
    assert(dk.subrange(0, m.len() as int) =~= m);
    assert("hour"@.len() == 4 && "day"@.len() == 3 && "month"@.len() == 5);
    assert("month"@ != "hour"@ && "month"@ != "day"@ && "month"@ != "week"@) by {
        reveal_strlit("week");
        assert("month"@[0] != "week"@[0]);
    }
    assert(period_format_spec("hour"@) == "%Y-%m-%dT%H"@);
    assert(period_format_spec("day"@) == "%Y-%m-%d"@);
    assert(period_format_spec("month"@) == "%Y-%m"@);
}

/// The enabled flag of a quota; enabled unless said otherwise.
pub fn quota_enabled(enabled: Option<bool>) -> (r: bool)
    ensures
        r == match enabled {
            Some(b) => b,
            None => true,
        },
{
    match enabled {
        Some(b) => b,
        None => true,
    }
}

/// The byte count added to a usage row for a charge (the stored column is
/// signed; the value is reinterpreted as `as` does).
pub fn usage_increment(delta: u64) -> (r: i64)
    ensures
        r == delta as i64,
{
    delta as i64
}

/// An ip is blocked once its usage in the period reaches the limit.
pub fn quota_exceeded(current_bytes: i64, limit_bytes: i64) -> (r: bool)
    ensures
        r == (current_bytes >= limit_bytes),
{
    current_bytes >= limit_bytes
}

/// What the database answered last while a charge is applied to one quota.
#[derive(Debug, Clone, Copy, PartialEq, Eq, Structural)]
pub enum QuotaEvent {
    /// Nothing yet: the charge starts.
    Begin,
    /// The usage row of the period was raised; the number of rows changed
    /// (0 when there was none, or when the update failed).
    RowsUpdated(u64),
    /// A usage row for the period was inserted (or the insert failed).
    Inserted,
    /// The usage of the period as read back (0 when no row was found).
    UsageRead(i64),
    /// The ip's whitelist rows were deleted (or the delete failed).
    Blocked,
}

/// What to do next while a charge is applied to one quota.
#[derive(Debug, Clone, Copy, PartialEq, Eq, Structural)]
pub enum QuotaAction {
    /// Add this many bytes to the usage row of the ip, period type and key.
    AddUsage(i64),
    /// Insert a usage row with this many bytes.
    InsertUsage(i64),
    /// Read the usage row back.
    ReadUsage,
    /// Remove the ip from the whitelist: its quota is used up.
    BlockIp,
    /// The charge is complete.
    Done,
}

/// The next step of charging `delta` bytes to a quota of `limit` bytes: add
/// to the period's usage row, insert it if there was none, read it back, and
/// block the ip once the usage reaches the limit.
pub open spec fn quota_step_spec(delta: u64, limit: i64, event: QuotaEvent) -> QuotaAction {
    match event {
        QuotaEvent::Begin => QuotaAction::AddUsage(delta as i64),
        QuotaEvent::RowsUpdated(n) => if n == 0 {
            QuotaAction::InsertUsage(delta as i64)
        } else {
            QuotaAction::ReadUsage
        },
        QuotaEvent::Inserted => QuotaAction::ReadUsage,
        QuotaEvent::UsageRead(current) => if current >= limit {
            QuotaAction::BlockIp
        } else {
            QuotaAction::Done
        },
        QuotaEvent::Blocked => QuotaAction::Done,
    }
}

/// Decides the next step of charging `delta` bytes to a quota of `limit`
/// bytes, given the last answer of the database.
pub fn quota_step(delta: u64, limit: i64, event: QuotaEvent) -> (a: QuotaAction)
    ensures
        a == quota_step_spec(delta, limit, event),
{
    match event {
        QuotaEvent::Begin => QuotaAction::AddUsage(usage_increment(delta)),
        QuotaEvent::RowsUpdated(n) => if n == 0 {
            QuotaAction::InsertUsage(usage_increment(delta))
        } else {
            QuotaAction::ReadUsage
        },
        QuotaEvent::Inserted => QuotaAction::ReadUsage,
        QuotaEvent::UsageRead(current) => if quota_exceeded(current, limit) {
            QuotaAction::BlockIp
        } else {
            QuotaAction::Done
        },
        QuotaEvent::Blocked => QuotaAction::Done,
    }
}

/// A charge writes the same amount whether it raises the usage row or
/// inserts it, and an ip is blocked only on a usage read back that has
/// reached the limit.
pub proof fn lemma_quota_step_charges_and_blocks(delta: u64, limit: i64, event: QuotaEvent)
    ensures
        quota_step_spec(delta, limit, QuotaEvent::Begin) == QuotaAction::AddUsage(delta as i64),
        quota_step_spec(delta, limit, QuotaEvent::RowsUpdated(0)) == QuotaAction::InsertUsage(delta as i64),
        quota_step_spec(delta, limit, event) == QuotaAction::BlockIp <==> (event matches QuotaEvent::UsageRead(
            c,
        ) && c >= limit),
{
}

/// Every period type that a quota accepts has its own usage-key format.
pub proof fn lemma_quota_periods_keyed_apart(p: Seq<char>, q: Seq<char>)
    requires
        is_quota_period(p),
        is_quota_period(q),
        p != q,
    ensures
        period_format_spec(p) != period_format_spec(q),
{
    reveal_strlit("hour");
    reveal_strlit("day");
    reveal_strlit("week");
    reveal_strlit("month");
    reveal_strlit("%Y-%m-%dT%H");
    reveal_strlit("%Y-%m-%d");
    reveal_strlit("%G-W%V");
    reveal_strlit("%Y-%m");
    assert("%Y-%m-%dT%H"@.len() == 11);
    assert("%Y-%m-%d"@.len() == 8);
    assert("%G-W%V"@.len() == 6);
    assert("%Y-%m"@.len() == 5);
}

proof fn lemma_step_charges_positive(
    m: Map<(Seq<char>, Seq<char>), (u64, u64)>,
    r: Seq<char>,
    ps: Seq<ReportedPeer>,
    c: bool,
)
    ensures
        forall|j: int|
            0 <= j < peers_step(m, r, ps, c).1.len() ==> (#[trigger] peers_step(m, r, ps, c).1[j]).1 > 0,
    decreases ps.len(),
{
    if ps.len() > 0 {
        let t = ps.drop_last();
        lemma_step_charges_positive(m, r, t, c);
        assert forall|j: int| 0 <= j < peers_step(m, r, ps, c).1.len() implies (#[trigger] peers_step(
            m,
            r,
            ps,
            c,
        ).1[j]).1 > 0 by {
            if j < peers_step(m, r, t, c).1.len() {
                assert(peers_step(m, r, ps, c).1[j] == peers_step(m, r, t, c).1[j]);
            }
        }
    }
}

/// Every charge of a report is a positive number of bytes, for an ip that
/// the report names.
pub proof fn lemma_charges_positive(
    m: Map<(Seq<char>, Seq<char>), (u64, u64)>,
    reporter: Seq<char>,
    peers: Seq<ReportedPeer>,
    cooldown: bool,
)
    requires
        reporter.len() > 0,
        report_outcome(m, Some(reporter), peers, cooldown) is Some,
    ensures
        ({
            let (_m1, charges) = report_outcome(m, Some(reporter), peers, cooldown)->0;
            forall|j: int|
                0 <= j < charges.len() ==> (#[trigger] charges[j]).1 > 0 && reported_ips(peers).contains(
                    charges[j].0,
                )
        }),
{
    lemma_step_charges_positive(m, reporter, peers, cooldown);
    lemma_step_charges_named(m, reporter, peers, cooldown);
}

proof fn lemma_step_charges_named(
    m: Map<(Seq<char>, Seq<char>), (u64, u64)>,
    r: Seq<char>,
    ps: Seq<ReportedPeer>,
    c: bool,
)
    ensures
        forall|j: int|
            0 <= j < peers_step(m, r, ps, c).1.len() ==> reported_ips(ps).contains(
                (#[trigger] peers_step(m, r, ps, c).1[j]).0,
            ),
    decreases ps.len(),
{
    if ps.len() > 0 {
        let t = ps.drop_last();
        lemma_step_charges_named(m, r, t, c);
        assert forall|j: int|
            0 <= j < peers_step(m, r, ps, c).1.len() implies reported_ips(ps).contains(
            (#[trigger] peers_step(m, r, ps, c).1[j]).0,
        ) by {
            let x = peers_step(m, r, ps, c).1[j].0;
            if j < peers_step(m, r, t, c).1.len() {
                let i = choose|i: int| 0 <= i < t.len() && (#[trigger] t[i]).ip is Some && t[i].ip->0@ == x;
                assert(ps[i] == t[i]);
            } else {
                assert(ps[ps.len() - 1] == ps.last());
            }
        }
    }
}

} // verus!
