use vstd::prelude::*;

use crate::bytes::bytes_eq;
use crate::bytes::clone_bytes;

verus! {

/// One known upstream broker: its address bytes (`host:port`) and the
/// liveness last recorded for it.  The identity is immutable; liveness is
/// mutated only through `Registry::set_health`.
#[derive(Debug)]
pub struct Backend {
    pub addr: Vec<u8>,
    pub healthy: bool,
}

/// Mathematical image of a backend.
pub struct BackendV {
    pub addr: Seq<u8>,
    pub healthy: bool,
}

impl View for Backend {
    type V = BackendV;

    open spec fn view(&self) -> BackendV {
        BackendV { addr: self.addr@, healthy: self.healthy }
    }
}

/// The set of known upstream brokers, viewed as a consistent-hash ring.
/// Rebuilt by `refresh`; probed by the health-check loop through
/// `set_health`; queried by `select`.
#[derive(Debug)]
pub struct Registry {
    pub backends: Vec<Backend>,
}

/// Mathematical image of a backend list.
pub open spec fn backends_view(v: Seq<Backend>) -> Seq<BackendV> {
    Seq::new(v.len(), |i: int| v[i]@)
}

impl View for Registry {
    type V = Seq<BackendV>;

    open spec fn view(&self) -> Seq<BackendV> {
        backends_view(self.backends@)
    }
}

/// The byte-string views of a list of addresses.
pub open spec fn views_of(s: Seq<Vec<u8>>) -> Seq<Seq<u8>> {
    Seq::new(s.len(), |i: int| s[i]@)
}

/// Address list with the later duplicates dropped: each address keeps its
/// first occurrence only, in order.
pub open spec fn dedup(s: Seq<Seq<u8>>) -> Seq<Seq<u8>>
    decreases s.len(),
{
    if s.len() == 0 {
        Seq::empty()
    } else {
        let rest = dedup(s.drop_last());
        if s.drop_last().contains(s.last()) {
            rest
        } else {
            rest.push(s.last())
        }
    }
}

/// Some backend of the set has this address.
pub open spec fn has_addr(s: Seq<BackendV>, a: Seq<u8>) -> bool {
    exists|j: int| 0 <= j < s.len() && (#[trigger] s[j]).addr == a
}

/// The recorded liveness of the backend with this address.
pub open spec fn health_of(s: Seq<BackendV>, a: Seq<u8>) -> bool {
    s[choose|j: int| 0 <= j < s.len() && (#[trigger] s[j]).addr == a].healthy
}

/// No two backends of the set share an address.
pub open spec fn addrs_unique(s: Seq<BackendV>) -> bool {
    forall|i: int, j: int| 0 <= i < j < s.len() ==> (#[trigger] s[i]).addr != (#[trigger] s[j]).addr
}

/// `post` is the candidate set rebuilt from `addrs`: the deduplicated
/// addresses in order, each keeping the liveness `pre` had recorded for it,
/// with newly discovered backends counted healthy until a probe says
/// otherwise.
pub open spec fn refreshed(pre: Seq<BackendV>, post: Seq<BackendV>, addrs: Seq<Seq<u8>>) -> bool {
    let kept = dedup(addrs);
    &&& post.len() == kept.len()
    &&& forall|i: int| 0 <= i < kept.len() ==> (#[trigger] post[i]).addr == kept[i]
    &&& forall|i: int|
        0 <= i < kept.len() ==> (#[trigger] post[i]).healthy == (if has_addr(pre, kept[i]) {
            health_of(pre, kept[i])
        } else {
            true
        })
}

proof fn lemma_dedup_contains(s: Seq<Seq<u8>>, x: Seq<u8>)
    ensures
        dedup(s).contains(x) == s.contains(x),
    decreases s.len(),
{
    if s.len() > 0 {
        lemma_dedup_contains(s.drop_last(), x);
        assert(s.contains(x) == (s.drop_last().contains(x) || s.last() == x)) by {
            if s.contains(x) {
                let i = choose|i: int| 0 <= i < s.len() && s[i] == x;
                if i < s.len() - 1 {
                    assert(s.drop_last()[i] == x);
                }
            }
            if s.drop_last().contains(x) {
                let i = choose|i: int| 0 <= i < s.drop_last().len() && s.drop_last()[i] == x;
                assert(s[i] == x);
            }
            if s.last() == x {
                assert(s[s.len() - 1] == x);
            }
        }
        if !s.drop_last().contains(s.last()) {
            let rest = dedup(s.drop_last());
            assert(dedup(s) == rest.push(s.last()));
            assert forall|y: Seq<u8>| rest.push(s.last()).contains(y) == (rest.contains(y) || s.last()
                == y) by {
                if rest.push(s.last()).contains(y) {
                    let i = choose|i: int|
                        0 <= i < rest.push(s.last()).len() && rest.push(s.last())[i] == y;
                    if i < rest.len() {
                        assert(rest[i] == y);
                    }
                }
                if rest.contains(y) {
                    let i = choose|i: int| 0 <= i < rest.len() && rest[i] == y;
                    assert(rest.push(s.last())[i] == y);
                }
                if s.last() == y {
                    assert(rest.push(s.last())[rest.len() as int] == y);
                }
            }
        }
    }
}

proof fn lemma_dedup_unique(s: Seq<Seq<u8>>)
    ensures
        forall|i: int, j: int|
            0 <= i < j < dedup(s).len() ==> #[trigger] dedup(s)[i] != #[trigger] dedup(s)[j],
    decreases s.len(),
{
    if s.len() > 0 {
        lemma_dedup_unique(s.drop_last());
        lemma_dedup_contains(s.drop_last(), s.last());
        let rest = dedup(s.drop_last());
        if !s.drop_last().contains(s.last()) {
            assert forall|i: int, j: int| 0 <= i < j < dedup(s).len() implies #[trigger] dedup(
                s,
            )[i] != #[trigger] dedup(s)[j] by {
                if j < rest.len() {
                    assert(dedup(s)[i] == rest[i] && dedup(s)[j] == rest[j]);
                } else {
                    assert(dedup(s)[j] == s.last());
                    assert(dedup(s)[i] == rest[i]);
                    assert(rest.contains(rest[i]));
                }
            }
        }
    }
}

/// Whether the list holds a backend with this address.
fn contains_addr(v: &Vec<Backend>, a: &Vec<u8>) -> (r: bool)
    ensures
        r == has_addr(backends_view(v@), a@),
{
    let mut i: usize = 0;
    while i < v.len()
        invariant
            i <= v@.len(),
            forall|k: int| 0 <= k < i ==> (#[trigger] backends_view(v@)[k]).addr != a@,
        decreases v@.len() - i,
    {
        if bytes_eq(&v[i].addr, a) {
            proof {
                assert(backends_view(v@)[i as int].addr == a@);
            }
            return true;
        }
        i += 1;
    }
    false
}

/// The recorded liveness of the backend with this address, if the list
/// holds one.
fn lookup_health(v: &Vec<Backend>, a: &Vec<u8>) -> (r: Option<bool>)
    ensures
        (r is Some) == has_addr(backends_view(v@), a@),
        r matches Some(h) ==> exists|j: int|
            0 <= j < v@.len() && (#[trigger] backends_view(v@)[j]).addr == a@ && backends_view(
                v@,
            )[j].healthy == h,
{
    let mut i: usize = 0;
    while i < v.len()
        invariant
            i <= v@.len(),
            forall|k: int| 0 <= k < i ==> (#[trigger] backends_view(v@)[k]).addr != a@,
        decreases v@.len() - i,
    {
        if bytes_eq(&v[i].addr, a) {
            proof {
                assert(backends_view(v@)[i as int].addr == a@);
            }
            return Some(v[i].healthy);
        }
        i += 1;
    }
    None
}

/// One mixing step of the ring hash: rotate left by seven, fold in a byte.
pub open spec fn mix(h: u64, b: u8) -> u64 {
    ((h << 7) | (h >> 57)) ^ (b as u64)
}

/// The ring hash of a byte string, folded left to right from a fixed seed.
pub open spec fn hash_bytes_spec(s: Seq<u8>) -> u64
    decreases s.len(),
{
    if s.len() == 0 {
        0x9e3779b97f4a7c15
    } else {
        mix(hash_bytes_spec(s.drop_last()), s.last())
    }
}

/// Computes the ring hash of a byte string.
pub fn hash_bytes(v: &Vec<u8>) -> (h: u64)
    ensures
        h == hash_bytes_spec(v@),
{
    let mut h: u64 = 0x9e3779b97f4a7c15;
    let mut i: usize = 0;
    while i < v.len()
        invariant
            i <= v@.len(),
            h == hash_bytes_spec(v@.take(i as int)),
        decreases v@.len() - i,
    {
        let b = v[i];
        h = ((h << 7) | (h >> 57)) ^ (b as u64);
        i += 1;
        proof {
            assert(v@.take(i as int).drop_last() =~= v@.take(i - 1));
            assert(v@.take(i as int).last() == v@[i - 1]);
        }
    }
    proof {
        assert(v@.take(v@.len() as int) =~= v@);
    }
    h
}

/// Clockwise distance from `h` to `p` on the 64-bit hash ring.
pub open spec fn ring_dist(p: u64, h: u64) -> int {
    if p >= h {
        p - h
    } else {
        p - h + 0x1_0000_0000_0000_0000
    }
}

/// Computes the clockwise ring distance from `h` to `p`.
fn ring_dist_exec(p: u64, h: u64) -> (d: u64)
    ensures
        d as int == ring_dist(p, h),
{
    if p >= h {
        p - h
    } else {
        (u64::MAX - h) + 1 + p
    }
}

/// Strict order on ring candidates: nearer first, index as tie-break.
pub open spec fn key_lt(d1: int, i1: int, d2: int, i2: int) -> bool {
    d1 < d2 || (d1 == d2 && i1 < i2)
}

/// Ring distance of candidate `i` from the routing hash `h`.
pub open spec fn cand_dist(s: Seq<BackendV>, h: u64, i: int) -> int {
    ring_dist(hash_bytes_spec(s[i].addr), h)
}

/// Candidate `i` is the nearest one strictly beyond the threshold `(td, ti)`
/// in ring order.
pub open spec fn is_next_cand(s: Seq<BackendV>, h: u64, td: int, ti: int, i: int) -> bool {
    &&& 0 <= i < s.len()
    &&& key_lt(td, ti, cand_dist(s, h, i), i)
    &&& forall|j: int|
        0 <= j < s.len() && key_lt(td, ti, #[trigger] cand_dist(s, h, j), j) ==> !key_lt(
            cand_dist(s, h, j),
            j,
            cand_dist(s, h, i),
            i,
        )
}

/// The nearest candidate strictly beyond the threshold, if any.
pub open spec fn next_cand(s: Seq<BackendV>, h: u64, td: int, ti: int) -> Option<int> {
    if exists|i: int| is_next_cand(s, h, td, ti, i) {
        Some(choose|i: int| is_next_cand(s, h, td, ti, i))
    } else {
        None
    }
}

/// Walks the ring from the threshold on: examines up to `attempts`
/// candidates in ring order and yields the first healthy one.
pub open spec fn select_from(s: Seq<BackendV>, h: u64, td: int, ti: int, attempts: nat) -> Option<
    BackendV,
>
    decreases attempts,
{
    if attempts == 0 {
        None
    } else {
        match next_cand(s, h, td, ti) {
            None => None,
            Some(i) => if s[i].healthy {
                Some(s[i])
            } else {
                select_from(s, h, cand_dist(s, h, i), i, (attempts - 1) as nat)
            },
        }
    }
}

/// What `Registry::select` returns: the first healthy backend among the
/// `attempts` ring candidates nearest to the hash of the routing key.
pub open spec fn spec_select(s: Seq<BackendV>, key: Seq<u8>, attempts: nat) -> Option<BackendV> {
    select_from(s, hash_bytes_spec(key), -1, -1, attempts)
}

proof fn lemma_next_cand_unique(s: Seq<BackendV>, h: u64, td: int, ti: int, i1: int, i2: int)
    requires
        is_next_cand(s, h, td, ti, i1),
        is_next_cand(s, h, td, ti, i2),
    ensures
        i1 == i2,
{
    assert(cand_dist(s, h, i1) == cand_dist(s, h, i1));
    assert(cand_dist(s, h, i2) == cand_dist(s, h, i2));
}

proof fn lemma_select_from_healthy(s: Seq<BackendV>, h: u64, td: int, ti: int, attempts: nat)
    ensures
        select_from(s, h, td, ti, attempts) matches Some(b) ==> b.healthy && exists|i: int|
            0 <= i < s.len() && s[i] == b,
    decreases attempts,
{
    if attempts > 0 {
        if exists|i: int| is_next_cand(s, h, td, ti, i) {
            let i = choose|i: int| is_next_cand(s, h, td, ti, i);
            if s[i].healthy {
                assert(0 <= i < s.len() && s[i] == s[i]);
            } else {
                lemma_select_from_healthy(s, h, cand_dist(s, h, i), i, (attempts - 1) as nat);
            }
        }
    }
}

/// Selection is deterministic: for one and the same backend set, the same
/// routing key always maps to the same choice (session affinity).
pub proof fn lemma_select_deterministic(
    s1: Seq<BackendV>,
    s2: Seq<BackendV>,
    key: Seq<u8>,
    attempts: nat,
)
    requires
        s1 == s2,
    ensures
        spec_select(s1, key, attempts) == spec_select(s2, key, attempts),
{
}

/// A selected backend is always healthy and always a member of the set:
/// selection never silently yields an unhealthy backend.
pub proof fn lemma_select_healthy(s: Seq<BackendV>, key: Seq<u8>, attempts: nat)
    ensures
        spec_select(s, key, attempts) matches Some(b) ==> b.healthy && exists|i: int|
            0 <= i < s.len() && s[i] == b,
{
    lemma_select_from_healthy(s, hash_bytes_spec(key), -1, -1, attempts);
}

/// With no healthy backend — in particular over an empty set — selection
/// reports "no backend" for every routing key, it never picks an unhealthy
/// one.
pub proof fn lemma_select_no_healthy(s: Seq<BackendV>, key: Seq<u8>, attempts: nat)
    requires
        forall|i: int| 0 <= i < s.len() ==> !(#[trigger] s[i]).healthy,
    ensures
        spec_select(s, key, attempts) is None,
{
    lemma_select_healthy(s, key, attempts);
    match spec_select(s, key, attempts) {
        Some(b) => {
            let i = choose|i: int| 0 <= i < s.len() && s[i] == b;
            assert(!s[i].healthy);
        },
        None => {},
    }
}

/// The candidates strictly beyond a threshold in ring order.
pub open spec fn beyond_set(s: Seq<BackendV>, h: u64, td: int, ti: int) -> Set<int> {
    Set::new(|i: int| 0 <= i < s.len() && key_lt(td, ti, cand_dist(s, h, i), i))
}

spec fn is_min_upto(s: Seq<BackendV>, h: u64, td: int, ti: int, i: int, m: int) -> bool {
    &&& 0 <= i < m
    &&& key_lt(td, ti, cand_dist(s, h, i), i)
    &&& forall|j: int|
        0 <= j < m && key_lt(td, ti, #[trigger] cand_dist(s, h, j), j) ==> !key_lt(
            cand_dist(s, h, j),
            j,
            cand_dist(s, h, i),
            i,
        )
}

proof fn lemma_exists_min_upto(s: Seq<BackendV>, h: u64, td: int, ti: int, m: int)
    requires
        1 <= m <= s.len(),
        exists|j: int| 0 <= j < m && key_lt(td, ti, #[trigger] cand_dist(s, h, j), j),
    ensures
        exists|i: int| is_min_upto(s, h, td, ti, i, m),
    decreases m,
{
    let jw = choose|j: int| 0 <= j < m && key_lt(td, ti, #[trigger] cand_dist(s, h, j), j);
    if m == 1 {
        assert(is_min_upto(s, h, td, ti, 0, 1));
    } else if exists|j: int| 0 <= j < m - 1 && key_lt(td, ti, #[trigger] cand_dist(s, h, j), j) {
        lemma_exists_min_upto(s, h, td, ti, m - 1);
        let i0 = choose|i: int| #[trigger] is_min_upto(s, h, td, ti, i, m - 1);
        if key_lt(td, ti, cand_dist(s, h, m - 1), m - 1) && key_lt(
            cand_dist(s, h, m - 1),
            m - 1,
            cand_dist(s, h, i0),
            i0,
        ) {
            assert(is_min_upto(s, h, td, ti, m - 1, m));
        } else {
            assert(is_min_upto(s, h, td, ti, i0, m));
        }
    } else {
        assert(jw == m - 1);
        assert(is_min_upto(s, h, td, ti, m - 1, m));
    }
}

proof fn lemma_exists_next_cand(s: Seq<BackendV>, h: u64, td: int, ti: int)
    requires
        exists|j: int| 0 <= j < s.len() && key_lt(td, ti, #[trigger] cand_dist(s, h, j), j),
    ensures
        next_cand(s, h, td, ti) matches Some(i) && is_next_cand(s, h, td, ti, i),
{
    lemma_exists_min_upto(s, h, td, ti, s.len() as int);
    let i = choose|i: int| #[trigger] is_min_upto(s, h, td, ti, i, s.len() as int);
    assert(is_next_cand(s, h, td, ti, i));
}

proof fn lemma_select_from_complete(s: Seq<BackendV>, h: u64, td: int, ti: int, attempts: nat)
    requires
        exists|j: int|
            0 <= j < s.len() && (#[trigger] s[j]).healthy && key_lt(td, ti, cand_dist(s, h, j), j),
        attempts >= beyond_set(s, h, td, ti).len(),
    ensures
        select_from(s, h, td, ti, attempts) is Some,
    decreases attempts,
{
    let jw = choose|j: int|
        0 <= j < s.len() && (#[trigger] s[j]).healthy && key_lt(td, ti, cand_dist(s, h, j), j);
    let beyond = beyond_set(s, h, td, ti);
    vstd::set_lib::lemma_int_range(0, s.len() as int);
    vstd::set_lib::lemma_len_subset(beyond, vstd::set_lib::set_int_range(0, s.len() as int));
    assert(beyond.contains(jw));
    assert(beyond.len() > 0) by {
        if beyond.len() == 0 {
            beyond.lemma_len0_is_empty();
        }
    }
    assert(attempts >= 1);
    assert(exists|j: int| 0 <= j < s.len() && key_lt(td, ti, #[trigger] cand_dist(s, h, j), j));
    lemma_exists_next_cand(s, h, td, ti);
    let i0 = next_cand(s, h, td, ti)->Some_0;
    if !s[i0].healthy {
        let nd = cand_dist(s, h, i0);
        // the healthy candidate is still beyond the new threshold
        assert(jw != i0);
        assert(key_lt(nd, i0, cand_dist(s, h, jw), jw));
        // every candidate beyond the new threshold was beyond the old one,
        // and the visited one is no longer among them
        let beyond2 = beyond_set(s, h, nd, i0);
        assert forall|x: int| beyond2.contains(x) implies beyond.remove(i0).contains(x) by {
            assert(key_lt(nd, i0, cand_dist(s, h, x), x));
            assert(key_lt(td, ti, cand_dist(s, h, i0), i0));
        }
        vstd::set::axiom_set_remove_len(beyond, i0);
        vstd::set_lib::lemma_len_subset(beyond2, beyond.remove(i0));
        lemma_select_from_complete(s, h, nd, i0, (attempts - 1) as nat);
    }
}

/// Success is owed: given at least as many attempts as there are known
/// backends, selection finds a healthy backend whenever the set holds one.
pub proof fn lemma_select_complete(s: Seq<BackendV>, key: Seq<u8>, attempts: nat)
    requires
        attempts >= s.len(),
        exists|i: int| 0 <= i < s.len() && (#[trigger] s[i]).healthy,
    ensures
        spec_select(s, key, attempts) is Some,
{
    let h = hash_bytes_spec(key);
    let jw = choose|i: int| 0 <= i < s.len() && (#[trigger] s[i]).healthy;
    assert(key_lt(-1, -1, cand_dist(s, h, jw), jw));
    let beyond = beyond_set(s, h, -1, -1);
    vstd::set_lib::lemma_int_range(0, s.len() as int);
    vstd::set_lib::lemma_len_subset(beyond, vstd::set_lib::set_int_range(0, s.len() as int));
    lemma_select_from_complete(s, h, -1, -1, attempts);
}

impl Registry {
    /// Picks a healthy backend for a routing key by consistent hashing:
    /// walks the ring from the key's hash and examines up to `attempts`
    /// candidates, skipping unhealthy ones.  Yields `None` — never an
    /// unhealthy backend — when no healthy candidate is within reach.
    pub fn select(&self, key: &Vec<u8>, attempts: usize) -> (r: Option<Backend>)
        ensures
            spec_select(self@, key@, attempts as nat) matches Some(bv) ==> (r matches Some(b)
                && b@ == bv),
            spec_select(self@, key@, attempts as nat) is None ==> r is None,
    {
        let h = hash_bytes(key);
        let n = self.backends.len();
        let mut attempt: usize = 0;
        let mut have_t: bool = false;
        let mut td: u64 = 0;
        let mut ti: usize = 0;
        let ghost mut gtd: int = -1;
        let ghost mut gti: int = -1;
        while attempt < attempts
            invariant
                n == self.backends@.len(),
                h == hash_bytes_spec(key@),
                attempt <= attempts,
                have_t ==> gtd == td as int && gti == ti as int,
                !have_t ==> gtd == -1 && gti == -1,
                select_from(self@, h, gtd, gti, (attempts - attempt) as nat) == spec_select(
                    self@,
                    key@,
                    attempts as nat,
                ),
            decreases attempts - attempt,
        {
            let mut best_found: bool = false;
            let mut bd: u64 = 0;
            let mut bi: usize = 0;
            let mut j: usize = 0;
            while j < n
                invariant
                    n == self.backends@.len(),
                    j <= n,
                    have_t ==> gtd == td as int && gti == ti as int,
                    !have_t ==> gtd == -1 && gti == -1,
                    best_found ==> bi < j && bd as int == cand_dist(self@, h, bi as int) && key_lt(
                        gtd,
                        gti,
                        bd as int,
                        bi as int,
                    ),
                    best_found ==> forall|k: int|
                        0 <= k < j && key_lt(gtd, gti, #[trigger] cand_dist(self@, h, k), k)
                            ==> !key_lt(cand_dist(self@, h, k), k, bd as int, bi as int),
                    !best_found ==> forall|k: int|
                        0 <= k < j ==> !key_lt(gtd, gti, #[trigger] cand_dist(self@, h, k), k),
                decreases n - j,
            {
                proof {
                    assert(self@[j as int] == self.backends@[j as int]@);
                }
                let p = hash_bytes(&self.backends[j].addr);
                let d = ring_dist_exec(p, h);
                let beyond = if have_t {
                    td < d || (td == d && ti < j)
                } else {
                    true
                };
                if beyond && (!best_found || d < bd || (d == bd && j < bi)) {
                    best_found = true;
                    bd = d;
                    bi = j;
                }
                j += 1;
            }
            if !best_found {
                proof {
                    assert(forall|i: int| !is_next_cand(self@, h, gtd, gti, i));
                    assert(select_from(self@, h, gtd, gti, (attempts - attempt) as nat) is None);
                }
                return None;
            }
            proof {
                assert(is_next_cand(self@, h, gtd, gti, bi as int));
                let i0 = choose|i: int| is_next_cand(self@, h, gtd, gti, i);
                lemma_next_cand_unique(self@, h, gtd, gti, i0, bi as int);
                assert(next_cand(self@, h, gtd, gti) == Some(bi as int));
            }
            if self.backends[bi].healthy {
                proof {
                    assert(self@[bi as int] == self.backends@[bi as int]@);
                    assert(select_from(self@, h, gtd, gti, (attempts - attempt) as nat) == Some(
                        self@[bi as int],
                    ));
                }
                let b = Backend { addr: clone_bytes(&self.backends[bi].addr), healthy: true };
                return Some(b);
            }
            proof {
                assert(self@[bi as int] == self.backends@[bi as int]@);
                gtd = bd as int;
                gti = bi as int;
            }
            have_t = true;
            td = bd;
            ti = bi;
            attempt = attempt + 1;
        }
        None
    }

    /// Builds a registry from a discovered address list; duplicates are
    /// dropped and every backend starts out counted healthy.
    pub fn new(addrs: &Vec<Vec<u8>>) -> (r: Registry)
        ensures
            refreshed(Seq::<BackendV>::empty(), r@, views_of(addrs@)),
            addrs_unique(r@),
    {
        let mut r = Registry { backends: Vec::new() };
        proof {
            assert(r@ =~= Seq::<BackendV>::empty());
        }
        r.refresh(addrs);
        r
    }

    /// Rebuilds the candidate set from a freshly discovered address list.
    /// Addresses keep their first occurrence only; a backend already known
    /// keeps the liveness recorded for it, a new one starts out healthy.
    pub fn refresh(&mut self, addrs: &Vec<Vec<u8>>)
        requires
            addrs_unique(old(self)@),
        ensures
            refreshed(old(self)@, final(self)@, views_of(addrs@)),
            addrs_unique(final(self)@),
    {
        let ghost pre: Seq<BackendV> = self@;
        let mut nb: Vec<Backend> = Vec::new();
        let mut k: usize = 0;
        while k < addrs.len()
            invariant
                k <= addrs@.len(),
                self@ == pre,
                addrs_unique(pre),
                backends_view(nb@).len() == dedup(views_of(addrs@.take(k as int))).len(),
                forall|i: int|
                    0 <= i < nb@.len() ==> (#[trigger] backends_view(nb@)[i]).addr == dedup(
                        views_of(addrs@.take(k as int)),
                    )[i],
                forall|i: int|
                    0 <= i < nb@.len() ==> (#[trigger] backends_view(nb@)[i]).healthy == (
                    if has_addr(pre, backends_view(nb@)[i].addr) {
                        health_of(pre, backends_view(nb@)[i].addr)
                    } else {
                        true
                    }),
            decreases addrs@.len() - k,
        {
            let ghost prefix: Seq<Seq<u8>> = views_of(addrs@.take(k as int));
            let a = &addrs[k];
            let present = contains_addr(&nb, a);
            proof {
                assert(views_of(addrs@.take(k + 1)).drop_last() =~= prefix);
                assert(views_of(addrs@.take(k + 1)).last() == a@);
                lemma_dedup_contains(prefix, a@);
                assert(has_addr(backends_view(nb@), a@) == dedup(prefix).contains(a@)) by {
                    if has_addr(backends_view(nb@), a@) {
                        let j = choose|j: int|
                            0 <= j < backends_view(nb@).len() && (#[trigger] backends_view(
                                nb@,
                            )[j]).addr == a@;
                        assert(dedup(prefix)[j] == a@);
                        assert(dedup(prefix).contains(a@));
                    }
                    if dedup(prefix).contains(a@) {
                        let j = choose|j: int|
                            0 <= j < dedup(prefix).len() && dedup(prefix)[j] == a@;
                        assert(backends_view(nb@)[j].addr == a@);
                    }
                }
            }
            if !present {
                let healthy = match lookup_health(&self.backends, a) {
                    Some(h) => h,
                    None => true,
                };
                proof {
                    if has_addr(pre, a@) {
                        let j0 = choose|j: int|
                            0 <= j < pre.len() && (#[trigger] pre[j]).addr == a@;
                        let jh = choose|j: int|
                            0 <= j < self.backends@.len() && (#[trigger] backends_view(
                                self.backends@,
                            )[j]).addr == a@ && backends_view(self.backends@)[j].healthy == healthy;
                        assert(pre[j0].healthy == pre[jh].healthy);
                        assert(healthy == health_of(pre, a@));
                    }
                }
                let ghost nb_old = nb@;
                nb.push(Backend { addr: clone_bytes(a), healthy });
                proof {
                    assert forall|t: int| 0 <= t < nb_old.len() implies #[trigger] backends_view(
                        nb@,
                    )[t] == backends_view(nb_old)[t] by {
                        assert(nb@[t] == nb_old[t]);
                    }
                    assert(backends_view(nb@)[nb_old.len() as int] == nb@[nb_old.len() as int]@);
                }
            }
            k += 1;
        }
        proof {
            assert(addrs@.take(addrs@.len() as int) =~= addrs@);
            lemma_dedup_unique(views_of(addrs@));
        }
        self.backends = nb;
    }

    /// Records the result of a health probe for one address; every other
    /// backend is untouched, an unknown address changes nothing.
    pub fn set_health(&mut self, addr: &Vec<u8>, healthy: bool)
        ensures
            final(self)@.len() == old(self)@.len(),
            forall|i: int|
                0 <= i < old(self)@.len() ==> (#[trigger] final(self)@[i]).addr == old(
                    self,
                )@[i].addr,
            forall|i: int|
                0 <= i < old(self)@.len() ==> (#[trigger] final(self)@[i]).healthy == (if old(
                    self,
                )@[i].addr == addr@ {
                    healthy
                } else {
                    old(self)@[i].healthy
                }),
    {
        let ghost pre: Seq<BackendV> = self@;
        let mut nb: Vec<Backend> = Vec::new();
        let mut i: usize = 0;
        while i < self.backends.len()
            invariant
                self@ == pre,
                i <= pre.len(),
                nb@.len() == i,
                forall|k: int|
                    0 <= k < i ==> (#[trigger] backends_view(nb@)[k]).addr == pre[k].addr,
                forall|k: int|
                    0 <= k < i ==> (#[trigger] backends_view(nb@)[k]).healthy == (if pre[k].addr
                        == addr@ {
                        healthy
                    } else {
                        pre[k].healthy
                    }),
            decreases pre.len() - i,
        {
            proof {
                assert(self@[i as int] == self.backends@[i as int]@);
            }
            let matches_addr = bytes_eq(&self.backends[i].addr, addr);
            let h = if matches_addr {
                healthy
            } else {
                self.backends[i].healthy
            };
            let ghost nb_old = nb@;
            nb.push(Backend { addr: clone_bytes(&self.backends[i].addr), healthy: h });
            proof {
                assert forall|t: int| 0 <= t < nb_old.len() implies #[trigger] backends_view(
                    nb@,
                )[t] == backends_view(nb_old)[t] by {
                    assert(nb@[t] == nb_old[t]);
                }
                assert(backends_view(nb@)[nb_old.len() as int] == nb@[nb_old.len() as int]@);
            }
            i += 1;
        }
        self.backends = nb;
    }

    /// The current candidate addresses, for the probe loop to walk.
    pub fn addrs(&self) -> (r: Vec<Vec<u8>>)
        ensures
            r@.len() == self@.len(),
            forall|i: int| 0 <= i < self@.len() ==> (#[trigger] r@[i])@ == self@[i].addr,
    {
        let mut r: Vec<Vec<u8>> = Vec::new();
        let mut i: usize = 0;
        while i < self.backends.len()
            invariant
                i <= self.backends@.len(),
                r@.len() == i,
                forall|k: int| 0 <= k < i ==> (#[trigger] r@[k])@ == self@[k].addr,
            decreases self.backends@.len() - i,
        {
            proof {
                assert(self@[i as int] == self.backends@[i as int]@);
            }
            r.push(clone_bytes(&self.backends[i].addr));
            i += 1;
        }
        r
    }
}

} // verus!
