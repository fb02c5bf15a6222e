//! Port lease allocation.
//!
//! A branch's preferred port is `start + (be32(sha256("{repo_id}:{branch}")[0..4]) % (end - start))`.
//! Allocation probes linearly from the preferred port, wrapping around the
//! range, and takes the first port that no live lease holds. Leases live for
//! eight hours; a lease whose expiry is at or before `now` is expired.
use vstd::prelude::*;

use vstd::string::StringSliceAdditionalSpecFns;

use crate::clock::{max_time_micros, micros_per_hour, now_micros};
use crate::error::WorktreeError;
use crate::hash::{sha256, sha256_digest};
use crate::map::StringMap;
use crate::text::{chars_of, push_str, string_from_chars};
use crate::types::PortLease;

verus! {

/// Lifetime of a lease, in microseconds (eight hours).
pub open spec fn lease_ttl() -> int {
    8 * micros_per_hour()
}

/// A lease is expired once its expiry is at or before `now`.
pub open spec fn lease_expired(l: PortLease, now: int) -> bool {
    l.expires_at <= now
}

/// The text hashed for a branch's preferred port: `"{repo_id}:{branch}"`.
pub open spec fn port_key(repo_id: Seq<char>, branch: Seq<char>) -> Seq<char> {
    repo_id + seq![':'] + branch
}

/// The first four bytes of `h` read as a big-endian unsigned integer.
pub open spec fn be_u32(h: Seq<u8>) -> int {
    h[0] * 16777216 + h[1] * 65536 + h[2] * 256 + h[3]
}

/// The preferred port of `branch` in `start..end`.
pub open spec fn preferred_port(repo_id: Seq<char>, branch: Seq<char>, start: u16, end: u16) -> int {
    start + be_u32(sha256(vstd::utf8::encode_utf8(port_key(repo_id, branch)))) % (end - start)
}

/// Whether a lease that is not expired at `now` holds port `p`.
pub open spec fn port_taken(leases: Map<Seq<char>, PortLease>, now: int, p: int) -> bool {
    exists|k: Seq<char>|
        #![trigger leases[k]]
        leases.dom().contains(k) && !lease_expired(leases[k], now) && leases[k].port == p
}

/// The `i`-th port probed when the preferred port lies `pref_off` past `start`.
pub open spec fn probe(start: int, size: int, pref_off: int, i: int) -> int {
    start + (pref_off + i) % size
}

/// What allocating a port for `branch` at time `now` gives: the first free
/// port in probe order, `RateLimitExceeded { 0, 0 }` for an empty range, and
/// `RateLimitExceeded { size, size }` when every port is held.
pub open spec fn allocation_result(
    r: Result<u16, WorktreeError>,
    repo_id: Seq<char>,
    branch: Seq<char>,
    start: u16,
    end: u16,
    leases: Map<Seq<char>, PortLease>,
    now: int,
) -> bool {
    let size = end - start;
    let off = preferred_port(repo_id, branch, start, end) - start;
    match r {
        Ok(p) => start < end && exists|i: int|
            0 <= i < size && p == probe(start as int, size, off, i) && !port_taken(leases, now, p as int)
                && forall|j: int| 0 <= j < i ==> port_taken(leases, now, #[trigger] probe(start as int, size, off, j)),
        Err(e) => {
            ||| start == end && e == (WorktreeError::RateLimitExceeded { current: 0, max: 0 })
            ||| start < end && e == (WorktreeError::RateLimitExceeded {
                current: size as usize,
                max: size as usize,
            }) && forall|i: int| 0 <= i < size ==> port_taken(leases, now, #[trigger] probe(start as int, size, off, i))
        },
    }
}

/// Builds the text `"{a}:{b}"`.
fn port_key_string(repo_id: &str, branch: &str) -> (s: String)
    ensures
        s@ == port_key(repo_id@, branch@),
{
    let mut out = chars_of(repo_id);
    out.push(':');
    push_str(&mut out, branch);
    proof {
        assert(out@ =~= port_key(repo_id@, branch@));
    }
    string_from_chars(&out)
}

/// Compute the preferred port for a branch within `port_range_start..port_range_end`.
pub fn compute_preferred_port(repo_id: &str, branch: &str, port_range_start: u16, port_range_end: u16) -> (p: u16)
    requires
        port_range_start < port_range_end,
    ensures
        p == preferred_port(repo_id@, branch@, port_range_start, port_range_end),
        port_range_start <= p < port_range_end,
{
    let range_size: u32 = (port_range_end - port_range_start) as u32;
    let key = port_key_string(repo_id, branch);
    let bytes = key.as_str().as_bytes();
    let hash = sha256_digest(bytes);
    let val: u32 = (hash[0] as u32) * 16777216 + (hash[1] as u32) * 65536 + (hash[2] as u32) * 256
        + (hash[3] as u32);
    proof {
        assert(bytes@ == vstd::utf8::encode_utf8(port_key(repo_id@, branch@)));
        assert(val == be_u32(hash@));
    }
    port_range_start + (val % range_size) as u16
}

/// Whether `lease` is expired at `now`.
pub fn is_lease_expired(lease: &PortLease, now: i64) -> (b: bool)
    ensures
        b == lease_expired(*lease, now as int),
{
    lease.expires_at <= now
}

/// Whether `q` occurs in `v`.
pub open spec fn in_ports(v: Seq<u16>, q: int) -> bool {
    exists|a: int| 0 <= a < v.len() && v[a] == q
}

/// Whether one of the first `n` pairs is a lease live at `now` holding `q`.
pub open spec fn live_in_prefix(ps: Seq<(Seq<char>, PortLease)>, n: int, now: int, q: int) -> bool {
    exists|j: int| 0 <= j < n && !lease_expired(#[trigger] ps[j].1, now) && ps[j].1.port == q
}

/// Ports held by leases that are live at `now`.
fn live_ports(leases: &StringMap<PortLease>, now: i64) -> (v: Vec<u16>)
    ensures
        forall|p: int| #[trigger] port_taken(leases@, now as int, p) <==> in_ports(v@, p),
{
    let n = leases.len();
    let ghost ps = leases.pairs();
    let mut v: Vec<u16> = Vec::new();
    let mut i: usize = 0;
    while i < n
        invariant
            n == ps.len(),
            ps == leases.pairs(),
            i <= n,
            forall|q: int| #[trigger] in_ports(v@, q) <==> live_in_prefix(ps, i as int, now as int, q),
        decreases n - i,
    {
        let (_k, l) = leases.entry_at(i);
        let ghost before = v@;
        if l.expires_at > now {
            v.push(l.port);
        }
        proof {
            assert forall|q: int| #[trigger] in_ports(v@, q) <==> live_in_prefix(ps, i + 1, now as int, q) by {
                if in_ports(v@, q) {
                    let a = choose|a: int| 0 <= a < v@.len() && v@[a] == q;
                    if a < before.len() {
                        assert(in_ports(before, q));
                        let j = choose|j: int| 0 <= j < i && !lease_expired(#[trigger] ps[j].1, now as int) && ps[j].1.port == q;
                    } else {
                        assert(!lease_expired(ps[i as int].1, now as int) && ps[i as int].1.port == q);
                    }
                }
                if live_in_prefix(ps, i + 1, now as int, q) {
                    let j = choose|j: int| 0 <= j < i + 1 && !lease_expired(#[trigger] ps[j].1, now as int) && ps[j].1.port == q;
                    if j < i {
                        assert(live_in_prefix(ps, i as int, now as int, q));
                        assert(in_ports(before, q));
                        let a = choose|a: int| 0 <= a < before.len() && before[a] == q;
                        assert(v@[a] == q);
                    } else {
                        assert(v@[before.len() as int] == q);
                    }
                }
            }
        }
        i = i + 1;
    }
    proof {
        assert forall|p: int| #[trigger] port_taken(leases@, now as int, p) <==> in_ports(v@, p) by {
            if port_taken(leases@, now as int, p) {
                let k = choose|k: Seq<char>| #![trigger leases@[k]] leases@.dom().contains(k) && !lease_expired(leases@[k], now as int)
                    && leases@[k].port == p;
                let j = choose|j: int| 0 <= j < ps.len() && (#[trigger] ps[j]).0 == k;
                assert(leases@[ps[j].0] == ps[j].1);
                assert(live_in_prefix(ps, n as int, now as int, p));
            }
            if in_ports(v@, p) {
                let j = choose|j: int| 0 <= j < n && !lease_expired(#[trigger] ps[j].1, now as int) && ps[j].1.port == p;
                let k = ps[j].0;
                assert(leases@.dom().contains(k) && leases@[k] == ps[j].1);
            }
        }
    }
    v
}

fn holds_port(v: &Vec<u16>, p: u16) -> (b: bool)
    ensures
        b == in_ports(v@, p as int),
{
    let mut i: usize = 0;
    while i < v.len()
        invariant
            i <= v@.len(),
            forall|j: int| 0 <= j < i ==> v@[j] != p,
        decreases v@.len() - i,
    {
        if v[i] == p {
            return true;
        }
        i = i + 1;
    }
    false
}

/// Allocate a port for `branch` against `existing_leases` as they stand at
/// time `now` (microseconds since the epoch).
pub fn allocate_port_at(
    repo_id: &str,
    branch: &str,
    port_range_start: u16,
    port_range_end: u16,
    existing_leases: &StringMap<PortLease>,
    now: i64,
) -> (r: Result<u16, WorktreeError>)
    requires
        port_range_start <= port_range_end,
    ensures
        allocation_result(r, repo_id@, branch@, port_range_start, port_range_end, existing_leases@, now as int),
{
    let range_size: u32 = (port_range_end - port_range_start) as u32;
    if range_size == 0 {
        return Err(WorktreeError::RateLimitExceeded { current: 0, max: 0 });
    }
    let preferred = compute_preferred_port(repo_id, branch, port_range_start, port_range_end);
    let preferred_offset: u32 = (preferred - port_range_start) as u32;
    let taken = live_ports(existing_leases, now);
    let ghost size = range_size as int;
    let ghost off = preferred_offset as int;
    let mut i: u32 = 0;
    while i < range_size
        invariant
            range_size == port_range_end - port_range_start,
            0 < range_size,
            preferred_offset < range_size,
            size == range_size,
            off == preferred - port_range_start,
            off == preferred_offset,
            preferred == preferred_port(repo_id@, branch@, port_range_start, port_range_end),
            i <= range_size,
            forall|p: int| #[trigger] port_taken(existing_leases@, now as int, p) <==> in_ports(taken@, p),
            forall|j: int| 0 <= j < i ==> port_taken(existing_leases@, now as int, #[trigger] probe(port_range_start as int, size, off, j)),
        decreases range_size - i,
    {
        let offset: u32 = (preferred_offset + i) % range_size;
        assert(offset < range_size);
        assert(offset == (off + i) % size);
        let port: u16 = port_range_start + offset as u16;
        assert(port == probe(port_range_start as int, size, off, i as int));
        if !holds_port(&taken, port) {
            return Ok(port);
        }
        i = i + 1;
    }
    Err(WorktreeError::RateLimitExceeded { current: range_size as usize, max: range_size as usize })
}

/// Allocate a port for `branch` against the leases that are live now.
///
/// The result is the allocation at some instant the clock reported.
pub fn allocate_port(
    repo_id: &str,
    branch: &str,
    _session_uuid: &str,
    port_range_start: u16,
    port_range_end: u16,
    existing_leases: &StringMap<PortLease>,
) -> (r: Result<u16, WorktreeError>)
    requires
        port_range_start <= port_range_end,
    ensures
        exists|t: int|
            0 <= t <= max_time_micros() && allocation_result(
                r,
                repo_id@,
                branch@,
                port_range_start,
                port_range_end,
                existing_leases@,
                t,
            ),
{
    let now = now_micros();
    allocate_port_at(repo_id, branch, port_range_start, port_range_end, existing_leases, now)
}

/// Whether `l` is the lease made for `port`, `branch`, `session_uuid` and
/// `pid` at time `now`.
pub open spec fn is_new_lease(l: PortLease, port: u16, branch: Seq<char>, session_uuid: Seq<char>, pid: u32, now: int) -> bool {
    &&& l.port == port
    &&& l.branch@ == branch
    &&& l.session_uuid@ == session_uuid
    &&& l.pid == pid
    &&& l.created_at == now
    &&& l.expires_at == now + lease_ttl()
    &&& l.status@ == "active"@
}

/// Whether `new` is `old` with a fresh lease of port `port` granted to
/// `branch` at `now`: the branch's key is added (or replaced) and every other
/// lease is kept.
pub open spec fn lease_granted(old: Map<Seq<char>, PortLease>, new: Map<Seq<char>, PortLease>, port: u16,
    branch: Seq<char>, session_uuid: Seq<char>, pid: u32, now: int) -> bool {
    &&& new.dom() == old.dom().insert(branch)
    &&& is_new_lease(new[branch], port, branch, session_uuid, pid, now)
    &&& forall|k: Seq<char>| k != branch && #[trigger] old.dom().contains(k) ==> new[k] == old[k]
}

/// No two leases live at `now` hold the same port.
pub open spec fn live_ports_distinct(leases: Map<Seq<char>, PortLease>, now: int) -> bool {
    forall|a: Seq<char>, b: Seq<char>|
        #![trigger leases[a], leases[b]]
        a != b && leases.dom().contains(a) && leases.dom().contains(b) && !lease_expired(leases[a], now)
            && !lease_expired(leases[b], now) ==> leases[a].port != leases[b].port
}

/// A port handed out lies in `start..end` and is held by no lease that was
/// live when it was handed out.
pub proof fn lemma_allocated_port_free(p: u16, repo_id: Seq<char>, branch: Seq<char>, start: u16, end: u16,
    leases: Map<Seq<char>, PortLease>, now: int)
    requires
        allocation_result(Ok(p), repo_id, branch, start, end, leases, now),
    ensures
        start <= p < end,
        forall|k: Seq<char>| #[trigger] leases.dom().contains(k) && !lease_expired(leases[k], now) ==> leases[k].port != p,
{
    let size = end - start;
    let off = preferred_port(repo_id, branch, start, end) - start;
    let i = choose|i: int|
        0 <= i < size && p == probe(start as int, size, off, i) && !port_taken(leases, now, p as int)
            && forall|j: int| 0 <= j < i ==> port_taken(leases, now, #[trigger] probe(start as int, size, off, j));
    assert(0 <= (off + i) % size < size);
    assert forall|k: Seq<char>| #[trigger] leases.dom().contains(k) && !lease_expired(leases[k], now) implies leases[k].port
        != p by {
        if leases[k].port == p {
            assert(port_taken(leases, now, p as int));
        }
    }
}

/// Granting the allocated port keeps the live leases on distinct ports.
pub proof fn lemma_grant_keeps_ports_distinct(p: u16, repo_id: Seq<char>, branch: Seq<char>, session_uuid: Seq<char>,
    pid: u32, start: u16, end: u16, old: Map<Seq<char>, PortLease>, new: Map<Seq<char>, PortLease>, now: int)
    requires
        allocation_result(Ok(p), repo_id, branch, start, end, old, now),
        lease_granted(old, new, p, branch, session_uuid, pid, now),
        live_ports_distinct(old, now),
    ensures
        live_ports_distinct(new, now),
{
    lemma_allocated_port_free(p, repo_id, branch, start, end, old, now);
    assert forall|a: Seq<char>, b: Seq<char>|
        a != b && new.dom().contains(a) && new.dom().contains(b) && !lease_expired(#[trigger] new[a], now)
            && !lease_expired(#[trigger] new[b], now) implies new[a].port != new[b].port by {
        if a == branch {
            assert(old.dom().contains(b) && new[b] == old[b]);
        } else if b == branch {
            assert(old.dom().contains(a) && new[a] == old[a]);
        } else {
            assert(old.dom().contains(a) && new[a] == old[a]);
            assert(old.dom().contains(b) && new[b] == old[b]);
        }
    }
}

/// Build an active lease created at `now` that expires eight hours later.
pub fn make_lease_at(port: u16, branch: &str, session_uuid: &str, pid: u32, now: i64) -> (l: PortLease)
    requires
        now + lease_ttl() <= i64::MAX,
    ensures
        is_new_lease(l, port, branch@, session_uuid@, pid, now as int),
{
    PortLease {
        port,
        branch: branch.to_owned(),
        session_uuid: session_uuid.to_owned(),
        pid,
        created_at: now,
        expires_at: now + 28_800_000_000,
        status: "active".to_owned(),
    }
}

/// Build an active lease created now that expires eight hours later.
pub fn make_lease(port: u16, branch: &str, session_uuid: &str, pid: u32) -> (l: PortLease)
    ensures
        0 <= l.created_at <= max_time_micros(),
        is_new_lease(l, port, branch@, session_uuid@, pid, l.created_at as int),
{
    let now = now_micros();
    make_lease_at(port, branch, session_uuid, pid, now)
}

/// Set the lease's expiry to eight hours after `now`; nothing else changes.
pub fn renew_lease_at(lease: &mut PortLease, now: i64)
    requires
        now + lease_ttl() <= i64::MAX,
    ensures
        *final(lease) == (PortLease { expires_at: (now + lease_ttl()) as i64, ..*old(lease) }),
{
    lease.expires_at = now + 28_800_000_000;
}

/// Extend the lease to eight hours from now; nothing else changes.
pub fn renew_lease(lease: &mut PortLease)
    ensures
        *final(lease) == (PortLease { expires_at: final(lease).expires_at, ..*old(lease) }),
        0 <= final(lease).expires_at - lease_ttl() <= max_time_micros(),
{
    let now = now_micros();
    renew_lease_at(lease, now);
}

/// Whether `l` is still live at `*now`.
fn lease_is_live(l: &PortLease, now: &i64) -> (b: bool)
    ensures
        b == !lease_expired(*l, *now as int),
{
    *now < l.expires_at
}

/// The leases of `leases` that are live at `now`.
pub open spec fn live_leases(leases: Map<Seq<char>, PortLease>, now: int) -> Map<Seq<char>, PortLease> {
    leases.restrict(leases.dom().filter(|k: Seq<char>| !lease_expired(leases[k], now)))
}

/// The keys of `leases` whose lease is expired at `now`.
pub open spec fn expired_keys(leases: Map<Seq<char>, PortLease>, now: int) -> Set<Seq<char>> {
    leases.dom().filter(|k: Seq<char>| lease_expired(leases[k], now))
}

/// Remove every lease expired at `now`, returning how many were removed.
pub fn sweep_expired_leases(leases: &mut StringMap<PortLease>, now: i64) -> (n: usize)
    ensures
        final(leases)@ == live_leases(old(leases)@, now as int),
        n == expired_keys(old(leases)@, now as int).len(),
        n == old(leases)@.len() - final(leases)@.len(),
{
    let before = leases.len();
    let ghost old_map = leases@;
    leases.retain(lease_is_live, &now, Ghost(|l: PortLease| now < l.expires_at));
    let after = leases.len();
    proof {
        let keep = old_map.dom().filter(|k: Seq<char>| !lease_expired(old_map[k], now as int));
        let gone = expired_keys(old_map, now as int);
        assert(leases@ =~= live_leases(old_map, now as int));
        assert(leases@.dom() =~= keep);
        assert(keep.disjoint(gone));
        assert(keep + gone =~= old_map.dom());
        old_map.dom().lemma_len_filter(|k: Seq<char>| !lease_expired(old_map[k], now as int));
        old_map.dom().lemma_len_filter(|k: Seq<char>| lease_expired(old_map[k], now as int));
        vstd::set_lib::lemma_set_disjoint_lens(keep, gone);
    }
    before - after
}

/// Whether a lease made at `now` expires at a representable instant.
pub fn lease_expiry_fits(now: i64) -> (b: bool)
    ensures
        b == (now + lease_ttl() <= i64::MAX),
{
    now <= i64::MAX - 28_800_000_000
}

} // verus!
