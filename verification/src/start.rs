//! The wake request: the estimated wake duration reported to watchers, the
//! request payload and reply shapes, and the tracking decision taken once
//! the wake datagram went out.

use vstd::prelude::*;

use crate::error::Error;
use crate::ping::{registry_wf, setup_ping, sm_view, spec_setup, StatusMap};
use crate::storage::Device;

verus! {

/// Sum of a sequence of recorded wake durations, as a mathematical integer.
pub open spec fn sum(s: Seq<u64>) -> int
    decreases s.len(),
{
    if s.len() == 0 {
        0
    } else {
        sum(s.drop_last()) + s.last()
    }
}

proof fn lemma_sum_take_step(s: Seq<u64>, i: int)
    requires
        0 <= i < s.len(),
    ensures
        sum(s.take(i + 1)) == sum(s.take(i)) + s[i],
{
    assert(s.take(i + 1).drop_last() =~= s.take(i));
}

proof fn lemma_sum_take_bound(s: Seq<u64>, i: int)
    requires
        0 <= i <= s.len(),
    ensures
        sum(s.take(i)) <= sum(s),
    decreases s.len() - i,
{
    if i == s.len() {
        assert(s.take(i) =~= s);
    } else {
        lemma_sum_take_step(s, i);
        lemma_sum_take_bound(s, i + 1);
    }
}

/// The recorded wake durations as a mathematical value.
pub open spec fn times_view(times: Option<Vec<u64>>) -> Option<Seq<u64>> {
    match times {
        Some(t) => Some(t@),
        None => None,
    }
}

/// The estimated time a device needs to come up: the arithmetic mean of its
/// recorded wake durations, or 0 when none are recorded.
pub open spec fn spec_eta(times: Option<Seq<u64>>) -> int {
    match times {
        Some(t) => if t.len() == 0 {
            0
        } else {
            sum(t) / (t.len() as int)
        },
        None => 0,
    }
}

fn mean(v: &Vec<u64>) -> (m: u64)
    requires
        v@.len() > 0,
        sum(v@) <= u64::MAX,
    ensures
        m == sum(v@) / (v@.len() as int),
{
    let mut total: u64 = 0;
    let mut i: usize = 0;
    while i < v.len()
        invariant
            0 <= i <= v@.len(),
            sum(v@) <= u64::MAX,
            total == sum(v@.take(i as int)),
        decreases v@.len() - i,
    {
        proof {
            lemma_sum_take_step(v@, i as int);
            lemma_sum_take_bound(v@, i as int + 1);
        }
        total = total + v[i];
        i = i + 1;
    }
    proof {
        assert(v@.take(v@.len() as int) =~= v@);
    }
    total / (v.len() as u64)
}

/// Mean of the recorded wake durations, 0 when none are recorded.
pub fn get_eta(times: Option<Vec<u64>>) -> (eta: u64)
    requires
        times matches Some(t) ==> sum(t@) <= u64::MAX,
    ensures
        eta == spec_eta(times_view(times)),
{
    match times {
        None => 0,
        Some(t) => {
            if t.len() == 0 {
                0
            } else {
                mean(&t)
            }
        },
    }
}

/// Whether the recorded wake durations' sum fits a machine word, so that
/// their mean can be taken; callers of the tracking decision test this
/// before asking for it.
#[verifier::loop_isolation(false)]
pub fn sum_fits_u64(times: &Option<Vec<u64>>) -> (r: bool)
    ensures
        r <==> (match *times {
            Some(t) => sum(t@) <= u64::MAX,
            None => true,
        }),
{
    match times {
        None => true,
        Some(t) => {
            let mut acc: u64 = 0;
            let mut i: usize = 0;
            while i < t.len()
                invariant
                    0 <= i <= t@.len(),
                    acc == sum(t@.take(i as int)),
                decreases t@.len() - i,
            {
                proof {
                    lemma_sum_take_step(t@, i as int);
                    lemma_sum_take_bound(t@, i as int + 1);
                }
                if t[i] > u64::MAX - acc {
                    return false;
                }
                acc = acc + t[i];
                i = i + 1;
            }
            proof {
                assert(t@.take(t@.len() as int) =~= t@);
            }
            true
        },
    }
}

/// Mean of the recorded wake durations, read off a borrowed record.
fn eta_of(times: &Option<Vec<u64>>) -> (eta: u64)
    requires
        *times matches Some(t) ==> sum(t@) <= u64::MAX,
    ensures
        eta == spec_eta(times_view(*times)),
{
    match times {
        None => 0,
        Some(t) => {
            if t.len() == 0 {
                0
            } else {
                mean(t)
            }
        },
    }
}

/// The wake request's payload.
#[derive(Clone, Copy, Debug)]
pub struct SPayload {
    pub ping: Option<bool>,
}

/// The wake request's reply: the device woken, that the wake signal went
/// out, and the tracking identifier where tracking was set up.
#[derive(Clone, Debug)]
pub struct Response {
    pub id: String,
    pub boot: bool,
    pub uuid: Option<String>,
}

impl Response {
    /// The reply to a wake request: `boot` is always true once the wake
    /// signal was attempted, whatever the probe later finds.
    pub fn new(id: String, uuid: Option<String>) -> (r: Response)
        ensures
            r.id == id,
            r.boot == true,
            r.uuid == uuid,
    {
        Response { id, boot: true, uuid }
    }
}

/// Whether the request's payload asks for tracking.
pub open spec fn spec_wants_ping(payload: Option<SPayload>) -> bool {
    match payload {
        Some(sp) => sp.ping == Some(true),
        None => false,
    }
}

/// Whether the caller asked to track the woken device.
pub fn wants_ping(payload: &Option<SPayload>) -> (r: bool)
    ensures
        r == spec_wants_ping(*payload),
{
    match payload {
        Some(sp) => {
            match sp.ping {
                Some(b) => b,
                None => false,
            }
        },
        None => false,
    }
}

/// The tracking decision of one wake request, taken after the wake datagram
/// went out: nothing is tracked unless the caller asked; asking for a device
/// with no stored address is the caller's error; otherwise the request joins
/// the in-flight watch on the device's address or registers a new one under
/// `fresh_id`. An `Ok(Some(..))` carries the tracking identifier to return
/// and whether a prober must be spawned for it.
pub fn start_tracking(m: &mut StatusMap, device: &Device, want_ping: bool, fresh_id: String) -> (r:
    Result<Option<(String, bool)>, Error>)
    requires
        registry_wf(sm_view(*old(m))),
        device.times matches Some(t) ==> sum(t@) <= u64::MAX,
    ensures
        registry_wf(sm_view(*final(m))),
        !want_ping ==> (r matches Ok(o) && o is None && sm_view(*final(m)) == sm_view(*old(m))),
        (want_ping && device.ip is None) ==> (r matches Err(e) && e is NoIpOnPing && sm_view(
            *final(m),
        ) == sm_view(*old(m))),
        want_ping ==> (device.ip matches Some(ip) ==> (r matches Ok(o) && o matches Some(pair) && (
        pair.0@,
        sm_view(*final(m)),
        pair.1,
        ) == spec_setup(
            sm_view(*old(m)),
            ip@,
            spec_eta(times_view(device.times)) as u64,
            fresh_id@,
        ))),
{
    if !want_ping {
        return Ok(None);
    }
    match &device.ip {
        None => Err(Error::NoIpOnPing),
        Some(ip) => {
            let eta = eta_of(&device.times);
            let pair = setup_ping(m, ip, eta, fresh_id);
            Ok(Some(pair))
        },
    }
}

/// Relies on `uuid::Uuid::new_v4` and its hyphenated `Display`: a fresh
/// random version-4 UUID, written as its 36 characters.
#[verifier::external_body]
fn new_tracking_id() -> (r: String)
    ensures
        r@.len() == 36,
{
    uuid::Uuid::new_v4().to_string()
}

/// The tracking decision of one wake request, with a freshly minted
/// tracking identifier: as `start_tracking`, for some fresh identifier of
/// 36 characters. Which identifier is minted is the randomness's business;
/// everything else is pinned.
pub fn start_tracking_fresh(m: &mut StatusMap, device: &Device, want_ping: bool) -> (r: Result<
    Option<(String, bool)>,
    Error,
>)
    requires
        registry_wf(sm_view(*old(m))),
        device.times matches Some(t) ==> sum(t@) <= u64::MAX,
    ensures
        registry_wf(sm_view(*final(m))),
        !want_ping ==> (r matches Ok(o) && o is None && sm_view(*final(m)) == sm_view(*old(m))),
        (want_ping && device.ip is None) ==> (r matches Err(e) && e is NoIpOnPing && sm_view(
            *final(m),
        ) == sm_view(*old(m))),
        want_ping ==> (device.ip matches Some(ip) ==> (r matches Ok(o) && o matches Some(pair)
            && exists|f: Seq<char>|
            f.len() == 36 && (pair.0@, sm_view(*final(m)), pair.1) == spec_setup(
                sm_view(*old(m)),
                ip@,
                spec_eta(times_view(device.times)) as u64,
                f,
            ))),
{
    let fresh_id = new_tracking_id();
    let ghost f = fresh_id@;
    let r = start_tracking(m, device, want_ping, fresh_id);
    proof {
        if want_ping && device.ip is Some {
            assert(f.len() == 36);
        }
    }
    r
}

} // verus!
