//! The wake-tracking core: the pending-watch registry (a concurrent map from
//! tracking identifier to watch metadata), the classification of reachability
//! probes, and the outcome broadcast.

use vstd::prelude::*;

verus! {

/// A terminal probe outcome.
#[derive(Clone, Copy, Debug, PartialEq, Eq, Structural)]
pub enum BroadcastCommands {
    Success,
    Timeout,
    Error,
}

/// One message on the outcome bus: the terminal outcome of the probe bound to
/// the tracking identifier `uuid`.
#[derive(Clone, Debug)]
pub struct BroadcastCommand {
    pub uuid: String,
    pub command: BroadcastCommands,
}

/// Mathematical value of a `BroadcastCommand`.
pub struct CommandV {
    pub uuid: Seq<char>,
    pub command: BroadcastCommands,
}

impl View for BroadcastCommand {
    type V = CommandV;

    open spec fn view(&self) -> CommandV {
        CommandV { uuid: self.uuid@, command: self.command }
    }
}

impl BroadcastCommand {
    pub fn success(uuid: String) -> (r: Self)
        ensures
            r.uuid@ == uuid@,
            r.command == BroadcastCommands::Success,
    {
        Self { uuid, command: BroadcastCommands::Success }
    }

    pub fn timeout(uuid: String) -> (r: Self)
        ensures
            r.uuid@ == uuid@,
            r.command == BroadcastCommands::Timeout,
    {
        Self { uuid, command: BroadcastCommands::Timeout }
    }

    pub fn error(uuid: String) -> (r: Self)
        ensures
            r.uuid@ == uuid@,
            r.command == BroadcastCommands::Error,
    {
        Self { uuid, command: BroadcastCommands::Error }
    }
}

/// A watch entry: the probed address, the estimated wake duration reported to
/// watchers, and the terminal outcome once the probe has resolved (`None`
/// while the probe is still running).
#[derive(Clone, Debug)]
pub struct Value {
    pub ip: String,
    pub eta: u64,
    pub resolved: Option<BroadcastCommands>,
}

/// Mathematical value of a watch entry.
pub struct ValueV {
    pub ip: Seq<char>,
    pub eta: u64,
    pub resolved: Option<BroadcastCommands>,
}

impl View for Value {
    type V = ValueV;

    open spec fn view(&self) -> ValueV {
        ValueV { ip: self.ip@, eta: self.eta, resolved: self.resolved }
    }
}

impl Value {
    /// The same entry with its terminal outcome recorded.
    pub fn with_resolved(self, c: BroadcastCommands) -> (r: Value)
        ensures
            r@ == resolve_entry(self@, c),
    {
        Value { ip: self.ip, eta: self.eta, resolved: Some(c) }
    }
}

/// A watch entry after its terminal outcome is recorded.
pub open spec fn resolve_entry(v: ValueV, c: BroadcastCommands) -> ValueV {
    ValueV { ip: v.ip, eta: v.eta, resolved: Some(c) }
}

#[verifier::external_type_specification]
#[verifier::external_body]
#[verifier::reject_recursive_types(K)]
#[verifier::reject_recursive_types(V)]
#[verifier::reject_recursive_types(S)]
pub struct ExDashMap<K, V, S>(dashmap::DashMap<K, V, S>);

/// The pending-watch registry: tracking identifier to watch entry, shared by
/// the coordinator, the probers and the watch sessions.
pub type StatusMap = dashmap::DashMap<String, Value>;

/// What the registry holds, keyed by tracking identifier.
pub uninterp spec fn sm_view(m: StatusMap) -> Map<Seq<char>, ValueV>;

/// Relies on `dashmap::DashMap::new`: a freshly created map holds nothing.
#[verifier::external_body]
fn sm_new() -> (r: StatusMap)
    ensures
        sm_view(r).dom() == Set::<Seq<char>>::empty(),
{
    dashmap::DashMap::new()
}

/// Relies on `dashmap::DashMap::insert`: the entry under the key is created
/// or replaced.
#[verifier::external_body]
fn sm_insert(m: &mut StatusMap, id: String, v: Value)
    ensures
        sm_view(*final(m)) == sm_view(*old(m)).insert(id@, v@),
{
    m.insert(id, v);
}

/// Relies on `dashmap::DashMap::get`: the value stored under the key, if any.
#[verifier::external_body]
fn sm_get(m: &StatusMap, id: &String) -> (r: Option<Value>)
    ensures
        r matches Some(v) ==> sm_view(*m).dom().contains(id@) && v@ == sm_view(*m)[id@],
        r is None ==> !sm_view(*m).dom().contains(id@),
{
    m.get(id).map(|e| e.value().clone())
}

/// The watch entry stored under `id`, if any.
pub fn registry_get(m: &StatusMap, id: &String) -> (r: Option<Value>)
    ensures
        r matches Some(v) ==> sm_view(*m).dom().contains(id@) && v@ == sm_view(*m)[id@],
        r is None ==> !sm_view(*m).dom().contains(id@),
{
    sm_get(m, id)
}

/// Relies on `dashmap::DashMap::remove`: the entry under the key is gone.
#[verifier::external_body]
fn sm_remove(m: &mut StatusMap, id: &String)
    ensures
        sm_view(*final(m)) == sm_view(*old(m)).remove(id@),
{
    m.remove(id);
}

/// Relies on `dashmap::DashMap::alter`: the value under the key, if present,
/// is replaced by what the given function makes of it; an absent key is left
/// absent.
#[verifier::external_body]
fn sm_alter_resolved(m: &mut StatusMap, id: &String, c: BroadcastCommands)
    ensures
        sm_view(*final(m)) == (if sm_view(*old(m)).dom().contains(id@) {
            sm_view(*old(m)).insert(id@, resolve_entry(sm_view(*old(m))[id@], c))
        } else {
            sm_view(*old(m))
        }),
{
    m.alter(id, |_, v| v.with_resolved(c));
}

/// Relies on `dashmap::DashMap::iter`: every entry of the map is yielded,
/// each key with the value stored under it.
#[verifier::external_body]
fn sm_entries(m: &StatusMap) -> (ps: Vec<(String, Value)>)
    ensures
        forall|j: int|
            0 <= j < ps@.len() ==> sm_view(*m).dom().contains(#[trigger] ps@[j].0@)
                && ps@[j].1@ == sm_view(*m)[ps@[j].0@],
        forall|k: Seq<char>|
            sm_view(*m).dom().contains(k) ==> exists|j: int|
                0 <= j < ps@.len() && #[trigger] ps@[j].0@ == k,
{
    m.iter().map(|e| (e.key().clone(), e.value().clone())).collect()
}

/// A fresh registry, holding nothing.
pub fn new_registry() -> (m: StatusMap)
    ensures
        sm_view(m).dom() == Set::<Seq<char>>::empty(),
        registry_wf(sm_view(m)),
{
    sm_new()
}

/// `k` tracks a still-unresolved watch on the address `ip`.
pub open spec fn pending_with_ip(m: Map<Seq<char>, ValueV>, ip: Seq<char>, k: Seq<char>) -> bool {
    m.dom().contains(k) && m[k].ip == ip && m[k].resolved is None
}

/// Some entry tracks a still-unresolved watch on the address `ip`.
pub open spec fn has_pending(m: Map<Seq<char>, ValueV>, ip: Seq<char>) -> bool {
    exists|k: Seq<char>| pending_with_ip(m, ip, k)
}

/// The registry's dedup invariant: at most one unresolved entry per address.
pub open spec fn registry_wf(m: Map<Seq<char>, ValueV>) -> bool {
    forall|k1: Seq<char>, k2: Seq<char>|
        #![trigger m.dom().contains(k1), m.dom().contains(k2)]
        m.dom().contains(k1) && m.dom().contains(k2) && m[k1].resolved is None
            && m[k2].resolved is None && m[k1].ip == m[k2].ip ==> k1 == k2
}

/// The tracking identifier of the still-unresolved watch on `ip`, if one is
/// registered: a linear scan of the registry.
pub fn find_unresolved_by_address(m: &StatusMap, ip: &String) -> (r: Option<String>)
    ensures
        r matches Some(k) ==> pending_with_ip(sm_view(*m), ip@, k@),
        r is None ==> !has_pending(sm_view(*m), ip@),
{
    let pairs = sm_entries(m);
    let n = pairs.len();
    let mut i: usize = 0;
    while i < n
        invariant
            0 <= i <= n,
            n == pairs@.len(),
            forall|j: int|
                0 <= j < pairs@.len() ==> sm_view(*m).dom().contains(#[trigger] pairs@[j].0@)
                    && pairs@[j].1@ == sm_view(*m)[pairs@[j].0@],
            forall|k: Seq<char>|
                sm_view(*m).dom().contains(k) ==> exists|j: int|
                    0 <= j < pairs@.len() && #[trigger] pairs@[j].0@ == k,
            forall|j: int|
                0 <= j < i ==> !(#[trigger] pairs@[j].1@.resolved is None
                    && pairs@[j].1@.ip == ip@),
        decreases n - i,
    {
        let p = &pairs[i];
        if p.1.resolved.is_none() && p.1.ip == *ip {
            return Some(p.0.clone());
        }
        i = i + 1;
    }
    proof {
        assert forall|k: Seq<char>| !pending_with_ip(sm_view(*m), ip@, k) by {
            if pending_with_ip(sm_view(*m), ip@, k) {
                let j = choose|j: int| 0 <= j < pairs@.len() && #[trigger] pairs@[j].0@ == k;
                assert(pairs@[j].1@ == sm_view(*m)[k]);
            }
        }
    }
    None
}

/// What one wake-with-tracking request does to the registry: the reused
/// identifier where an unresolved watch on the address is in flight, or else
/// the fresh identifier bound to a new unresolved entry; the flag says
/// whether a prober is to be spawned.
pub open spec fn spec_setup(
    m: Map<Seq<char>, ValueV>,
    ip: Seq<char>,
    eta: u64,
    fresh: Seq<char>,
) -> (Seq<char>, Map<Seq<char>, ValueV>, bool) {
    if has_pending(m, ip) {
        (choose|k: Seq<char>| pending_with_ip(m, ip, k), m, false)
    } else {
        (fresh, m.insert(fresh, ValueV { ip: ip, eta: eta, resolved: None }), true)
    }
}

/// Registers one wake-with-tracking request: reuses the in-flight watch on
/// the same address if one exists, otherwise inserts a new unresolved entry
/// under `fresh_id`. Returns the tracking identifier to hand to the caller
/// and whether a prober must be spawned for it.
pub fn setup_ping(m: &mut StatusMap, ip: &String, eta: u64, fresh_id: String) -> (r: (
    String,
    bool,
))
    requires
        registry_wf(sm_view(*old(m))),
    ensures
        (r.0@, sm_view(*final(m)), r.1) == spec_setup(sm_view(*old(m)), ip@, eta, fresh_id@),
        registry_wf(sm_view(*final(m))),
{
    let found = find_unresolved_by_address(m, ip);
    match found {
        Some(k) => {
            proof {
                let c = choose|x: Seq<char>| pending_with_ip(sm_view(*m), ip@, x);
                assert(pending_with_ip(sm_view(*m), ip@, c));
            }
            (k, false)
        },
        None => {
            let ghost m0 = sm_view(*m);
            let entry = Value { ip: ip.clone(), eta: eta, resolved: None };
            sm_insert(m, fresh_id.clone(), entry);
            proof {
                let m1 = sm_view(*m);
                assert forall|k1: Seq<char>, k2: Seq<char>|
                    #![trigger m1.dom().contains(k1), m1.dom().contains(k2)]
                    m1.dom().contains(k1) && m1.dom().contains(k2) && m1[k1].resolved is None
                        && m1[k2].resolved is None && m1[k1].ip == m1[k2].ip implies k1 == k2 by {
                    if k1 != fresh_id@ && k2 != fresh_id@ {
                        assert(m0.dom().contains(k1) && m0.dom().contains(k2));
                    } else if k1 == fresh_id@ && k2 != fresh_id@ {
                        assert(pending_with_ip(m0, ip@, k2));
                    } else if k1 != fresh_id@ && k2 == fresh_id@ {
                        assert(pending_with_ip(m0, ip@, k1));
                    }
                }
            }
            (fresh_id, true)
        },
    }
}

#[verifier::external_type_specification]
#[verifier::external_body]
#[verifier::reject_recursive_types(T)]
pub struct ExSender<T>(tokio::sync::broadcast::Sender<T>);

/// Relies on `tokio::sync::broadcast::Sender::send`: the very message given
/// is offered to every current subscriber of the bus, and is handed back so
/// that callers can speak of what went out. Nothing is promised of
/// delivery, which the registry's resolved flag makes good (see the bus
/// laws).
#[verifier::external_body]
fn bus_send(tx: &tokio::sync::broadcast::Sender<BroadcastCommand>, msg: BroadcastCommand) -> (sent:
    BroadcastCommand)
    ensures
        sent == msg,
{
    let _ = tx.send(msg.clone());
    msg
}

/// Concludes the probe bound to `id`: records the terminal outcome in the
/// registry first, then publishes it on the outcome bus, so that no watcher
/// can miss the flag and the message both. The returned value is the
/// published message: the given outcome, carrying the given tracking
/// identifier. Each prober concludes its identifier exactly once, which is
/// what lets the bus laws assume distinct identifiers among the publishes.
pub fn conclude(
    m: &mut StatusMap,
    tx: &tokio::sync::broadcast::Sender<BroadcastCommand>,
    id: &String,
    outcome: BroadcastCommands,
) -> (published: BroadcastCommand)
    ensures
        published.uuid@ == id@,
        published.command == outcome,
        sm_view(*final(m)) == (if sm_view(*old(m)).dom().contains(id@) {
            sm_view(*old(m)).insert(id@, resolve_entry(sm_view(*old(m))[id@], outcome))
        } else {
            sm_view(*old(m))
        }),
        registry_wf(sm_view(*old(m))) ==> registry_wf(sm_view(*final(m))),
{
    sm_alter_resolved(m, id, outcome);
    proof {
        let m0 = sm_view(*old(m));
        let m1 = sm_view(*m);
        if registry_wf(m0) {
            assert forall|k1: Seq<char>, k2: Seq<char>|
                #![trigger m1.dom().contains(k1), m1.dom().contains(k2)]
                m1.dom().contains(k1) && m1.dom().contains(k2) && m1[k1].resolved is None
                    && m1[k2].resolved is None && m1[k1].ip == m1[k2].ip implies k1 == k2 by {
                assert(k1 != id@ && k2 != id@);
                assert(m0.dom().contains(k1) && m0.dom().contains(k2));
            }
        }
    }
    bus_send(tx, BroadcastCommand { uuid: id.clone(), command: outcome })
}

/// Removes the watch entry bound to `id`, after the grace window that lets
/// late watchers read the resolved outcome.
pub fn purge(m: &mut StatusMap, id: &String)
    ensures
        sm_view(*final(m)) == sm_view(*old(m)).remove(id@),
        registry_wf(sm_view(*old(m))) ==> registry_wf(sm_view(*final(m))),
{
    sm_remove(m, id);
    proof {
        let m0 = sm_view(*old(m));
        let m1 = sm_view(*m);
        if registry_wf(m0) {
            assert forall|k1: Seq<char>, k2: Seq<char>|
                #![trigger m1.dom().contains(k1), m1.dom().contains(k2)]
                m1.dom().contains(k1) && m1.dom().contains(k2) && m1[k1].resolved is None
                    && m1[k2].resolved is None && m1[k1].ip == m1[k2].ip implies k1 == k2 by {
                assert(m0.dom().contains(k1) && m0.dom().contains(k2));
            }
        }
    }
}

/// The classification of one reachability probe attempt.
#[derive(Clone, Copy, Debug, PartialEq, Eq, Structural)]
pub enum ProbeAttempt {
    /// A reply was received.
    Reply,
    /// No reply within the probe's own short deadline.
    TimedOut,
    /// A non-timeout transport error.
    Failed,
}

/// What one probe attempt makes of the loop: the terminal outcome, or `None`
/// to probe again. A reply succeeds; a non-timeout transport error is
/// terminal at once; a timeout-class failure ends the loop only once the
/// elapsed time has reached the bound of `max_minutes` minutes.
pub open spec fn spec_probe_step(
    attempt: ProbeAttempt,
    elapsed_secs: int,
    max_minutes: int,
) -> Option<BroadcastCommands> {
    match attempt {
        ProbeAttempt::Reply => Some(BroadcastCommands::Success),
        ProbeAttempt::Failed => Some(BroadcastCommands::Error),
        ProbeAttempt::TimedOut => if elapsed_secs >= max_minutes * 60 {
            Some(BroadcastCommands::Timeout)
        } else {
            None
        },
    }
}

/// Decides whether the probe loop is over after one attempt.
pub fn probe_step(attempt: ProbeAttempt, elapsed_secs: u64, max_minutes: i64) -> (r: Option<
    BroadcastCommands,
>)
    ensures
        r == spec_probe_step(attempt, elapsed_secs as int, max_minutes as int),
{
    match attempt {
        ProbeAttempt::Reply => Some(BroadcastCommands::Success),
        ProbeAttempt::Failed => Some(BroadcastCommands::Error),
        ProbeAttempt::TimedOut => {
            let reached: bool = if max_minutes <= 0 {
                true
            } else {
                elapsed_secs as u128 >= (max_minutes as u128) * 60
            };
            if reached {
                Some(BroadcastCommands::Timeout)
            } else {
                None
            }
        },
    }
}

/// The recorded wake durations to write back after a successful probe:
/// `None` when the elapsed time is within the threshold and nothing is to be
/// written.
pub open spec fn spec_times_after(
    times: Option<Seq<u64>>,
    elapsed_secs: u64,
    threshold: u64,
) -> Option<Seq<u64>> {
    if elapsed_secs > threshold {
        Some(
            (match times {
                Some(t) => t,
                None => Seq::empty(),
            }).push(elapsed_secs),
        )
    } else {
        None
    }
}

/// After a successful probe, the elapsed duration is appended to the
/// device's recorded wake durations, but only when it exceeds the configured
/// threshold.
pub fn times_after_success(times: Option<Vec<u64>>, elapsed_secs: u64, threshold: u64) -> (r:
    Option<Vec<u64>>)
    ensures
        crate::start::times_view(r) == spec_times_after(
            crate::start::times_view(times),
            elapsed_secs,
            threshold,
        ),
{
    if elapsed_secs > threshold {
        let mut t = match times {
            Some(t) => t,
            None => Vec::new(),
        };
        t.push(elapsed_secs);
        Some(t)
    } else {
        None
    }
}

/// The messages meant for the watch on `id`.
pub open spec fn watch_pred(id: Seq<char>) -> spec_fn(CommandV) -> bool {
    |msg: CommandV| msg.uuid == id
}

/// What a subscriber that subscribed when `sub_at` messages had already
/// been published receives for `id`: the later publishes whose identifier
/// matches — earlier ones are not replayed, and the watch session discards
/// the others.
pub open spec fn delivered(published: Seq<CommandV>, sub_at: int, id: Seq<char>) -> Seq<CommandV> {
    published.skip(sub_at).filter(watch_pred(id))
}

/// At most one outcome is ever published per tracking identifier.
pub open spec fn one_per_id(published: Seq<CommandV>) -> bool {
    forall|i: int, j: int|
        #![trigger published[i], published[j]]
        0 <= i < published.len() && 0 <= j < published.len() && published[i].uuid
            == published[j].uuid ==> i == j
}

proof fn lemma_filter_none(s: Seq<CommandV>, pred: spec_fn(CommandV) -> bool)
    requires
        forall|i: int| 0 <= i < s.len() ==> !pred(#[trigger] s[i]),
    ensures
        s.filter(pred).len() == 0,
    decreases s.len(),
{
    reveal(Seq::filter);
    if s.len() > 0 {
        assert forall|i: int| 0 <= i < s.drop_last().len() implies !pred(
            #[trigger] s.drop_last()[i],
        ) by {
            assert(s.drop_last()[i] == s[i]);
        }
        lemma_filter_none(s.drop_last(), pred);
        assert(!pred(s.last()));
    }
}

proof fn lemma_filter_at_most_one(s: Seq<CommandV>, pred: spec_fn(CommandV) -> bool)
    requires
        forall|i: int, j: int|
            #![trigger s[i], s[j]]
            0 <= i < s.len() && 0 <= j < s.len() && pred(s[i]) && pred(s[j]) ==> i == j,
    ensures
        s.filter(pred).len() <= 1,
    decreases s.len(),
{
    reveal(Seq::filter);
    if s.len() > 0 {
        let sub = s.drop_last();
        assert forall|i: int, j: int|
            #![trigger sub[i], sub[j]]
            0 <= i < sub.len() && 0 <= j < sub.len() && pred(sub[i]) && pred(sub[j]) implies i
            == j by {
            assert(sub[i] == s[i] && sub[j] == s[j]);
        }
        lemma_filter_at_most_one(sub, pred);
        if pred(s.last()) {
            assert forall|i: int| 0 <= i < sub.len() implies !pred(#[trigger] sub[i]) by {
                if pred(sub[i]) {
                    assert(sub[i] == s[i] && s.last() == s[s.len() - 1]);
                }
            }
            lemma_filter_none(sub, pred);
        }
    }
}

/// Law: the outcome bus hands each subscriber at most one outcome per
/// tracking identifier — at most one message is ever published per
/// identifier (each prober calls `conclude` once, and `conclude` pins the
/// published message's identifier), a subscriber sees only what is
/// published after it subscribed, and the watch session discards the other
/// identifiers.
pub proof fn lemma_outcome_at_most_once(published: Seq<CommandV>, sub_at: int, id: Seq<char>)
    requires
        one_per_id(published),
        0 <= sub_at <= published.len(),
    ensures
        delivered(published, sub_at, id).len() <= 1,
{
    let s = published.skip(sub_at);
    assert forall|i: int, j: int|
        #![trigger s[i], s[j]]
        0 <= i < s.len() && 0 <= j < s.len() && watch_pred(id)(s[i]) && watch_pred(id)(
            s[j],
        ) implies i == j by {
        assert(s[i] == published[i + sub_at]);
        assert(s[j] == published[j + sub_at]);
    }
    lemma_filter_at_most_one(s, watch_pred(id));
}

/// Law: every subscriber already waiting when the outcome for its
/// identifier is published receives it.
pub proof fn lemma_waiting_subscriber_receives(published: Seq<CommandV>, sub_at: int, k: int)
    requires
        0 <= sub_at <= k < published.len(),
    ensures
        delivered(published, sub_at, published[k].uuid).contains(published[k]),
{
    let s = published.skip(sub_at);
    assert(s[k - sub_at] == published[k]);
    assert(watch_pred(published[k].uuid)(s[k - sub_at]));
    s.lemma_filter_contains(watch_pred(published[k].uuid), k - sub_at);
}

/// Law: waking with tracking twice in quick succession for the same
/// address, the second request before the first's probe resolves, yields
/// the same tracking identifier both times, and only the first request
/// spawns a prober.
pub proof fn lemma_wake_idempotent(
    m: Map<Seq<char>, ValueV>,
    ip: Seq<char>,
    eta1: u64,
    eta2: u64,
    f1: Seq<char>,
    f2: Seq<char>,
)
    ensures
        ({
            let r1 = spec_setup(m, ip, eta1, f1);
            let r2 = spec_setup(r1.1, ip, eta2, f2);
            r2.0 == r1.0 && r2.2 == false && r2.1 == r1.1
        }),
        !has_pending(m, ip) ==> spec_setup(m, ip, eta1, f1).2 == true,
{
    if !has_pending(m, ip) {
        let m1 = m.insert(f1, ValueV { ip: ip, eta: eta1, resolved: None });
        assert(pending_with_ip(m1, ip, f1));
        let k2 = choose|k: Seq<char>| pending_with_ip(m1, ip, k);
        assert(pending_with_ip(m1, ip, k2));
        if k2 != f1 {
            assert(pending_with_ip(m, ip, k2));
            assert(false);
        }
    }
}

} // verus!
