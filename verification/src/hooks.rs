//! The plugin hook protocol: a closed catalog of hooks, the wire names that
//! route them, and the router that registers scripts under version
//! negotiation, dispatches each hook to the subscribed scripts in
//! registration order, combines string-valued responses so that the last
//! override wins, and degrades failing scripts to pass-through.
use vstd::prelude::*;

use crate::text::{opt_bytes_view, push_all, slice_eq};
use crate::version::{Version, VersionReq, req_matches, version_ge};

verus! {

/// The fixed hook catalog: every extension point the host offers.
#[derive(PartialEq, Eq, Structural, Clone, Copy, Debug)]
pub enum Hook {
    /// The host asks for an optional window title.
    SetTitle,
    /// The host asks for an optional welcome banner.
    SetWelcomeMsg,
    /// The host offers an input line and its evaluated output, and asks for
    /// an optional override of that output.
    OutputEvent,
    /// The host has started; no response payload.
    Startup,
    /// The host is shutting down; no response payload.
    Shutdown,
}

/// The wire name of each hook, used only at the process boundary.
pub open spec fn hook_name_spec(h: Hook) -> Seq<u8> {
    match h {
        Hook::SetTitle => seq![
            ('S' as u8),
            ('e' as u8),
            ('t' as u8),
            ('T' as u8),
            ('i' as u8),
            ('t' as u8),
            ('l' as u8),
            ('e' as u8),
        ],
        Hook::SetWelcomeMsg => seq![
            ('S' as u8),
            ('e' as u8),
            ('t' as u8),
            ('W' as u8),
            ('e' as u8),
            ('l' as u8),
            ('c' as u8),
            ('o' as u8),
            ('m' as u8),
            ('e' as u8),
            ('M' as u8),
            ('s' as u8),
            ('g' as u8),
        ],
        Hook::OutputEvent => seq![
            ('O' as u8),
            ('u' as u8),
            ('t' as u8),
            ('p' as u8),
            ('u' as u8),
            ('t' as u8),
            ('E' as u8),
            ('v' as u8),
            ('e' as u8),
            ('n' as u8),
            ('t' as u8),
        ],
        Hook::Startup => seq![
            ('S' as u8),
            ('t' as u8),
            ('a' as u8),
            ('r' as u8),
            ('t' as u8),
            ('u' as u8),
            ('p' as u8),
        ],
        Hook::Shutdown => seq![
            ('S' as u8),
            ('h' as u8),
            ('u' as u8),
            ('t' as u8),
            ('d' as u8),
            ('o' as u8),
            ('w' as u8),
            ('n' as u8),
        ],
    }
}

/// Which hook a wire name routes to: exactly the five catalog names route,
/// and any other name routes nowhere.
pub open spec fn hook_from_name_spec(name: Seq<u8>) -> Option<Hook> {
    if name == hook_name_spec(Hook::SetTitle) {
        Some(Hook::SetTitle)
    } else if name == hook_name_spec(Hook::SetWelcomeMsg) {
        Some(Hook::SetWelcomeMsg)
    } else if name == hook_name_spec(Hook::OutputEvent) {
        Some(Hook::OutputEvent)
    } else if name == hook_name_spec(Hook::Startup) {
        Some(Hook::Startup)
    } else if name == hook_name_spec(Hook::Shutdown) {
        Some(Hook::Shutdown)
    } else {
        None
    }
}

/// The wire name of a hook.
pub fn hook_name(h: &Hook) -> (r: Vec<u8>)
    ensures
        r@ == hook_name_spec(*h),
{
    let r: Vec<u8> = match h {
        Hook::SetTitle => vec![
            ('S' as u8),
            ('e' as u8),
            ('t' as u8),
            ('T' as u8),
            ('i' as u8),
            ('t' as u8),
            ('l' as u8),
            ('e' as u8),
        ],
        Hook::SetWelcomeMsg => vec![
            ('S' as u8),
            ('e' as u8),
            ('t' as u8),
            ('W' as u8),
            ('e' as u8),
            ('l' as u8),
            ('c' as u8),
            ('o' as u8),
            ('m' as u8),
            ('e' as u8),
            ('M' as u8),
            ('s' as u8),
            ('g' as u8),
        ],
        Hook::OutputEvent => vec![
            ('O' as u8),
            ('u' as u8),
            ('t' as u8),
            ('p' as u8),
            ('u' as u8),
            ('t' as u8),
            ('E' as u8),
            ('v' as u8),
            ('e' as u8),
            ('n' as u8),
            ('t' as u8),
        ],
        Hook::Startup => vec![
            ('S' as u8),
            ('t' as u8),
            ('a' as u8),
            ('r' as u8),
            ('t' as u8),
            ('u' as u8),
            ('p' as u8),
        ],
        Hook::Shutdown => vec![
            ('S' as u8),
            ('h' as u8),
            ('u' as u8),
            ('t' as u8),
            ('d' as u8),
            ('o' as u8),
            ('w' as u8),
            ('n' as u8),
        ],
    };
    assert(r@ =~= hook_name_spec(*h));
    r
}

/// Route a wire name to its hook.
pub fn hook_from_name(name: &[u8]) -> (r: Option<Hook>)
    ensures
        r == hook_from_name_spec(name@),
{
    let t = hook_name(&Hook::SetTitle);
    if slice_eq(name, t.as_slice()) {
        return Some(Hook::SetTitle);
    }
    let w = hook_name(&Hook::SetWelcomeMsg);
    if slice_eq(name, w.as_slice()) {
        return Some(Hook::SetWelcomeMsg);
    }
    let o = hook_name(&Hook::OutputEvent);
    if slice_eq(name, o.as_slice()) {
        return Some(Hook::OutputEvent);
    }
    let su = hook_name(&Hook::Startup);
    if slice_eq(name, su.as_slice()) {
        return Some(Hook::Startup);
    }
    let sd = hook_name(&Hook::Shutdown);
    if slice_eq(name, sd.as_slice()) {
        return Some(Hook::Shutdown);
    }
    None
}

/// Routing is exhaustive over the catalog: every hook's wire name routes
/// back to that hook and to no other, so no name a host ever emits for a
/// catalog hook can be dropped or misdirected.
pub proof fn lemma_hook_routing_exhaustive(h: Hook)
    ensures
        hook_from_name_spec(hook_name_spec(h)) == Some(h),
{
    assert(hook_name_spec(Hook::SetTitle).len() == 8);
    assert(hook_name_spec(Hook::SetWelcomeMsg).len() == 13);
    assert(hook_name_spec(Hook::OutputEvent).len() == 11);
    assert(hook_name_spec(Hook::Startup).len() == 7);
    assert(hook_name_spec(Hook::Shutdown).len() == 8);
    assert(hook_name_spec(Hook::SetTitle)[1] != hook_name_spec(Hook::Shutdown)[1]);
}

/// Only catalog names route: a routed name is the wire name of the hook it
/// routes to.
pub proof fn lemma_routed_names_in_catalog(name: Seq<u8>, h: Hook)
    requires
        hook_from_name_spec(name) == Some(h),
    ensures
        name == hook_name_spec(h),
{
}

/// How a script runs: a fresh process per call, or one persistent process.
#[derive(PartialEq, Eq, Structural, Clone, Copy, Debug)]
pub enum ScriptType {
    /// Fresh process per hook call, destroyed after one response.
    OneOff,
    /// One long-lived process serving many hook calls.
    Daemon,
}

/// What a plugin declares at registration; immutable thereafter.
pub struct ScriptDescriptor {
    /// The script's name.
    pub name: Vec<u8>,
    /// How the script runs.
    pub script_type: ScriptType,
    /// The minimum host version the script requires.
    pub version_req: VersionReq,
    /// The hooks the script subscribes to.
    pub hooks: Vec<Hook>,
}

/// A registered script with its negotiated standing.
pub struct ScriptSlot {
    /// The declaration the script registered with.
    pub descriptor: ScriptDescriptor,
    /// Whether version negotiation admitted the script.
    pub active: bool,
    /// Whether the script's process was found crashed; dead scripts stay
    /// dead for the rest of the session.
    pub dead: bool,
}

/// The slot a descriptor is given at registration: admitted exactly when
/// the host version satisfies its requirement, and not dead.
pub open spec fn negotiated_slot(host: Version, d: ScriptDescriptor) -> ScriptSlot {
    ScriptSlot { descriptor: d, active: version_ge(host, d.version_req.min), dead: false }
}

/// The same slot marked dead.
pub open spec fn dead_slot(s: ScriptSlot) -> ScriptSlot {
    ScriptSlot { descriptor: s.descriptor, active: s.active, dead: true }
}

/// A slot receives a hook when negotiation admitted it, its process has not
/// died, and it subscribes to the hook.
pub open spec fn slot_receives(slot: ScriptSlot, h: Hook) -> bool {
    slot.active && !slot.dead && slot.descriptor.hooks@.contains(h)
}

/// Indices (counted from `base`) of the slots that receive hook `h`, in
/// order.
pub open spec fn targets_from(slots: Seq<ScriptSlot>, h: Hook, base: int) -> Seq<int>
    decreases slots.len(),
{
    if slots.len() == 0 {
        seq![]
    } else {
        let rest = targets_from(slots.drop_first(), h, base + 1);
        if slot_receives(slots[0], h) {
            seq![base] + rest
        } else {
            rest
        }
    }
}

/// Appending a slot appends its index to the targets exactly when it
/// receives the hook.
proof fn lemma_targets_push(slots: Seq<ScriptSlot>, x: ScriptSlot, h: Hook, base: int)
    ensures
        targets_from(slots.push(x), h, base) == targets_from(slots, h, base) + (if slot_receives(
            x,
            h,
        ) {
            seq![base + slots.len()]
        } else {
            Seq::<int>::empty()
        }),
    decreases slots.len(),
{
    if slots.len() == 0 {
        assert(slots.push(x)[0] == x);
        assert(slots.push(x).drop_first() =~= Seq::<ScriptSlot>::empty());
        assert(targets_from(Seq::<ScriptSlot>::empty(), h, base + 1) == Seq::<int>::empty());
        assert(targets_from(slots, h, base) == Seq::<int>::empty());
        if slot_receives(x, h) {
            assert(targets_from(slots.push(x), h, base) == seq![base] + Seq::<int>::empty());
            assert(seq![base] + Seq::<int>::empty() =~= targets_from(slots, h, base) + seq![
                base + slots.len(),
            ]);
        } else {
            assert(targets_from(slots.push(x), h, base) =~= targets_from(slots, h, base)
                + Seq::<int>::empty());
        }
    } else {
        lemma_targets_push(slots.drop_first(), x, h, base + 1);
        assert(slots.push(x).drop_first() =~= slots.drop_first().push(x));
        assert(slots.push(x)[0] == slots[0]);
        if slot_receives(slots[0], h) {
            assert(targets_from(slots.push(x), h, base) =~= targets_from(slots, h, base) + (if
            slot_receives(x, h) {
                seq![base + slots.len()]
            } else {
                Seq::<int>::empty()
            }));
        } else {
            assert(targets_from(slots.push(x), h, base) =~= targets_from(slots, h, base) + (if
            slot_receives(x, h) {
                seq![base + slots.len()]
            } else {
                Seq::<int>::empty()
            }));
        }
    }
}

/// An index is a target exactly when it lies in range and its slot receives
/// the hook.
pub proof fn lemma_targets_membership(slots: Seq<ScriptSlot>, h: Hook, base: int, j: int)
    ensures
        targets_from(slots, h, base).contains(j) <==> (base <= j < base + slots.len()
            && slot_receives(slots[j - base], h)),
    decreases slots.len(),
{
    if slots.len() == 0 {
    } else {
        lemma_targets_membership(slots.drop_first(), h, base + 1, j);
        let rest = targets_from(slots.drop_first(), h, base + 1);
        if base + 1 <= j < base + slots.len() {
            assert(slots.drop_first()[j - base - 1] == slots[j - base]);
        }
        if slot_receives(slots[0], h) {
            let whole = seq![base] + rest;
            assert(whole[0] == base);
            if whole.contains(j) {
                let k = choose|k: int| 0 <= k < whole.len() && whole[k] == j;
                if k > 0 {
                    assert(rest[k - 1] == j);
                    assert(rest.contains(j));
                }
            }
            if j == base {
                assert(whole.contains(j)) by {
                    assert(whole[0] == j);
                }
            }
            if rest.contains(j) {
                let k = choose|k: int| 0 <= k < rest.len() && rest[k] == j;
                assert(whole[k + 1] == j);
                assert(whole.contains(j));
            }
        } else {
            if j == base {
                assert(!rest.contains(j)) by {
                    if rest.contains(j) {
                    }
                }
            }
        }
    }
}

/// Dispatch follows registration order: the targets of one hook are
/// strictly increasing indices.
pub proof fn lemma_targets_in_registration_order(
    slots: Seq<ScriptSlot>,
    h: Hook,
    base: int,
    a: int,
    b: int,
)
    requires
        0 <= a < b < targets_from(slots, h, base).len(),
    ensures
        targets_from(slots, h, base)[a] < targets_from(slots, h, base)[b],
    decreases slots.len(),
{
    if slots.len() == 0 {
    } else {
        let rest = targets_from(slots.drop_first(), h, base + 1);
        if slot_receives(slots[0], h) {
            let whole = seq![base] + rest;
            if a == 0 {
                assert(whole[b] == rest[b - 1]);
                assert(rest.contains(rest[b - 1])) by {
                    assert(rest[b - 1] == rest[b - 1]);
                }
                lemma_targets_membership(slots.drop_first(), h, base + 1, rest[b - 1]);
            } else {
                assert(whole[a] == rest[a - 1]);
                assert(whole[b] == rest[b - 1]);
                lemma_targets_in_registration_order(slots.drop_first(), h, base + 1, a - 1, b - 1);
            }
        } else {
            lemma_targets_in_registration_order(slots.drop_first(), h, base + 1, a, b);
        }
    }
}

/// The router: the host's registered scripts and its own version.
pub struct HookRouter {
    /// The host's version, fixed for the session.
    pub host_version: Version,
    /// Registered scripts, in registration order.
    pub scripts: Vec<ScriptSlot>,
}

impl HookRouter {
    /// Negotiation soundness: an admitted script's requirement is satisfied.
    pub open spec fn wf(self) -> bool {
        forall|i: int|
            0 <= i < self.scripts@.len() ==> (#[trigger] self.scripts@[i]).active ==> version_ge(
                self.host_version,
                self.scripts@[i].descriptor.version_req.min,
            )
    }

    /// A router with no scripts.
    pub fn new(host_version: Version) -> (r: HookRouter)
        ensures
            r.host_version == host_version,
            r.scripts@ =~= Seq::<ScriptSlot>::empty(),
            r.wf(),
    {
        HookRouter { host_version, scripts: Vec::new() }
    }

    /// Register one script: it is admitted exactly when the host version
    /// satisfies its declared requirement; a failing script is kept but
    /// excluded from all dispatch, silently and non-fatally.
    pub fn register(&mut self, d: ScriptDescriptor)
        requires
            old(self).wf(),
        ensures
            final(self).wf(),
            final(self).host_version == old(self).host_version,
            final(self).scripts@ == old(self).scripts@.push(
                negotiated_slot(old(self).host_version, d),
            ),
    {
        let active = req_matches(&self.host_version, &d.version_req);
        self.scripts.push(ScriptSlot { descriptor: d, active, dead: false });
    }

    /// Mark one script's process dead for the rest of the session, as done
    /// when a write to it fails; every later dispatch skips it.
    pub fn mark_dead(&mut self, i: usize)
        requires
            old(self).wf(),
            i < old(self).scripts@.len(),
        ensures
            final(self).wf(),
            final(self).host_version == old(self).host_version,
            final(self).scripts@ == old(self).scripts@.update(
                i as int,
                dead_slot(old(self).scripts@[i as int]),
            ),
    {
        let mut slot = self.scripts.remove(i);
        slot.dead = true;
        self.scripts.insert(i, slot);
        assert(self.scripts@ =~= old(self).scripts@.update(
            i as int,
            dead_slot(old(self).scripts@[i as int]),
        ));
    }

    /// The scripts to invoke for one hook, in registration order: exactly
    /// the admitted, live, subscribed ones.
    pub fn dispatch_targets(&self, h: Hook) -> (r: Vec<usize>)
        ensures
            r@.map_values(|u: usize| u as int) == targets_from(self.scripts@, h, 0),
    {
        let mut out: Vec<usize> = Vec::new();
        let mut i: usize = 0;
        assert(self.scripts@.take(0) =~= Seq::<ScriptSlot>::empty());
        assert(out@.map_values(|u: usize| u as int) =~= targets_from(self.scripts@.take(0), h, 0));
        while i < self.scripts.len()
            invariant
                i <= self.scripts@.len(),
                out@.map_values(|u: usize| u as int) == targets_from(
                    self.scripts@.take(i as int),
                    h,
                    0,
                ),
            decreases self.scripts@.len() - i,
        {
            let ghost pre = out@;
            let slot = &self.scripts[i];
            let recv = slot.active && !slot.dead && subscribes(&slot.descriptor, h);
            proof {
                lemma_targets_push(self.scripts@.take(i as int), self.scripts@[i as int], h, 0);
                assert(self.scripts@.take(i + 1) =~= self.scripts@.take(i as int).push(
                    self.scripts@[i as int],
                ));
            }
            if recv {
                out.push(i);
                assert(out@.map_values(|u: usize| u as int) =~= pre.map_values(|u: usize| u as int)
                    + seq![i as int]);
            } else {
                assert(out@.map_values(|u: usize| u as int) =~= pre.map_values(|u: usize| u as int)
                    + Seq::<int>::empty());
            }
            i += 1;
        }
        assert(self.scripts@.take(self.scripts@.len() as int) =~= self.scripts@);
        out
    }
}

/// Whether a descriptor subscribes to a hook.
pub fn subscribes(d: &ScriptDescriptor, h: Hook) -> (r: bool)
    ensures
        r == d.hooks@.contains(h),
{
    let mut i: usize = 0;
    while i < d.hooks.len()
        invariant
            i <= d.hooks@.len(),
            forall|k: int| 0 <= k < i ==> d.hooks@[k] != h,
        decreases d.hooks@.len() - i,
    {
        if d.hooks[i] == h {
            return true;
        }
        i += 1;
    }
    false
}

/// A script whose version negotiation failed is never a dispatch target,
/// for any hook.
pub proof fn lemma_excluded_never_targeted(r: HookRouter, i: int, h: Hook)
    requires
        0 <= i < r.scripts@.len(),
        !r.scripts@[i].active,
    ensures
        !targets_from(r.scripts@, h, 0).contains(i),
{
    lemma_targets_membership(r.scripts@, h, 0, i);
}

/// One router transition: a registration or a death mark.
pub open spec fn router_step(host: Version, pre: Seq<ScriptSlot>, post: Seq<ScriptSlot>) -> bool {
    (exists|d: ScriptDescriptor| post == pre.push(negotiated_slot(host, d))) || (exists|i: int|
        0 <= i < pre.len() && post == pre.update(i, dead_slot(pre[i])))
}

/// A session: successive router states, each reached from the previous by
/// one transition.
pub open spec fn router_session(host: Version, states: Seq<Seq<ScriptSlot>>) -> bool {
    forall|k: int| 0 <= k < states.len() - 1 ==> router_step(host, states[k], #[trigger] states[k + 1])
}

/// A transition never readmits a script: an excluded slot stays excluded.
proof fn lemma_excluded_preserved(host: Version, pre: Seq<ScriptSlot>, post: Seq<ScriptSlot>, i: int)
    requires
        router_step(host, pre, post),
        0 <= i < pre.len(),
        !pre[i].active,
    ensures
        i < post.len(),
        !post[i].active,
{
    if exists|d: ScriptDescriptor| post == pre.push(negotiated_slot(host, d)) {
        let d = choose|d: ScriptDescriptor| post == pre.push(negotiated_slot(host, d));
        assert(post[i] == pre[i]);
    } else {
        let j = choose|j: int| 0 <= j < pre.len() && post == pre.update(j, dead_slot(pre[j]));
        if j == i {
            assert(post[i] == dead_slot(pre[i]));
        } else {
            assert(post[i] == pre[i]);
        }
    }
}

/// A script that fails version negotiation receives zero hook calls across
/// a full session: from the state that registered it onward, through any
/// run of registrations and death marks, it is never a dispatch target.
pub proof fn lemma_version_gate_full_session(
    host: Version,
    states: Seq<Seq<ScriptSlot>>,
    i: int,
    k: int,
    h: Hook,
)
    requires
        router_session(host, states),
        states.len() > 0,
        0 <= i < states[0].len(),
        !states[0][i].active,
        0 <= k < states.len(),
    ensures
        i < states[k].len(),
        !states[k][i].active,
        !targets_from(states[k], h, 0).contains(i),
    decreases k,
{
    if k == 0 {
        lemma_targets_membership(states[0], h, 0, i);
    } else {
        lemma_version_gate_full_session(host, states, i, k - 1, h);
        let kk = k - 1;
        assert(0 <= kk < states.len() - 1);
        assert(router_step(host, states[kk], states[kk + 1]));
        assert(router_step(host, states[k - 1], states[k]));
        lemma_excluded_preserved(host, states[k - 1], states[k], i);
        lemma_targets_membership(states[k], h, 0, i);
    }
}

/// Fold of string-valued hook responses: the last non-empty response wins,
/// and a "no override" response never erases a prior override.
pub open spec fn last_override(rs: Seq<Option<Seq<u8>>>) -> Option<Seq<u8>>
    decreases rs.len(),
{
    if rs.len() == 0 {
        None
    } else {
        match rs.last() {
            Some(v) => Some(v),
            None => last_override(rs.drop_last()),
        }
    }
}

/// Combine the responses of one dispatch, in invocation order.
pub fn combine_responses(rs: &Vec<Option<Vec<u8>>>) -> (r: Option<Vec<u8>>)
    ensures
        opt_bytes_view(r) == last_override(rs@.map_values(|o: Option<Vec<u8>>| opt_bytes_view(o))),
{
    let ghost m = rs@.map_values(|o: Option<Vec<u8>>| opt_bytes_view(o));
    let mut acc: Option<Vec<u8>> = None;
    let mut i: usize = 0;
    assert(m.take(0) =~= Seq::<Option<Seq<u8>>>::empty());
    while i < rs.len()
        invariant
            i <= rs@.len(),
            m == rs@.map_values(|o: Option<Vec<u8>>| opt_bytes_view(o)),
            opt_bytes_view(acc) == last_override(m.take(i as int)),
        decreases rs@.len() - i,
    {
        assert(m.take(i + 1).drop_last() =~= m.take(i as int));
        assert(m.take(i + 1).last() == m[i as int]);
        match &rs[i] {
            Some(v) => {
                let mut c: Vec<u8> = Vec::new();
                push_all(&mut c, v.as_slice());
                assert(c@ =~= v@);
                acc = Some(c);
            },
            None => {},
        }
        i += 1;
    }
    assert(m.take(m.len() as int) =~= m);
    acc
}

/// A script that answers "no override" never erases a prior override.
pub proof fn lemma_no_override_preserves(rs: Seq<Option<Seq<u8>>>)
    ensures
        last_override(rs.push(None)) == last_override(rs),
{
    assert(rs.push(None).drop_last() =~= rs);
}

/// The last non-empty response wins: if position `i` answered `v` and every
/// later script answered "no override", the combined result is `v`.
pub proof fn lemma_last_override_wins(rs: Seq<Option<Seq<u8>>>, i: int, v: Seq<u8>)
    requires
        0 <= i < rs.len(),
        rs[i] == Some(v),
        forall|j: int| i < j < rs.len() ==> rs[j] is None,
    ensures
        last_override(rs) == Some(v),
    decreases rs.len(),
{
    if i == rs.len() - 1 {
    } else {
        assert(rs.last() is None);
        assert(rs.drop_last()[i] == rs[i]);
        lemma_last_override_wins(rs.drop_last(), i, v);
    }
}

/// The outcome of invoking one script for one hook call.
pub enum InvokeOutcome {
    /// The script answered; `None` inside means it declined to override.
    Response(Option<Vec<u8>>),
    /// The script's process crashed.
    Crashed,
    /// The script did not answer within its allotted time.
    TimedOut,
    /// The script's answer could not be decoded.
    Undecodable,
}

/// Degrade one call's outcome: a crash, timeout or undecodable answer
/// becomes "no override" for that call only; a real answer passes through.
pub fn degrade_outcome(outcome: InvokeOutcome) -> (r: Option<Vec<u8>>)
    ensures
        opt_bytes_view(r) == (match outcome {
            InvokeOutcome::Response(o) => opt_bytes_view(o),
            _ => None,
        }),
{
    match outcome {
        InvokeOutcome::Response(o) => o,
        InvokeOutcome::Crashed => None,
        InvokeOutcome::TimedOut => None,
        InvokeOutcome::Undecodable => None,
    }
}

} // verus!
