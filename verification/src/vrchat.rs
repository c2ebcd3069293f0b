//! Whether VRChat is running, as the app believes it: set on signs of life,
//! cleared when a heartbeat finds none, with the change reported to the
//! frontend as an event.
use vstd::prelude::*;

verus! {

/// How long a sign of life keeps VRChat counted as running without asking,
/// in nanoseconds (two minutes).
pub const HEARTBEAT_NS: i128 = 120_000_000_000;

/// What the app believes of VRChat.
#[derive(Clone, Copy, Debug, PartialEq, Eq, Structural)]
pub struct VrchatActivity {
    /// Whether VRChat is counted as running.
    pub active: bool,
    /// When it was last seen, in nanoseconds since the Unix epoch (negative
    /// before it).
    pub last_active_ns: i128,
}

/// The activity before any sign of life: inactive, last seen at the epoch.
pub fn initial_activity() -> (r: VrchatActivity)
    ensures
        r == (VrchatActivity { active: false, last_active_ns: 0 }),
{
    VrchatActivity { active: false, last_active_ns: 0 }
}

/// The activity after a sign of life at `now_ns`, and the event to send
/// (`Some(true)` exactly when VRChat was not counted as running).
pub open spec fn activated(s: VrchatActivity, now_ns: i128) -> (VrchatActivity, Option<bool>) {
    (
        VrchatActivity { active: true, last_active_ns: now_ns },
        if s.active {
            None
        } else {
            Some(true)
        },
    )
}

/// The activity after VRChat is found gone, and the event to send
/// (`Some(false)` exactly when it was counted as running).
pub open spec fn deactivated(s: VrchatActivity) -> (VrchatActivity, Option<bool>) {
    (
        VrchatActivity { active: false, last_active_ns: s.last_active_ns },
        if s.active {
            Some(false)
        } else {
            None
        },
    )
}

/// Records a sign of life at `now_ns`; returns the payload of the
/// `VRCHAT_PROCESS_ACTIVE` event to send, if any.
pub fn set_vrchat_active(s: &mut VrchatActivity, now_ns: i128) -> (event: Option<bool>)
    ensures
        (*final(s), event) == activated(*old(s), now_ns),
{
    s.last_active_ns = now_ns;
    if !s.active {
        s.active = true;
        Some(true)
    } else {
        None
    }
}

/// Records that VRChat is gone; returns the payload of the
/// `VRCHAT_PROCESS_ACTIVE` event to send, if any.
pub fn set_vrchat_inactve(s: &mut VrchatActivity) -> (event: Option<bool>)
    ensures
        (*final(s), event) == deactivated(*old(s)),
{
    if s.active {
        s.active = false;
        Some(false)
    } else {
        None
    }
}

/// Whether VRChat was seen less than two minutes before `now_ns` (a clock that
/// went back counts as no time passed).
pub open spec fn seen_recently_spec(s: VrchatActivity, now_ns: i128) -> bool {
    (if now_ns >= s.last_active_ns {
        now_ns - s.last_active_ns
    } else {
        0
    }) < HEARTBEAT_NS
}

/// Whether VRChat was seen less than two minutes before `now_ns`; the heartbeat
/// leaves the activity alone when it was.
pub fn seen_recently(s: &VrchatActivity, now_ns: i128) -> (r: bool)
    ensures
        r == seen_recently_spec(*s, now_ns),
{
    if now_ns < s.last_active_ns {
        return true;
    }
    if s.last_active_ns >= 0 || now_ns < 0 {
        now_ns - s.last_active_ns < HEARTBEAT_NS
    } else {
        // `now_ns` is at least 0 and `last_active_ns` below 0: the gap is at least
        // two minutes exactly where `now_ns` is at least two minutes plus
        // `last_active_ns`, which cannot overflow.
        now_ns < HEARTBEAT_NS + s.last_active_ns
    }
}

/// Applies what the heartbeat learnt from VRChat's OSC interface at `now_ns`:
/// `values` is the number of values of the mute parameter that came back, or
/// `None` where the query failed. Some value counts as a sign of life; none,
/// or a failed query, as VRChat gone. Returns the event to send, if any.
pub fn heartbeat_reply(s: &mut VrchatActivity, now_ns: i128, values: Option<usize>) -> (event: Option<
    bool,
>)
    ensures
        (*final(s), event) == match values {
            Some(n) if n > 0 => activated(*old(s), now_ns),
            _ => deactivated(*old(s)),
        },
{
    let alive = match values {
        Some(n) => n > 0,
        None => false,
    };
    if alive {
        set_vrchat_active(s, now_ns)
    } else {
        set_vrchat_inactve(s)
    }
}

/// A second sign of life in a row sends no event, and VRChat stays counted as
/// running.
pub proof fn lemma_activation_idempotent(s: VrchatActivity, t1: i128, t2: i128)
    ensures
        activated(activated(s, t1).0, t2).1 is None,
        activated(activated(s, t1).0, t2).0.active,
{
}

/// Going gone twice in a row sends no second event.
pub proof fn lemma_deactivation_idempotent(s: VrchatActivity)
    ensures
        deactivated(deactivated(s).0).1 is None,
        !deactivated(deactivated(s).0).0.active,
{
}

/// An event is sent exactly when the belief changes, and it carries the new
/// belief.
pub proof fn lemma_event_iff_change(s: VrchatActivity, now_ns: i128)
    ensures
        activated(s, now_ns).1 is Some <==> activated(s, now_ns).0.active != s.active,
        deactivated(s).1 is Some <==> deactivated(s).0.active != s.active,
        activated(s, now_ns).1 is Some ==> activated(s, now_ns).1->0 == activated(
            s,
            now_ns,
        ).0.active,
        deactivated(s).1 is Some ==> deactivated(s).1->0 == deactivated(s).0.active,
{
}

/// Right after a sign of life the heartbeat leaves VRChat alone.
pub proof fn lemma_seen_right_after_activation(s: VrchatActivity, now_ns: i128)
    ensures
        seen_recently_spec(activated(s, now_ns).0, now_ns),
{
}

/// One of the calls that change what the app believes of VRChat.
#[derive(Clone, Copy, Debug, PartialEq, Eq, Structural)]
pub enum ActivityCall {
    /// `set_vrchat_active` at the given time.
    Active(i128),
    /// `set_vrchat_inactve`.
    Inactive,
}

/// The activity and event after one call.
pub open spec fn apply_call(s: VrchatActivity, c: ActivityCall) -> (VrchatActivity, Option<bool>) {
    match c {
        ActivityCall::Active(now_ns) => activated(s, now_ns),
        ActivityCall::Inactive => deactivated(s),
    }
}

/// The activity after a run of calls.
pub open spec fn after_calls(s: VrchatActivity, calls: Seq<ActivityCall>) -> VrchatActivity
    decreases calls.len(),
{
    if calls.len() == 0 {
        s
    } else {
        after_calls(apply_call(s, calls[0]).0, calls.drop_first())
    }
}

/// The payloads of the `VRCHAT_PROCESS_ACTIVE` events sent over a run of calls.
pub open spec fn payloads(s: VrchatActivity, calls: Seq<ActivityCall>) -> Seq<bool>
    decreases calls.len(),
{
    if calls.len() == 0 {
        Seq::empty()
    } else {
        let (next, event) = apply_call(s, calls[0]);
        let head = match event {
            Some(b) => seq![b],
            None => Seq::empty(),
        };
        head + payloads(next, calls.drop_first())
    }
}

/// Over any run of calls the payloads alternate: none equals the one before
/// it, the first differs from the belief before the run (from the initial
/// activity: the first is `true`), and the last is the belief after the run.
pub proof fn lemma_payloads_alternate(s: VrchatActivity, calls: Seq<ActivityCall>)
    ensures
        forall|i: int|
            0 <= i < payloads(s, calls).len() - 1 ==> #[trigger] payloads(s, calls)[i] != payloads(
                s,
                calls,
            )[i + 1],
        payloads(s, calls).len() > 0 ==> payloads(s, calls)[0] != s.active,
        payloads(s, calls).len() > 0 ==> payloads(s, calls).last() == after_calls(s, calls).active,
    decreases calls.len(),
{
    if calls.len() > 0 {
        let (next, event) = apply_call(s, calls[0]);
        let rest = payloads(next, calls.drop_first());
        lemma_payloads_alternate(next, calls.drop_first());
        let head: Seq<bool> = match event {
            Some(b) => seq![b],
            None => Seq::empty(),
        };
        let all = payloads(s, calls);
        assert(all == head + rest);
        if event is None {
            assert(next.active == s.active);
            assert(all == rest);
        } else {
            assert(event->0 == next.active);
            assert forall|i: int| 0 <= i < all.len() - 1 implies #[trigger] all[i] != all[i + 1] by {
                if i == 0 {
                    assert(all[1] == rest[0]);
                } else {
                    assert(all[i] == rest[i - 1]);
                    assert(all[i + 1] == rest[i]);
                }
            }
            if rest.len() == 0 {
                assert(all.last() == next.active);
                assert(after_calls(next, calls.drop_first()).active == next.active) by {
                    lemma_no_event_keeps_belief(next, calls.drop_first());
                }
            } else {
                assert(all.last() == rest.last());
            }
        }
    }
}

/// A run of calls that sends no event leaves the belief as it was.
proof fn lemma_no_event_keeps_belief(s: VrchatActivity, calls: Seq<ActivityCall>)
    requires
        payloads(s, calls).len() == 0,
    ensures
        after_calls(s, calls).active == s.active,
    decreases calls.len(),
{
    if calls.len() > 0 {
        let (next, event) = apply_call(s, calls[0]);
        assert(payloads(s, calls).len() >= payloads(next, calls.drop_first()).len());
        lemma_no_event_keeps_belief(next, calls.drop_first());
    }
}

} // verus!
