//! The decisions of the OpenXR side of the app: which way the head lies, the
//! status of the XR session and its restarts, what a failed pose query calls
//! for, the head-shake detection loop, and the brightness overlay's texture.
use vstd::prelude::*;

verus! {

/// The side the user lies on, as the head's orientation shows it.
#[allow(non_camel_case_types)]
#[derive(Clone, Copy, Debug, PartialEq, Eq, Structural)]
pub enum SIDE {
    Back,
    Left,
    Right,
    Front,
}

/// The number that stands for each side when it is sent to the frontend.
pub open spec fn side_repr(s: SIDE) -> u8 {
    match s {
        SIDE::Back => 0,
        SIDE::Left => 1,
        SIDE::Right => 2,
        SIDE::Front => 3,
    }
}

impl SIDE {
    /// The number that stands for this side when it is sent to the frontend.
    pub fn to_repr(&self) -> (r: u8)
        ensures
            r == side_repr(*self),
    {
        match self {
            SIDE::Back => 0,
            SIDE::Left => 1,
            SIDE::Right => 2,
            SIDE::Front => 3,
        }
    }
}

/// The side, from three comparisons made on the head's orientation:
/// `upright` where the head's up axis stays within the threshold of vertical,
/// `tilted` where its right axis leans past the threshold, and
/// `tilt_negative` where that lean points down. An upright head faces front;
/// a tilted one lies on its right (leaning down) or left side; otherwise it
/// lies on its back (face down counts the same).
pub fn classify_side(upright: bool, tilted: bool, tilt_negative: bool) -> (r: SIDE)
    ensures
        r == if upright {
            SIDE::Front
        } else if tilted {
            if tilt_negative {
                SIDE::Right
            } else {
                SIDE::Left
            }
        } else {
            SIDE::Back
        },
{
    if upright {
        SIDE::Front
    } else if tilted {
        if tilt_negative {
            SIDE::Right
        } else {
            SIDE::Left
        }
    } else {
        SIDE::Back
    }
}

/// The side last reported to the frontend.
#[derive(Clone, Copy, Debug, PartialEq, Eq, Structural)]
pub struct SideTracker {
    pub last: SIDE,
}

/// The tracker before any pose: the user counts as facing front.
pub fn new_side_tracker() -> (r: SideTracker)
    ensures
        r.last == SIDE::Front,
{
    SideTracker { last: SIDE::Front }
}

/// The tracker after a pose on `side`, and the side to report (as a `POSE`
/// event) where it differs from the last one reported.
pub open spec fn observed(t: SideTracker, side: SIDE) -> (SideTracker, Option<SIDE>) {
    (
        SideTracker { last: side },
        if side != t.last {
            Some(side)
        } else {
            None
        },
    )
}

/// Takes the side of a new pose; returns the side to report (as a `POSE` event)
/// where it differs from the last one reported.
pub fn observe_side(t: &mut SideTracker, side: SIDE) -> (r: Option<SIDE>)
    ensures
        (*final(t), r) == observed(*old(t), side),
{
    if side != t.last {
        t.last = side;
        Some(side)
    } else {
        None
    }
}

/// A side is reported once however many poses in a row show it.
pub proof fn lemma_side_reported_once(t: SideTracker, side: SIDE)
    ensures
        observed(observed(t, side).0, side).1 is None,
{
}

/// A pose on a side other than the last one reported is reported, and that
/// side becomes the last one reported; a pose on the last side reported is not
/// reported and changes nothing.
pub proof fn lemma_change_is_reported(t: SideTracker, side: SIDE)
    ensures
        side != t.last ==> observed(t, side).1 == Some(side) && observed(t, side).0.last == side,
        side == t.last ==> observed(t, side).1 is None && observed(t, side).0 == t,
{
}

/// The sides reported over a run of poses on `sides`, from tracker `t`.
pub open spec fn reported_sides(t: SideTracker, sides: Seq<SIDE>) -> Seq<SIDE>
    decreases sides.len(),
{
    if sides.len() == 0 {
        Seq::empty()
    } else {
        let (next, report) = observed(t, sides[0]);
        let head = match report {
            Some(x) => seq![x],
            None => Seq::empty(),
        };
        head + reported_sides(next, sides.drop_first())
    }
}

/// Over any run of poses, two reports in a row never name the same side, and
/// the first report differs from the side last reported before the run (from a
/// new tracker: the first report is never `Front`).
pub proof fn lemma_reports_alternate(t: SideTracker, sides: Seq<SIDE>)
    ensures
        forall|i: int|
            0 <= i < reported_sides(t, sides).len() - 1 ==> #[trigger] reported_sides(t, sides)[i]
                != reported_sides(t, sides)[i + 1],
        reported_sides(t, sides).len() > 0 ==> reported_sides(t, sides)[0] != t.last,
    decreases sides.len(),
{
    if sides.len() > 0 {
        let (next, report) = observed(t, sides[0]);
        let rest = reported_sides(next, sides.drop_first());
        lemma_reports_alternate(next, sides.drop_first());
        let head: Seq<SIDE> = match report {
            Some(x) => seq![x],
            None => Seq::empty(),
        };
        let all = reported_sides(t, sides);
        assert(all == head + rest);
        if report is None {
            assert(next == t);
            assert(all == rest);
        } else {
            assert forall|i: int| 0 <= i < all.len() - 1 implies #[trigger] all[i] != all[i + 1] by {
                if i == 0 {
                    assert(all[0] == sides[0]);
                    assert(all[1] == rest[0]);
                } else {
                    assert(all[i] == rest[i - 1]);
                    assert(all[i + 1] == rest[i]);
                }
            }
        }
    }
}

/// The status of the OpenXR session.
#[derive(Clone, Copy, Debug, PartialEq, Eq, Structural)]
pub enum VRStatus {
    Inactive,
    Initializing,
    Initialized,
}

/// The name of a status as the `VR_STATUS_UPDATE` event carries it.
pub open spec fn status_name(s: VRStatus) -> Seq<char> {
    match s {
        VRStatus::Inactive => "INACTIVE"@,
        VRStatus::Initializing => "INITIALIZING"@,
        VRStatus::Initialized => "INITIALIZED"@,
    }
}

impl VRStatus {
    /// The name of this status as the `VR_STATUS_UPDATE` event carries it.
    pub fn event_name(&self) -> (r: &'static str)
        ensures
            r@ == status_name(*self),
    {
        match self {
            VRStatus::Inactive => "INACTIVE",
            VRStatus::Initializing => "INITIALIZING",
            VRStatus::Initialized => "INITIALIZED",
        }
    }
}

/// The state of the XR session as the app keeps it.
#[derive(Clone, Copy, Debug, PartialEq, Eq, Structural)]
pub struct XrSession {
    /// The session's status.
    pub status: VRStatus,
    /// Whether a restart after the session ended is under way.
    pub restarting: bool,
}

/// The session before OpenXR is reached.
pub fn new_xr_session() -> (r: XrSession)
    ensures
        r == (XrSession { status: VRStatus::Inactive, restarting: false }),
{
    XrSession { status: VRStatus::Inactive, restarting: false }
}

/// Whether a status may follow another: an initialized session never goes
/// back to initializing.
pub open spec fn status_change_allowed(from: VRStatus, to: VRStatus) -> bool {
    !(from == VRStatus::Initialized && to == VRStatus::Initializing)
}

/// Only the change from initialized back to initializing is refused: every
/// change to initialized or inactive is allowed, and so is every change from a
/// session that is not initialized; the start-up path (inactive, initializing,
/// initialized) and the end-and-restart path (initialized, inactive,
/// initializing) are allowed step by step.
pub proof fn lemma_only_reinitializing_refused(from: VRStatus, to: VRStatus)
    ensures
        to == VRStatus::Initialized ==> status_change_allowed(from, to),
        to == VRStatus::Inactive ==> status_change_allowed(from, to),
        from != VRStatus::Initialized ==> status_change_allowed(from, to),
        !status_change_allowed(VRStatus::Initialized, VRStatus::Initializing),
        status_change_allowed(VRStatus::Inactive, VRStatus::Initializing),
        status_change_allowed(VRStatus::Initializing, VRStatus::Initialized),
        status_change_allowed(VRStatus::Initialized, VRStatus::Inactive),
{
}

/// Whether the status may change to `to`.
pub fn may_update_status(s: &XrSession, to: VRStatus) -> (r: bool)
    ensures
        r == status_change_allowed(s.status, to),
{
    !(s.status == VRStatus::Initialized && to == VRStatus::Initializing)
}

/// Sets the status; returns the name that the `VR_STATUS_UPDATE` event carries.
pub fn update_status(s: &mut XrSession, to: VRStatus) -> (name: &'static str)
    requires
        status_change_allowed(old(s).status, to),
    ensures
        *final(s) == (XrSession { status: to, ..*old(s) }),
        name@ == status_name(to),
{
    s.status = to;
    to.event_name()
}

/// The events of the OpenXR runner that the app acts on.
#[derive(Clone, Copy, Debug, PartialEq, Eq, Structural)]
pub enum XrEvent {
    SessionEnded,
    Killed,
    Started,
    /// Any other event.
    Other,
}

/// What the app does on an event of the runner.
#[derive(Clone, Copy, Debug, PartialEq, Eq, Structural)]
pub enum XrAction {
    /// Mark the session inactive, drop its context and restart it.
    Restart,
    /// Mark the session initialized.
    MarkInitialized,
    Nothing,
}

/// The session and action after an event: an end (or kill) starts one restart
/// unless one is under way; a start marks the session initialized.
pub open spec fn on_event(s: XrSession, e: XrEvent) -> (XrSession, XrAction) {
    match e {
        XrEvent::SessionEnded | XrEvent::Killed => if s.restarting {
            (s, XrAction::Nothing)
        } else {
            (XrSession { restarting: true, ..s }, XrAction::Restart)
        },
        XrEvent::Started => (s, XrAction::MarkInitialized),
        XrEvent::Other => (s, XrAction::Nothing),
    }
}

/// Handles an event of the OpenXR runner.
pub fn openxr_callback(s: &mut XrSession, e: XrEvent) -> (a: XrAction)
    ensures
        (*final(s), a) == on_event(*old(s), e),
{
    match e {
        XrEvent::SessionEnded | XrEvent::Killed => {
            if s.restarting {
                XrAction::Nothing
            } else {
                s.restarting = true;
                XrAction::Restart
            }
        },
        XrEvent::Started => XrAction::MarkInitialized,
        XrEvent::Other => XrAction::Nothing,
    }
}

/// Records that the restart is over: the session is initialized and the next
/// end may restart it again.
pub fn restart_finished(s: &mut XrSession)
    ensures
        *final(s) == (XrSession { status: VRStatus::Initialized, restarting: false }),
{
    s.status = VRStatus::Initialized;
    s.restarting = false;
}

/// A start of the runner marks the session initialized whatever state the
/// session is in (a restart under way too), and leaves that state alone; any
/// other event that is not an end does nothing; an end never changes the
/// status, and afterwards a restart is under way.
pub proof fn lemma_event_effects(s: XrSession, e: XrEvent)
    ensures
        e == XrEvent::Started ==> on_event(s, e) == (s, XrAction::MarkInitialized),
        e == XrEvent::Other ==> on_event(s, e) == (s, XrAction::Nothing),
        (e == XrEvent::SessionEnded || e == XrEvent::Killed) ==> {
            &&& on_event(s, e).0.status == s.status
            &&& on_event(s, e).0.restarting
            &&& (on_event(s, e).1 == XrAction::Restart <==> !s.restarting)
            &&& on_event(s, e).1 != XrAction::MarkInitialized
        },
{
}

/// While a restart is under way, further ends of the session start no second
/// restart.
pub proof fn lemma_single_restart(s: XrSession, e1: XrEvent, e2: XrEvent)
    requires
        e1 == XrEvent::SessionEnded || e1 == XrEvent::Killed,
        e2 == XrEvent::SessionEnded || e2 == XrEvent::Killed,
        !s.restarting,
    ensures
        on_event(s, e1).1 == XrAction::Restart,
        on_event(on_event(s, e1).0, e2).1 == XrAction::Nothing,
{
}

/// Once a restart has finished, the next end of the session restarts it again.
pub proof fn lemma_restart_after_finish(e: XrEvent)
    requires
        e == XrEvent::SessionEnded || e == XrEvent::Killed,
    ensures
        on_event(XrSession { status: VRStatus::Initialized, restarting: false }, e).1
            == XrAction::Restart,
{
}

/// What one run of the OpenXR runner reported.
#[derive(Clone, Copy, Debug, PartialEq, Eq, Structural)]
pub enum PollOutcome {
    /// A frame was rendered.
    Success,
    UserNotPresent,
    Exit,
    SessionLost,
    Starting,
    /// The session runs but renders nothing.
    SuccessNoRender,
}

/// How long the render loop waits after a run of the runner, in milliseconds:
/// not at all after a rendered frame, a second while the user is away, ten
/// seconds after the session exited or was lost, a tenth of a second while it
/// starts, and a minute while it renders nothing.
pub fn poll_delay_ms(outcome: PollOutcome) -> (r: Option<u64>)
    ensures
        r == match outcome {
            PollOutcome::Success => None,
            PollOutcome::UserNotPresent => Some(1000u64),
            PollOutcome::Exit | PollOutcome::SessionLost => Some(10_000u64),
            PollOutcome::Starting => Some(100u64),
            PollOutcome::SuccessNoRender => Some(60_000u64),
        },
{
    match outcome {
        PollOutcome::Success => None,
        PollOutcome::UserNotPresent => Some(1000),
        PollOutcome::Exit | PollOutcome::SessionLost => Some(10_000),
        PollOutcome::Starting => Some(100),
        PollOutcome::SuccessNoRender => Some(60_000),
    }
}

/// The ways a pose query of the runner fails.
#[derive(Clone, Copy, Debug, PartialEq, Eq, Structural)]
pub enum LocateFailure {
    RuntimeFailure,
    InstanceLost,
    SessionLost,
    HandleInvalid,
    LocationEmpty,
    /// Any other failure.
    Other,
}

/// Whether a failed pose query calls for running the runner once to bring the
/// session back: after a runtime failure, a lost instance or session, or an
/// invalid handle.
pub fn needs_session_kick(f: LocateFailure) -> (r: bool)
    ensures
        r == (f == LocateFailure::RuntimeFailure || f == LocateFailure::InstanceLost || f
            == LocateFailure::SessionLost || f == LocateFailure::HandleInvalid),
{
    match f {
        LocateFailure::RuntimeFailure | LocateFailure::InstanceLost | LocateFailure::SessionLost
        | LocateFailure::HandleInvalid => true,
        _ => false,
    }
}

/// The flags of the head-shake detection loop.
#[derive(Clone, Copy, Debug, PartialEq, Eq, Structural)]
pub struct GestureControl {
    /// Whether the loop runs.
    pub running: bool,
    /// Whether the loop has been asked to stop.
    pub abort: bool,
}

/// The flags before any detection.
pub fn new_gesture_control() -> (r: GestureControl)
    ensures
        r == (GestureControl { running: false, abort: false }),
{
    GestureControl { running: false, abort: false }
}

/// Asks a running detection loop to stop; does nothing where none runs.
pub fn stop_head_shake_detection(c: &mut GestureControl)
    ensures
        final(c).running == old(c).running,
        final(c).abort == (old(c).abort || old(c).running),
{
    if c.running {
        c.abort = true;
    }
}

/// Whether a detection loop is to be started: only on an initialized session.
pub fn start_head_shake_detection(status: VRStatus) -> (r: bool)
    ensures
        r == (status == VRStatus::Initialized),
{
    status == VRStatus::Initialized
}

/// Marks the loop as running and not asked to stop, as it begins.
pub fn gesture_loop_begin(c: &mut GestureControl)
    ensures
        *final(c) == (GestureControl { running: true, abort: false }),
{
    c.running = true;
    c.abort = false;
}

/// Marks the loop as ended.
pub fn gesture_loop_end(c: &mut GestureControl)
    ensures
        *final(c) == (GestureControl { running: false, abort: old(c).abort }),
{
    c.running = false;
}

/// What one round of the detection loop does after the runner has run.
#[derive(Clone, Copy, Debug, PartialEq, Eq, Structural)]
pub enum GestureStep {
    /// A button was pressed: report a gesture and end the loop.
    Detected,
    /// Feed the head's pose to the gesture detector and wait a frame.
    Track,
    /// The session is no longer initialized: end the loop.
    Stop,
}

/// The round's decision, from whether a button was pressed (`None` where no
/// input context is there to ask) and the session's status.
pub fn gesture_step(button_pressed: Option<bool>, status: VRStatus) -> (r: GestureStep)
    ensures
        r == if button_pressed == Some(true) {
            GestureStep::Detected
        } else if status == VRStatus::Initialized {
            GestureStep::Track
        } else {
            GestureStep::Stop
        },
{
    if button_pressed == Some(true) {
        GestureStep::Detected
    } else if status == VRStatus::Initialized {
        GestureStep::Track
    } else {
        GestureStep::Stop
    }
}

/// The texture for the brightness overlay, where the session is initialized
/// and the overlay exists: one pixel, black, with `alpha` as its opacity
/// (`alpha` is 255 times the darkening). Otherwise nothing is drawn.
pub fn set_brightness(status: VRStatus, overlay_exists: bool, alpha: u8) -> (r: Option<Vec<u8>>)
    ensures
        match r {
            Some(t) => status == VRStatus::Initialized && overlay_exists && t@ == seq![
                0u8,
                0u8,
                0u8,
                alpha,
            ],
            None => !(status == VRStatus::Initialized && overlay_exists),
        },
{
    if status != VRStatus::Initialized || !overlay_exists {
        return None;
    }
    let mut t = Vec::new();
    t.push(0u8);
    t.push(0u8);
    t.push(0u8);
    t.push(alpha);
    Some(t)
}

} // verus!
