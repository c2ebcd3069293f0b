use oyasumi::clock::{get_time, millis_since_epoch, unix_millis_now};
use oyasumi::modes::{
    cli_core_mode, cli_sidecar_overlay_mode, read_mode_arg, CoreMode, ModeArg, OverlaySidecarMode,
};
use oyasumi::openxr::{
    classify_side, gesture_loop_begin, gesture_loop_end, gesture_step, needs_session_kick,
    new_gesture_control, new_side_tracker, new_xr_session, observe_side, openxr_callback,
    may_update_status, poll_delay_ms, restart_finished, PollOutcome, set_brightness, start_head_shake_detection,
    stop_head_shake_detection, update_status, GestureStep, LocateFailure, VRStatus, XrAction,
    XrEvent, SIDE,
};
use oyasumi::process::{
    first_signal, is_process_active, next_signal, quit_targets, quit_victim, ProcessCache,
    QuitSignal, TrackedProcess,
};
use oyasumi::session_bus::connect_dbus;
use oyasumi::vrchat::{
    heartbeat_reply, initial_activity, seen_recently, set_vrchat_active, set_vrchat_inactve,
};

#[test]
fn process_names() {
    assert_eq!(TrackedProcess::Steamvr.name(), "vrmonitor");
    assert_eq!(TrackedProcess::Vrchat.name(), "VRChat.exe");
    assert_eq!(TrackedProcess::MonadoService.name(), "monado-service");
    assert_eq!(TrackedProcess::Wivrn.name(), "wivrn-server");
}

#[test]
fn process_cache_scans_then_checks_the_cached_id() {
    let mut cache = ProcessCache::new();
    let active = is_process_active(&mut cache, TrackedProcess::Vrchat, |_| panic!("no cache yet"), || vec![41, 42]);
    assert!(active);
    assert_eq!(cache.cached_pid(TrackedProcess::Vrchat), Some(41));
    let active = is_process_active(&mut cache, TrackedProcess::Vrchat, |pid| pid == 41, || panic!("cached"));
    assert!(active);
    let active = is_process_active(&mut cache, TrackedProcess::Vrchat, |_| false, || panic!("cached"));
    assert!(!active);
    assert_eq!(cache.cached_pid(TrackedProcess::Vrchat), None);
    let active = is_process_active(&mut cache, TrackedProcess::Vrchat, |_| true, Vec::new);
    assert!(!active);
    assert_eq!(cache.cached_pid(TrackedProcess::Vrchat), None);
}

#[test]
fn process_cache_keeps_processes_apart() {
    let mut cache = ProcessCache::new();
    assert!(is_process_active(&mut cache, TrackedProcess::Steamvr, |_| true, || vec![1]));
    assert!(is_process_active(&mut cache, TrackedProcess::Wivrn, |_| true, || vec![2]));
    assert!(is_process_active(&mut cache, TrackedProcess::MonadoService, |_| true, || vec![3]));
    assert!(!is_process_active(&mut cache, TrackedProcess::Steamvr, |_| false, Vec::new));
    assert_eq!(cache.cached_pid(TrackedProcess::Steamvr), None);
    assert_eq!(cache.cached_pid(TrackedProcess::Wivrn), Some(2));
    assert_eq!(cache.cached_pid(TrackedProcess::MonadoService), Some(3));
}

#[test]
fn quit_order_and_signals() {
    assert_eq!(
        quit_targets(),
        vec![TrackedProcess::Steamvr, TrackedProcess::Wivrn, TrackedProcess::MonadoService]
    );
    assert_eq!(quit_victim(), TrackedProcess::Steamvr);
    assert_eq!(first_signal(true), QuitSignal::Kill);
    assert_eq!(first_signal(false), QuitSignal::Term);
    assert_eq!(next_signal(QuitSignal::Term, false), Some(QuitSignal::Quit));
    assert_eq!(next_signal(QuitSignal::Quit, false), Some(QuitSignal::Kill));
    assert_eq!(next_signal(QuitSignal::Term, true), None);
    assert_eq!(next_signal(QuitSignal::Kill, false), None);
}

#[test]
fn vrchat_activity_sends_events_on_change_only() {
    let mut s = initial_activity();
    assert_eq!(set_vrchat_active(&mut s, 1_000), Some(true));
    assert_eq!(set_vrchat_active(&mut s, 2_000), None);
    assert!(s.active);
    assert_eq!(s.last_active_ns, 2_000);
    assert_eq!(set_vrchat_inactve(&mut s), Some(false));
    assert_eq!(set_vrchat_inactve(&mut s), None);
    assert!(!s.active);
}

#[test]
fn vrchat_heartbeat_across_the_epoch() {
    let mut s = initial_activity();
    set_vrchat_active(&mut s, -60_000_000_000);
    assert!(seen_recently(&s, 59_999_999_999));
    assert!(!seen_recently(&s, 60_000_000_000));
    set_vrchat_active(&mut s, i128::MIN);
    assert!(!seen_recently(&s, i128::MAX));
    assert!(seen_recently(&s, i128::MIN));
}

#[test]
fn vrchat_heartbeat() {
    let mut s = initial_activity();
    let min2: i128 = 120_000_000_000;
    set_vrchat_active(&mut s, 10);
    assert!(seen_recently(&s, 10));
    assert!(seen_recently(&s, 10 + min2 - 1));
    assert!(!seen_recently(&s, 10 + min2));
    assert!(seen_recently(&s, 5));
    assert_eq!(heartbeat_reply(&mut s, 3 * min2, Some(0)), Some(false));
    assert_eq!(heartbeat_reply(&mut s, 4 * min2, None), None);
    assert_eq!(heartbeat_reply(&mut s, 5 * min2, Some(2)), Some(true));
    assert_eq!(s.last_active_ns, 5 * min2);
}

#[test]
fn modes_from_arguments() {
    assert_eq!(cli_core_mode(Some("dev")), CoreMode::Dev);
    assert_eq!(cli_core_mode(Some("release")), CoreMode::Release);
    assert_eq!(cli_core_mode(Some("bogus")), CoreMode::Release);
    assert_eq!(cli_core_mode(None), CoreMode::Release);
    assert_eq!(cli_sidecar_overlay_mode(Some("dev")), OverlaySidecarMode::Dev);
    assert_eq!(cli_sidecar_overlay_mode(None), OverlaySidecarMode::Release);
    assert_eq!(read_mode_arg(Some("bogus")), ModeArg::Unknown);
    assert_eq!(read_mode_arg(None), ModeArg::Release);
}

#[test]
fn sides() {
    assert_eq!(classify_side(true, true, true), SIDE::Front);
    assert_eq!(classify_side(false, true, true), SIDE::Right);
    assert_eq!(classify_side(false, true, false), SIDE::Left);
    assert_eq!(classify_side(false, false, true), SIDE::Back);
    assert_eq!(SIDE::Back.to_repr(), 0);
    assert_eq!(SIDE::Front.to_repr(), 3);
    let mut t = new_side_tracker();
    assert_eq!(observe_side(&mut t, SIDE::Front), None);
    assert_eq!(observe_side(&mut t, SIDE::Left), Some(SIDE::Left));
    assert_eq!(observe_side(&mut t, SIDE::Left), None);
}

#[test]
fn session_restarts_once() {
    let mut s = new_xr_session();
    assert_eq!(openxr_callback(&mut s, XrEvent::Started), XrAction::MarkInitialized);
    assert_eq!(openxr_callback(&mut s, XrEvent::SessionEnded), XrAction::Restart);
    assert_eq!(openxr_callback(&mut s, XrEvent::Killed), XrAction::Nothing);
    assert_eq!(openxr_callback(&mut s, XrEvent::Other), XrAction::Nothing);
    restart_finished(&mut s);
    assert_eq!(s.status, VRStatus::Initialized);
    assert_eq!(openxr_callback(&mut s, XrEvent::Killed), XrAction::Restart);
}

#[test]
fn status_updates() {
    let mut s = new_xr_session();
    assert_eq!(update_status(&mut s, VRStatus::Initializing), "INITIALIZING");
    assert_eq!(update_status(&mut s, VRStatus::Initialized), "INITIALIZED");
    assert!(!may_update_status(&s, VRStatus::Initializing));
    assert!(may_update_status(&s, VRStatus::Inactive));
    assert_eq!(update_status(&mut s, VRStatus::Inactive), "INACTIVE");
}

#[test]
fn render_loop_waits() {
    assert_eq!(poll_delay_ms(PollOutcome::Success), None);
    assert_eq!(poll_delay_ms(PollOutcome::UserNotPresent), Some(1000));
    assert_eq!(poll_delay_ms(PollOutcome::Exit), Some(10_000));
    assert_eq!(poll_delay_ms(PollOutcome::SessionLost), Some(10_000));
    assert_eq!(poll_delay_ms(PollOutcome::Starting), Some(100));
    assert_eq!(poll_delay_ms(PollOutcome::SuccessNoRender), Some(60_000));
}

#[test]
fn pose_failures() {
    assert!(needs_session_kick(LocateFailure::SessionLost));
    assert!(needs_session_kick(LocateFailure::HandleInvalid));
    assert!(!needs_session_kick(LocateFailure::LocationEmpty));
    assert!(!needs_session_kick(LocateFailure::Other));
}

#[test]
fn head_shake_loop() {
    let mut c = new_gesture_control();
    stop_head_shake_detection(&mut c);
    assert!(!c.abort);
    assert!(start_head_shake_detection(VRStatus::Initialized));
    assert!(!start_head_shake_detection(VRStatus::Inactive));
    gesture_loop_begin(&mut c);
    stop_head_shake_detection(&mut c);
    assert!(c.abort);
    gesture_loop_end(&mut c);
    assert!(!c.running);
    assert_eq!(gesture_step(Some(true), VRStatus::Inactive), GestureStep::Detected);
    assert_eq!(gesture_step(Some(false), VRStatus::Initialized), GestureStep::Track);
    assert_eq!(gesture_step(None, VRStatus::Initializing), GestureStep::Stop);
}

#[test]
fn brightness_texture() {
    assert_eq!(set_brightness(VRStatus::Initialized, true, 128), Some(vec![0, 0, 0, 128]));
    assert_eq!(set_brightness(VRStatus::Initialized, false, 128), None);
    assert_eq!(set_brightness(VRStatus::Inactive, true, 128), None);
}

#[test]
fn poses_report_changes_only() {
    let mut t = new_side_tracker();
    let run = [SIDE::Front, SIDE::Left, SIDE::Left, SIDE::Back, SIDE::Back, SIDE::Left, SIDE::Front];
    let reports: Vec<SIDE> = run.iter().filter_map(|s| observe_side(&mut t, *s)).collect();
    assert_eq!(reports, vec![SIDE::Left, SIDE::Back, SIDE::Left, SIDE::Front]);
}

#[test]
fn vrchat_payloads_alternate() {
    let mut s = initial_activity();
    let mut payloads = Vec::new();
    for (i, active) in [true, true, false, false, true, false, true].iter().enumerate() {
        let e = if *active { set_vrchat_active(&mut s, i as i128) } else { set_vrchat_inactve(&mut s) };
        payloads.extend(e);
    }
    assert_eq!(payloads, vec![true, false, true, false, true]);
    assert_eq!(*payloads.last().unwrap(), s.active);
}

#[test]
fn dbus_connects_once() {
    let mut slot: Option<u32> = None;
    assert!(!connect_dbus(&mut slot, || Err::<u32, ()>(())));
    assert_eq!(slot, None);
    assert!(connect_dbus(&mut slot, || Ok::<u32, ()>(7)));
    assert_eq!(slot, Some(7));
    assert!(connect_dbus(&mut slot, || -> Result<u32, ()> { panic!("already connected") }));
    assert_eq!(slot, Some(7));
}

#[test]
fn clock_millis() {
    assert_eq!(millis_since_epoch(Some(2_345)), Some(2_345));
    assert_eq!(millis_since_epoch(None), None);
    assert_eq!(millis_since_epoch(Some((1u128 << 64) + 5)), Some(5));
    assert!(unix_millis_now().unwrap() > 1_600_000_000_000);
    let t = get_time().unwrap();
    let expected = std::time::SystemTime::now()
        .duration_since(std::time::UNIX_EPOCH)
        .unwrap()
        .as_millis() as u64;
    assert!(t <= expected && expected - t < 10_000);
}
