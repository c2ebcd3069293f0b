use oyasumi::sidecar::{
    kill, killed, new_kill_state, no_vr_requested, notifications_url, parse_args, splash_url,
    ui_source, wants_dev_server, watched_process_path, ArgsError, UiSource,
};
use oyasumi::sounds::{
    is_sound_file, load_sound, sound_duration_ms, sound_name, unload_sound, watch_action,
    SoundLibrary, WatchAction, WatchEventKind,
};

fn argv(v: &[&str]) -> Vec<String> {
    v.iter().map(|s| s.to_string()).collect()
}

#[test]
fn sidecar_arguments() {
    let a = parse_args(&argv(&["sidecar", "5176", "1234"]), 5175).unwrap();
    assert_eq!(a.core_grpc_port(), 5176);
    assert_eq!(a.core_pid(), 1234);
    assert!(!a.disable_gpu());
    let a = parse_args(&argv(&["sidecar", "5176", "1234", "--disable-gpu-acceleration"]), 5175).unwrap();
    assert!(a.disable_gpu());
    let a = parse_args(&argv(&["sidecar", "5176", "1234", "--other"]), 5175).unwrap();
    assert!(!a.disable_gpu());
    let a = parse_args(&argv(&["sidecar", "0", "0"]), 5175).unwrap();
    assert_eq!(a.core_grpc_port(), 5175);
    let a = parse_args(&argv(&["sidecar", "0", "9"]), 5175).unwrap();
    assert_eq!(a.core_grpc_port(), 0);
}

#[test]
fn sidecar_argument_errors() {
    assert_eq!(parse_args(&argv(&["sidecar", "1"]), 1).unwrap_err(), ArgsError::Usage);
    assert_eq!(parse_args(&argv(&["sidecar", "1", "2", "3", "4"]), 1).unwrap_err(), ArgsError::Usage);
    assert_eq!(parse_args(&argv(&["sidecar", "70000", "2"]), 1).unwrap_err(), ArgsError::InvalidPort);
    assert_eq!(parse_args(&argv(&["sidecar", "x", "2"]), 1).unwrap_err(), ArgsError::InvalidPort);
    assert_eq!(parse_args(&argv(&["sidecar", "1", "-2"]), 1).unwrap_err(), ArgsError::InvalidPid);
}

#[test]
fn no_vr_flag() {
    assert!(no_vr_requested("true"));
    assert!(no_vr_requested("TRUE"));
    assert!(no_vr_requested("tRuE"));
    assert!(!no_vr_requested(""));
    assert!(!no_vr_requested("1"));
    assert!(!no_vr_requested("true "));
    for v in ["true", "TRUE", "True", "yes", "", "truee"] {
        assert_eq!(no_vr_requested(v), v.to_lowercase() == "true");
    }
}

#[test]
fn kill_watch() {
    let mut s = new_kill_state(0);
    assert_eq!(watched_process_path(&s), None);
    assert!(!killed(&mut s, true));
    assert!(kill(&mut s, false));
    assert!(killed(&mut s, false));
    assert!(!kill(&mut s, false));

    let mut s = new_kill_state(4242);
    assert_eq!(watched_process_path(&s).unwrap(), "/proc/4242");
    assert!(!killed(&mut s, false));
    assert!(killed(&mut s, true));
    assert!(killed(&mut s, false));
    let s = new_kill_state((1u64 << 32) + 5);
    assert_eq!(s.core_pid, 5);
}

#[test]
fn page_addresses() {
    assert_eq!(splash_url(5173, 60123), "http://localhost:5173/splash?corePort=60123");
    assert_eq!(notifications_url(8080, 1), "http://localhost:8080/notifications?corePort=1");
    let a = parse_args(&argv(&["sidecar", "0", "0"]), 5175).unwrap();
    assert!(wants_dev_server(&a, 5175, true));
    assert!(!wants_dev_server(&a, 5175, false));
    assert_eq!(ui_source(true, true), UiSource::DevServer(5173));
    assert_eq!(ui_source(true, false), UiSource::Bundled);
    assert_eq!(ui_source(false, true), UiSource::Bundled);
}

#[test]
fn sound_files() {
    assert!(is_sound_file(Some("bell.ogg")));
    assert!(!is_sound_file(Some("README.md")));
    assert!(!is_sound_file(Some(".gitignore")));
    assert!(!is_sound_file(None));
    assert_eq!(sound_name("bell.ogg"), "bell");
    assert_eq!(sound_name("a.b.c"), "a");
    assert_eq!(sound_name("plain"), "plain");
    assert_eq!(sound_name(""), "");
}

#[test]
fn sound_lengths() {
    assert_eq!(sound_duration_ms(Some(1000)), 1000);
    assert_eq!(sound_duration_ms(None), 0);
    assert_eq!(sound_duration_ms(Some((1u128 << 32) + 7)), 7);
    assert_eq!(sound_duration_ms(Some(u128::MAX)), u32::MAX);
}

#[test]
fn sound_library_loads_and_unloads() {
    let mut lib = SoundLibrary::new();
    let bytes = vec![1u8, 2, 3];
    let s = load_sound(&mut lib, "chime.wav", bytes.clone(), Some(100));
    assert_eq!(s.name, "chime");
    assert_eq!(s.duration_ms, 100);
    assert_eq!(lib.get("chime"), Some(&bytes));
    let t = load_sound(&mut lib, "chime.v2.ogg", vec![9], None);
    assert_eq!(t.name, "chime");
    assert_eq!(t.duration_ms, 0);
    assert_eq!(lib.get("chime"), Some(&vec![9]));
    assert_eq!(unload_sound(&mut lib, "chime.wav").as_deref(), Some("chime"));
    assert_eq!(lib.get("chime"), None);
    assert_eq!(unload_sound(&mut lib, "chime.wav"), None);
}

#[test]
fn sound_library_replaces_by_name() {
    let mut lib = SoundLibrary::new();
    lib.insert("a", vec![1]);
    lib.insert("b", vec![2]);
    lib.insert("a", vec![3]);
    assert_eq!(lib.get("a"), Some(&vec![3]));
    assert_eq!(lib.get("b"), Some(&vec![2]));
    assert!(lib.remove("b"));
    assert!(!lib.remove("b"));
    assert_eq!(lib.get("a"), Some(&vec![3]));
}

#[test]
fn watcher_actions() {
    assert_eq!(watch_action(WatchEventKind::ClosedAfterWrite), WatchAction::Load);
    assert_eq!(watch_action(WatchEventKind::RemovedFile), WatchAction::Unload);
    assert_eq!(watch_action(WatchEventKind::OtherAccess), WatchAction::Ignore);
    assert_eq!(watch_action(WatchEventKind::OtherRemove), WatchAction::Ignore);
    assert_eq!(watch_action(WatchEventKind::Other), WatchAction::Ignore);
}
