//! The overlay sidecar: its command line, the watch on the core process that
//! ends it, and the addresses of the pages it shows.
use vstd::prelude::*;
use vstd::string::StringExecFns;
use crate::decimal::{decimal, parse_u16, parse_u64, parse_unsigned, push_decimal};
use crate::text::{chars_of, str_equal, string_views};

verus! {

broadcast use vstd::string::group_string_axioms;

/// The sidecar's command-line arguments.
#[derive(Clone, Copy, Debug)]
pub struct Args {
    core_grpc_port: u16,
    core_pid: u64,
    disable_gpu: bool,
}

impl Args {
    /// The port of the core's gRPC server.
    pub fn core_grpc_port(&self) -> (r: u16)
        ensures
            r == self.fields().0,
    {
        self.core_grpc_port
    }

    /// The process id of the core (0 where none is watched).
    pub fn core_pid(&self) -> (r: u64)
        ensures
            r == self.fields().1,
    {
        self.core_pid
    }

    /// Whether GPU acceleration is turned off.
    pub fn disable_gpu(&self) -> (r: bool)
        ensures
            r == self.fields().2,
    {
        self.disable_gpu
    }

    /// The fields, as a tuple.
    pub closed spec fn fields(&self) -> (u16, u64, bool) {
        (self.core_grpc_port, self.core_pid, self.disable_gpu)
    }
}

/// Why a command line was refused.
#[derive(Clone, Copy, Debug, PartialEq, Eq, Structural)]
pub enum ArgsError {
    /// Neither two nor three arguments follow the program's name.
    Usage,
    /// The port is not a `u16` in decimal.
    InvalidPort,
    /// The process id is not a `u64` in decimal.
    InvalidPid,
}

/// The flag that turns GPU acceleration off.
pub open spec fn disable_gpu_flag() -> Seq<char> {
    "--disable-gpu-acceleration"@
}

/// What a command line (program name first) gives, with `dev_port` as the core
/// port where both port and process id are 0: the port, the process id and
/// whether the third argument is the GPU flag.
pub open spec fn args_spec(argv: Seq<Seq<char>>, dev_port: u16) -> Result<(u16, u64, bool), ArgsError> {
    if argv.len() != 3 && argv.len() != 4 {
        Err(ArgsError::Usage)
    } else {
        match parse_unsigned(argv[1], u16::MAX as nat) {
            None => Err(ArgsError::InvalidPort),
            Some(port) => match parse_unsigned(argv[2], u64::MAX as nat) {
                None => Err(ArgsError::InvalidPid),
                Some(pid) => {
                    let gpu_off = argv.len() == 4 && argv[3] == disable_gpu_flag();
                    let port = if port == 0 && pid == 0 {
                        dev_port
                    } else {
                        port as u16
                    };
                    Ok((port, pid as u64, gpu_off))
                },
            },
        }
    }
}

/// Reads the sidecar's command line: `<program> <core grpc port> <core process
/// id> [--disable-gpu-acceleration]`. A port and process id both 0 mean a core
/// run by hand, reached at `dev_port`.
pub fn parse_args(argv: &Vec<String>, dev_port: u16) -> (r: Result<Args, ArgsError>)
    ensures
        match r {
            Ok(a) => args_spec(string_views(argv@), dev_port) == Ok::<
                (u16, u64, bool),
                ArgsError,
            >(a.fields()),
            Err(e) => args_spec(string_views(argv@), dev_port) == Err::<(u16, u64, bool), ArgsError>(
                e,
            ),
        },
{
    let ghost views = string_views(argv@);
    if argv.len() != 3 && argv.len() != 4 {
        return Err(ArgsError::Usage);
    }
    assert(views[1] == argv@[1]@);
    assert(views[2] == argv@[2]@);
    let port = match parse_u16(argv[1].as_str()) {
        Some(p) => p,
        None => {
            return Err(ArgsError::InvalidPort);
        },
    };
    let pid = match parse_u64(argv[2].as_str()) {
        Some(p) => p,
        None => {
            return Err(ArgsError::InvalidPid);
        },
    };
    let disable_gpu = if argv.len() == 4 {
        assert(views[3] == argv@[3]@);
        str_equal(argv[3].as_str(), "--disable-gpu-acceleration")
    } else {
        false
    };
    let core_grpc_port = if port == 0 && pid == 0 {
        dev_port
    } else {
        port
    };
    Ok(Args { core_grpc_port, core_pid: pid, disable_gpu })
}

/// Whether the value of the `NO_VR` variable asks for running without VR: it is
/// `true` in any mix of cases. (The characters whose lower case is one of these
/// four letters are just the letters and their ASCII capitals.)
pub open spec fn no_vr_spec(value: Seq<char>) -> bool {
    &&& value.len() == 4
    &&& (value[0] == 't' || value[0] == 'T')
    &&& (value[1] == 'r' || value[1] == 'R')
    &&& (value[2] == 'u' || value[2] == 'U')
    &&& (value[3] == 'e' || value[3] == 'E')
}

/// Whether the value of the `NO_VR` variable asks for running without VR (an
/// unset variable counts as empty).
pub fn no_vr_requested(value: &str) -> (r: bool)
    ensures
        r == no_vr_spec(value@),
{
    let v = chars_of(value);
    v.len() == 4 && (v[0] == 't' || v[0] == 'T') && (v[1] == 'r' || v[1] == 'R') && (v[2] == 'u'
        || v[2] == 'U') && (v[3] == 'e' || v[3] == 'E')
}

/// The watch on the core process: the sidecar ends once the core is gone or it
/// is told to.
#[derive(Clone, Copy, Debug, PartialEq, Eq, Structural)]
pub struct KillState {
    /// The watched process id (0 where none is watched).
    pub core_pid: u32,
    /// Whether the sidecar is to end.
    pub killed: bool,
}

/// The watch for the core process `core_pid`, as the command line gives it (cut
/// to 32 bits as `as u32` cuts it).
pub fn new_kill_state(core_pid: u64) -> (r: KillState)
    ensures
        r.core_pid == core_pid % 0x1_0000_0000,
        !r.killed,
{
    assert(core_pid as u32 == core_pid % 0x1_0000_0000) by (bit_vector);
    #[verifier::truncate]
    let pid: u32 = core_pid as u32;
    KillState { core_pid: pid, killed: false }
}

/// The path whose absence shows that the core has gone: `/proc/<pid>`, or none
/// where no process is watched.
pub fn watched_process_path(s: &KillState) -> (r: Option<String>)
    ensures
        match r {
            Some(p) => s.core_pid != 0 && p@ == "/proc/"@ + decimal(s.core_pid as nat),
            None => s.core_pid == 0,
        },
{
    if s.core_pid == 0 {
        None
    } else {
        let mut p = String::from_str("/proc/");
        push_decimal(&mut p, s.core_pid as u64);
        Some(p)
    }
}

/// The watch after a look at the watched path: where a process is watched and
/// `core_gone` tells that its path is missing, the sidecar is marked to end.
pub open spec fn watch_step(s: KillState, core_gone: bool) -> KillState {
    KillState { killed: s.killed || (s.core_pid != 0 && core_gone), ..s }
}

/// Whether the sidecar is to end; `core_gone` tells whether the watched path
/// is missing (it does not matter where no process is watched).
pub fn killed(s: &mut KillState, core_gone: bool) -> (r: bool)
    ensures
        *final(s) == watch_step(*old(s), core_gone),
        r == final(s).killed,
{
    if s.core_pid != 0 && core_gone {
        s.killed = true;
    }
    s.killed
}

/// Tells the sidecar to end; returns whether it was still running by the watch
/// (the moment to log that it is being killed).
pub fn kill(s: &mut KillState, core_gone: bool) -> (was_running: bool)
    ensures
        *final(s) == (KillState { killed: true, ..*old(s) }),
        was_running == !watch_step(*old(s), core_gone).killed,
{
    let was = killed(s, core_gone);
    s.killed = true;
    !was
}

/// Once marked to end, the sidecar stays marked, whatever the watch finds.
pub proof fn lemma_kill_is_final(s: KillState, core_gone: bool)
    requires
        s.killed,
    ensures
        watch_step(s, core_gone).killed,
{
}

/// The port of the frontend's development server.
pub const DEV_UI_PORT: u16 = 5173;

/// Where the sidecar's pages come from.
#[derive(Clone, Copy, Debug, PartialEq, Eq, Structural)]
pub enum UiSource {
    /// The development server on its port.
    DevServer(u16),
    /// The sidecar's own server for the bundled pages.
    Bundled,
}

/// Whether to look for the development server at all: only in a debug build
/// that talks to a core run by hand on `dev_port`.
pub fn wants_dev_server(args: &Args, dev_port: u16, debug_build: bool) -> (r: bool)
    ensures
        r == (args.fields().0 == dev_port && debug_build),
{
    args.core_grpc_port == dev_port && debug_build
}

/// Where the pages come from, once the development server has been looked
/// for where wanted: it serves them where it answered.
pub fn ui_source(wanted: bool, dev_server_answers: bool) -> (r: UiSource)
    ensures
        r == if wanted && dev_server_answers {
            UiSource::DevServer(DEV_UI_PORT)
        } else {
            UiSource::Bundled
        },
{
    if wanted && dev_server_answers {
        UiSource::DevServer(DEV_UI_PORT)
    } else {
        UiSource::Bundled
    }
}

/// `http://localhost:<ui>/<page>?corePort=<core>`.
pub open spec fn page_url(page: Seq<char>, ui_port: u16, core_port: u32) -> Seq<char> {
    "http://localhost:"@ + decimal(ui_port as nat) + "/"@ + page + "?corePort="@ + decimal(
        core_port as nat,
    )
}

/// The address of the splash page.
pub fn splash_url(ui_port: u16, core_port: u32) -> (r: String)
    ensures
        r@ == page_url("splash"@, ui_port, core_port),
{
    let mut r = String::from_str("http://localhost:");
    push_decimal(&mut r, ui_port as u64);
    r.append("/");
    r.append("splash");
    r.append("?corePort=");
    push_decimal(&mut r, core_port as u64);
    r
}

/// The address of the notifications page.
pub fn notifications_url(ui_port: u16, core_port: u32) -> (r: String)
    ensures
        r@ == page_url("notifications"@, ui_port, core_port),
{
    let mut r = String::from_str("http://localhost:");
    push_decimal(&mut r, ui_port as u64);
    r.append("/");
    r.append("notifications");
    r.append("?corePort=");
    push_decimal(&mut r, core_port as u64);
    r
}

} // verus!
