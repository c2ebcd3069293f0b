//! The run modes chosen on the command line.
use vstd::prelude::*;
use crate::text::{opt_view, str_equal};

verus! {

/// How the core runs.
#[derive(Clone, Copy, Debug, PartialEq, Eq, Structural)]
pub enum CoreMode {
    Dev,
    Release,
}

/// How the overlay sidecar runs.
#[derive(Clone, Copy, Debug, PartialEq, Eq, Structural)]
pub enum OverlaySidecarMode {
    Dev,
    Release,
}

/// What a mode argument names.
#[derive(Clone, Copy, Debug, PartialEq, Eq, Structural)]
pub enum ModeArg {
    Dev,
    Release,
    /// A value that names no mode.
    Unknown,
}

/// What the value of a mode argument names; a missing value (or one that is
/// not a string) counts as `"release"`.
pub open spec fn mode_arg_spec(value: Option<Seq<char>>) -> ModeArg {
    match value {
        None => ModeArg::Release,
        Some(v) => if v == "dev"@ {
            ModeArg::Dev
        } else if v == "release"@ {
            ModeArg::Release
        } else {
            ModeArg::Unknown
        },
    }
}

/// What the value of a mode argument names.
pub fn read_mode_arg(value: Option<&str>) -> (r: ModeArg)
    ensures
        r == mode_arg_spec(opt_view(value)),
{
    match value {
        None => ModeArg::Release,
        Some(v) => if str_equal(v, "dev") {
            ModeArg::Dev
        } else if str_equal(v, "release") {
            ModeArg::Release
        } else {
            ModeArg::Unknown
        },
    }
}

/// The core mode that the value of `--core-mode` selects: dev for `"dev"`,
/// release for anything else (an unknown value falls back to release).
pub fn cli_core_mode(value: Option<&str>) -> (r: CoreMode)
    ensures
        r == if mode_arg_spec(opt_view(value)) == ModeArg::Dev {
            CoreMode::Dev
        } else {
            CoreMode::Release
        },
{
    match read_mode_arg(value) {
        ModeArg::Dev => CoreMode::Dev,
        _ => CoreMode::Release,
    }
}

/// The overlay sidecar mode that the value of `--overlay-sidecar-mode` selects:
/// dev for `"dev"`, release for anything else.
pub fn cli_sidecar_overlay_mode(value: Option<&str>) -> (r: OverlaySidecarMode)
    ensures
        r == if mode_arg_spec(opt_view(value)) == ModeArg::Dev {
            OverlaySidecarMode::Dev
        } else {
            OverlaySidecarMode::Release
        },
{
    match read_mode_arg(value) {
        ModeArg::Dev => OverlaySidecarMode::Dev,
        _ => OverlaySidecarMode::Release,
    }
}

} // verus!
