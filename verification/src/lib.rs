//! The decision logic of OyasumiVR's core and overlay sidecar.
pub mod clock;
pub mod decimal;
pub mod modes;
pub mod openxr;
pub mod process;
pub mod session_bus;
pub mod sidecar;
pub mod sounds;
pub mod system_report;
pub mod text;
pub mod vrchat;
