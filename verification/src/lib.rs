//! A terminal card for a project: repository state, toolchain, code size,
//! coverage and machine readings, rendered with a theme.
pub mod git;
pub mod hook;
pub mod system;
pub mod telemetry;
pub mod text;
pub mod theme;
