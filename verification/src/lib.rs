//! Decisions of a workstation installer for an EDA teaching lab.
//!
//! Every procedure of the installer is a state machine: it takes the reply to its last
//! request and gives log lines with the next request or the result. The functions that
//! bear a procedure's name start it, `step` takes it one turn further, and the model's
//! `after` says exactly what that turn is.

pub mod archives;
pub mod bundle_laws;
pub mod bundles;
pub mod cadence;
pub mod cadence_course;
pub mod cadence_laws;
pub mod cli;
pub mod exchange;
pub mod gtar;
pub mod gtar_laws;
pub mod install;
pub mod install_laws;
pub mod number;
pub mod order;
pub mod password;
pub mod path;
pub mod places;
pub mod preinstall;
pub mod preinstall_laws;
pub mod run;
pub mod run_laws;
pub mod second_run;
pub mod session;
pub mod session_laws;
pub mod shell;
pub mod shell_laws;
pub mod status_laws;
pub mod strip;
pub mod strip_laws;
pub mod suites;
pub mod text;
pub mod text_laws;
pub mod tool_names;
pub mod unwrap;
pub mod user_laws;
pub mod user_list;
pub mod user_setup;
pub mod users;
pub mod vnc;
pub mod vnc_grant;
pub mod vnc_grant_laws;
pub mod vnc_laws;
