//! A `pkexec(1)` front end that hands the work to `run0(1)`.
//!
//! The library decides everything the shim does: how a `pkexec` command
//! line is read ([`cli`]), how a user specifier is understood and where the
//! target user's home directory comes from ([`user`], [`uid`]), and which
//! argument vector `run0` receives ([`run0`]).  Arguments are byte strings,
//! as the kernel hands them over.

pub mod bytes;
pub mod uid;
pub mod user;
pub mod cli;
pub mod run0;

pub use cli::{Opts, ParseOutcome, ArgKind, parse_args_from, classify_arg};
pub use user::{
    Target, parse_uid_spec, user_is_root, resolve_target, usable_home, current_uid,
    lookup_home_by_uid, lookup_home_by_name, lookup_target_home,
};
pub use run0::{assemble_run0_argv, build_run0_argv, run0_program, target_user_of};
pub use uid::{parse_numeral_u32, render_decimal};
