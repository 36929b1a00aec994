//! The argument vector handed to `run0`.
//!
//! | pkexec                 | run0                                      |
//! |------------------------|-------------------------------------------|
//! | `--user USER`          | `--user USER` (`root` when absent)        |
//! | `--keep-cwd` absent    | `--chdir <target home>`, when it is known |
//! | `--keep-cwd` present   | `--chdir <caller's cwd>`, when it is known|
//! | *(always)*             | `--setenv PKEXEC_UID=<caller uid>`        |
//! | `--run0-extra-arg ARG` | `ARG`                                     |
//! | `PROGRAM ARGS...`      | `-- PROGRAM ARGS...`                      |
//! | *(no PROGRAM)*         | `--via-shell`                             |

use vstd::prelude::*;
use vstd::utf8::valid_utf8;
use crate::bytes::{lit, byte_strings, owned, copy_bytes, copy_tail};
use crate::uid::{decimal, render_decimal, numeral_u32, law_decimal_round_trip};
use crate::user::{uid_spec, opt_bytes, current_uid, lookup_target_home, looked_up, target_of, is_caller_uid};
use crate::cli::{Opts, OptsView, Outcome, parse_spec, law_command_is_verbatim_suffix};

verus! {

/// The user that `run0` is asked to run as.
pub open spec fn target_user(o: OptsView) -> Seq<u8> {
    match o.user {
        Some(u) => u,
        None => lit("root"),
    }
}

/// The environment assignment `PKEXEC_UID=<uid>`.
pub open spec fn pkexec_uid_setting(uid: u32) -> Seq<u8> {
    lit("PKEXEC_UID=") + decimal(uid as nat)
}

/// The `--chdir` pair, present when there is a directory.
pub open spec fn chdir_args(chdir: Option<Seq<u8>>) -> Seq<Seq<u8>> {
    match chdir {
        Some(d) => seq![lit("--chdir"), d],
        None => seq![],
    }
}

/// The tail of the vector: `--via-shell` without a program, otherwise `--`
/// and the program with its arguments.
pub open spec fn command_args(command: Seq<Seq<u8>>) -> Seq<Seq<u8>> {
    if command.len() == 0 {
        seq![lit("--via-shell")]
    } else {
        seq![lit("--")] + command
    }
}

/// The argument vector for `run0`, given the directory to change to and the
/// caller's UID.
pub open spec fn run0_argv(o: OptsView, chdir: Option<Seq<u8>>, uid: u32) -> Seq<Seq<u8>> {
    seq![lit("--user"), target_user(o)] + chdir_args(chdir) + seq![
        lit("--setenv"),
        pkexec_uid_setting(uid),
    ] + o.run0_args + command_args(o.command)
}

/// The directory that `build_run0_argv` passes to `--chdir`: with
/// `--keep-cwd` exactly the caller's working directory as it was read;
/// otherwise what the user database yields for the target user (asked by
/// UID when the target spells one, else by name), which is never empty, and
/// nothing for a target that is no UID and that the database cannot be
/// asked about (not UTF-8, or holding a NUL byte).
pub open spec fn chdir_fits(o: OptsView, caller_cwd: Option<Seq<u8>>, chdir: Option<Seq<u8>>) -> bool {
    if o.keep_cwd {
        chdir == caller_cwd
    } else {
        &&& looked_up(target_of(target_user(o)), chdir)
        &&& chdir matches Some(h) ==> h.len() > 0
        &&& uid_spec(target_user(o)) is None && (!valid_utf8(target_user(o))
            || target_user(o).contains(0u8)) ==> chdir is None
    }
}

/// The program to run as `run0`: the value of `$RUN0_BIN` when it is set
/// and not empty, otherwise `run0` (found through `PATH`).
pub open spec fn run0_program_spec(from_env: Option<Seq<u8>>) -> Seq<u8> {
    match from_env {
        Some(p) => if p.len() > 0 { p } else { lit("run0") },
        None => lit("run0"),
    }
}

/// Chooses the `run0` binary from the value of `$RUN0_BIN` as read from the
/// environment (`None` when the variable is absent): that value when it is
/// not empty, otherwise `"run0"`.
pub fn run0_program(from_env: Option<Vec<u8>>) -> (r: Vec<u8>)
    ensures
        r@ == run0_program_spec(opt_bytes(from_env)),
{
    match from_env {
        Some(p) => if p.len() > 0 { p } else { owned("run0") },
        None => owned("run0"),
    }
}

/// The user that `run0` is asked to run as, as an owned byte string.
pub fn target_user_of(opts: &Opts) -> (r: Vec<u8>)
    ensures
        r@ == target_user(opts@),
{
    match &opts.user {
        Some(u) => copy_bytes(u.as_slice()),
        None => owned("root"),
    }
}

/// Appends owned copies of `items` to `v`.
fn push_all(v: &mut Vec<Vec<u8>>, items: &Vec<Vec<u8>>)
    ensures
        byte_strings(final(v)@) =~= byte_strings(old(v)@) + byte_strings(items@),
{
    let mut copies = copy_tail(items.as_slice(), 0);
    assert(byte_strings(items@).skip(0) =~= byte_strings(items@));
    let ghost before = v@;
    let ghost added = copies@;
    v.append(&mut copies);
    assert(byte_strings(v@) =~= byte_strings(before) + byte_strings(added));
}

/// Appends one byte string to `v`.
fn push_one(v: &mut Vec<Vec<u8>>, item: Vec<u8>)
    ensures
        byte_strings(final(v)@) =~= byte_strings(old(v)@).push(item@),
{
    let ghost before = v@;
    v.push(item);
    assert(byte_strings(v@) =~= byte_strings(before).push(item@));
}

/// Writes the argument vector for `run0` from the options, the directory
/// to change to (if any) and the caller's UID.  Order: `--user`, the
/// optional `--chdir`, `--setenv PKEXEC_UID=…`, the extra `run0`
/// arguments, then `--via-shell` or `--` with the command.
pub fn assemble_run0_argv(opts: &Opts, chdir: Option<Vec<u8>>, caller_uid: u32) -> (v: Vec<
    Vec<u8>,
>)
    ensures
        byte_strings(v@) == run0_argv(opts@, opt_bytes(chdir), caller_uid),
{
    let ghost o = opts@;
    let mut v: Vec<Vec<u8>> = Vec::new();
    assert(byte_strings(v@) =~= seq![]);
    push_one(&mut v, owned("--user"));
    push_one(&mut v, target_user_of(opts));
    assert(byte_strings(v@) =~= seq![lit("--user"), target_user(o)]);
    let ghost head = byte_strings(v@);
    let ghost dir = opt_bytes(chdir);
    match chdir {
        Some(d) => {
            push_one(&mut v, owned("--chdir"));
            push_one(&mut v, d);
        },
        None => {},
    }
    assert(byte_strings(v@) =~= head + chdir_args(dir));
    let ghost mid = byte_strings(v@);
    push_one(&mut v, owned("--setenv"));
    let mut setting = owned("PKEXEC_UID=");
    let mut digits = render_decimal(caller_uid);
    setting.append(&mut digits);
    push_one(&mut v, setting);
    assert(byte_strings(v@) =~= mid + seq![lit("--setenv"), pkexec_uid_setting(caller_uid)]);
    push_all(&mut v, &opts.run0_args);
    let ghost before_cmd = byte_strings(v@);
    if opts.command.len() == 0 {
        push_one(&mut v, owned("--via-shell"));
        assert(byte_strings(v@) =~= before_cmd + command_args(o.command));
    } else {
        push_one(&mut v, owned("--"));
        push_all(&mut v, &opts.command);
        assert(byte_strings(v@) =~= before_cmd + command_args(o.command));
    }
    v
}

/// Builds the argument vector for `run0`.
///
/// Without `--keep-cwd`, `--chdir` names the target user's home directory
/// when the user database knows it (pkexec runs the program there);
/// with `--keep-cwd`, it names the caller's working directory,
/// `caller_cwd`, when that could be read.  `PKEXEC_UID` is set to the
/// caller's real UID, as `current_uid` reports it, for programs that read
/// it.
pub fn build_run0_argv(opts: &Opts, caller_cwd: Option<Vec<u8>>) -> (v: Vec<Vec<u8>>)
    ensures
        exists|chdir: Option<Seq<u8>>, uid: u32|
            chdir_fits(opts@, opt_bytes(caller_cwd), chdir) && is_caller_uid(uid) && byte_strings(
                v@,
            ) == #[trigger] run0_argv(opts@, chdir, uid),
{
    let ghost cwd = opt_bytes(caller_cwd);
    let chdir = if opts.keep_cwd {
        caller_cwd
    } else {
        let target = target_user_of(opts);
        lookup_target_home(target.as_slice())
    };
    let ghost dir = opt_bytes(chdir);
    assert(chdir_fits(opts@, cwd, dir));
    let ask = current_uid;
    let uid: u32 = ask();
    assert(is_caller_uid(uid));
    let v = assemble_run0_argv(opts, chdir, uid);
    assert(byte_strings(v@) == run0_argv(opts@, dir, uid));
    v
}

/// Where `--setenv` stands in the `run0` vector: after `--user` and the
/// target, and after the `--chdir` pair when there is one.
pub open spec fn setenv_index(chdir: Option<Seq<u8>>) -> int {
    if chdir is Some {
        4
    } else {
        2
    }
}

/// The layout of the `run0` argument vector: `--user` and the target come
/// first; `--setenv` and the `PKEXEC_UID` assignment follow, after the
/// `--chdir` pair when there is one; then the extra `run0` arguments in
/// order; then `--via-shell` alone, or `--` and the command verbatim.
pub proof fn law_run0_argv_layout(o: OptsView, chdir: Option<Seq<u8>>, uid: u32)
    ensures
        ({
            let v = run0_argv(o, chdir, uid);
            let k: int = setenv_index(chdir);
            let r: int = o.run0_args.len() as int;
            let c: int = o.command.len() as int;
            &&& v[0] == lit("--user")
            &&& v[1] == target_user(o)
            &&& chdir matches Some(d) ==> v[2] == lit("--chdir") && v[3] == d
            &&& v[k] == lit("--setenv")
            &&& v[k + 1] == pkexec_uid_setting(uid)
            &&& v.subrange(k + 2, k + 2 + r) == o.run0_args
            &&& c == 0 ==> v.len() == k + 3 + r && v[k + 2 + r] == lit("--via-shell")
            &&& c > 0 ==> v.len() == k + 3 + r + c && v[k + 2 + r] == lit("--") && v.skip(k + 3 + r)
                == o.command
        }),
{
    let v = run0_argv(o, chdir, uid);
    let k: int = setenv_index(chdir);
    let r: int = o.run0_args.len() as int;
    assert(v.subrange(k + 2, k + 2 + r) =~= o.run0_args);
    if o.command.len() > 0 {
        assert(v.skip(k + 3 + r) =~= o.command);
    }
}

/// The `PKEXEC_UID` assignment carries the caller's UID in decimal, and
/// reading the digits after `PKEXEC_UID=` gives that UID back.
pub proof fn law_pkexec_uid_reads_back(uid: u32)
    ensures
        pkexec_uid_setting(uid).take(lit("PKEXEC_UID=").len() as int) == lit("PKEXEC_UID="),
        numeral_u32(pkexec_uid_setting(uid).skip(lit("PKEXEC_UID=").len() as int)) == Some(uid),
{
    let p = lit("PKEXEC_UID=");
    assert(pkexec_uid_setting(uid).take(p.len() as int) =~= p);
    assert(pkexec_uid_setting(uid).skip(p.len() as int) =~= decimal(uid as nat));
    law_decimal_round_trip(uid);
}

/// From command line to `run0`: when a command line with a program is
/// accepted, the `run0` vector ends with `--` followed by the last
/// arguments of that command line, unchanged; without a program it ends
/// with `--via-shell`.
pub proof fn law_command_reaches_run0(argv: Seq<Seq<u8>>, chdir: Option<Seq<u8>>, uid: u32)
    ensures
        parse_spec(argv) matches Outcome::Run(o) ==> {
            let v = run0_argv(o, chdir, uid);
            let c: int = o.command.len() as int;
            &&& c > 0 ==> v[v.len() - c - 1] == lit("--") && v.skip(v.len() - c) == argv.skip(
                argv.len() - c,
            )
            &&& c == 0 ==> v.last() == lit("--via-shell")
        },
{
    law_command_is_verbatim_suffix(argv);
    if let Outcome::Run(o) = parse_spec(argv) {
        law_run0_argv_layout(o, chdir, uid);
    }
}

/// `$RUN0_BIN` overrides the binary whenever it holds anything: every
/// non-empty value is used exactly as given, be it a path or a name found
/// through `PATH`; only an unset or empty variable means `run0`.
pub proof fn law_run0_bin_override(p: Seq<u8>)
    ensures
        p.len() > 0 ==> run0_program_spec(Some(p)) == p,
        run0_program_spec(Some(Seq::<u8>::empty())) == lit("run0"),
        run0_program_spec(None) == lit("run0"),
{
}

} // verus!
