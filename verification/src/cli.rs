//! The `pkexec` command line.
//!
//! ```text
//! pkexec [OPTIONS] [PROGRAM] [ARGUMENTS...]
//! ```
//!
//! Options are read up to the first operand or `--`; everything from there
//! on is the program and its arguments, taken verbatim.

use vstd::prelude::*;
use vstd::slice::slice_subrange;
use vstd::utf8::{valid_utf8, valid_utf8_concat, encode_utf8_valid_utf8};
use crate::bytes::{lit, lemma_ascii_lit, byte_strings, has_prefix, bytes_eq, starts_with, copy_bytes, copy_tail, is_utf8};

verus! {

/// Parsed representation of the pkexec command line.
#[derive(Debug, Clone, PartialEq, Eq)]
pub struct Opts {
    /// When `true` (`--keep-cwd`), run in the caller's working directory
    /// rather than the target user's home directory.
    pub keep_cwd: bool,
    /// Target user name, numeric UID, or `#UID` form; `root` when absent.
    pub user: Option<Vec<u8>>,
    /// Extra arguments for `run0`, from `--run0-extra-arg`, in order.
    pub run0_args: Vec<Vec<u8>>,
    /// The program and its arguments; when empty, `run0` starts a shell.
    pub command: Vec<Vec<u8>>,
}

/// The mathematical form of [`Opts`].
#[verifier::ext_equal]
pub struct OptsView {
    pub keep_cwd: bool,
    pub user: Option<Seq<u8>>,
    pub run0_args: Seq<Seq<u8>>,
    pub command: Seq<Seq<u8>>,
}

impl View for Opts {
    type V = OptsView;

    open spec fn view(&self) -> OptsView {
        OptsView {
            keep_cwd: self.keep_cwd,
            user: match self.user {
                Some(u) => Some(u@),
                None => None,
            },
            run0_args: byte_strings(self.run0_args@),
            command: byte_strings(self.command@),
        }
    }
}

/// What one command-line argument means to the parser.
pub enum ArgKind {
    /// `--version`
    ShowVersion,
    /// `--help`
    ShowHelp,
    /// `--`: what follows is the program and its arguments.
    EndOfOptions,
    /// `--disable-internal-agent`, accepted and ignored.
    Ignored,
    /// `--keep-cwd`
    KeepCwd,
    /// `--user`, whose value is the next argument.
    UserFlag,
    /// `--user=VALUE`
    UserInline(Vec<u8>),
    /// `--run0-extra-arg`, whose value is the next argument.
    Run0ArgFlag,
    /// `--run0-extra-arg=VALUE`
    Run0ArgInline(Vec<u8>),
    /// Anything else: the program, which ends option parsing.
    Operand,
}

/// The mathematical form of [`ArgKind`].
pub enum ArgClass {
    ShowVersion,
    ShowHelp,
    EndOfOptions,
    Ignored,
    KeepCwd,
    UserFlag,
    UserInline(Seq<u8>),
    Run0ArgFlag,
    Run0ArgInline(Seq<u8>),
    Operand,
}

impl View for ArgKind {
    type V = ArgClass;

    open spec fn view(&self) -> ArgClass {
        match self {
            ArgKind::ShowVersion => ArgClass::ShowVersion,
            ArgKind::ShowHelp => ArgClass::ShowHelp,
            ArgKind::EndOfOptions => ArgClass::EndOfOptions,
            ArgKind::Ignored => ArgClass::Ignored,
            ArgKind::KeepCwd => ArgClass::KeepCwd,
            ArgKind::UserFlag => ArgClass::UserFlag,
            ArgKind::UserInline(v) => ArgClass::UserInline(v@),
            ArgKind::Run0ArgFlag => ArgClass::Run0ArgFlag,
            ArgKind::Run0ArgInline(v) => ArgClass::Run0ArgInline(v@),
            ArgKind::Operand => ArgClass::Operand,
        }
    }
}

/// What an argument means, given whether it is valid UTF-8.  The `=` forms
/// are recognised only in valid UTF-8; the value is everything after the
/// first `=`.
pub open spec fn arg_class(a: Seq<u8>, utf8: bool) -> ArgClass {
    if a == lit("--version") {
        ArgClass::ShowVersion
    } else if a == lit("--help") {
        ArgClass::ShowHelp
    } else if a == lit("--") {
        ArgClass::EndOfOptions
    } else if a == lit("--disable-internal-agent") {
        ArgClass::Ignored
    } else if a == lit("--keep-cwd") {
        ArgClass::KeepCwd
    } else if a == lit("--user") {
        ArgClass::UserFlag
    } else if utf8 && has_prefix(a, lit("--user=")) {
        ArgClass::UserInline(a.skip(lit("--user=").len() as int))
    } else if a == lit("--run0-extra-arg") {
        ArgClass::Run0ArgFlag
    } else if utf8 && has_prefix(a, lit("--run0-extra-arg=")) {
        ArgClass::Run0ArgInline(a.skip(lit("--run0-extra-arg=").len() as int))
    } else {
        ArgClass::Operand
    }
}

/// The result of reading a command line.
pub enum ParseOutcome {
    /// Run `run0` with these options.
    Run(Opts),
    /// `--help` was given: print the help text and exit with status 0.
    ShowHelp,
    /// `--version` was given: print the version and exit with status 0.
    ShowVersion,
    /// `--user` ended the command line: report it and exit with status 2.
    MissingUserValue,
    /// `--run0-extra-arg` ended the command line: report it and exit with
    /// status 2.
    MissingRun0ArgValue,
}

/// The mathematical form of [`ParseOutcome`].
#[verifier::ext_equal]
pub enum Outcome {
    Run(OptsView),
    ShowHelp,
    ShowVersion,
    MissingUserValue,
    MissingRun0ArgValue,
}

impl View for ParseOutcome {
    type V = Outcome;

    open spec fn view(&self) -> Outcome {
        match self {
            ParseOutcome::Run(o) => Outcome::Run(o@),
            ParseOutcome::ShowHelp => Outcome::ShowHelp,
            ParseOutcome::ShowVersion => Outcome::ShowVersion,
            ParseOutcome::MissingUserValue => Outcome::MissingUserValue,
            ParseOutcome::MissingRun0ArgValue => Outcome::MissingRun0ArgValue,
        }
    }
}

/// No option given.
pub open spec fn default_opts() -> OptsView {
    OptsView { keep_cwd: false, user: None, run0_args: seq![], command: seq![] }
}

/// Reads the arguments `rest`, with the options gathered so far in `acc`.
pub open spec fn parse_rest(rest: Seq<Seq<u8>>, acc: OptsView) -> Outcome
    decreases rest.len(),
{
    if rest.len() == 0 {
        Outcome::Run(acc)
    } else {
        let next = rest.drop_first();
        match arg_class(rest[0], valid_utf8(rest[0])) {
            ArgClass::ShowVersion => Outcome::ShowVersion,
            ArgClass::ShowHelp => Outcome::ShowHelp,
            ArgClass::EndOfOptions => Outcome::Run(OptsView { command: next, ..acc }),
            ArgClass::Ignored => parse_rest(next, acc),
            ArgClass::KeepCwd => parse_rest(next, OptsView { keep_cwd: true, ..acc }),
            ArgClass::UserFlag => if next.len() == 0 {
                Outcome::MissingUserValue
            } else {
                parse_rest(next.drop_first(), OptsView { user: Some(next[0]), ..acc })
            },
            ArgClass::UserInline(v) => parse_rest(next, OptsView { user: Some(v), ..acc }),
            ArgClass::Run0ArgFlag => if next.len() == 0 {
                Outcome::MissingRun0ArgValue
            } else {
                parse_rest(
                    next.drop_first(),
                    OptsView { run0_args: acc.run0_args.push(next[0]), ..acc },
                )
            },
            ArgClass::Run0ArgInline(v) => parse_rest(
                next,
                OptsView { run0_args: acc.run0_args.push(v), ..acc },
            ),
            ArgClass::Operand => Outcome::Run(OptsView { command: rest, ..acc }),
        }
    }
}

/// What a whole command line means; `argv[0]`, the program name, is skipped.
pub open spec fn parse_spec(argv: Seq<Seq<u8>>) -> Outcome {
    if argv.len() == 0 {
        Outcome::Run(default_opts())
    } else {
        parse_rest(argv.drop_first(), default_opts())
    }
}

/// Says what one argument means, given whether it is valid UTF-8.
pub fn classify_arg(arg: &[u8], utf8: bool) -> (r: ArgKind)
    ensures
        r@ == arg_class(arg@, utf8),
{
    if bytes_eq(arg, "--version".as_bytes()) {
        ArgKind::ShowVersion
    } else if bytes_eq(arg, "--help".as_bytes()) {
        ArgKind::ShowHelp
    } else if bytes_eq(arg, "--".as_bytes()) {
        ArgKind::EndOfOptions
    } else if bytes_eq(arg, "--disable-internal-agent".as_bytes()) {
        ArgKind::Ignored
    } else if bytes_eq(arg, "--keep-cwd".as_bytes()) {
        ArgKind::KeepCwd
    } else if bytes_eq(arg, "--user".as_bytes()) {
        ArgKind::UserFlag
    } else if utf8 && starts_with(arg, "--user=".as_bytes()) {
        let n: usize = "--user=".as_bytes().len();
        ArgKind::UserInline(copy_bytes(slice_subrange(arg, n, arg.len())))
    } else if bytes_eq(arg, "--run0-extra-arg".as_bytes()) {
        ArgKind::Run0ArgFlag
    } else if utf8 && starts_with(arg, "--run0-extra-arg=".as_bytes()) {
        let n: usize = "--run0-extra-arg=".as_bytes().len();
        ArgKind::Run0ArgInline(copy_bytes(slice_subrange(arg, n, arg.len())))
    } else {
        ArgKind::Operand
    }
}

/// The options gathered so far, with no command yet.
pub open spec fn gathered(keep_cwd: bool, user: Option<Vec<u8>>, run0_args: Seq<Vec<u8>>) -> OptsView {
    OptsView {
        keep_cwd: keep_cwd,
        user: match user {
            Some(u) => Some(u@),
            None => None,
        },
        run0_args: byte_strings(run0_args),
        command: seq![],
    }
}

/// Parses a command line into options, or into the request to print help
/// or the version, or into the error of a flag that lacks its value.
///
/// `argv[0]` is the program name and is skipped.  `--user` and
/// `--run0-extra-arg` take their value from the next argument or after `=`;
/// the last `--user` wins and every `--run0-extra-arg` is kept in order.  The
/// first argument that is no option, or whatever follows `--`, starts the
/// command, which is taken verbatim.
pub fn parse_args_from(argv: &Vec<Vec<u8>>) -> (r: ParseOutcome)
    ensures
        r@ == parse_spec(byte_strings(argv@)),
{
    let ghost all = byte_strings(argv@);
    let mut keep_cwd = false;
    let mut user: Option<Vec<u8>> = None;
    let mut run0_args: Vec<Vec<u8>> = Vec::new();
    if argv.len() == 0 {
        assert(byte_strings(run0_args@) =~= seq![]);
        return ParseOutcome::Run(Opts { keep_cwd, user, run0_args, command: Vec::new() });
    }
    let mut i: usize = 1;
    proof {
        assert(all.skip(1) =~= all.drop_first());
        assert(byte_strings(run0_args@) =~= seq![]);
    }
    while i < argv.len()
        invariant
            1 <= i <= argv@.len(),
            all == byte_strings(argv@),
            parse_spec(all) == parse_rest(all.skip(i as int), gathered(keep_cwd, user, run0_args@)),
        decreases argv@.len() - i,
    {
        let ghost rest = all.skip(i as int);
        let ghost acc = gathered(keep_cwd, user, run0_args@);
        proof {
            assert(rest[0] == argv@[i as int]@);
            assert(rest.drop_first() =~= all.skip(i + 1));
        }
        let arg = argv[i].as_slice();
        let utf8 = is_utf8(arg);
        match classify_arg(arg, utf8) {
            ArgKind::ShowVersion => {
                return ParseOutcome::ShowVersion;
            },
            ArgKind::ShowHelp => {
                return ParseOutcome::ShowHelp;
            },
            ArgKind::EndOfOptions => {
                let command = copy_tail(argv.as_slice(), i + 1);
                let opts = Opts { keep_cwd, user, run0_args, command };
                assert(opts@ == OptsView { command: rest.drop_first(), ..acc });
                return ParseOutcome::Run(opts);
            },
            ArgKind::Ignored => {},
            ArgKind::KeepCwd => {
                keep_cwd = true;
            },
            ArgKind::UserFlag => {
                if i + 1 >= argv.len() {
                    return ParseOutcome::MissingUserValue;
                }
                proof {
                    assert(rest.drop_first()[0] == argv@[i + 1]@);
                    assert(rest.drop_first().drop_first() =~= all.skip(i + 2));
                }
                user = Some(copy_bytes(argv[i + 1].as_slice()));
                i = i + 1;
            },
            ArgKind::UserInline(v) => {
                user = Some(v);
            },
            ArgKind::Run0ArgFlag => {
                if i + 1 >= argv.len() {
                    return ParseOutcome::MissingRun0ArgValue;
                }
                proof {
                    assert(rest.drop_first()[0] == argv@[i + 1]@);
                    assert(rest.drop_first().drop_first() =~= all.skip(i + 2));
                }
                run0_args.push(copy_bytes(argv[i + 1].as_slice()));
                proof {
                    assert(byte_strings(run0_args@) =~= acc.run0_args.push(rest.drop_first()[0]));
                }
                i = i + 1;
            },
            ArgKind::Run0ArgInline(v) => {
                let ghost val = v@;
                run0_args.push(v);
                proof {
                    assert(byte_strings(run0_args@) =~= acc.run0_args.push(val));
                }
            },
            ArgKind::Operand => {
                let command = copy_tail(argv.as_slice(), i);
                let opts = Opts { keep_cwd, user, run0_args, command };
                assert(opts@ == OptsView { command: rest, ..acc });
                return ParseOutcome::Run(opts);
            },
        }
        i = i + 1;
    }
    assert(all.skip(i as int) =~= Seq::<Seq<u8>>::empty());
    ParseOutcome::Run(Opts { keep_cwd, user, run0_args, command: Vec::new() })
}

/// Whatever command a parse ends with lies at the end of the rest it was
/// given, when the options gathered so far carry none.
proof fn lemma_rest_command_suffix(rest: Seq<Seq<u8>>, acc: OptsView)
    requires
        acc.command.len() == 0,
    ensures
        parse_rest(rest, acc) matches Outcome::Run(o) ==> o.command.len() <= rest.len()
            && o.command =~= rest.skip(rest.len() - o.command.len()),
    decreases rest.len(),
{
    if rest.len() == 0 {
        assert(rest.skip(0) =~= rest);
    } else {
        let next = rest.drop_first();
        assert forall|j: int| 0 <= j <= next.len() implies #[trigger] next.skip(j) =~= rest.skip(j + 1) by {}
        match arg_class(rest[0], valid_utf8(rest[0])) {
            ArgClass::EndOfOptions => {},
            ArgClass::Ignored => {
                lemma_rest_command_suffix(next, acc);
            },
            ArgClass::KeepCwd => {
                lemma_rest_command_suffix(next, OptsView { keep_cwd: true, ..acc });
            },
            ArgClass::UserFlag => {
                if next.len() > 0 {
                    let after = next.drop_first();
                    assert forall|j: int| 0 <= j <= after.len() implies #[trigger] after.skip(j) =~= rest.skip(j + 2) by {}
                    lemma_rest_command_suffix(after, OptsView { user: Some(next[0]), ..acc });
                }
            },
            ArgClass::UserInline(v) => {
                lemma_rest_command_suffix(next, OptsView { user: Some(v), ..acc });
            },
            ArgClass::Run0ArgFlag => {
                if next.len() > 0 {
                    let after = next.drop_first();
                    assert forall|j: int| 0 <= j <= after.len() implies #[trigger] after.skip(j) =~= rest.skip(j + 2) by {}
                    lemma_rest_command_suffix(
                        after,
                        OptsView { run0_args: acc.run0_args.push(next[0]), ..acc },
                    );
                }
            },
            ArgClass::Run0ArgInline(v) => {
                lemma_rest_command_suffix(next, OptsView { run0_args: acc.run0_args.push(v), ..acc });
            },
            ArgClass::Operand => {
                assert(rest.skip(0) =~= rest);
            },
            _ => {},
        }
    }
}

/// The program and its arguments are forwarded verbatim: whenever a command
/// line is accepted, its command is exactly the last arguments of `argv`,
/// in order and unchanged.
pub proof fn law_command_is_verbatim_suffix(argv: Seq<Seq<u8>>)
    ensures
        parse_spec(argv) matches Outcome::Run(o) ==> o.command.len() <= argv.len()
            && o.command == argv.skip(argv.len() - o.command.len()),
{
    if argv.len() > 0 {
        let rest = argv.drop_first();
        lemma_rest_command_suffix(rest, default_opts());
        assert forall|j: int| 0 <= j <= rest.len() implies #[trigger] rest.skip(j) =~= argv.skip(j + 1) by {}
    }
}

/// Everything after `--` is the command, even what looks like an option.
pub proof fn law_double_dash_ends_options(argv0: Seq<u8>, rest: Seq<Seq<u8>>)
    ensures
        parse_spec(seq![argv0, lit("--")] + rest) == Outcome::Run(
            OptsView { command: rest, ..default_opts() },
        ),
{
    reveal_strlit("--");
    reveal_strlit("--version");
    reveal_strlit("--help");
    lemma_ascii_lit("--");
    lemma_ascii_lit("--version");
    lemma_ascii_lit("--help");
    let argv = seq![argv0, lit("--")] + rest;
    assert(argv.drop_first()[0] == lit("--"));
    assert(lit("--") != lit("--version"));
    assert(lit("--") != lit("--help"));
    assert(argv.drop_first().drop_first() =~= rest);
}

/// The options that `acc` holds, followed by those read into `out`: a
/// later `--keep-cwd` keeps it set, a later `--user` replaces an earlier
/// one, and `run0` arguments are appended in order.
pub open spec fn gathered_then(acc: OptsView, out: Outcome) -> Outcome {
    match out {
        Outcome::Run(o) => Outcome::Run(
            OptsView {
                keep_cwd: acc.keep_cwd || o.keep_cwd,
                user: if o.user is Some {
                    o.user
                } else {
                    acc.user
                },
                run0_args: acc.run0_args + o.run0_args,
                command: o.command,
            },
        ),
        other => other,
    }
}

/// Reading on after `acc` and then after `b` is reading on after both.
proof fn lemma_gathered_twice(acc: OptsView, b: OptsView, out: Outcome)
    ensures
        gathered_then(acc, gathered_then(b, out)) =~= gathered_then(
            OptsView {
                keep_cwd: acc.keep_cwd || b.keep_cwd,
                user: if b.user is Some {
                    b.user
                } else {
                    acc.user
                },
                run0_args: acc.run0_args + b.run0_args,
                command: seq![],
            },
            out,
        ),
{
    if let Outcome::Run(o) = out {
        assert(acc.run0_args + (b.run0_args + o.run0_args) =~= (acc.run0_args + b.run0_args)
            + o.run0_args);
    }
}

/// Options accumulate: reading arguments after some options were gathered
/// gives what reading them from scratch gives, with the earlier options
/// underneath.  A later `--keep-cwd` keeps it set, the last `--user` wins,
/// and every `--run0-extra-arg` value is kept, in order, after the earlier
/// ones.
pub proof fn law_options_accumulate(rest: Seq<Seq<u8>>, acc: OptsView)
    requires
        acc.command.len() == 0,
    ensures
        parse_rest(rest, acc) =~= gathered_then(acc, parse_rest(rest, default_opts())),
    decreases rest.len(),
{
    let d = default_opts();
    if rest.len() == 0 {
        assert(acc.run0_args + d.run0_args =~= acc.run0_args);
    } else {
        let next = rest.drop_first();
        match arg_class(rest[0], valid_utf8(rest[0])) {
            ArgClass::EndOfOptions => {
                assert(acc.run0_args + d.run0_args =~= acc.run0_args);
            },
            ArgClass::Operand => {
                assert(acc.run0_args + d.run0_args =~= acc.run0_args);
            },
            ArgClass::Ignored => {
                law_options_accumulate(next, acc);
            },
            ArgClass::KeepCwd => {
                let a2 = OptsView { keep_cwd: true, ..acc };
                let b2 = OptsView { keep_cwd: true, ..d };
                law_options_accumulate(next, a2);
                law_options_accumulate(next, b2);
                lemma_gathered_twice(acc, b2, parse_rest(next, d));
                assert(acc.run0_args + b2.run0_args =~= a2.run0_args);
            },
            ArgClass::UserFlag => {
                if next.len() > 0 {
                    let after = next.drop_first();
                    let a2 = OptsView { user: Some(next[0]), ..acc };
                    let b2 = OptsView { user: Some(next[0]), ..d };
                    law_options_accumulate(after, a2);
                    law_options_accumulate(after, b2);
                    lemma_gathered_twice(acc, b2, parse_rest(after, d));
                    assert(acc.run0_args + b2.run0_args =~= a2.run0_args);
                }
            },
            ArgClass::UserInline(v) => {
                let a2 = OptsView { user: Some(v), ..acc };
                let b2 = OptsView { user: Some(v), ..d };
                law_options_accumulate(next, a2);
                law_options_accumulate(next, b2);
                lemma_gathered_twice(acc, b2, parse_rest(next, d));
                assert(acc.run0_args + b2.run0_args =~= a2.run0_args);
            },
            ArgClass::Run0ArgFlag => {
                if next.len() > 0 {
                    let after = next.drop_first();
                    let a2 = OptsView { run0_args: acc.run0_args.push(next[0]), ..acc };
                    let b2 = OptsView { run0_args: d.run0_args.push(next[0]), ..d };
                    law_options_accumulate(after, a2);
                    law_options_accumulate(after, b2);
                    lemma_gathered_twice(acc, b2, parse_rest(after, d));
                    assert(acc.run0_args + b2.run0_args =~= a2.run0_args);
                }
            },
            ArgClass::Run0ArgInline(v) => {
                let a2 = OptsView { run0_args: acc.run0_args.push(v), ..acc };
                let b2 = OptsView { run0_args: d.run0_args.push(v), ..d };
                law_options_accumulate(next, a2);
                law_options_accumulate(next, b2);
                lemma_gathered_twice(acc, b2, parse_rest(next, d));
                assert(acc.run0_args + b2.run0_args =~= a2.run0_args);
            },
            _ => {},
        }
    }
}

/// `--user` and `--run0-extra-arg` are read as the flags they are, and
/// `--user=v` and `--run0-extra-arg=v`, for UTF-8 `v`, as their values.
proof fn lemma_option_classes(v: Seq<u8>)
    ensures
        arg_class(lit("--user"), valid_utf8(lit("--user"))) == ArgClass::UserFlag,
        arg_class(lit("--run0-extra-arg"), valid_utf8(lit("--run0-extra-arg")))
            == ArgClass::Run0ArgFlag,
        valid_utf8(v) ==> valid_utf8(lit("--user=") + v) && arg_class(lit("--user=") + v, true)
            == ArgClass::UserInline(v),
        valid_utf8(v) ==> valid_utf8(lit("--run0-extra-arg=") + v) && arg_class(
            lit("--run0-extra-arg=") + v,
            true,
        ) == ArgClass::Run0ArgInline(v),
{
    reveal_strlit("--version");
    reveal_strlit("--help");
    reveal_strlit("--");
    reveal_strlit("--disable-internal-agent");
    reveal_strlit("--keep-cwd");
    reveal_strlit("--user");
    reveal_strlit("--user=");
    reveal_strlit("--run0-extra-arg");
    reveal_strlit("--run0-extra-arg=");
    lemma_ascii_lit("--version");
    lemma_ascii_lit("--help");
    lemma_ascii_lit("--");
    lemma_ascii_lit("--disable-internal-agent");
    lemma_ascii_lit("--keep-cwd");
    lemma_ascii_lit("--user");
    lemma_ascii_lit("--user=");
    lemma_ascii_lit("--run0-extra-arg");
    lemma_ascii_lit("--run0-extra-arg=");
    let user = lit("--user");
    let extra = lit("--run0-extra-arg");
    assert(user[2] != lit("--version")[2]);
    assert(user[2] != lit("--help")[2]);
    assert(user[2] != lit("--disable-internal-agent")[2]);
    assert(user[2] != lit("--keep-cwd")[2]);
    assert(extra[2] != lit("--version")[2]);
    assert(extra[2] != lit("--disable-internal-agent")[2]);
    assert(extra[2] != lit("--keep-cwd")[2]);
    assert(extra[2] != user[2]);
    assert(!has_prefix(extra, lit("--user=")) && !has_prefix(user, lit("--user="))) by {
        assert(extra.take(7)[2] != lit("--user=")[2]);
        assert(user.len() < lit("--user=").len());
    }
    if valid_utf8(v) {
        encode_utf8_valid_utf8("--user="@);
        encode_utf8_valid_utf8("--run0-extra-arg="@);
        valid_utf8_concat(lit("--user="), v);
        valid_utf8_concat(lit("--run0-extra-arg="), v);
        let a = lit("--user=") + v;
        let b = lit("--run0-extra-arg=") + v;
        assert(a[2] == lit("--user=")[2]);
        assert(b[2] == lit("--run0-extra-arg=")[2]);
        assert(a.len() >= 7 && b.len() >= 17);
        assert(a[2] != lit("--version")[2]);
        assert(a[2] != lit("--disable-internal-agent")[2]);
        assert(a[2] != lit("--keep-cwd")[2]);
        assert(a[2] != extra[2]);
        assert(a.take(7) =~= lit("--user="));
        assert(a.skip(7) =~= v);
        assert(b[2] != lit("--disable-internal-agent")[2]);
        assert(b.take(7)[2] != lit("--user=")[2]);
        assert(b.take(17) =~= lit("--run0-extra-arg="));
        assert(b.skip(17) =~= v);
    }
}

/// A command line seen after its program name.
proof fn lemma_after_program(p: Seq<u8>, x: Seq<Seq<u8>>)
    ensures
        parse_spec(seq![p] + x) == parse_rest(x, default_opts()),
{
    assert((seq![p] + x).drop_first() =~= x);
}

/// Every `--run0-extra-arg` value is kept, in either form: it comes after
/// the values gathered before it (`acc`) and before those of the options
/// that follow it.
pub proof fn law_run0_arg_kept(acc: OptsView, a: Seq<u8>, rest: Seq<Seq<u8>>)
    requires
        acc.command.len() == 0,
    ensures
        parse_rest(rest, default_opts()) matches Outcome::Run(o) ==> (parse_rest(
            seq![lit("--run0-extra-arg"), a] + rest,
            acc,
        ) matches Outcome::Run(o2) && o2.run0_args == acc.run0_args.push(a) + o.run0_args),
        valid_utf8(a) ==> (parse_rest(rest, default_opts()) matches Outcome::Run(o) ==> (parse_rest(
            seq![lit("--run0-extra-arg=") + a] + rest,
            acc,
        ) matches Outcome::Run(o2) && o2.run0_args == acc.run0_args.push(a) + o.run0_args)),
{
    lemma_option_classes(a);
    let flag = seq![lit("--run0-extra-arg"), a] + rest;
    assert(flag[0] == lit("--run0-extra-arg"));
    assert(flag.drop_first()[0] == a);
    assert(flag.drop_first().drop_first() =~= rest);
    let a2 = OptsView { run0_args: acc.run0_args.push(a), ..acc };
    law_options_accumulate(rest, a2);
    if valid_utf8(a) {
        let inline = seq![lit("--run0-extra-arg=") + a] + rest;
        assert(inline[0] == lit("--run0-extra-arg=") + a);
        assert(inline.drop_first() =~= rest);
    }
}

/// Several `--run0-extra-arg` values are all kept, in the order given.
pub proof fn law_run0_args_in_order(p: Seq<u8>, a: Seq<u8>, b: Seq<u8>)
    ensures
        parse_spec(seq![p, lit("--run0-extra-arg"), a, lit("--run0-extra-arg"), b])
            == Outcome::Run(OptsView { run0_args: seq![a, b], ..default_opts() }),
{
    let x = seq![lit("--run0-extra-arg"), a, lit("--run0-extra-arg"), b];
    assert(seq![p, lit("--run0-extra-arg"), a, lit("--run0-extra-arg"), b] =~= seq![p] + x);
    lemma_after_program(p, x);
    let tail = seq![lit("--run0-extra-arg"), b];
    let empty = Seq::<Seq<u8>>::empty();
    let d = default_opts();
    let one = OptsView { run0_args: d.run0_args.push(a), ..d };
    let two = OptsView { run0_args: one.run0_args.push(b), ..one };
    lemma_option_classes(a);
    assert(x[0] == lit("--run0-extra-arg"));
    assert(x.drop_first()[0] == a);
    assert(x.drop_first().drop_first() =~= tail);
    assert(parse_rest(x, d) == parse_rest(tail, one));
    assert(tail[0] == lit("--run0-extra-arg"));
    assert(tail.drop_first()[0] == b);
    assert(tail.drop_first().drop_first() =~= empty);
    assert(parse_rest(tail, one) == parse_rest(empty, two));
    assert(two =~= OptsView { run0_args: seq![a, b], ..d });
}

/// The last `--user` wins, in either form: when the options after it name
/// no user, the user is its value, whatever `--user` came before (`acc`).
pub proof fn law_last_user_wins(acc: OptsView, v: Seq<u8>, rest: Seq<Seq<u8>>)
    requires
        acc.command.len() == 0,
    ensures
        parse_rest(rest, default_opts()) matches Outcome::Run(o) ==> (o.user is None ==> (parse_rest(
            seq![lit("--user"), v] + rest,
            acc,
        ) matches Outcome::Run(o2) && o2.user == Some(v))),
        valid_utf8(v) ==> (parse_rest(rest, default_opts()) matches Outcome::Run(o) ==> (o.user
            is None ==> (parse_rest(seq![lit("--user=") + v] + rest, acc) matches Outcome::Run(o2)
            && o2.user == Some(v)))),
        parse_rest(rest, default_opts()) matches Outcome::Run(o) ==> (o.user is Some ==> (parse_rest(
            seq![lit("--user"), v] + rest,
            acc,
        ) matches Outcome::Run(o2) && o2.user == o.user)),
{
    lemma_option_classes(v);
    let flag = seq![lit("--user"), v] + rest;
    assert(flag[0] == lit("--user"));
    assert(flag.drop_first()[0] == v);
    assert(flag.drop_first().drop_first() =~= rest);
    law_options_accumulate(rest, OptsView { user: Some(v), ..acc });
    if valid_utf8(v) {
        let inline = seq![lit("--user=") + v] + rest;
        assert(inline[0] == lit("--user=") + v);
        assert(inline.drop_first() =~= rest);
    }
}

} // verus!
