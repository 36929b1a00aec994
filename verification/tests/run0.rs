use run0_pkexec_shim::{
    assemble_run0_argv, build_run0_argv, current_uid, lookup_target_home, render_decimal,
    run0_program, target_user_of, Opts,
};

fn b(s: &str) -> Vec<u8> {
    s.as_bytes().to_vec()
}

fn opts(keep_cwd: bool, user: Option<&str>, run0_args: &[&str], command: &[&str]) -> Opts {
    Opts {
        keep_cwd,
        user: user.map(b),
        run0_args: run0_args.iter().map(|s| b(s)).collect(),
        command: command.iter().map(|s| b(s)).collect(),
    }
}

/// Strips `--chdir <VALUE>` pairs from a run0 argv; the chdir value depends
/// on the host user database, making it unsuitable for exact-match assertions.
fn argv_without_chdir(opts: &Opts) -> Vec<Vec<u8>> {
    let v = build_run0_argv(opts, None);
    let mut out = Vec::new();
    let mut skip_next = false;
    for arg in &v {
        if skip_next {
            skip_next = false;
            continue;
        }
        if arg.as_slice() == b"--chdir" {
            skip_next = true;
            continue;
        }
        out.push(arg.clone());
    }
    out
}

fn position(v: &[Vec<u8>], s: &str) -> Option<usize> {
    v.iter().position(|a| a.as_slice() == s.as_bytes())
}

fn contains(v: &[Vec<u8>], s: &str) -> bool {
    position(v, s).is_some()
}

fn pkexec_uid() -> Vec<u8> {
    let mut s = b("PKEXEC_UID=");
    s.extend(format!("{}", current_uid()).into_bytes());
    s
}

// ── build_run0_argv: user, directory, PKEXEC_UID, extra args, command ────

#[test]
fn run0_argv_defaults_to_root_via_shell() {
    let v = argv_without_chdir(&opts(false, None, &[], &[]));
    assert_eq!(v[0], b("--user"));
    assert_eq!(v[1], b("root"));
    assert!(contains(&v, "--via-shell"));
}

#[test]
fn run0_argv_explicit_user() {
    let v = argv_without_chdir(&opts(false, Some("alice"), &[], &["id"]));
    assert_eq!(v[0], b("--user"));
    assert_eq!(v[1], b("alice"));
    assert!(contains(&v, "id"));
    assert!(!contains(&v, "--via-shell"));
}

#[test]
fn argv_keep_cwd_specifies_caller_cwd() {
    let cwd = b("/home/caller/work");
    let v = build_run0_argv(&opts(true, Some("root"), &[], &["id"]), Some(cwd.clone()));
    let pos = position(&v, "--chdir").unwrap();
    assert_eq!(v[pos + 1], cwd);
}

#[test]
fn run0_argv_always_sets_pkexec_uid() {
    let v = build_run0_argv(&opts(true, None, &[], &[]), None);
    let pos = position(&v, "--setenv").unwrap();
    assert!(v[pos + 1].starts_with(b"PKEXEC_UID="));
}

#[test]
fn run0_argv_pkexec_uid_matches_current_uid() {
    let v = build_run0_argv(&opts(true, None, &[], &[]), None);
    let pos = position(&v, "--setenv").unwrap();
    assert_eq!(v[pos + 1], pkexec_uid());
}

#[test]
fn argv_includes_run0_extra_args() {
    let v = build_run0_argv(&opts(true, None, &["--background", "--nice=10"], &["id"]), None);
    assert!(contains(&v, "--background"));
    assert!(contains(&v, "--nice=10"));
}

#[test]
fn run0_argv_numeric_uid_user_forwarded_verbatim() {
    let v = build_run0_argv(&opts(true, Some("1000"), &[], &["id"]), None);
    assert_eq!(v[0], b("--user"));
    assert_eq!(v[1], b("1000"));
}

#[test]
fn run0_argv_hash_uid_user_forwarded_verbatim() {
    let v = build_run0_argv(&opts(true, Some("#0"), &[], &["whoami"]), None);
    assert_eq!(v[1], b("#0"));
}

#[test]
fn run0_argv_no_via_shell_when_command_present() {
    let v = build_run0_argv(&opts(true, None, &[], &["ls"]), None);
    assert!(!contains(&v, "--via-shell"));
}

#[test]
fn run0_argv_stable_argument_order() {
    let v = build_run0_argv(&opts(true, Some("root"), &[], &["id"]), None);
    let user_pos = position(&v, "--user").unwrap();
    let setenv_pos = position(&v, "--setenv").unwrap();
    let cmd_pos = position(&v, "id").unwrap();
    assert!(user_pos < setenv_pos);
    assert!(setenv_pos < cmd_pos);
}

#[test]
fn run0_argv_command_forwarded_verbatim() {
    let v = build_run0_argv(&opts(true, None, &[], &["bash", "-c", "echo hello"]), None);
    let pos = position(&v, "bash").unwrap();
    assert_eq!(v[pos + 1], b("-c"));
    assert_eq!(v[pos + 2], b("echo hello"));
}

#[test]
fn run0_argv_no_chdir_when_home_lookup_fails() {
    // UID 4294967294 (u32::MAX - 1) is outside the range allocated by any
    // real system, so the user database lookup returns None.
    let v = build_run0_argv(&opts(false, Some("4294967294"), &[], &[]), None);
    assert!(!contains(&v, "--chdir"));
}

#[test]
fn argv_chdir_targets_home_when_keep_cwd_false() {
    let v = build_run0_argv(&opts(false, Some("root"), &[], &["id"]), Some(b("/elsewhere")));
    let pos = position(&v, "--chdir").expect("--chdir must be present for a known user");
    let expected = lookup_target_home(b"root").unwrap();
    assert_eq!(v[pos + 1], expected);
}

// ── build_run0_argv: order and verbatim forwarding ───────────────────────

#[test]
fn lib_argv_defaults_to_root_via_shell() {
    let v = argv_without_chdir(&opts(false, None, &[], &[]));
    assert_eq!(v[0], b("--user"));
    assert_eq!(v[1], b("root"));
    assert!(contains(&v, "--via-shell"));
}

#[test]
fn lib_argv_explicit_user() {
    let v = argv_without_chdir(&opts(false, Some("alice"), &[], &["id"]));
    assert_eq!(v[0], b("--user"));
    assert_eq!(v[1], b("alice"));
    assert!(contains(&v, "id"));
    assert!(!contains(&v, "--via-shell"));
}

/// --chdir must be absent when home lookup fails and keep_cwd is false.
#[test]
fn lib_argv_no_chdir_when_home_lookup_fails() {
    let v = build_run0_argv(&opts(false, Some("4294967294"), &[], &[]), None);
    assert!(
        !contains(&v, "--chdir"),
        "expected no --chdir for nonexistent user, got: {v:?}"
    );
}

#[test]
fn lib_argv_always_sets_pkexec_uid() {
    let v = build_run0_argv(&opts(true, None, &[], &[]), None);
    let pos = position(&v, "--setenv");
    assert!(pos.is_some(), "--setenv must be present");
    let val = &v[pos.unwrap() + 1];
    assert!(val.starts_with(b"PKEXEC_UID="), "expected PKEXEC_UID=..., got {val:?}");
}

/// The PKEXEC_UID value must equal the real UID of the calling process.
#[test]
fn lib_argv_pkexec_uid_matches_current_uid() {
    let v = build_run0_argv(&opts(true, None, &[], &[]), None);
    let pos = position(&v, "--setenv").unwrap();
    assert_eq!(v[pos + 1], pkexec_uid());
}

#[test]
fn lib_argv_numeric_uid_user_forwarded_verbatim() {
    let v = build_run0_argv(&opts(true, Some("1000"), &[], &["id"]), None);
    assert_eq!(v[0], b("--user"));
    assert_eq!(v[1], b("1000"));
}

#[test]
fn lib_argv_hash_uid_user_forwarded_verbatim() {
    let v = build_run0_argv(&opts(true, Some("#0"), &[], &["whoami"]), None);
    assert_eq!(v[1], b("#0"));
}

#[test]
fn lib_argv_no_via_shell_when_command_present() {
    let v = build_run0_argv(&opts(true, None, &[], &["ls"]), None);
    assert!(!contains(&v, "--via-shell"));
}

/// --user must precede --setenv which must precede the command.
#[test]
fn lib_argv_stable_argument_order() {
    let v = build_run0_argv(&opts(true, Some("root"), &[], &["id"]), None);
    let user_pos = position(&v, "--user").unwrap();
    let setenv_pos = position(&v, "--setenv").unwrap();
    let cmd_pos = position(&v, "id").unwrap();
    assert!(user_pos < setenv_pos, "--user must precede --setenv");
    assert!(setenv_pos < cmd_pos, "--setenv must precede the command");
}

#[test]
fn lib_argv_command_forwarded_verbatim() {
    let v = build_run0_argv(&opts(true, None, &[], &["bash", "-c", "echo hello"]), None);
    let pos = position(&v, "bash").expect("bash not found");
    assert_eq!(v[pos + 1], b("-c"));
    assert_eq!(v[pos + 2], b("echo hello"));
}

// ── the exact vector, from given directory and UID ────────────────────────

#[test]
fn assemble_full_vector() {
    let o = opts(false, Some("alice"), &["--background"], &["ls", "-la"]);
    let v = assemble_run0_argv(&o, Some(b("/home/alice")), 1000);
    let expected: Vec<Vec<u8>> = [
        "--user", "alice", "--chdir", "/home/alice", "--setenv", "PKEXEC_UID=1000",
        "--background", "--", "ls", "-la",
    ]
    .iter()
    .map(|s| b(s))
    .collect();
    assert_eq!(v, expected);
}

#[test]
fn assemble_shell_vector_without_chdir() {
    let v = assemble_run0_argv(&opts(true, None, &[], &[]), None, 0);
    let expected: Vec<Vec<u8>> = ["--user", "root", "--setenv", "PKEXEC_UID=0", "--via-shell"]
        .iter()
        .map(|s| b(s))
        .collect();
    assert_eq!(v, expected);
}

#[test]
fn assemble_writes_uid_in_decimal() {
    let v = assemble_run0_argv(&opts(true, None, &[], &[]), None, u32::MAX);
    assert_eq!(v[3], b("PKEXEC_UID=4294967295"));
    assert_eq!(render_decimal(4294967295), b("4294967295"));
}

#[test]
fn keep_cwd_without_readable_cwd_has_no_chdir() {
    let v = build_run0_argv(&opts(true, Some("root"), &[], &["id"]), None);
    assert!(!contains(&v, "--chdir"));
}

#[test]
fn non_utf8_target_has_no_chdir() {
    let o = Opts { keep_cwd: false, user: Some(vec![0xFF, 0xFE]), run0_args: Vec::new(), command: Vec::new() };
    let v = build_run0_argv(&o, Some(b("/tmp")));
    assert!(!contains(&v, "--chdir"));
    assert_eq!(v[1], vec![0xFF, 0xFE]);
}

// ── choice of the run0 binary and of the target user ──────────────────────

#[test]
fn run0_program_default_is_run0() {
    assert_eq!(run0_program(None), b("run0"));
}

#[test]
fn run0_program_reads_env_override() {
    assert_eq!(run0_program(Some(b("/usr/local/bin/run0"))), b("/usr/local/bin/run0"));
}

#[test]
fn run0_program_empty_override_falls_back() {
    assert_eq!(run0_program(Some(Vec::new())), b("run0"));
}

#[test]
fn target_user_defaults_to_root() {
    assert_eq!(target_user_of(&opts(false, None, &[], &[])), b("root"));
    assert_eq!(target_user_of(&opts(false, Some("alice"), &[], &[])), b("alice"));
    assert_eq!(target_user_of(&opts(false, Some(""), &[], &[])), Vec::<u8>::new());
}
