# run0-pkexec-shim

A `pkexec(1)` command-line front end that runs programs through systemd's
`run0(1)`, written in Verus.

Layout:

- `src/bytes.rs` – byte-string comparison, prefixes, copies, UTF-8 validity.
- `src/uid.rs` – decimal numerals: reading a `u32` the way `str::parse`
  does, writing one the way `format!` does, and the round trip between them.
- `src/user.rs` – user specifiers (`name`, `UID`, `#UID`), the root check,
  and home-directory lookups in the user database through `uzers`.
- `src/cli.rs` – the `pkexec` command line and its outcomes (run, help,
  version, missing value).
- `src/run0.rs` – the argument vector handed to `run0`.
- `app/main.rs` – the binary: reads the process arguments, the working
  directory and `$RUN0_BIN`, prints help/version/errors, spawns `run0` and
  forwards its exit code.

Every function under `src/` is verified against its contract; the calls into
`uzers` and `std::str::from_utf8` stand behind small trusted wrappers whose
doc comments say what is assumed of them.

## Behaviour worth knowing

- With `--keep-cwd`, `run0` is given `--chdir <caller's working directory>`
  (when that directory can be read), so the program runs where the caller
  is; without it, `--chdir` names the target user's home directory when the
  user database knows one.
- The program and its arguments always follow a `--`, so `run0` never reads
  them as its own options; `--run0-extra-arg` values come before it.
- `$RUN0_BIN` chooses the `run0` binary; an absent or empty value means
  `run0` (`run0_program`).
