//! User specifiers and the user database.
//!
//! A user specifier is what follows `--user`: a login name, a plain UID
//! (`"1000"`) or a `#`-prefixed UID (`"#1000"`).  Home directories come from
//! the system user database through `uzers`.

use vstd::prelude::*;
use vstd::string::StringSliceAdditionalSpecFns;
use vstd::utf8::valid_utf8;
use uzers::os::unix::UserExt;
use crate::bytes::{lit, utf8_str, bytes_eq, copy_bytes};
use crate::uid::{numeral_u32, parse_numeral_u32, decimal, lemma_decimal, law_decimal_round_trip};
use crate::bytes::lemma_ascii_lit;

verus! {

/// The UID that a user specifier spells, if it spells one: an optional `'#'`
/// followed by a numeral that `str::parse::<u32>` accepts.
pub open spec fn uid_spec(user: Seq<u8>) -> Option<u32> {
    if user.len() > 0 && user[0] == 35 {
        numeral_u32(user.drop_first())
    } else {
        numeral_u32(user)
    }
}

/// Whether a specifier names the root account: UID 0, or else the name `root`.
pub open spec fn names_root(user: Seq<u8>) -> bool {
    match uid_spec(user) {
        Some(uid) => uid == 0,
        None => user == lit("root"),
    }
}

/// How the user database is asked about a specifier.
pub enum Target {
    /// By numeric UID.
    Uid(u32),
    /// By login name (the specifier itself).
    Name(Vec<u8>),
}

/// The mathematical form of [`Target`].
pub enum TargetView {
    Uid(u32),
    Name(Seq<u8>),
}

impl View for Target {
    type V = TargetView;

    open spec fn view(&self) -> TargetView {
        match self {
            Target::Uid(u) => TargetView::Uid(*u),
            Target::Name(n) => TargetView::Name(n@),
        }
    }
}

/// The lookup that a specifier calls for: by UID when it spells one,
/// otherwise by name.
pub open spec fn target_of(user: Seq<u8>) -> TargetView {
    match uid_spec(user) {
        Some(uid) => TargetView::Uid(uid),
        None => TargetView::Name(user),
    }
}

/// A byte string seen through an `Option`.
pub open spec fn opt_bytes(o: Option<Vec<u8>>) -> Option<Seq<u8>> {
    match o {
        Some(v) => Some(v@),
        None => None,
    }
}

/// A home directory from the user database is used only when it is not empty.
pub open spec fn nonempty_home(entry: Option<Seq<u8>>) -> Option<Seq<u8>> {
    match entry {
        Some(h) => if h.len() > 0 { Some(h) } else { None },
        None => None,
    }
}

/// Parses a user specifier into a numeric UID, if it spells one.
///
/// Accepts plain decimals (`"0"`, `"1000"`) and the `#UID` form (`"#0"`,
/// `"#1000"`); returns `None` for names such as `"root"`, for values beyond
/// `u32::MAX`, for a lone `"#"` and for bytes that are not a numeral.
pub fn parse_uid_spec(user: &[u8]) -> (r: Option<u32>)
    ensures
        r == uid_spec(user@),
{
    if user.len() > 0 && user[0] == 35 {
        let rest = vstd::slice::slice_subrange(user, 1, user.len());
        assert(rest@ =~= user@.drop_first());
        parse_numeral_u32(rest)
    } else {
        parse_numeral_u32(user)
    }
}

/// Whether `user` refers to the root account (UID 0 or the name `"root"`).
pub fn user_is_root(user: &[u8]) -> (r: bool)
    ensures
        r == names_root(user@),
{
    match parse_uid_spec(user) {
        Some(uid) => uid == 0,
        None => bytes_eq(user, "root".as_bytes()),
    }
}

/// Decides how the user database is to be asked about `user`.
pub fn resolve_target(user: &[u8]) -> (r: Target)
    ensures
        r@ == target_of(user@),
{
    match parse_uid_spec(user) {
        Some(uid) => Target::Uid(uid),
        None => Target::Name(copy_bytes(user)),
    }
}

/// Keeps a home directory read from the user database only when it is not
/// empty.
pub fn usable_home(entry: Option<Vec<u8>>) -> (r: Option<Vec<u8>>)
    ensures
        opt_bytes(r) == nonempty_home(opt_bytes(entry)),
{
    match entry {
        Some(h) => if h.len() > 0 { Some(h) } else { None },
        None => None,
    }
}

/// `uzers::get_current_uid`: the real user ID of the calling process, as
/// `getuid(2)` reports it.  Nothing is claimed of its value.
#[verifier::external_body]
pub fn current_uid() -> u32 {
    uzers::get_current_uid()
}

/// `uid` is a value that `current_uid` returned: the caller's real UID as
/// the system reported it.
pub open spec fn is_caller_uid(uid: u32) -> bool {
    call_ensures(current_uid, (), uid)
}

/// `uzers::get_user_by_uid`: the home directory that the user database
/// records for `uid`, as raw bytes, or `None` when the database has no such
/// user.  The answer depends on the machine; nothing is claimed of it.
#[verifier::external_body]
fn passwd_home_by_uid(uid: u32) -> (r: Option<Vec<u8>>) {
    match uzers::get_user_by_uid(uid) {
        Some(user) => Some(user.home_dir().as_os_str().as_encoded_bytes().to_vec()),
        None => None,
    }
}

/// `uzers::get_user_by_name`: the home directory that the user database
/// records for the login `name`, as raw bytes, or `None` when there is no
/// such user.  Claimed: a name holding a NUL byte matches no user (the crate
/// turns it into a C string and gives up when that fails).  The answer
/// otherwise depends on the machine and is left unsaid.
#[verifier::external_body]
fn passwd_home_by_name(name: &str) -> (r: Option<Vec<u8>>)
    ensures
        name.spec_bytes().contains(0u8) ==> r is None,
{
    match uzers::get_user_by_name(name) {
        Some(user) => Some(user.home_dir().as_os_str().as_encoded_bytes().to_vec()),
        None => None,
    }
}

/// `entry` is an answer that the user database gave when asked, through
/// `passwd_home_by_uid`, for the home directory of `uid`.  It holds only of
/// answers that such a call returned.
pub closed spec fn answered_for_uid(uid: u32, entry: Option<Vec<u8>>) -> bool {
    call_ensures(passwd_home_by_uid, (uid,), entry)
}

/// `entry` is an answer that the user database gave when asked, through
/// `passwd_home_by_name`, for the home directory of the login whose UTF-8
/// bytes are `name`.  It holds only of answers that such a call returned.
pub closed spec fn answered_for_name(name: Seq<u8>, entry: Option<Vec<u8>>) -> bool {
    exists|s: &str| s.spec_bytes() == name && #[trigger] call_ensures(passwd_home_by_name, (s,), entry)
}

/// `home` is the usable part of an answer that the user database gave for
/// the UID `uid`.
pub open spec fn found_for_uid(uid: u32, home: Option<Seq<u8>>) -> bool {
    exists|entry: Option<Vec<u8>>|
        #[trigger] answered_for_uid(uid, entry) && home == nonempty_home(opt_bytes(entry))
}

/// `home` is the usable part of an answer that the user database gave for
/// the login whose bytes are `name`.
pub open spec fn found_for_name(name: Seq<u8>, home: Option<Seq<u8>>) -> bool {
    exists|entry: Option<Vec<u8>>|
        #[trigger] answered_for_name(name, entry) && home == nonempty_home(opt_bytes(entry))
}

/// `home` is what a lookup of `t` in the user database yields: the usable
/// part of an answer the database gave for that UID or that name; a name
/// that is not UTF-8 is not asked about and yields nothing.
pub open spec fn looked_up(t: TargetView, home: Option<Seq<u8>>) -> bool {
    match t {
        TargetView::Uid(uid) => found_for_uid(uid, home),
        TargetView::Name(name) => if valid_utf8(name) {
            found_for_name(name, home)
        } else {
            home is None
        },
    }
}

/// Looks up the home directory of the user with this UID.
///
/// Returns `None` when the user database has no such user or records an
/// empty home directory.
pub fn lookup_home_by_uid(uid: u32) -> (r: Option<Vec<u8>>)
    ensures
        r matches Some(h) ==> h@.len() > 0,
        looked_up(TargetView::Uid(uid), opt_bytes(r)),
{
    let ask = passwd_home_by_uid;
    let entry = ask(uid);
    assert(answered_for_uid(uid, entry));
    let r = usable_home(entry);
    r
}

/// Looks up the home directory of the user with this login name.
///
/// Returns `None` when the name is not valid UTF-8, holds a NUL byte, names
/// no user, or the recorded home directory is empty.
pub fn lookup_home_by_name(name: &[u8]) -> (r: Option<Vec<u8>>)
    ensures
        !valid_utf8(name@) ==> r is None,
        name@.contains(0u8) ==> r is None,
        r matches Some(h) ==> h@.len() > 0,
        looked_up(TargetView::Name(name@), opt_bytes(r)),
{
    match utf8_str(name) {
        Some(s) => {
            let ask = passwd_home_by_name;
            let entry = ask(s);
            assert(answered_for_name(name@, entry));
            let r = usable_home(entry);
            r
        },
        None => None,
    }
}

/// Resolves the home directory for `user`, which may be a name, a plain UID
/// or a `#UID`: by UID when the specifier spells one, otherwise by name.
pub fn lookup_target_home(user: &[u8]) -> (r: Option<Vec<u8>>)
    ensures
        r matches Some(h) ==> h@.len() > 0,
        uid_spec(user@) is None && !valid_utf8(user@) ==> r is None,
        uid_spec(user@) is None && user@.contains(0u8) ==> r is None,
        looked_up(target_of(user@), opt_bytes(r)),
{
    match resolve_target(user) {
        Target::Uid(uid) => lookup_home_by_uid(uid),
        Target::Name(name) => lookup_home_by_name(name.as_slice()),
    }
}

/// A UID written in decimal, bare or after `#`, is understood as that UID.
pub proof fn law_uid_spellings(n: u32)
    ensures
        uid_spec(decimal(n as nat)) == Some(n),
        uid_spec(seq![35u8] + decimal(n as nat)) == Some(n),
{
    lemma_decimal(n as nat);
    law_decimal_round_trip(n);
    assert(decimal(n as nat)[0] != 35u8) by {
        assert(crate::uid::is_digit(decimal(n as nat)[0]));
    }
    assert((seq![35u8] + decimal(n as nat)).drop_first() =~= decimal(n as nat));
}

/// The spellings of root: the name `root`, `0` and `#0` all name the root
/// account, and no other UID does; `0` and `#0` ask the user database the
/// same question, the name `root` asks it by name.
pub proof fn law_root_spellings(n: u32)
    ensures
        names_root(decimal(n as nat)) <==> n == 0,
        names_root(seq![35u8] + decimal(n as nat)) <==> n == 0,
        target_of(decimal(n as nat)) == TargetView::Uid(n),
        target_of(seq![35u8] + decimal(n as nat)) == TargetView::Uid(n),
        names_root(lit("root")),
        target_of(lit("root")) == TargetView::Name(lit("root")),
{
    law_uid_spellings(n);
    reveal_strlit("root");
    lemma_ascii_lit("root");
    let r = lit("root");
    assert(r[0] == 114u8);
    assert(crate::uid::unsigned_digits(r) == r);
    assert(!crate::uid::is_digit(r[0]));
    assert(!crate::uid::all_digits(r));
    assert(uid_spec(r) is None);
}

/// A home directory from the user database is dropped only when it is
/// empty: any non-empty directory it records, `/` included, is used as
/// recorded.
pub proof fn law_home_dropped_only_when_empty(h: Seq<u8>)
    ensures
        h.len() > 0 ==> nonempty_home(Some(h)) == Some(h),
        nonempty_home(Some(Seq::<u8>::empty())) is None,
        nonempty_home(None) is None,
{
}

} // verus!
