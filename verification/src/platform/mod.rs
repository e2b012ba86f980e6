//! Platform logic: process selection, slot allocation, the safe-mode answers
//! of systems without local-user isolation, and each backend's decisions.

pub mod common;
pub mod macos;
pub mod unsupported;
pub mod windows;

use vstd::prelude::*;

use crate::models::{slot_username, username_for_slot, SafeModeHealth, SafeModePrepareResult, SafeModeUserStatus};
use crate::policy::{clamp_count, clamped};
use crate::text::{chars_of, string_from, texts, trim, trim_chars, utf8_len, utf8_len_at_least};

verus! {

/// A safe-mode password is usable: at least 8 bytes once trimmed.
pub open spec fn password_strong(p: Seq<char>) -> bool {
    utf8_len(trim(p)) >= 8
}

/// An optional password is given and usable.
pub open spec fn password_given_strong(p: Option<&str>) -> bool {
    match p {
        Some(s) => password_strong(s@),
        None => false,
    }
}

/// `users` lists slots `1..=n` in order, each with its user name under `prefix`.
pub open spec fn lists_slot_users(users: Seq<SafeModeUserStatus>, n: nat, prefix: Seq<char>) -> bool {
    &&& users.len() == n
    &&& forall|k: int|
        0 <= k < n ==> (#[trigger] users[k]).index == k + 1 && users[k].username@ == slot_username(
            prefix,
            (k + 1) as nat,
        )
}

/// Whether `password` is usable for safe mode.
pub(crate) fn password_ok(password: &str) -> (r: bool)
    ensures
        r == password_strong(password@),
{
    let v: Vec<char> = chars_of(password);
    let t: Vec<char> = trim_chars(&v);
    utf8_len_at_least(&t, 8)
}


/// Safe mode (local-user isolation) exists only on Windows.
pub fn ensure_safe_mode_users(_count: u8, _password: &str, _prefix: &str) -> (r: Result<
    SafeModePrepareResult,
    String,
>)
    ensures
        r is Err && r->Err_0@ == "安全模式（本地用户隔离）仅支持 Windows"@,
{
    Err(string_from("安全模式（本地用户隔离）仅支持 Windows"))
}

/// The safe-mode users of slots `1..=clamped(count)`; none exists on this system.
pub fn list_safe_mode_users(count: u8, prefix: &str) -> (r: Vec<SafeModeUserStatus>)
    ensures
        lists_slot_users(r@, clamped(count) as nat, prefix@),
        forall|k: int| 0 <= k < r@.len() ==> !(#[trigger] r@[k]).exists,
{
    let n: u8 = clamp_count(count);
    let mut users: Vec<SafeModeUserStatus> = Vec::new();
    let mut index: u8 = 1;
    while index <= n
        invariant
            1 <= index <= n + 1,
            n <= 10,
            users@.len() == index - 1,
            forall|k: int|
                0 <= k < users@.len() ==> (#[trigger] users@[k]).index == k + 1
                    && users@[k].username@ == slot_username(prefix@, (k + 1) as nat)
                    && !users@[k].exists,
        decreases n + 1 - index,
    {
        let username: String = username_for_slot(prefix, index);
        users.push(SafeModeUserStatus { index, username, exists: false });
        index = index + 1;
    }
    users
}

/// The launcher never runs with administrator rights here.
pub fn is_elevated() -> (r: bool)
    ensures
        !r,
{
    false
}

/// Safe mode is never ready on this system; the users are listed and the
/// password is judged all the same.
pub fn check_safe_mode_health(count: u8, prefix: &str, password: Option<&str>) -> (r: SafeModeHealth)
    ensures
        !r.platform_ok,
        !r.is_admin,
        r.password_ok == password_given_strong(password),
        lists_slot_users(r.users@, clamped(count) as nat, prefix@),
        forall|k: int| 0 <= k < r.users@.len() ==> !(#[trigger] r.users@[k]).exists,
        r.missing_users@.len() == 0,
        !r.ready,
        texts(r.warnings@) == seq!["安全模式仅支持 Windows"@],
        r.summary@ == "当前平台不支持安全模式"@,
{
    let users: Vec<SafeModeUserStatus> = list_safe_mode_users(count, prefix);
    let password_ok: bool = match password {
        Some(p) => password_ok(p),
        None => false,
    };
    let mut warnings: Vec<String> = Vec::new();
    warnings.push(string_from("安全模式仅支持 Windows"));
    assert(texts(warnings@) =~= seq!["安全模式仅支持 Windows"@]);
    SafeModeHealth {
        platform_ok: false,
        is_admin: false,
        password_ok,
        users,
        missing_users: Vec::new(),
        ready: false,
        warnings,
        summary: string_from("当前平台不支持安全模式"),
    }
}

} // verus!
