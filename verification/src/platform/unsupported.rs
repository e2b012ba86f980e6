//! The backend for operating systems the client does not run on: every launch
//! is refused and no slot is ever busy.

use vstd::prelude::*;

use std::path::{Path, PathBuf};

use crate::models::{LaunchOptions, LaunchResult};
use crate::text::{chars_of, string_of};

verus! {

/// Makes std's `PathBuf` usable in signatures; nothing is claimed of its contents.
#[verifier::external_type_specification]
#[verifier::external_body]
pub struct ExPathBuf(PathBuf);

/// Makes std's `Path` usable in signatures; nothing is claimed of its contents.
#[verifier::external_type_specification]
#[verifier::external_body]
pub struct ExPath(Path);

/// The refusal given for every launch on an unsupported system.
pub open spec fn unsupported_message() -> Seq<char> {
    "当前平台不支持企业微信多开"@
}

fn unsupported() -> (r: String)
    ensures
        r@ == unsupported_message(),
{
    let v: Vec<char> = chars_of("当前平台不支持企业微信多开");
    string_of(&v)
}

/// No installation of the client is ever found.
pub fn resolve_app_path(_override_path: Option<&str>) -> (r: Option<PathBuf>)
    ensures
        r is None,
{
    None
}

/// Preparing a launch is refused.
pub fn prepare_next_instance(_opts: &LaunchOptions) -> (r: Result<String, String>)
    ensures
        r is Err && r->Err_0@ == unsupported_message(),
{
    Err(unsupported())
}

/// Launching is refused.
pub fn spawn_instance(_app_path: &Path, _index: u8, _opts: &LaunchOptions) -> (r: Result<
    LaunchResult,
    String,
>)
    ensures
        r is Err && r->Err_0@ == unsupported_message(),
{
    Err(unsupported())
}

/// No slot is busy.
pub fn busy_slot_indices() -> (r: Vec<u8>)
    ensures
        r@.len() == 0,
{
    Vec::new()
}

/// Nothing is recorded.
pub fn note_slot_pid(_index: u8, _pid: Option<u32>) {
}

/// Nothing is recorded, so nothing is cleared.
pub fn clear_slot_pid_state() {
}

} // verus!
