//! Decisions of the macOS backend: where the client is looked for, and what
//! each launch reports. The backend only ever starts the official client.

use vstd::prelude::*;

use crate::models::LaunchResult;
use crate::platform::common::{first_existing, first_existing_spec};
use crate::text::{append_str, string_from, chars_of, concat_chars, decimal, decimal_chars, string_of, texts};

verus! {

/// The places the client is installed in, in the order they are tried.
pub open spec fn default_app_paths() -> Seq<Seq<char>> {
    seq!["/Applications/企业微信.app"@, "/Applications/WeCom.app"@, "/Applications/WXWork.app"@]
}



/// The paths tried for the client, in order: the one the user gave, then the defaults.
pub fn app_path_candidates(override_path: Option<&str>) -> (r: Vec<String>)
    ensures
        texts(r@) == match override_path {
            Some(p) => seq![p@] + default_app_paths(),
            None => default_app_paths(),
        },
{
    let mut v: Vec<String> = Vec::new();
    match override_path {
        Some(p) => v.push(string_from(p)),
        None => {},
    }
    v.push(string_from("/Applications/企业微信.app"));
    v.push(string_from("/Applications/WeCom.app"));
    v.push(string_from("/Applications/WXWork.app"));
    proof {
        match override_path {
            Some(p) => {
                assert(texts(v@) =~= seq![p@] + default_app_paths());
            },
            None => {
                assert(texts(v@) =~= default_app_paths());
            },
        }
    }
    v
}

/// The first of the candidate paths that exists (`exists` tells, per candidate).
pub fn resolve_app_path(candidates: &Vec<String>, exists: &Vec<bool>) -> (r: Option<String>)
    requires
        candidates@.len() == exists@.len(),
    ensures
        r is None <==> first_existing_spec(texts(candidates@), exists@) is None,
        r is Some ==> r->0@ == first_existing_spec(texts(candidates@), exists@)->0,
{
    first_existing(candidates, exists)
}

/// Whether an entry of the folder of old copies is a copy to remove: its
/// extension (as the path gives it, none when it has none or it is not text)
/// is exactly `app`.
pub fn is_legacy_clone(extension: Option<&str>) -> (r: bool)
    ensures
        r == match extension {
            Some(e) => e@ == "app"@,
            None => false,
        },
{
    match extension {
        Some(e) => crate::text::chars_eq_str(&chars_of(e), "app"),
        None => false,
    }
}

/// The report of getting ready for a launch, after `cleaned` copies left by
/// older launcher versions were removed.
pub open spec fn prepare_message(cleaned: nat) -> Seq<char> {
    if cleaned > 0 {
        "macOS：已清理 "@ + decimal(cleaned) + " 个旧镜像，准备 open -n 启动"@
    } else {
        "macOS：使用 open -n 启动官方企业微信（不创建镜像）"@
    }
}

/// Getting ready never fails here; the report says whether old copies were removed.
pub fn prepare_next_instance(cleaned: usize) -> (r: Result<String, String>)
    ensures
        r is Ok && r->Ok_0@ == prepare_message(cleaned as nat),
{
    if cleaned > 0 {
        let mut s: Vec<char> = chars_of("macOS：已清理 ");
        s = concat_chars(&s, &decimal_chars(cleaned as u64));
        s = append_str(s, " 个旧镜像，准备 open -n 启动");
        Ok(string_of(&s))
    } else {
        Ok(string_from("macOS：使用 open -n 启动官方企业微信（不创建镜像）"))
    }
}

/// How a launch went.
#[derive(Debug, Clone)]
pub enum MacLaunch {
    /// The client's executable was started directly, with this pid.
    Direct(u32),
    /// `open -n` ran and reported success.
    Opened,
    /// `open -n` ran and failed with this exit code (none when killed by a signal).
    OpenFailed(Option<i32>),
    /// `open -n` could not be run, for this reason.
    OpenUnavailable(String),
}

/// The decimal rendering of a signed number.
pub open spec fn signed_decimal(i: int) -> Seq<char> {
    if i < 0 {
        "-"@ + decimal((-i) as nat)
    } else {
        decimal(i as nat)
    }
}

/// How `{:?}` renders an optional exit code.
pub open spec fn exit_code_text(code: Option<i32>) -> Seq<char> {
    match code {
        Some(c) => "Some("@ + signed_decimal(c as int) + ")"@,
        None => "None"@,
    }
}

fn signed_decimal_chars(i: i32) -> (r: Vec<char>)
    ensures
        r@ == signed_decimal(i as int),
{
    if i < 0 {
        let m: u64 = (0 - (i as i64)) as u64;
        let d: Vec<char> = decimal_chars(m);
        concat_chars(&chars_of("-"), &d)
    } else {
        decimal_chars(i as u64)
    }
}

/// The result of launching slot `index`, or the error when `open -n` could not run.
pub fn spawn_report(index: u8, outcome: MacLaunch) -> (r: Result<LaunchResult, String>)
    ensures
        match outcome {
            MacLaunch::Direct(pid) => r is Ok && r->Ok_0.success && r->Ok_0.pid == Some(pid)
                && r->Ok_0.index == index && r->Ok_0.message@ == "已启动实例 #"@ + decimal(
                index as nat,
            ) + " PID="@ + decimal(pid as nat) + "（官方客户端，无镜像）"@,
            MacLaunch::Opened => r is Ok && r->Ok_0.success && r->Ok_0.pid is None
                && r->Ok_0.index == index && r->Ok_0.message@ == "已通过 open -n 启动实例 #"@
                + decimal(index as nat) + "（官方客户端，无镜像）"@,
            MacLaunch::OpenFailed(code) => r is Ok && !r->Ok_0.success && r->Ok_0.pid is None
                && r->Ok_0.index == index && r->Ok_0.message@ == "open -n 退出码: "@
                + exit_code_text(code),
            MacLaunch::OpenUnavailable(e) => r is Err && r->Err_0@ == "open -n 失败: "@ + e@,
        },
{
    match outcome {
        MacLaunch::Direct(pid) => {
            let mut s: Vec<char> = chars_of("已启动实例 #");
            s = concat_chars(&s, &decimal_chars(index as u64));
            s = append_str(s, " PID=");
            s = concat_chars(&s, &decimal_chars(pid as u64));
            s = append_str(s, "（官方客户端，无镜像）");
            Ok(LaunchResult { success: true, pid: Some(pid), message: string_of(&s), index })
        },
        MacLaunch::Opened => {
            let mut s: Vec<char> = chars_of("已通过 open -n 启动实例 #");
            s = concat_chars(&s, &decimal_chars(index as u64));
            s = append_str(s, "（官方客户端，无镜像）");
            Ok(LaunchResult { success: true, pid: None, message: string_of(&s), index })
        },
        MacLaunch::OpenFailed(code) => {
            let mut s: Vec<char> = chars_of("open -n 退出码: ");
            match code {
                Some(c) => {
                    s = append_str(s, "Some(");
                    s = concat_chars(&s, &signed_decimal_chars(c));
                    s = append_str(s, ")");
                },
                None => {
                    s = append_str(s, "None");
                },
            }
            Ok(LaunchResult { success: false, pid: None, message: string_of(&s), index })
        },
        MacLaunch::OpenUnavailable(e) => {
            let s: Vec<char> = append_str(chars_of("open -n 失败: "), e.as_str());
            Err(string_of(&s))
        },
    }
}

} // verus!
