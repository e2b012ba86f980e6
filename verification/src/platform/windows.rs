//! Decisions of the Windows backend: safe-mode readiness and account
//! preparation reports, the slot-to-process bookkeeping, and which client
//! processes are main processes.

use vstd::prelude::*;

use std::collections::HashMap;

use crate::models::{
    LaunchOptions, LaunchResult, SafeModeHealth, SafeModePrepareResult, SafeModeUserStatus, MAX_SLOTS,
};
use crate::platform::common::{
    first_existing, first_existing_spec, insert_sorted, is_client_process, list_wecom_pids, strictly_increasing, ProcessEntry,
};
use crate::platform::{password_given_strong, password_ok, password_strong};
use crate::text::{append_str, string_from, 
    ascii_lower, ascii_lower_chars, chars_of, concat_chars, contains_chars, contains_seq, decimal,
    decimal_chars, join, join_chars, string_of, texts, trim, trim_chars,
};

verus! {

broadcast use vstd::std_specs::hash::group_hash_axioms;



/// The report of getting ready for a launch, from the steps taken: whether the
/// launcher is elevated, whether debugging rights were granted, whether a
/// main client process runs, and (when one does) how releasing its
/// single-instance lock went. The report lists the notes joined by `" | "`.
pub open spec fn prepare_notes(
    elevated: bool,
    debug_privilege: bool,
    running: bool,
    release: Result<Seq<char>, Seq<char>>,
) -> Seq<Seq<char>> {
    (if !elevated {
        seq!["建议以管理员运行（否则可能无法释放互斥体）"@]
    } else {
        seq![]
    }) + (if !debug_privilege {
        seq!["SeDebugPrivilege 未启用"@]
    } else {
        seq![]
    }) + (if !running {
        seq!["无运行中企微，跳过互斥扫描"@]
    } else {
        match release {
            Ok(m) => seq![m],
            Err(e) => seq!["预释放: "@ + e],
        }
    })
}

/// The views of a result of strings.
pub open spec fn result_texts(r: Result<String, String>) -> Result<Seq<char>, Seq<char>> {
    match r {
        Ok(m) => Ok(m@),
        Err(e) => Err(e@),
    }
}

/// Getting ready never fails; the report lists what was noticed on the way.
pub fn prepare_next_instance(
    elevated: bool,
    debug_privilege: bool,
    running: bool,
    release: Result<String, String>,
) -> (r: Result<String, String>)
    ensures
        r is Ok,
        r->Ok_0@ == join(
            prepare_notes(elevated, debug_privilege, running, result_texts(release)),
            " | "@,
        ),
{
    let mut notes: Vec<String> = Vec::new();
    if !elevated {
        notes.push(string_from("建议以管理员运行（否则可能无法释放互斥体）"));
    }
    if !debug_privilege {
        notes.push(string_from("SeDebugPrivilege 未启用"));
    }
    if !running {
        notes.push(string_from("无运行中企微，跳过互斥扫描"));
    } else {
        match release {
            Ok(m) => notes.push(m),
            Err(e) => {
                let v: Vec<char> = concat_chars(&chars_of("预释放: "), &chars_of(e.as_str()));
                notes.push(string_of(&v));
            },
        }
    }
    assert(texts(notes@) =~= prepare_notes(
        elevated,
        debug_privilege,
        running,
        result_texts(release),
    ));
    Ok(string_of(&join_chars(&notes, " | ")))
}

/// The note on releasing the single-instance lock after a start.
pub open spec fn release_note(release: Result<Seq<char>, Seq<char>>) -> Seq<char> {
    match release {
        Ok(m) => m,
        Err(e) => "启动后释放跳过: "@ + e,
    }
}

/// The result of starting slot `index` as the signed-in user: `started` is
/// the pid (when known) or why starting failed, `release` how releasing the
/// lock went afterwards, `alive` whether the started process still ran a
/// moment later.
pub fn spawn_report(
    index: u8,
    started: Result<Option<u32>, String>,
    release: Result<String, String>,
    alive: bool,
) -> (r: LaunchResult)
    ensures
        r.index == index,
        match started {
            Err(e) => !r.success && r.pid is None && r.message@ == "启动失败: "@ + e@,
            Ok(Some(p)) => if alive {
                r.success && r.pid == Some(p) && r.message@ == "已启动实例 #"@ + decimal(
                    index as nat,
                ) + " PID="@ + decimal(p as nat) + " | "@ + release_note(result_texts(release))
            } else {
                !r.success && r.pid == Some(p) && r.message@ == "实例 #"@ + decimal(index as nat)
                    + " PID="@ + decimal(p as nat)
                    + " 启动后退出。请以管理员运行，并先完全退出企微后再试。| "@ + release_note(
                    result_texts(release),
                )
            },
            Ok(None) => r.success && r.pid is None && r.message@ == "已启动实例 #"@ + decimal(
                index as nat,
            ) + " | "@ + release_note(result_texts(release)),
        },
{
    match started {
        Err(e) => {
            let v: Vec<char> = concat_chars(&chars_of("启动失败: "), &chars_of(e.as_str()));
            LaunchResult { success: false, pid: None, message: string_of(&v), index }
        },
        Ok(pid) => {
            let post: Vec<char> = match release {
                Ok(m) => chars_of(m.as_str()),
                Err(e) => concat_chars(&chars_of("启动后释放跳过: "), &chars_of(e.as_str())),
            };
            match pid {
                Some(p) => {
                    if !alive {
                        let mut v: Vec<char> = chars_of("实例 #");
                        v = concat_chars(&v, &decimal_chars(index as u64));
                        v = append_str(v, " PID=");
                        v = concat_chars(&v, &decimal_chars(p as u64));
                        v = append_str(v, " 启动后退出。请以管理员运行，并先完全退出企微后再试。| ");
                        v = concat_chars(&v, &post);
                        return LaunchResult {
                            success: false,
                            pid: Some(p),
                            message: string_of(&v),
                            index,
                        };
                    }
                    let mut v: Vec<char> = chars_of("已启动实例 #");
                    v = concat_chars(&v, &decimal_chars(index as u64));
                    v = append_str(v, " PID=");
                    v = concat_chars(&v, &decimal_chars(p as u64));
                    v = append_str(v, " | ");
                    v = concat_chars(&v, &post);
                    LaunchResult { success: true, pid: Some(p), message: string_of(&v), index }
                },
                None => {
                    let mut v: Vec<char> = chars_of("已启动实例 #");
                    v = concat_chars(&v, &decimal_chars(index as u64));
                    v = append_str(v, " | ");
                    v = concat_chars(&v, &post);
                    LaunchResult { success: true, pid: None, message: string_of(&v), index }
                },
            }
        },
    }
}

/// The refusal of a safe-mode launch without a password.
pub open spec fn missing_password_message() -> Seq<char> {
    "安全模式需要填写本地用户密码"@
}

/// The password a safe-mode launch logs on with: the configured one, trimmed,
/// when something is left.
pub fn safe_mode_password(opts: &LaunchOptions) -> (r: Result<String, String>)
    ensures
        match opts.safe_mode_password {
            Some(p) => if trim(p@).len() > 0 {
                r is Ok && r->Ok_0@ == trim(p@)
            } else {
                r is Err && r->Err_0@ == missing_password_message()
            },
            None => r is Err && r->Err_0@ == missing_password_message(),
        },
{
    match &opts.safe_mode_password {
        Some(p) => {
            let t: Vec<char> = trim_chars(&chars_of(p.as_str()));
            if t.len() > 0 {
                Ok(string_of(&t))
            } else {
                Err(string_from("安全模式需要填写本地用户密码"))
            }
        },
        None => Err(string_from("安全模式需要填写本地用户密码")),
    }
}

/// The result of starting slot `index` under the local account `username`:
/// refused when the account does not exist, otherwise as logging on went
/// (`logon` is the started pid, or why it failed).
pub fn local_user_launch_report(index: u8, username: &str, exists: bool, logon: Result<u32, String>) -> (r:
    LaunchResult)
    ensures
        r.index == index,
        !exists ==> !r.success && r.pid is None && r.message@ == "本地用户 "@ + username@
            + " 不存在。请先点「准备本地用户」（需管理员）"@,
        exists ==> match logon {
            Ok(p) => r.success && r.pid == Some(p) && r.message@ == "安全模式已启动 #"@ + decimal(
                index as nat,
            ) + " 用户="@ + username@ + " PID="@ + decimal(p as nat),
            Err(e) => !r.success && r.pid is None && r.message@ == "以用户 "@ + username@
                + " 启动失败: "@ + e@ + "（检查密码、用户是否存在、是否被策略禁止）"@,
        },
{
    if !exists {
        let mut v: Vec<char> = chars_of("本地用户 ");
        v = append_str(v, username);
        v = append_str(v, " 不存在。请先点「准备本地用户」（需管理员）");
        return LaunchResult { success: false, pid: None, message: string_of(&v), index };
    }
    match logon {
        Ok(p) => {
            let mut v: Vec<char> = chars_of("安全模式已启动 #");
            v = concat_chars(&v, &decimal_chars(index as u64));
            v = append_str(v, " 用户=");
            v = append_str(v, username);
            v = append_str(v, " PID=");
            v = concat_chars(&v, &decimal_chars(p as u64));
            LaunchResult { success: true, pid: Some(p), message: string_of(&v), index }
        },
        Err(e) => {
            let mut v: Vec<char> = chars_of("以用户 ");
            v = append_str(v, username);
            v = append_str(v, " 启动失败: ");
            v = append_str(v, e.as_str());
            v = append_str(v, "（检查密码、用户是否存在、是否被策略禁止）");
            LaunchResult { success: false, pid: None, message: string_of(&v), index }
        },
    }
}

/// The value written to the client's `multi_instances` registry setting
/// before a launch: `MAX_SLOTS` when the user prefers the registry route,
/// nothing (the registry is left alone) when not.
pub fn registry_multi_instances(opts: &LaunchOptions) -> (r: Option<u32>)
    ensures
        opts.prefer_registry ==> r == Some(MAX_SLOTS as u32),
        !opts.prefer_registry ==> r is None,
{
    if opts.prefer_registry {
        Some(MAX_SLOTS as u32)
    } else {
        None
    }
}

/// How slot `index` is started.
pub enum SpawnPlan {
    /// Log on as the slot's local account and start the client there.
    Logon { username: String, domain: String, password: String, workdir: String },
    /// Start the client as the signed-in user.
    Direct { workdir: String },
}

/// How slot `index` is started (the decision of a launch), given the folder of the client's executable
/// (`None` when it has none): in safe mode, a logon as the slot's user on the
/// local machine (".") with the trimmed password, which must be given;
/// otherwise a direct start. Either runs in the client's folder, or in "."
/// when there is none.
pub fn spawn_instance(opts: &LaunchOptions, index: u8, app_dir: Option<&str>) -> (r: Result<
    SpawnPlan,
    String,
>)
    ensures
        opts.windows_safe_mode ==> !(r is Ok && r->Ok_0 is Direct),
        ({
            let dir = match app_dir {
                Some(d) => d@,
                None => "."@,
            };
            if !opts.windows_safe_mode {
                r is Ok && (r->Ok_0 matches SpawnPlan::Direct { workdir } && workdir@ == dir)
            } else {
                match opts.safe_mode_password {
                    Some(p) => if trim(p@).len() > 0 {
                        r is Ok && (r->Ok_0 matches SpawnPlan::Logon {
                            username,
                            domain,
                            password,
                            workdir,
                        } && username@ == crate::models::slot_username(
                            opts.safe_mode_user_prefix@,
                            index as nat,
                        ) && domain@ == "."@ && password@ == trim(p@) && workdir@ == dir)
                    } else {
                        r is Err && r->Err_0@ == missing_password_message()
                    },
                    None => r is Err && r->Err_0@ == missing_password_message(),
                }
            }
        }),
{
    let workdir: String = match app_dir {
        Some(d) => string_from(d),
        None => string_from("."),
    };
    if !opts.windows_safe_mode {
        return Ok(SpawnPlan::Direct { workdir });
    }
    let password: String = safe_mode_password(opts)?;
    let username: String = opts.safe_username(index);
    Ok(SpawnPlan::Logon { username, domain: string_from("."), password, workdir })
}

/// Fragments of the names the client gives its single-instance lock.
pub open spec fn mutex_hints() -> Seq<Seq<char>> {
    seq![
        "Tencent.WeWork.ExclusiveObject"@,
        "Tencent.WeWork.ExclusiveObjectInstance"@,
        "Tencent.WeWork.Exclusive"@,
        "Tencent.WeWork.Instance"@,
        "WeWorkExclusive"@,
        "WXWorkExclusive"@,
        "WXWork_Exclusive"@,
        "WeWork_ExclusiveObject"@,
    ]
}

/// A name is a lock name: some hint occurs in it, ignoring ASCII case.
pub open spec fn is_lock_text(name: Seq<char>) -> bool {
    exists|k: int|
        0 <= k < mutex_hints().len() && contains_seq(
            ascii_lower(name),
            ascii_lower(#[trigger] mutex_hints()[k]),
        )
}

/// The lower-cased fragments of the client's lock names, all eight of them.
pub open spec fn lock_fragments() -> Seq<Seq<char>> {
    seq![
        "tencent.wework.exclusiveobject"@,
        "tencent.wework.exclusiveobjectinstance"@,
        "tencent.wework.exclusive"@,
        "tencent.wework.instance"@,
        "weworkexclusive"@,
        "wxworkexclusive"@,
        "wxwork_exclusive"@,
        "wework_exclusiveobject"@,
    ]
}

/// Every name that holds one of the eight fragments, in any ASCII case, is a
/// lock name, and there are exactly eight hints.
pub proof fn lemma_lock_fragments_match(name: Seq<char>, f: int)
    requires
        0 <= f < 8,
        contains_seq(ascii_lower(name), lock_fragments()[f]),
    ensures
        is_lock_text(name),
        mutex_hints().len() == 8,
{
    reveal_strlit("Tencent.WeWork.ExclusiveObject");
    reveal_strlit("Tencent.WeWork.ExclusiveObjectInstance");
    reveal_strlit("Tencent.WeWork.Exclusive");
    reveal_strlit("Tencent.WeWork.Instance");
    reveal_strlit("WeWorkExclusive");
    reveal_strlit("WXWorkExclusive");
    reveal_strlit("WXWork_Exclusive");
    reveal_strlit("WeWork_ExclusiveObject");
    reveal_strlit("tencent.wework.exclusiveobject");
    reveal_strlit("tencent.wework.exclusiveobjectinstance");
    reveal_strlit("tencent.wework.exclusive");
    reveal_strlit("tencent.wework.instance");
    reveal_strlit("weworkexclusive");
    reveal_strlit("wxworkexclusive");
    reveal_strlit("wxwork_exclusive");
    reveal_strlit("wework_exclusiveobject");
    assert(ascii_lower(mutex_hints()[f]) =~= lock_fragments()[f]);
}

/// Whether a kernel object's name is that of the client's single-instance
/// lock: some hint occurs in it, ignoring ASCII case.
pub fn is_lock_name(name: &str) -> (r: bool)
    ensures
        r == exists|k: int|
            0 <= k < mutex_hints().len() && contains_seq(
                ascii_lower(name@),
                ascii_lower(#[trigger] mutex_hints()[k]),
            ),
{
    let mut hints: Vec<&'static str> = Vec::new();
    hints.push("Tencent.WeWork.ExclusiveObject");
    hints.push("Tencent.WeWork.ExclusiveObjectInstance");
    hints.push("Tencent.WeWork.Exclusive");
    hints.push("Tencent.WeWork.Instance");
    hints.push("WeWorkExclusive");
    hints.push("WXWorkExclusive");
    hints.push("WXWork_Exclusive");
    hints.push("WeWork_ExclusiveObject");
    assert(hints@.map_values(|h: &str| h@) =~= mutex_hints());
    let lower: Vec<char> = ascii_lower_chars(&chars_of(name));
    let mut k: usize = 0;
    while k < hints.len()
        invariant
            hints@.map_values(|h: &str| h@) == mutex_hints(),
            lower@ == ascii_lower(name@),
            k <= hints@.len(),
            forall|j: int|
                0 <= j < k ==> !contains_seq(ascii_lower(name@), ascii_lower(#[trigger] mutex_hints()[j])),
        decreases hints@.len() - k,
    {
        assert(hints@.map_values(|h: &str| h@)[k as int] == hints@[k as int]@);
        let hint: Vec<char> = ascii_lower_chars(&chars_of(hints[k]));
        if contains_chars(&lower, &hint) {
            return true;
        }
        k = k + 1;
    }
    false
}

/// The most object names looked up in one process when handle types are unknown.
pub const MAX_NAME_QUERIES: usize = 120;

/// What to do with the next handle of a process being scanned.
#[derive(Debug, Clone, Copy, PartialEq, Eq, Structural)]
pub enum HandleStep {
    /// Stop scanning this process.
    Stop,
    /// Pass over this handle.
    Skip,
    /// Look up the handle's object name.
    Query,
}

/// The step for a handle of type `type_index`, given the type of lock objects
/// (when known), how many names were looked up so far, and whether the time
/// allowed is over, with the count of lookups after the step: stop when time
/// is over; with a known lock type, pass over other types and look up that
/// type; with no known type, look up names until `MAX_NAME_QUERIES` were
/// looked up, then stop. A lookup adds one to the count.
pub fn handle_step(type_index: u16, mutant_type: Option<u16>, name_queries: usize, deadline_passed: bool) -> (r:
    (HandleStep, usize))
    requires
        name_queries < usize::MAX,
    ensures
        deadline_passed ==> r.0 == HandleStep::Stop,
        !deadline_passed && mutant_type is Some && mutant_type->0 != type_index ==> r.0
            == HandleStep::Skip,
        !deadline_passed && mutant_type is Some && mutant_type->0 == type_index ==> r.0
            == HandleStep::Query,
        !deadline_passed && mutant_type is None ==> (r.0 == HandleStep::Stop <==> name_queries
            >= MAX_NAME_QUERIES) && (r.0 == HandleStep::Query <==> name_queries < MAX_NAME_QUERIES),
        r.1 == if r.0 == HandleStep::Query {
            name_queries + 1
        } else {
            name_queries as int
        },
        mutant_type is None && name_queries <= MAX_NAME_QUERIES ==> r.1 <= MAX_NAME_QUERIES,
{
    if deadline_passed {
        return (HandleStep::Stop, name_queries);
    }
    match mutant_type {
        Some(m) => {
            if type_index != m {
                (HandleStep::Skip, name_queries)
            } else {
                (HandleStep::Query, name_queries + 1)
            }
        },
        None => {
            if name_queries >= MAX_NAME_QUERIES {
                (HandleStep::Stop, name_queries)
            } else {
                (HandleStep::Query, name_queries + 1)
            }
        },
    }
}

/// A handle value is that of the probe object: equal to it in full, or in its
/// low 16 or low 32 bits.
pub open spec fn probe_matches(handle_value: usize, target: usize) -> bool {
    handle_value == target || handle_value == (target & 0xffff) || handle_value == (target
        & 0xffff_ffff)
}

/// The type of the first of our own handles that is the probe object, if any.
pub open spec fn probe_type(entries: Seq<(usize, u16)>, target: usize) -> Option<u16>
    decreases entries.len(),
{
    if entries.len() == 0 {
        None
    } else if probe_matches(entries[0].0, target) {
        Some(entries[0].1)
    } else {
        probe_type(entries.drop_first(), target)
    }
}

/// Finds the lock object type from our own handles and the value of a lock
/// object we created: the type of the first handle that is that object.
pub fn find_probe_type(entries: &Vec<(usize, u16)>, target: usize) -> (r: Option<u16>)
    ensures
        r == probe_type(entries@, target),
{
    let mut i: usize = 0;
    assert(entries@.subrange(0, entries@.len() as int) =~= entries@);
    while i < entries.len()
        invariant
            i <= entries@.len(),
            probe_type(entries@, target) == probe_type(
                entries@.subrange(i as int, entries@.len() as int),
                target,
            ),
        decreases entries@.len() - i,
    {
        let (hv, ty) = entries[i];
        let ghost rest = entries@.subrange(i as int, entries@.len() as int);
        assert(rest.drop_first() =~= entries@.subrange(i + 1, entries@.len() as int));
        assert(rest[0] == entries@[i as int]);
        if hv == target || hv == (target & 0xffff) || hv == (target & 0xffff_ffff) {
            return Some(ty);
        }
        i = i + 1;
    }
    None
}

/// The buffer size the handle table is first read with (1 MiB).
pub const HANDLE_TABLE_INITIAL: usize = 1048576;

/// The largest buffer the handle table is read with (64 MiB).
pub const HANDLE_TABLE_LIMIT: usize = 67108864;

/// How many times the handle table is read before giving up.
pub const HANDLE_TABLE_TRIES: u32 = 6;

/// The refusal when the handle table outgrows `HANDLE_TABLE_LIMIT`.
pub open spec fn table_too_large_message() -> Seq<char> {
    "系统句柄表过大，跳过本次扫描"@
}

/// The refusal when every try found the buffer too small.
pub open spec fn table_exhausted_message() -> Seq<char> {
    "句柄枚举缓冲区不足"@
}

/// The refusal when every try found the buffer too small.
pub fn table_exhausted() -> (r: String)
    ensures
        r@ == table_exhausted_message(),
{
    string_from("句柄枚举缓冲区不足")
}

/// The buffer size for the next read of the handle table, after a read with
/// `size` bytes reported that `returned` bytes are needed: the larger of
/// twice each, or the refusal when that is above `HANDLE_TABLE_LIMIT`.
pub fn next_table_size(size: usize, returned: u32) -> (r: Result<usize, String>)
    requires
        size <= HANDLE_TABLE_LIMIT,
    ensures
        ({
            let grown: int = if 2 * returned >= 2 * size {
                2 * returned
            } else {
                2 * size
            };
            &&& grown <= HANDLE_TABLE_LIMIT ==> r is Ok && r->Ok_0 == grown
            &&& grown > HANDLE_TABLE_LIMIT ==> r is Err && r->Err_0@ == table_too_large_message()
        }),
{
    let doubled: u64 = 2 * (returned as u64);
    let twice: u64 = 2 * (size as u64);
    let grown: u64 = if doubled >= twice {
        doubled
    } else {
        twice
    };
    if grown > HANDLE_TABLE_LIMIT as u64 {
        Err(string_from("系统句柄表过大，跳过本次扫描"))
    } else {
        Ok(grown as usize)
    }
}

/// One entry of the system handle table.
#[derive(Debug, Clone, Copy)]
pub struct HandleEntry {
    /// The owning process, as the table stores it.
    pub owner: usize,
    /// The handle's value in its owner.
    pub handle_value: usize,
    /// The handle's object type.
    pub type_index: u16,
}

/// The `(handle, type)` pairs of the entries owned by `pid` (owner compared
/// in its low 32 bits), in table order.
pub open spec fn entries_of(entries: Seq<HandleEntry>, pid: u32) -> Seq<(usize, u16)>
    decreases entries.len(),
{
    if entries.len() == 0 {
        seq![]
    } else if entries.last().owner as u32 == pid {
        entries_of(entries.drop_last(), pid).push(
            (entries.last().handle_value, entries.last().type_index),
        )
    } else {
        entries_of(entries.drop_last(), pid)
    }
}

/// The handles of process `pid` among the table's entries.
pub fn handles_of_process(entries: &Vec<HandleEntry>, pid: u32) -> (r: Vec<(usize, u16)>)
    ensures
        r@ == entries_of(entries@, pid),
{
    let mut out: Vec<(usize, u16)> = Vec::new();
    let mut i: usize = 0;
    while i < entries.len()
        invariant
            i <= entries@.len(),
            out@ == entries_of(entries@.subrange(0, i as int), pid),
        decreases entries@.len() - i,
    {
        let e: HandleEntry = entries[i];
        assert(entries@.subrange(0, i + 1).drop_last() =~= entries@.subrange(0, i as int));
        let owner: u32 = #[verifier::truncate] (e.owner as u32);
        if owner == pid {
            out.push((e.handle_value, e.type_index));
        }
        i = i + 1;
    }
    assert(entries@.subrange(0, entries@.len() as int) =~= entries@);
    out
}

/// The report of releasing the client's single-instance lock: nothing to do
/// when no main process runs; a failure when nothing was released and some
/// process could not be scanned; otherwise how many lock handles were released.
pub open spec fn release_summary_spec(any_pids: bool, closed: nat, errors: Seq<Seq<char>>) -> Result<
    Seq<char>,
    Seq<char>,
> {
    if !any_pids {
        Ok("未发现运行中的企业微信，可直接启动"@)
    } else if closed == 0 && errors.len() > 0 {
        Err("释放互斥体失败（可尝试以管理员运行）: "@ + join(errors, "; "@))
    } else if closed > 0 {
        Ok("已释放 "@ + decimal(closed) + " 个互斥句柄"@)
    } else {
        Ok("未匹配到互斥句柄（可能已释放或版本更名）"@)
    }
}

/// The report of releasing the lock, from whether any main process ran, how
/// many lock handles were released, and the errors met (one per process).
pub fn release_summary(any_pids: bool, closed: usize, errors: Vec<String>) -> (r: Result<
    String,
    String,
>)
    ensures
        result_texts(r) == release_summary_spec(any_pids, closed as nat, texts(errors@)),
{
    if !any_pids {
        return Ok(string_from("未发现运行中的企业微信，可直接启动"));
    }
    if closed == 0 && errors.len() > 0 {
        let v: Vec<char> = concat_chars(
            &chars_of("释放互斥体失败（可尝试以管理员运行）: "),
            &join_chars(&errors, "; "),
        );
        return Err(string_of(&v));
    }
    if closed > 0 {
        let mut v: Vec<char> = chars_of("已释放 ");
        v = concat_chars(&v, &decimal_chars(closed as u64));
        v = append_str(v, " 个互斥句柄");
        Ok(string_of(&v))
    } else {
        Ok(string_from("未匹配到互斥句柄（可能已释放或版本更名）"))
    }
}

/// The error recorded for a process whose scan failed.
pub fn pid_error(pid: u32, e: &str) -> (r: String)
    ensures
        r@ == "PID "@ + decimal(pid as nat) + ": "@ + e@,
{
    let mut v: Vec<char> = chars_of("PID ");
    v = concat_chars(&v, &decimal_chars(pid as u64));
    v = append_str(v, ": ");
    v = append_str(v, e);
    string_of(&v)
}

/// `s` without its trailing `\\` and `/` characters.
pub open spec fn trim_end_separators(s: Seq<char>) -> Seq<char>
    decreases s.len(),
{
    if s.len() > 0 && (s.last() == '\\' || s.last() == '/') {
        trim_end_separators(s.drop_last())
    } else {
        s
    }
}

/// `s` is a bare drive such as `C:`.
pub open spec fn is_drive_prefix(s: Seq<char>) -> bool {
    s.len() == 2 && s[1] == ':' && (('a' <= s[0] && s[0] <= 'z') || ('A' <= s[0] && s[0] <= 'Z'))
}

/// The client's executable inside folder `base`, joined as Windows joins a
/// relative name to a path: no separator after an empty path or a bare drive,
/// one backslash otherwise.
pub open spec fn join_client_exe(base: Seq<char>) -> Seq<char> {
    if base.len() == 0 || is_drive_prefix(base) {
        base + "WXWork.exe"@
    } else {
        base + "\\WXWork.exe"@
    }
}

/// The executable named by the install location the registry records: the
/// value itself when it ends in `.exe` (in any ASCII case), otherwise the
/// client's executable in that folder, trailing separators dropped.
pub open spec fn registry_exe(install: Seq<char>) -> Seq<char> {
    if ends_with(ascii_lower(install), ".exe"@) {
        install
    } else {
        join_client_exe(trim_end_separators(install))
    }
}

proof fn lemma_trim_end_separators(s: Seq<char>, j: int)
    requires
        0 <= j <= s.len(),
        forall|k: int| j <= k < s.len() ==> (#[trigger] s[k] == '\\' || s[k] == '/'),
    ensures
        trim_end_separators(s) == trim_end_separators(s.subrange(0, j)),
    decreases s.len() - j,
{
    if j < s.len() {
        let t = s.drop_last();
        assert forall|k: int| j <= k < t.len() implies (#[trigger] t[k] == '\\' || t[k] == '/') by {
            assert(t[k] == s[k]);
        }
        lemma_trim_end_separators(t, j);
        assert(t.subrange(0, j) =~= s.subrange(0, j));
    } else {
        assert(s.subrange(0, j) =~= s);
    }
}

/// The path of the client's executable from the install location the
/// registry records.
pub fn registry_exe_path(install: &str) -> (r: String)
    ensures
        r@ == registry_exe(install@),
{
    let v: Vec<char> = chars_of(install);
    let lower: Vec<char> = ascii_lower_chars(&v);
    if ends_with_str(&lower, ".exe") {
        return string_of(&v);
    }
    let mut j: usize = v.len();
    while j > 0 && (v[j - 1] == '\\' || v[j - 1] == '/')
        invariant
            j <= v@.len(),
            forall|k: int| j <= k < v@.len() ==> (#[trigger] v@[k] == '\\' || v@[k] == '/'),
        decreases j,
    {
        j = j - 1;
    }
    proof {
        lemma_trim_end_separators(v@, j as int);
    }
    let mut base: Vec<char> = Vec::new();
    let mut k: usize = 0;
    while k < j
        invariant
            k <= j <= v@.len(),
            base@ == v@.subrange(0, k as int),
        decreases j - k,
    {
        base.push(v[k]);
        k = k + 1;
    }
    assert(trim_end_separators(base@) == base@) by {
        if base@.len() > 0 {
            assert(base@.last() == v@[j - 1]);
        }
    }
    let drive: bool = base.len() == 2 && base[1] == ':' && (('a' <= base[0] && base[0] <= 'z') || (
    'A' <= base[0] && base[0] <= 'Z'));
    let joined: Vec<char> = if base.len() == 0 || drive {
        append_str(base, "WXWork.exe")
    } else {
        append_str(base, "\\WXWork.exe")
    };
    string_of(&joined)
}

/// The places the client is installed in, in the order they are tried.
pub open spec fn default_app_paths() -> Seq<Seq<char>> {
    seq![
        "C:\\Program Files (x86)\\WXWork\\WXWork.exe"@,
        "C:\\Program Files\\WXWork\\WXWork.exe"@,
        "D:\\Program Files (x86)\\WXWork\\WXWork.exe"@,
        "D:\\Program Files\\WXWork\\WXWork.exe"@,
    ]
}

/// The optional text as a sequence of zero or one texts.
pub open spec fn optional(p: Option<&str>) -> Seq<Seq<char>> {
    match p {
        Some(s) => seq![s@],
        None => seq![],
    }
}

/// The paths tried for the client, in order: the one the user gave, the one
/// the registry names, then the defaults.
pub fn app_path_candidates(override_path: Option<&str>, registry_path: Option<&str>) -> (r: Vec<
    String,
>)
    ensures
        texts(r@) == optional(override_path) + optional(registry_path) + default_app_paths(),
{
    let mut v: Vec<String> = Vec::new();
    match override_path {
        Some(p) => v.push(string_from(p)),
        None => {},
    }
    match registry_path {
        Some(p) => v.push(string_from(p)),
        None => {},
    }
    let ghost head = v@;
    assert(texts(head) =~= optional(override_path) + optional(registry_path));
    v.push(string_from("C:\\Program Files (x86)\\WXWork\\WXWork.exe"));
    v.push(string_from("C:\\Program Files\\WXWork\\WXWork.exe"));
    v.push(string_from("D:\\Program Files (x86)\\WXWork\\WXWork.exe"));
    v.push(string_from("D:\\Program Files\\WXWork\\WXWork.exe"));
    assert(texts(v@) =~= texts(head) + default_app_paths());
    v
}

/// The first of the candidate paths that exists (`exists` tells, per candidate).
pub fn resolve_app_path(candidates: &Vec<String>, exists: &Vec<bool>) -> (r: Option<String>)
    requires
        candidates@.len() == exists@.len(),
    ensures
        r is None <==> first_existing_spec(texts(candidates@), exists@) is None,
        r is Some ==> r->0@ == first_existing_spec(texts(candidates@), exists@)->0,
{
    first_existing(candidates, exists)
}

/// The user names of the users that do not exist, in order.
pub open spec fn missing_names(users: Seq<SafeModeUserStatus>) -> Seq<Seq<char>>
    decreases users.len(),
{
    if users.len() == 0 {
        seq![]
    } else if users.last().exists {
        missing_names(users.drop_last())
    } else {
        missing_names(users.drop_last()).push(users.last().username@)
    }
}

/// The warning given when the launcher is not elevated.
pub open spec fn admin_warning() -> Seq<char> {
    "当前未以管理员运行：准备本地用户可能失败，建议右键「以管理员身份运行」。"@
}

/// The warning given when the password is missing or short.
pub open spec fn password_warning() -> Seq<char> {
    "本地用户密码未填或不足 8 位。"@
}

/// The warning that lists the missing users.
pub open spec fn missing_warning(missing: Seq<Seq<char>>) -> Seq<char> {
    "缺少本地用户："@ + join(missing, ", "@) + "。请先点「准备本地用户」。"@
}

/// The warnings of a safe-mode check, in order: not elevated, weak password, missing users.
pub open spec fn health_warnings(is_admin: bool, password_ok: bool, missing: Seq<Seq<char>>) -> Seq<
    Seq<char>,
> {
    (if !is_admin {
        seq![admin_warning()]
    } else {
        seq![]
    }) + (if !password_ok {
        seq![password_warning()]
    } else {
        seq![]
    }) + (if missing.len() > 0 {
        seq![missing_warning(missing)]
    } else {
        seq![]
    })
}

/// The summary of a safe-mode check.
pub open spec fn health_summary(
    total: nat,
    missing: Seq<Seq<char>>,
    is_admin: bool,
    password_ok: bool,
) -> Seq<char> {
    if missing.len() == 0 && password_ok {
        "安全模式校验通过："@ + decimal((total - missing.len()) as nat) + "/"@ + decimal(total)
            + " 用户已就绪"@ + (if is_admin {
            "，管理员权限正常"@
        } else {
            "（非管理员，启动通常仍可用）"@
        })
    } else {
        "安全模式未就绪："@ + join(health_warnings(is_admin, password_ok, missing), " "@)
    }
}

fn missing_of(users: &Vec<SafeModeUserStatus>) -> (r: Vec<String>)
    ensures
        texts(r@) == missing_names(users@),
        r@.len() <= users@.len(),
{
    let mut r: Vec<String> = Vec::new();
    let mut i: usize = 0;
    while i < users.len()
        invariant
            i <= users@.len(),
            texts(r@) == missing_names(users@.subrange(0, i as int)),
            r@.len() <= i,
        decreases users@.len() - i,
    {
        assert(users@.subrange(0, i + 1).drop_last() =~= users@.subrange(0, i as int));
        if !users[i].exists {
            let ghost before = r@;
            r.push(users[i].username.clone());
            assert(texts(r@) =~= texts(before).push(users@[i as int].username@));
        }
        i = i + 1;
    }
    assert(users@.subrange(0, users@.len() as int) =~= users@);
    r
}

/// Whether safe mode is ready, given each slot user's existence (as the
/// system reports it), whether the launcher is elevated, and the password.
pub fn check_safe_mode_health(
    users: Vec<SafeModeUserStatus>,
    is_admin: bool,
    password: Option<&str>,
) -> (r: SafeModeHealth)
    ensures
        r.platform_ok,
        r.is_admin == is_admin,
        r.password_ok == password_given_strong(password),
        r.users@ == users@,
        texts(r.missing_users@) == missing_names(users@),
        r.ready == (missing_names(users@).len() == 0 && r.password_ok),
        texts(r.warnings@) == health_warnings(is_admin, r.password_ok, missing_names(users@)),
        r.summary@ == health_summary(
            users@.len(),
            missing_names(users@),
            is_admin,
            r.password_ok,
        ),
{
    let missing: Vec<String> = missing_of(&users);
    let pw_ok: bool = match password {
        Some(p) => password_ok(p),
        None => false,
    };
    let mut warnings: Vec<String> = Vec::new();
    if !is_admin {
        warnings.push(string_from("当前未以管理员运行：准备本地用户可能失败，建议右键「以管理员身份运行」。"));
    }
    if !pw_ok {
        warnings.push(string_from("本地用户密码未填或不足 8 位。"));
    }
    if missing.len() > 0 {
        let mut w: Vec<char> = chars_of("缺少本地用户：");
        w = concat_chars(&w, &join_chars(&missing, ", "));
        w = append_str(w, "。请先点「准备本地用户」。");
        warnings.push(string_of(&w));
    }
    assert(texts(warnings@) =~= health_warnings(is_admin, pw_ok, missing_names(users@)));
    let ready: bool = missing.len() == 0 && pw_ok;
    let summary: String = if ready {
        let mut s: Vec<char> = chars_of("安全模式校验通过：");
        s = concat_chars(&s, &decimal_chars((users.len() - missing.len()) as u64));
        s = append_str(s, "/");
        s = concat_chars(&s, &decimal_chars(users.len() as u64));
        s = append_str(s, " 用户已就绪");
        if is_admin {
            s = append_str(s, "，管理员权限正常");
        } else {
            s = append_str(s, "（非管理员，启动通常仍可用）");
        }
        string_of(&s)
    } else {
        let s: Vec<char> = chars_of("安全模式未就绪：");
        let j: Vec<char> = join_chars(&warnings, " ");
        string_of(&concat_chars(&s, &j))
    };
    SafeModeHealth {
        platform_ok: true,
        is_admin,
        password_ok: pw_ok,
        users,
        missing_users: missing,
        ready,
        warnings,
        summary,
    }
}

/// The refusal given when the safe-mode password is too short.
pub open spec fn short_password_message() -> Seq<char> {
    "安全模式密码至少 8 位（需满足 Windows 密码策略）"@
}

/// Accepts a safe-mode password of at least 8 bytes once trimmed, and gives
/// the password the accounts are created with: the one given, as it is (only
/// its length is judged trimmed). The accounts are prepared only after this
/// passes.
pub fn validate_safe_mode_password(password: &str) -> (r: Result<String, String>)
    ensures
        r is Ok <==> password_strong(password@),
        r is Ok ==> r->Ok_0@ == password@,
        r is Err ==> r->Err_0@ == short_password_message(),
{
    if password_ok(password) {
        Ok(string_from(password))
    } else {
        Err(string_from("安全模式密码至少 8 位（需满足 Windows 密码策略）"))
    }
}

/// What preparing one slot user did.
#[derive(Debug, Clone)]
pub enum UserSetup {
    /// The user already existed.
    Existed,
    /// The user was created.
    Created,
    /// Creating the user failed for the reason given.
    Failed(String),
}

/// The users among the first `n` that were created, in order.
pub open spec fn created_upto(users: Seq<Seq<char>>, outcomes: Seq<UserSetup>, n: nat) -> Seq<
    Seq<char>,
>
    decreases n,
{
    if n == 0 {
        seq![]
    } else if outcomes[n - 1] is Created {
        created_upto(users, outcomes, (n - 1) as nat).push(users[n - 1])
    } else {
        created_upto(users, outcomes, (n - 1) as nat)
    }
}

/// The users among the first `n` that already existed, in order.
pub open spec fn existed_upto(users: Seq<Seq<char>>, outcomes: Seq<UserSetup>, n: nat) -> Seq<
    Seq<char>,
>
    decreases n,
{
    if n == 0 {
        seq![]
    } else if outcomes[n - 1] is Existed {
        existed_upto(users, outcomes, (n - 1) as nat).push(users[n - 1])
    } else {
        existed_upto(users, outcomes, (n - 1) as nat)
    }
}

/// `"user: reason"` for each of the first `n` users whose creation failed, in order.
pub open spec fn failed_upto(users: Seq<Seq<char>>, outcomes: Seq<UserSetup>, n: nat) -> Seq<
    Seq<char>,
>
    decreases n,
{
    if n == 0 {
        seq![]
    } else if outcomes[n - 1] is Failed {
        failed_upto(users, outcomes, (n - 1) as nat).push(
            users[n - 1] + ": "@ + outcomes[n - 1]->Failed_0@,
        )
    } else {
        failed_upto(users, outcomes, (n - 1) as nat)
    }
}

/// The report message of preparing the safe-mode users.
pub open spec fn prepare_message(created: nat, existed: nat, failed: Seq<Seq<char>>) -> Seq<char> {
    if failed.len() == 0 {
        "安全模式用户就绪：新建 "@ + decimal(created) + "，已存在 "@ + decimal(existed)
            + "。请以管理员运行启动器。"@
    } else {
        "部分失败（通常需要管理员权限）: "@ + join(failed, "; "@)
    }
}

/// The report of preparing the slot users `users`, given what preparing each did.
pub fn ensure_safe_mode_users(users: &Vec<String>, outcomes: &Vec<UserSetup>) -> (r:
    SafeModePrepareResult)
    requires
        users@.len() == outcomes@.len(),
    ensures
        texts(r.created@) == created_upto(texts(users@), outcomes@, users@.len()),
        texts(r.already_existed@) == existed_upto(texts(users@), outcomes@, users@.len()),
        texts(r.failed@) == failed_upto(texts(users@), outcomes@, users@.len()),
        r.message@ == prepare_message(
            r.created@.len(),
            r.already_existed@.len(),
            texts(r.failed@),
        ),
{
    let ghost names = texts(users@);
    let mut created: Vec<String> = Vec::new();
    let mut existed: Vec<String> = Vec::new();
    let mut failed: Vec<String> = Vec::new();
    let mut i: usize = 0;
    while i < users.len()
        invariant
            i <= users@.len(),
            users@.len() == outcomes@.len(),
            names == texts(users@),
            texts(created@) == created_upto(names, outcomes@, i as nat),
            texts(existed@) == existed_upto(names, outcomes@, i as nat),
            texts(failed@) == failed_upto(names, outcomes@, i as nat),
        decreases users@.len() - i,
    {
        let ghost (c0, e0, f0) = (created@, existed@, failed@);
        match &outcomes[i] {
            UserSetup::Existed => {
                existed.push(users[i].clone());
                assert(texts(existed@) =~= texts(e0).push(names[i as int]));
            },
            UserSetup::Created => {
                created.push(users[i].clone());
                assert(texts(created@) =~= texts(c0).push(names[i as int]));
            },
            UserSetup::Failed(e) => {
                let mut line: Vec<char> = chars_of(users[i].as_str());
                line = append_str(line, ": ");
                line = concat_chars(&line, &chars_of(e.as_str()));
                failed.push(string_of(&line));
                assert(texts(failed@) =~= texts(f0).push(
                    names[i as int] + ": "@ + outcomes@[i as int]->Failed_0@,
                ));
            },
        }
        i = i + 1;
    }
    let message: String = if failed.len() == 0 {
        let mut s: Vec<char> = chars_of("安全模式用户就绪：新建 ");
        s = concat_chars(&s, &decimal_chars(created.len() as u64));
        s = append_str(s, "，已存在 ");
        s = concat_chars(&s, &decimal_chars(existed.len() as u64));
        s = append_str(s, "。请以管理员运行启动器。");
        string_of(&s)
    } else {
        let s: Vec<char> = chars_of("部分失败（通常需要管理员权限）: ");
        string_of(&concat_chars(&s, &join_chars(&failed, "; ")))
    };
    SafeModePrepareResult { created, already_existed: existed, failed, message }
}

/// The missing users are exactly the users that do not exist: every such
/// user's name is listed, and every listed name is that of such a user; so
/// safe mode is never ready while a user is missing.
pub proof fn lemma_missing_names_exact(users: Seq<SafeModeUserStatus>)
    ensures
        forall|k: int|
            0 <= k < users.len() && !users[k].exists ==> missing_names(users).contains(
                #[trigger] users[k].username@,
            ),
        forall|x: Seq<char>|
            missing_names(users).contains(x) ==> exists|k: int|
                0 <= k < users.len() && !users[k].exists && #[trigger] users[k].username@ == x,
        (exists|k: int| 0 <= k < users.len() && !#[trigger] users[k].exists) ==> missing_names(
            users,
        ).len() > 0,
    decreases users.len(),
{
    if users.len() > 0 {
        let init = users.drop_last();
        lemma_missing_names_exact(init);
        let m0 = missing_names(init);
        let m = missing_names(users);
        assert forall|k: int|
            0 <= k < users.len() && !users[k].exists implies m.contains(
                #[trigger] users[k].username@,
            ) by {
            if k < users.len() - 1 {
                assert(init[k] == users[k]);
                let j = choose|j: int| 0 <= j < m0.len() && m0[j] == users[k].username@;
                if !users.last().exists {
                    assert(m[j] == m0[j]);
                }
            } else {
                assert(m[m.len() - 1] == users.last().username@);
            }
        }
        assert forall|x: Seq<char>| m.contains(x) implies exists|k: int|
            0 <= k < users.len() && !users[k].exists && #[trigger] users[k].username@ == x by {
            let j = choose|j: int| 0 <= j < m.len() && m[j] == x;
            if j < m0.len() {
                assert(m0[j] == x);
                assert(m0.contains(x));
                let k = choose|k: int|
                    0 <= k < init.len() && !init[k].exists && #[trigger] init[k].username@ == x;
                assert(users[k] == init[k]);
            } else {
                assert(users[users.len() - 1].username@ == x);
            }
        }
        if exists|k: int| 0 <= k < users.len() && !#[trigger] users[k].exists {
            let k = choose|k: int| 0 <= k < users.len() && !#[trigger] users[k].exists;
            assert(m.contains(users[k].username@));
        }
    }
}

/// Each prepared user is reported exactly once, under its own outcome: the
/// created, already existing and failed lists together have one entry per
/// user; a created user is listed as created, an existing one as existing,
/// and a failed one as failed with its reason; and the created list holds
/// only users whose creation succeeded.
pub proof fn lemma_prepare_report_partitions(
    users: Seq<Seq<char>>,
    outcomes: Seq<UserSetup>,
    n: nat,
)
    requires
        n <= users.len(),
        n <= outcomes.len(),
    ensures
        created_upto(users, outcomes, n).len() + existed_upto(users, outcomes, n).len()
            + failed_upto(users, outcomes, n).len() == n,
        forall|k: int|
            0 <= k < n && #[trigger] outcomes[k] is Created ==> created_upto(
                users,
                outcomes,
                n,
            ).contains(users[k]),
        forall|k: int|
            0 <= k < n && #[trigger] outcomes[k] is Existed ==> existed_upto(
                users,
                outcomes,
                n,
            ).contains(users[k]),
        forall|k: int|
            0 <= k < n && #[trigger] outcomes[k] is Failed ==> failed_upto(
                users,
                outcomes,
                n,
            ).contains(users[k] + ": "@ + outcomes[k]->Failed_0@),
        forall|x: Seq<char>|
            created_upto(users, outcomes, n).contains(x) ==> exists|k: int|
                0 <= k < n && #[trigger] outcomes[k] is Created && users[k] == x,
    decreases n,
{
    if n > 0 {
        let m = (n - 1) as nat;
        lemma_prepare_report_partitions(users, outcomes, m);
        let c0 = created_upto(users, outcomes, m);
        let e0 = existed_upto(users, outcomes, m);
        let f0 = failed_upto(users, outcomes, m);
        let c = created_upto(users, outcomes, n);
        let e = existed_upto(users, outcomes, n);
        let f = failed_upto(users, outcomes, n);
        assert forall|k: int|
            0 <= k < n && #[trigger] outcomes[k] is Created implies c.contains(users[k]) by {
            if k < m {
                let j = choose|j: int| 0 <= j < c0.len() && c0[j] == users[k];
                assert(c[j] == c0[j]);
            } else {
                assert(c[c.len() - 1] == users[k]);
            }
        }
        assert forall|k: int|
            0 <= k < n && #[trigger] outcomes[k] is Existed implies e.contains(users[k]) by {
            if k < m {
                let j = choose|j: int| 0 <= j < e0.len() && e0[j] == users[k];
                assert(e[j] == e0[j]);
            } else {
                assert(e[e.len() - 1] == users[k]);
            }
        }
        assert forall|k: int|
            0 <= k < n && #[trigger] outcomes[k] is Failed implies f.contains(
                users[k] + ": "@ + outcomes[k]->Failed_0@,
            ) by {
            if k < m {
                let j = choose|j: int|
                    0 <= j < f0.len() && f0[j] == users[k] + ": "@ + outcomes[k]->Failed_0@;
                assert(f[j] == f0[j]);
            } else {
                assert(f[f.len() - 1] == users[k] + ": "@ + outcomes[k]->Failed_0@);
            }
        }
        assert forall|x: Seq<char>| c.contains(x) implies exists|k: int|
            0 <= k < n && #[trigger] outcomes[k] is Created && users[k] == x by {
            let j = choose|j: int| 0 <= j < c.len() && c[j] == x;
            if j < c0.len() {
                assert(c0[j] == x);
                assert(c0.contains(x));
            } else {
                assert(outcomes[m as int] is Created && users[m as int] == x);
            }
        }
    }
}

/// When every slot user already existed, preparing creates none, reports no
/// failure, and lists every user as already existing, in order.
pub proof fn lemma_prepare_all_existing(users: Seq<Seq<char>>, outcomes: Seq<UserSetup>, n: nat)
    requires
        n <= users.len(),
        n <= outcomes.len(),
        forall|k: int| 0 <= k < n ==> #[trigger] outcomes[k] is Existed,
    ensures
        created_upto(users, outcomes, n) == Seq::<Seq<char>>::empty(),
        failed_upto(users, outcomes, n) == Seq::<Seq<char>>::empty(),
        existed_upto(users, outcomes, n) == users.take(n as int),
    decreases n,
{
    if n > 0 {
        lemma_prepare_all_existing(users, outcomes, (n - 1) as nat);
        assert(outcomes[n - 1] is Existed);
        assert(users.take((n - 1) as int).push(users[n - 1]) =~= users.take(n as int));
    } else {
        assert(users.take(0) =~= Seq::<Seq<char>>::empty());
    }
}

/// The slots among `1..=k` whose recorded process is still alive, ascending.
pub open spec fn busy_upto(slots: Map<u8, u32>, live: Seq<u32>, k: nat) -> Seq<u8>
    decreases k,
{
    if k == 0 {
        seq![]
    } else if slots.contains_key(k as u8) && live.contains(slots[k as u8]) {
        busy_upto(slots, live, (k - 1) as nat).push(k as u8)
    } else {
        busy_upto(slots, live, (k - 1) as nat)
    }
}

/// The record kept after pruning: a slot in `1..=MAX_SLOTS` stays only while its process lives.
pub open spec fn pruned(slots: Map<u8, u32>, live: Seq<u32>) -> Map<u8, u32> {
    Map::new(
        |s: u8| slots.contains_key(s) && (s < 1 || s > MAX_SLOTS || live.contains(slots[s])),
        |s: u8| slots[s],
    )
}

/// The slots whose last launched process is still a live client process;
/// records of slots whose process has gone are dropped.
pub fn busy_slot_indices(live: &Vec<u32>, slots: &mut HashMap<u8, u32>) -> (r: Vec<u8>)
    ensures
        r@ == busy_upto(old(slots)@, live@, MAX_SLOTS as nat),
        final(slots)@ == pruned(old(slots)@, live@),
{
    let ghost orig = slots@;
    let mut busy: Vec<u8> = Vec::new();
    let mut i: u8 = 1;
    while i <= MAX_SLOTS
        invariant
            1 <= i <= MAX_SLOTS + 1,
            busy@ == busy_upto(orig, live@, (i - 1) as nat),
            forall|s: u8|
                #![trigger slots@.contains_key(s)]
                (s < 1 || s >= i) ==> (slots@.contains_key(s) == orig.contains_key(s) && (
                orig.contains_key(s) ==> slots@[s] == orig[s])),
            forall|s: u8|
                #![trigger slots@.contains_key(s)]
                1 <= s < i ==> (slots@.contains_key(s) == (orig.contains_key(s) && live@.contains(
                    orig[s],
                )) && (slots@.contains_key(s) ==> slots@[s] == orig[s])),
        decreases MAX_SLOTS + 1 - i,
    {
        match slots.get(&i) {
            Some(pid) => {
                let p: u32 = *pid;
                let mut alive: bool = false;
                let mut k: usize = 0;
                while k < live.len()
                    invariant
                        k <= live@.len(),
                        alive <==> exists|j: int| 0 <= j < k && live@[j] == p,
                    decreases live@.len() - k,
                {
                    if live[k] == p {
                        alive = true;
                    }
                    k = k + 1;
                }
                assert(alive <==> live@.contains(p));
                if alive {
                    busy.push(i);
                } else {
                    slots.remove(&i);
                }
            },
            None => {},
        }
        i = i + 1;
    }
    assert(slots@ =~= pruned(orig, live@));
    busy
}

proof fn lemma_busy_upto_members(slots: Map<u8, u32>, live: Seq<u32>, k: nat, s: u8)
    requires
        k <= MAX_SLOTS,
    ensures
        busy_upto(slots, live, k).contains(s) <==> (1 <= s <= k && slots.contains_key(s)
            && live.contains(slots[s])),
    decreases k,
{
    if k > 0 {
        lemma_busy_upto_members(slots, live, (k - 1) as nat, s);
        let prev = busy_upto(slots, live, (k - 1) as nat);
        if slots.contains_key(k as u8) && live.contains(slots[k as u8]) {
            let cur = prev.push(k as u8);
            if s == k {
                assert(cur[prev.len() as int] == s);
            }
            if cur.contains(s) && s != k {
                let j = choose|j: int| 0 <= j < cur.len() && cur[j] == s;
                assert(prev[j] == s);
            }
            if prev.contains(s) {
                let j = choose|j: int| 0 <= j < prev.len() && prev[j] == s;
                assert(cur[j] == s);
            }
        }
    }
}

/// A slot just recorded with a live process is busy; a slot just forgotten is not.
pub proof fn lemma_noted_slot_busy(slots: Map<u8, u32>, live: Seq<u32>, index: u8, pid: u32)
    requires
        1 <= index <= MAX_SLOTS,
    ensures
        live.contains(pid) ==> busy_upto(slots.insert(index, pid), live, MAX_SLOTS as nat).contains(
            index,
        ),
        !busy_upto(slots.remove(index), live, MAX_SLOTS as nat).contains(index),
{
    lemma_busy_upto_members(slots.insert(index, pid), live, MAX_SLOTS as nat, index);
    lemma_busy_upto_members(slots.remove(index), live, MAX_SLOTS as nat, index);
}

/// The slot record that a JSON text (an object from slot numbers to pids) holds,
/// or none when the bytes are not such a text.
pub uninterp spec fn slot_record_json(bytes: Seq<u8>) -> Option<Map<u8, u32>>;

/// Reads the slot record from JSON bytes.
///
/// Calls `serde_json::from_slice` into a `HashMap<u8, u32>`. The contract
/// claims that the result is a function of the bytes alone (named
/// `slot_record_json`); what the parse gives is not written out here.
#[verifier::external_body]
fn parse_slot_record(bytes: &[u8]) -> (r: Option<HashMap<u8, u32>>)
    ensures
        r is Some <==> slot_record_json(bytes@) is Some,
        r is Some ==> r->0@ == slot_record_json(bytes@)->0,
{
    serde_json::from_slice(bytes).ok()
}

/// The slot record to work with: the parsed one, or an empty one when the
/// file held no valid record.
pub fn slot_record_or_empty(parsed: Option<HashMap<u8, u32>>) -> (r: HashMap<u8, u32>)
    ensures
        r@ == match parsed {
            Some(m) => m@,
            None => Map::empty(),
        },
{
    match parsed {
        Some(m) => m,
        None => HashMap::new(),
    }
}

/// The slot record kept between runs, from the bytes of its file (none when
/// the file could not be read): what the bytes hold as JSON, or an empty record.
pub fn load_slot_pids(bytes: Option<&[u8]>) -> (r: HashMap<u8, u32>)
    ensures
        r@ == match bytes {
            Some(b) => match slot_record_json(b@) {
                Some(m) => m,
                None => Map::empty(),
            },
            None => Map::empty(),
        },
{
    match bytes {
        Some(b) => slot_record_or_empty(parse_slot_record(b)),
        None => HashMap::new(),
    }
}

/// Writes the slot record as pretty-printed JSON.
///
/// Calls `serde_json::to_vec_pretty`. The contract claims that writing into
/// memory always succeeds for this map type, and that `serde_json::from_slice`
/// reads the bytes back as the same record (slot numbers are written as
/// quoted numbers, which the map-key reader parses back). The order of the
/// entries follows the map's walk and is not claimed.
#[verifier::external_body]
fn slot_record_to_json(slots: &HashMap<u8, u32>) -> (r: Option<Vec<u8>>)
    ensures
        r is Some,
        slot_record_json(r->0@) == Some(slots@),
{
    serde_json::to_vec_pretty(slots).ok()
}

/// The bytes to keep the slot record in, as JSON: they read back as the same record.
pub fn slot_record_bytes(slots: &HashMap<u8, u32>) -> (r: Option<Vec<u8>>)
    ensures
        r is Some,
        slot_record_json(r->0@) == Some(slots@),
{
    slot_record_to_json(slots)
}

/// A slot noted with a live process, once the record is saved and read back,
/// is busy.
pub proof fn lemma_noted_slot_survives_save(
    slots: Map<u8, u32>,
    live: Seq<u32>,
    index: u8,
    pid: u32,
    saved: Seq<u8>,
)
    requires
        1 <= index <= MAX_SLOTS,
        live.contains(pid),
        slot_record_json(saved) == Some(slots.insert(index, pid)),
    ensures
        busy_upto(
            match slot_record_json(saved) {
                Some(m) => m,
                None => Map::empty(),
            },
            live,
            MAX_SLOTS as nat,
        ).contains(index),
{
    lemma_noted_slot_busy(slots, live, index, pid);
}

/// Records (or, with no pid, forgets) the process launched for slot `index`.
pub fn note_slot_pid(slots: &mut HashMap<u8, u32>, index: u8, pid: Option<u32>)
    ensures
        final(slots)@ == match pid {
            Some(p) => old(slots)@.insert(index, p),
            None => old(slots)@.remove(index),
        },
{
    match pid {
        Some(p) => {
            slots.insert(index, p);
        },
        None => {
            slots.remove(&index);
        },
    }
}

/// `s` ends with `suffix`.
pub open spec fn ends_with(s: Seq<char>, suffix: Seq<char>) -> bool {
    suffix.len() <= s.len() && s.subrange(s.len() - suffix.len(), s.len() as int) == suffix
}

/// A main client process: named `WXWork.exe` or `WXWork` (ignoring ASCII case),
/// or run from an executable whose path ends in `wxwork.exe`; never the launcher.
pub open spec fn is_main_process(e: ProcessEntry) -> bool {
    let h = ascii_lower(crate::platform::common::process_text(e));
    let exe = ascii_lower(e.exe@);
    &&& !contains_seq(h, "wecom-multi-launcher"@)
    &&& !contains_seq(h, "wecom launcher"@)
    &&& {
        ||| ascii_lower(e.name@) == "wxwork.exe"@
        ||| ascii_lower(e.name@) == "wxwork"@
        ||| ends_with(exe, "\\wxwork.exe"@)
        ||| ends_with(exe, "/wxwork.exe"@)
    }
}

fn ends_with_str(s: &Vec<char>, suffix: &str) -> (r: bool)
    ensures
        r == ends_with(s@, suffix@),
{
    let t: Vec<char> = chars_of(suffix);
    if t.len() > s.len() {
        return false;
    }
    let off: usize = s.len() - t.len();
    let mut k: usize = 0;
    while k < t.len()
        invariant
            t@ == suffix@,
            off + t@.len() == s@.len(),
            s@.len() <= usize::MAX,
            k <= t@.len(),
            forall|j: int| 0 <= j < k ==> s@[off + j] == t@[j],
        decreases t@.len() - k,
    {
        if s[off + k] != t[k] {
            assert(s@.subrange(off as int, s@.len() as int)[k as int] != t@[k as int]);
            return false;
        }
        k = k + 1;
    }
    assert(s@.subrange(off as int, s@.len() as int) =~= t@);
    true
}

fn main_process(e: &ProcessEntry) -> (r: bool)
    ensures
        r == is_main_process(*e),
{
    let name: Vec<char> = chars_of(e.name.as_str());
    let mut sep: Vec<char> = Vec::new();
    sep.push(' ');
    assert(sep@ =~= seq![' ']);
    let exe: Vec<char> = chars_of(e.exe.as_str());
    let h: Vec<char> = ascii_lower_chars(&concat_chars(&concat_chars(&name, &sep), &exe));
    if contains_chars(&h, &chars_of("wecom-multi-launcher")) || contains_chars(
        &h,
        &chars_of("wecom launcher"),
    ) {
        return false;
    }
    let lname: Vec<char> = ascii_lower_chars(&name);
    let lexe: Vec<char> = ascii_lower_chars(&exe);
    crate::text::chars_eq_str(&lname, "wxwork.exe") || crate::text::chars_eq_str(&lname, "wxwork")
        || ends_with_str(&lexe, "\\wxwork.exe") || ends_with_str(&lexe, "/wxwork.exe")
}

/// The pids of the main client processes, ascending and without repeats;
/// when there is none, those of all client processes.
pub fn wecom_main_pids(processes: &Vec<ProcessEntry>) -> (r: Vec<u32>)
    ensures
        strictly_increasing(r@),
        (exists|i: int| 0 <= i < processes@.len() && is_main_process(#[trigger] processes@[i]))
            ==> forall|p: u32|
            r@.contains(p) <==> exists|i: int|
                0 <= i < processes@.len() && is_main_process(#[trigger] processes@[i])
                    && processes@[i].pid == p,
        !(exists|i: int| 0 <= i < processes@.len() && is_main_process(#[trigger] processes@[i]))
            ==> forall|p: u32|
            r@.contains(p) <==> exists|i: int|
                0 <= i < processes@.len() && is_client_process(#[trigger] processes@[i])
                    && processes@[i].pid == p,
{
    let mut pids: Vec<u32> = Vec::new();
    let mut i: usize = 0;
    while i < processes.len()
        invariant
            i <= processes@.len(),
            strictly_increasing(pids@),
            forall|p: u32|
                pids@.contains(p) <==> exists|j: int|
                    0 <= j < i && is_main_process(#[trigger] processes@[j])
                        && processes@[j].pid == p,
        decreases processes@.len() - i,
    {
        let ghost before = pids@;
        if main_process(&processes[i]) {
            insert_sorted(&mut pids, processes[i].pid);
        }
        assert forall|p: u32|
            pids@.contains(p) <==> exists|j: int|
                0 <= j < i + 1 && is_main_process(#[trigger] processes@[j])
                    && processes@[j].pid == p by {
            if exists|j: int|
                0 <= j < i + 1 && is_main_process(#[trigger] processes@[j])
                    && processes@[j].pid == p {
                let j = choose|j: int|
                    0 <= j < i + 1 && is_main_process(#[trigger] processes@[j])
                        && processes@[j].pid == p;
                if j < i {
                    assert(before.contains(p));
                }
            }
        }
        i = i + 1;
    }
    if pids.len() == 0 {
        assert forall|i: int| 0 <= i < processes@.len() implies !is_main_process(
            #[trigger] processes@[i],
        ) by {
            if is_main_process(processes@[i]) {
                assert(pids@.contains(processes@[i].pid));
            }
        }
        return list_wecom_pids(processes);
    }
    assert(pids@.contains(pids@[0]));
    pids
}

} // verus!
