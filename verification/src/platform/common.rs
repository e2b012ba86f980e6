//! Platform-independent decisions: which running processes belong to the
//! client, which to stop, and which account slots are free.

use vstd::prelude::*;

use std::collections::HashSet;

use crate::models::MAX_SLOTS;
use crate::policy::clamped;
use crate::text::{
    chars_of, concat_chars, contains_chars, contains_seq, decimal, decimal_chars, string_of, texts,
};

verus! {

broadcast use {
    vstd::set::group_set_axioms,
    vstd::seq_lib::group_seq_properties,
    vstd::std_specs::hash::group_hash_axioms,
};

/// The process-name fragments that identify the client across locales and versions.
pub open spec fn matcher_names() -> Seq<Seq<char>> {
    seq!["WXWork"@, "wxwork"@, "WeCom"@, "wecom"@, "企业微信"@, "WeChatWork"@, "wechatwork"@]
}

/// Process name fragments used to find the client across locales/versions.
pub fn wecom_process_matchers() -> (r: &'static [&'static str])
    ensures
        r@.map_values(|s: &str| s@) == matcher_names(),
{
    let m: &'static [&'static str] = &[
        "WXWork",
        "wxwork",
        "WeCom",
        "wecom",
        "企业微信",
        "WeChatWork",
        "wechatwork",
    ];
    assert(m@.map_values(|s: &str| s@) =~= matcher_names());
    m
}

/// The name under which the launcher reports an operating system: "windows"
/// and "macos" are supported, every other system is "unsupported".
pub open spec fn platform_name(os: Seq<char>) -> Seq<char> {
    if os == "windows"@ {
        "windows"@
    } else if os == "macos"@ {
        "macos"@
    } else {
        "unsupported"@
    }
}

/// The platform name for the operating system `os` (as `std::env::consts::OS` names it).
pub fn current_platform(os: &str) -> (r: &'static str)
    ensures
        r@ == platform_name(os@),
{
    let v: Vec<char> = chars_of(os);
    if crate::text::chars_eq_str(&v, "windows") {
        "windows"
    } else if crate::text::chars_eq_str(&v, "macos") {
        "macos"
    } else {
        "unsupported"
    }
}

/// One running process as the process table shows it.
#[derive(Debug, Clone)]
pub struct ProcessEntry {
    pub pid: u32,
    /// The process name.
    pub name: String,
    /// The executable path, empty where unknown.
    pub exe: String,
}

/// The text a process is matched by: its name, a space, its executable path.
pub open spec fn process_text(e: ProcessEntry) -> Seq<char> {
    e.name@ + seq![' '] + e.exe@
}

/// Some matcher occurs in `h`.
pub open spec fn names_client(h: Seq<char>) -> bool {
    exists|m: int| 0 <= m < matcher_names().len() && contains_seq(h, #[trigger] matcher_names()[m])
}

/// `h` names the launcher itself.
pub open spec fn names_launcher(h: Seq<char>) -> bool {
    contains_seq(h, "wecom-multi-launcher"@) || contains_seq(h, "WeCom Launcher"@)
}

/// A process of the client (and not the launcher).
pub open spec fn is_client_process(e: ProcessEntry) -> bool {
    names_client(process_text(e)) && !names_launcher(process_text(e))
}

/// A process to stop: a client match whose text does not name the launcher's package.
pub open spec fn is_kill_target(e: ProcessEntry) -> bool {
    names_client(process_text(e)) && !contains_seq(process_text(e), "wecom-multi-launcher"@)
}

/// Every process that is listed as running is also stopped by "kill all".
pub proof fn lemma_listed_are_killed(e: ProcessEntry)
    ensures
        is_client_process(e) ==> is_kill_target(e),
{
}

/// The pids of the processes to stop, in process-table order.
pub open spec fn kill_list(s: Seq<ProcessEntry>) -> Seq<u32>
    decreases s.len(),
{
    if s.len() == 0 {
        seq![]
    } else if is_kill_target(s.last()) {
        kill_list(s.drop_last()).push(s.last().pid)
    } else {
        kill_list(s.drop_last())
    }
}

/// Each element is smaller than the next.
pub open spec fn strictly_increasing(s: Seq<u32>) -> bool {
    forall|i: int, j: int| 0 <= i < j < s.len() ==> s[i] < s[j]
}

fn process_text_of(e: &ProcessEntry) -> (r: Vec<char>)
    ensures
        r@ == process_text(*e),
{
    let name: Vec<char> = chars_of(e.name.as_str());
    let mut sep: Vec<char> = Vec::new();
    sep.push(' ');
    let exe: Vec<char> = chars_of(e.exe.as_str());
    let head: Vec<char> = concat_chars(&name, &sep);
    assert(sep@ =~= seq![' ']);
    concat_chars(&head, &exe)
}

fn mentions_client(h: &Vec<char>) -> (r: bool)
    ensures
        r == names_client(h@),
{
    let ms: &'static [&'static str] = wecom_process_matchers();
    let mut k: usize = 0;
    while k < ms.len()
        invariant
            ms@.map_values(|s: &str| s@) == matcher_names(),
            k <= ms@.len(),
            forall|m: int| 0 <= m < k ==> !contains_seq(h@, #[trigger] matcher_names()[m]),
        decreases ms@.len() - k,
    {
        let needle: Vec<char> = chars_of(ms[k]);
        assert(ms@.map_values(|s: &str| s@)[k as int] == ms@[k as int]@);
        if contains_chars(h, &needle) {
            return true;
        }
        k = k + 1;
    }
    false
}

fn text_contains(h: &Vec<char>, s: &str) -> (r: bool)
    ensures
        r == contains_seq(h@, s@),
{
    let needle: Vec<char> = chars_of(s);
    contains_chars(h, &needle)
}

pub(crate) fn insert_sorted(v: &mut Vec<u32>, x: u32)
    requires
        strictly_increasing(old(v)@),
    ensures
        strictly_increasing(final(v)@),
        forall|p: u32| final(v)@.contains(p) <==> (old(v)@.contains(p) || p == x),
{
    let mut i: usize = 0;
    while i < v.len() && v[i] < x
        invariant
            i <= v@.len(),
            forall|k: int| 0 <= k < i ==> v@[k] < x,
        decreases v@.len() - i,
    {
        i = i + 1;
    }
    if i < v.len() && v[i] == x {
        return;
    }
    let ghost before = v@;
    v.insert(i, x);
    assert forall|p: u32| v@.contains(p) <==> (before.contains(p) || p == x) by {
        if v@.contains(p) {
            let k = choose|k: int| 0 <= k < v@.len() && v@[k] == p;
            if k < i {
                assert(before[k] == p);
            } else if k > i {
                assert(before[k - 1] == p);
            }
        }
        if before.contains(p) {
            let k = choose|k: int| 0 <= k < before.len() && before[k] == p;
            if k < i {
                assert(v@[k] == p);
            } else {
                assert(v@[k + 1] == p);
            }
        }
        if p == x {
            assert(v@[i as int] == x);
        }
    }
    assert forall|a: int, b: int| 0 <= a < b < v@.len() implies v@[a] < v@[b] by {
        if b < i {
            assert(v@[a] == before[a] && v@[b] == before[b]);
        } else if b == i {
            assert(v@[a] == before[a]);
        } else if a < i {
            assert(v@[a] == before[a] && v@[b] == before[b - 1]);
            assert(before[b - 1] >= x);
        } else if a == i {
            assert(v@[b] == before[b - 1]);
            assert(before[i as int] >= x);
            assert(before[i as int] != x);
            if b - 1 > i {
                assert(before[i as int] < before[b - 1]);
            }
        } else {
            assert(v@[a] == before[a - 1] && v@[b] == before[b - 1]);
        }
    }
}

/// The pids of the running client processes, ascending and without repeats.
pub fn list_wecom_pids(processes: &Vec<ProcessEntry>) -> (r: Vec<u32>)
    ensures
        strictly_increasing(r@),
        forall|p: u32|
            r@.contains(p) <==> exists|i: int|
                0 <= i < processes@.len() && is_client_process(#[trigger] processes@[i])
                    && processes@[i].pid == p,
{
    let mut pids: Vec<u32> = Vec::new();
    let mut i: usize = 0;
    while i < processes.len()
        invariant
            i <= processes@.len(),
            strictly_increasing(pids@),
            forall|p: u32|
                pids@.contains(p) <==> exists|j: int|
                    0 <= j < i && is_client_process(#[trigger] processes@[j])
                        && processes@[j].pid == p,
        decreases processes@.len() - i,
    {
        let e: &ProcessEntry = &processes[i];
        let h: Vec<char> = process_text_of(e);
        let selected: bool = mentions_client(&h) && !(text_contains(&h, "wecom-multi-launcher")
            || text_contains(&h, "WeCom Launcher"));
        let ghost before = pids@;
        if selected {
            insert_sorted(&mut pids, e.pid);
        }
        assert forall|p: u32|
            pids@.contains(p) <==> exists|j: int|
                0 <= j < i + 1 && is_client_process(#[trigger] processes@[j])
                    && processes@[j].pid == p by {
            if exists|j: int|
                0 <= j < i + 1 && is_client_process(#[trigger] processes@[j])
                    && processes@[j].pid == p {
                let j = choose|j: int|
                    0 <= j < i + 1 && is_client_process(#[trigger] processes@[j])
                        && processes@[j].pid == p;
                if j < i {
                    assert(before.contains(p));
                }
            }
        }
        i = i + 1;
    }
    pids
}

/// The pids of the processes to stop, in process-table order.
pub fn kill_targets(processes: &Vec<ProcessEntry>) -> (r: Vec<u32>)
    ensures
        r@ == kill_list(processes@),
{
    let mut pids: Vec<u32> = Vec::new();
    let mut i: usize = 0;
    while i < processes.len()
        invariant
            i <= processes@.len(),
            pids@ == kill_list(processes@.subrange(0, i as int)),
        decreases processes@.len() - i,
    {
        let e: &ProcessEntry = &processes[i];
        let h: Vec<char> = process_text_of(e);
        let selected: bool = mentions_client(&h) && !text_contains(&h, "wecom-multi-launcher");
        assert(processes@.subrange(0, i + 1).drop_last() =~= processes@.subrange(0, i as int));
        if selected {
            pids.push(e.pid);
        }
        i = i + 1;
    }
    assert(processes@.subrange(0, processes@.len() as int) =~= processes@);
    pids
}

/// The first candidate that exists, if any.
pub open spec fn first_existing_spec(candidates: Seq<Seq<char>>, exists: Seq<bool>) -> Option<
    Seq<char>,
>
    decreases candidates.len(),
{
    if candidates.len() == 0 || exists.len() == 0 {
        None
    } else if exists[0] {
        Some(candidates[0])
    } else {
        first_existing_spec(candidates.drop_first(), exists.drop_first())
    }
}

/// The lookup picks the first candidate that exists: when candidate `i`
/// exists and none before it does, the result is candidate `i`; when none
/// exists, there is no result.
pub proof fn lemma_first_existing_picks_first(
    candidates: Seq<Seq<char>>,
    exists: Seq<bool>,
    i: int,
)
    requires
        candidates.len() == exists.len(),
        0 <= i < exists.len(),
    ensures
        exists[i] && (forall|j: int| 0 <= j < i ==> !exists[j]) ==> first_existing_spec(
            candidates,
            exists,
        ) == Some(candidates[i]),
        (forall|j: int| 0 <= j < exists.len() ==> !exists[j]) ==> first_existing_spec(
            candidates,
            exists,
        ) is None,
    decreases i,
{
    lemma_first_existing_none(candidates, exists);
    if i > 0 && !exists[0] {
        let c = candidates.drop_first();
        let e = exists.drop_first();
        lemma_first_existing_picks_first(c, e, i - 1);
        if exists[i] && (forall|j: int| 0 <= j < i ==> !exists[j]) {
            assert(e[i - 1] == exists[i]);
            assert forall|j: int| 0 <= j < i - 1 implies !e[j] by {
                assert(e[j] == exists[j + 1]);
            }
            assert(c[i - 1] == candidates[i]);
        }
    }
}

proof fn lemma_first_existing_none(candidates: Seq<Seq<char>>, exists: Seq<bool>)
    requires
        candidates.len() == exists.len(),
    ensures
        (forall|j: int| 0 <= j < exists.len() ==> !exists[j]) ==> first_existing_spec(
            candidates,
            exists,
        ) is None,
    decreases exists.len(),
{
    if exists.len() > 0 && (forall|j: int| 0 <= j < exists.len() ==> !exists[j]) {
        let e = exists.drop_first();
        assert forall|j: int| 0 <= j < e.len() implies !e[j] by {
            assert(e[j] == exists[j + 1]);
        }
        assert(!exists[0]);
        lemma_first_existing_none(candidates.drop_first(), e);
    }
}

/// The first of `candidates` whose entry in `exists` is set.
pub(crate) fn first_existing(candidates: &Vec<String>, exists: &Vec<bool>) -> (r: Option<String>)
    requires
        candidates@.len() == exists@.len(),
    ensures
        r is None <==> first_existing_spec(texts(candidates@), exists@) is None,
        r is Some ==> r->0@ == first_existing_spec(texts(candidates@), exists@)->0,
{
    let mut i: usize = 0;
    while i < candidates.len()
        invariant
            i <= candidates@.len(),
            candidates@.len() == exists@.len(),
            first_existing_spec(texts(candidates@), exists@) == first_existing_spec(
                texts(candidates@).subrange(i as int, candidates@.len() as int),
                exists@.subrange(i as int, exists@.len() as int),
            ),
        decreases candidates@.len() - i,
    {
        let ghost c = texts(candidates@).subrange(i as int, candidates@.len() as int);
        let ghost e = exists@.subrange(i as int, exists@.len() as int);
        assert(c.drop_first() =~= texts(candidates@).subrange(i + 1, candidates@.len() as int));
        assert(e.drop_first() =~= exists@.subrange(i + 1, exists@.len() as int));
        if exists[i] {
            let r: String = candidates[i].clone();
            assert(c[0] == candidates@[i as int]@);
            return Some(r);
        }
        i = i + 1;
    }
    None
}

/// The free slots among `1..=k`, ascending.
pub open spec fn free_upto(busy: Seq<u8>, k: nat) -> Seq<u8>
    decreases k,
{
    if k == 0 {
        seq![]
    } else if busy.contains(k as u8) {
        free_upto(busy, (k - 1) as nat)
    } else {
        free_upto(busy, (k - 1) as nat).push(k as u8)
    }
}

/// The free slots, ascending.
pub open spec fn free_slots(busy: Seq<u8>) -> Seq<u8> {
    free_upto(busy, MAX_SLOTS as nat)
}

/// The message given when fewer than `need` slots are free while `occupied`
/// distinct slots are busy.
pub open spec fn shortage_message(need: nat, occupied: nat) -> Seq<char> {
    "空闲槽位不足：需要 "@ + decimal(need) + " 个，当前已占用 "@ + decimal(occupied) + " 个（最多 "@
        + decimal(MAX_SLOTS as nat) + "）。请先关闭部分企微或点「全部关闭」。"@
}

proof fn lemma_free_prefix(busy: Seq<u8>, j: nat, k: nat)
    requires
        j <= k,
    ensures
        free_upto(busy, j).len() <= free_upto(busy, k).len(),
        free_upto(busy, k).subrange(0, free_upto(busy, j).len() as int) == free_upto(busy, j),
    decreases k,
{
    if j < k {
        lemma_free_prefix(busy, j, (k - 1) as nat);
        let a = free_upto(busy, j);
        let b = free_upto(busy, (k - 1) as nat);
        assert(free_upto(busy, k).subrange(0, a.len() as int) =~= b.subrange(0, a.len() as int));
    } else {
        assert(free_upto(busy, k).subrange(0, free_upto(busy, k).len() as int) =~= free_upto(
            busy,
            k,
        ));
    }
}

/// The busy slots as a set.
fn busy_set_of(busy: &Vec<u8>) -> (r: HashSet<u8>)
    ensures
        r@ == busy@.to_set(),
{
    let mut set: HashSet<u8> = HashSet::new();
    let mut i: usize = 0;
    while i < busy.len()
        invariant
            i <= busy@.len(),
            set@ == busy@.subrange(0, i as int).to_set(),
        decreases busy@.len() - i,
    {
        let x: u8 = busy[i];
        assert(busy@.subrange(0, i + 1) =~= busy@.subrange(0, i as int).push(x));
        assert(busy@.subrange(0, i + 1).to_set() =~= busy@.subrange(0, i as int).to_set().insert(x));
        set.insert(x);
        i = i + 1;
    }
    assert(busy@.subrange(0, busy@.len() as int) =~= busy@);
    set
}

/// Picks the next free account slots (`1..=MAX_SLOTS`, ascending), skipping the
/// busy ones: the first `clamped(need)` free slots, or the shortage message
/// when fewer are free.
pub fn allocate_free_slots(need: u8, busy: &Vec<u8>) -> (r: Result<Vec<u8>, String>)
    ensures
        free_slots(busy@).len() >= clamped(need) ==> (r is Ok && r->Ok_0@ == free_slots(
            busy@,
        ).take(clamped(need) as int)),
        free_slots(busy@).len() < clamped(need) ==> (r is Err && r->Err_0@ == shortage_message(
            clamped(need) as nat,
            busy@.to_set().len(),
        )),
{
    let n: u8 = crate::policy::clamp_count(need);
    let busy_set: HashSet<u8> = busy_set_of(busy);
    let mut free: Vec<u8> = Vec::new();
    let mut i: u8 = 1;
    while i <= MAX_SLOTS
        invariant
            1 <= i <= MAX_SLOTS + 1,
            n == clamped(need),
            1 <= n <= MAX_SLOTS,
            free@ == free_upto(busy@, (i - 1) as nat),
            free@.len() < n,
            busy_set@ == busy@.to_set(),
        decreases MAX_SLOTS + 1 - i,
    {
        let taken: bool = busy_set.contains(&i);
        if !taken {
            free.push(i);
            if free.len() == n as usize {
                proof {
                    lemma_free_prefix(busy@, i as nat, MAX_SLOTS as nat);
                }
                return Ok(free);
            }
        }
        i = i + 1;
    }
    let count: usize = busy_set.len();
    let mut msg: Vec<char> = chars_of("空闲槽位不足：需要 ");
    msg = concat_chars(&msg, &decimal_chars(n as u64));
    msg = concat_chars(&msg, &chars_of(" 个，当前已占用 "));
    msg = concat_chars(&msg, &decimal_chars(count as u64));
    msg = concat_chars(&msg, &chars_of(" 个（最多 "));
    msg = concat_chars(&msg, &decimal_chars(MAX_SLOTS as u64));
    msg = concat_chars(&msg, &chars_of("）。请先关闭部分企微或点「全部关闭」。"));
    Err(string_of(&msg))
}

/// The free slots are ascending, distinct, within `1..=MAX_SLOTS`, and none is busy.
pub proof fn lemma_free_slots_sound(busy: Seq<u8>)
    ensures
        forall|a: int, b: int|
            0 <= a < b < free_slots(busy).len() ==> free_slots(busy)[a] < free_slots(busy)[b],
        forall|a: int|
            0 <= a < free_slots(busy).len() ==> 1 <= #[trigger] free_slots(busy)[a] <= MAX_SLOTS
                && !busy.contains(free_slots(busy)[a]),
        forall|s: u8| 1 <= s <= MAX_SLOTS && !busy.contains(s) ==> free_slots(busy).contains(s),
{
    lemma_free_upto_sound(busy, MAX_SLOTS as nat);
}

proof fn lemma_free_upto_sound(busy: Seq<u8>, k: nat)
    requires
        k <= MAX_SLOTS,
    ensures
        forall|a: int, b: int|
            0 <= a < b < free_upto(busy, k).len() ==> free_upto(busy, k)[a] < free_upto(busy, k)[b],
        forall|a: int|
            0 <= a < free_upto(busy, k).len() ==> 1 <= #[trigger] free_upto(busy, k)[a] <= k
                && !busy.contains(free_upto(busy, k)[a]),
        forall|s: u8| 1 <= s <= k && !busy.contains(s) ==> free_upto(busy, k).contains(s),
    decreases k,
{
    if k > 0 {
        lemma_free_upto_sound(busy, (k - 1) as nat);
        let prev = free_upto(busy, (k - 1) as nat);
        if !busy.contains(k as u8) {
            assert forall|s: u8| 1 <= s <= k && !busy.contains(s) implies free_upto(
                busy,
                k,
            ).contains(s) by {
                if s == k {
                    assert(free_upto(busy, k)[prev.len() as int] == s);
                } else {
                    let j = choose|j: int| 0 <= j < prev.len() && prev[j] == s;
                    assert(free_upto(busy, k)[j] == s);
                }
            }
        }
    }
}

} // verus!
