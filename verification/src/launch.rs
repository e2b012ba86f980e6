//! The decisions of a batch launch, as a state machine: the caller performs
//! each step (waiting, preparing, starting a process) and reports back.

use vstd::prelude::*;

use crate::models::{
    slot_tier_at, tier_delay, tier_label, AccountTier, AppInfo, BatchResult, LaunchOptions,
    LaunchResult, SafeModeHealth, MAX_SLOTS,
};
use crate::platform::common::{allocate_free_slots, free_slots, lemma_free_slots_sound, shortage_message};
use crate::policy::{clamped, ordered, LaunchPolicy};
use crate::text::{chars_of, concat_chars, string_from, string_of};

verus! {


/// The refusal of safe mode off Windows.
pub open spec fn safe_mode_platform_message() -> Seq<char> {
    "安全模式仅支持 Windows"@
}

/// The refusal when the client is not installed where it was looked for.
pub open spec fn app_missing_message() -> Seq<char> {
    "未找到企业微信，请手动指定路径"@
}

/// The refusal when a single launch produced no result.
pub open spec fn no_result_message() -> Seq<char> {
    "未产生启动结果"@
}

/// The message of a launched slot: the preparation report, the tier label, the launch report.
pub open spec fn launched_message(prepared: Seq<char>, tier: AccountTier, launched: Seq<char>) -> Seq<
    char,
> {
    prepared + " | ["@ + tier_label(tier) + "] "@ + launched
}

/// What happened to the slot being launched.
pub enum SlotOutcome {
    /// Preparation reported `prepared`; starting the process gave `result`.
    Launched { prepared: String, result: LaunchResult },
    /// Preparation failed for this reason.
    PrepareFailed(String),
    /// Starting the process failed for this reason.
    SpawnFailed(String),
}

/// A batch launch in progress.
pub struct BatchRun {
    options: LaunchOptions,
    slots: Vec<u8>,
    pos: usize,
    policy: LaunchPolicy,
    results: Vec<LaunchResult>,
    finished: bool,
    busy: Ghost<Seq<u8>>,
}

/// Refuses a launch before anything is looked up: safe mode off Windows, and
/// safe mode whose check is not ready.
pub fn launch_precheck(options: &LaunchOptions, platform: &str, health: Option<&SafeModeHealth>) -> (r:
    Result<(), String>)
    requires
        options.windows_safe_mode && platform@ == "windows"@ ==> health is Some,
    ensures
        options.windows_safe_mode && platform@ != "windows"@ ==> (r is Err && r->Err_0@
            == safe_mode_platform_message()),
        options.windows_safe_mode && platform@ == "windows"@ && !health->0.ready ==> (r is Err
            && r->Err_0@ == health->0.summary@),
        !(options.windows_safe_mode && (platform@ != "windows"@ || !health->0.ready)) ==> r is Ok,
{
    if options.windows_safe_mode {
        let v: Vec<char> = chars_of(platform);
        if !crate::text::chars_eq_str(&v, "windows") {
            return Err(string_from("安全模式仅支持 Windows"));
        }
        match health {
            Some(h) => {
                if !h.ready {
                    return Err(h.summary.clone());
                }
            },
            None => {},
        }
    }
    Ok(())
}

impl BatchRun {
    /// The run is consistent: at most `MAX_SLOTS` slots, one result per slot
    /// tried (carrying that slot's number), and only the last result can be a
    /// failure (none while the run goes on).
    pub closed spec fn wf(self) -> bool {
        &&& self.slots@.len() <= MAX_SLOTS
        &&& forall|k: int|
            0 <= k < self.slots@.len() ==> !self.busy@.contains(#[trigger] self.slots@[k])
        &&& (self.policy.lower(), self.policy.upper()) == ordered(
            self.options.min_delay_ms,
            self.options.max_delay_ms,
        )
        &&& self.pos > 0 ==> !self.policy.is_first()
        &&& self.pos <= self.slots@.len()
        &&& self.results@.len() == self.pos
        &&& forall|k: int|
            0 <= k < self.results@.len() ==> (#[trigger] self.results@[k]).index == self.slots@[k]
        &&& forall|k: int| 0 <= k < self.results@.len() - 1 ==> (#[trigger] self.results@[k]).success
        &&& !self.finished ==> forall|k: int|
            0 <= k < self.results@.len() ==> (#[trigger] self.results@[k]).success
    }

    /// The options the batch was started with.
    pub closed spec fn options(self) -> LaunchOptions {
        self.options
    }

    /// The slots that were running when the batch started.
    pub closed spec fn busy(self) -> Seq<u8> {
        self.busy@
    }

    /// The slots the batch launches, in order.
    pub closed spec fn slots(self) -> Seq<u8> {
        self.slots@
    }

    /// How many slots have been tried.
    pub closed spec fn position(self) -> nat {
        self.pos as nat
    }

    /// The slot launched next.
    pub open spec fn next_slot(self) -> u8 {
        self.slots()[self.position() as int]
    }

    /// The pacing of the launches.
    pub closed spec fn policy(self) -> LaunchPolicy {
        self.policy
    }

    /// The results so far, one per slot tried, in order.
    pub closed spec fn results(self) -> Seq<LaunchResult> {
        self.results@
    }

    /// No further slot is launched.
    pub closed spec fn finished(self) -> bool {
        self.finished
    }

    /// A slot is waiting to be launched.
    pub open spec fn has_pending(self) -> bool {
        !self.finished() && self.position() < self.slots().len()
    }

    /// Starts a batch, or refuses it: safe mode is refused off Windows and
    /// when the safe-mode check is not ready; a batch is refused when the
    /// client was not found, and when fewer slots are free than asked for.
    /// The batch launches the first `clamped(count)` free slots, given the
    /// slots `busy` already running.
    pub fn start(
        options: LaunchOptions,
        platform: &str,
        health: Option<&SafeModeHealth>,
        app_found: bool,
        busy: &Vec<u8>,
    ) -> (r: Result<BatchRun, String>)
        requires
            options.windows_safe_mode && platform@ == "windows"@ ==> health is Some,
        ensures
            options.windows_safe_mode && platform@ != "windows"@ ==> (r is Err && r->Err_0@
                == safe_mode_platform_message()),
            options.windows_safe_mode && platform@ == "windows"@ && !health->0.ready ==> (r is Err
                && r->Err_0@ == health->0.summary@),
            !(options.windows_safe_mode && (platform@ != "windows"@ || !health->0.ready))
                && !app_found ==> (r is Err && r->Err_0@ == app_missing_message()),
            !(options.windows_safe_mode && (platform@ != "windows"@ || !health->0.ready))
                && app_found && free_slots(busy@).len() < clamped(options.count) ==> (r is Err
                && r->Err_0@ == shortage_message(
                clamped(options.count) as nat,
                busy@.to_set().len(),
            )),
            !(options.windows_safe_mode && (platform@ != "windows"@ || !health->0.ready))
                && app_found && free_slots(busy@).len() >= clamped(options.count) ==> (r is Ok
                && r->Ok_0.wf() && r->Ok_0.options() == options && r->Ok_0.busy() == busy@
                && r->Ok_0.slots() == free_slots(
                busy@,
            ).take(clamped(options.count) as int) && r->Ok_0.position() == 0
                && r->Ok_0.results().len() == 0 && !r->Ok_0.finished() && (
            r->Ok_0.policy().lower(),
            r->Ok_0.policy().upper(),
            ) == ordered(options.min_delay_ms, options.max_delay_ms)
                && r->Ok_0.policy().is_first()),
    {
        launch_precheck(&options, platform, health)?;
        if !app_found {
            return Err(string_from("未找到企业微信，请手动指定路径"));
        }
        let slots: Vec<u8> = allocate_free_slots(options.count, busy)?;
        proof {
            lemma_free_slots_sound(busy@);
        }
        let policy: LaunchPolicy = LaunchPolicy::new(options.min_delay_ms, options.max_delay_ms);
        Ok(
            BatchRun {
                options,
                slots,
                pos: 0,
                policy,
                results: Vec::new(),
                finished: false,
                busy: Ghost(busy@),
            },
        )
    }

    /// The slot waiting to be launched, if any.
    pub fn pending(&self) -> (r: Option<u8>)
        requires
            self.wf(),
        ensures
            r is Some <==> self.has_pending(),
            r is Some ==> r->0 == self.next_slot(),
    {
        if !self.finished && self.pos < self.slots.len() {
            Some(self.slots[self.pos])
        } else {
            None
        }
    }

    /// The delay (ms) before launching the pending slot: none before the
    /// first slot; otherwise drawn from the slot's tier window when tier
    /// delays are on, from the global window when not.
    pub fn pace(&mut self) -> (d: Option<u64>)
        requires
            old(self).wf(),
            old(self).has_pending(),
        ensures
            final(self).wf(),
            final(self).options() == old(self).options(),
            final(self).busy() == old(self).busy(),
            final(self).slots() == old(self).slots(),
            final(self).position() == old(self).position(),
            final(self).results() == old(self).results(),
            final(self).finished() == old(self).finished(),
            final(self).policy().lower() == old(self).policy().lower(),
            final(self).policy().upper() == old(self).policy().upper(),
            !final(self).policy().is_first(),
            old(self).policy().is_first() ==> d is None,
            !old(self).policy().is_first() && old(self).options().use_tier_delays ==> (d is Some
                && tier_delay(slot_tier_at(old(self).options().slot_tiers@, old(self).next_slot())).0
                <= d->0 <= tier_delay(
                slot_tier_at(old(self).options().slot_tiers@, old(self).next_slot()),
            ).1),
            !old(self).policy().is_first() && !old(self).options().use_tier_delays ==> (d is Some
                && old(self).policy().lower() <= d->0 <= old(self).policy().upper()),
            old(self).position() > 0 ==> d is Some,
            !old(self).policy().is_first() && old(self).options().use_tier_delays
                ==> final(self).policy().last_draw() == Some(
                (
                    tier_delay(slot_tier_at(old(self).options().slot_tiers@, old(self).next_slot())).0,
                    tier_delay(slot_tier_at(old(self).options().slot_tiers@, old(self).next_slot())).1,
                    d->0,
                ),
            ),
            !old(self).policy().is_first() && !old(self).options().use_tier_delays
                ==> final(self).policy().last_draw() == Some(
                (
                    ordered(old(self).options().min_delay_ms, old(self).options().max_delay_ms).0,
                    ordered(old(self).options().min_delay_ms, old(self).options().max_delay_ms).1,
                    d->0,
                ),
            ),
    {
        let slot: u8 = self.slots[self.pos];
        if self.options.use_tier_delays {
            let tier: AccountTier = self.options.tier_for_index(slot);
            self.policy.wait_for_tier(tier)
        } else {
            self.policy.wait_before_next()
        }
    }

    /// Records what happened to the pending slot. A failed launch, or a
    /// failed preparation, ends the batch after its result; a failure to
    /// start the process aborts the whole batch with that error. The slot
    /// must have been paced; the pacing is left as it is.
    pub fn record(&mut self, outcome: SlotOutcome) -> (r: Result<(), String>)
        requires
            old(self).wf(),
            old(self).has_pending(),
            !old(self).policy().is_first(),
        ensures
            final(self).wf(),
            final(self).options() == old(self).options(),
            final(self).busy() == old(self).busy(),
            final(self).slots() == old(self).slots(),
            final(self).policy() == old(self).policy(),
            match outcome {
                SlotOutcome::Launched { prepared, result } => {
                    &&& r is Ok
                    &&& final(self).position() == old(self).position() + 1
                    &&& final(self).finished() == !result.success
                    &&& final(self).results().len() == old(self).results().len() + 1
                    &&& final(self).results().subrange(0, old(self).results().len() as int) == old(
                        self,
                    ).results()
                    &&& final(self).results().last().success == result.success
                    &&& final(self).results().last().pid == result.pid
                    &&& final(self).results().last().index == old(self).next_slot()
                    &&& final(self).results().last().message@ == launched_message(
                        prepared@,
                        slot_tier_at(old(self).options().slot_tiers@, old(self).next_slot()),
                        result.message@,
                    )
                },
                SlotOutcome::PrepareFailed(e) => {
                    &&& r is Ok
                    &&& final(self).position() == old(self).position() + 1
                    &&& final(self).finished()
                    &&& final(self).results().len() == old(self).results().len() + 1
                    &&& final(self).results().subrange(0, old(self).results().len() as int) == old(
                        self,
                    ).results()
                    &&& !final(self).results().last().success
                    &&& final(self).results().last().pid is None
                    &&& final(self).results().last().index == old(self).next_slot()
                    &&& final(self).results().last().message@ == e@
                },
                SlotOutcome::SpawnFailed(e) => {
                    &&& r is Err
                    &&& r->Err_0@ == e@
                    &&& final(self).finished()
                    &&& final(self).position() == old(self).position()
                    &&& final(self).results() == old(self).results()
                },
            },
    {
        let ghost before = self.results@;
        let slot: u8 = self.slots[self.pos];
        match outcome {
            SlotOutcome::Launched { prepared, result } => {
                let tier: AccountTier = self.options.tier_for_index(slot);
                let mut m: Vec<char> = chars_of(prepared.as_str());
                m = concat_chars(&m, &chars_of(" | ["));
                m = concat_chars(&m, &chars_of(tier.label()));
                m = concat_chars(&m, &chars_of("] "));
                m = concat_chars(&m, &chars_of(result.message.as_str()));
                let ok: bool = result.success;
                let one: LaunchResult = LaunchResult {
                    success: ok,
                    pid: result.pid,
                    message: string_of(&m),
                    index: slot,
                };
                self.results.push(one);
                assert(self.results@.subrange(0, before.len() as int) =~= before);
                self.pos = self.pos + 1;
                self.finished = !ok;
                Ok(())
            },
            SlotOutcome::PrepareFailed(e) => {
                let one: LaunchResult = LaunchResult {
                    success: false,
                    pid: None,
                    message: e,
                    index: slot,
                };
                self.results.push(one);
                assert(self.results@.subrange(0, before.len() as int) =~= before);
                self.pos = self.pos + 1;
                self.finished = true;
                Ok(())
            },
            SlotOutcome::SpawnFailed(e) => {
                self.finished = true;
                Err(e)
            },
        }
    }

    /// The results of the batch, with the platform it ran on.
    pub fn finish(self, platform: &str) -> (r: BatchResult)
        requires
            self.wf(),
        ensures
            r.results@ == self.results(),
            r.platform@ == platform@,
    {
        BatchResult { results: self.results, platform: string_from(platform) }
    }
}

/// Every result but the last of a batch is a success, a batch never holds
/// more results than slots, and each result is that of the slot tried at its
/// place.
pub proof fn lemma_batch_stops_at_failure(run: BatchRun)
    requires
        run.wf(),
    ensures
        forall|k: int| 0 <= k < run.results().len() - 1 ==> (#[trigger] run.results()[k]).success,
        run.results().len() <= run.slots().len() <= MAX_SLOTS,
        forall|k: int|
            0 <= k < run.results().len() ==> (#[trigger] run.results()[k]).index == run.slots()[k],
        !run.finished() ==> forall|k: int|
            0 <= k < run.results().len() ==> (#[trigger] run.results()[k]).success,
{
}

/// Across a batch, only the first slot goes without a delay: once a slot
/// has been recorded, the pacing is past its first launch, and its window is
/// the options' window in ascending order.
pub proof fn lemma_batch_pacing(run: BatchRun)
    requires
        run.wf(),
    ensures
        (run.policy().lower(), run.policy().upper()) == ordered(
            run.options().min_delay_ms,
            run.options().max_delay_ms,
        ),
        run.position() > 0 ==> !run.policy().is_first(),
{
}

/// No result of a batch is for a slot that was running when it started.
pub proof fn lemma_results_never_busy(run: BatchRun)
    requires
        run.wf(),
    ensures
        forall|k: int|
            0 <= k < run.results().len() ==> !run.busy().contains(#[trigger] run.results()[k].index),
{
    assert forall|k: int| 0 <= k < run.results().len() implies !run.busy().contains(
        #[trigger] run.results()[k].index,
    ) by {
        assert(run.results()[k].index == run.slots()[k]);
    }
}

/// A batch started with the busy slots `busy` launches only slots that are
/// free: distinct, ascending, in `1..=MAX_SLOTS`, none of them busy.
pub proof fn lemma_batch_slots_are_free(busy: Seq<u8>, count: u8)
    requires
        free_slots(busy).len() >= clamped(count),
    ensures
        ({
            let s = free_slots(busy).take(clamped(count) as int);
            &&& s.len() == clamped(count)
            &&& forall|a: int, b: int| 0 <= a < b < s.len() ==> s[a] < s[b]
            &&& forall|a: int|
                0 <= a < s.len() ==> 1 <= #[trigger] s[a] <= MAX_SLOTS && !busy.contains(s[a])
        }),
{
    lemma_free_slots_sound(busy);
}

/// The single result of a one-slot batch: its last result, or the refusal
/// when it produced none.
pub fn single_result(batch: BatchResult) -> (r: Result<LaunchResult, String>)
    ensures
        batch.results@.len() > 0 ==> (r is Ok && r->Ok_0 == batch.results@.last()),
        batch.results@.len() == 0 ==> (r is Err && r->Err_0@ == no_result_message()),
{
    let mut results: Vec<LaunchResult> = batch.results;
    match results.pop() {
        Some(one) => Ok(one),
        None => Err(string_from("未产生启动结果")),
    }
}

/// What the launcher reports of the installed client, from the platform name,
/// the path found, the running client pids and whether it runs elevated.
pub fn app_info(
    platform: &str,
    resolved_path: Option<String>,
    running_pids: Vec<u32>,
    is_admin: bool,
) -> (r: AppInfo)
    ensures
        r.platform@ == platform@,
        r.resolved_path == resolved_path,
        r.running_count == running_pids@.len(),
        r.running_pids@ == running_pids@,
        r.is_admin == is_admin,
{
    let running_count: usize = running_pids.len();
    AppInfo { platform: string_from(platform), resolved_path, running_count, running_pids, is_admin }
}

} // verus!
