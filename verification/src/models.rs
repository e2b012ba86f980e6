//! Data types shared by the launcher: account tiers, launch options and the
//! records handed back to the user interface.

use vstd::prelude::*;

use crate::text::{
    ascii_lower, ascii_lower_chars, chars_eq_str, chars_of, concat_chars, decimal, decimal_chars,
    string_of, trim, trim_chars,
};

verus! {

/// The largest number of account slots the launcher manages.
pub const MAX_SLOTS: u8 = 10;

/// The user-name prefix of safe-mode accounts when none is configured.
pub open spec fn default_prefix() -> Seq<char> {
    "WeComSlot"@
}

/// How carefully an account's instance is paced.
#[derive(Debug, Clone, Copy, PartialEq, Eq, Structural)]
pub enum AccountTier {
    Primary,
    Secondary,
    Test,
}

/// The tier a free-form text names: trimmed and ASCII-lower-cased, it is
/// "primary", "main" or "主号" for a primary account, "test" or "测试" for a
/// test account; anything else is a secondary account.
pub open spec fn tier_from_text(s: Seq<char>) -> AccountTier {
    let k = ascii_lower(trim(s));
    if k == "primary"@ || k == "main"@ || k == "主号"@ {
        AccountTier::Primary
    } else if k == "test"@ || k == "测试"@ {
        AccountTier::Test
    } else {
        AccountTier::Secondary
    }
}

/// The canonical identifier of a tier.
pub open spec fn tier_name(t: AccountTier) -> Seq<char> {
    match t {
        AccountTier::Primary => "primary"@,
        AccountTier::Secondary => "secondary"@,
        AccountTier::Test => "test"@,
    }
}

/// The display label of a tier.
pub open spec fn tier_label(t: AccountTier) -> Seq<char> {
    match t {
        AccountTier::Primary => "主号"@,
        AccountTier::Secondary => "辅号"@,
        AccountTier::Test => "测试"@,
    }
}

/// The delay window, in milliseconds, that follows the launch of a slot of a tier.
pub open spec fn tier_delay(t: AccountTier) -> (u64, u64) {
    match t {
        AccountTier::Primary => (5000, 10000),
        AccountTier::Secondary => (2500, 6000),
        AccountTier::Test => (1500, 3500),
    }
}

impl Default for AccountTier {
    fn default() -> (r: Self)
        ensures
            r == AccountTier::Secondary,
    {
        AccountTier::Secondary
    }
}

impl AccountTier {
    /// Reads a tier from loosely written text; unknown text is a secondary account.
    pub fn from_str_loose(s: &str) -> (r: Self)
        ensures
            r == tier_from_text(s@),
    {
        let raw: Vec<char> = chars_of(s);
        let trimmed: Vec<char> = trim_chars(&raw);
        let k: Vec<char> = ascii_lower_chars(&trimmed);
        if chars_eq_str(&k, "primary") || chars_eq_str(&k, "main") || chars_eq_str(&k, "主号") {
            AccountTier::Primary
        } else if chars_eq_str(&k, "test") || chars_eq_str(&k, "测试") {
            AccountTier::Test
        } else {
            AccountTier::Secondary
        }
    }

    /// The canonical identifier of the tier.
    pub fn as_str(self) -> (r: &'static str)
        ensures
            r@ == tier_name(self),
    {
        match self {
            AccountTier::Primary => "primary",
            AccountTier::Secondary => "secondary",
            AccountTier::Test => "test",
        }
    }

    /// The display label of the tier.
    pub fn label(self) -> (r: &'static str)
        ensures
            r@ == tier_label(self),
    {
        match self {
            AccountTier::Primary => "主号",
            AccountTier::Secondary => "辅号",
            AccountTier::Test => "测试",
        }
    }

    /// Delay window (ms) after launching a slot of this tier.
    pub fn delay_range(self) -> (r: (u64, u64))
        ensures
            r == tier_delay(self),
            r.0 <= r.1,
    {
        match self {
            AccountTier::Primary => (5000, 10000),
            AccountTier::Secondary => (2500, 6000),
            AccountTier::Test => (1500, 3500),
        }
    }
}

proof fn lemma_plain_text(s: Seq<char>)
    requires
        s.len() > 0,
        forall|k: int|
            0 <= k < s.len() ==> !crate::text::is_white_space(#[trigger] s[k]) && !('A' <= s[k]
                && s[k] <= 'Z'),
    ensures
        ascii_lower(trim(s)) == s,
{
    assert(crate::text::trim_start(s) == s);
    assert(crate::text::trim_end(s) == s);
    assert(ascii_lower(s) =~= s);
}

/// Reading back the identifier of a tier gives that tier.
pub proof fn lemma_tier_name_round_trip(t: AccountTier)
    ensures
        tier_from_text(tier_name(t)) == t,
{
    reveal_strlit("primary");
    reveal_strlit("secondary");
    reveal_strlit("test");
    reveal_strlit("main");
    reveal_strlit("主号");
    reveal_strlit("测试");
    lemma_plain_text(tier_name(t));
}

/// Reading back the display label of a tier gives that tier.
pub proof fn lemma_tier_label_round_trip(t: AccountTier)
    ensures
        tier_from_text(tier_label(t)) == t,
{
    reveal_strlit("primary");
    reveal_strlit("test");
    reveal_strlit("main");
    reveal_strlit("主号");
    reveal_strlit("辅号");
    reveal_strlit("测试");
    lemma_plain_text(tier_label(t));
}

/// Reading a tier ignores surrounding whitespace and ASCII letter case.
pub proof fn lemma_tier_text_is_loose(s: Seq<char>)
    ensures
        tier_from_text(trim(s)) == tier_from_text(s),
        tier_from_text(ascii_lower(s)) == tier_from_text(s),
{
    crate::text::lemma_trim_idempotent(s);
    crate::text::lemma_lower_trim_commute(s);
    crate::text::lemma_lower_trim_commute(trim(s));
}

/// The prefix safe-mode user names start with: the configured prefix without
/// surrounding whitespace, or the default prefix when nothing is left.
pub open spec fn effective_prefix(p: Seq<char>) -> Seq<char> {
    if trim(p).len() == 0 {
        default_prefix()
    } else {
        trim(p)
    }
}

/// The safe-mode user name of slot `index` under prefix `p`.
pub open spec fn slot_username(p: Seq<char>, index: nat) -> Seq<char> {
    effective_prefix(p) + decimal(index)
}

/// Whitespace around a prefix does not change the user names, and a blank
/// prefix gives the default prefix.
pub proof fn lemma_username_ignores_padding(p: Seq<char>, index: nat)
    ensures
        slot_username(trim(p), index) == slot_username(p, index),
        trim(p).len() == 0 ==> slot_username(p, index) == default_prefix() + decimal(index),
{
    crate::text::lemma_trim_idempotent(p);
}

/// The safe-mode user name of slot `index` under prefix `prefix`.
pub fn username_for_slot(prefix: &str, index: u8) -> (r: String)
    ensures
        r@ == slot_username(prefix@, index as nat),
{
    let raw: Vec<char> = chars_of(prefix);
    let trimmed: Vec<char> = trim_chars(&raw);
    let p: Vec<char> = if trimmed.len() == 0 {
        chars_of("WeComSlot")
    } else {
        trimmed
    };
    let digits: Vec<char> = decimal_chars(index as u64);
    let name: Vec<char> = concat_chars(&p, &digits);
    string_of(&name)
}

/// The default user-name prefix of safe-mode accounts.
pub fn default_safe_prefix() -> (r: String)
    ensures
        r@ == default_prefix(),
{
    let v: Vec<char> = chars_of("WeComSlot");
    string_of(&v)
}

/// The default of flags that are on unless given.
pub fn default_true() -> (r: bool)
    ensures
        r,
{
    true
}

/// What the user asks of a launch.
#[derive(Debug, Clone)]
pub struct LaunchOptions {
    pub count: u8,
    pub app_path: Option<String>,
    pub min_delay_ms: u64,
    pub max_delay_ms: u64,
    pub prefer_registry: bool,
    /// Deprecated flag, ignored.
    pub macos_clone_instances: bool,
    pub windows_safe_mode: bool,
    pub safe_mode_password: Option<String>,
    pub safe_mode_user_prefix: String,
    /// Per-slot tiers aligned with slots 1..count.
    pub slot_tiers: Vec<String>,
    /// When true, each slot's tier decides the delay in place of the global window.
    pub use_tier_delays: bool,
}

/// The slot tier text of slot `index` (slots count from 1; slot 0 reads the first entry).
pub open spec fn slot_tier_at(tiers: Seq<String>, index: u8) -> AccountTier {
    let i: int = if index > 0 {
        index - 1
    } else {
        0
    };
    if i < tiers.len() {
        tier_from_text(tiers[i]@)
    } else {
        AccountTier::Secondary
    }
}

impl Default for LaunchOptions {
    fn default() -> (r: Self)
        ensures
            r.count == 1,
            r.app_path is None,
            r.min_delay_ms == 2500,
            r.max_delay_ms == 6000,
            r.prefer_registry,
            !r.macos_clone_instances,
            !r.windows_safe_mode,
            r.safe_mode_password is None,
            r.safe_mode_user_prefix@ == default_prefix(),
            r.slot_tiers@.len() == 0,
            !r.use_tier_delays,
    {
        LaunchOptions {
            count: 1,
            app_path: None,
            min_delay_ms: 2500,
            max_delay_ms: 6000,
            prefer_registry: default_true(),
            macos_clone_instances: false,
            windows_safe_mode: false,
            safe_mode_password: None,
            safe_mode_user_prefix: default_safe_prefix(),
            slot_tiers: Vec::new(),
            use_tier_delays: false,
        }
    }
}

impl LaunchOptions {
    /// The safe-mode user name of slot `index`.
    pub fn safe_username(&self, index: u8) -> (r: String)
        ensures
            r@ == slot_username(self.safe_mode_user_prefix@, index as nat),
    {
        username_for_slot(self.safe_mode_user_prefix.as_str(), index)
    }

    /// The tier of slot `index`: read from `slot_tiers`, secondary when absent.
    pub fn tier_for_index(&self, index: u8) -> (r: AccountTier)
        ensures
            r == slot_tier_at(self.slot_tiers@, index),
    {
        let i: usize = if index > 0 {
            (index - 1) as usize
        } else {
            0
        };
        if i < self.slot_tiers.len() {
            AccountTier::from_str_loose(self.slot_tiers[i].as_str())
        } else {
            AccountTier::Secondary
        }
    }
}

/// The outcome of launching one slot.
#[derive(Debug, Clone)]
pub struct LaunchResult {
    pub success: bool,
    pub pid: Option<u32>,
    pub message: String,
    pub index: u8,
}

/// The outcomes of a batch launch.
#[derive(Debug, Clone)]
pub struct BatchResult {
    pub results: Vec<LaunchResult>,
    pub platform: String,
}

/// What the launcher knows of the installed client.
#[derive(Debug, Clone)]
pub struct AppInfo {
    pub platform: String,
    pub resolved_path: Option<String>,
    pub running_count: usize,
    pub running_pids: Vec<u32>,
    pub is_admin: bool,
}

/// A request to create the safe-mode accounts.
#[derive(Debug, Clone)]
pub struct SafeModePrepareRequest {
    pub count: u8,
    pub password: String,
    pub user_prefix: String,
}

/// Whether the safe-mode account of one slot exists.
#[derive(Debug, Clone)]
pub struct SafeModeUserStatus {
    pub index: u8,
    pub username: String,
    pub exists: bool,
}

/// What preparing the safe-mode accounts did.
#[derive(Debug, Clone)]
pub struct SafeModePrepareResult {
    pub created: Vec<String>,
    pub already_existed: Vec<String>,
    pub failed: Vec<String>,
    pub message: String,
}

/// A request to check whether safe mode can be used.
#[derive(Debug, Clone)]
pub struct SafeModeHealthRequest {
    pub count: u8,
    pub user_prefix: String,
    pub password: Option<String>,
}

/// Whether safe mode can be used, and why not.
#[derive(Debug, Clone)]
pub struct SafeModeHealth {
    pub platform_ok: bool,
    pub is_admin: bool,
    pub password_ok: bool,
    pub users: Vec<SafeModeUserStatus>,
    pub missing_users: Vec<String>,
    pub ready: bool,
    pub warnings: Vec<String>,
    pub summary: String,
}

/// A ready-made launch configuration.
#[derive(Debug, Clone)]
pub struct TierPreset {
    pub id: String,
    pub label: String,
    pub description: String,
    pub count: u8,
    pub min_delay_ms: u64,
    pub max_delay_ms: u64,
    pub use_tier_delays: bool,
    pub slot_tiers: Vec<String>,
    pub aliases: Vec<String>,
}

} // verus!
