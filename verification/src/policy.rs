//! Launch pacing: the jitter between consecutive launches, the slot count
//! bounds and the built-in tier presets.

use vstd::prelude::*;

use rand::Rng;

use crate::models::{
    lemma_tier_name_round_trip, tier_delay, tier_from_text, tier_name, AccountTier, TierPreset,
    MAX_SLOTS,
};
use crate::text::{chars_of, concat_chars, decimal, decimal_chars, string_from, string_of, texts};

verus! {

/// The pair `(a, b)` in ascending order.
pub open spec fn ordered(a: u64, b: u64) -> (u64, u64) {
    if a <= b {
        (a, b)
    } else {
        (b, a)
    }
}

/// Draws the next delay.
///
/// Calls `rand::Rng::gen_range` over `lo..=hi` on `rand::thread_rng()`. The
/// contract claims that the value lies in the inclusive range, which the
/// crate guarantees for every non-empty range, and hands back (as a ghost)
/// the range the value was drawn from; which value comes is chance.
/// `requires` leaves out the empty range, on which `gen_range` panics.
#[verifier::external_body]
fn random_delay(lo: u64, hi: u64) -> (r: (u64, Ghost<(u64, u64)>))
    requires
        lo <= hi,
    ensures
        lo <= r.0 <= hi,
        r.1@ == (lo, hi),
{
    (rand::thread_rng().gen_range(lo..=hi), Ghost((lo, hi)))
}

/// Paces launches so that consecutive starts look like a person starting them.
pub struct LaunchPolicy {
    min_ms: u64,
    max_ms: u64,
    first: bool,
    last_draw: Ghost<Option<(u64, u64, u64)>>,
}

impl LaunchPolicy {
    #[verifier::type_invariant]
    spec fn window_ordered(self) -> bool {
        self.min_ms <= self.max_ms
    }

    /// The lower end of the global delay window.
    pub closed spec fn lower(self) -> u64 {
        self.min_ms
    }

    /// The upper end of the global delay window.
    pub closed spec fn upper(self) -> u64 {
        self.max_ms
    }

    /// The latest draw: the window it was drawn over (low, high) and the value
    /// drawn; none before any draw.
    pub closed spec fn last_draw(self) -> Option<(u64, u64, u64)> {
        self.last_draw@
    }

    /// No launch has been paced yet.
    pub closed spec fn is_first(self) -> bool {
        self.first
    }

    /// A policy with the window spanned by `min_ms` and `max_ms`, in either order.
    pub fn new(min_ms: u64, max_ms: u64) -> (r: Self)
        ensures
            (r.lower(), r.upper()) == ordered(min_ms, max_ms),
            r.is_first(),
            r.last_draw() is None,
    {
        if min_ms <= max_ms {
            LaunchPolicy { min_ms, max_ms, first: true, last_draw: Ghost(None) }
        } else {
            LaunchPolicy { min_ms: max_ms, max_ms: min_ms, first: true, last_draw: Ghost(None) }
        }
    }

    /// The delay (ms) to wait before the next launch, drawn from the global
    /// window; none before the first launch.
    pub fn wait_before_next(&mut self) -> (d: Option<u64>)
        ensures
            final(self).lower() == old(self).lower(),
            final(self).upper() == old(self).upper(),
            !final(self).is_first(),
            old(self).is_first() ==> d is None,
            !old(self).is_first() ==> (d is Some && old(self).lower() <= d->0 <= old(
                self,
            ).upper()),
            old(self).is_first() ==> final(self).last_draw() == old(self).last_draw(),
            !old(self).is_first() ==> final(self).last_draw() == Some(
                (old(self).lower(), old(self).upper(), d->0),
            ),
    {
        proof {
            use_type_invariant(&*self);
        }
        let lo: u64 = self.min_ms;
        let hi: u64 = self.max_ms;
        self.wait_range(lo, hi)
    }

    /// The delay (ms) to wait before launching a slot of `tier`, drawn from
    /// the tier's window; none before the first launch.
    pub fn wait_for_tier(&mut self, tier: AccountTier) -> (d: Option<u64>)
        ensures
            final(self).lower() == old(self).lower(),
            final(self).upper() == old(self).upper(),
            !final(self).is_first(),
            old(self).is_first() ==> d is None,
            !old(self).is_first() ==> (d is Some && tier_delay(tier).0 <= d->0 <= tier_delay(
                tier,
            ).1),
            old(self).is_first() ==> final(self).last_draw() == old(self).last_draw(),
            !old(self).is_first() ==> final(self).last_draw() == Some(
                (tier_delay(tier).0, tier_delay(tier).1, d->0),
            ),
    {
        let (lo, hi) = tier.delay_range();
        self.wait_range(lo, hi)
    }

    fn wait_range(&mut self, min_ms: u64, max_ms: u64) -> (d: Option<u64>)
        ensures
            final(self).lower() == old(self).lower(),
            final(self).upper() == old(self).upper(),
            !final(self).is_first(),
            old(self).is_first() ==> d is None,
            !old(self).is_first() ==> (d is Some && ordered(min_ms, max_ms).0 <= d->0 <= ordered(
                min_ms,
                max_ms,
            ).1),
            old(self).is_first() ==> final(self).last_draw() == old(self).last_draw(),
            !old(self).is_first() ==> final(self).last_draw() == Some(
                (ordered(min_ms, max_ms).0, ordered(min_ms, max_ms).1, d->0),
            ),
    {
        proof {
            use_type_invariant(&*self);
        }
        if self.first {
            self.first = false;
            return None;
        }
        let (lo, hi) = if min_ms <= max_ms {
            (min_ms, max_ms)
        } else {
            (max_ms, min_ms)
        };
        let (value, window) = random_delay(lo, hi);
        self.last_draw = Ghost(Some((window@.0, window@.1, value)));
        Some(value)
    }
}

/// A delay window does not depend on the order its ends are given in.
pub proof fn lemma_window_symmetric(a: u64, b: u64)
    ensures
        ordered(a, b) == ordered(b, a),
        ordered(a, b).0 <= ordered(a, b).1,
{
}

/// `count` brought into `1..=MAX_SLOTS`.
pub open spec fn clamped(count: u8) -> u8 {
    if count < 1 {
        1
    } else if count > MAX_SLOTS {
        MAX_SLOTS
    } else {
        count
    }
}

/// The number of slots to launch for a requested count: at least one, at most `MAX_SLOTS`.
pub fn clamp_count(count: u8) -> (r: u8)
    ensures
        r == clamped(count),
        1 <= r <= MAX_SLOTS,
{
    if count < 1 {
        1
    } else if count > MAX_SLOTS {
        MAX_SLOTS
    } else {
        count
    }
}

/// Clamping a slot count twice changes nothing more than clamping it once.
pub proof fn lemma_clamp_idempotent(count: u8)
    ensures
        clamped(clamped(count)) == clamped(count),
        1 <= count <= MAX_SLOTS ==> clamped(count) == count,
{
}

/// `n` numbered texts `prefix + "1"`, ..., `prefix + n`.
pub open spec fn numbered(prefix: Seq<char>, n: nat) -> Seq<Seq<char>> {
    Seq::new(n, |i: int| prefix + decimal((i + 1) as nat))
}

/// `n` copies of `s`.
pub open spec fn copies(s: Seq<char>, n: nat) -> Seq<Seq<char>> {
    Seq::new(n, |i: int| s)
}

/// `p` holds exactly the given values.
pub open spec fn preset_is(
    p: TierPreset,
    id: Seq<char>,
    label: Seq<char>,
    description: Seq<char>,
    count: u8,
    min_delay_ms: u64,
    max_delay_ms: u64,
    slot_tiers: Seq<Seq<char>>,
    aliases: Seq<Seq<char>>,
) -> bool {
    &&& p.id@ == id
    &&& p.label@ == label
    &&& p.description@ == description
    &&& p.count == count
    &&& p.min_delay_ms == min_delay_ms
    &&& p.max_delay_ms == max_delay_ms
    &&& p.use_tier_delays
    &&& texts(p.slot_tiers@) == slot_tiers
    &&& texts(p.aliases@) == aliases
}

/// A preset is consistent: one tier and one alias per slot, no more slots than
/// the launcher manages, and every slot's tier window inside the preset's window.
pub open spec fn preset_consistent(p: TierPreset) -> bool {
    &&& p.count as int == p.slot_tiers@.len()
    &&& p.count as int == p.aliases@.len()
    &&& 1 <= p.count <= MAX_SLOTS
    &&& p.min_delay_ms <= p.max_delay_ms
    &&& forall|i: int|
        0 <= i < p.slot_tiers@.len() ==> {
            let w = tier_delay(tier_from_text(#[trigger] p.slot_tiers@[i]@));
            p.min_delay_ms <= w.0 && w.1 <= p.max_delay_ms
        }
}


fn push_copies(v: &mut Vec<String>, s: &str, n: usize)
    ensures
        texts(final(v)@) == texts(old(v)@) + copies(s@, n as nat),
{
    let mut i: usize = 0;
    while i < n
        invariant
            i <= n,
            texts(v@) == texts(old(v)@) + copies(s@, i as nat),
        decreases n - i,
    {
        let ghost before = v@;
        v.push(string_from(s));
        assert(texts(v@) =~= texts(before).push(s@));
        i = i + 1;
        assert(texts(old(v)@) + copies(s@, i as nat) =~= (texts(old(v)@) + copies(
            s@,
            (i - 1) as nat,
        )).push(s@));
    }
}

fn push_numbered(v: &mut Vec<String>, prefix: &str, n: u8)
    ensures
        texts(final(v)@) == texts(old(v)@) + numbered(prefix@, n as nat),
{
    let mut i: u8 = 0;
    let p: Vec<char> = chars_of(prefix);
    while i < n
        invariant
            i <= n,
            p@ == prefix@,
            texts(v@) == texts(old(v)@) + numbered(prefix@, i as nat),
        decreases n - i,
    {
        let ghost before = v@;
        let digits: Vec<char> = decimal_chars((i + 1) as u64);
        let name: Vec<char> = concat_chars(&p, &digits);
        v.push(string_of(&name));
        assert(texts(v@) =~= texts(before).push(prefix@ + decimal((i + 1) as nat)));
        i = i + 1;
        assert(texts(old(v)@) + numbered(prefix@, i as nat) =~= (texts(old(v)@) + numbered(
            prefix@,
            (i - 1) as nat,
        )).push(prefix@ + decimal(i as nat)));
    }
}

proof fn lemma_tier_texts()
    ensures
        tier_from_text("primary"@) == AccountTier::Primary,
        tier_from_text("secondary"@) == AccountTier::Secondary,
        tier_from_text("test"@) == AccountTier::Test,
{
    lemma_tier_name_round_trip(AccountTier::Primary);
    lemma_tier_name_round_trip(AccountTier::Secondary);
    lemma_tier_name_round_trip(AccountTier::Test);
    assert(tier_name(AccountTier::Primary) == "primary"@);
}

/// The built-in launch presets.
pub fn tier_presets() -> (r: Vec<TierPreset>)
    ensures
        r@.len() == 4,
        preset_is(
            r@[0],
            "primary"@,
            "主号模板"@,
            "1–2 个主号：更长间隔，适合重要账号"@,
            2,
            5000,
            10000,
            copies("primary"@, 2),
            seq!["主号 1"@, "主号 2"@],
        ),
        preset_is(
            r@[1],
            "secondary"@,
            "辅号模板"@,
            "4–6 个辅号：中等间隔，日常运营"@,
            6,
            2500,
            6000,
            copies("secondary"@, 6),
            numbered("辅号 "@, 6),
        ),
        preset_is(
            r@[2],
            "mixed"@,
            "主+辅混合"@,
            "2 主号 + 6 辅号：主号更慢，辅号常规"@,
            8,
            2500,
            10000,
            copies("primary"@, 2) + copies("secondary"@, 6),
            seq!["主号 1"@, "主号 2"@] + numbered("辅号 "@, 6),
        ),
        preset_is(
            r@[3],
            "test"@,
            "测试模板"@,
            "验证多开是否可用，间隔较短"@,
            3,
            1500,
            3500,
            copies("test"@, 3),
            seq!["测试 1"@, "测试 2"@, "测试 3"@],
        ),
        forall|k: int| 0 <= k < r@.len() ==> preset_consistent(#[trigger] r@[k]),
{
    proof {
        lemma_tier_texts();
    }
    let mut presets: Vec<TierPreset> = Vec::new();

    let mut tiers: Vec<String> = Vec::new();
    push_copies(&mut tiers, "primary", 2);
    let mut aliases: Vec<String> = Vec::new();
    aliases.push(string_from("主号 1"));
    aliases.push(string_from("主号 2"));
    assert(texts(aliases@) =~= seq!["主号 1"@, "主号 2"@]);
    assert(texts(tiers@) =~= copies("primary"@, 2));
    presets.push(
        TierPreset {
            id: string_from("primary"),
            label: string_from("主号模板"),
            description: string_from("1–2 个主号：更长间隔，适合重要账号"),
            count: 2,
            min_delay_ms: 5000,
            max_delay_ms: 10000,
            use_tier_delays: true,
            slot_tiers: tiers,
            aliases,
        },
    );

    let mut tiers: Vec<String> = Vec::new();
    push_copies(&mut tiers, "secondary", 6);
    let mut aliases: Vec<String> = Vec::new();
    push_numbered(&mut aliases, "辅号 ", 6);
    assert(texts(tiers@) =~= copies("secondary"@, 6));
    assert(texts(aliases@) =~= numbered("辅号 "@, 6));
    presets.push(
        TierPreset {
            id: string_from("secondary"),
            label: string_from("辅号模板"),
            description: string_from("4–6 个辅号：中等间隔，日常运营"),
            count: 6,
            min_delay_ms: 2500,
            max_delay_ms: 6000,
            use_tier_delays: true,
            slot_tiers: tiers,
            aliases,
        },
    );

    let mut tiers: Vec<String> = Vec::new();
    push_copies(&mut tiers, "primary", 2);
    push_copies(&mut tiers, "secondary", 6);
    let mut aliases: Vec<String> = Vec::new();
    aliases.push(string_from("主号 1"));
    aliases.push(string_from("主号 2"));
    push_numbered(&mut aliases, "辅号 ", 6);
    assert(texts(tiers@) =~= copies("primary"@, 2) + copies("secondary"@, 6));
    assert(texts(aliases@) =~= seq!["主号 1"@, "主号 2"@] + numbered("辅号 "@, 6));
    presets.push(
        TierPreset {
            id: string_from("mixed"),
            label: string_from("主+辅混合"),
            description: string_from("2 主号 + 6 辅号：主号更慢，辅号常规"),
            count: 8,
            min_delay_ms: 2500,
            max_delay_ms: 10000,
            use_tier_delays: true,
            slot_tiers: tiers,
            aliases,
        },
    );

    let mut tiers: Vec<String> = Vec::new();
    push_copies(&mut tiers, "test", 3);
    let mut aliases: Vec<String> = Vec::new();
    aliases.push(string_from("测试 1"));
    aliases.push(string_from("测试 2"));
    aliases.push(string_from("测试 3"));
    assert(texts(tiers@) =~= copies("test"@, 3));
    assert(texts(aliases@) =~= seq!["测试 1"@, "测试 2"@, "测试 3"@]);
    presets.push(
        TierPreset {
            id: string_from("test"),
            label: string_from("测试模板"),
            description: string_from("验证多开是否可用，间隔较短"),
            count: 3,
            min_delay_ms: 1500,
            max_delay_ms: 3500,
            use_tier_delays: true,
            slot_tiers: tiers,
            aliases,
        },
    );

    assert forall|k: int| 0 <= k < presets@.len() implies preset_consistent(
        #[trigger] presets@[k],
    ) by {
        let p = presets@[k];
        assert forall|i: int| 0 <= i < p.slot_tiers@.len() implies {
            let w = tier_delay(tier_from_text(#[trigger] p.slot_tiers@[i]@));
            p.min_delay_ms <= w.0 && w.1 <= p.max_delay_ms
        } by {
            assert(texts(p.slot_tiers@)[i] == p.slot_tiers@[i]@);
        }
    }
    presets
}

} // verus!
