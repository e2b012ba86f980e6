use wecom_launcher::models::AccountTier;
use wecom_launcher::policy::{clamp_count, tier_presets, LaunchPolicy};

fn strs(v: &[String]) -> Vec<&str> {
    v.iter().map(|s| s.as_str()).collect()
}

#[test]
fn first_launch_is_not_delayed() {
    let mut p = LaunchPolicy::new(6000, 2500);
    assert_eq!(p.wait_before_next(), None);
    for _ in 0..20 {
        let d = p.wait_before_next().unwrap();
        assert!((2500..=6000).contains(&d));
    }
}

#[test]
fn tier_delays_stay_in_the_tier_window() {
    let mut p = LaunchPolicy::new(0, 0);
    assert_eq!(p.wait_for_tier(AccountTier::Primary), None);
    let mut seen = std::collections::HashSet::new();
    for _ in 0..50 {
        let d = p.wait_for_tier(AccountTier::Test).unwrap();
        assert!((1500..=3500).contains(&d));
        seen.insert(d);
    }
    assert!(seen.len() > 1);
    for _ in 0..20 {
        let d = p.wait_for_tier(AccountTier::Primary).unwrap();
        assert!((5000..=10000).contains(&d));
    }
}

#[test]
fn empty_window_gives_its_only_value() {
    let mut p = LaunchPolicy::new(7, 7);
    assert_eq!(p.wait_before_next(), None);
    assert_eq!(p.wait_before_next(), Some(7));
}

#[test]
fn counts_are_clamped() {
    assert_eq!(clamp_count(0), 1);
    assert_eq!(clamp_count(1), 1);
    assert_eq!(clamp_count(7), 7);
    assert_eq!(clamp_count(10), 10);
    assert_eq!(clamp_count(11), 10);
    assert_eq!(clamp_count(255), 10);
}

#[test]
fn presets() {
    let p = tier_presets();
    assert_eq!(p.len(), 4);
    assert_eq!(p[0].id, "primary");
    assert_eq!(p[0].label, "主号模板");
    assert_eq!(p[0].count, 2);
    assert_eq!((p[0].min_delay_ms, p[0].max_delay_ms), (5000, 10000));
    assert_eq!(strs(&p[0].slot_tiers), vec!["primary", "primary"]);
    assert_eq!(strs(&p[0].aliases), vec!["主号 1", "主号 2"]);
    assert_eq!(p[1].id, "secondary");
    assert_eq!(p[1].description, "4–6 个辅号：中等间隔，日常运营");
    assert_eq!(strs(&p[1].aliases), vec!["辅号 1", "辅号 2", "辅号 3", "辅号 4", "辅号 5", "辅号 6"]);
    assert_eq!(p[2].id, "mixed");
    assert_eq!(p[2].count, 8);
    assert_eq!(
        strs(&p[2].slot_tiers),
        vec!["primary", "primary", "secondary", "secondary", "secondary", "secondary", "secondary", "secondary"]
    );
    assert_eq!(strs(&p[2].aliases)[1..3], ["主号 2", "辅号 1"]);
    assert_eq!(p[3].id, "test");
    assert_eq!((p[3].count, p[3].min_delay_ms, p[3].max_delay_ms), (3, 1500, 3500));
    assert_eq!(strs(&p[3].aliases), vec!["测试 1", "测试 2", "测试 3"]);
}

#[test]
fn presets_are_consistent() {
    for p in tier_presets() {
        assert!(p.use_tier_delays);
        assert_eq!(p.count as usize, p.slot_tiers.len());
        assert_eq!(p.count as usize, p.aliases.len());
        for t in &p.slot_tiers {
            let (lo, hi) = AccountTier::from_str_loose(t).delay_range();
            assert!(p.min_delay_ms <= lo && hi <= p.max_delay_ms);
        }
    }
}
