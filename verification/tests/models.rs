use wecom_launcher::models::{default_safe_prefix, default_true, username_for_slot, AccountTier, LaunchOptions};
use wecom_launcher::text::{decimal_chars, trim_chars, ascii_lower_chars, contains_chars, chars_of, utf8_len_at_least};

fn s(v: &[&str]) -> Vec<String> {
    v.iter().map(|x| x.to_string()).collect()
}

#[test]
fn tier_from_loose_text() {
    assert_eq!(AccountTier::from_str_loose("primary"), AccountTier::Primary);
    assert_eq!(AccountTier::from_str_loose("  MAIN \n"), AccountTier::Primary);
    assert_eq!(AccountTier::from_str_loose("主号"), AccountTier::Primary);
    assert_eq!(AccountTier::from_str_loose("\u{3000}Test\t"), AccountTier::Test);
    assert_eq!(AccountTier::from_str_loose(" 测试 "), AccountTier::Test);
    assert_eq!(AccountTier::from_str_loose("secondary"), AccountTier::Secondary);
    assert_eq!(AccountTier::from_str_loose("prim ary"), AccountTier::Secondary);
    assert_eq!(AccountTier::from_str_loose(""), AccountTier::Secondary);
    assert_eq!(AccountTier::from_str_loose("辅号"), AccountTier::Secondary);
}

#[test]
fn tier_names_and_labels() {
    assert_eq!(AccountTier::Primary.as_str(), "primary");
    assert_eq!(AccountTier::Secondary.as_str(), "secondary");
    assert_eq!(AccountTier::Test.as_str(), "test");
    assert_eq!(AccountTier::Primary.label(), "主号");
    assert_eq!(AccountTier::Secondary.label(), "辅号");
    assert_eq!(AccountTier::Test.label(), "测试");
}

#[test]
fn tier_names_and_labels_read_back() {
    for t in [AccountTier::Primary, AccountTier::Secondary, AccountTier::Test] {
        assert_eq!(AccountTier::from_str_loose(t.as_str()), t);
        assert_eq!(AccountTier::from_str_loose(t.label()), t);
        assert_eq!(AccountTier::from_str_loose(&t.as_str().to_uppercase()), t);
    }
}

#[test]
fn tier_delay_windows() {
    assert_eq!(AccountTier::Primary.delay_range(), (5000, 10000));
    assert_eq!(AccountTier::Secondary.delay_range(), (2500, 6000));
    assert_eq!(AccountTier::Test.delay_range(), (1500, 3500));
    assert_eq!(AccountTier::default(), AccountTier::Secondary);
}

#[test]
fn launch_options_default() {
    let o = LaunchOptions::default();
    assert_eq!(o.count, 1);
    assert!(o.app_path.is_none());
    assert_eq!((o.min_delay_ms, o.max_delay_ms), (2500, 6000));
    assert!(o.prefer_registry);
    assert!(!o.macos_clone_instances && !o.windows_safe_mode && !o.use_tier_delays);
    assert!(o.safe_mode_password.is_none());
    assert_eq!(o.safe_mode_user_prefix, "WeComSlot");
    assert!(o.slot_tiers.is_empty());
    assert_eq!(default_safe_prefix(), "WeComSlot");
    assert!(default_true());
}

#[test]
fn safe_usernames() {
    let mut o = LaunchOptions::default();
    assert_eq!(o.safe_username(3), "WeComSlot3");
    o.safe_mode_user_prefix = "  Slot \t".to_string();
    assert_eq!(o.safe_username(10), "Slot10");
    o.safe_mode_user_prefix = "   ".to_string();
    assert_eq!(o.safe_username(0), "WeComSlot0");
    o.safe_mode_user_prefix = "槽位".to_string();
    assert_eq!(o.safe_username(255), "槽位255");
    assert_eq!(username_for_slot(" a b ", 7), "a b7");
}

#[test]
fn tiers_by_slot() {
    let mut o = LaunchOptions::default();
    o.slot_tiers = s(&["primary", " Test", "nonsense"]);
    assert_eq!(o.tier_for_index(0), AccountTier::Primary);
    assert_eq!(o.tier_for_index(1), AccountTier::Primary);
    assert_eq!(o.tier_for_index(2), AccountTier::Test);
    assert_eq!(o.tier_for_index(3), AccountTier::Secondary);
    assert_eq!(o.tier_for_index(4), AccountTier::Secondary);
    assert_eq!(o.tier_for_index(255), AccountTier::Secondary);
}

#[test]
fn text_helpers() {
    let d: String = decimal_chars(0).into_iter().collect();
    assert_eq!(d, "0");
    let d: String = decimal_chars(18446744073709551615).into_iter().collect();
    assert_eq!(d, "18446744073709551615");
    let t: String = trim_chars(&chars_of("\u{2003} x y \u{85}")).into_iter().collect();
    assert_eq!(t, "x y");
    let l: String = ascii_lower_chars(&chars_of("AbÇZ9")).into_iter().collect();
    assert_eq!(l, "abÇz9");
    assert!(contains_chars(&chars_of("abcabd"), &chars_of("abd")));
    assert!(!contains_chars(&chars_of("abcab"), &chars_of("abd")));
    assert!(contains_chars(&chars_of("abc"), &chars_of("")));
    assert!(utf8_len_at_least(&chars_of("密码12"), 8));
    assert!(!utf8_len_at_least(&chars_of("密码1"), 8));
}
