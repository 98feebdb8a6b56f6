use carbon_core::category::Category;
use carbon_core::format::{count_text, fixed_to_text, plain_to_text, round_scaled};
use carbon_core::group::{sheet_has_space, sheet_short_name, sheet_type, text_less};
use carbon_core::import::code_with_prefix;
use carbon_core::number::parse_fixed;
use carbon_core::present::emission_text;
use carbon_core::text::{text_eq, trim};

#[test]
fn classify_accepts_exact_markers_only() {
    assert_eq!(Category::classify("人工类别"), Some(Category::Labor));
    assert_eq!(Category::classify("材料类别"), Some(Category::Material));
    assert_eq!(Category::classify("机械类别"), Some(Category::Machine));
    assert_eq!(Category::classify(" 人工类别"), None);
    assert_eq!(Category::classify("人工类别 "), None);
    assert_eq!(Category::classify("人工"), None);
    assert_eq!(Category::classify(""), None);
    assert_eq!(Category::classify("未知类别"), None);
    for _ in 0..3 {
        assert_eq!(Category::classify("机械类别"), Some(Category::Machine));
    }
}

#[test]
fn marker_prefix_round_trip() {
    for c in [Category::Labor, Category::Material, Category::Machine] {
        assert_eq!(Category::classify(c.marker()), Some(c));
    }
    assert_eq!(Category::Labor.prefix(), Some('L'));
    assert_eq!(Category::Material.prefix(), Some('M'));
    assert_eq!(Category::Machine.prefix(), Some('E'));
    assert_eq!(Category::Uncategorized.prefix(), None);
}

#[test]
fn category_names_round_trip() {
    for c in [Category::Labor, Category::Material, Category::Machine, Category::Uncategorized] {
        assert_eq!(Category::from_name(c.name()), c);
    }
    assert_eq!(Category::from_name("other"), Category::Uncategorized);
    assert_eq!(Category::Material.name(), "material");
}

#[test]
fn prefixing_is_idempotent() {
    let once = code_with_prefix("123".to_string(), Category::Material);
    assert_eq!(once, "M123");
    let twice = code_with_prefix(once.clone(), Category::Labor);
    assert_eq!(twice, "M123");
    assert_eq!(code_with_prefix("E5".to_string(), Category::Labor), "E5");
    assert_eq!(code_with_prefix("".to_string(), Category::Labor), "");
    assert_eq!(code_with_prefix("9".to_string(), Category::Uncategorized), "9");
}

#[test]
fn parse_fixed_reads_decimals_exactly() {
    assert_eq!(parse_fixed("12.5"), Some(12_500_000));
    assert_eq!(parse_fixed("-0.25"), Some(-250_000));
    assert_eq!(parse_fixed("+3"), Some(3_000_000));
    assert_eq!(parse_fixed(".5"), Some(500_000));
    assert_eq!(parse_fixed("5."), Some(5_000_000));
    assert_eq!(parse_fixed("0.000001"), Some(1));
    assert_eq!(parse_fixed("007"), Some(7_000_000));
    assert_eq!(parse_fixed("9223372036854.775807"), Some(i64::MAX));
    assert_eq!(parse_fixed("-9223372036854.775807"), Some(-i64::MAX));
}

#[test]
fn parse_fixed_rounds_beyond_six_decimals() {
    assert_eq!(parse_fixed("1.1234567"), Some(1_123_457));
    assert_eq!(parse_fixed("1.1234564999"), Some(1_123_456));
    assert_eq!(parse_fixed("6.300000000000001"), Some(6_300_000));
    assert_eq!(parse_fixed("1.0000005"), Some(1_000_001));
    assert_eq!(parse_fixed("-0.0000005"), Some(-1));
    assert_eq!(parse_fixed("0.00000049"), Some(0));
    assert_eq!(parse_fixed("9223372036854.7758074"), Some(i64::MAX));
}

#[test]
fn parse_fixed_rejects_non_numerals() {
    for s in [
        "", ".", "-", "+", "1e3", "inf", "NaN", " 1", "1 ", "1.2.3", "--1", "-+1",
        "9223372036854.775808", "99999999999999999999999", "9223372036854.7758075",
    ] {
        assert_eq!(parse_fixed(s), None, "{s}");
    }
}

#[test]
fn formatting_rounds_half_away_from_zero() {
    assert_eq!(emission_text(1_234_500_000_000), "1.23");
    assert_eq!(emission_text(1_235_000_000_000), "1.24");
    assert_eq!(emission_text(-1_235_000_000_000), "-1.24");
    assert_eq!(emission_text(-1_000_000_000), "0.00");
    assert_eq!(emission_text(0), "0.00");
    assert_eq!(round_scaled(15, 1), 2);
    assert_eq!(round_scaled(-15, 1), -2);
    assert_eq!(round_scaled(14, 1), 1);
    assert_eq!(round_scaled(i128::MIN, 18), -170_141_183_460_469_231_732);
}

#[test]
fn fixed_and_plain_text() {
    assert_eq!(fixed_to_text(12345, 2), "123.45");
    assert_eq!(fixed_to_text(5, 2), "0.05");
    assert_eq!(fixed_to_text(-5, 4), "-0.0005");
    assert_eq!(fixed_to_text(7, 0), "7");
    assert_eq!(plain_to_text(1_000_000, 6), "1");
    assert_eq!(plain_to_text(500_000, 6), "0.5");
    assert_eq!(plain_to_text(-1_250_000, 6), "-1.25");
    assert_eq!(plain_to_text(1, 6), "0.000001");
    assert_eq!(count_text(0), "0");
    assert_eq!(count_text(1024), "1024");
}

#[test]
fn trim_and_compare() {
    assert_eq!(trim("  a b \t\n"), "a b");
    assert_eq!(trim("\u{3000}全角\u{3000}"), "全角");
    assert_eq!(trim("   "), "");
    assert!(text_eq("道路", "道路"));
    assert!(!text_eq("道路", "道"));
}

#[test]
fn sheet_names_split_at_first_space() {
    assert_eq!(sheet_type("道路工程 主线 K0"), "道路工程");
    assert_eq!(sheet_short_name("道路工程 主线 K0"), "主线 K0");
    assert_eq!(sheet_type("道路工程"), "道路工程");
    assert_eq!(sheet_short_name("道路工程"), "");
    assert!(sheet_has_space("a b"));
    assert!(!sheet_has_space("ab"));
}

#[test]
fn text_order_is_code_point_order() {
    assert!(text_less("交通工程", "道路工程"));
    assert!(!text_less("道路工程", "交通工程"));
    assert!(text_less("a", "ab"));
    assert!(!text_less("ab", "ab"));
    assert!(text_less("", "a"));
}
