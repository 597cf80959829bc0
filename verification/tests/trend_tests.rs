use meta_analyzer::decimal::{parse_token, total, ParsedToken};
use meta_analyzer::models::ChangeType;
use meta_analyzer::trend::{
    analyze_change_trend_backend, change_type_from_wording, determine_change_type,
    trend_from_findings,
};

#[test]
fn keyword_increase_is_a_buff() {
    assert_eq!(analyze_change_trend_backend("Урон увеличен с 50 до 60"), 1);
}

#[test]
fn numeric_fall_is_a_nerf() {
    assert_eq!(analyze_change_trend_backend("Урон: 50 → 40"), -1);
}

#[test]
fn inverse_stat_fall_is_a_buff() {
    assert_eq!(analyze_change_trend_backend("Перезарядка: 10 → 8"), 1);
}

#[test]
fn removal_is_a_nerf() {
    assert_eq!(analyze_change_trend_backend("Способность удалена"), -1);
    assert_eq!(analyze_change_trend_backend("Passive removed"), -1);
    assert_eq!(analyze_change_trend_backend("Эффект удалено"), -1);
}

#[test]
fn numeric_rise_is_a_buff() {
    assert_eq!(analyze_change_trend_backend("Damage: 50 -> 60"), 1);
    assert_eq!(analyze_change_trend_backend("Damage: 50 ⇒ 60"), 1);
}

#[test]
fn cooldown_increase_is_a_nerf_despite_the_wording() {
    assert_eq!(analyze_change_trend_backend("Cooldown increased: 8 → 10"), -1);
}

#[test]
fn removal_beats_the_numbers() {
    assert_eq!(analyze_change_trend_backend("Bonus removed: 10 → 20"), -1);
}

#[test]
fn no_longer_is_a_nerf_unless_a_penalty_is_lifted() {
    assert_eq!(analyze_change_trend_backend("Больше не наносит урон"), -1);
    assert_eq!(analyze_change_trend_backend("No longer grants a shield"), -1);
    assert_eq!(analyze_change_trend_backend("Урон больше не уменьшается"), 1);
    assert_eq!(analyze_change_trend_backend("Damage is no longer reduced"), 1);
    assert_eq!(analyze_change_trend_backend("Range no longer decreased"), 1);
}

#[test]
fn lifted_penalty_beats_the_numbers() {
    assert_eq!(analyze_change_trend_backend("No longer reduced: 20 → 10"), 1);
}

#[test]
fn numbers_on_each_side_are_summed() {
    assert_eq!(analyze_change_trend_backend("Урон: 10/20/30 → 15/20/25"), 0);
    assert_eq!(analyze_change_trend_backend("Урон: 10/20/30 → 15/25/30"), 1);
    assert_eq!(analyze_change_trend_backend("Урон: 10/20/30 → 5/25/10"), -1);
}

#[test]
fn comma_is_a_decimal_separator() {
    assert_eq!(analyze_change_trend_backend("Сила: 0,5 → 0,75"), 1);
    assert_eq!(analyze_change_trend_backend("Scaling: 1.25 → 1.2"), -1);
}

#[test]
fn decimals_are_summed_exactly() {
    assert_eq!(analyze_change_trend_backend("Ratio: 0.1 0.2 → 0.3"), 0);
}

#[test]
fn two_arrows_fall_back_to_wording() {
    assert_eq!(analyze_change_trend_backend("1 → 2 → 3"), 0);
    assert_eq!(analyze_change_trend_backend("increased 3 → 2 → 1"), 1);
}

#[test]
fn side_without_number_falls_back_to_wording() {
    assert_eq!(analyze_change_trend_backend("Урон уменьшен: много → 40"), -1);
    assert_eq!(analyze_change_trend_backend("x → y"), 0);
}

#[test]
fn equal_numbers_fall_back_to_wording() {
    assert_eq!(analyze_change_trend_backend("Damage buffed: 50 → 50"), 1);
}

#[test]
fn wording_without_arrow() {
    assert_eq!(analyze_change_trend_backend("Armor decreased"), -1);
    assert_eq!(analyze_change_trend_backend("New effect: slows"), 1);
    assert_eq!(analyze_change_trend_backend("Tooltip updated"), 0);
    assert_eq!(analyze_change_trend_backend(""), 0);
}

#[test]
fn upper_case_wording_is_found() {
    assert_eq!(analyze_change_trend_backend("DAMAGE INCREASED"), 1);
    assert_eq!(analyze_change_trend_backend("УРОН УМЕНЬШЕН"), -1);
}

#[test]
fn findings_are_scored_in_order() {
    assert_eq!(trend_from_findings("removed", Some((1, 2)), true, false), -1);
    assert_eq!(trend_from_findings("no longer reduced", Some((2, 1)), false, true), 1);
    assert_eq!(trend_from_findings("damage", Some((1, 2)), false, true), 1);
    assert_eq!(trend_from_findings("damage", Some((2, 1)), true, false), -1);
    assert_eq!(trend_from_findings("cooldown", Some((1, 2)), true, false), -1);
    assert_eq!(trend_from_findings("mana cost", Some((2, 1)), false, true), 1);
    assert_eq!(trend_from_findings("damage", Some((2, 2)), true, true), 1);
    assert_eq!(trend_from_findings("damage", None, false, true), -1);
    assert_eq!(trend_from_findings("damage", None, false, false), 0);
}

#[test]
fn entry_wording_decides_the_change_type() {
    assert_eq!(determine_change_type("Урон увеличен с 50 до 60"), ChangeType::Buff);
    assert_eq!(determine_change_type("Base armor DECREASED"), ChangeType::Nerf);
    assert_eq!(determine_change_type("Added a new passive"), ChangeType::Buff);
    assert_eq!(determine_change_type("Дополнительный урон: 10"), ChangeType::Buff);
    assert_eq!(determine_change_type("increased and then removed"), ChangeType::Buff);
    assert_eq!(determine_change_type("Tooltip updated"), ChangeType::Adjusted);
    assert_eq!(determine_change_type(""), ChangeType::Adjusted);
}

#[test]
fn buff_wording_wins_over_nerf_wording() {
    assert_eq!(change_type_from_wording(true, true), ChangeType::Buff);
    assert_eq!(change_type_from_wording(true, false), ChangeType::Buff);
    assert_eq!(change_type_from_wording(false, true), ChangeType::Nerf);
    assert_eq!(change_type_from_wording(false, false), ChangeType::Adjusted);
}

#[test]
fn tokens_parse_to_fixed_point() {
    assert_eq!(parse_token("50"), ParsedToken::Number(50_000_000_000));
    assert_eq!(parse_token("-1.5"), ParsedToken::Number(-1_500_000_000));
    assert_eq!(parse_token("+0,25"), ParsedToken::Number(250_000_000));
    assert_eq!(parse_token("0.000000001"), ParsedToken::Number(1));
    assert_eq!(parse_token("007"), ParsedToken::Number(7_000_000_000));
    assert_eq!(parse_token("999999999.999999999"), ParsedToken::Number(999_999_999_999_999_999));
}

#[test]
fn tokens_out_of_range() {
    assert_eq!(parse_token("1000000000"), ParsedToken::OutOfRange);
    assert_eq!(parse_token("0.0000000001"), ParsedToken::OutOfRange);
    assert_eq!(parse_token("99999999999999999999999999999999"), ParsedToken::OutOfRange);
}

#[test]
fn tokens_that_are_no_numbers() {
    assert_eq!(parse_token(""), ParsedToken::Malformed);
    assert_eq!(parse_token("-"), ParsedToken::Malformed);
    assert_eq!(parse_token("1."), ParsedToken::Malformed);
    assert_eq!(parse_token(".5"), ParsedToken::Malformed);
    assert_eq!(parse_token("1.5x"), ParsedToken::Malformed);
    assert_eq!(parse_token("12a"), ParsedToken::Malformed);
    assert_eq!(parse_token("1.2.3"), ParsedToken::Malformed);
    assert_eq!(parse_token("٣"), ParsedToken::Malformed);
}

#[test]
fn totals_of_tokens() {
    let tokens = vec!["1.5".to_string(), "x".to_string(), "-0.5".to_string()];
    assert_eq!(total(&tokens), Some(1_000_000_000));
    assert_eq!(total(&vec![]), None);
    assert_eq!(total(&vec!["abc".to_string()]), None);
    assert_eq!(total(&vec!["1".to_string(), "1000000000".to_string()]), None);
}

#[test]
fn huge_number_leaves_the_numbers_out() {
    assert_eq!(analyze_change_trend_backend("Gold increased: 1 → 99999999999999999999"), 1);
    assert_eq!(analyze_change_trend_backend("Gold: 1 → 99999999999999999999"), 0);
}
