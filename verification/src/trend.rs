//! The change-trend classifier: whether a change line, or a whole entry, reads
//! as a buff, a nerf or a neutral adjustment.
//!
//! A line is scored by rules in a fixed order, the first that applies
//! deciding: a removal or a "no longer" phrase is a nerf, unless what is no
//! longer done is a reduction, which is a buff; then two numbers on either
//! side of an arrow are compared, with the sign turned for statistics of which
//! less is better; then buff and nerf wording is looked for.

use vstd::prelude::*;
use crate::decimal::{total, total_of};
use crate::models::ChangeType;
use crate::text::{
    chars_of, has_substring, has_word, lowercase, regex_find_all, regex_is_match, regex_match,
    regex_matches, regex_pieces, regex_split, to_lowercase,
};

verus! {

/// What separates the old value from the new one: an arrow, with the white
/// space around it.
pub const ARROW_PATTERN: &'static str = r"\s*(?:→|⇒|->)\s*";

/// A number token: an optional sign, digits, and optionally a point or a
/// comma with more digits.
pub const NUMBER_PATTERN: &'static str = r"[-+]?\d+(?:[.,]\d+)?";

/// Wording that makes a line a buff.
pub const BUFF_WORDING: &'static str = "(увеличен|усилен|increased|buffed|new effect|новый эффект)";

/// Wording that makes a line a nerf.
pub const NERF_WORDING: &'static str = "(уменьшен|ослаблен|decreased|nerfed|removed|удален)";

/// Wording that makes a whole entry a buff, in any letter case.
pub const ENTRY_BUFF_WORDING: &'static str = "(?i)(увеличен|усилен|added|increased|дополнительный урон)";

/// Wording that makes a whole entry a nerf, in any letter case.
pub const ENTRY_NERF_WORDING: &'static str = "(?i)(уменьшен|ослаблен|removed|decreased)";

/// The line says that something was removed.
pub open spec fn is_removal(lower: Seq<char>) -> bool {
    has_substring(lower, "удален"@) || has_substring(lower, "removed"@)
}

/// The line says that something is no longer done.
pub open spec fn says_no_longer(lower: Seq<char>) -> bool {
    has_substring(lower, "больше не"@) || has_substring(lower, "no longer"@)
}

/// The line says that something is no longer reduced: a penalty is lifted.
pub open spec fn lifts_penalty(lower: Seq<char>) -> bool {
    ||| has_substring(lower, "больше не уменьшается"@)
    ||| has_substring(lower, "no longer reduced"@)
    ||| has_substring(lower, "no longer decreased"@)
}

/// The line is a nerf whatever its numbers say.
pub open spec fn is_hard_nerf(lower: Seq<char>) -> bool {
    is_removal(lower) || (says_no_longer(lower) && !lifts_penalty(lower))
}

/// The line is about a statistic of which less is better: a cooldown, a cost,
/// a cast time.
pub open spec fn is_inverse_stat(lower: Seq<char>) -> bool {
    ||| has_substring(lower, "перезарядка"@)
    ||| has_substring(lower, "cooldown"@)
    ||| has_substring(lower, "стоимость"@)
    ||| has_substring(lower, "cost"@)
    ||| has_substring(lower, "mana"@)
    ||| has_substring(lower, "маны"@)
    ||| has_substring(lower, "energy"@)
    ||| has_substring(lower, "энергии"@)
    ||| has_substring(lower, "затраты"@)
    ||| has_substring(lower, "время"@)
    ||| has_substring(lower, "time"@)
}

/// The trend that a change from `from` to `to` stands for: a rise is a buff
/// and a fall a nerf, the other way round for an inverse statistic, and no
/// change is no trend.
pub open spec fn numeric_trend(from: int, to: int, inverse: bool) -> int {
    if to > from {
        if inverse {
            -1
        } else {
            1
        }
    } else if to < from {
        if inverse {
            1
        } else {
            -1
        }
    } else {
        0
    }
}

/// The trend of a line, from what was found in it: its lower-case form, the
/// totals on either side of its arrow where it has both, and whether buff or
/// nerf wording stands in it.
pub open spec fn decide_trend(
    lower: Seq<char>,
    totals: Option<(int, int)>,
    buff_wording: bool,
    nerf_wording: bool,
) -> int {
    let by_numbers = match totals {
        Some((from, to)) => numeric_trend(from, to, is_inverse_stat(lower)),
        None => 0,
    };
    if is_hard_nerf(lower) {
        -1
    } else if lifts_penalty(lower) {
        1
    } else if by_numbers != 0 {
        by_numbers
    } else if buff_wording {
        1
    } else if nerf_wording {
        -1
    } else {
        0
    }
}

/// The total of the number tokens on one side of an arrow.
pub open spec fn side_total(side: Seq<char>) -> Option<int> {
    match regex_matches(NUMBER_PATTERN@, side) {
        Some(tokens) => total_of(tokens),
        None => None,
    }
}

/// The totals on the two sides of the arrow of a line. There are none unless
/// the arrows cut the line in exactly two and both sides have a total.
pub open spec fn arrow_totals(text: Seq<char>) -> Option<(int, int)> {
    match regex_pieces(ARROW_PATTERN@, text) {
        Some(pieces) => {
            if pieces.len() == 2 && side_total(pieces[0]) is Some && side_total(pieces[1]) is Some {
                Some((side_total(pieces[0])->0, side_total(pieces[1])->0))
            } else {
                None
            }
        },
        None => None,
    }
}

/// The trend of a change line: 1 for a buff, -1 for a nerf, 0 for neither.
pub open spec fn line_trend(text: Seq<char>) -> int {
    let lower = lowercase(text);
    decide_trend(
        lower,
        arrow_totals(text),
        regex_match(BUFF_WORDING@, lower) == Some(true),
        regex_match(NERF_WORDING@, lower) == Some(true),
    )
}

/// The change type of a whole entry, from whether buff and nerf wording stand in
/// its text: buff wording wins, then nerf wording, else it is an adjustment.
pub open spec fn change_type_of(buff_wording: bool, nerf_wording: bool) -> ChangeType {
    if buff_wording {
        ChangeType::Buff
    } else if nerf_wording {
        ChangeType::Nerf
    } else {
        ChangeType::Adjusted
    }
}

/// The change type of a whole entry with the given text.
pub open spec fn entry_change_type(text: Seq<char>) -> ChangeType {
    change_type_of(
        regex_match(ENTRY_BUFF_WORDING@, text) == Some(true),
        regex_match(ENTRY_NERF_WORDING@, text) == Some(true),
    )
}

/// Whether a lower-case line is a nerf whatever its numbers say.
pub fn check_hard_nerf(lower: &Vec<char>) -> (r: bool)
    ensures
        r == is_hard_nerf(lower@),
{
    if has_word(lower, "удален") || has_word(lower, "removed") {
        return true;
    }
    (has_word(lower, "больше не") || has_word(lower, "no longer")) && !check_lifts_penalty(lower)
}

/// Whether a lower-case line says that a penalty is lifted.
pub fn check_lifts_penalty(lower: &Vec<char>) -> (r: bool)
    ensures
        r == lifts_penalty(lower@),
{
    has_word(lower, "больше не уменьшается") || has_word(lower, "no longer reduced") || has_word(
        lower,
        "no longer decreased",
    )
}

/// Whether a lower-case line is about a statistic of which less is better.
pub fn check_inverse_stat(lower: &Vec<char>) -> (r: bool)
    ensures
        r == is_inverse_stat(lower@),
{
    has_word(lower, "перезарядка") || has_word(lower, "cooldown") || has_word(lower, "стоимость")
        || has_word(lower, "cost") || has_word(lower, "mana") || has_word(lower, "маны")
        || has_word(lower, "energy") || has_word(lower, "энергии") || has_word(lower, "затраты")
        || has_word(lower, "время") || has_word(lower, "time")
}

/// Scores a line from what was found in it: its lower-case form, the totals
/// on either side of its arrow where it has both, and whether buff or nerf
/// wording stands in it.
pub fn trend_from_findings(
    lower: &str,
    totals: Option<(i128, i128)>,
    buff_wording: bool,
    nerf_wording: bool,
) -> (r: i32)
    ensures
        r == decide_trend(
            lower@,
            match totals {
                Some((from, to)) => Some((from as int, to as int)),
                None => None,
            },
            buff_wording,
            nerf_wording,
        ),
        -1 <= r <= 1,
{
    let low = chars_of(lower);
    if check_hard_nerf(&low) {
        return -1;
    }
    if check_lifts_penalty(&low) {
        return 1;
    }
    match totals {
        Some((from, to)) => {
            let inverse = check_inverse_stat(&low);
            if to > from {
                return if inverse {
                    -1
                } else {
                    1
                };
            }
            if to < from {
                return if inverse {
                    1
                } else {
                    -1
                };
            }
        },
        None => {},
    }
    if buff_wording {
        1
    } else if nerf_wording {
        -1
    } else {
        0
    }
}

/// The total of the number tokens in one side of an arrow.
fn total_of_side(side: &str) -> (r: Option<i128>)
    ensures
        r is Some <==> side_total(side@) is Some,
        r matches Some(v) ==> side_total(side@) == Some(v as int),
{
    match regex_find_all(NUMBER_PATTERN, side) {
        Some(tokens) => total(&tokens),
        None => None,
    }
}

/// The totals on the two sides of the arrow of a line.
fn totals_around_arrow(text: &str) -> (r: Option<(i128, i128)>)
    ensures
        r is Some <==> arrow_totals(text@) is Some,
        r matches Some(t) ==> arrow_totals(text@) == Some((t.0 as int, t.1 as int)),
{
    match regex_split(ARROW_PATTERN, text) {
        Some(pieces) => {
            if pieces.len() != 2 {
                return None;
            }
            assert(pieces.deep_view()[0] == pieces[0]@);
            assert(pieces.deep_view()[1] == pieces[1]@);
            let from = total_of_side(pieces[0].as_str());
            let to = total_of_side(pieces[1].as_str());
            match (from, to) {
                (Some(a), Some(b)) => Some((a, b)),
                _ => None,
            }
        },
        None => None,
    }
}

/// Scores one change line: 1 for a buff, -1 for a nerf, 0 for neither.
pub fn analyze_change_trend_backend(text: &str) -> (r: i32)
    ensures
        r == line_trend(text@),
        -1 <= r <= 1,
{
    let lower = to_lowercase(text);
    let totals = totals_around_arrow(text);
    let buff_wording = regex_is_match(BUFF_WORDING, lower.as_str()) == Some(true);
    let nerf_wording = regex_is_match(NERF_WORDING, lower.as_str()) == Some(true);
    trend_from_findings(lower.as_str(), totals, buff_wording, nerf_wording)
}

/// The change type of a whole entry, from whether buff and nerf wording stand in
/// its text.
pub fn change_type_from_wording(buff_wording: bool, nerf_wording: bool) -> (r: ChangeType)
    ensures
        r == change_type_of(buff_wording, nerf_wording),
{
    if buff_wording {
        ChangeType::Buff
    } else if nerf_wording {
        ChangeType::Nerf
    } else {
        ChangeType::Adjusted
    }
}

/// Classifies a whole entry by the wording of its text.
pub fn determine_change_type(text: &str) -> (r: ChangeType)
    ensures
        r == entry_change_type(text@),
        r == ChangeType::Buff || r == ChangeType::Nerf || r == ChangeType::Adjusted,
{
    let buff_wording = regex_is_match(ENTRY_BUFF_WORDING, text) == Some(true);
    let nerf_wording = regex_is_match(ENTRY_NERF_WORDING, text) == Some(true);
    change_type_from_wording(buff_wording, nerf_wording)
}

/// The rules apply in their order, and a later rule never overrides an
/// earlier one: a hard nerf is a nerf whatever the numbers and the wording
/// say; a lifted penalty is a buff whatever they say; and numbers that differ
/// decide whatever the wording says.
pub proof fn lemma_rules_apply_in_order(
    lower: Seq<char>,
    totals: Option<(int, int)>,
    buff_wording: bool,
    nerf_wording: bool,
)
    ensures
        -1 <= decide_trend(lower, totals, buff_wording, nerf_wording) <= 1,
        is_hard_nerf(lower) ==> decide_trend(lower, totals, buff_wording, nerf_wording) == -1,
        !is_hard_nerf(lower) && lifts_penalty(lower) ==> decide_trend(
            lower,
            totals,
            buff_wording,
            nerf_wording,
        ) == 1,
        forall|from: int, to: int|
            !is_hard_nerf(lower) && !lifts_penalty(lower) && totals == Some((from, to)) && from
                != to ==> decide_trend(lower, totals, buff_wording, nerf_wording)
                == #[trigger] numeric_trend(from, to, is_inverse_stat(lower)),
        forall|from: int, to: int|
            #[trigger] numeric_trend(from, to, true) == -numeric_trend(from, to, false),
{
}

} // verus!
