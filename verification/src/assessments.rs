//! The reader's language assessments: exam dates, the estimate of one
//! assessment from the levels its scores map to, and the summary over all
//! assessments.

use chrono::Datelike;
use vstd::prelude::*;

use crate::error::AppError;
use crate::preparation::{chars_less, id_less, opt_view};
use crate::records::{confidence_rank, confidence_rank_spec, level_index, level_index_spec, CefrEstimate, LanguageAssessmentSummary};
use crate::scores::{at_least_tenths, at_most_tenths, is_finite, is_finite_bits, score_at_least_tenths, score_le, score_at_most_tenths};
use crate::text::{chars_of, str_eq, trim_ws};

verus! {

/// Version of the score-to-level mapping.
pub const MAPPING_VERSION: &'static str = "cefr-estimate-2026-07-v1";

/// The day number (days from the common era, as `chrono` counts them) of a
/// `YYYY-MM-DD` date that `chrono::NaiveDate::parse_from_str` accepts.
pub uninterp spec fn iso_date_day(s: Seq<char>) -> Option<int>;

/// `chrono`'s `%Y-%m-%d` form of the date with a day number.
pub uninterp spec fn iso_date_text(day: int) -> Seq<char>;

/// Parses a `YYYY-MM-DD` date with `chrono` and gives its day number; a
/// function of the text.
#[verifier::external_body]
fn parse_iso_date(s: &str) -> (r: Option<i32>)
    ensures
        match r {
            Some(d) => iso_date_day(s@) == Some(d as int),
            None => iso_date_day(s@) is None,
        },
{
    chrono::NaiveDate::parse_from_str(s, "%Y-%m-%d").ok().map(|date| date.num_days_from_ce())
}

/// Formats the date with a day number as `%Y-%m-%d` with `chrono`; a
/// function of the day number.
#[verifier::external_body]
fn format_iso_date(day: i32) -> (r: String)
    ensures
        r@ == iso_date_text(day as int),
{
    chrono::NaiveDate::from_num_days_from_ce_opt(day).map(|date| date.format("%Y-%m-%d").to_string()).unwrap_or_default()
}

/// The exam date kept for an assessment: none when absent or blank;
/// refused when it is not a `YYYY-MM-DD` date or lies after `today` (a
/// day number); else the date in its canonical form.
pub open spec fn exam_date_spec(exam_date: Option<Seq<char>>, today: int) -> Result<Option<Seq<char>>, Seq<char>> {
    match exam_date {
        None => Ok(None),
        Some(s) => if trim_ws(s).len() == 0 {
            Ok(None)
        } else {
            match iso_date_day(trim_ws(s)) {
                None => Err("LANGUAGE_EXAM_DATE_INVALID"@),
                Some(d) => if d > today {
                    Err("LANGUAGE_EXAM_DATE_IN_FUTURE"@)
                } else {
                    Ok(Some(iso_date_text(d)))
                },
            }
        },
    }
}

/// Checks and normalises an assessment's exam date against today's day
/// number.
pub fn normalized_exam_date(exam_date: Option<&str>, today: i32) -> (r: Result<Option<String>, AppError>)
    ensures
        match r {
            Ok(d) => exam_date_spec(crate::chat::opt_str_view(exam_date), today as int) == Ok::<Option<Seq<char>>, Seq<char>>(opt_view(d)),
            Err(e) => e is Other && exam_date_spec(crate::chat::opt_str_view(exam_date), today as int)
                == Err::<Option<Seq<char>>, Seq<char>>(e.message_view()),
        },
{
    let s = match exam_date {
        Some(s) => s,
        None => return Ok(None),
    };
    let trimmed = crate::text::trim(s);
    if trimmed.as_str().is_empty() {
        return Ok(None);
    }
    match parse_iso_date(trimmed.as_str()) {
        None => Err(crate::error::other("LANGUAGE_EXAM_DATE_INVALID")),
        Some(d) => if d > today {
            Err(crate::error::other("LANGUAGE_EXAM_DATE_IN_FUTURE"))
        } else {
            Ok(Some(format_iso_date(d)))
        },
    }
}

/// The levels two scores of one assessment map to: the overall level and
/// its confidence, and the reading level and its confidence when there is
/// a reading score. The reading level is the estimate; when the two differ
/// by two levels or more, they are the range and the reader confirms.
pub open spec fn cefr_estimate_spec(
    overall: (Seq<char>, Seq<char>),
    reading: Option<(Seq<char>, Seq<char>)>,
    e: CefrEstimate,
) -> bool {
    &&& e.estimated_cefr@ == match reading { Some(r) => r.0, None => overall.0 }
    &&& e.confidence@ == match reading { Some(r) => r.1, None => overall.1 }
    &&& e.mapping_version@ == MAPPING_VERSION@
    &&& match reading {
        Some(r) => {
            let a = level_index_spec(overall.0);
            let b = level_index_spec(r.0);
            if a - b >= 2 || b - a >= 2 {
                &&& e.needs_confirmation
                &&& opt_view(e.lower_cefr) == Some(if a <= b { overall.0 } else { r.0 })
                &&& opt_view(e.upper_cefr) == Some(if a <= b { r.0 } else { overall.0 })
            } else {
                !e.needs_confirmation && e.lower_cefr is None && e.upper_cefr is None
            }
        },
        None => !e.needs_confirmation && e.lower_cefr is None && e.upper_cefr is None,
    }
}

/// Combines the levels of one assessment's scores into its estimate.
pub fn cefr_estimate(overall: (String, String), reading: Option<(String, String)>) -> (r: CefrEstimate)
    ensures
        cefr_estimate_spec(
            (overall.0@, overall.1@),
            match reading { Some(x) => Some((x.0@, x.1@)), None => None },
            r,
        ),
{
    let (overall_level, overall_confidence) = overall;
    match reading {
        Some((reading_level, reading_confidence)) => {
            let a = level_index(overall_level.as_str());
            let b = level_index(reading_level.as_str());
            let apart = if a >= b { a - b >= 2 } else { b - a >= 2 };
            if apart {
                let (lower, upper) = if a <= b {
                    (overall_level, reading_level.clone())
                } else {
                    (reading_level.clone(), overall_level)
                };
                CefrEstimate {
                    estimated_cefr: reading_level,
                    lower_cefr: Some(lower),
                    upper_cefr: Some(upper),
                    confidence: reading_confidence,
                    mapping_version: MAPPING_VERSION.to_string(),
                    needs_confirmation: true,
                }
            } else {
                CefrEstimate {
                    estimated_cefr: reading_level,
                    lower_cefr: None,
                    upper_cefr: None,
                    confidence: reading_confidence,
                    mapping_version: MAPPING_VERSION.to_string(),
                    needs_confirmation: false,
                }
            }
        },
        None => CefrEstimate {
            estimated_cefr: overall_level,
            lower_cefr: None,
            upper_cefr: None,
            confidence: overall_confidence,
            mapping_version: MAPPING_VERSION.to_string(),
            needs_confirmation: false,
        },
    }
}

/// The score scale of an exam (of its reading section when `reading`), in
/// tenths of a point: the lowest and the highest score.
pub open spec fn score_range_spec(exam: Seq<char>, reading: bool) -> Option<(int, int)> {
    if exam == "ielts"@ {
        Some((0, 90))
    } else if exam == "toefl_ibt"@ {
        if reading { Some((0, 300)) } else { Some((0, 1200)) }
    } else if exam == "toeic_lr"@ {
        if reading { Some((50, 4950)) } else { Some((100, 9900)) }
    } else if exam == "cambridge"@ {
        Some((800, 2300))
    } else if exam == "det"@ {
        Some((100, 1600))
    } else if exam == "cet4"@ || exam == "cet6"@ {
        if reading { Some((0, 2490)) } else { Some((0, 7100)) }
    } else {
        None
    }
}

/// The lowest score of each level of a supported exam's scale, in tenths
/// of a point, in rising order.
pub open spec fn thresholds_spec(exam: Seq<char>, reading: bool) -> Seq<(int, Seq<char>)> {
    if exam == "ielts"@ {
        seq![(0, "A1"@), (30, "A2"@), (40, "B1"@), (55, "B2"@), (70, "C1"@), (85, "C2"@)]
    } else if exam == "toefl_ibt"@ {
        if reading {
            seq![(0, "A1"@), (40, "A2"@), (90, "B1"@), (170, "B2"@), (240, "C1"@)]
        } else {
            seq![(0, "A1"@), (320, "A2"@), (420, "B1"@), (720, "B2"@), (950, "C1"@)]
        }
    } else if exam == "toeic_lr"@ {
        if reading {
            seq![(50, "A1"@), (1150, "A2"@), (2750, "B1"@), (3950, "B2"@), (4550, "C1"@)]
        } else {
            seq![(100, "A1"@), (2250, "A2"@), (5500, "B1"@), (7850, "B2"@), (9450, "C1"@)]
        }
    } else if exam == "cambridge"@ {
        seq![(800, "A1"@), (1200, "A2"@), (1400, "B1"@), (1600, "B2"@), (1800, "C1"@), (2000, "C2"@)]
    } else if exam == "det"@ {
        seq![(100, "A1"@), (550, "A2"@), (750, "B1"@), (1000, "B2"@), (1300, "C1"@), (1550, "C2"@)]
    } else if reading {
        seq![(0, "A1"@), (1000, "A2"@), (1500, "B1"@), (1950, "B2"@), (2300, "C1"@)]
    } else if exam == "cet4"@ {
        seq![(0, "A1"@), (3500, "A2"@), (4250, "B1"@), (5500, "B2"@), (6500, "C1"@)]
    } else {
        seq![(0, "A1"@), (3500, "A2"@), (4250, "B1"@), (5200, "B2"@), (6200, "C1"@)]
    }
}

/// How closely an exam's scores map to CEFR levels.
pub open spec fn exam_confidence_spec(exam: Seq<char>) -> Seq<char> {
    if exam == "ielts"@ || exam == "toefl_ibt"@ || exam == "toeic_lr"@ || exam == "cambridge"@ {
        "official_band_approximation"@
    } else if exam == "det"@ {
        "approximate"@
    } else if exam == "cet4"@ || exam == "cet6"@ {
        "low"@
    } else {
        "approximate"@
    }
}

/// A supported exam's scale: its range and level thresholds in tenths of
/// a point, and the confidence of its mapping.
#[derive(Debug)]
pub struct ExamScale {
    pub minimum: u32,
    pub maximum: u32,
    pub thresholds: Vec<(u32, &'static str)>,
    pub confidence: &'static str,
}

/// Thresholds as integers and texts.
pub open spec fn thresholds_view(t: Seq<(u32, &'static str)>) -> Seq<(int, Seq<char>)> {
    t.map_values(|x: (u32, &'static str)| (x.0 as int, x.1@))
}

/// The scale of an exam (of its reading section when `reading`); none for
/// an exam without a mapping.
pub fn exam_scale(exam_type: &str, reading: bool) -> (r: Option<ExamScale>)
    ensures
        match r {
            Some(s) => {
                &&& score_range_spec(exam_type@, reading) == Some((s.minimum as int, s.maximum as int))
                &&& thresholds_view(s.thresholds@) == thresholds_spec(exam_type@, reading)
                &&& s.confidence@ == exam_confidence_spec(exam_type@)
            },
            None => score_range_spec(exam_type@, reading) is None,
        },
{
    let (minimum, maximum, thresholds, confidence): (u32, u32, Vec<(u32, &'static str)>, &'static str) =
        if str_eq(exam_type, "ielts") {
            (0, 90, vec![(0, "A1"), (30, "A2"), (40, "B1"), (55, "B2"), (70, "C1"), (85, "C2")],
                "official_band_approximation")
        } else if str_eq(exam_type, "toefl_ibt") {
            if reading {
                (0, 300, vec![(0, "A1"), (40, "A2"), (90, "B1"), (170, "B2"), (240, "C1")],
                    "official_band_approximation")
            } else {
                (0, 1200, vec![(0, "A1"), (320, "A2"), (420, "B1"), (720, "B2"), (950, "C1")],
                    "official_band_approximation")
            }
        } else if str_eq(exam_type, "toeic_lr") {
            if reading {
                (50, 4950, vec![(50, "A1"), (1150, "A2"), (2750, "B1"), (3950, "B2"), (4550, "C1")],
                    "official_band_approximation")
            } else {
                (100, 9900, vec![(100, "A1"), (2250, "A2"), (5500, "B1"), (7850, "B2"), (9450, "C1")],
                    "official_band_approximation")
            }
        } else if str_eq(exam_type, "cambridge") {
            (800, 2300, vec![(800, "A1"), (1200, "A2"), (1400, "B1"), (1600, "B2"), (1800, "C1"), (2000, "C2")],
                "official_band_approximation")
        } else if str_eq(exam_type, "det") {
            (100, 1600, vec![(100, "A1"), (550, "A2"), (750, "B1"), (1000, "B2"), (1300, "C1"), (1550, "C2")],
                "approximate")
        } else if str_eq(exam_type, "cet4") || str_eq(exam_type, "cet6") {
            if reading {
                (0, 2490, vec![(0, "A1"), (1000, "A2"), (1500, "B1"), (1950, "B2"), (2300, "C1")], "low")
            } else if str_eq(exam_type, "cet4") {
                (0, 7100, vec![(0, "A1"), (3500, "A2"), (4250, "B1"), (5500, "B2"), (6500, "C1")], "low")
            } else {
                (0, 7100, vec![(0, "A1"), (3500, "A2"), (4250, "B1"), (5200, "B2"), (6200, "C1")], "low")
            }
        } else {
            return None;
        };
    assert(thresholds_view(thresholds@) =~= thresholds_spec(exam_type@, reading));
    Some(ExamScale { minimum, maximum, thresholds, confidence })
}

/// The level of the highest threshold a finite score reaches; `A1` when it
/// reaches none.
pub open spec fn level_reached(bits: u64, thresholds: Seq<(int, Seq<char>)>) -> Seq<char>
    decreases thresholds.len(),
{
    if thresholds.len() == 0 {
        "A1"@
    } else if at_least_tenths(bits, thresholds.last().0) {
        thresholds.last().1
    } else {
        level_reached(bits, thresholds.drop_last())
    }
}

/// The level and mapping confidence of one score (given by its binary64
/// bits) on an exam's scale, or the refusal: an exam without a mapping,
/// then a score that is not finite or lies outside the scale.
pub open spec fn estimate_one_spec(exam: Seq<char>, bits: u64, reading: bool) -> Result<(Seq<char>, Seq<char>), Seq<char>> {
    match score_range_spec(exam, reading) {
        None => Err("LANGUAGE_EXAM_UNSUPPORTED"@),
        Some((minimum, maximum)) => if !is_finite(bits) || !at_least_tenths(bits, minimum) || !at_most_tenths(bits, maximum) {
            Err("LANGUAGE_SCORE_INVALID"@)
        } else {
            Ok((level_reached(bits, thresholds_spec(exam, reading)), exam_confidence_spec(exam)))
        },
    }
}

/// The level of the highest threshold the score reaches.
fn level_from_thresholds(bits: u64, thresholds: &Vec<(u32, &'static str)>) -> (r: &'static str)
    requires
        is_finite(bits),
    ensures
        r@ == level_reached(bits, thresholds_view(thresholds@)),
{
    let ghost all = thresholds_view(thresholds@);
    let mut i = thresholds.len();
    assert(all.take(i as int) =~= all);
    while i > 0
        invariant
            i <= thresholds.len(),
            is_finite(bits),
            all == thresholds_view(thresholds@),
            level_reached(bits, all) == level_reached(bits, all.take(i as int)),
        decreases i,
    {
        let (minimum, level) = thresholds[i - 1];
        assert(all.take(i as int).last() == (minimum as int, level@));
        assert(all.take(i as int).drop_last() =~= all.take(i - 1));
        if score_at_least_tenths(bits, minimum) {
            return level;
        }
        i = i - 1;
    }
    assert(all.take(0).len() == 0);
    "A1"
}

/// The level and mapping confidence of one score, given by its binary64
/// bits, on the scale of `exam_type` (of its reading section when
/// `reading`).
pub fn estimate_one(exam_type: &str, score_bits: u64, reading: bool) -> (r: Result<(String, String), AppError>)
    ensures
        match estimate_one_spec(exam_type@, score_bits, reading) {
            Ok((level, confidence)) => r matches Ok(v) && v.0@ == level && v.1@ == confidence,
            Err(m) => r matches Err(e) && e is Other && e.message_view() == m,
        },
{
    let scale = match exam_scale(exam_type, reading) {
        Some(s) => s,
        None => {
            return Err(crate::error::other("LANGUAGE_EXAM_UNSUPPORTED"));
        },
    };
    if !is_finite_bits(score_bits) || !score_at_least_tenths(score_bits, scale.minimum)
        || !score_at_most_tenths(score_bits, scale.maximum) {
        return Err(crate::error::other("LANGUAGE_SCORE_INVALID"));
    }
    let level = level_from_thresholds(score_bits, &scale.thresholds);
    Ok((level.to_string(), scale.confidence.to_string()))
}

/// The CEFR levels from lowest to highest.
pub open spec fn cefr_levels() -> Seq<Seq<char>> {
    seq!["A1"@, "A2"@, "B1"@, "B2"@, "C1"@, "C2"@]
}

/// Whether thresholds name the CEFR levels in order, from `A1`.
pub open spec fn levels_in_order(th: Seq<(int, Seq<char>)>) -> bool {
    &&& th.len() <= 6
    &&& forall|i: int| 0 <= i < th.len() ==> (#[trigger] th[i]).1 == cefr_levels()[i]
}

/// Each CEFR level's position is its place in the list.
proof fn lemma_cefr_level_positions()
    ensures
        forall|i: int| 0 <= i < 6 ==> level_index_spec(#[trigger] cefr_levels()[i]) == i,
{
    reveal_strlit("A1");
    reveal_strlit("A2");
    reveal_strlit("B1");
    reveal_strlit("B2");
    reveal_strlit("C1");
    reveal_strlit("C2");
    assert("A2"@ != "A1"@) by { assert("A2"@[1] != "A1"@[1]); }
    assert("B1"@ != "A1"@ && "B1"@ != "A2"@) by { assert("B1"@[0] != "A1"@[0]); }
    assert("B2"@ != "A1"@ && "B2"@ != "A2"@ && "B2"@ != "B1"@) by { assert("B2"@[0] != "A1"@[0] && "B2"@[1] != "B1"@[1]); }
    assert("C1"@ != "A1"@ && "C1"@ != "A2"@ && "C1"@ != "B1"@ && "C1"@ != "B2"@) by { assert("C1"@[0] != "A1"@[0] && "C1"@[0] != "B1"@[0]); }
    assert("C2"@ != "A1"@ && "C2"@ != "A2"@ && "C2"@ != "B1"@ && "C2"@ != "B2"@ && "C2"@ != "C1"@) by {
        assert("C2"@[0] != "A1"@[0] && "C2"@[0] != "B1"@[0] && "C2"@[1] != "C1"@[1]);
    }
    assert(level_index_spec("A1"@) == 0);
    assert(level_index_spec("A2"@) == 1);
    assert(level_index_spec("B1"@) == 2);
    assert(level_index_spec("B2"@) == 3);
    assert(level_index_spec("C1"@) == 4);
    assert(level_index_spec("C2"@) == 5);
    assert forall|i: int| 0 <= i < 6 implies level_index_spec(#[trigger] cefr_levels()[i]) == i by {
        if i == 0 {} else if i == 1 {} else if i == 2 {} else if i == 3 {} else if i == 4 {} else {}
    }
}

/// Every exam's thresholds name the CEFR levels in order.
proof fn lemma_thresholds_in_order(exam: Seq<char>, reading: bool)
    ensures
        levels_in_order(thresholds_spec(exam, reading)),
{
    let th = thresholds_spec(exam, reading);
    assert forall|i: int| 0 <= i < th.len() implies (#[trigger] th[i]).1 == cefr_levels()[i] by {
        if i == 0 {} else if i == 1 {} else if i == 2 {} else if i == 3 {} else if i == 4 {} else {}
    }
}

/// The level a score reaches is at most the last threshold's.
proof fn lemma_level_reached_at_most_last(bits: u64, th: Seq<(int, Seq<char>)>)
    requires
        th.len() > 0,
        levels_in_order(th),
    ensures
        level_index_spec(level_reached(bits, th)) <= th.len() - 1,
    decreases th.len(),
{
    lemma_cefr_level_positions();
    assert(level_index_spec(th[th.len() - 1].1) == th.len() - 1);
    if !at_least_tenths(bits, th.last().0) {
        if th.len() == 1 {
            assert(level_reached(bits, th.drop_last()) == "A1"@);
            assert(level_index_spec(cefr_levels()[0]) == 0);
        } else {
            let rest = th.drop_last();
            assert forall|i: int| 0 <= i < rest.len() implies (#[trigger] rest[i]).1 == cefr_levels()[i] by {
                assert(rest[i] == th[i]);
            }
            lemma_level_reached_at_most_last(bits, rest);
        }
    }
}

/// A higher score reaches at least the level a lower one does.
proof fn lemma_level_reached_grows(a: u64, b: u64, th: Seq<(int, Seq<char>)>)
    requires
        levels_in_order(th),
        score_le(a, b),
    ensures
        level_index_spec(level_reached(a, th)) <= level_index_spec(level_reached(b, th)),
    decreases th.len(),
{
    lemma_cefr_level_positions();
    if th.len() > 0 {
        let rest = th.drop_last();
        assert forall|i: int| 0 <= i < rest.len() implies (#[trigger] rest[i]).1 == cefr_levels()[i] by {
            assert(rest[i] == th[i]);
        }
        assert(level_index_spec(th[th.len() - 1].1) == th.len() - 1);
        if at_least_tenths(a, th.last().0) {
            crate::scores::lemma_at_least_grows(a, b, th.last().0);
        } else if at_least_tenths(b, th.last().0) {
            if rest.len() > 0 {
                lemma_level_reached_at_most_last(a, rest);
            } else {
                assert(level_reached(a, rest) == "A1"@);
                assert(level_index_spec(cefr_levels()[0]) == 0);
            }
        } else {
            lemma_level_reached_grows(a, b, rest);
        }
    }
}

/// A higher score on the same scale never maps to a lower level.
pub proof fn lemma_higher_score_never_lowers_level(exam: Seq<char>, reading: bool, a: u64, b: u64)
    requires
        estimate_one_spec(exam, a, reading) is Ok,
        estimate_one_spec(exam, b, reading) is Ok,
        score_le(a, b),
    ensures
        match (estimate_one_spec(exam, a, reading), estimate_one_spec(exam, b, reading)) {
            (Ok(x), Ok(y)) => level_index_spec(x.0) <= level_index_spec(y.0),
            _ => true,
        },
{
    lemma_thresholds_in_order(exam, reading);
    lemma_level_reached_grows(a, b, thresholds_spec(exam, reading));
}

/// The view of an optional estimate of one score.
pub open spec fn estimate_view(r: Result<(String, String), AppError>) -> Result<(Seq<char>, Seq<char>), Seq<char>> {
    match r {
        Ok(v) => Ok((v.0@, v.1@)),
        Err(e) => Err(e.message_view()),
    }
}

/// The estimate of an assessment from its overall score and, when given,
/// its reading score (each by its binary64 bits): the refusal of the
/// overall score first, then of the reading score; else the levels
/// combined as `cefr_estimate` does.
pub fn estimate_cefr(exam_type: &str, overall_score_bits: u64, reading_score_bits: Option<u64>) -> (r: Result<CefrEstimate, AppError>)
    ensures
        match estimate_one_spec(exam_type@, overall_score_bits, false) {
            Err(m) => r matches Err(e) && e is Other && e.message_view() == m,
            Ok(overall) => match reading_score_bits {
                None => r matches Ok(est) && cefr_estimate_spec(overall, None, est),
                Some(b) => match estimate_one_spec(exam_type@, b, true) {
                    Err(m) => r matches Err(e) && e is Other && e.message_view() == m,
                    Ok(reading) => r matches Ok(est) && cefr_estimate_spec(overall, Some(reading), est),
                },
            },
        },
{
    let overall = match estimate_one(exam_type, overall_score_bits, false) {
        Ok(v) => v,
        Err(e) => {
            return Err(e);
        },
    };
    let reading = match reading_score_bits {
        None => None,
        Some(b) => match estimate_one(exam_type, b, true) {
            Ok(v) => Some(v),
            Err(e) => {
                return Err(e);
            },
        },
    };
    Ok(cefr_estimate(overall, reading))
}

/// What the summary reads of one assessment.
#[derive(Debug)]
pub struct AssessmentEvidence {
    pub id: String,
    pub has_reading_score: bool,
    pub exam_date: Option<String>,
    pub estimated_cefr: String,
    pub lower_cefr: Option<String>,
    pub upper_cefr: Option<String>,
    pub confidence: String,
    pub updated_at: i64,
}

/// Order of optional texts: absent first, then code-point order.
pub open spec fn opt_less(a: Option<Seq<char>>, b: Option<Seq<char>>) -> bool {
    match (a, b) {
        (None, Some(_)) => true,
        (Some(x), Some(y)) => id_less(x, y),
        _ => false,
    }
}

/// Whether `a` ranks below `b` as primary evidence: reading evidence
/// first, then mapping confidence, then exam date, then the latest
/// update, then the smaller id.
pub open spec fn ranks_below(a: AssessmentEvidence, b: AssessmentEvidence) -> bool {
    let ca = confidence_rank_spec(a.confidence@);
    let cb = confidence_rank_spec(b.confidence@);
    if a.has_reading_score != b.has_reading_score {
        !a.has_reading_score
    } else if ca != cb {
        ca < cb
    } else if opt_view(a.exam_date) != opt_view(b.exam_date) {
        opt_less(opt_view(a.exam_date), opt_view(b.exam_date))
    } else if a.updated_at != b.updated_at {
        a.updated_at < b.updated_at
    } else {
        id_less(b.id@, a.id@)
    }
}

/// The primary evidence among the first `n`: the last of those that no
/// later one outranks (the maximum that `Iterator::max_by` picks).
pub open spec fn primary_index(es: Seq<AssessmentEvidence>, n: int) -> int
    decreases n,
{
    if n <= 1 {
        0
    } else {
        let b = primary_index(es, n - 1);
        if ranks_below(es[n - 1], es[b]) { b } else { n - 1 }
    }
}

/// The lowest level of an assessment (its range's lower end, else its
/// estimate).
pub open spec fn low_level(e: AssessmentEvidence) -> Seq<char> {
    match opt_view(e.lower_cefr) {
        Some(l) => l,
        None => e.estimated_cefr@,
    }
}

/// The highest level of an assessment.
pub open spec fn high_level(e: AssessmentEvidence) -> Seq<char> {
    match opt_view(e.upper_cefr) {
        Some(u) => u,
        None => e.estimated_cefr@,
    }
}

/// Index of the first assessment among the first `n` with the lowest low
/// level (what `Iterator::min_by_key` picks).
pub open spec fn lowest_index(es: Seq<AssessmentEvidence>, n: int) -> int
    decreases n,
{
    if n <= 1 {
        0
    } else {
        let b = lowest_index(es, n - 1);
        if level_index_spec(low_level(es[n - 1])) < level_index_spec(low_level(es[b])) { n - 1 } else { b }
    }
}

/// Index of the last assessment among the first `n` with the highest high
/// level (what `Iterator::max_by_key` picks).
pub open spec fn highest_index(es: Seq<AssessmentEvidence>, n: int) -> int
    decreases n,
{
    if n <= 1 {
        0
    } else {
        let b = highest_index(es, n - 1);
        if level_index_spec(high_level(es[n - 1])) < level_index_spec(high_level(es[b])) { b } else { n - 1 }
    }
}

/// Day number of an assessment's exam date, when it parses.
pub open spec fn exam_day(e: AssessmentEvidence) -> Option<int> {
    match opt_view(e.exam_date) {
        Some(d) => iso_date_day(d),
        None => None,
    }
}

/// The latest exam day among the first `n` assessments.
pub open spec fn latest_day(es: Seq<AssessmentEvidence>, n: int) -> Option<int>
    decreases n,
{
    if n <= 0 {
        None
    } else {
        let rest = latest_day(es, n - 1);
        match exam_day(es[n - 1]) {
            Some(d) => match rest {
                Some(l) => Some(if d > l { d } else { l }),
                None => Some(d),
            },
            None => rest,
        }
    }
}

/// Weight of an assessment's date: 3 within two years of the latest exam,
/// 2 within five, 1 beyond or undated.
pub open spec fn date_weight(e: AssessmentEvidence, latest: Option<int>) -> int {
    match (exam_day(e), latest) {
        (Some(d), Some(l)) => if l - d <= 730 { 3 } else if l - d <= 1825 { 2 } else { 1 },
        _ => 1,
    }
}

/// Weight of an assessment: reading evidence four times, by mapping
/// confidence and by date.
pub open spec fn evidence_weight(e: AssessmentEvidence, latest: Option<int>) -> int {
    (if e.has_reading_score { 4int } else { 1int }) * confidence_rank_spec(e.confidence@) * date_weight(e, latest)
}

/// Sum of the weights of the first `n` assessments.
pub open spec fn total_weight(es: Seq<AssessmentEvidence>, n: int, latest: Option<int>) -> int
    decreases n,
{
    if n <= 0 { 0 } else { total_weight(es, n - 1, latest) + evidence_weight(es[n - 1], latest) }
}

/// Sum of the weighted estimated levels of the first `n` assessments.
pub open spec fn weighted_levels(es: Seq<AssessmentEvidence>, n: int, latest: Option<int>) -> int
    decreases n,
{
    if n <= 0 {
        0
    } else {
        weighted_levels(es, n - 1, latest)
            + level_index_spec(es[n - 1].estimated_cefr@) * evidence_weight(es[n - 1], latest)
    }
}

/// The name of a level position.
pub open spec fn level_name(i: int) -> Seq<char> {
    if i <= 0 {
        "A1"@
    } else if i == 1 {
        "A2"@
    } else if i == 2 {
        "B1"@
    } else if i == 3 {
        "B2"@
    } else if i == 4 {
        "C1"@
    } else {
        "C2"@
    }
}

/// The weighted mean level, rounded half up, at most C2.
pub open spec fn combined_level(levels: int, weight: int) -> int {
    let r = (2 * levels + weight) / (2 * weight);
    if r > 5 { 5 } else { r }
}

/// Number of the first `n` assessments with a reading score.
pub open spec fn reading_count(es: Seq<AssessmentEvidence>, n: int) -> int
    decreases n,
{
    if n <= 0 { 0 } else { reading_count(es, n - 1) + if es[n - 1].has_reading_score { 1int } else { 0int } }
}

/// Number of the first `n` assessments with an official band mapping.
pub open spec fn official_count(es: Seq<AssessmentEvidence>, n: int) -> int
    decreases n,
{
    if n <= 0 {
        0
    } else {
        official_count(es, n - 1) + if es[n - 1].confidence@ == "official_band_approximation"@ { 1int } else { 0int }
    }
}

/// The summary of non-empty evidence: the weighted mean level as the
/// estimate; the lowest and highest levels as a range needing
/// confirmation when they lie two levels apart or more; the primary
/// evidence's confidence and id; the counts; the latest exam date.
pub open spec fn summary_spec(es: Seq<AssessmentEvidence>, s: LanguageAssessmentSummary) -> bool {
    let n = es.len() as int;
    let latest = latest_day(es, n);
    let p = primary_index(es, n);
    let lowest = low_level(es[lowest_index(es, n)]);
    let highest = high_level(es[highest_index(es, n)]);
    let apart = level_index_spec(lowest) - level_index_spec(highest) >= 2
        || level_index_spec(highest) - level_index_spec(lowest) >= 2;
    &&& s.estimated_cefr@ == level_name(combined_level(weighted_levels(es, n, latest), total_weight(es, n, latest)))
    &&& s.needs_confirmation == apart
    &&& opt_view(s.lower_cefr) == if apart { Some(lowest) } else { None }
    &&& opt_view(s.upper_cefr) == if apart { Some(highest) } else { None }
    &&& s.confidence@ == es[p].confidence@
    &&& s.primary_assessment_id@ == es[p].id@
    &&& s.assessment_count == n
    &&& s.reading_assessment_count == reading_count(es, n)
    &&& s.official_assessment_count == official_count(es, n)
    &&& opt_view(s.latest_exam_date) == match latest {
        Some(d) => Some(iso_date_text(d)),
        None => None,
    }
}

/// Copies an optional text.
fn copy_opt(o: &Option<String>) -> (r: Option<String>)
    ensures
        opt_view(r) == opt_view(*o),
{
    match o {
        Some(s) => Some(s.clone()),
        None => None,
    }
}

/// The lowest level of an assessment.
fn low_of(e: &AssessmentEvidence) -> (r: &String)
    ensures
        r@ == low_level(*e),
{
    match &e.lower_cefr {
        Some(l) => l,
        None => &e.estimated_cefr,
    }
}

/// The highest level of an assessment.
fn high_of(e: &AssessmentEvidence) -> (r: &String)
    ensures
        r@ == high_level(*e),
{
    match &e.upper_cefr {
        Some(u) => u,
        None => &e.estimated_cefr,
    }
}

/// Whether two optional texts are equal.
fn opt_eq(a: &Option<String>, b: &Option<String>) -> (r: bool)
    ensures
        r == (opt_view(*a) == opt_view(*b)),
{
    match (a, b) {
        (Some(x), Some(y)) => str_eq(x.as_str(), y.as_str()),
        (None, None) => true,
        _ => false,
    }
}

/// Computes `opt_less`.
fn opt_before(a: &Option<String>, b: &Option<String>) -> (r: bool)
    ensures
        r == opt_less(opt_view(*a), opt_view(*b)),
{
    match (a, b) {
        (None, Some(_)) => true,
        (Some(x), Some(y)) => chars_less(&chars_of(x.as_str()), &chars_of(y.as_str())),
        _ => false,
    }
}

/// Computes `ranks_below`.
fn ranks_below_exec(a: &AssessmentEvidence, b: &AssessmentEvidence) -> (r: bool)
    ensures
        r == ranks_below(*a, *b),
{
    let ca = confidence_rank(a.confidence.as_str());
    let cb = confidence_rank(b.confidence.as_str());
    if a.has_reading_score != b.has_reading_score {
        !a.has_reading_score
    } else if ca != cb {
        ca < cb
    } else if !opt_eq(&a.exam_date, &b.exam_date) {
        opt_before(&a.exam_date, &b.exam_date)
    } else if a.updated_at != b.updated_at {
        a.updated_at < b.updated_at
    } else {
        chars_less(&chars_of(b.id.as_str()), &chars_of(a.id.as_str()))
    }
}

/// The weight of an assessment.
fn weight_of(e: &AssessmentEvidence, latest: Option<i32>) -> (r: u128)
    ensures
        r as int == evidence_weight(*e, match latest { Some(l) => Some(l as int), None => None }),
        1 <= r <= 36,
{
    let day: Option<i32> = match &e.exam_date {
        Some(d) => parse_iso_date(d.as_str()),
        None => None,
    };
    let date: u128 = match (day, latest) {
        (Some(d), Some(l)) => {
            let gap: i64 = (l as i64) - (d as i64);
            if gap <= 730 { 3 } else if gap <= 1825 { 2 } else { 1 }
        },
        _ => 1,
    };
    let reading: u128 = if e.has_reading_score { 4 } else { 1 };
    let rank = confidence_rank(e.confidence.as_str()) as u128;
    assert(1 <= rank <= 3);
    assert(reading * rank * date <= 36) by (nonlinear_arith)
        requires
            1 <= reading <= 4,
            1 <= rank <= 3,
            1 <= date <= 3,
    ;
    assert(reading * rank * date >= 1) by (nonlinear_arith)
        requires
            1 <= reading <= 4,
            1 <= rank <= 3,
            1 <= date <= 3,
    ;
    reading * rank * date
}

/// Summarises the reader's assessments; `None` when there are none.
pub fn summarize_assessments(assessments: &[AssessmentEvidence]) -> (r: Option<LanguageAssessmentSummary>)
    ensures
        assessments@.len() == 0 <==> r is None,
        r matches Some(s) ==> summary_spec(assessments@, s),
{
    let ghost es = assessments@;
    let n = assessments.len();
    if n == 0 {
        return None;
    }
    let mut primary: usize = 0;
    let mut lowest: usize = 0;
    let mut highest: usize = 0;
    let mut latest: Option<i32> = None;
    let mut reading_assessments: usize = 0;
    let mut official_assessments: usize = 0;
    let mut i: usize = 0;
    while i < n
        invariant
            n == es.len(),
            es == assessments@,
            i <= n,
            i == 0 ==> primary == 0 && lowest == 0 && highest == 0,
            i > 0 ==> primary as int == primary_index(es, i as int),
            i > 0 ==> lowest as int == lowest_index(es, i as int),
            i > 0 ==> highest as int == highest_index(es, i as int),
            primary < n,
            lowest < n,
            highest < n,
            match latest { Some(l) => Some(l as int), None => None } == latest_day(es, i as int),
            reading_assessments as int == reading_count(es, i as int),
            official_assessments as int == official_count(es, i as int),
            reading_assessments <= i,
            official_assessments <= i,
        decreases n - i,
    {
        let e = &assessments[i];
        if i > 0 {
            if !ranks_below_exec(e, &assessments[primary]) {
                primary = i;
            }
            if level_index(low_of(e).as_str()) < level_index(low_of(&assessments[lowest]).as_str()) {
                lowest = i;
            }
            if !(level_index(high_of(e).as_str()) < level_index(high_of(&assessments[highest]).as_str())) {
                highest = i;
            }
        }
        let day: Option<i32> = match &e.exam_date {
            Some(d) => parse_iso_date(d.as_str()),
            None => None,
        };
        latest = match day {
            Some(d) => match latest {
                Some(l) => Some(if d > l { d } else { l }),
                None => Some(d),
            },
            None => latest,
        };
        if e.has_reading_score {
            reading_assessments += 1;
        }
        if str_eq(e.confidence.as_str(), "official_band_approximation") {
            official_assessments += 1;
        }
        i += 1;
    }
    let ghost latest_spec = latest_day(es, n as int);
    let mut levels: u128 = 0;
    let mut weights: u128 = 0;
    let mut j: usize = 0;
    while j < n
        invariant
            n == es.len(),
            es == assessments@,
            j <= n,
            match latest { Some(l) => Some(l as int), None => None } == latest_spec,
            levels as int == weighted_levels(es, j as int, latest_spec),
            weights as int == total_weight(es, j as int, latest_spec),
            weights <= 36 * j,
            levels <= 180 * j,
            j > 0 ==> weights >= 1,
        decreases n - j,
    {
        let e = &assessments[j];
        let w = weight_of(e, latest);
        let level = level_index(e.estimated_cefr.as_str()) as u128;
        assert(level * w <= 180) by (nonlinear_arith)
            requires
                level <= 5,
                w <= 36,
        ;
        levels = levels + level * w;
        weights = weights + w;
        j += 1;
    }
    let rounded = (2 * levels + weights) / (2 * weights);
    let combined: usize = if rounded > 5 { 5 } else { rounded as usize };
    proof {
        reveal_strlit("A1");
        reveal_strlit("A2");
        reveal_strlit("B1");
        reveal_strlit("B2");
        reveal_strlit("C1");
        reveal_strlit("C2");
    }
    let estimated: &str = if combined == 0 {
        "A1"
    } else if combined == 1 {
        "A2"
    } else if combined == 2 {
        "B1"
    } else if combined == 3 {
        "B2"
    } else if combined == 4 {
        "C1"
    } else {
        "C2"
    };
    let low = low_of(&assessments[lowest]).clone();
    let high = high_of(&assessments[highest]).clone();
    let a = level_index(low.as_str());
    let b = level_index(high.as_str());
    let apart = if a >= b { a - b >= 2 } else { b - a >= 2 };
    let latest_exam_date = match latest {
        Some(d) => Some(format_iso_date(d)),
        None => None,
    };
    Some(LanguageAssessmentSummary {
        estimated_cefr: estimated.to_string(),
        lower_cefr: if apart { Some(low) } else { None },
        upper_cefr: if apart { Some(high) } else { None },
        confidence: assessments[primary].confidence.clone(),
        needs_confirmation: apart,
        assessment_count: n,
        reading_assessment_count: reading_assessments,
        official_assessment_count: official_assessments,
        latest_exam_date,
        primary_assessment_id: assessments[primary].id.clone(),
    })
}

} // verus!
