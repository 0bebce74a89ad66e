use chrono::Datelike;
use quill::assessments::{
    cefr_estimate, estimate_cefr, estimate_one, exam_scale, normalized_exam_date,
    summarize_assessments, AssessmentEvidence, MAPPING_VERSION,
};
use quill::scores::{score_at_least_tenths, score_at_most_tenths};

fn assessment(
    id: &str,
    level: &str,
    reading: bool,
    confidence: &str,
    date: Option<&str>,
) -> AssessmentEvidence {
    AssessmentEvidence {
        id: id.to_string(),
        has_reading_score: reading,
        exam_date: date.map(str::to_string),
        estimated_cefr: level.to_string(),
        lower_cefr: None,
        upper_cefr: None,
        confidence: confidence.to_string(),
        updated_at: 1,
    }
}

#[test]
fn summary_prefers_reading_then_confidence_then_date() {
    let assessments = vec![
        assessment("overall", "B1", false, "official_band_approximation", Some("2026-06-01")),
        assessment("reading-old", "B2", true, "official_band_approximation", Some("2025-01-01")),
        assessment("reading-new", "B2", true, "official_band_approximation", Some("2026-01-01")),
    ];
    let summary = summarize_assessments(&assessments).unwrap();
    assert_eq!(summary.estimated_cefr, "B2");
    assert_eq!(summary.primary_assessment_id, "reading-new");
    assert!(!summary.needs_confirmation);
}

#[test]
fn primary_evidence_prefers_mapping_confidence_before_date() {
    let assessments = vec![
        assessment("official-old", "B2", true, "official_band_approximation", Some("2025-01-01")),
        assessment("approximate-new", "B2", true, "approximate", Some("2026-01-01")),
    ];
    let summary = summarize_assessments(&assessments).unwrap();
    assert_eq!(summary.primary_assessment_id, "official-old");
    assert_eq!(summary.confidence, "official_band_approximation");
}

#[test]
fn summary_combines_weighted_evidence_instead_of_only_copying_primary() {
    let assessments = vec![
        assessment("reading", "B1", true, "official_band_approximation", Some("2026-01-01")),
        assessment("overall-1", "B2", false, "official_band_approximation", Some("2026-01-01")),
        assessment("overall-2", "B2", false, "official_band_approximation", Some("2026-01-01")),
    ];
    let summary = summarize_assessments(&assessments).unwrap();
    assert_eq!(summary.primary_assessment_id, "reading");
    assert_eq!(summary.estimated_cefr, "B1");
    assert!(!summary.needs_confirmation);
}

#[test]
fn summary_requires_confirmation_for_two_level_conflict() {
    let assessments = vec![
        assessment("a", "B1", true, "official_band_approximation", None),
        assessment("b", "C1", false, "official_band_approximation", None),
    ];
    let summary = summarize_assessments(&assessments).unwrap();
    assert!(summary.needs_confirmation);
    assert_eq!(summary.lower_cefr.as_deref(), Some("B1"));
    assert_eq!(summary.upper_cefr.as_deref(), Some("C1"));
    assert_eq!(summary.estimated_cefr, "B1");
}

fn today() -> i32 {
    chrono::Local::now().date_naive().num_days_from_ce()
}

#[test]
fn validates_assessment_dates() {
    assert_eq!(
        normalized_exam_date(Some("2025-03-09"), today()).unwrap(),
        Some("2025-03-09".to_string())
    );
    assert!(normalized_exam_date(Some("March 9"), today()).is_err());
    assert!(normalized_exam_date(Some("2999-01-01"), today()).is_err());
}

#[test]
fn exam_dates_are_trimmed_and_optional() {
    assert_eq!(normalized_exam_date(None, today()).unwrap(), None);
    assert_eq!(normalized_exam_date(Some("   "), today()).unwrap(), None);
    assert_eq!(
        normalized_exam_date(Some(" 2024-02-29 "), today()).unwrap(),
        Some("2024-02-29".to_string())
    );
    assert_eq!(
        normalized_exam_date(Some("2023-02-29"), today()).unwrap_err().to_string(),
        "LANGUAGE_EXAM_DATE_INVALID"
    );
    assert_eq!(
        normalized_exam_date(Some("2999-01-01"), today()).unwrap_err().to_string(),
        "LANGUAGE_EXAM_DATE_IN_FUTURE"
    );
}

#[test]
fn summaries_count_evidence_and_report_the_latest_date() {
    assert!(summarize_assessments(&[]).is_none());
    let assessments = vec![
        assessment("a", "A2", false, "low", Some("2019-05-01")),
        assessment("b", "A2", true, "approximate", Some("2024-05-01")),
        assessment("c", "C2", false, "official_band_approximation", None),
    ];
    let summary = summarize_assessments(&assessments).unwrap();
    assert_eq!(summary.assessment_count, 3);
    assert_eq!(summary.reading_assessment_count, 1);
    assert_eq!(summary.official_assessment_count, 1);
    assert_eq!(summary.latest_exam_date.as_deref(), Some("2024-05-01"));
    assert_eq!(summary.primary_assessment_id, "b");
    // weights: a = 1 * 1 * 1 (five years apart), b = 4 * 2 * 3, c = 1 * 3 * 1;
    // levels: (1 * 1 + 1 * 24 + 5 * 3) / 28 = 40 / 28, rounded to 1.
    assert_eq!(summary.estimated_cefr, "A2");
    assert!(summary.needs_confirmation);
    assert_eq!(summary.lower_cefr.as_deref(), Some("A2"));
    assert_eq!(summary.upper_cefr.as_deref(), Some("C2"));
}

#[test]
fn one_assessment_estimate_uses_reading_and_flags_wide_gaps() {
    let wide = cefr_estimate(
        ("C1".to_string(), "official_band_approximation".to_string()),
        Some(("B1".to_string(), "official_band_approximation".to_string())),
    );
    assert!(wide.needs_confirmation);
    assert_eq!(wide.estimated_cefr, "B1");
    assert_eq!(wide.lower_cefr.as_deref(), Some("B1"));
    assert_eq!(wide.upper_cefr.as_deref(), Some("C1"));
    assert_eq!(wide.mapping_version, MAPPING_VERSION);

    let close = cefr_estimate(
        ("B2".to_string(), "approximate".to_string()),
        Some(("C1".to_string(), "low".to_string())),
    );
    assert_eq!(close.estimated_cefr, "C1");
    assert_eq!(close.confidence, "low");
    assert!(!close.needs_confirmation);
    assert!(close.lower_cefr.is_none());

    let overall = cefr_estimate(("B2".to_string(), "low".to_string()), None);
    assert_eq!(overall.estimated_cefr, "B2");
    assert_eq!(overall.confidence, "low");
}

#[test]
fn reading_disagreement_returns_a_range() {
    let estimate = estimate_cefr("toefl_ibt", 100.0f64.to_bits(), Some(10.0f64.to_bits())).unwrap();
    assert!(estimate.needs_confirmation);
    assert_eq!(estimate.estimated_cefr, "B1");
    assert_eq!(estimate.lower_cefr.as_deref(), Some("B1"));
    assert_eq!(estimate.upper_cefr.as_deref(), Some("C1"));
}

#[test]
fn reading_score_is_primary_when_present() {
    let estimate = estimate_cefr("ielts", 6.5f64.to_bits(), Some(7.0f64.to_bits())).unwrap();
    assert_eq!(estimate.estimated_cefr, "C1");
    assert!(!estimate.needs_confirmation);
}

#[test]
fn reading_confidence_is_primary_when_present() {
    let estimate = estimate_cefr("det", 105.0f64.to_bits(), Some(105.0f64.to_bits())).unwrap();
    assert_eq!(estimate.estimated_cefr, "B2");
    assert_eq!(estimate.confidence, "approximate");
}

#[test]
fn cet_is_always_low_confidence() {
    let estimate = estimate_cefr("cet6", 520.0f64.to_bits(), None).unwrap();
    assert_eq!(estimate.estimated_cefr, "B2");
    assert_eq!(estimate.confidence, "low");
}

#[test]
fn score_comparisons_are_exact_at_half_points() {
    assert!(score_at_least_tenths(5.5f64.to_bits(), 55));
    assert!(!score_at_least_tenths(5.499999999999999f64.to_bits(), 55));
    assert!(score_at_most_tenths(5.5f64.to_bits(), 55));
    assert!(!score_at_most_tenths(5.500000000000001f64.to_bits(), 55));
    assert!(score_at_least_tenths(0.0f64.to_bits(), 0));
    assert!(score_at_least_tenths((-0.0f64).to_bits(), 0));
    assert!(!score_at_least_tenths((-0.5f64).to_bits(), 0));
    assert!(score_at_least_tenths(1e300f64.to_bits(), 9900));
    assert!(!score_at_most_tenths(1e300f64.to_bits(), 9900));
    assert!(!score_at_least_tenths(1e-300f64.to_bits(), 1));
    assert!(score_at_most_tenths(1e-300f64.to_bits(), 1));
    assert!(!score_at_most_tenths(1e-300f64.to_bits(), 0));
    assert!(score_at_least_tenths(990.0f64.to_bits(), 9900));
}

#[test]
fn estimate_one_maps_thresholds_and_refuses_bad_scores() {
    assert_eq!(
        estimate_one("ielts", 5.5f64.to_bits(), false).unwrap(),
        ("B2".to_string(), "official_band_approximation".to_string())
    );
    assert_eq!(estimate_one("ielts", 5.4f64.to_bits(), false).unwrap().0, "B1");
    assert_eq!(estimate_one("ielts", 9.0f64.to_bits(), false).unwrap().0, "C2");
    assert_eq!(estimate_one("toeic_lr", 10.0f64.to_bits(), false).unwrap().0, "A1");
    assert_eq!(estimate_one("cet4", 550.0f64.to_bits(), false).unwrap().0, "B2");
    assert_eq!(estimate_one("cet6", 550.0f64.to_bits(), false).unwrap().0, "B2");
    assert_eq!(estimate_one("cet6", 519.0f64.to_bits(), false).unwrap().0, "B1");
    let invalid = |r: Result<(String, String), quill::error::AppError>| r.unwrap_err().to_string();
    assert_eq!(invalid(estimate_one("ielts", 9.5f64.to_bits(), false)), "LANGUAGE_SCORE_INVALID");
    assert_eq!(invalid(estimate_one("ielts", (-1.0f64).to_bits(), false)), "LANGUAGE_SCORE_INVALID");
    assert_eq!(invalid(estimate_one("ielts", f64::NAN.to_bits(), false)), "LANGUAGE_SCORE_INVALID");
    assert_eq!(invalid(estimate_one("ielts", f64::INFINITY.to_bits(), false)), "LANGUAGE_SCORE_INVALID");
    assert_eq!(invalid(estimate_one("toeic_lr", 5.0f64.to_bits(), false)), "LANGUAGE_SCORE_INVALID");
    assert_eq!(invalid(estimate_one("sat", 5.0f64.to_bits(), false)), "LANGUAGE_EXAM_UNSUPPORTED");
    assert!(estimate_one("ielts", (-0.0f64).to_bits(), false).is_ok());
}

#[test]
fn estimate_cefr_refuses_overall_before_reading() {
    let e = estimate_cefr("toefl_ibt", 121.0f64.to_bits(), Some(31.0f64.to_bits())).unwrap_err();
    assert_eq!(e.to_string(), "LANGUAGE_SCORE_INVALID");
    let e = estimate_cefr("toefl_ibt", 100.0f64.to_bits(), Some(31.0f64.to_bits())).unwrap_err();
    assert_eq!(e.to_string(), "LANGUAGE_SCORE_INVALID");
    let e = estimate_cefr("gre", 100.0f64.to_bits(), None).unwrap_err();
    assert_eq!(e.to_string(), "LANGUAGE_EXAM_UNSUPPORTED");
}

#[test]
fn exam_scales_cover_reading_sections() {
    let scale = exam_scale("toeic_lr", true).unwrap();
    assert_eq!((scale.minimum, scale.maximum), (50, 4950));
    assert_eq!(scale.thresholds.len(), 5);
    assert_eq!(scale.confidence, "official_band_approximation");
    assert!(exam_scale("unknown", false).is_none());
}

#[test]
fn higher_scores_never_map_to_lower_levels() {
    let rank = |level: &str| ["A1", "A2", "B1", "B2", "C1", "C2"].iter().position(|l| *l == level).unwrap();
    for (exam, maximum, reading) in [("ielts", 90, false), ("toefl_ibt", 300, true), ("det", 1600, false), ("cet6", 7100, false)] {
        let mut previous = 0;
        let mut tenths = 0;
        while tenths <= maximum {
            let score = tenths as f64 / 10.0;
            if let Ok((level, _)) = estimate_one(exam, score.to_bits(), reading) {
                assert!(rank(&level) >= previous, "{exam} {score}");
                previous = rank(&level);
            }
            tenths += 1;
        }
    }
}
