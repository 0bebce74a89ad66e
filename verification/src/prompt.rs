//! System prompts for lookup, explanation and learning cards, and the
//! normalisation of the reader's language settings that shapes them.

use vstd::prelude::*;
use vstd::string::*;

use crate::text::{chars_of, str_eq, trim, trim_ws};

verus! {

/// Marker that the model must emit before a word's brief translation.
pub const LOOKUP_TRANSLATION_MARKER: &'static str = "[[QUILL_TRANSLATION]]";

/// Prompt text.
pub const TRANSLATION_HINT_LEAD: &'static str = "Before the definition, provide a brief translation of the word/phrase in ";

/// Prompt text.
pub const TRANSLATION_HINT_MARKER_LEAD: &'static str = ". The first line MUST be exactly `";

/// Prompt text.
pub const TRANSLATION_HINT_TAIL: &'static str = "` followed immediately by the brief translation, then a newline. This marker is required machine-readable metadata, not a header. Keep the translation to a few words — no explanation, just the meaning. After that first line, proceed with the definition as usual. Do not put the marker anywhere except the first line.\n\n";

/// Prompt text.
pub const DEFINITION_PROMPT_BODY: &'static str = "You are a reading assistant embedded in an ebook reader. The user selected a word or phrase and wants a dictionary-style definition.\n\nGive: pronunciation in IPA (if English), part of speech, and a concise definition in 1–2 sentences.\n\nIf the selection is a proper noun (person, place, historical event), give a brief factual identification instead.\n\nBe concise. No headers or labels.";

/// Prompt text.
pub const CONTEXT_PROMPT_BODY: &'static str = "You are a reading assistant embedded in an ebook reader. The user selected a word or phrase and wants to understand how it's used in the surrounding passage.\n\nExplain how the word is used in context. Consider the author's intent, tone, or any literary/idiomatic significance. Keep it to 2–3 sentences.\n\nBe concise. No headers or labels.";

/// Prompt text.
pub const FULL_LOOKUP_PROMPT_BODY: &'static str = "You are a reading assistant embedded in an ebook reader. The user selected a word or phrase and wants to understand it.\n\nRespond in two parts:\n\n1. **Definition** — Give a dictionary-style entry: the word, pronunciation in IPA (if it's an English word), part of speech, and a concise definition in one sentence.\n\n2. **In context** — Explain how the word is used in the given passage. Consider the author's intent, tone, or any literary/idiomatic significance. Keep it to 2–3 sentences.\n\nIf the selection is a proper noun (person, place, historical event), replace the dictionary definition with a brief factual identification, then explain its relevance in context.\n\nDo not use headers or labels like \"Definition:\" or \"In context:\". Separate the two parts with a line break. Be concise.";

/// Prompt text.
pub const ENGLISH_CONSTRAINT_A1: &'static str = "Use very short English sentences and basic words. Explain one core meaning at a time.";

/// Prompt text.
pub const ENGLISH_CONSTRAINT_A2: &'static str = "Use common everyday English and only simple linking words. Avoid abstract terminology.";

/// Prompt text.
pub const ENGLISH_CONSTRAINT_B1: &'static str = "Use clear, natural everyday English. Define any difficult word immediately.";

/// Prompt text.
pub const ENGLISH_CONSTRAINT_B2: &'static str = "You may explain abstract meaning and tone, but keep sentence length controlled.";

/// Prompt text.
pub const ENGLISH_CONSTRAINT_C1: &'static str = "Use precise terminology and moderately complex sentences while staying clear.";

/// Prompt text.
pub const ENGLISH_CONSTRAINT_C2: &'static str = "You may analyze metaphor, style, and highly abstract meaning with native-level precision.";

/// Prompt text.
pub const ENGLISH_BY_LEVEL_LEAD: &'static str = "Write explanations in English at CEFR ";

/// Prompt text.
pub const SENTENCE_GAP: &'static str = ". ";

/// Prompt text.
pub const ENGLISH_BY_LEVEL_TAIL: &'static str = " If an advanced word is unavoidable, immediately explain it in simpler English.";

/// Prompt text.
pub const CHINESE_STRATEGY: &'static str = "Write explanations in clear Chinese (Simplified). English source words, quotations, pronunciation, and examples may remain in English, but explanatory prose must be Chinese.";

/// Prompt text.
pub const ADAPTIVE_LOW_LEAD: &'static str = "Use adaptive bilingual explanation: accurate Chinese (Simplified) is primary, followed by a very short CEFR ";

/// Prompt text.
pub const ADAPTIVE_LOW_MIDDLE: &'static str = " English explanation and English examples where requested. Do not mechanically repeat every sentence in both languages. ";

/// Prompt text.
pub const ADAPTIVE_B1_LEAD: &'static str = "Use adaptive bilingual explanation: simple CEFR B1 English is primary; add brief Chinese (Simplified) only where an abstract point could be misunderstood. ";

/// Prompt text.
pub const ADAPTIVE_B1_TAIL: &'static str = " Do not mechanically duplicate sentences.";

/// Prompt text.
pub const ENGLISH_B2_LEAD: &'static str = "Use English as the explanation language at CEFR B2. ";

/// Prompt text.
pub const CHINESE_IN_TRANSLATION_ONLY: &'static str = " Put Chinese only in the requested target_translation module; do not add a separate Chinese gloss to explanation modules.";

/// Prompt text.
pub const ENGLISH_UPPER_LEAD: &'static str = "Use English as the explanation language at CEFR ";

/// Prompt text.
pub const ENGLISH_UPPER_MIDDLE: &'static str = ", with precise wording appropriate to that level. ";

/// Prompt text.
pub const LEARNER_LEVEL_LEAD: &'static str = "Learner level: ";

/// Prompt text.
pub const EXPLANATION_MODE_LEAD: &'static str = ". Explanation mode: ";

/// Prompt text.
pub const TRANSLATION_LANGUAGE_LEAD: &'static str = ". Translation language: ";

/// Prompt text.
pub const TRANSLATION_SCOPE_TAIL: &'static str = " The translation language applies only to the requested target_translation module; do not let it change the explanation language.";

/// Prompt text.
pub const KIND_INSTRUCTIONS_WORD: &'static str = "Explain the selected word as used in this exact context. word_info covers spelling, pronunciation, part of speech, and form; context_meaning must lead with the actual contextual meaning.";

/// Prompt text.
pub const KIND_INSTRUCTIONS_PHRASE: &'static str = "Explain the selected phrase in its exact context. Prefer its contextual or idiomatic meaning over a word-by-word gloss.";

/// Prompt text.
pub const KIND_INSTRUCTIONS_PASSAGE: &'static str = "Interpret the selected sentence or passage without restating it. Lead with its contextual meaning, then explain only the requested grammar, terms, references, idioms, patterns, or tone.";

/// Prompt text.
pub const EXPLAIN_PROMPT_BODY: &'static str = "\n\nYou are a reading assistant embedded in an ebook reader. The user selected a sentence or passage and wants to understand it in context.\n\nIn 2–3 sentences, explain what it means and why it matters here — clarify any difficult phrasing, allusion, or tone. Be direct and concise. Do not restate the passage, add headers or labels, or pad with preamble. Plain prose only.";

/// View of an optional string slice.
pub open spec fn opt_str_view(o: Option<&str>) -> Option<Seq<char>> {
    match o {
        Some(s) => Some(s@),
        None => None,
    }
}

/// Display name of a language code; unknown codes stand for themselves.
pub open spec fn language_name_spec(code: Seq<char>) -> Seq<char> {
    if code == "en"@ {
        "English"@
    } else if code == "zh"@ {
        "Chinese (Simplified)"@
    } else if code == "ja"@ {
        "Japanese"@
    } else if code == "ko"@ {
        "Korean"@
    } else if code == "es"@ {
        "Spanish"@
    } else if code == "fr"@ {
        "French"@
    } else if code == "de"@ {
        "German"@
    } else {
        code
    }
}

/// The language codes the reader offers, and the names the prompts use
/// for them, pairwise.
pub open spec fn supported_languages() -> Seq<(Seq<char>, Seq<char>)> {
    seq![
        ("en"@, "English"@),
        ("zh"@, "Chinese (Simplified)"@),
        ("ja"@, "Japanese"@),
        ("ko"@, "Korean"@),
        ("es"@, "Spanish"@),
        ("fr"@, "French"@),
        ("de"@, "German"@),
    ]
}

/// Each supported code is named by its own language (`ja` is Japanese,
/// `ko` Korean, ...); any other code stands for itself.
pub proof fn lemma_language_names(code: Seq<char>)
    ensures
        forall|i: int| 0 <= i < 7 && code == (#[trigger] supported_languages()[i]).0
            ==> language_name_spec(code) == supported_languages()[i].1,
        (forall|i: int| 0 <= i < 7 ==> code != (#[trigger] supported_languages()[i]).0)
            ==> language_name_spec(code) == code,
{
    reveal_strlit("en");
    reveal_strlit("zh");
    reveal_strlit("ja");
    reveal_strlit("ko");
    reveal_strlit("es");
    reveal_strlit("fr");
    reveal_strlit("de");
    assert forall|i: int| 0 <= i < 7 && code == (#[trigger] supported_languages()[i]).0
        implies language_name_spec(code) == supported_languages()[i].1 by {
        if i == 0 {
    } else if i == 1 {
        assert("zh"@[0] != "en"@[0]);
    } else if i == 2 {
        assert("ja"@[0] != "en"@[0]);
        assert("ja"@[0] != "zh"@[0]);
    } else if i == 3 {
        assert("ko"@[0] != "en"@[0]);
        assert("ko"@[0] != "zh"@[0]);
        assert("ko"@[0] != "ja"@[0]);
    } else if i == 4 {
        assert("es"@[1] != "en"@[1]);
        assert("es"@[0] != "zh"@[0]);
        assert("es"@[0] != "ja"@[0]);
        assert("es"@[0] != "ko"@[0]);
    } else if i == 5 {
        assert("fr"@[0] != "en"@[0]);
        assert("fr"@[0] != "zh"@[0]);
        assert("fr"@[0] != "ja"@[0]);
        assert("fr"@[0] != "ko"@[0]);
        assert("fr"@[0] != "es"@[0]);
    } else if i == 6 {
        assert("de"@[0] != "en"@[0]);
        assert("de"@[0] != "zh"@[0]);
        assert("de"@[0] != "ja"@[0]);
        assert("de"@[0] != "ko"@[0]);
        assert("de"@[0] != "es"@[0]);
        assert("de"@[0] != "fr"@[0]);
    }
    }
    if forall|i: int| 0 <= i < 7 ==> code != (#[trigger] supported_languages()[i]).0 {
        assert(code != supported_languages()[0].0);
        assert(code != supported_languages()[1].0);
        assert(code != supported_languages()[2].0);
        assert(code != supported_languages()[3].0);
        assert(code != supported_languages()[4].0);
        assert(code != supported_languages()[5].0);
        assert(code != supported_languages()[6].0);
    }
}

/// Display name of a language code, e.g. `zh` → `Chinese (Simplified)`.
pub fn language_name(code: &str) -> (r: String)
    ensures
        r@ == language_name_spec(code@),
{
    if str_eq(code, "en") {
        "English".to_string()
    } else if str_eq(code, "zh") {
        "Chinese (Simplified)".to_string()
    } else if str_eq(code, "ja") {
        "Japanese".to_string()
    } else if str_eq(code, "ko") {
        "Korean".to_string()
    } else if str_eq(code, "es") {
        "Spanish".to_string()
    } else if str_eq(code, "fr") {
        "French".to_string()
    } else if str_eq(code, "de") {
        "German".to_string()
    } else {
        code.to_string()
    }
}

/// The three explanation modes the reader offers.
#[derive(Debug, Clone, Copy, PartialEq, Eq, Structural)]
pub enum ExplanationMode {
    EnglishByLevel,
    Chinese,
    AdaptiveBilingual,
}

/// Classification of a stored mode setting; legacy `target_language`
/// means Chinese and anything unknown means adaptive bilingual.
pub open spec fn explanation_mode_of(mode: Option<Seq<char>>) -> ExplanationMode {
    match mode {
        Some(m) => {
            let t = trim_ws(m);
            if t == "english_by_level"@ {
                ExplanationMode::EnglishByLevel
            } else if t == "chinese"@ || t == "target_language"@ {
                ExplanationMode::Chinese
            } else {
                ExplanationMode::AdaptiveBilingual
            }
        },
        None => ExplanationMode::AdaptiveBilingual,
    }
}

/// The stored name of a mode.
pub open spec fn explanation_mode_name(mode: ExplanationMode) -> Seq<char> {
    match mode {
        ExplanationMode::EnglishByLevel => "english_by_level"@,
        ExplanationMode::Chinese => "chinese"@,
        ExplanationMode::AdaptiveBilingual => "adaptive_bilingual"@,
    }
}

/// Classifies a stored explanation-mode setting.
pub fn classify_explanation_mode(mode: Option<&str>) -> (r: ExplanationMode)
    ensures
        r == explanation_mode_of(opt_str_view(mode)),
{
    match mode {
        Some(m) => {
            let t = trim(m);
            if str_eq(t.as_str(), "english_by_level") {
                ExplanationMode::EnglishByLevel
            } else if str_eq(t.as_str(), "chinese") || str_eq(t.as_str(), "target_language") {
                ExplanationMode::Chinese
            } else {
                ExplanationMode::AdaptiveBilingual
            }
        },
        None => ExplanationMode::AdaptiveBilingual,
    }
}

fn mode_name(mode: ExplanationMode) -> (r: &'static str)
    ensures
        r@ == explanation_mode_name(mode),
{
    match mode {
        ExplanationMode::EnglishByLevel => "english_by_level",
        ExplanationMode::Chinese => "chinese",
        ExplanationMode::AdaptiveBilingual => "adaptive_bilingual",
    }
}

/// Normalizes legacy or damaged values into the three user-visible modes.
pub fn normalized_explanation_mode(mode: Option<&str>) -> (r: &'static str)
    ensures
        r@ == explanation_mode_name(explanation_mode_of(opt_str_view(mode))),
{
    mode_name(classify_explanation_mode(mode))
}

/// Whether a translation-language code (trimmed) names Chinese.
pub open spec fn is_chinese_code(code: Seq<char>) -> bool {
    let t = trim_ws(code);
    t == "zh"@ || t == "zh-CN"@ || t == "zh-Hans"@
}

/// Whether a translation-language code (trimmed) names English.
pub open spec fn is_english_code(code: Seq<char>) -> bool {
    let t = trim_ws(code);
    t == "en"@ || t == "en-US"@ || t == "en-GB"@
}

fn chinese_code(code: &str) -> (r: bool)
    ensures
        r == is_chinese_code(code@),
{
    let t = trim(code);
    str_eq(t.as_str(), "zh") || str_eq(t.as_str(), "zh-CN") || str_eq(t.as_str(), "zh-Hans")
}

fn english_code(code: &str) -> (r: bool)
    ensures
        r == is_english_code(code@),
{
    let t = trim(code);
    str_eq(t.as_str(), "en") || str_eq(t.as_str(), "en-US") || str_eq(t.as_str(), "en-GB")
}

/// The mode in effect: the legacy `target_language` setting falls back to
/// adaptive bilingual unless the translation language is Chinese.
pub open spec fn configured_mode_of(mode: Option<Seq<char>>, translation_language: Seq<char>) -> ExplanationMode {
    if mode is Some && trim_ws(mode->0) == "target_language"@ && !is_chinese_code(translation_language) {
        ExplanationMode::AdaptiveBilingual
    } else {
        explanation_mode_of(mode)
    }
}

/// The explanation mode in effect for the given settings.
pub fn configured_explanation_mode(mode: Option<&str>, translation_language: &str) -> (r: &'static str)
    ensures
        r@ == explanation_mode_name(configured_mode_of(opt_str_view(mode), translation_language@)),
{
    let is_chinese = chinese_code(translation_language);
    let legacy = match mode {
        Some(m) => {
            let t = trim(m);
            str_eq(t.as_str(), "target_language")
        },
        None => false,
    };
    if legacy && !is_chinese {
        "adaptive_bilingual"
    } else {
        normalized_explanation_mode(mode)
    }
}

/// The six CEFR levels.
#[derive(Debug, Clone, Copy, PartialEq, Eq, Structural)]
pub enum CefrLevel {
    A1,
    A2,
    B1,
    B2,
    C1,
    C2,
}

/// Whether `cefr` is exactly one of the six level names.
pub open spec fn is_cefr_name(cefr: Seq<char>) -> bool {
    cefr == "A1"@ || cefr == "A2"@ || cefr == "B1"@ || cefr == "B2"@ || cefr == "C1"@ || cefr == "C2"@
}

/// The level a setting names; anything else counts as B1.
pub open spec fn cefr_level_of(cefr: Seq<char>) -> CefrLevel {
    if cefr == "A1"@ {
        CefrLevel::A1
    } else if cefr == "A2"@ {
        CefrLevel::A2
    } else if cefr == "B1"@ {
        CefrLevel::B1
    } else if cefr == "B2"@ {
        CefrLevel::B2
    } else if cefr == "C1"@ {
        CefrLevel::C1
    } else if cefr == "C2"@ {
        CefrLevel::C2
    } else {
        CefrLevel::B1
    }
}

/// A valid level name stands for itself; anything else becomes `B1`.
pub open spec fn normalized_cefr_spec(cefr: Seq<char>) -> Seq<char> {
    if is_cefr_name(cefr) {
        cefr
    } else {
        "B1"@
    }
}

fn classify_cefr(cefr: &str) -> (r: CefrLevel)
    ensures
        r == cefr_level_of(cefr@),
{
    if str_eq(cefr, "A1") {
        CefrLevel::A1
    } else if str_eq(cefr, "A2") {
        CefrLevel::A2
    } else if str_eq(cefr, "B1") {
        CefrLevel::B1
    } else if str_eq(cefr, "B2") {
        CefrLevel::B2
    } else if str_eq(cefr, "C1") {
        CefrLevel::C1
    } else if str_eq(cefr, "C2") {
        CefrLevel::C2
    } else {
        CefrLevel::B1
    }
}

/// The CEFR level setting, with anything unrecognised treated as `B1`.
pub fn normalized_cefr_level(cefr: &str) -> (r: &str)
    ensures
        r@ == normalized_cefr_spec(cefr@),
{
    if str_eq(cefr, "A1") || str_eq(cefr, "A2") || str_eq(cefr, "B1") || str_eq(cefr, "B2")
        || str_eq(cefr, "C1") || str_eq(cefr, "C2") {
        cefr
    } else {
        "B1"
    }
}

/// The English-style constraint for a level.
pub open spec fn english_constraint(level: CefrLevel) -> Seq<char> {
    match level {
        CefrLevel::A1 => ENGLISH_CONSTRAINT_A1@,
        CefrLevel::A2 => ENGLISH_CONSTRAINT_A2@,
        CefrLevel::B1 => ENGLISH_CONSTRAINT_B1@,
        CefrLevel::B2 => ENGLISH_CONSTRAINT_B2@,
        CefrLevel::C1 => ENGLISH_CONSTRAINT_C1@,
        CefrLevel::C2 => ENGLISH_CONSTRAINT_C2@,
    }
}

fn english_constraint_text(level: CefrLevel) -> (r: &'static str)
    ensures
        r@ == english_constraint(level),
{
    match level {
        CefrLevel::A1 => ENGLISH_CONSTRAINT_A1,
        CefrLevel::A2 => ENGLISH_CONSTRAINT_A2,
        CefrLevel::B1 => ENGLISH_CONSTRAINT_B1,
        CefrLevel::B2 => ENGLISH_CONSTRAINT_B2,
        CefrLevel::C1 => ENGLISH_CONSTRAINT_C1,
        CefrLevel::C2 => ENGLISH_CONSTRAINT_C2,
    }
}

/// The language strategy sentence for a mode and learner level.
pub open spec fn explanation_strategy_spec(mode: Seq<char>, cefr: Seq<char>) -> Seq<char> {
    let level = cefr_level_of(cefr);
    let name = normalized_cefr_spec(cefr);
    let constraint = english_constraint(level);
    match explanation_mode_of(Some(mode)) {
        ExplanationMode::EnglishByLevel =>
            ENGLISH_BY_LEVEL_LEAD@ + name + SENTENCE_GAP@ + constraint + ENGLISH_BY_LEVEL_TAIL@,
        ExplanationMode::Chinese => CHINESE_STRATEGY@,
        ExplanationMode::AdaptiveBilingual => match level {
            CefrLevel::A1 | CefrLevel::A2 =>
                ADAPTIVE_LOW_LEAD@ + name + ADAPTIVE_LOW_MIDDLE@ + constraint,
            CefrLevel::B1 => ADAPTIVE_B1_LEAD@ + constraint + ADAPTIVE_B1_TAIL@,
            CefrLevel::B2 => ENGLISH_B2_LEAD@ + constraint + CHINESE_IN_TRANSLATION_ONLY@,
            _ => ENGLISH_UPPER_LEAD@ + name + ENGLISH_UPPER_MIDDLE@ + constraint
                + CHINESE_IN_TRANSLATION_ONLY@,
        },
    }
}

/// The language strategy sentence that every explanation prompt carries.
pub fn explanation_strategy(mode: &str, cefr: &str) -> (r: String)
    ensures
        r@ == explanation_strategy_spec(mode@, cefr@),
{
    let level = classify_cefr(cefr);
    let name = normalized_cefr_level(cefr);
    let constraint = english_constraint_text(level);
    match classify_explanation_mode(Some(mode)) {
        ExplanationMode::EnglishByLevel => {
            let mut s = ENGLISH_BY_LEVEL_LEAD.to_string();
            s.append(name);
            s.append(SENTENCE_GAP);
            s.append(constraint);
            s.append(ENGLISH_BY_LEVEL_TAIL);
            s
        },
        ExplanationMode::Chinese => CHINESE_STRATEGY.to_string(),
        ExplanationMode::AdaptiveBilingual => match level {
            CefrLevel::A1 | CefrLevel::A2 => {
                let mut s = ADAPTIVE_LOW_LEAD.to_string();
                s.append(name);
                s.append(ADAPTIVE_LOW_MIDDLE);
                s.append(constraint);
                s
            },
            CefrLevel::B1 => {
                let mut s = ADAPTIVE_B1_LEAD.to_string();
                s.append(constraint);
                s.append(ADAPTIVE_B1_TAIL);
                s
            },
            CefrLevel::B2 => {
                let mut s = ENGLISH_B2_LEAD.to_string();
                s.append(constraint);
                s.append(CHINESE_IN_TRANSLATION_ONLY);
                s
            },
            _ => {
                let mut s = ENGLISH_UPPER_LEAD.to_string();
                s.append(name);
                s.append(ENGLISH_UPPER_MIDDLE);
                s.append(constraint);
                s.append(CHINESE_IN_TRANSLATION_ONLY);
                s
            },
        },
    }
}

/// Whether the explanation language already is the translation language,
/// so that a separate translation module would only repeat it.
pub open spec fn explanation_matches_translation_spec(mode: Seq<char>, cefr: Seq<char>, translation_language: Seq<char>) -> bool {
    match explanation_mode_of(Some(mode)) {
        ExplanationMode::Chinese => is_chinese_code(translation_language),
        ExplanationMode::EnglishByLevel => is_english_code(translation_language),
        ExplanationMode::AdaptiveBilingual => {
            let level = cefr_level_of(cefr);
            (level == CefrLevel::B2 || level == CefrLevel::C1 || level == CefrLevel::C2)
                && is_english_code(translation_language)
        },
    }
}

/// Whether the explanation language matches the translation language.
pub fn explanation_matches_translation(mode: &str, cefr: &str, translation_language: &str) -> (r: bool)
    ensures
        r == explanation_matches_translation_spec(mode@, cefr@, translation_language@),
{
    match classify_explanation_mode(Some(mode)) {
        ExplanationMode::Chinese => chinese_code(translation_language),
        ExplanationMode::EnglishByLevel => english_code(translation_language),
        ExplanationMode::AdaptiveBilingual => {
            let level = classify_cefr(cefr);
            (matches!(level, CefrLevel::B2) || matches!(level, CefrLevel::C1) || matches!(level, CefrLevel::C2))
                && english_code(translation_language)
        },
    }
}

/// The prompt for a word lookup of the given kind (`definition`, `context`,
/// or anything else for the two-part answer).
pub open spec fn lookup_system_prompt_spec(
    kind: Seq<char>,
    mode: Seq<char>,
    cefr: Seq<char>,
    translation_language: Seq<char>,
    show_translation: bool,
) -> Seq<char> {
    let translation_prefix = if show_translation && translation_language.len() > 0 {
        TRANSLATION_HINT_LEAD@ + language_name_spec(translation_language)
            + TRANSLATION_HINT_MARKER_LEAD@ + LOOKUP_TRANSLATION_MARKER@ + TRANSLATION_HINT_TAIL@
    } else {
        Seq::empty()
    };
    let explanation_prefix = explanation_strategy_spec(mode, cefr) + "\n\n"@;
    if kind == "definition"@ {
        translation_prefix + explanation_prefix + DEFINITION_PROMPT_BODY@
    } else if kind == "context"@ {
        explanation_prefix + CONTEXT_PROMPT_BODY@
    } else {
        translation_prefix + explanation_prefix + FULL_LOOKUP_PROMPT_BODY@
    }
}

/// The system prompt for a word or phrase lookup.
pub fn lookup_system_prompt(
    kind: &str,
    explanation_mode: &str,
    cefr: &str,
    translation_language: &str,
    show_translation: bool,
) -> (r: String)
    ensures
        r@ == lookup_system_prompt_spec(kind@, explanation_mode@, cefr@, translation_language@, show_translation),
{
    let mut explanation_prefix = explanation_strategy(explanation_mode, cefr);
    explanation_prefix.append("\n\n");
    if str_eq(kind, "context") && !str_eq(kind, "definition") {
        let mut s = explanation_prefix;
        s.append(CONTEXT_PROMPT_BODY);
        return s;
    }
    let mut s = if show_translation && !translation_language.is_empty() {
        let mut t = TRANSLATION_HINT_LEAD.to_string();
        let name = language_name(translation_language);
        t.append(name.as_str());
        t.append(TRANSLATION_HINT_MARKER_LEAD);
        t.append(LOOKUP_TRANSLATION_MARKER);
        t.append(TRANSLATION_HINT_TAIL);
        t
    } else {
        String::new()
    };
    s.append(explanation_prefix.as_str());
    if str_eq(kind, "definition") {
        s.append(DEFINITION_PROMPT_BODY);
    } else {
        s.append(FULL_LOOKUP_PROMPT_BODY);
    }
    s
}

/// The system prompt for explaining a sentence or passage.
pub open spec fn explain_system_prompt_spec(mode: Seq<char>, cefr: Seq<char>) -> Seq<char> {
    explanation_strategy_spec(mode, cefr) + EXPLAIN_PROMPT_BODY@
}

/// Builds the system prompt for sentence/passage explanation. Brevity is
/// requested by the prompt itself; there is no translation-gloss part.
pub fn explain_system_prompt(explanation_mode: &str, cefr: &str) -> (r: String)
    ensures
        r@ == explain_system_prompt_spec(explanation_mode@, cefr@),
{
    let mut s = explanation_strategy(explanation_mode, cefr);
    s.append(EXPLAIN_PROMPT_BODY);
    s
}

/// The language-strategy paragraph of learning-card and custom-action prompts.
pub open spec fn learning_language_strategy_spec(mode: Seq<char>, cefr: Seq<char>, translation_language: Seq<char>) -> Seq<char> {
    let level = normalized_cefr_spec(cefr);
    LEARNER_LEVEL_LEAD@ + level + EXPLANATION_MODE_LEAD@
        + explanation_mode_name(explanation_mode_of(Some(mode))) + TRANSLATION_LANGUAGE_LEAD@
        + language_name_spec(translation_language) + SENTENCE_GAP@
        + explanation_strategy_spec(mode, level) + TRANSLATION_SCOPE_TAIL@
}

/// Language strategy for learning cards: level, mode, translation language,
/// and the rule that translation is confined to its own module.
pub fn learning_language_strategy(mode: &str, cefr: &str, translation_language: &str) -> (r: String)
    ensures
        r@ == learning_language_strategy_spec(mode@, cefr@, translation_language@),
{
    let level = normalized_cefr_level(cefr);
    let translation = language_name(translation_language);
    let mut s = LEARNER_LEVEL_LEAD.to_string();
    s.append(level);
    s.append(EXPLANATION_MODE_LEAD);
    s.append(normalized_explanation_mode(Some(mode)));
    s.append(TRANSLATION_LANGUAGE_LEAD);
    s.append(translation.as_str());
    s.append(SENTENCE_GAP);
    let strategy = explanation_strategy(mode, level);
    s.append(strategy.as_str());
    s.append(TRANSLATION_SCOPE_TAIL);
    s
}

/// Card-kind specific instructions; unknown kinds get none.
pub open spec fn learning_kind_instructions_spec(kind: Seq<char>) -> Seq<char> {
    if kind == "word"@ {
        KIND_INSTRUCTIONS_WORD@
    } else if kind == "phrase"@ {
        KIND_INSTRUCTIONS_PHRASE@
    } else if kind == "passage"@ {
        KIND_INSTRUCTIONS_PASSAGE@
    } else {
        ""@
    }
}

/// Instructions specific to the card kind.
pub fn learning_kind_instructions(kind: &str) -> (r: &'static str)
    ensures
        r@ == learning_kind_instructions_spec(kind@),
{
    if str_eq(kind, "word") {
        KIND_INSTRUCTIONS_WORD
    } else if str_eq(kind, "phrase") {
        KIND_INSTRUCTIONS_PHRASE
    } else if str_eq(kind, "passage") {
        KIND_INSTRUCTIONS_PASSAGE
    } else {
        ""
    }
}

} // verus!
