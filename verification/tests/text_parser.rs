use quill::document::{
    append_reflowed_line, block_from_line, hard_wrap_width, legacy_text_locations,
    text_document_parts, text_toc_leaf_count, TextBookBlockKind,
};
use quill::headings::canonical_roman_number;
use quill::lines::normalized_text_lines;

fn utf16_len(value: &str) -> u64 {
    value.encode_utf16().count() as u64
}

#[test]
fn tests_text_parser_builds_hierarchical_part_toc_without_generated_chunks() {
    let text = "PART ONE 1\nFirst.\nPART ONE 2\nSecond.\nPART TWO 1\nThird.\nPART TWO 22\nLast.\nEPILOGUE\nDone.";
    let (chunks, toc, legacy_locations) = text_document_parts(text, true);
    let entries = toc
        .iter()
        .map(|entry| (entry.title.as_str(), entry.depth))
        .collect::<Vec<_>>();

    assert_eq!(
        entries,
        [
            ("PART ONE", 0),
            ("1", 1),
            ("2", 1),
            ("PART TWO", 0),
            ("1", 1),
            ("22", 1),
            ("EPILOGUE", 0),
        ]
    );
    assert_eq!(
        chunks
            .iter()
            .flat_map(|chunk| &chunk.blocks)
            .filter(|block| block.kind == TextBookBlockKind::Heading)
            .count(),
        5
    );
    assert!(toc.iter().all(|entry| !entry.title.starts_with("Part ")));
    assert_eq!(text_toc_leaf_count(&toc), 5);
    assert_eq!(legacy_locations[0][0], 0);
    assert_eq!(
        legacy_locations[0][2],
        "PART ONE 1\nFirst.\n".encode_utf16().count() as u64
    );
}

#[test]
fn books_text_parser_builds_hierarchical_part_toc_without_generated_chunks() {
    let text = "PART ONE 1\nFirst.\nPART ONE 2\nSecond.\nPART TWO 1\nThird.\nPART TWO 22\nLast.\nEPILOGUE\nDone.";
    let (chunks, toc, legacy_locations) = text_document_parts(text, true);
    let entries = toc
        .iter()
        .map(|entry| (entry.title.as_str(), entry.depth))
        .collect::<Vec<_>>();

    assert_eq!(
        entries,
        [
            ("PART ONE", 0),
            ("1", 1),
            ("2", 1),
            ("PART TWO", 0),
            ("1", 1),
            ("22", 1),
            ("EPILOGUE", 0),
        ]
    );
    assert_eq!(
        chunks
            .iter()
            .flat_map(|chunk| &chunk.blocks)
            .filter(|block| block.kind == TextBookBlockKind::Heading)
            .count(),
        5
    );
    assert!(toc.iter().all(|entry| !entry.title.starts_with("Part ")));
    assert_eq!(text_toc_leaf_count(&toc), 5);
    assert_eq!(legacy_locations[0][0], 0);
    assert_eq!(
        legacy_locations[0][2],
        "PART ONE 1\nFirst.\n".encode_utf16().count() as u64
    );
}

#[test]
fn tests_text_parser_recognizes_common_english_and_chinese_headings() {
    let text = "BOOK I\nCHAPTER ONE\nBody\nSECTION 2\nMore\nACT III\nPlay\nVOLUME TWO 3\nNext\n第一卷\n第一章 开始\n正文\n第十二章：结局\n第一章初见\nEPILOGUE\nEnd";
    let (_, toc, _) = text_document_parts(text, true);
    let entries = toc
        .iter()
        .map(|entry| (entry.title.as_str(), entry.depth))
        .collect::<Vec<_>>();

    assert_eq!(
        entries,
        [
            ("BOOK I", 0),
            ("CHAPTER ONE", 1),
            ("SECTION 2", 2),
            ("ACT III", 1),
            ("VOLUME TWO", 0),
            ("3", 1),
            ("第一卷", 0),
            ("第一章 开始", 1),
            ("第十二章：结局", 1),
            ("第一章初见", 1),
            ("EPILOGUE", 0),
        ]
    );
}

#[test]
fn books_text_parser_recognizes_common_english_and_chinese_headings() {
    let text = "BOOK I\nCHAPTER ONE\nBody\nSECTION 2\nMore\nACT III\nPlay\nVOLUME TWO 3\nNext\n第一卷\n第一章 开始\n正文\n第十二章：结局\n第一章初见\nEPILOGUE\nEnd";
    let (_, toc, _) = text_document_parts(text, true);
    let entries = toc
        .iter()
        .map(|entry| (entry.title.as_str(), entry.depth))
        .collect::<Vec<_>>();

    assert_eq!(
        entries,
        [
            ("BOOK I", 0),
            ("CHAPTER ONE", 1),
            ("SECTION 2", 2),
            ("ACT III", 1),
            ("VOLUME TWO", 0),
            ("3", 1),
            ("第一卷", 0),
            ("第一章 开始", 1),
            ("第十二章：结局", 1),
            ("第一章初见", 1),
            ("EPILOGUE", 0),
        ]
    );
}

#[test]
fn tests_text_parser_builds_multilevel_book_and_play_trees() {
    let text = "VOLUME I\nBOOK ONE\nPART ONE\nCHAPTER 1\nSECTION 1\nText\nACT II\nSCENE 1\nPlay\nEPILOGUE\nEnd";
    let (chunks, toc, _) = text_document_parts(text, true);
    let entries = toc
        .iter()
        .map(|entry| (entry.title.as_str(), entry.depth))
        .collect::<Vec<_>>();

    assert_eq!(
        entries,
        [
            ("VOLUME I", 0),
            ("BOOK ONE", 1),
            ("PART ONE", 2),
            ("CHAPTER 1", 3),
            ("SECTION 1", 4),
            ("ACT II", 2),
            ("SCENE 1", 3),
            ("EPILOGUE", 0),
        ]
    );
    assert_eq!(text_toc_leaf_count(&toc), 3);
    let page_start_titles = chunks
        .iter()
        .flat_map(|chunk| &chunk.blocks)
        .filter(|block| block.starts_page)
        .map(|block| block.text.as_str())
        .collect::<Vec<_>>();
    assert_eq!(
        page_start_titles,
        [
            "VOLUME I",
            "BOOK ONE",
            "PART ONE",
            "CHAPTER 1",
            "ACT II",
            "SCENE 1",
            "EPILOGUE",
        ]
    );
    assert!(!page_start_titles.contains(&"SECTION 1"));

    let (_, play_toc, _) = text_document_parts("ACT I\nSCENE 1\nText\nSCENE 2\nMore", true);
    let play_entries = play_toc
        .iter()
        .map(|entry| (entry.title.as_str(), entry.depth))
        .collect::<Vec<_>>();
    assert_eq!(play_entries, [("ACT I", 0), ("SCENE 1", 1), ("SCENE 2", 1)]);
}

#[test]
fn books_text_parser_builds_multilevel_book_and_play_trees() {
    let text = "VOLUME I\nBOOK ONE\nPART ONE\nCHAPTER 1\nSECTION 1\nText\nACT II\nSCENE 1\nPlay\nEPILOGUE\nEnd";
    let (chunks, toc, _) = text_document_parts(text, true);
    let entries = toc
        .iter()
        .map(|entry| (entry.title.as_str(), entry.depth))
        .collect::<Vec<_>>();

    assert_eq!(
        entries,
        [
            ("VOLUME I", 0),
            ("BOOK ONE", 1),
            ("PART ONE", 2),
            ("CHAPTER 1", 3),
            ("SECTION 1", 4),
            ("ACT II", 2),
            ("SCENE 1", 3),
            ("EPILOGUE", 0),
        ]
    );
    assert_eq!(text_toc_leaf_count(&toc), 3);
    let page_start_titles = chunks
        .iter()
        .flat_map(|chunk| &chunk.blocks)
        .filter(|block| block.starts_page)
        .map(|block| block.text.as_str())
        .collect::<Vec<_>>();
    assert_eq!(
        page_start_titles,
        [
            "VOLUME I",
            "BOOK ONE",
            "PART ONE",
            "CHAPTER 1",
            "ACT II",
            "SCENE 1",
            "EPILOGUE",
        ]
    );
    assert!(!page_start_titles.contains(&"SECTION 1"));

    let (_, play_toc, _) = text_document_parts("ACT I\nSCENE 1\nText\nSCENE 2\nMore", true);
    let play_entries = play_toc
        .iter()
        .map(|entry| (entry.title.as_str(), entry.depth))
        .collect::<Vec<_>>();
    assert_eq!(play_entries, [("ACT I", 0), ("SCENE 1", 1), ("SCENE 2", 1)]);
}

#[test]
fn tests_text_parser_recognizes_punctuated_english_headings() {
    let text = "Chapter 1.\nBody\n\nChapter One.\nMore\n\nPart Two.\nLast";
    let (_, toc, _) = text_document_parts(text, true);
    let entries = toc
        .iter()
        .map(|entry| (entry.title.as_str(), entry.depth))
        .collect::<Vec<_>>();

    assert_eq!(
        entries,
        [("Chapter 1.", 0), ("Chapter One.", 0), ("Part Two.", 0)]
    );
}

#[test]
fn books_text_parser_recognizes_punctuated_english_headings() {
    let text = "Chapter 1.\nBody\n\nChapter One.\nMore\n\nPart Two.\nLast";
    let (_, toc, _) = text_document_parts(text, true);
    let entries = toc
        .iter()
        .map(|entry| (entry.title.as_str(), entry.depth))
        .collect::<Vec<_>>();

    assert_eq!(
        entries,
        [("Chapter 1.", 0), ("Chapter One.", 0), ("Part Two.", 0)]
    );
}

#[test]
fn tests_text_parser_recognizes_bare_number_chapters_without_a_parent() {
    let text = "1\nFirst\n\n2\nSecond\n\nI\nThird\n\nII\nFourth";
    let (_, toc, _) = text_document_parts(text, true);
    let entries = toc
        .iter()
        .map(|entry| (entry.title.as_str(), entry.depth))
        .collect::<Vec<_>>();

    assert_eq!(entries, [("1", 0), ("2", 0), ("I", 0), ("II", 0)]);
}

#[test]
fn books_text_parser_recognizes_bare_number_chapters_without_a_parent() {
    let text = "1\nFirst\n\n2\nSecond\n\nI\nThird\n\nII\nFourth";
    let (_, toc, _) = text_document_parts(text, true);
    let entries = toc
        .iter()
        .map(|entry| (entry.title.as_str(), entry.depth))
        .collect::<Vec<_>>();

    assert_eq!(entries, [("1", 0), ("2", 0), ("I", 0), ("II", 0)]);
}

#[test]
fn tests_text_parser_does_not_treat_prose_as_a_heading() {
    let text = "The chapter was short.\nWe took part in the work.\nChapter books were nearby.\nChapter one was the longest\nPart one of the story\nPART CIVIL DUTY\n2024\ncontinues as prose\n第一次读到这一章时，我没有停下来\n\nmix";
    let (chunks, toc, _) = text_document_parts(text, true);
    assert_eq!(toc.len(), 1);
    assert_eq!(toc[0].title, "Reading");
    assert!(chunks
        .iter()
        .flat_map(|chunk| &chunk.blocks)
        .all(|block| block.kind == TextBookBlockKind::Paragraph));
}

#[test]
fn books_text_parser_does_not_treat_prose_as_a_heading() {
    let text = "The chapter was short.\nWe took part in the work.\nChapter books were nearby.\nChapter one was the longest\nPart one of the story\nPART CIVIL DUTY\n2024\ncontinues as prose\n第一次读到这一章时，我没有停下来\n\nmix";
    let (chunks, toc, _) = text_document_parts(text, true);
    assert_eq!(toc.len(), 1);
    assert_eq!(toc[0].title, "Reading");
    assert!(chunks
        .iter()
        .flat_map(|chunk| &chunk.blocks)
        .all(|block| block.kind == TextBookBlockKind::Paragraph));
}

#[test]
fn tests_text_parser_does_not_promote_inline_numbers_after_a_chapter() {
    let (_, toc, _) = text_document_parts("CHAPTER 1\nprose\n2024\ncontinues", true);
    let entries = toc
        .iter()
        .map(|entry| (entry.title.as_str(), entry.depth))
        .collect::<Vec<_>>();
    assert_eq!(entries, [("CHAPTER 1", 0)]);
}

#[test]
fn books_text_parser_does_not_promote_inline_numbers_after_a_chapter() {
    let (_, toc, _) = text_document_parts("CHAPTER 1\nprose\n2024\ncontinues", true);
    let entries = toc
        .iter()
        .map(|entry| (entry.title.as_str(), entry.depth))
        .collect::<Vec<_>>();
    assert_eq!(entries, [("CHAPTER 1", 0)]);
}

#[test]
fn tests_text_parser_accepts_canonical_roman_and_compound_word_numbers() {
    assert!(canonical_roman_number("MCMXCIV"));
    assert!(!canonical_roman_number("CIVIL"));
    assert!(!canonical_roman_number("ILL"));

    let (_, toc, _) = text_document_parts("PART TWENTY ONE 3\nText\nCHAPTER XLII\nMore", true);
    let entries = toc
        .iter()
        .map(|entry| (entry.title.as_str(), entry.depth))
        .collect::<Vec<_>>();
    assert_eq!(
        entries,
        [("PART TWENTY ONE", 0), ("3", 1), ("CHAPTER XLII", 1)]
    );
}

#[test]
fn books_text_parser_accepts_canonical_roman_and_compound_word_numbers() {
    assert!(canonical_roman_number("MCMXCIV"));
    assert!(!canonical_roman_number("CIVIL"));
    assert!(!canonical_roman_number("ILL"));

    let (_, toc, _) = text_document_parts("PART TWENTY ONE 3\nText\nCHAPTER XLII\nMore", true);
    let entries = toc
        .iter()
        .map(|entry| (entry.title.as_str(), entry.depth))
        .collect::<Vec<_>>();
    assert_eq!(
        entries,
        [("PART TWENTY ONE", 0), ("3", 1), ("CHAPTER XLII", 1)]
    );
}

#[test]
fn text_parser_accepts_valid_hyphenated_word_numbers_only() {
    let text = "BOOK ONE\nCHAPTER TWENTY-ONE\nBody\nCHAPTER ONE HUNDRED TWENTY-THREE\nMore\nCHAPTER TWENTY-TEN\nProse\nCHAPTER TWENTY--ONE\nEnd";
    let (_, toc, _) = text_document_parts(text, true);
    let entries = toc
        .iter()
        .map(|entry| (entry.title.as_str(), entry.depth))
        .collect::<Vec<_>>();

    assert_eq!(
        entries,
        [
            ("BOOK ONE", 0),
            ("CHAPTER TWENTY-ONE", 1),
            ("CHAPTER ONE HUNDRED TWENTY-THREE", 1),
        ]
    );
}

#[test]
fn tests_text_parser_reflows_consistently_hard_wrapped_paragraphs() {
    let first = "alpha beta gamma delta epsilon zeta eta theta iota kappa";
    let second = "lambda mu nu xi omicron pi rho sigma tau upsilon omega";
    let mut groups = Vec::new();
    for index in 0..5 {
        groups.push(format!("{first}\n{second}  \nparagraph {index} ends."));
    }
    let text = groups.join("\n\n");
    let lines = normalized_text_lines(&text);
    let (chunks, _, legacy_locations) = text_document_parts(&text, true);
    let blocks = chunks
        .iter()
        .flat_map(|chunk| &chunk.blocks)
        .collect::<Vec<_>>();

    assert!(hard_wrap_width(&lines, &vec![None; lines.len()]).is_some());
    assert_eq!(blocks.len(), 5);
    assert_eq!(legacy_locations[0].len(), 15);
    assert_eq!(
        blocks[0].text,
        format!("{first} {second} paragraph 0 ends.")
    );
    assert_eq!(blocks[0].source_spans.len(), 5);
    assert_eq!(blocks[0].source_spans[2].source_start, utf16_len(first) + 1);
    assert_eq!(
        blocks[0].source_spans[4].source_start,
        utf16_len(first) + 1 + utf16_len(second) + 2 + 1
    );
    let (unreflowed, _, _) = text_document_parts(&text, false);
    assert_eq!(
        unreflowed
            .iter()
            .map(|chunk| chunk.blocks.len())
            .sum::<usize>(),
        15
    );
}

#[test]
fn books_text_parser_reflows_consistently_hard_wrapped_paragraphs() {
    let first = "alpha beta gamma delta epsilon zeta eta theta iota kappa";
    let second = "lambda mu nu xi omicron pi rho sigma tau upsilon omega";
    let mut groups = Vec::new();
    for index in 0..5 {
        groups.push(format!("{first}\n{second}  \nparagraph {index} ends."));
    }
    let text = groups.join("\n\n");
    let lines = normalized_text_lines(&text);
    let (chunks, _, legacy_locations) = text_document_parts(&text, true);
    let blocks = chunks
        .iter()
        .flat_map(|chunk| &chunk.blocks)
        .collect::<Vec<_>>();

    assert!(hard_wrap_width(&lines, &vec![None; lines.len()]).is_some());
    assert_eq!(blocks.len(), 5);
    assert_eq!(legacy_locations[0].len(), 15);
    assert_eq!(
        blocks[0].text,
        format!("{first} {second} paragraph 0 ends.")
    );
    assert_eq!(blocks[0].source_spans.len(), 5);
    assert_eq!(blocks[0].source_spans[2].source_start, utf16_len(first) + 1);
    assert_eq!(
        blocks[0].source_spans[4].source_start,
        utf16_len(first) + 1 + utf16_len(second) + 2 + 1
    );
    let (unreflowed, _, _) = text_document_parts(&text, false);
    assert_eq!(
        unreflowed
            .iter()
            .map(|chunk| chunk.blocks.len())
            .sum::<usize>(),
        15
    );
}

#[test]
fn tests_text_parser_reflows_prose_with_lowercase_continuation_lines() {
    let groups = (0..4)
        .map(|index| {
            format!(
                "Alpha beta gamma delta epsilon zeta eta theta iota\n\
                 lambda mu nu xi omicron pi rho sigma tau upsilon\n\
                 continuation words remain part of the same paragraph\n\
                 final line {index} ends with ordinary punctuation."
            )
        })
        .collect::<Vec<_>>();
    let text = groups.join("\n\n");
    let lines = normalized_text_lines(&text);
    assert!(hard_wrap_width(&lines, &vec![None; lines.len()]).is_some());

    let (chunks, _, _) = text_document_parts(&text, true);
    assert_eq!(
        chunks.iter().map(|chunk| chunk.blocks.len()).sum::<usize>(),
        4
    );
}

#[test]
fn books_text_parser_reflows_prose_with_lowercase_continuation_lines() {
    let groups = (0..4)
        .map(|index| {
            format!(
                "Alpha beta gamma delta epsilon zeta eta theta iota\n\
                 lambda mu nu xi omicron pi rho sigma tau upsilon\n\
                 continuation words remain part of the same paragraph\n\
                 final line {index} ends with ordinary punctuation."
            )
        })
        .collect::<Vec<_>>();
    let text = groups.join("\n\n");
    let lines = normalized_text_lines(&text);
    assert!(hard_wrap_width(&lines, &vec![None; lines.len()]).is_some());

    let (chunks, _, _) = text_document_parts(&text, true);
    assert_eq!(
        chunks.iter().map(|chunk| chunk.blocks.len()).sum::<usize>(),
        4
    );
}

#[test]
fn tests_text_parser_preserves_bullet_and_numbered_lists() {
    let bullet_list = (0..12)
        .map(|index| format!("- list item {index:02} keeps its deliberate line boundary"))
        .collect::<Vec<_>>()
        .join("\n");
    let numbered_list = (1..=12)
        .map(|index| format!("{index}. list item keeps its deliberate line boundary"))
        .collect::<Vec<_>>()
        .join("\n");
    let alpha_list = (b'A'..=b'L')
        .map(|marker| {
            format!(
                "{}) list item keeps its deliberate line boundary",
                char::from(marker)
            )
        })
        .collect::<Vec<_>>()
        .join("\n");
    let roman_list = [
        "I", "II", "III", "IV", "V", "VI", "VII", "VIII", "IX", "X", "XI", "XII",
    ]
    .into_iter()
    .map(|marker| format!("{marker}. list item keeps its deliberate line boundary"))
    .collect::<Vec<_>>()
    .join("\n");
    let task_list = (0..12)
        .map(|index| format!("[ ] task {index:02} keeps its deliberate line boundary"))
        .collect::<Vec<_>>()
        .join("\n");

    for text in [bullet_list, numbered_list, alpha_list, roman_list, task_list] {
        let lines = normalized_text_lines(&text);
        assert_eq!(hard_wrap_width(&lines, &vec![None; lines.len()]), None);

        let (chunks, _, _) = text_document_parts(&text, true);
        assert_eq!(
            chunks.iter().map(|chunk| chunk.blocks.len()).sum::<usize>(),
            12
        );
    }
}

#[test]
fn books_text_parser_preserves_bullet_and_numbered_lists() {
    let bullet_list = (0..12)
        .map(|index| format!("- list item {index:02} keeps its deliberate line boundary"))
        .collect::<Vec<_>>()
        .join("\n");
    let numbered_list = (1..=12)
        .map(|index| format!("{index}. list item keeps its deliberate line boundary"))
        .collect::<Vec<_>>()
        .join("\n");
    let alpha_list = (b'A'..=b'L')
        .map(|marker| {
            format!(
                "{}) list item keeps its deliberate line boundary",
                char::from(marker)
            )
        })
        .collect::<Vec<_>>()
        .join("\n");
    let roman_list = [
        "I", "II", "III", "IV", "V", "VI", "VII", "VIII", "IX", "X", "XI", "XII",
    ]
    .into_iter()
    .map(|marker| format!("{marker}. list item keeps its deliberate line boundary"))
    .collect::<Vec<_>>()
    .join("\n");
    let task_list = (0..12)
        .map(|index| format!("[ ] task {index:02} keeps its deliberate line boundary"))
        .collect::<Vec<_>>()
        .join("\n");

    for text in [bullet_list, numbered_list, alpha_list, roman_list, task_list] {
        let lines = normalized_text_lines(&text);
        assert_eq!(hard_wrap_width(&lines, &vec![None; lines.len()]), None);

        let (chunks, _, _) = text_document_parts(&text, true);
        assert_eq!(
            chunks.iter().map(|chunk| chunk.blocks.len()).sum::<usize>(),
            12
        );
    }
}

#[test]
fn tests_text_parser_preserves_repeated_capitalized_verse_lines() {
    let text = (0..12)
        .map(|index| format!("Silver light crosses the quiet water in verse {index:02}"))
        .collect::<Vec<_>>()
        .join("\n");
    let lines = normalized_text_lines(&text);

    assert_eq!(hard_wrap_width(&lines, &vec![None; lines.len()]), None);
    let (chunks, _, _) = text_document_parts(&text, true);
    assert_eq!(
        chunks.iter().map(|chunk| chunk.blocks.len()).sum::<usize>(),
        12
    );
}

#[test]
fn books_text_parser_preserves_repeated_capitalized_verse_lines() {
    let text = (0..12)
        .map(|index| format!("Silver light crosses the quiet water in verse {index:02}"))
        .collect::<Vec<_>>()
        .join("\n");
    let lines = normalized_text_lines(&text);

    assert_eq!(hard_wrap_width(&lines, &vec![None; lines.len()]), None);
    let (chunks, _, _) = text_document_parts(&text, true);
    assert_eq!(
        chunks.iter().map(|chunk| chunk.blocks.len()).sum::<usize>(),
        12
    );
}

#[test]
fn tests_text_parser_preserves_repeated_lowercase_verse_lines() {
    let text = (0..12)
        .map(|index| format!("silver light crosses the quiet water in verse {index:02}"))
        .collect::<Vec<_>>()
        .join("\n");
    let lines = normalized_text_lines(&text);

    assert!(hard_wrap_width(&lines, &vec![None; lines.len()]).is_some());
    let (chunks, _, _) = text_document_parts(&text, true);
    assert_eq!(
        chunks.iter().map(|chunk| chunk.blocks.len()).sum::<usize>(),
        12
    );
}

#[test]
fn books_text_parser_preserves_repeated_lowercase_verse_lines() {
    let text = (0..12)
        .map(|index| format!("silver light crosses the quiet water in verse {index:02}"))
        .collect::<Vec<_>>()
        .join("\n");
    let lines = normalized_text_lines(&text);

    assert!(hard_wrap_width(&lines, &vec![None; lines.len()]).is_some());
    let (chunks, _, _) = text_document_parts(&text, true);
    assert_eq!(
        chunks.iter().map(|chunk| chunk.blocks.len()).sum::<usize>(),
        12
    );
}

#[test]
fn tests_text_parser_preserves_an_embedded_lowercase_verse_stanza() {
    let first = "alpha beta gamma delta epsilon zeta eta theta iota kappa";
    let second = "lambda mu nu xi omicron pi rho sigma tau upsilon omega";
    let mut groups = (0..4)
        .map(|index| format!("{first}\n{second}\nparagraph {index} ends."))
        .collect::<Vec<_>>();
    let verse = [
        "silver light crosses the quiet water below",
        "wind leans softly through the winter reeds",
        "footsteps fade beyond the sleeping shore",
        "night keeps every word we could not say",
    ];
    groups.push(verse.join("\n"));
    let text = groups.join("\n\n");
    let lines = normalized_text_lines(&text);
    assert!(hard_wrap_width(&lines, &vec![None; lines.len()]).is_some());

    let (chunks, _, _) = text_document_parts(&text, true);
    let blocks = chunks
        .iter()
        .flat_map(|chunk| &chunk.blocks)
        .map(|block| block.text.as_str())
        .collect::<Vec<_>>();
    assert_eq!(blocks.len(), 8);
    assert_eq!(&blocks[4..], verse);
}

#[test]
fn books_text_parser_preserves_an_embedded_lowercase_verse_stanza() {
    let first = "alpha beta gamma delta epsilon zeta eta theta iota kappa";
    let second = "lambda mu nu xi omicron pi rho sigma tau upsilon omega";
    let mut groups = (0..4)
        .map(|index| format!("{first}\n{second}\nparagraph {index} ends."))
        .collect::<Vec<_>>();
    let verse = [
        "silver light crosses the quiet water below",
        "wind leans softly through the winter reeds",
        "footsteps fade beyond the sleeping shore",
        "night keeps every word we could not say",
    ];
    groups.push(verse.join("\n"));
    let text = groups.join("\n\n");
    let lines = normalized_text_lines(&text);
    assert!(hard_wrap_width(&lines, &vec![None; lines.len()]).is_some());

    let (chunks, _, _) = text_document_parts(&text, true);
    let blocks = chunks
        .iter()
        .flat_map(|chunk| &chunk.blocks)
        .map(|block| block.text.as_str())
        .collect::<Vec<_>>();
    assert_eq!(blocks.len(), 8);
    assert_eq!(&blocks[4..], verse);
}

#[test]
fn tests_text_parser_keeps_prose_after_an_indented_line_separate() {
    let first = "alpha beta gamma delta epsilon zeta eta theta iota kappa";
    let second = "lambda mu nu xi omicron pi rho sigma tau upsilon omega";
    let mut groups = (0..4)
        .map(|index| format!("{first}\n{second}\nparagraph {index} ends."))
        .collect::<Vec<_>>();
    groups.push(
        "    indented quotation keeps its deliberate boundary here\nfollowing prose remains separate from the indented quotation"
            .to_string(),
    );
    let text = groups.join("\n\n");
    let lines = normalized_text_lines(&text);
    assert!(hard_wrap_width(&lines, &vec![None; lines.len()]).is_some());

    let (chunks, _, _) = text_document_parts(&text, true);
    let blocks = chunks
        .iter()
        .flat_map(|chunk| &chunk.blocks)
        .map(|block| block.text.as_str())
        .collect::<Vec<_>>();
    assert!(blocks.contains(&"indented quotation keeps its deliberate boundary here"));
    assert!(blocks.contains(&"following prose remains separate from the indented quotation"));
}

#[test]
fn books_text_parser_keeps_prose_after_an_indented_line_separate() {
    let first = "alpha beta gamma delta epsilon zeta eta theta iota kappa";
    let second = "lambda mu nu xi omicron pi rho sigma tau upsilon omega";
    let mut groups = (0..4)
        .map(|index| format!("{first}\n{second}\nparagraph {index} ends."))
        .collect::<Vec<_>>();
    groups.push(
        "    indented quotation keeps its deliberate boundary here\nfollowing prose remains separate from the indented quotation"
            .to_string(),
    );
    let text = groups.join("\n\n");
    let lines = normalized_text_lines(&text);
    assert!(hard_wrap_width(&lines, &vec![None; lines.len()]).is_some());

    let (chunks, _, _) = text_document_parts(&text, true);
    let blocks = chunks
        .iter()
        .flat_map(|chunk| &chunk.blocks)
        .map(|block| block.text.as_str())
        .collect::<Vec<_>>();
    assert!(blocks.contains(&"indented quotation keeps its deliberate boundary here"));
    assert!(blocks.contains(&"following prose remains separate from the indented quotation"));
}

#[test]
fn tests_text_reflow_uses_script_appropriate_separators() {
    let cjk_lines = normalized_text_lines("中文换行\n继续阅读");
    let mut cjk = block_from_line(&cjk_lines[0], TextBookBlockKind::Paragraph, None, false);
    append_reflowed_line(&mut cjk, &cjk_lines[1]);
    assert_eq!(cjk.text, "中文换行继续阅读");

    let hyphen_lines = normalized_text_lines("well-\nknown");
    let mut hyphen = block_from_line(&hyphen_lines[0], TextBookBlockKind::Paragraph, None, false);
    append_reflowed_line(&mut hyphen, &hyphen_lines[1]);
    assert_eq!(hyphen.text, "well-known");
}

#[test]
fn books_text_reflow_uses_script_appropriate_separators() {
    let cjk_lines = normalized_text_lines("中文换行\n继续阅读");
    let mut cjk = block_from_line(&cjk_lines[0], TextBookBlockKind::Paragraph, None, false);
    append_reflowed_line(&mut cjk, &cjk_lines[1]);
    assert_eq!(cjk.text, "中文换行继续阅读");

    let hyphen_lines = normalized_text_lines("well-\nknown");
    let mut hyphen = block_from_line(&hyphen_lines[0], TextBookBlockKind::Paragraph, None, false);
    append_reflowed_line(&mut hyphen, &hyphen_lines[1]);
    assert_eq!(hyphen.text, "well-known");
}

#[test]
fn tests_text_parser_keeps_complete_lines_as_separate_paragraphs() {
    let text = (0..12)
        .map(|index| {
            format!("This is complete paragraph number {index}, with a natural sentence ending.")
        })
        .collect::<Vec<_>>()
        .join("\n");
    let lines = normalized_text_lines(&text);
    assert_eq!(hard_wrap_width(&lines, &vec![None; lines.len()]), None);
    let (chunks, _, _) = text_document_parts(&text, true);
    assert_eq!(
        chunks.iter().map(|chunk| chunk.blocks.len()).sum::<usize>(),
        12
    );
}

#[test]
fn books_text_parser_keeps_complete_lines_as_separate_paragraphs() {
    let text = (0..12)
        .map(|index| {
            format!("This is complete paragraph number {index}, with a natural sentence ending.")
        })
        .collect::<Vec<_>>()
        .join("\n");
    let lines = normalized_text_lines(&text);
    assert_eq!(hard_wrap_width(&lines, &vec![None; lines.len()]), None);
    let (chunks, _, _) = text_document_parts(&text, true);
    assert_eq!(
        chunks.iter().map(|chunk| chunk.blocks.len()).sum::<usize>(),
        12
    );
}

#[test]
fn tests_text_offsets_use_utf16_but_legacy_chunks_keep_utf8_threshold() {
    let emoji_lines = normalized_text_lines("A😀B\nNext");
    assert_eq!(emoji_lines[0].source_start, 0);
    assert_eq!(emoji_lines[0].source_end, 4);
    assert_eq!(emoji_lines[1].source_start, 5);

    let cjk_line = "文".repeat(8_000);
    let text = format!("{cjk_line}\n{cjk_line}");
    let locations = legacy_text_locations(&normalized_text_lines(&text));
    assert_eq!(locations.len(), 2);
    assert_eq!(locations[0], [0]);
    assert_eq!(locations[1], [8_001]);
}

#[test]
fn books_text_offsets_use_utf16_but_legacy_chunks_keep_utf8_threshold() {
    let emoji_lines = normalized_text_lines("A😀B\nNext");
    assert_eq!(emoji_lines[0].source_start, 0);
    assert_eq!(emoji_lines[0].source_end, 4);
    assert_eq!(emoji_lines[1].source_start, 5);

    let cjk_line = "文".repeat(8_000);
    let text = format!("{cjk_line}\n{cjk_line}");
    let locations = legacy_text_locations(&normalized_text_lines(&text));
    assert_eq!(locations.len(), 2);
    assert_eq!(locations[0], [0]);
    assert_eq!(locations[1], [8_001]);
}
