use gakumas_screenshot::extract::{
    classify, extract_scores, CONFIDENCE_UNIT, MIN_CONFIDENCE, extract_single_stage, scores_from_tokens, single_stage_from_tokens,
    OcrLine, OcrWord, Token, TokenLine,
};
use gakumas_screenshot::pattern::ScorePattern;
use gakumas_screenshot::score::{is_dash_char, is_dash_like, parse_score, ExtractError};

fn make_line(words: &[&str], percent: u32) -> OcrLine {
    let confidence = percent * CONFIDENCE_UNIT;
    OcrLine {
        text: words.join(" "),
        words: words
            .iter()
            .map(|w| OcrWord {
                text: w.to_string(),
                confidence,
            })
            .collect(),
        confidence,
    }
}

fn token(text: &str, score_like: bool) -> Token {
    Token {
        text: text.to_string(),
        score_like,
    }
}

#[test]
fn test_parse_score() {
    assert_eq!(parse_score("12345").unwrap(), 12345);
    assert_eq!(parse_score("12,345").unwrap(), 12345);
    assert_eq!(parse_score("1,234,567").unwrap(), 1234567);
    assert_eq!(parse_score("12.345").unwrap(), 12345);
    assert_eq!(parse_score("--").unwrap(), 0);
    assert_eq!(parse_score("—").unwrap(), 0);
    // Japanese/Unicode dash characters
    assert_eq!(parse_score("ー").unwrap(), 0);
    assert_eq!(parse_score("一").unwrap(), 0);
    assert_eq!(parse_score("–").unwrap(), 0);
    assert_eq!(parse_score("―").unwrap(), 0);
    assert_eq!(parse_score("─").unwrap(), 0);
    assert_eq!(parse_score("ーー").unwrap(), 0);
}

#[test]
fn test_is_dash_like() {
    assert!(is_dash_like("I"));
    assert!(is_dash_like("l"));
    assert!(is_dash_like("|"));
    assert!(is_dash_like("_"));
    assert!(is_dash_like("Il"));
    assert!(!is_dash_like("1234"));
    assert!(!is_dash_like(""));
    assert!(!is_dash_like("hello"));
}

#[test]
fn test_extract_single_stage_three_scores() {
    let lines = vec![make_line(&["12345", "23456", "34567"], 90)];
    let result = extract_single_stage(&lines).unwrap();
    assert_eq!(result, [12345, 23456, 34567]);
}

#[test]
fn test_extract_single_stage_two_scores_one_dash() {
    let lines = vec![make_line(&["12345", "23456"], 90)];
    let result = extract_single_stage(&lines).unwrap();
    assert_eq!(result, [12345, 23456, 0]);
}

#[test]
fn test_extract_single_stage_one_score_two_dashes() {
    let lines = vec![make_line(&["12345"], 90)];
    let result = extract_single_stage(&lines).unwrap();
    assert_eq!(result, [12345, 0, 0]);
}

#[test]
fn test_extract_single_stage_noise_filtered() {
    // Small numbers (<100) should be filtered as noise
    let lines = vec![make_line(&["12345", "50", "23456"], 90)];
    let result = extract_single_stage(&lines).unwrap();
    assert_eq!(result, [12345, 23456, 0]);
}

#[test]
fn test_extract_single_stage_no_scores_error() {
    let lines = vec![make_line(&["50", "30"], 90)];
    assert!(extract_single_stage(&lines).is_err());
}

#[test]
fn test_extract_single_stage_dashes_ignored() {
    // Dashes parse to 0, which is < 100, so they're skipped
    let lines = vec![make_line(&["12345", "ー", "23456"], 90)];
    let result = extract_single_stage(&lines).unwrap();
    assert_eq!(result, [12345, 23456, 0]);
}

#[test]
fn test_extract_scores_basic() {
    let lines = vec![
        make_line(&["50339", "50796", "70859"], 90),
        make_line(&["64997", "168009", "128450"], 90),
        make_line(&["122130", "105901", "96776"], 90),
    ];

    let scores = extract_scores(&lines).unwrap();
    assert_eq!(scores[0], [50339, 50796, 70859]);
    assert_eq!(scores[1], [64997, 168009, 128450]);
    assert_eq!(scores[2], [122130, 105901, 96776]);
}

#[test]
fn test_extract_scores_with_noise() {
    let lines = vec![
        make_line(&["ステージ", "1"], 90),          // Should be skipped
        make_line(&["50339", "50796", "70859"], 90), // Valid
        make_line(&["Pt"], 90),                      // Should be skipped
        make_line(&["64997", "168009", "128450"], 90), // Valid
        make_line(&["total:", "500000"], 90),        // Should be skipped
        make_line(&["122130", "105901", "96776"], 90), // Valid
    ];

    let scores = extract_scores(&lines).unwrap();
    assert_eq!(scores[0], [50339, 50796, 70859]);
    assert_eq!(scores[1], [64997, 168009, 128450]);
    assert_eq!(scores[2], [122130, 105901, 96776]);
}

#[test]
fn test_extract_scores_low_confidence_skipped() {
    let lines = vec![
        make_line(&["50339", "50796", "70859"], 50), // Low confidence, skipped
        make_line(&["50339", "50796", "70859"], 90), // Valid
        make_line(&["64997", "168009", "128450"], 90),
        make_line(&["122130", "105901", "96776"], 90),
    ];

    let scores = extract_scores(&lines).unwrap();
    assert_eq!(scores[0], [50339, 50796, 70859]);
}

#[test]
fn test_extract_scores_with_commas() {
    let lines = vec![
        make_line(&["50,339", "50,796", "70,859"], 90),
        make_line(&["64,997", "168,009", "128,450"], 90),
        make_line(&["122,130", "105,901", "96,776"], 90),
    ];

    let scores = extract_scores(&lines).unwrap();
    assert_eq!(scores[0], [50339, 50796, 70859]);
    assert_eq!(scores[1], [64997, 168009, 128450]);
    assert_eq!(scores[2], [122130, 105901, 96776]);
}

#[test]
fn test_extract_scores_with_japanese_dashes() {
    // Katakana prolonged sound mark ー recognized as score pattern
    let lines = vec![
        make_line(&["50339", "50796", "ー"], 90),
        make_line(&["ー", "168009", "128450"], 90),
        make_line(&["122130", "ー", "96776"], 90),
    ];

    let scores = extract_scores(&lines).unwrap();
    assert_eq!(scores[0], [50339, 50796, 0]);
    assert_eq!(scores[1], [0, 168009, 128450]);
    assert_eq!(scores[2], [122130, 0, 96776]);
}

#[test]
fn test_extract_scores_pass2_garbled_dashes() {
    // OCR reads dash as "I" or "l" (not matching score pattern)
    let lines = vec![
        make_line(&["50339", "50796", "70859"], 90),
        make_line(&["I", "168009", "128450"], 90), // "I" is dash-like
        make_line(&["122130", "l", "96776"], 90),  // "l" is dash-like
    ];

    let scores = extract_scores(&lines).unwrap();
    assert_eq!(scores[0], [50339, 50796, 70859]);
    assert_eq!(scores[1], [0, 168009, 128450]);
    assert_eq!(scores[2], [122130, 0, 96776]);
}

#[test]
fn test_extract_scores_pass3_dropped_dashes() {
    // OCR completely drops the dash characters, leaving only 1-2 words
    let lines = vec![
        make_line(&["50339", "50796", "70859"], 90),
        make_line(&["64997", "168009", "128450"], 90),
        make_line(&["122130", "96776"], 90), // Only 2 words, dash dropped
    ];

    let scores = extract_scores(&lines).unwrap();
    assert_eq!(scores[0], [50339, 50796, 70859]);
    assert_eq!(scores[1], [64997, 168009, 128450]);
    // Dropped dash → remaining scores fill from position 0, rest padded with 0
    assert_eq!(scores[2], [122130, 96776, 0]);
}

#[test]
fn test_extract_scores_all_dashes_dropped() {
    // Worst case: one stage has all dashes dropped (empty line skipped)
    // The line with just 1 score word should be picked up in pass 3
    let lines = vec![
        make_line(&["50339", "50796", "70859"], 90),
        make_line(&["64997", "168009", "128450"], 90),
        make_line(&["96776"], 90), // Only 1 score word
    ];

    let scores = extract_scores(&lines).unwrap();
    assert_eq!(scores[0], [50339, 50796, 70859]);
    assert_eq!(scores[1], [64997, 168009, 128450]);
    assert_eq!(scores[2], [96776, 0, 0]);
}

#[test]
fn test_extract_scores_mixed_passes() {
    // Mix of normal, garbled, and dropped dashes across stages
    let lines = vec![
        make_line(&["noise"], 90),
        make_line(&["50339", "50796", "70859"], 90), // Pass 1
        make_line(&["I", "168009", "I"], 90),        // Pass 2 (garbled)
        make_line(&["96776"], 90),                   // Pass 3 (dropped)
    ];

    let scores = extract_scores(&lines).unwrap();
    assert_eq!(scores[0], [50339, 50796, 70859]);
    assert_eq!(scores[1], [0, 168009, 0]);
    assert_eq!(scores[2], [96776, 0, 0]);
}

#[test]
fn dash_characters_are_the_seven_listed() {
    for c in ['-', '—', '–', '―', '─', 'ー', '一'] {
        assert!(is_dash_char(c));
    }
    for c in ['_', '~', 'I', '1', ' ', '=', '−'] {
        assert!(!is_dash_char(c));
    }
}

#[test]
fn dash_like_takes_up_to_three_confusable_characters() {
    assert!(is_dash_like("-"));
    assert!(is_dash_like("~~~"));
    assert!(is_dash_like("=/\\"));
    assert!(is_dash_like("()"));
    assert!(is_dash_like("[]"));
    assert!(is_dash_like("ーI—"));
    assert!(!is_dash_like("IIII"));
    assert!(!is_dash_like("I1"));
    assert!(!is_dash_like(" "));
}

#[test]
fn parse_score_reports_each_error() {
    assert_eq!(parse_score("abc"), Err(ExtractError::NoDigits));
    assert_eq!(parse_score(","), Err(ExtractError::NoDigits));
    assert_eq!(parse_score("-,-"), Err(ExtractError::NoDigits));
    assert_eq!(parse_score("4294967296"), Err(ExtractError::Overflow));
    assert_eq!(parse_score("99999999999999999999999999"), Err(ExtractError::Overflow));
    assert_eq!(parse_score("4294967295"), Ok(4294967295));
    assert_eq!(parse_score("4,294,967,295"), Ok(4294967295));
    assert_eq!(parse_score("0000000000000000000000123"), Ok(123));
    assert_eq!(parse_score(""), Ok(0));
    assert_eq!(parse_score("1-2"), Ok(12));
}

#[test]
fn commas_do_not_change_the_number() {
    for text in ["50,339", "1,234,567", ",5", "5,", "1,,2", "12,345.678"] {
        let stripped: String = text.chars().filter(|c| *c != ',').collect();
        assert_eq!(parse_score(text), parse_score(&stripped));
    }
    assert_eq!(parse_score("50,339"), Ok(50339));
    assert_eq!(parse_score("50339"), Ok(50339));
}

#[test]
fn score_pattern_tells_score_like_tokens() {
    let pattern = ScorePattern::new().unwrap();
    for text in ["0", "12345", "12,345", "1,234,567", "12.345", "1.2,3", "--", "—", "ー一–―─-"] {
        assert!(pattern.is_score_like(text), "{}", text);
    }
    for text in ["", "12a", "a12", "1,", ",1", "1,,2", "-1", "1-", "I", "total:", "12 34", "12\n"] {
        assert!(!pattern.is_score_like(text), "{}", text);
    }
}

#[test]
fn classify_keeps_words_and_marks_them() {
    let pattern = ScorePattern::new().unwrap();
    let lines = vec![make_line(&["total:", "500,000", "I", "ー"], 73), make_line(&[], 0)];
    let out = classify(&pattern, &lines);
    assert_eq!(
        out,
        vec![
            TokenLine {
                tokens: vec![
                    token("total:", false),
                    token("500,000", true),
                    token("I", false),
                    token("ー", true),
                ],
                confidence: 73 * CONFIDENCE_UNIT,
            },
            TokenLine { tokens: vec![], confidence: 0 },
        ]
    );
}

#[test]
fn fewer_than_three_rows_is_an_error_with_their_number() {
    assert_eq!(extract_scores(&[]), Err(ExtractError::MissingStages(0)));
    let lines = vec![
        make_line(&["50339", "50796", "70859"], 90),
        make_line(&["noise"], 90),
        make_line(&["1", "2", "3", "4"], 90),
    ];
    assert_eq!(extract_scores(&lines), Err(ExtractError::MissingStages(1)));
    let lines = vec![
        make_line(&["50339", "50796", "70859"], 60),
        make_line(&["50339", "50796", "70859"], 59),
        make_line(&["I", "l", "|"], 90),
    ];
    assert_eq!(extract_scores(&lines), Err(ExtractError::MissingStages(2)));
}

#[test]
fn a_consumed_line_with_an_unreadable_number_fails_the_frame() {
    let lines = vec![
        make_line(&["50339", "50796", "70859"], 90),
        make_line(&["64997", "99999999999", "128450"], 90),
        make_line(&["122130", "105901", "96776"], 90),
    ];
    assert_eq!(extract_scores(&lines), Err(ExtractError::Overflow));
    // a token that the pattern takes for a number although it holds no ASCII digit
    let lines = vec![make_line(&["１２３", "50796", "70859"], 90)];
    assert_eq!(extract_scores(&lines), Err(ExtractError::NoDigits));
    assert_eq!(extract_single_stage(&lines), Err(ExtractError::NoDigits));
}

#[test]
fn rows_come_in_the_order_of_the_passes() {
    let lines = vec![
        make_line(&["I", "168009", "128450"], 90),
        make_line(&["50339", "50796", "70859"], 90),
        make_line(&["122130", "105901", "96776"], 90),
    ];
    assert_eq!(
        extract_scores(&lines),
        Ok([[50339, 50796, 70859], [122130, 105901, 96776], [0, 168009, 128450]])
    );
}

#[test]
fn the_third_pass_looks_only_after_the_last_matched_line() {
    // the partial line stands before the matched ones: it is not taken
    let lines = vec![
        make_line(&["96776"], 90),
        make_line(&["50339", "50796", "70859"], 90),
        make_line(&["64997", "168009", "128450"], 90),
    ];
    assert_eq!(extract_scores(&lines), Err(ExtractError::MissingStages(2)));
    // with nothing matched before, the third pass starts at the first line
    let lines = vec![
        make_line(&["1"], 90),
        make_line(&["2", "3"], 90),
        make_line(&["x", "4", "y"], 90),
        make_line(&["5"], 90),
    ];
    assert_eq!(extract_scores(&lines), Ok([[1, 0, 0], [2, 3, 0], [4, 0, 0]]));
}

#[test]
fn the_second_pass_wants_exactly_three_tokens() {
    let lines = vec![
        make_line(&["50339", "50796", "70859"], 90),
        make_line(&["64997", "168009", "128450"], 90),
        make_line(&["I", "105901", "l", "|"], 90),
    ];
    // four slots: not a row of the second pass; one number: a partial row of the third
    assert_eq!(
        extract_scores(&lines),
        Ok([[50339, 50796, 70859], [64997, 168009, 128450], [105901, 0, 0]])
    );
}

#[test]
fn tokens_decide_without_the_pattern() {
    let line = |texts: &[(&str, bool)], confidence: u32| TokenLine {
        tokens: texts.iter().map(|(t, s)| token(t, *s)).collect(),
        confidence,
    };
    let lines = vec![
        line(&[("7", true), ("8", true), ("9", true)], MIN_CONFIDENCE),
        line(&[("10", false), ("11", true), ("~", false), ("=", false)], u32::MAX),
        line(&[("x", false), ("12", true)], MIN_CONFIDENCE + 1),
    ];
    assert_eq!(scores_from_tokens(&lines), Ok([[7, 8, 9], [11, 0, 0], [12, 0, 0]]));
    assert_eq!(single_stage_from_tokens(&lines), Err(ExtractError::NoScores));
    let lines = vec![
        line(&[("99", true), ("100", true)], 0),
        line(&[("250", false), ("1,000", true)], 0),
        line(&[("2000", true), ("3000", true)], 0),
    ];
    assert_eq!(single_stage_from_tokens(&lines), Ok([100, 1000, 2000]));
}
