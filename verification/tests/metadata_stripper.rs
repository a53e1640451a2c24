use lyrics_helper::model::{AnnotatedTrack, ContentType, LyricLine, LyricSyllable, LyricTrack, Word};
use lyrics_helper::options::{MetadataStripperFlags, MetadataStripperOptions, ScanLimitConfig};
use lyrics_helper::stripper::strip_descriptive_metadata_lines;

fn create_test_lines(texts: &[&str]) -> Vec<LyricLine> {
    texts
        .iter()
        .enumerate()
        .map(|(i, &text)| {
            let mut line = LyricLine::new(i as u64 * 1000, i as u64 * 1000 + 1000);

            let syllable = LyricSyllable {
                text: text.to_string(),
                ..Default::default()
            };
            let track = AnnotatedTrack {
                content_type: ContentType::Main,
                content: LyricTrack {
                    words: vec![Word {
                        syllables: vec![syllable],
                        ..Default::default()
                    }],
                    ..Default::default()
                },
                ..Default::default()
            };
            line.add_track(track);
            line
        })
        .collect()
}

fn lines_to_texts(lines: &[LyricLine]) -> Vec<String> {
    lines
        .iter()
        .map(|line| line.main_text().unwrap_or_default())
        .collect()
}

fn enabled() -> MetadataStripperFlags {
    MetadataStripperFlags {
        enabled: true,
        ..MetadataStripperFlags::empty()
    }
}

#[test]
fn test_stripper_disabled() {
    let mut lines = create_test_lines(&["Artist: Me", "Lyric line"]);
    let options = MetadataStripperOptions {
        flags: MetadataStripperFlags::empty(),
        keywords: vec!["Artist".to_string()],
        ..Default::default()
    };

    strip_descriptive_metadata_lines(&mut lines, &options);

    assert_eq!(lines_to_texts(&lines), vec!["Artist: Me", "Lyric line"]);
}

#[test]
fn test_no_rules_does_nothing() {
    let mut lines = create_test_lines(&["Artist: Me", "Lyric line"]);
    let options = MetadataStripperOptions {
        flags: enabled(),
        keywords: Vec::new(),
        regex_patterns: Vec::new(),
        ..Default::default()
    };

    strip_descriptive_metadata_lines(&mut lines, &options);
    assert_eq!(lines_to_texts(&lines), vec!["Artist: Me", "Lyric line"]);
}

#[test]
fn test_strip_header_keywords_basic() {
    let mut lines = create_test_lines(&["Artist: A", "Album: B", "Lyric 1", "Lyric 2"]);
    let options = MetadataStripperOptions {
        flags: enabled(),
        keywords: vec!["Artist".to_string(), "Album".to_string()],
        ..Default::default()
    };

    strip_descriptive_metadata_lines(&mut lines, &options);
    assert_eq!(lines_to_texts(&lines), vec!["Lyric 1", "Lyric 2"]);
}

#[test]
fn test_keyword_case_insensitivity() {
    let mut lines = create_test_lines(&["artist: A", "Lyric 1"]);
    let options = MetadataStripperOptions {
        flags: enabled(),
        keywords: vec!["Artist".to_string()],
        ..Default::default()
    };

    strip_descriptive_metadata_lines(&mut lines, &options);
    assert_eq!(lines_to_texts(&lines), vec!["Lyric 1"]);
}

#[test]
fn test_keywords_with_lrc_tags_and_whitespace() {
    let mut lines = create_test_lines(&["[ti:Title]", "[00:01.00] Artist : A", "Lyric 1"]);
    let options = MetadataStripperOptions {
        flags: enabled(),
        keywords: vec!["ti".to_string(), "Artist".to_string()],
        ..Default::default()
    };

    strip_descriptive_metadata_lines(&mut lines, &options);
    assert_eq!(lines_to_texts(&lines), vec!["Lyric 1"]);
}

#[test]
fn test_keywords_with_full_width_colon() {
    let mut lines = create_test_lines(&["作曲：某人", "Lyric 1"]);
    let options = MetadataStripperOptions {
        flags: enabled(),
        keywords: vec!["作曲".to_string()],
        ..Default::default()
    };

    strip_descriptive_metadata_lines(&mut lines, &options);
    assert_eq!(lines_to_texts(&lines), vec!["Lyric 1"]);
}

#[test]
fn test_regex_case_sensitivity() {
    let mut lines = create_test_lines(&["NOTE: important", "note: less important", "Lyric 1"]);
    let options = MetadataStripperOptions {
        flags: MetadataStripperFlags {
            enabled: true,
            enable_regex_stripping: true,
            regex_case_sensitive: true,
            ..MetadataStripperFlags::empty()
        },
        regex_patterns: vec![r"^NOTE:".to_string()],
        ..Default::default()
    };

    strip_descriptive_metadata_lines(&mut lines, &options);
    assert_eq!(
        lines_to_texts(&lines),
        vec!["note: less important", "Lyric 1"]
    );
}

#[test]
fn test_all_lines_are_metadata() {
    let mut lines = create_test_lines(&["Artist: A", "Album: B", "Source: Web"]);
    let options = MetadataStripperOptions {
        flags: enabled(),
        keywords: vec![
            "Artist".to_string(),
            "Album".to_string(),
            "Source".to_string(),
        ],
        ..Default::default()
    };

    strip_descriptive_metadata_lines(&mut lines, &options);
    assert!(lines.is_empty(), "Expected lines to be empty");
}

#[test]
fn test_empty_input_vec() {
    let mut lines = create_test_lines(&[]);
    let options = MetadataStripperOptions {
        flags: enabled(),
        keywords: vec!["Artist".to_string()],
        ..Default::default()
    };

    strip_descriptive_metadata_lines(&mut lines, &options);
    assert!(lines.is_empty());
}

fn keyword_options(keywords: &[&str]) -> MetadataStripperOptions {
    MetadataStripperOptions {
        flags: enabled(),
        keywords: keywords.iter().map(|k| k.to_string()).collect(),
        ..Default::default()
    }
}

fn strip(texts: &[&str], options: &MetadataStripperOptions) -> Vec<String> {
    let mut lines = create_test_lines(texts);
    strip_descriptive_metadata_lines(&mut lines, options);
    lines_to_texts(&lines)
}

#[test]
fn keyword_case_sensitive_keeps_other_case() {
    let options = MetadataStripperOptions {
        flags: MetadataStripperFlags {
            enabled: true,
            keyword_case_sensitive: true,
            ..MetadataStripperFlags::empty()
        },
        keywords: vec!["Artist".to_string()],
        ..Default::default()
    };
    assert_eq!(strip(&["artist: A", "Lyric 1"], &options), vec!["artist: A", "Lyric 1"]);
    assert_eq!(strip(&["Artist: A", "Lyric 1"], &options), vec!["Lyric 1"]);
}

#[test]
fn keyword_without_colon_is_no_metadata() {
    let options = keyword_options(&["Artist"]);
    assert_eq!(
        strip(&["Artist of the year", "Lyric 1"], &options),
        vec!["Artist of the year", "Lyric 1"]
    );
    assert_eq!(strip(&["Artist", "Lyric 1"], &options), vec!["Artist", "Lyric 1"]);
}

fn limited_options(keywords: &[&str], header: usize, footer: usize) -> MetadataStripperOptions {
    MetadataStripperOptions {
        header_scan_limit: ScanLimitConfig { ratio_per_mille: 0, min_lines: header, max_lines: header },
        footer_scan_limit: ScanLimitConfig { ratio_per_mille: 0, min_lines: footer, max_lines: footer },
        ..keyword_options(keywords)
    }
}

#[test]
fn footer_is_cut_at_first_match() {
    let options = limited_options(&["Artist", "Source", "Album"], 2, 3);
    assert_eq!(
        strip(
            &["Artist: A", "Lyric 1", "Lyric 2", "Source: Web", "thanks", "Album: B"],
            &options
        ),
        vec!["Lyric 1", "Lyric 2"]
    );
}

#[test]
fn footer_match_within_the_header_limit_empties_the_document() {
    let options = keyword_options(&["Source", "Album"]);
    assert_eq!(
        strip(&["Lyric 1", "Lyric 2", "Source: Web", "thanks", "Album: B"], &options),
        Vec::<String>::new()
    );
}

#[test]
fn long_document_loses_head_and_tail_with_default_limits() {
    let mut texts: Vec<String> = vec!["Artist: A".to_string(), "Album: B".to_string()];
    for i in 0..46 {
        texts.push(format!("Lyric {i}"));
    }
    texts[25] = "Artist: in the middle".to_string();
    texts.push("Source: Web".to_string());
    texts.push("the end".to_string());
    let refs: Vec<&str> = texts.iter().map(|t| t.as_str()).collect();
    let kept = strip(&refs, &keyword_options(&["Artist", "Album", "Source"]));
    assert_eq!(kept.len(), 46);
    assert_eq!(kept[0], "Lyric 0");
    assert_eq!(kept[23], "Artist: in the middle");
    assert_eq!(kept[45], "Lyric 45");
}

#[test]
fn line_between_header_matches_goes_too() {
    let options = keyword_options(&["Artist", "Album"]);
    assert_eq!(
        strip(&["Artist: A", "some note", "Album: B", "Lyric 1", "Lyric 2"], &options),
        vec!["Lyric 1", "Lyric 2"]
    );
}

#[test]
fn interior_match_stays_outside_the_limits() {
    let limit = ScanLimitConfig { ratio_per_mille: 0, min_lines: 1, max_lines: 1 };
    let options = MetadataStripperOptions {
        flags: enabled(),
        keywords: vec!["Artist".to_string()],
        header_scan_limit: limit,
        footer_scan_limit: limit,
        ..Default::default()
    };
    assert_eq!(
        strip(&["Artist: A", "Lyric 1", "Artist: B", "Lyric 2", "Artist: C"], &options),
        vec!["Lyric 1", "Artist: B", "Lyric 2"]
    );
}

#[test]
fn second_run_may_take_more_off() {
    let limit = ScanLimitConfig { ratio_per_mille: 0, min_lines: 1, max_lines: 1 };
    let options = MetadataStripperOptions {
        flags: enabled(),
        keywords: vec!["Artist".to_string()],
        header_scan_limit: limit,
        footer_scan_limit: limit,
        ..Default::default()
    };
    let mut lines = create_test_lines(&["Artist: A", "Artist: B", "Lyric"]);
    strip_descriptive_metadata_lines(&mut lines, &options);
    assert_eq!(lines_to_texts(&lines), vec!["Artist: B", "Lyric"]);
    strip_descriptive_metadata_lines(&mut lines, &options);
    assert_eq!(lines_to_texts(&lines), vec!["Lyric"]);
    strip_descriptive_metadata_lines(&mut lines, &options);
    assert_eq!(lines_to_texts(&lines), vec!["Lyric"]);
}

#[test]
fn stripping_twice_is_stripping_once_on_short_documents() {
    let options = keyword_options(&["Artist", "Album", "Source"]);
    let mut lines = create_test_lines(&["Artist: A", "note", "Album: B", "Lyric 1", "Lyric 2"]);
    strip_descriptive_metadata_lines(&mut lines, &options);
    let once = lines_to_texts(&lines);
    assert_eq!(once, vec!["Lyric 1", "Lyric 2"]);
    strip_descriptive_metadata_lines(&mut lines, &options);
    assert_eq!(lines_to_texts(&lines), once);
}

#[test]
fn all_metadata_beyond_the_limits_stays() {
    let limit = ScanLimitConfig { ratio_per_mille: 0, min_lines: 1, max_lines: 1 };
    let options = MetadataStripperOptions {
        flags: enabled(),
        keywords: vec!["Artist".to_string()],
        header_scan_limit: limit,
        footer_scan_limit: limit,
        ..Default::default()
    };
    assert_eq!(
        strip(&["Artist: A", "Artist: B", "Artist: C"], &options),
        vec!["Artist: B"]
    );
    assert_eq!(strip(&["Artist: A", "Artist: B"], &options), Vec::<String>::new());
}

#[test]
fn disabled_keeps_every_line_whatever_the_rules() {
    let options = MetadataStripperOptions {
        flags: MetadataStripperFlags {
            enabled: false,
            enable_regex_stripping: true,
            ..MetadataStripperFlags::empty()
        },
        keywords: vec!["Artist".to_string()],
        regex_patterns: vec![".*".to_string()],
        ..Default::default()
    };
    assert_eq!(strip(&["Artist: A", "Lyric"], &options), vec!["Artist: A", "Lyric"]);
}

#[test]
fn empty_document_stays_empty_with_defaults() {
    let options = MetadataStripperOptions::default();
    assert_eq!(strip(&[], &options), Vec::<String>::new());
}

#[test]
fn round_brackets_are_taken_off() {
    let options = keyword_options(&["Artist"]);
    assert_eq!(strip(&["(Artist: A)", "Lyric 1"], &options), vec!["Lyric 1"]);
    assert_eq!(strip(&["(bg) Artist: A", "Lyric 1"], &options), vec!["Lyric 1"]);
    assert_eq!(strip(&["(Artist: A", "Lyric 1"], &options), vec!["(Artist: A", "Lyric 1"]);
    assert_eq!(strip(&["[Artist: A", "Lyric 1"], &options), vec!["[Artist: A", "Lyric 1"]);
}

#[test]
fn white_space_before_the_colon_is_skipped() {
    let options = keyword_options(&["Artist"]);
    assert_eq!(strip(&["Artist \t\u{3000}: A", "Lyric 1"], &options), vec!["Lyric 1"]);
    assert_eq!(strip(&["Artist - : A", "Lyric 1"], &options), vec!["Artist - : A", "Lyric 1"]);
}

#[test]
fn regex_is_run_on_the_line_as_it_stands() {
    let options = MetadataStripperOptions {
        flags: MetadataStripperFlags {
            enabled: true,
            enable_regex_stripping: true,
            regex_case_sensitive: true,
            ..MetadataStripperFlags::empty()
        },
        regex_patterns: vec![r"^\[note\]".to_string()],
        ..Default::default()
    };
    assert_eq!(strip(&["[note] x", "Lyric 1"], &options), vec!["Lyric 1"]);
}

#[test]
fn regex_ignores_case_by_default() {
    let options = MetadataStripperOptions {
        flags: MetadataStripperFlags::default(),
        regex_patterns: vec![r"^NOTE:".to_string()],
        ..Default::default()
    };
    assert_eq!(
        strip(&["NOTE: important", "note: less important", "Lyric 1"], &options),
        vec!["Lyric 1"]
    );
}

#[test]
fn regex_switch_off_leaves_patterns_unused() {
    let options = MetadataStripperOptions {
        flags: enabled(),
        regex_patterns: vec![r"^NOTE:".to_string()],
        ..Default::default()
    };
    assert_eq!(
        strip(&["NOTE: important", "Lyric 1"], &options),
        vec!["NOTE: important", "Lyric 1"]
    );
}

#[test]
fn malformed_and_blank_patterns_are_left_out() {
    let options = MetadataStripperOptions {
        flags: MetadataStripperFlags::default(),
        regex_patterns: vec!["foo(bar".to_string(), "   ".to_string(), "^Source".to_string()],
        ..Default::default()
    };
    let one = ScanLimitConfig { ratio_per_mille: 0, min_lines: 1, max_lines: 1 };
    let options = MetadataStripperOptions { header_scan_limit: one, footer_scan_limit: one, ..options };
    assert_eq!(
        strip(&["Lyric 1", "foo(bar", "Source: Web"], &options),
        vec!["Lyric 1", "foo(bar"]
    );
}

#[test]
fn only_malformed_patterns_mean_no_rules() {
    let options = MetadataStripperOptions {
        flags: MetadataStripperFlags::default(),
        regex_patterns: vec!["foo(bar".to_string()],
        ..Default::default()
    };
    assert_eq!(strip(&["foo(bar", "Lyric 1"], &options), vec!["foo(bar", "Lyric 1"]);
}

#[test]
fn built_in_rules_apply_where_none_are_given() {
    let options = MetadataStripperOptions::default();
    assert_eq!(
        strip(&["作词：某人", "作曲 : 某人", "produced BY: X", "Lyric 1", "Lyric 2"], &options),
        vec!["Lyric 1", "Lyric 2"]
    );
}

#[test]
fn line_without_main_track_has_empty_text() {
    let options = keyword_options(&[""]);
    let mut lines = vec![LyricLine::new(0, 10)];
    lines.push(create_test_lines(&[": x"]).remove(0));
    lines.push(create_test_lines(&["Lyric"]).remove(0));
    strip_descriptive_metadata_lines(&mut lines, &options);
    assert_eq!(lines_to_texts(&lines), vec!["Lyric"]);
}
