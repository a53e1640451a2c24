use lyrics_helper::cache::RegexCache;
use lyrics_helper::model::{AnnotatedTrack, ContentType, LyricLine, LyricSyllable, LyricTrack, Word};
use lyrics_helper::options::{MetadataStripperFlags, MetadataStripperOptions, ScanLimitConfig};
use lyrics_helper::rules::StrippingRules;
use lyrics_helper::stripper::{
    find_first_flag, find_first_lyric_line_index, find_last_flag_end,
    find_last_lyric_line_exclusive_index, judge_lines, keep_between, prepare_rules,
    strip_descriptive_metadata_lines_cached, strip_with_rules,
};
use lyrics_helper::text::is_whitespace_char;

fn line(text: &str) -> LyricLine {
    let mut line = LyricLine::new(0, 1);
    line.add_track(AnnotatedTrack {
        content_type: ContentType::Main,
        content: LyricTrack {
            words: vec![Word {
                syllables: vec![LyricSyllable { text: text.to_string(), ..Default::default() }],
            }],
        },
    });
    line
}

fn lines(texts: &[&str]) -> Vec<LyricLine> {
    texts.iter().map(|t| line(t)).collect()
}

fn texts(lines: &[LyricLine]) -> Vec<String> {
    lines.iter().map(|l| l.main_text().unwrap_or_default()).collect()
}

fn artist_rules(cache: &mut RegexCache) -> StrippingRules {
    let options = MetadataStripperOptions {
        flags: MetadataStripperFlags { enabled: true, ..MetadataStripperFlags::empty() },
        keywords: vec!["Artist".to_string()],
        ..Default::default()
    };
    StrippingRules::new(&options, cache)
}

#[test]
fn white_space_is_what_std_calls_white_space() {
    let mut count = 0;
    for n in 0..=0x10ffffu32 {
        if let Some(c) = char::from_u32(n) {
            assert_eq!(is_whitespace_char(c), c.is_whitespace(), "U+{n:04X}");
            if c.is_whitespace() {
                count += 1;
            }
        }
    }
    assert_eq!(count, 25);
}

#[test]
fn last_flag_end_and_first_flag_on_given_flags() {
    assert_eq!(find_last_flag_end(&[]), 0);
    assert_eq!(find_last_flag_end(&[false, false]), 0);
    assert_eq!(find_last_flag_end(&[true, false, true, false]), 3);
    assert_eq!(find_last_flag_end(&[false, true]), 2);
    assert_eq!(find_first_flag(&[]), 0);
    assert_eq!(find_first_flag(&[false, false]), 2);
    assert_eq!(find_first_flag(&[false, true, true]), 1);
    assert_eq!(find_first_flag(&[true]), 0);
}

#[test]
fn keep_between_keeps_clears_or_leaves() {
    assert_eq!(keep_between(2, 5, 7), (2, 5));
    assert_eq!(keep_between(0, 7, 7), (0, 7));
    assert_eq!(keep_between(3, 3, 7), (0, 0));
    assert_eq!(keep_between(7, 7, 7), (0, 0));
    assert_eq!(keep_between(0, 0, 7), (0, 0));
    assert_eq!(keep_between(5, 2, 7), (0, 0));
    assert_eq!(keep_between(0, 0, 0), (0, 0));
}

#[test]
fn judge_lines_judges_each_line_of_the_window() {
    let mut cache = RegexCache::new();
    let rules = artist_rules(&mut cache);
    let doc = lines(&["Artist: A", "Lyric", "artist ： b", "Artist"]);
    assert_eq!(judge_lines(&doc, &rules), vec![true, false, true, false]);
    assert_eq!(judge_lines(&doc[1..3], &rules), vec![false, true]);
    assert_eq!(judge_lines(&doc[2..2], &rules), Vec::<bool>::new());
    assert!(rules.keyword_matches(&['a', 'r', 't', 'i', 's', 't', ':']));
    assert!(!rules.keyword_matches(&['A', 'r', 't', 'i', 's', 't', ':']));
    assert!(!rules.regex_matches("Artist: A"));
}

#[test]
fn header_cut_is_one_past_the_last_match_within_the_limit() {
    let mut cache = RegexCache::new();
    let rules = artist_rules(&mut cache);
    let doc = lines(&["Artist: A", "Lyric", "Artist: B", "Lyric", "Artist: C"]);
    assert_eq!(find_first_lyric_line_index(&doc, &rules, 0), 0);
    assert_eq!(find_first_lyric_line_index(&doc, &rules, 1), 1);
    assert_eq!(find_first_lyric_line_index(&doc, &rules, 2), 1);
    assert_eq!(find_first_lyric_line_index(&doc, &rules, 3), 3);
    assert_eq!(find_first_lyric_line_index(&doc, &rules, 4), 3);
    assert_eq!(find_first_lyric_line_index(&doc, &rules, 5), 5);
    assert_eq!(find_first_lyric_line_index(&doc, &rules, 500), 5);
    assert_eq!(find_first_lyric_line_index(&doc[1..2], &rules, 5), 0);
}

#[test]
fn footer_cut_is_the_first_match_within_the_limit() {
    let mut cache = RegexCache::new();
    let rules = artist_rules(&mut cache);
    let doc = lines(&["Artist: A", "Lyric", "Artist: B", "Lyric", "Artist: C"]);
    assert_eq!(find_last_lyric_line_exclusive_index(&doc, 0, &rules, 0), 5);
    assert_eq!(find_last_lyric_line_exclusive_index(&doc, 0, &rules, 1), 4);
    assert_eq!(find_last_lyric_line_exclusive_index(&doc, 0, &rules, 2), 4);
    assert_eq!(find_last_lyric_line_exclusive_index(&doc, 0, &rules, 3), 2);
    assert_eq!(find_last_lyric_line_exclusive_index(&doc, 3, &rules, 3), 4);
    assert_eq!(find_last_lyric_line_exclusive_index(&doc, 1, &rules, 500), 2);
    assert_eq!(find_last_lyric_line_exclusive_index(&doc, 0, &rules, 500), 0);
    assert_eq!(find_last_lyric_line_exclusive_index(&doc, 5, &rules, 3), 5);
    assert_eq!(find_last_lyric_line_exclusive_index(&doc, 9, &rules, 3), 9);
}

#[test]
fn prepared_rules_strip_without_the_cache() {
    let mut cache = RegexCache::new();
    let options = MetadataStripperOptions {
        flags: MetadataStripperFlags::default(),
        regex_patterns: vec!["^artist".to_string(), "foo(".to_string(), " ".to_string()],
        ..Default::default()
    };
    let rules = prepare_rules(&options, &mut cache);
    assert_eq!(cache.len(), 1);
    assert!(cache.contains("^artist", false));
    let one = ScanLimitConfig { ratio_per_mille: 0, min_lines: 1, max_lines: 1 };
    let mut doc = lines(&["Artist: A", "Lyric", "Artist: B"]);
    strip_with_rules(&mut doc, &rules, &one, &one);
    assert_eq!(texts(&doc), vec!["Lyric"]);
    let mut empty: Vec<LyricLine> = Vec::new();
    strip_with_rules(&mut empty, &rules, &one, &one);
    assert!(empty.is_empty());
}

#[test]
fn stripping_through_a_cache_fills_it_once() {
    let mut cache = RegexCache::new();
    let options = MetadataStripperOptions {
        flags: MetadataStripperFlags::default(),
        regex_patterns: vec!["^artist".to_string(), "^album".to_string(), "^artist".to_string()],
        ..Default::default()
    };
    let mut doc = lines(&["Artist: A", "Album: B", "Lyric"]);
    strip_descriptive_metadata_lines_cached(&mut doc, &options, &mut cache);
    assert_eq!(texts(&doc), vec!["Lyric"]);
    assert_eq!(cache.len(), 2);
    let mut doc = lines(&["ALBUM", "Lyric"]);
    strip_descriptive_metadata_lines_cached(&mut doc, &options, &mut cache);
    assert_eq!(texts(&doc), vec!["Lyric"]);
    assert_eq!(cache.len(), 2);
    let mut none: Vec<LyricLine> = Vec::new();
    let strict = MetadataStripperOptions {
        flags: MetadataStripperFlags { regex_case_sensitive: true, ..MetadataStripperFlags::default() },
        ..options.clone()
    };
    strip_descriptive_metadata_lines_cached(&mut none, &strict, &mut cache);
    assert_eq!(cache.len(), 4);
    let off = MetadataStripperOptions {
        flags: MetadataStripperFlags::empty(),
        regex_patterns: vec!["^never".to_string()],
        ..Default::default()
    };
    let mut doc = lines(&["never", "Lyric"]);
    strip_descriptive_metadata_lines_cached(&mut doc, &off, &mut cache);
    assert_eq!(texts(&doc), vec!["never", "Lyric"]);
    assert_eq!(cache.len(), 4);
}

#[test]
fn keywords_are_folded_as_std_folds_them() {
    let mut cache = RegexCache::new();
    let options = MetadataStripperOptions {
        flags: MetadataStripperFlags { enabled: true, ..MetadataStripperFlags::empty() },
        keywords: vec!["ÉCRIT PAR".to_string(), "ΣΟΦΟΣ".to_string()],
        ..Default::default()
    };
    let mut doc = lines(&["écrit par: x", "Σοφος : y", "Lyric", "ecrit par: z"]);
    strip_descriptive_metadata_lines_cached(&mut doc, &options, &mut cache);
    assert_eq!(texts(&doc), vec!["Lyric", "ecrit par: z"]);
}
