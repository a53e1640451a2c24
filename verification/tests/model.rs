use lyrics_helper::model::{AnnotatedTrack, ContentType, LyricLine, LyricSyllable, LyricTrack, Word};
use lyrics_helper::stripper::get_text;

fn syllable(text: &str, leading_space: bool) -> LyricSyllable {
    LyricSyllable { text: text.to_string(), start_time: None, end_time: None, leading_space }
}

fn track(content_type: ContentType, words: Vec<Vec<LyricSyllable>>) -> AnnotatedTrack {
    AnnotatedTrack {
        content_type,
        content: LyricTrack { words: words.into_iter().map(|syllables| Word { syllables }).collect() },
    }
}

#[test]
fn track_text_joins_syllables_and_trims() {
    let t = track(
        ContentType::Main,
        vec![
            vec![syllable("Hel", true), syllable("lo", false)],
            vec![syllable("world ", true)],
        ],
    );
    assert_eq!(t.content.text(), "Hello world");
}

#[test]
fn empty_track_has_empty_text() {
    assert_eq!(LyricTrack::default().text(), "");
    assert_eq!(track(ContentType::Main, vec![vec![]]).content.text(), "");
}

#[test]
fn main_text_is_that_of_the_first_main_track() {
    let mut line = LyricLine::new(5, 9);
    assert_eq!(line.main_text(), None);
    assert!(line.main_track().is_none());
    line.add_track(track(ContentType::Translation, vec![vec![syllable("你好", false)]]));
    assert_eq!(line.main_text(), None);
    assert_eq!(get_text(&line), "");
    line.add_track(track(ContentType::Main, vec![vec![syllable("one", false)]]));
    line.add_track(track(ContentType::Main, vec![vec![syllable("two", false)]]));
    assert_eq!(line.main_text(), Some("one".to_string()));
    assert_eq!(get_text(&line), "one");
    assert_eq!(line.main_track().unwrap().content_type, ContentType::Main);
    assert_eq!(line.tracks.len(), 3);
    assert_eq!((line.start_time, line.end_time), (5, 9));
}

#[test]
fn defaults_are_empty() {
    let s = LyricSyllable::default();
    assert_eq!(s, syllable("", false));
    assert_eq!(Word::default().syllables.len(), 0);
    assert_eq!(AnnotatedTrack::default().content_type, ContentType::Main);
    assert_eq!(ContentType::default(), ContentType::Main);
    let line = LyricLine::default();
    assert_eq!((line.start_time, line.end_time, line.tracks.len()), (0, 0, 0));
}
