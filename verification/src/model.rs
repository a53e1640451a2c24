//! The canonical lyric model: a document is a sequence of lines, a line holds
//! tracks, a track holds words, a word holds syllables.

use crate::text::{trim, trimmed};
use vstd::prelude::*;

verus! {

/// The role a track plays within its line.
#[derive(Debug, Clone, Copy, PartialEq, Eq, Hash, Structural)]
pub enum ContentType {
    Main,
    Translation,
    Romanization,
    Background,
}

impl Default for ContentType {
    fn default() -> (r: Self)
        ensures
            r == ContentType::Main,
    {
        ContentType::Main
    }
}

/// One syllable of a word. Times are milliseconds from the start of the song.
#[derive(Debug, Clone, PartialEq, Eq)]
pub struct LyricSyllable {
    pub text: String,
    pub start_time: Option<u64>,
    pub end_time: Option<u64>,
    /// A space stands before this syllable when the line is written out.
    pub leading_space: bool,
}

impl LyricSyllable {
    /// Whether the syllable carries both of its times.
    pub open spec fn is_timed(&self) -> bool {
        self.start_time is Some && self.end_time is Some
    }

    /// A timed syllable does not end before it starts.
    pub open spec fn wf(&self) -> bool {
        self.is_timed() ==> self.start_time->0 <= self.end_time->0
    }

    /// What the syllable adds to the text of its track.
    pub open spec fn piece(&self) -> Seq<char> {
        if self.leading_space {
            seq![' '] + self.text@
        } else {
            self.text@
        }
    }
}

impl Default for LyricSyllable {
    fn default() -> (r: Self)
        ensures
            r.text@ == Seq::<char>::empty(),
            r.start_time is None,
            r.end_time is None,
            !r.leading_space,
            r.wf(),
    {
        LyricSyllable { text: String::new(), start_time: None, end_time: None, leading_space: false }
    }
}

/// A word: its syllables in the order in which they are sung.
#[derive(Debug, Clone, PartialEq, Eq)]
pub struct Word {
    pub syllables: Vec<LyricSyllable>,
}

impl Word {
    /// Every syllable is well formed, and of two timed syllables the earlier
    /// one has ended when the later one starts.
    pub open spec fn wf(&self) -> bool {
        &&& forall|i: int| 0 <= i < self.syllables@.len() ==> (#[trigger] self.syllables@[i]).wf()
        &&& forall|i: int, j: int|
            0 <= i < j < self.syllables@.len() && (#[trigger] self.syllables@[i]).is_timed() && (
            #[trigger] self.syllables@[j]).is_timed() ==> self.syllables@[i].end_time->0
                <= self.syllables@[j].start_time->0
    }

    /// The start of the first timed syllable at or after position `from`.
    pub open spec fn first_start(&self, from: int) -> Option<u64>
        decreases self.syllables@.len() - from,
    {
        if from < 0 || from >= self.syllables@.len() {
            None
        } else if self.syllables@[from].is_timed() {
            self.syllables@[from].start_time
        } else {
            self.first_start(from + 1)
        }
    }
}

impl Default for Word {
    fn default() -> (r: Self)
        ensures
            r.syllables@.len() == 0,
            r.wf(),
    {
        Word { syllables: Vec::new() }
    }
}

/// The text of a run of syllables.
pub open spec fn syllables_text(syllables: Seq<LyricSyllable>) -> Seq<char>
    decreases syllables.len(),
{
    if syllables.len() == 0 {
        Seq::empty()
    } else {
        syllables_text(syllables.drop_last()) + syllables.last().piece()
    }
}

/// The text of a run of words: that of all their syllables, one after another.
pub open spec fn words_text(words: Seq<Word>) -> Seq<char>
    decreases words.len(),
{
    if words.len() == 0 {
        Seq::empty()
    } else {
        words_text(words.drop_last()) + syllables_text(words.last().syllables@)
    }
}

/// A track: its words in the order in which they are sung.
#[derive(Debug, Clone, PartialEq, Eq)]
pub struct LyricTrack {
    pub words: Vec<Word>,
}

impl LyricTrack {
    /// Every word is well formed, and the words start in non-decreasing order.
    pub open spec fn wf(&self) -> bool {
        &&& forall|i: int| 0 <= i < self.words@.len() ==> (#[trigger] self.words@[i]).wf()
        &&& forall|i: int, j: int|
            0 <= i < j < self.words@.len() && (#[trigger] self.words@[i]).first_start(0) is Some
                && (#[trigger] self.words@[j]).first_start(0) is Some ==> self.words@[i].first_start(
                0,
            )->0 <= self.words@[j].first_start(0)->0
    }

    /// The text of the track: its syllables joined, without white space at
    /// either end.
    pub open spec fn spec_text(&self) -> Seq<char> {
        trim(words_text(self.words@))
    }

    /// The text of the track as a string.
    pub fn text(&self) -> (s: String)
        ensures
            s@ == self.spec_text(),
    {
        let mut raw = String::new();
        let mut i: usize = 0;
        while i < self.words.len()
            invariant
                i <= self.words@.len(),
                raw@ == words_text(self.words@.take(i as int)),
            decreases self.words@.len() - i,
        {
            let word = &self.words[i];
            let ghost before = raw@;
            let mut j: usize = 0;
            while j < word.syllables.len()
                invariant
                    j <= word.syllables@.len(),
                    raw@ == before + syllables_text(word.syllables@.take(j as int)),
                decreases word.syllables@.len() - j,
            {
                let syllable = &word.syllables[j];
                if syllable.leading_space {
                    proof {
                        reveal_strlit(" ");
                    }
                    raw.append(" ");
                    assert(" "@ =~= seq![' ']);
                }
                raw.append(syllable.text.as_str());
                proof {
                    let next = word.syllables@.take(j + 1);
                    assert(next.drop_last() =~= word.syllables@.take(j as int));
                    assert(next.last() == *syllable);
                    assert(raw@ =~= before + syllables_text(next));
                }
                j += 1;
            }
            proof {
                assert(word.syllables@.take(j as int) =~= word.syllables@);
                let next = self.words@.take(i + 1);
                assert(next.drop_last() =~= self.words@.take(i as int));
                assert(next.last() == *word);
            }
            i += 1;
        }
        proof {
            assert(self.words@.take(i as int) =~= self.words@);
        }
        trimmed(raw.as_str())
    }
}

impl Default for LyricTrack {
    fn default() -> (r: Self)
        ensures
            r.words@.len() == 0,
            r.wf(),
    {
        LyricTrack { words: Vec::new() }
    }
}

/// A track together with the role it plays in its line.
#[derive(Debug, Clone, PartialEq, Eq)]
pub struct AnnotatedTrack {
    pub content_type: ContentType,
    pub content: LyricTrack,
}

impl Default for AnnotatedTrack {
    fn default() -> (r: Self)
        ensures
            r.content_type == ContentType::Main,
            r.content.words@.len() == 0,
            r.content.wf(),
    {
        AnnotatedTrack { content_type: ContentType::Main, content: LyricTrack { words: Vec::new() } }
    }
}

/// The position of the first track of the given role, or `tracks.len()`
/// where there is none.
pub open spec fn first_track_of(tracks: Seq<AnnotatedTrack>, content_type: ContentType) -> nat
    decreases tracks.len(),
{
    if tracks.len() == 0 {
        0
    } else if tracks[0].content_type == content_type {
        0
    } else {
        1 + first_track_of(tracks.drop_first(), content_type)
    }
}

/// The first track of a role is the one position `k` before which no track
/// has that role and at which one does, or the tracks end.
pub proof fn lemma_first_track_of(tracks: Seq<AnnotatedTrack>, content_type: ContentType, k: int)
    requires
        0 <= k <= tracks.len(),
        forall|i: int| 0 <= i < k ==> (#[trigger] tracks[i]).content_type != content_type,
        k < tracks.len() ==> tracks[k].content_type == content_type,
    ensures
        first_track_of(tracks, content_type) == k,
    decreases k,
{
    if k > 0 {
        let rest = tracks.drop_first();
        assert(tracks[0].content_type != content_type);
        assert forall|i: int| 0 <= i < k - 1 implies (#[trigger] rest[i]).content_type
            != content_type by {
            assert(rest[i] == tracks[i + 1]);
        }
        if k - 1 < rest.len() {
            assert(rest[k - 1] == tracks[k]);
        }
        lemma_first_track_of(rest, content_type, k - 1);
    }
}

/// One line of a lyric document. Times are milliseconds from the start of
/// the song.
#[derive(Debug, Clone, PartialEq, Eq)]
pub struct LyricLine {
    pub start_time: u64,
    pub end_time: u64,
    pub tracks: Vec<AnnotatedTrack>,
}

impl LyricLine {
    /// The line does not end before it starts, and its tracks are well formed.
    pub open spec fn wf(&self) -> bool {
        &&& self.start_time <= self.end_time
        &&& forall|i: int| 0 <= i < self.tracks@.len() ==> (#[trigger] self.tracks@[i]).content.wf()
    }

    /// The first track that holds the main vocal, if the line has one.
    pub open spec fn spec_main_track(&self) -> Option<AnnotatedTrack> {
        let k = first_track_of(self.tracks@, ContentType::Main);
        if k < self.tracks@.len() {
            Some(self.tracks@[k as int])
        } else {
            None
        }
    }

    /// The text of the main vocal, if the line has one.
    pub open spec fn spec_main_text(&self) -> Option<Seq<char>> {
        match self.spec_main_track() {
            Some(track) => Some(track.content.spec_text()),
            None => None,
        }
    }

    /// A line with the given times and no track.
    pub fn new(start_time: u64, end_time: u64) -> (line: Self)
        ensures
            line.start_time == start_time,
            line.end_time == end_time,
            line.tracks@.len() == 0,
            line.wf() <==> start_time <= end_time,
    {
        LyricLine { start_time, end_time, tracks: Vec::new() }
    }

    /// Adds `track` behind the tracks that the line already holds.
    pub fn add_track(&mut self, track: AnnotatedTrack)
        ensures
            final(self).tracks@ == old(self).tracks@.push(track),
            final(self).start_time == old(self).start_time,
            final(self).end_time == old(self).end_time,
            old(self).wf() && track.content.wf() ==> final(self).wf(),
    {
        self.tracks.push(track);
    }

    /// The first track that holds the main vocal, if the line has one.
    pub fn main_track(&self) -> (r: Option<&AnnotatedTrack>)
        ensures
            match r {
                Some(track) => self.spec_main_track() == Some(*track),
                None => self.spec_main_track() is None,
            },
    {
        let mut i: usize = 0;
        while i < self.tracks.len()
            invariant
                i <= self.tracks@.len(),
                forall|j: int|
                    0 <= j < i ==> (#[trigger] self.tracks@[j]).content_type != ContentType::Main,
            decreases self.tracks@.len() - i,
        {
            if self.tracks[i].content_type == ContentType::Main {
                proof {
                    lemma_first_track_of(self.tracks@, ContentType::Main, i as int);
                }
                return Some(&self.tracks[i]);
            }
            i += 1;
        }
        proof {
            lemma_first_track_of(self.tracks@, ContentType::Main, i as int);
        }
        None
    }

    /// The text of the main vocal, if the line has one.
    pub fn main_text(&self) -> (r: Option<String>)
        ensures
            match r {
                Some(s) => self.spec_main_text() == Some(s@),
                None => self.spec_main_text() is None,
            },
    {
        match self.main_track() {
            Some(track) => Some(track.content.text()),
            None => None,
        }
    }
}

impl Default for LyricLine {
    fn default() -> (r: Self)
        ensures
            r.start_time == 0,
            r.end_time == 0,
            r.tracks@.len() == 0,
            r.wf(),
    {
        LyricLine { start_time: 0, end_time: 0, tracks: Vec::new() }
    }
}

/// Every line is well formed, the lines start in non-decreasing order, and
/// of two lines the earlier one has ended when the later one starts.
pub open spec fn document_wf(lines: Seq<LyricLine>) -> bool {
    &&& forall|i: int| 0 <= i < lines.len() ==> (#[trigger] lines[i]).wf()
    &&& forall|i: int, j: int|
        0 <= i < j < lines.len() ==> (#[trigger] lines[i]).start_time <= (
        #[trigger] lines[j]).start_time && lines[i].end_time <= lines[j].start_time
}

} // verus!
