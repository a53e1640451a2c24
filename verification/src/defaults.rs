//! The rules that apply where the caller configures none: the credit lines
//! that lyric providers put before and after the sung text.

use vstd::prelude::*;

verus! {

/// The keywords of the built-in rule set.
pub const DEFAULT_KEYWORDS: [&'static str; 72] = [
    "作曲",
    "作词",
    "编曲",
    "演唱",
    "歌手",
    "歌名",
    "专辑",
    "发行",
    "出品",
    "监制",
    "录音",
    "混音",
    "母带",
    "吉他",
    "贝斯",
    "鼓",
    "键盘",
    "弦乐",
    "和声",
    "版权",
    "制作",
    "制作人",
    "原唱",
    "翻唱",
    "词",
    "曲",
    "发行人",
    "宣推",
    "录音师",
    "混音师",
    "母带工程师",
    "制作统筹",
    "艺术指导",
    "出品人",
    "出品公司",
    "联合出品",
    "发行方",
    "封面设计",
    "策划",
    "总策划",
    "鸣谢",
    "特别鸣谢",
    "Lyrics by",
    "Lyrics",
    "Lyricist",
    "Written by",
    "Words and Music by",
    "Composed by",
    "Composer",
    "Arranged by",
    "Arranger",
    "Produced by",
    "Producer",
    "Co-Producer",
    "Executive Producer",
    "Published by",
    "Publisher",
    "Vocals by",
    "Background Vocals by",
    "Backing Vocals",
    "Mixing Engineer",
    "Mixed by",
    "Mastering Engineer",
    "Mastered by",
    "Recording Engineer",
    "Recorded at",
    "Guitar",
    "Cover Design",
    "Presented by",
    "Distributed by",
    "Released by",
    "OP",
];

/// The regular expressions of the built-in rule set.
pub const DEFAULT_REGEX_PATTERNS: [&'static str; 5] = [
    "(?:【.*?未经.*?】|\\(.*?未经.*?\\)|「.*?未经.*?」|（.*?未经.*?）|『.*?未经.*?』)",
    "(?:【.*?音乐人.*?】|\\(.*?音乐人.*?\\)|「.*?音乐人.*?」|（.*?音乐人.*?）|『.*?音乐人.*?』)",
    ".*?未经.*?许可.*?不得.*?使用.*?",
    ".*?未经.*?许可.*?不得.*?方式.*?",
    ".*?发行方\\s*[:：].*?",
];

/// The built-in keywords, as texts.
pub open spec fn default_keywords() -> Seq<Seq<char>> {
    Seq::new(DEFAULT_KEYWORDS@.len(), |i: int| DEFAULT_KEYWORDS@[i]@)
}

/// The built-in regular expressions, as texts.
pub open spec fn default_regex_patterns() -> Seq<Seq<char>> {
    Seq::new(DEFAULT_REGEX_PATTERNS@.len(), |i: int| DEFAULT_REGEX_PATTERNS@[i]@)
}

/// The built-in keywords.
pub fn keywords() -> (r: Vec<String>)
    ensures
        r.deep_view() == default_keywords(),
{
    let mut r: Vec<String> = Vec::new();
    let mut i: usize = 0;
    while i < DEFAULT_KEYWORDS.len()
        invariant
            i <= DEFAULT_KEYWORDS@.len(),
            r@.len() == i,
            forall|j: int| 0 <= j < i ==> (#[trigger] r@[j])@ == DEFAULT_KEYWORDS@[j]@,
        decreases DEFAULT_KEYWORDS@.len() - i,
    {
        r.push(DEFAULT_KEYWORDS[i].to_owned());
        i += 1;
    }
    proof {
        assert(r.deep_view() =~= default_keywords());
    }
    r
}

/// The built-in regular expressions.
pub fn regex_patterns() -> (r: Vec<String>)
    ensures
        r.deep_view() == default_regex_patterns(),
{
    let mut r: Vec<String> = Vec::new();
    let mut i: usize = 0;
    while i < DEFAULT_REGEX_PATTERNS.len()
        invariant
            i <= DEFAULT_REGEX_PATTERNS@.len(),
            r@.len() == i,
            forall|j: int| 0 <= j < i ==> (#[trigger] r@[j])@ == DEFAULT_REGEX_PATTERNS@[j]@,
        decreases DEFAULT_REGEX_PATTERNS@.len() - i,
    {
        r.push(DEFAULT_REGEX_PATTERNS[i].to_owned());
        i += 1;
    }
    proof {
        assert(r.deep_view() =~= default_regex_patterns());
    }
    r
}

} // verus!
