//! The rules by which a line is judged to be metadata, and the judgement.

use crate::cache::{get_cached_regex, RegexCache};
use crate::matcher::{compiled_language, regex_is_match, regex_language};
use crate::options::{MetadataStripperFlags, MetadataStripperOptions};
use crate::text::{
    chars_of, count_leading_whitespace, count_trailing_whitespace, first_index_of, has_prefix,
    index_of, is_blank, is_blank_text, lowercase, trim, trim_start, trim_start_of,
};
use regex::Regex;
use vstd::prelude::*;

verus! {

/// A prepared rule set: the keywords as they are compared, and the languages
/// of the regular expressions that compiled.
pub struct RuleSet {
    pub keywords: Seq<Seq<char>>,
    pub keyword_case_sensitive: bool,
    pub languages: Seq<Set<Seq<char>>>,
}

impl RuleSet {
    /// Whether the set holds any rule at all.
    pub open spec fn has_rules(self) -> bool {
        self.keywords.len() > 0 || self.languages.len() > 0
    }
}

/// The keywords as they are compared: as written where case matters, in
/// lower case where it does not.
pub open spec fn prepared_keywords(keywords: Seq<Seq<char>>, case_sensitive: bool) -> Seq<
    Seq<char>,
> {
    Seq::new(
        keywords.len(),
        |i: int|
            if case_sensitive {
                keywords[i]
            } else {
                lowercase(keywords[i])
            },
    )
}

/// The languages of the patterns that are not blank and that compile, in the
/// order of the patterns.
pub open spec fn compiled_languages(patterns: Seq<Seq<char>>, case_sensitive: bool) -> Seq<
    Set<Seq<char>>,
>
    decreases patterns.len(),
{
    if patterns.len() == 0 {
        Seq::empty()
    } else {
        let before = compiled_languages(patterns.drop_last(), case_sensitive);
        match compiled_language(patterns.last(), case_sensitive) {
            Some(language) if !is_blank(patterns.last()) => before.push(language),
            _ => before,
        }
    }
}

/// The keys that a cache holds once the given patterns have gone through
/// it: those it held, and behind them each pattern that is not blank, that
/// compiles and that was not cached before, in the order of the patterns.
pub open spec fn remembered(
    cached: Seq<(Seq<char>, bool)>,
    patterns: Seq<Seq<char>>,
    case_sensitive: bool,
) -> Seq<(Seq<char>, bool)>
    decreases patterns.len(),
{
    if patterns.len() == 0 {
        cached
    } else {
        let before = remembered(cached, patterns.drop_last(), case_sensitive);
        let key = (patterns.last(), case_sensitive);
        if !is_blank(patterns.last()) && compiled_language(patterns.last(), case_sensitive) is Some
            && !before.contains(key) {
            before.push(key)
        } else {
            before
        }
    }
}

/// The keys that a cache holds once rules have been prepared through it:
/// patterns are compiled only where regular expressions are switched on.
pub open spec fn cached_after(
    cached: Seq<(Seq<char>, bool)>,
    flags: MetadataStripperFlags,
    patterns: Seq<Seq<char>>,
) -> Seq<(Seq<char>, bool)> {
    if flags.enable_regex_stripping {
        remembered(cached, patterns, flags.regex_case_sensitive)
    } else {
        cached
    }
}

/// The rule set that the given switches, keywords and patterns stand for.
pub open spec fn rule_set(
    flags: MetadataStripperFlags,
    keywords: Seq<Seq<char>>,
    patterns: Seq<Seq<char>>,
) -> RuleSet {
    RuleSet {
        keywords: prepared_keywords(keywords, flags.keyword_case_sensitive),
        keyword_case_sensitive: flags.keyword_case_sensitive,
        languages: if flags.enable_regex_stripping {
            compiled_languages(patterns, flags.regex_case_sensitive)
        } else {
            Seq::empty()
        },
    }
}

/// A text that starts with an opening bracket, with the bracket taken off:
/// where `close` ends the text, what stands between the two; else what
/// follows the first `close`, without leading white space; the text itself
/// where it holds no `close`.
pub open spec fn unwrapped(t: Seq<char>, close: char) -> Seq<char> {
    if t.last() == close {
        t.subrange(1, t.len() - 1)
    } else {
        let k = first_index_of(t, close);
        if k < t.len() {
            trim_start(t.skip(k as int + 1))
        } else {
            t
        }
    }
}

/// The part of a line that is compared with the keywords: the trimmed line,
/// with a square or round bracket at its start taken off.
pub open spec fn keyword_text(line: Seq<char>) -> Seq<char> {
    let t = trim(line);
    if t.len() > 0 && t[0] == '[' {
        unwrapped(t, ']')
    } else if t.len() > 0 && t[0] == '(' {
        unwrapped(t, ')')
    } else {
        t
    }
}

/// Whether `c` is a colon, half width or full width.
pub open spec fn is_colon(c: char) -> bool {
    c == ':' || c == '\u{ff1a}'
}

/// Whether `text` starts with `keyword` and goes on, after any white space,
/// with a colon.
pub open spec fn keyword_hits(text: Seq<char>, keyword: Seq<char>) -> bool {
    &&& keyword.is_prefix_of(text)
    &&& {
        let rest = trim_start(text.skip(keyword.len() as int));
        rest.len() > 0 && is_colon(rest[0])
    }
}

/// Whether one of the keywords hits the line.
pub open spec fn keyword_rule_matches(line: Seq<char>, rules: RuleSet) -> bool {
    let text = if rules.keyword_case_sensitive {
        keyword_text(line)
    } else {
        lowercase(keyword_text(line))
    };
    exists|k: int| 0 <= k < rules.keywords.len() && keyword_hits(text, #[trigger] rules.keywords[k])
}

/// Whether one of the regular expressions matches somewhere in the line as
/// it stands.
pub open spec fn regex_rule_matches(line: Seq<char>, rules: RuleSet) -> bool {
    exists|k: int| 0 <= k < rules.languages.len() && (#[trigger] rules.languages[k]).contains(line)
}

/// Whether the line is metadata: a keyword hits it or a regular expression
/// matches it.
pub open spec fn line_matches(line: Seq<char>, rules: RuleSet) -> bool {
    keyword_rule_matches(line, rules) || regex_rule_matches(line, rules)
}

/// The rules of one stripping run, ready to be applied to lines.
pub struct StrippingRules {
    prepared_keywords: Vec<Vec<char>>,
    keyword_case_sensitive: bool,
    compiled_regexes: Vec<Regex>,
}

impl View for StrippingRules {
    type V = RuleSet;

    closed spec fn view(&self) -> RuleSet {
        RuleSet {
            keywords: Seq::new(self.prepared_keywords@.len(), |i: int| self.prepared_keywords@[i]@),
            keyword_case_sensitive: self.keyword_case_sensitive,
            languages: Seq::new(
                self.compiled_regexes@.len(),
                |i: int| regex_language(self.compiled_regexes@[i]),
            ),
        }
    }
}

impl StrippingRules {
    /// Prepares the rules that `options` describe. Regular expressions are
    /// taken from `cache` or compiled into it; a pattern that is blank or
    /// does not compile is left out.
    pub fn new(options: &MetadataStripperOptions, cache: &mut RegexCache) -> (rules: Self)
        ensures
            rules@ == rule_set(
                options.flags,
                options.keywords.deep_view(),
                options.regex_patterns.deep_view(),
            ),
            final(cache)@ == cached_after(
                old(cache)@,
                options.flags,
                options.regex_patterns.deep_view(),
            ),
    {
        let regex_case_sensitive = options.flags.regex_case_sensitive;
        let keyword_case_sensitive = options.flags.keyword_case_sensitive;
        let ghost patterns = options.regex_patterns.deep_view();
        let ghost keywords = options.keywords.deep_view();
        let ghost cached = cache@;

        let mut compiled_regexes: Vec<Regex> = Vec::new();
        if options.flags.enable_regex_stripping {
            let mut i: usize = 0;
            while i < options.regex_patterns.len()
                invariant
                    i <= options.regex_patterns@.len(),
                    patterns == options.regex_patterns.deep_view(),
                    cache@ == remembered(cached, patterns.take(i as int), regex_case_sensitive),
                    Seq::new(compiled_regexes@.len(), |k: int| regex_language(compiled_regexes@[k]))
                        == compiled_languages(patterns.take(i as int), regex_case_sensitive),
                decreases options.regex_patterns@.len() - i,
            {
                let pattern = options.regex_patterns[i].as_str();
                let ghost before = Seq::new(
                    compiled_regexes@.len(),
                    |k: int| regex_language(compiled_regexes@[k]),
                );
                proof {
                    assert(patterns.take(i + 1).drop_last() =~= patterns.take(i as int));
                    assert(patterns.take(i + 1).last() == pattern@);
                }
                if !is_blank_text(pattern) {
                    match get_cached_regex(cache, pattern, regex_case_sensitive) {
                        Some(regex) => {
                            compiled_regexes.push(regex);
                            proof {
                                assert(Seq::new(
                                    compiled_regexes@.len(),
                                    |k: int| regex_language(compiled_regexes@[k]),
                                ) =~= before.push(regex_language(regex)));
                            }
                        },
                        None => {},
                    }
                }
                i += 1;
            }
            proof {
                assert(patterns.take(i as int) =~= patterns);
            }
        }
        let mut prepared: Vec<Vec<char>> = Vec::new();
        let mut i: usize = 0;
        while i < options.keywords.len()
            invariant
                i <= options.keywords@.len(),
                keywords == options.keywords.deep_view(),
                prepared@.len() == i,
                forall|k: int|
                    0 <= k < i ==> (#[trigger] prepared@[k])@ == prepared_keywords(
                        keywords,
                        keyword_case_sensitive,
                    )[k],
            decreases options.keywords@.len() - i,
        {
            let keyword = options.keywords[i].as_str();
            if keyword_case_sensitive {
                prepared.push(chars_of(keyword));
            } else {
                let lowered = keyword.to_lowercase();
                prepared.push(chars_of(lowered.as_str()));
            }
            i += 1;
        }
        let rules = StrippingRules {
            prepared_keywords: prepared,
            keyword_case_sensitive,
            compiled_regexes,
        };
        proof {
            let wanted = rule_set(options.flags, keywords, patterns);
            assert(rules@.keywords =~= wanted.keywords);
            assert(rules@.languages =~= wanted.languages);
        }
        rules
    }

    /// Whether the rules hold any keyword or regular expression.
    pub fn has_rules(&self) -> (b: bool)
        ensures
            b == self@.has_rules(),
    {
        self.prepared_keywords.len() > 0 || self.compiled_regexes.len() > 0
    }

    /// Whether one of the keywords hits `text`, which is taken as it
    /// stands: the caller has prepared it as the keywords are prepared.
    pub fn keyword_matches(&self, text: &[char]) -> (b: bool)
        ensures
            b == exists|k: int|
                0 <= k < self@.keywords.len() && keyword_hits(text@, #[trigger] self@.keywords[k]),
    {
        let mut i: usize = 0;
        while i < self.prepared_keywords.len()
            invariant
                i <= self.prepared_keywords@.len(),
                forall|k: int| 0 <= k < i ==> !keyword_hits(text@, #[trigger] self@.keywords[k]),
            decreases self.prepared_keywords@.len() - i,
        {
            proof {
                assert(self@.keywords[i as int] == self.prepared_keywords@[i as int]@);
            }
            if keyword_hits_text(text, self.prepared_keywords[i].as_slice()) {
                return true;
            }
            i += 1;
        }
        false
    }

    /// Whether one of the regular expressions matches somewhere in `line`.
    pub fn regex_matches(&self, line: &str) -> (b: bool)
        ensures
            b == regex_rule_matches(line@, self@),
    {
        let mut i: usize = 0;
        while i < self.compiled_regexes.len()
            invariant
                i <= self.compiled_regexes@.len(),
                forall|k: int| 0 <= k < i ==> !(#[trigger] self@.languages[k]).contains(line@),
            decreases self.compiled_regexes@.len() - i,
        {
            proof {
                assert(self@.languages[i as int] == regex_language(self.compiled_regexes@[i as int]));
            }
            if regex_is_match(&self.compiled_regexes[i], line) {
                return true;
            }
            i += 1;
        }
        false
    }
}

/// Whether `text` starts with `keyword` and goes on, after any white space,
/// with a colon.
pub fn keyword_hits_text(text: &[char], keyword: &[char]) -> (b: bool)
    ensures
        b == keyword_hits(text@, keyword@),
{
    if !has_prefix(text, keyword) {
        return false;
    }
    let rest = trim_start_of(&text[keyword.len()..text.len()]);
    proof {
        assert(text@.skip(keyword@.len() as int) =~= text@.subrange(
            keyword@.len() as int,
            text@.len() as int,
        ));
    }
    rest.len() > 0 && (rest[0] == ':' || rest[0] == '\u{ff1a}')
}

/// The bounds within `text` of what `unwrapped` leaves of it.
fn unwrapped_bounds(text: &[char], close: char) -> (r: (usize, usize))
    requires
        text@.len() > 0,
        text@[0] != close,
    ensures
        r.0 <= r.1 <= text@.len(),
        text@.subrange(r.0 as int, r.1 as int) == unwrapped(text@, close),
{
    let len = text.len();
    if text[len - 1] == close {
        return (1, len - 1);
    }
    let k = index_of(text, close);
    if k < len {
        let tail = &text[k + 1..len];
        let skipped = count_leading_whitespace(tail);
        proof {
            assert(text@.skip(k + 1) =~= tail@);
            assert(trim_start(tail@) =~= text@.subrange(k + 1 + skipped, len as int));
        }
        (k + 1 + skipped, len)
    } else {
        proof {
            assert(text@.subrange(0, len as int) =~= text@);
        }
        (0, len)
    }
}

/// The bounds within `line` of the part that is compared with the keywords.
pub fn keyword_text_bounds(line: &[char]) -> (r: (usize, usize))
    ensures
        r.0 <= r.1 <= line@.len(),
        line@.subrange(r.0 as int, r.1 as int) == keyword_text(line@),
{
    let len = line.len();
    let lo = count_leading_whitespace(line);
    let hi = len - count_trailing_whitespace(&line[lo..len]);
    let text = &line[lo..hi];
    proof {
        assert(line@.subrange(lo as int, len as int) =~= trim_start(line@));
        assert(text@ =~= trim(line@));
    }
    if text.len() > 0 && text[0] == '[' {
        let (from, to) = unwrapped_bounds(text, ']');
        proof {
            assert(text@.subrange(from as int, to as int) =~= line@.subrange(lo + from, lo + to));
        }
        (lo + from, lo + to)
    } else if text.len() > 0 && text[0] == '(' {
        let (from, to) = unwrapped_bounds(text, ')');
        proof {
            assert(text@.subrange(from as int, to as int) =~= line@.subrange(lo + from, lo + to));
        }
        (lo + from, lo + to)
    } else {
        (lo, hi)
    }
}

/// Whether `line_to_check` is metadata by `rules`.
///
/// The keywords are compared with the line once it is trimmed and a bracket
/// at its start is taken off; the regular expressions are run on the line as
/// it stands.
pub fn line_matches_rules(line_to_check: &str, rules: &StrippingRules) -> (b: bool)
    ensures
        b == line_matches(line_to_check@, rules@),
{
    if rules.prepared_keywords.len() > 0 {
        let chars = chars_of(line_to_check);
        let (lo, hi) = keyword_text_bounds(chars.as_slice());
        let hit = if rules.keyword_case_sensitive {
            rules.keyword_matches(&chars.as_slice()[lo..hi])
        } else {
            let lowered = line_to_check.substring_char(lo, hi).to_lowercase();
            let folded = chars_of(lowered.as_str());
            rules.keyword_matches(folded.as_slice())
        };
        if hit {
            return true;
        }
    }
    rules.regex_matches(line_to_check)
}

} // verus!
