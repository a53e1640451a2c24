//! The metadata stripper: takes the credit lines off the head and the tail
//! of a lyric document.
//!
//! A run first judges the lines near either end of the document, each for
//! itself, and then places two cuts by those judgements alone.

use crate::cache::RegexCache;
use crate::defaults::{default_keywords, default_regex_patterns, keywords, regex_patterns};
use crate::model::LyricLine;
use crate::options::{larger, smaller, MetadataStripperOptions, ScanLimitConfig};
use crate::rules::{
    cached_after, line_matches, line_matches_rules, rule_set, RuleSet, StrippingRules,
};
use vstd::prelude::*;

verus! {

/// The text by which a line is judged: that of its main vocal, or nothing
/// where it has none.
pub open spec fn line_text(line: LyricLine) -> Seq<char> {
    match line.spec_main_text() {
        Some(text) => text,
        None => Seq::empty(),
    }
}

/// For each line, whether it is metadata by `rules`.
pub open spec fn metadata_flags(lines: Seq<LyricLine>, rules: RuleSet) -> Seq<bool> {
    Seq::new(lines.len(), |i: int| line_matches(line_text(lines[i]), rules))
}

/// One past the last set flag, or 0 where none is set.
pub open spec fn last_flag_end(flags: Seq<bool>) -> nat
    decreases flags.len(),
{
    if flags.len() == 0 {
        0
    } else if flags.last() {
        flags.len()
    } else {
        last_flag_end(flags.drop_last())
    }
}

/// The position of the first set flag, or `flags.len()` where none is set.
pub open spec fn first_flag(flags: Seq<bool>) -> nat
    decreases flags.len(),
{
    if flags.len() == 0 {
        0
    } else if flags[0] {
        0
    } else {
        1 + first_flag(flags.drop_first())
    }
}

/// Where the lyrics begin: one past the last flagged line among the first
/// `limit` lines, or 0 where none of them is flagged.
pub open spec fn header_cut(flags: Seq<bool>, limit: nat) -> nat {
    last_flag_end(flags.take(smaller(limit, flags.len()) as int))
}

/// Where the search of the tail starts: `limit` lines before the end, but
/// not before the lyrics begin.
pub open spec fn footer_start(len: nat, first: nat, limit: nat) -> nat {
    larger((len - smaller(limit, len)) as nat, first)
}

/// Where the lyrics end: the first flagged line among the last `limit`
/// lines, not before `first`; the end of the document where none is flagged;
/// `first` itself where it already lies at or behind the end.
pub open spec fn footer_cut(flags: Seq<bool>, first: nat, limit: nat) -> nat {
    if first >= flags.len() {
        first
    } else {
        let start = footer_start(flags.len(), first, limit);
        start + first_flag(flags.skip(start as int))
    }
}

/// The bounds of what stays of a document of `count` lines once the two
/// cuts are placed: the lines between the cuts where the first cut lies
/// before the second, and nothing where the cuts meet or cross.
pub open spec fn kept_between(first: nat, last: nat, count: nat) -> (nat, nat) {
    if first < last {
        (first, last)
    } else if first > 0 || last < count {
        (0, 0)
    } else {
        (0, count)
    }
}

/// The bounds of what stays of a document whose lines are flagged as
/// `flags` says.
pub open spec fn kept_range(flags: Seq<bool>, header_limit: nat, footer_limit: nat) -> (nat, nat) {
    let first = header_cut(flags, header_limit);
    let last = footer_cut(flags, first, footer_limit);
    kept_between(first, last, flags.len())
}

/// The rules that a run with `options` applies: the caller's own, or the
/// built-in ones where the caller gives neither keyword nor pattern.
pub open spec fn effective_rules(options: MetadataStripperOptions) -> RuleSet {
    rule_set(options.flags, effective_keywords(options), effective_patterns(options))
}

/// Whether the caller gives neither keyword nor pattern.
pub open spec fn is_unconfigured(options: MetadataStripperOptions) -> bool {
    options.keywords@.len() == 0 && options.regex_patterns@.len() == 0
}

/// The keywords that a run with `options` uses.
pub open spec fn effective_keywords(options: MetadataStripperOptions) -> Seq<Seq<char>> {
    if is_unconfigured(options) {
        default_keywords()
    } else {
        options.keywords.deep_view()
    }
}

/// The patterns that a run with `options` uses.
pub open spec fn effective_patterns(options: MetadataStripperOptions) -> Seq<Seq<char>> {
    if is_unconfigured(options) {
        default_regex_patterns()
    } else {
        options.regex_patterns.deep_view()
    }
}

/// Whether a run with `options` on `lines` looks at the lines at all: the
/// stripper is switched on, there are lines, and there are rules.
pub open spec fn applies(lines: Seq<LyricLine>, options: MetadataStripperOptions) -> bool {
    options.flags.enabled && lines.len() > 0 && effective_rules(options).has_rules()
}

/// The document that prepared rules leave: the lines between the two cuts,
/// or the document itself where it has no line or there is no rule.
pub open spec fn stripped_by(
    lines: Seq<LyricLine>,
    rules: RuleSet,
    header_scan_limit: ScanLimitConfig,
    footer_scan_limit: ScanLimitConfig,
) -> Seq<LyricLine> {
    if lines.len() > 0 && rules.has_rules() {
        let range = kept_range(
            metadata_flags(lines, rules),
            header_scan_limit.spec_calculate(lines.len()),
            footer_scan_limit.spec_calculate(lines.len()),
        );
        lines.subrange(range.0 as int, range.1 as int)
    } else {
        lines
    }
}

/// The document that stripping leaves.
pub open spec fn stripped(lines: Seq<LyricLine>, options: MetadataStripperOptions) -> Seq<
    LyricLine,
> {
    if options.flags.enabled {
        stripped_by(
            lines,
            effective_rules(options),
            options.header_scan_limit,
            options.footer_scan_limit,
        )
    } else {
        lines
    }
}

/// The keys that a cache holds after a run with `options`: a run that is
/// switched on compiles its patterns, whether or not there are lines.
pub open spec fn cache_after(
    cached: Seq<(Seq<char>, bool)>,
    options: MetadataStripperOptions,
) -> Seq<(Seq<char>, bool)> {
    if options.flags.enabled {
        cached_after(cached, options.flags, effective_patterns(options))
    } else {
        cached
    }
}

/// The last set flag lies within the flags, the flag before the returned
/// position is set, and none at or behind it is.
pub proof fn lemma_last_flag_end(flags: Seq<bool>)
    ensures
        last_flag_end(flags) <= flags.len(),
        last_flag_end(flags) > 0 ==> flags[last_flag_end(flags) - 1],
        forall|i: int| last_flag_end(flags) <= i < flags.len() ==> !#[trigger] flags[i],
    decreases flags.len(),
{
    if flags.len() > 0 && !flags.last() {
        let rest = flags.drop_last();
        lemma_last_flag_end(rest);
        assert forall|i: int| last_flag_end(flags) <= i < flags.len() implies !#[trigger] flags[i] by {
            if i < rest.len() {
                assert(flags[i] == rest[i]);
            }
        }
        if last_flag_end(flags) > 0 {
            assert(flags[last_flag_end(flags) - 1] == rest[last_flag_end(rest) - 1]);
        }
    }
}

/// The first set flag lies within the flags or at their end, is set where
/// it lies within, and none before it is.
pub proof fn lemma_first_flag(flags: Seq<bool>)
    ensures
        first_flag(flags) <= flags.len(),
        first_flag(flags) < flags.len() ==> flags[first_flag(flags) as int],
        forall|i: int| 0 <= i < first_flag(flags) ==> !#[trigger] flags[i],
    decreases flags.len(),
{
    if flags.len() > 0 && !flags[0] {
        let rest = flags.drop_first();
        lemma_first_flag(rest);
        assert forall|i: int| 0 <= i < first_flag(flags) implies !#[trigger] flags[i] by {
            if i > 0 {
                assert(flags[i] == rest[i - 1]);
            }
        }
        if first_flag(flags) < flags.len() {
            assert(flags[first_flag(flags) as int] == rest[first_flag(rest) as int]);
        }
    }
}

/// `last_flag_end` is the one position `k` before which a set flag stands,
/// or the flags begin, and from which on none is set.
pub proof fn lemma_last_flag_end_is(flags: Seq<bool>, k: int)
    requires
        0 <= k <= flags.len(),
        k > 0 ==> flags[k - 1],
        forall|i: int| k <= i < flags.len() ==> !#[trigger] flags[i],
    ensures
        last_flag_end(flags) == k,
    decreases flags.len(),
{
    if flags.len() > 0 && k < flags.len() {
        let rest = flags.drop_last();
        assert(!flags[flags.len() - 1]);
        assert forall|i: int| k <= i < rest.len() implies !#[trigger] rest[i] by {
            assert(rest[i] == flags[i]);
        }
        if k > 0 {
            assert(rest[k - 1] == flags[k - 1]);
        }
        lemma_last_flag_end_is(rest, k);
    }
}

/// `first_flag` is the one position `k` before which no flag is set and at
/// which one is, or the flags end.
pub proof fn lemma_first_flag_is(flags: Seq<bool>, k: int)
    requires
        0 <= k <= flags.len(),
        forall|i: int| 0 <= i < k ==> !#[trigger] flags[i],
        k < flags.len() ==> flags[k],
    ensures
        first_flag(flags) == k,
    decreases k,
{
    if k > 0 {
        let rest = flags.drop_first();
        assert(!flags[0]);
        assert forall|i: int| 0 <= i < k - 1 implies !#[trigger] rest[i] by {
            assert(rest[i] == flags[i + 1]);
        }
        if k - 1 < rest.len() {
            assert(rest[k - 1] == flags[k]);
        }
        lemma_first_flag_is(rest, k - 1);
    }
}

/// The header cut lies within the searched lines, the line before it is
/// flagged, and no searched line at or behind it is.
pub proof fn lemma_header_cut(flags: Seq<bool>, limit: nat)
    ensures
        header_cut(flags, limit) <= smaller(limit, flags.len()),
        header_cut(flags, limit) > 0 ==> flags[header_cut(flags, limit) - 1],
        forall|i: int|
            header_cut(flags, limit) <= i < smaller(limit, flags.len()) ==> !#[trigger] flags[i],
{
    let window = flags.take(smaller(limit, flags.len()) as int);
    lemma_last_flag_end(window);
    assert forall|i: int|
        header_cut(flags, limit) <= i < smaller(limit, flags.len()) implies !#[trigger] flags[i] by {
        assert(flags[i] == window[i]);
    }
    if header_cut(flags, limit) > 0 {
        assert(flags[header_cut(flags, limit) - 1] == window[header_cut(flags, limit) - 1]);
    }
}

/// The footer cut of a document whose lyrics begin before its end lies
/// between the start of the search and the end, is flagged where it lies
/// before the end, and no searched line before it is flagged.
pub proof fn lemma_footer_cut(flags: Seq<bool>, first: nat, limit: nat)
    requires
        first < flags.len(),
    ensures
        footer_start(flags.len(), first, limit) <= footer_cut(flags, first, limit) <= flags.len(),
        footer_cut(flags, first, limit) < flags.len() ==> flags[footer_cut(
            flags,
            first,
            limit,
        ) as int],
        forall|i: int|
            footer_start(flags.len(), first, limit) <= i < footer_cut(flags, first, limit)
                ==> !#[trigger] flags[i],
{
    let start = footer_start(flags.len(), first, limit);
    let window = flags.skip(start as int);
    lemma_first_flag(window);
    assert forall|i: int| start <= i < footer_cut(flags, first, limit) implies !#[trigger] flags[i] by {
        assert(flags[i] == window[i - start]);
    }
    if footer_cut(flags, first, limit) < flags.len() {
        assert(flags[footer_cut(flags, first, limit) as int] == window[first_flag(window) as int]);
    }
}

/// What the stripper leaves is a run of consecutive lines of the document.
pub proof fn lemma_kept_range_bounds(flags: Seq<bool>, header_limit: nat, footer_limit: nat)
    ensures
        kept_range(flags, header_limit, footer_limit).0 <= kept_range(
            flags,
            header_limit,
            footer_limit,
        ).1 <= flags.len(),
{
    let first = header_cut(flags, header_limit);
    lemma_header_cut(flags, header_limit);
    if first < flags.len() {
        lemma_footer_cut(flags, first, footer_limit);
    }
}

/// The text by which `line` is judged.
pub fn get_text(line: &LyricLine) -> (text: String)
    ensures
        text@ == line_text(*line),
{
    match line.main_text() {
        Some(text) => text,
        None => String::new(),
    }
}

/// Judges each of `lines` for itself.
pub fn judge_lines(lines: &[LyricLine], rules: &StrippingRules) -> (flags: Vec<bool>)
    ensures
        flags@ == metadata_flags(lines@, rules@),
{
    let mut flags: Vec<bool> = Vec::new();
    let mut i: usize = 0;
    while i < lines.len()
        invariant
            i <= lines@.len(),
            flags@ == metadata_flags(lines@, rules@).take(i as int),
        decreases lines@.len() - i,
    {
        let text = get_text(&lines[i]);
        let flag = line_matches_rules(text.as_str(), rules);
        flags.push(flag);
        proof {
            assert(flags@ =~= metadata_flags(lines@, rules@).take(i + 1));
        }
        i += 1;
    }
    proof {
        assert(flags@ =~= metadata_flags(lines@, rules@));
    }
    flags
}

/// One past the last set flag, or 0 where none is set.
pub fn find_last_flag_end(flags: &[bool]) -> (end: usize)
    ensures
        end == last_flag_end(flags@),
{
    let mut i: usize = flags.len();
    while i > 0 && !flags[i - 1]
        invariant
            i <= flags@.len(),
            forall|j: int| i <= j < flags@.len() ==> !#[trigger] flags@[j],
        decreases i,
    {
        i -= 1;
    }
    proof {
        lemma_last_flag_end_is(flags@, i as int);
    }
    i
}

/// The position of the first set flag, or `flags.len()` where none is set.
pub fn find_first_flag(flags: &[bool]) -> (at: usize)
    ensures
        at == first_flag(flags@),
{
    let mut i: usize = 0;
    while i < flags.len() && !flags[i]
        invariant
            i <= flags@.len(),
            forall|j: int| 0 <= j < i ==> !#[trigger] flags@[j],
        decreases flags@.len() - i,
    {
        i += 1;
    }
    proof {
        lemma_first_flag_is(flags@, i as int);
    }
    i
}

/// The bounds of what stays of a document of `count` lines once the two
/// cuts are placed.
pub fn keep_between(first: usize, last: usize, count: usize) -> (range: (usize, usize))
    ensures
        (range.0 as nat, range.1 as nat) == kept_between(first as nat, last as nat, count as nat),
{
    if first < last {
        (first, last)
    } else if first > 0 || last < count {
        (0, 0)
    } else {
        (0, count)
    }
}

/// Where the lyrics begin, searching the first `limit` lines.
pub fn find_first_lyric_line_index(lines: &[LyricLine], rules: &StrippingRules, limit: usize) -> (first:
    usize)
    ensures
        first == header_cut(metadata_flags(lines@, rules@), limit as nat),
        first <= lines@.len(),
{
    let end = if limit < lines.len() {
        limit
    } else {
        lines.len()
    };
    let flags = judge_lines(&lines[0..end], rules);
    proof {
        assert(flags@ =~= metadata_flags(lines@, rules@).take(end as int));
        lemma_last_flag_end(flags@);
    }
    find_last_flag_end(flags.as_slice())
}

/// Where the lyrics end, searching the last `limit` lines from
/// `first_lyric_index` on.
pub fn find_last_lyric_line_exclusive_index(
    lines: &[LyricLine],
    first_lyric_index: usize,
    rules: &StrippingRules,
    limit: usize,
) -> (last: usize)
    ensures
        last == footer_cut(metadata_flags(lines@, rules@), first_lyric_index as nat, limit as nat),
        first_lyric_index < lines@.len() ==> first_lyric_index <= last <= lines@.len(),
{
    let len = lines.len();
    if first_lyric_index >= len {
        return first_lyric_index;
    }
    let from_end = if limit < len {
        len - limit
    } else {
        0
    };
    let start = if from_end > first_lyric_index {
        from_end
    } else {
        first_lyric_index
    };
    let flags = judge_lines(&lines[start..len], rules);
    proof {
        assert(flags@ =~= metadata_flags(lines@, rules@).skip(start as int));
        lemma_first_flag(flags@);
    }
    start + find_first_flag(flags.as_slice())
}

/// Prepares the rules that a run with `options` applies: the caller's own,
/// or the built-in ones where the caller gives neither keyword nor pattern.
/// Regular expressions are taken from `cache` or compiled into it.
pub fn prepare_rules(options: &MetadataStripperOptions, cache: &mut RegexCache) -> (rules:
    StrippingRules)
    ensures
        rules@ == effective_rules(*options),
        final(cache)@ == cached_after(old(cache)@, options.flags, effective_patterns(*options)),
{
    if options.keywords.is_empty() && options.regex_patterns.is_empty() {
        let fallback = MetadataStripperOptions {
            flags: options.flags,
            keywords: keywords(),
            regex_patterns: regex_patterns(),
            header_scan_limit: options.header_scan_limit,
            footer_scan_limit: options.footer_scan_limit,
        };
        StrippingRules::new(&fallback, cache)
    } else {
        StrippingRules::new(options, cache)
    }
}

/// Removes the metadata lines at the head and the tail of `lines` by rules
/// that are already prepared.
///
/// The head is searched up to the header limit: everything up to the last
/// metadata line found there goes. The tail is searched over the footer
/// limit: everything from the first metadata line found there goes. Lines
/// between the two cuts stay as they are, whatever the rules say of them.
/// Where the cuts meet or cross, nothing is left.
pub fn strip_with_rules(
    lines: &mut Vec<LyricLine>,
    rules: &StrippingRules,
    header_scan_limit: &ScanLimitConfig,
    footer_scan_limit: &ScanLimitConfig,
)
    ensures
        final(lines)@ == stripped_by(old(lines)@, rules@, *header_scan_limit, *footer_scan_limit),
{
    if lines.is_empty() || !rules.has_rules() {
        return ;
    }
    let line_count = lines.len();
    let header_limit = header_scan_limit.calculate(line_count);
    let footer_limit = footer_scan_limit.calculate(line_count);

    let first_lyric_index = find_first_lyric_line_index(lines.as_slice(), rules, header_limit);
    let last_lyric_exclusive_index = find_last_lyric_line_exclusive_index(
        lines.as_slice(),
        first_lyric_index,
        rules,
        footer_limit,
    );

    let (from, to) = keep_between(first_lyric_index, last_lyric_exclusive_index, line_count);
    lines.truncate(to);
    if from > 0 {
        let kept = lines.split_off(from);
        *lines = kept;
    }
    proof {
        assert(lines@ =~= old(lines)@.subrange(from as int, to as int));
    }
}

/// Removes the metadata lines at the head and the tail of `lines`, compiling
/// regular expressions through `cache`.
///
/// With the stripper switched off nothing happens: the lines stay, and no
/// pattern is compiled. Otherwise the rules are prepared as `prepare_rules`
/// says and applied as `strip_with_rules` says.
pub fn strip_descriptive_metadata_lines_cached(
    lines: &mut Vec<LyricLine>,
    options: &MetadataStripperOptions,
    cache: &mut RegexCache,
)
    ensures
        final(lines)@ == stripped(old(lines)@, *options),
        final(cache)@ == cache_after(old(cache)@, *options),
        !options.flags.enabled ==> final(lines)@ == old(lines)@ && final(cache)@ == old(cache)@,
        old(lines)@.len() == 0 ==> final(lines)@.len() == 0,
{
    if !options.flags.enabled {
        return ;
    }
    let rules = prepare_rules(options, cache);
    strip_with_rules(lines, &rules, &options.header_scan_limit, &options.footer_scan_limit);
}

/// Removes the metadata lines at the head and the tail of `lines`.
///
/// As `strip_descriptive_metadata_lines_cached`, with a cache of its own
/// that lives for this one call.
pub fn strip_descriptive_metadata_lines(
    lines: &mut Vec<LyricLine>,
    options: &MetadataStripperOptions,
)
    ensures
        final(lines)@ == stripped(old(lines)@, *options),
        !options.flags.enabled ==> final(lines)@ == old(lines)@,
        old(lines)@.len() == 0 ==> final(lines)@.len() == 0,
{
    let mut cache = RegexCache::new();
    strip_descriptive_metadata_lines_cached(lines, options, &mut cache);
}

} // verus!
