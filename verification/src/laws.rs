//! What holds of the metadata stripper on every document and configuration.

use crate::model::{document_wf, LyricLine};
use crate::options::MetadataStripperOptions;
use crate::rules::{line_matches, remembered};
use crate::stripper::{
    applies, effective_rules, footer_cut, footer_start, header_cut, kept_range, lemma_footer_cut,
    lemma_header_cut, lemma_kept_range_bounds, line_text, metadata_flags, stripped,
};
use vstd::prelude::*;

verus! {

/// Whether a run on `lines` finds no metadata where it searches: no line
/// within the header limit and no line within the footer limit is metadata.
pub open spec fn is_settled(lines: Seq<LyricLine>, options: MetadataStripperOptions) -> bool {
    applies(lines, options) ==> {
        let flags = metadata_flags(lines, effective_rules(options));
        let header_limit = options.header_scan_limit.spec_calculate(lines.len());
        let footer_limit = options.footer_scan_limit.spec_calculate(lines.len());
        &&& forall|i: int| 0 <= i < header_limit ==> !#[trigger] flags[i]
        &&& forall|i: int| lines.len() - footer_limit <= i < lines.len() ==> !#[trigger] flags[i]
    }
}

/// With the stripper switched off the document stays as it is, whatever
/// keywords and patterns are configured.
pub proof fn lemma_disabled_changes_nothing(lines: Seq<LyricLine>, options: MetadataStripperOptions)
    requires
        !options.flags.enabled,
    ensures
        stripped(lines, options) == lines,
{
}

/// An empty document stays empty under every configuration.
pub proof fn lemma_empty_stays_empty(options: MetadataStripperOptions)
    ensures
        stripped(Seq::<LyricLine>::empty(), options) == Seq::<LyricLine>::empty(),
{
}

/// What stripping leaves is a run of consecutive lines of the document, each
/// as it was.
pub proof fn lemma_stripped_is_a_run(lines: Seq<LyricLine>, options: MetadataStripperOptions)
    ensures
        exists|a: int, b: int|
            0 <= a <= b <= lines.len() && stripped(lines, options) == #[trigger] lines.subrange(
                a,
                b,
            ),
{
    if applies(lines, options) {
        let flags = metadata_flags(lines, effective_rules(options));
        let header_limit = options.header_scan_limit.spec_calculate(lines.len());
        let footer_limit = options.footer_scan_limit.spec_calculate(lines.len());
        lemma_kept_range_bounds(flags, header_limit, footer_limit);
        let range = kept_range(flags, header_limit, footer_limit);
        assert(stripped(lines, options) == lines.subrange(range.0 as int, range.1 as int));
    } else {
        assert(lines =~= lines.subrange(0, lines.len() as int));
    }
}

/// Where stripping leaves anything, it leaves every line that lies beyond
/// both search limits, whatever the rules say of it.
pub proof fn lemma_interior_lines_stay(lines: Seq<LyricLine>, options: MetadataStripperOptions)
    requires
        applies(lines, options),
        stripped(lines, options).len() > 0,
    ensures
        ({
            let range = kept_range(
                metadata_flags(lines, effective_rules(options)),
                options.header_scan_limit.spec_calculate(lines.len()),
                options.footer_scan_limit.spec_calculate(lines.len()),
            );
            &&& stripped(lines, options) == lines.subrange(range.0 as int, range.1 as int)
            &&& range.0 <= options.header_scan_limit.spec_calculate(lines.len())
            &&& lines.len() - options.footer_scan_limit.spec_calculate(lines.len()) <= range.1
        }),
{
    let flags = metadata_flags(lines, effective_rules(options));
    let header_limit = options.header_scan_limit.spec_calculate(lines.len());
    let footer_limit = options.footer_scan_limit.spec_calculate(lines.len());
    let first = header_cut(flags, header_limit);
    lemma_header_cut(flags, header_limit);
    lemma_kept_range_bounds(flags, header_limit, footer_limit);
    if first < flags.len() {
        lemma_footer_cut(flags, first, footer_limit);
    }
}

/// A cache only grows: what it held before patterns went through it, it
/// holds afterwards, in the same order.
pub proof fn lemma_cache_only_grows(
    cached: Seq<(Seq<char>, bool)>,
    patterns: Seq<Seq<char>>,
    case_sensitive: bool,
)
    ensures
        cached.is_prefix_of(remembered(cached, patterns, case_sensitive)),
    decreases patterns.len(),
{
    if patterns.len() > 0 {
        lemma_cache_only_grows(cached, patterns.drop_last(), case_sensitive);
    }
}

/// Stripping a well-formed document leaves a well-formed document: the
/// lines that stay are still in order and still do not overlap.
pub proof fn lemma_stripping_keeps_documents_well_formed(
    lines: Seq<LyricLine>,
    options: MetadataStripperOptions,
)
    requires
        document_wf(lines),
    ensures
        document_wf(stripped(lines, options)),
{
    lemma_stripped_is_a_run(lines, options);
    let (a, b) = choose|a: int, b: int|
        0 <= a <= b <= lines.len() && stripped(lines, options) == #[trigger] lines.subrange(a, b);
    let kept = lines.subrange(a, b);
    assert forall|i: int| 0 <= i < kept.len() implies (#[trigger] kept[i]).wf() by {
        assert(kept[i] == lines[a + i]);
    }
    assert forall|i: int, j: int| 0 <= i < j < kept.len() implies (#[trigger] kept[i]).start_time
        <= (#[trigger] kept[j]).start_time && kept[i].end_time <= kept[j].start_time by {
        assert(kept[i] == lines[a + i]);
        assert(kept[j] == lines[a + j]);
    }
}

/// Stripping leaves a document as it is exactly where the document is
/// settled.
pub proof fn lemma_settled_documents_stay(lines: Seq<LyricLine>, options: MetadataStripperOptions)
    ensures
        stripped(lines, options) == lines <==> is_settled(lines, options),
{
    if applies(lines, options) {
        let flags = metadata_flags(lines, effective_rules(options));
        let len = lines.len();
        let header_limit = options.header_scan_limit.spec_calculate(len);
        let footer_limit = options.footer_scan_limit.spec_calculate(len);
        let first = header_cut(flags, header_limit);
        let last = footer_cut(flags, first, footer_limit);
        let range = kept_range(flags, header_limit, footer_limit);
        lemma_header_cut(flags, header_limit);
        lemma_kept_range_bounds(flags, header_limit, footer_limit);
        if first < len {
            lemma_footer_cut(flags, first, footer_limit);
        }
        if is_settled(lines, options) {
            assert(first == 0) by {
                if first > 0 {
                    assert(!flags[first - 1]);
                }
            }
            assert(last == len) by {
                if last < len {
                    assert(!flags[last as int]);
                }
            }
            assert(lines.subrange(0, len as int) =~= lines);
        }
        if stripped(lines, options) == lines {
            assert(lines.subrange(range.0 as int, range.1 as int).len() == len);
            assert(first == 0 && last == len);
            assert(footer_start(len, first, footer_limit) == len - footer_limit);
        }
    }
}

/// Stripping twice with the same options gives what stripping once gives,
/// exactly where the once-stripped document is settled.
///
/// A second run measures its limits on the shorter document and so may
/// search lines that the first run did not reach. Where one of those is
/// metadata, the second run takes more off.
pub proof fn lemma_stripping_twice(lines: Seq<LyricLine>, options: MetadataStripperOptions)
    ensures
        stripped(stripped(lines, options), options) == stripped(lines, options) <==> is_settled(
            stripped(lines, options),
            options,
        ),
{
    lemma_settled_documents_stay(stripped(lines, options), options);
}

/// Stripping is idempotent on every document in which no line that stays is
/// metadata.
pub proof fn lemma_stripping_is_idempotent(lines: Seq<LyricLine>, options: MetadataStripperOptions)
    requires
        forall|i: int|
            0 <= i < stripped(lines, options).len() ==> !line_matches(
                line_text(#[trigger] stripped(lines, options)[i]),
                effective_rules(options),
            ),
    ensures
        stripped(stripped(lines, options), options) == stripped(lines, options),
{
    let once = stripped(lines, options);
    if applies(once, options) {
        let flags = metadata_flags(once, effective_rules(options));
        assert forall|i: int| 0 <= i < once.len() implies !#[trigger] flags[i] by {
            assert(!line_matches(line_text(once[i]), effective_rules(options)));
        }
    }
    lemma_stripping_twice(lines, options);
}

/// Where the header limit covers the whole document, no line that stays is
/// metadata, and stripping is idempotent.
pub proof fn lemma_stripping_is_idempotent_on_short_documents(
    lines: Seq<LyricLine>,
    options: MetadataStripperOptions,
)
    requires
        options.header_scan_limit.spec_calculate(lines.len()) == lines.len(),
    ensures
        stripped(stripped(lines, options), options) == stripped(lines, options),
{
    if applies(lines, options) {
        let rules = effective_rules(options);
        let flags = metadata_flags(lines, rules);
        let len = lines.len();
        let footer_limit = options.footer_scan_limit.spec_calculate(len);
        let first = header_cut(flags, len);
        let range = kept_range(flags, len, footer_limit);
        lemma_header_cut(flags, len);
        lemma_kept_range_bounds(flags, len, footer_limit);
        let once = stripped(lines, options);
        assert forall|i: int| 0 <= i < once.len() implies !line_matches(
            line_text(#[trigger] once[i]),
            rules,
        ) by {
            assert(once[i] == lines[range.0 + i]);
            assert(range.0 == first);
            assert(!flags[first + i]);
        }
        lemma_stripping_is_idempotent(lines, options);
    }
}

/// Where every line is metadata, stripping leaves nothing exactly where the
/// two search limits together cover the document.
///
/// Lines that lie beyond both limits are never searched and stay, metadata
/// or not.
pub proof fn lemma_all_metadata_collapses(lines: Seq<LyricLine>, options: MetadataStripperOptions)
    requires
        options.flags.enabled,
        forall|i: int|
            0 <= i < lines.len() ==> line_matches(
                line_text(#[trigger] lines[i]),
                effective_rules(options),
            ),
    ensures
        stripped(lines, options).len() == 0 <==> lines.len()
            <= options.header_scan_limit.spec_calculate(lines.len())
            + options.footer_scan_limit.spec_calculate(lines.len()),
{
    let len = lines.len();
    if len > 0 {
        let rules = effective_rules(options);
        assert(line_matches(line_text(lines[0]), rules));
        assert(rules.has_rules());
        let flags = metadata_flags(lines, rules);
        assert forall|i: int| 0 <= i < len implies #[trigger] flags[i] by {
            assert(line_matches(line_text(lines[i]), rules));
        }
        let header_limit = options.header_scan_limit.spec_calculate(len);
        let footer_limit = options.footer_scan_limit.spec_calculate(len);
        let first = header_cut(flags, header_limit);
        lemma_header_cut(flags, header_limit);
        assert(first == header_limit) by {
            if first < header_limit {
                assert(flags[first as int]);
            }
        }
        if first < len {
            let start = footer_start(len, first, footer_limit);
            lemma_footer_cut(flags, first, footer_limit);
            assert(footer_cut(flags, first, footer_limit) == start) by {
                if start < footer_cut(flags, first, footer_limit) {
                    assert(flags[start as int]);
                }
            }
        }
    }
}

} // verus!
