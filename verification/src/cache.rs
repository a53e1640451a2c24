//! A cache of compiled regular expressions, keyed by pattern and case flag.

use crate::matcher::{clone_regex, compile_regex, compiled_language, regex_language};
use regex::Regex;
use vstd::prelude::*;

verus! {

/// One cached expression with the key it was compiled from.
struct CachedRegex {
    pattern: String,
    case_sensitive: bool,
    regex: Regex,
}

/// Compiled expressions, each kept under the pattern and case flag it was
/// compiled from. The cache only grows.
pub struct RegexCache {
    entries: Vec<CachedRegex>,
}

impl View for RegexCache {
    type V = Seq<(Seq<char>, bool)>;

    /// The cached keys, oldest first.
    closed spec fn view(&self) -> Seq<(Seq<char>, bool)> {
        Seq::new(
            self.entries@.len(),
            |i: int| (self.entries@[i].pattern@, self.entries@[i].case_sensitive),
        )
    }
}

impl RegexCache {
    /// Every entry holds what its key compiles to, and no key occurs twice.
    #[verifier::type_invariant]
    spec fn inv(self) -> bool {
        &&& forall|i: int|
            0 <= i < self.entries@.len() ==> compiled_language(
                (#[trigger] self.entries@[i]).pattern@,
                self.entries@[i].case_sensitive,
            ) == Some(regex_language(self.entries@[i].regex))
        &&& forall|i: int, j: int|
            0 <= i < j < self.entries@.len() ==> (#[trigger] self@[i]) != (#[trigger] self@[j])
    }

    /// An empty cache.
    pub fn new() -> (cache: Self)
        ensures
            cache@.len() == 0,
    {
        RegexCache { entries: Vec::new() }
    }

    /// The number of cached expressions.
    pub fn len(&self) -> (n: usize)
        ensures
            n == self@.len(),
    {
        self.entries.len()
    }

    /// Whether an expression is cached under the given key.
    pub fn contains(&self, pattern: &str, case_sensitive: bool) -> (b: bool)
        ensures
            b == self@.contains((pattern@, case_sensitive)),
    {
        self.position(pattern, case_sensitive) < self.entries.len()
    }

    /// Where the given key is cached, or the number of entries where it is
    /// not.
    fn position(&self, pattern: &str, case_sensitive: bool) -> (k: usize)
        ensures
            k <= self@.len(),
            k < self@.len() ==> self@[k as int] == (pattern@, case_sensitive),
            k == self@.len() ==> !self@.contains((pattern@, case_sensitive)),
    {
        let key = pattern.to_owned();
        let mut i: usize = 0;
        while i < self.entries.len()
            invariant
                i <= self.entries@.len(),
                key@ == pattern@,
                forall|j: int| 0 <= j < i ==> (#[trigger] self@[j]) != (pattern@, case_sensitive),
            decreases self.entries@.len() - i,
        {
            let entry = &self.entries[i];
            if entry.case_sensitive == case_sensitive && entry.pattern == key {
                return i;
            }
            i += 1;
        }
        i
    }
}

impl Default for RegexCache {
    fn default() -> (cache: Self)
        ensures
            cache@.len() == 0,
    {
        RegexCache::new()
    }
}

/// The compiled form of `pattern`, taken from `cache` where it is cached and
/// compiled and cached where it is not. A pattern that does not compile gives
/// `None` and is not cached.
///
/// Whatever the cache holds, the result has the language that compiling the
/// pattern afresh would give.
pub fn get_cached_regex(cache: &mut RegexCache, pattern: &str, case_sensitive: bool) -> (r: Option<
    Regex,
>)
    ensures
        match r {
            Some(re) => compiled_language(pattern@, case_sensitive) == Some(regex_language(re)),
            None => compiled_language(pattern@, case_sensitive) is None,
        },
        final(cache)@ == if r is Some && !old(cache)@.contains((pattern@, case_sensitive)) {
            old(cache)@.push((pattern@, case_sensitive))
        } else {
            old(cache)@
        },
{
    proof {
        use_type_invariant(&*cache);
    }
    let k = cache.position(pattern, case_sensitive);
    if k < cache.entries.len() {
        return Some(clone_regex(&cache.entries[k].regex));
    }
    match compile_regex(pattern, !case_sensitive) {
        Some(regex) => {
            let handle = clone_regex(&regex);
            let ghost before = cache@;
            let mut taken = RegexCache::new();
            core::mem::swap(cache, &mut taken);
            proof {
                use_type_invariant(&taken);
                assert(taken@ == before);
                assert forall|i: int| 0 <= i < before.len() implies before[i] != (
                    pattern@,
                    case_sensitive,
                ) by {
                    assert(before.contains(before[i]));
                }
            }
            let mut entries = taken.entries;
            let ghost kept = entries@;
            entries.push(CachedRegex { pattern: pattern.to_owned(), case_sensitive, regex });
            proof {
                let after = Seq::new(
                    entries@.len(),
                    |i: int| (entries@[i].pattern@, entries@[i].case_sensitive),
                );
                assert(after =~= before.push((pattern@, case_sensitive)));
                assert forall|i: int| 0 <= i < entries@.len() implies compiled_language(
                    (#[trigger] entries@[i]).pattern@,
                    entries@[i].case_sensitive,
                ) == Some(regex_language(entries@[i].regex)) by {
                    if i < kept.len() {
                        assert(entries@[i] == kept[i]);
                    }
                }
                assert forall|i: int, j: int| 0 <= i < j < after.len() implies (#[trigger] after[i])
                    != (#[trigger] after[j]) by {
                    if j < before.len() {
                        assert(after[i] == before[i] && after[j] == before[j]);
                    }
                }
            }
            let grown = RegexCache { entries };
            *cache = grown;
            Some(handle)
        },
        None => None,
    }
}

} // verus!
