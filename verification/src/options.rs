//! What a caller hands to the metadata stripper.

use vstd::prelude::*;

verus! {

/// The switches of the metadata stripper.
#[derive(Debug, Clone, Copy, PartialEq, Eq, Hash, Structural)]
pub struct MetadataStripperFlags {
    /// The stripper runs at all.
    pub enabled: bool,
    /// Keywords are compared letter for letter; otherwise in lower case.
    pub keyword_case_sensitive: bool,
    /// Regular expressions are used beside the keywords.
    pub enable_regex_stripping: bool,
    /// Regular expressions tell upper case from lower case.
    pub regex_case_sensitive: bool,
}

impl MetadataStripperFlags {
    /// No switch set.
    pub fn empty() -> (r: Self)
        ensures
            !r.enabled,
            !r.keyword_case_sensitive,
            !r.enable_regex_stripping,
            !r.regex_case_sensitive,
    {
        MetadataStripperFlags {
            enabled: false,
            keyword_case_sensitive: false,
            enable_regex_stripping: false,
            regex_case_sensitive: false,
        }
    }
}

impl Default for MetadataStripperFlags {
    /// The stripper runs, with regular expressions, and ignores case.
    fn default() -> (r: Self)
        ensures
            r.enabled,
            !r.keyword_case_sensitive,
            r.enable_regex_stripping,
            !r.regex_case_sensitive,
    {
        MetadataStripperFlags {
            enabled: true,
            keyword_case_sensitive: false,
            enable_regex_stripping: true,
            regex_case_sensitive: false,
        }
    }
}

/// How many lines at one end of a document are searched for metadata: a
/// share of the document, kept between a least and a greatest count.
#[derive(Debug, Clone, Copy, PartialEq, Eq, Hash, Structural)]
pub struct ScanLimitConfig {
    /// The share of the document, in thousandths.
    pub ratio_per_mille: u32,
    /// At least this many lines are searched, if the document has them.
    pub min_lines: usize,
    /// At most this many lines are searched.
    pub max_lines: usize,
}

/// The smaller of two numbers.
pub open spec fn smaller(a: nat, b: nat) -> nat {
    if a <= b {
        a
    } else {
        b
    }
}

/// The larger of two numbers.
pub open spec fn larger(a: nat, b: nat) -> nat {
    if a >= b {
        a
    } else {
        b
    }
}

impl ScanLimitConfig {
    /// The share of `total_lines`, rounded up to a whole line.
    pub open spec fn share(&self, total_lines: nat) -> nat {
        ((total_lines * self.ratio_per_mille + 999) / 1000) as nat
    }

    /// The number of lines to search in a document of `total_lines` lines:
    /// the share, raised to `min_lines`, then cut to `max_lines` and to the
    /// document itself.
    pub open spec fn spec_calculate(&self, total_lines: nat) -> nat {
        smaller(
            smaller(larger(self.share(total_lines), self.min_lines as nat), self.max_lines as nat),
            total_lines,
        )
    }

    /// The number of lines to search in a document of `total_lines` lines.
    pub fn calculate(&self, total_lines: usize) -> (limit: usize)
        ensures
            limit == self.spec_calculate(total_lines as nat),
            limit <= total_lines,
    {
        assert(total_lines as u128 * self.ratio_per_mille as u128 <= 0xffff_ffff_ffff_ffff
            * 0xffff_ffff) by (nonlinear_arith)
            requires
                total_lines <= 0xffff_ffff_ffff_ffff,
                self.ratio_per_mille <= 0xffff_ffff,
        ;
        let share: u128 = (total_lines as u128 * self.ratio_per_mille as u128 + 999) / 1000;
        let raised: usize = if share >= total_lines as u128 {
            if self.min_lines > total_lines {
                self.min_lines
            } else {
                total_lines
            }
        } else if share as usize > self.min_lines {
            share as usize
        } else {
            self.min_lines
        };
        let cut: usize = if raised < self.max_lines {
            raised
        } else {
            self.max_lines
        };
        if cut < total_lines {
            cut
        } else {
            total_lines
        }
    }
}

/// The search limit for the head of a document: a fifth of it, between 20
/// and 70 lines.
pub fn default_header_scan_limit() -> (r: ScanLimitConfig)
    ensures
        r == (ScanLimitConfig { ratio_per_mille: 200, min_lines: 20, max_lines: 70 }),
{
    ScanLimitConfig { ratio_per_mille: 200, min_lines: 20, max_lines: 70 }
}

/// The search limit for the tail of a document: a fifth of it, between 20
/// and 50 lines.
pub fn default_footer_scan_limit() -> (r: ScanLimitConfig)
    ensures
        r == (ScanLimitConfig { ratio_per_mille: 200, min_lines: 20, max_lines: 50 }),
{
    ScanLimitConfig { ratio_per_mille: 200, min_lines: 20, max_lines: 50 }
}

/// The configuration of the metadata stripper.
#[derive(Debug, Clone, PartialEq, Eq)]
pub struct MetadataStripperOptions {
    pub flags: MetadataStripperFlags,
    /// A line that starts with one of these, followed by a colon, is metadata.
    pub keywords: Vec<String>,
    /// A line in which one of these expressions matches is metadata.
    pub regex_patterns: Vec<String>,
    pub header_scan_limit: ScanLimitConfig,
    pub footer_scan_limit: ScanLimitConfig,
}

impl Default for MetadataStripperOptions {
    /// The default switches and limits, with no rule of the caller's own.
    fn default() -> (r: Self)
        ensures
            r.flags == (MetadataStripperFlags {
                enabled: true,
                keyword_case_sensitive: false,
                enable_regex_stripping: true,
                regex_case_sensitive: false,
            }),
            r.keywords@.len() == 0,
            r.regex_patterns@.len() == 0,
            r.header_scan_limit == (ScanLimitConfig {
                ratio_per_mille: 200,
                min_lines: 20,
                max_lines: 70,
            }),
            r.footer_scan_limit == (ScanLimitConfig {
                ratio_per_mille: 200,
                min_lines: 20,
                max_lines: 50,
            }),
    {
        MetadataStripperOptions {
            flags: MetadataStripperFlags::default(),
            keywords: Vec::new(),
            regex_patterns: Vec::new(),
            header_scan_limit: default_header_scan_limit(),
            footer_scan_limit: default_footer_scan_limit(),
        }
    }
}

} // verus!
