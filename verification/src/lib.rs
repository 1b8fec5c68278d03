//! Line-count statistics for source trees: classify each line of a file as
//! blank, comment, keyword or plain code, aggregate the counts per project,
//! and render them as labeled report rows, optionally with a delta against a
//! previously cached run.
//!
//! Lines and file paths are handled as byte strings (`Vec<u8>` / `&[u8]`);
//! every rule the classifier checks is a prefix of ASCII bytes, so the checks
//! are exact on UTF-8 text as well.

use vstd::prelude::*;

pub mod analyzer;
pub mod cache;
pub mod stats;
pub mod utils;

verus! {

/// The languages the analyzer knows, each with a file extension, a
/// comment-line marker and a set of keyword-prefix rules.
#[derive(Clone, Copy, Debug, PartialEq, Eq, Structural)]
pub enum Language {
    Python,
    Rust,
    C,
    Cpp,
}

impl Language {
    /// The canonical file extension of this language, without the dot.
    pub open spec fn spec_extension(self) -> Seq<char> {
        match self {
            Language::Python => "py"@,
            Language::Rust => "rs"@,
            Language::C => "c"@,
            Language::Cpp => "cpp"@,
        }
    }

    /// The canonical file extension of this language, without the dot.
    pub fn extension(&self) -> (r: &'static str)
        ensures
            r@ == self.spec_extension(),
    {
        match self {
            Language::Python => "py",
            Language::Rust => "rs",
            Language::C => "c",
            Language::Cpp => "cpp",
        }
    }

    /// The canonical file extension as bytes, for matching against paths.
    pub open spec fn spec_extension_bytes(self) -> Seq<u8> {
        match self {
            Language::Python => seq!['p' as u8, 'y' as u8],
            Language::Rust => seq!['r' as u8, 's' as u8],
            Language::C => seq!['c' as u8],
            Language::Cpp => seq!['c' as u8, 'p' as u8, 'p' as u8],
        }
    }

    /// The canonical file extension as bytes, for matching against paths.
    pub fn extension_bytes(&self) -> (r: Vec<u8>)
        ensures
            r@ == self.spec_extension_bytes(),
    {
        let mut v: Vec<u8> = Vec::new();
        match self {
            Language::Python => {
                v.push('p' as u8);
                v.push('y' as u8);
            },
            Language::Rust => {
                v.push('r' as u8);
                v.push('s' as u8);
            },
            Language::C => {
                v.push('c' as u8);
            },
            Language::Cpp => {
                v.push('c' as u8);
                v.push('p' as u8);
                v.push('p' as u8);
            },
        }
        proof {
            assert(v@ =~= self.spec_extension_bytes());
        }
        v
    }

    /// The lower-case name of this language, as it appears in cache file names.
    pub open spec fn spec_name(self) -> Seq<char> {
        match self {
            Language::Python => "python"@,
            Language::Rust => "rust"@,
            Language::C => "c"@,
            Language::Cpp => "cpp"@,
        }
    }

    /// The lower-case name of this language, as it appears in cache file names.
    pub fn name(&self) -> (r: &'static str)
        ensures
            r@ == self.spec_name(),
    {
        match self {
            Language::Python => "python",
            Language::Rust => "rust",
            Language::C => "c",
            Language::Cpp => "cpp",
        }
    }
}

/// One keyword category a classified line can fall under. Which categories
/// can occur depends on the language of the run.
#[derive(Clone, Copy, Debug, PartialEq, Eq, Structural)]
pub enum Category {
    Classes,
    Methods,
    Structs,
    Functions,
    Ifs,
}

/// The accumulated per-metric line counts of one analysis run.
///
/// A metric that a language does not track simply stays at zero, which
/// matches reading an absent entry of a stored record as zero.
#[derive(Clone, Copy, Debug, PartialEq, Eq, Structural)]
pub struct Tally {
    pub filecount: usize,
    pub total_lines: usize,
    pub blank_lines: usize,
    pub comment_lines: usize,
    pub code_lines: usize,
    pub classes: usize,
    pub methods: usize,
    pub structs: usize,
    pub functions: usize,
    pub ifs: usize,
}

impl Tally {
    /// Internal consistency of a tally produced by analysis: the three line
    /// buckets partition the total, and keyword lines are a subset of the
    /// code lines.
    pub open spec fn wf(self) -> bool {
        &&& self.blank_lines + self.comment_lines + self.code_lines == self.total_lines
        &&& self.classes + self.methods + self.structs + self.functions + self.ifs
            <= self.code_lines
    }

    /// A tally with every count zero, except for the number of selected
    /// files, which analysis never changes.
    pub fn new(filecount: usize) -> (t: Tally)
        ensures
            t == (Tally {
                filecount,
                total_lines: 0,
                blank_lines: 0,
                comment_lines: 0,
                code_lines: 0,
                classes: 0,
                methods: 0,
                structs: 0,
                functions: 0,
                ifs: 0,
            }),
            t.wf(),
    {
        Tally {
            filecount,
            total_lines: 0,
            blank_lines: 0,
            comment_lines: 0,
            code_lines: 0,
            classes: 0,
            methods: 0,
            structs: 0,
            functions: 0,
            ifs: 0,
        }
    }
}

} // verus!
