//! Report rows: the labeled table a run prints, as data.
//!
//! Given the current tally, an optional previous tally and the language, the
//! rows are fixed: `Files` and `Lines`, then the language's keyword rows,
//! then `Ifs`, `Comments`, `Blank Lines`, `Code Lines`, and three derived
//! rows (`Sans Comments`, `Sans Blanks`, `Sans Both`). When a previous tally
//! is present every row carries the signed delta current minus previous;
//! without one no delta is carried at all.

use vstd::prelude::*;
use vstd::string::StringExecFns;

use crate::Language;
use crate::Tally;

verus! {

/// The mathematical content of one report row.
pub struct RowModel {
    pub label: Seq<char>,
    pub value: int,
    pub delta: Option<int>,
}

/// One rendered report row: a label, the current count, and, when a
/// previous run is known, the signed change since that run.
pub struct StatRow {
    pub label: String,
    pub value: usize,
    pub delta: Option<i128>,
}

impl View for StatRow {
    type V = RowModel;

    open spec fn view(&self) -> RowModel {
        RowModel {
            label: self.label@,
            value: self.value as int,
            delta: match self.delta {
                Some(d) => Some(d as int),
                None => None,
            },
        }
    }
}

/// `total_lines` less `comment_lines`, floored at zero: a stored previous
/// tally is not trusted to be internally consistent.
pub open spec fn spec_sans_comments(t: Tally) -> int {
    if t.total_lines >= t.comment_lines {
        t.total_lines - t.comment_lines
    } else {
        0
    }
}

/// `total_lines` less `blank_lines`, floored at zero.
pub open spec fn spec_sans_blanks(t: Tally) -> int {
    if t.total_lines >= t.blank_lines {
        t.total_lines - t.blank_lines
    } else {
        0
    }
}

/// `total_lines` less both `comment_lines` and `blank_lines`, floored at
/// zero.
pub open spec fn spec_sans_both(t: Tally) -> int {
    if t.total_lines >= t.comment_lines + t.blank_lines {
        t.total_lines - t.comment_lines - t.blank_lines
    } else {
        0
    }
}

impl Tally {
    /// Lines that are not comments: `total_lines − comment_lines`,
    /// saturating at zero.
    pub fn sans_comments(&self) -> (r: usize)
        ensures
            r == spec_sans_comments(*self),
    {
        if self.total_lines >= self.comment_lines {
            self.total_lines - self.comment_lines
        } else {
            0
        }
    }

    /// Lines that are not blank: `total_lines − blank_lines`, saturating at
    /// zero.
    pub fn sans_blanks(&self) -> (r: usize)
        ensures
            r == spec_sans_blanks(*self),
    {
        if self.total_lines >= self.blank_lines {
            self.total_lines - self.blank_lines
        } else {
            0
        }
    }

    /// Lines that are neither comments nor blank:
    /// `total_lines − comment_lines − blank_lines`, saturating at zero, so
    /// it is never negative even on an inconsistent stored tally.
    pub fn sans_both(&self) -> (r: usize)
        ensures
            r == spec_sans_both(*self),
    {
        let wo_comments = if self.total_lines >= self.comment_lines {
            self.total_lines - self.comment_lines
        } else {
            0
        };
        if wo_comments >= self.blank_lines {
            wo_comments - self.blank_lines
        } else {
            0
        }
    }
}

/// One row: its delta is current minus previous exactly when a previous
/// value is given.
pub open spec fn spec_row(label: Seq<char>, cur: int, prev: Option<int>) -> RowModel {
    RowModel {
        label,
        value: cur,
        delta: match prev {
            Some(p) => Some(cur - p),
            None => None,
        },
    }
}

/// The two leading rows of every report.
pub open spec fn spec_lead_rows(cur: Tally, prev: Option<Tally>) -> Seq<RowModel> {
    seq![
        spec_row(
            "Files"@,
            cur.filecount as int,
            match prev {
                Some(p) => Some(p.filecount as int),
                None => None,
            },
        ),
        spec_row(
            "Lines"@,
            cur.total_lines as int,
            match prev {
                Some(p) => Some(p.total_lines as int),
                None => None,
            },
        ),
    ]
}

/// The language-specific keyword rows: classes and methods for Python,
/// structs and functions for Rust, none for C and C++.
pub open spec fn spec_keyword_rows(cur: Tally, prev: Option<Tally>, lang: Language) -> Seq<
    RowModel,
> {
    match lang {
        Language::Python => seq![
            spec_row(
                "Classes"@,
                cur.classes as int,
                match prev {
                    Some(p) => Some(p.classes as int),
                    None => None,
                },
            ),
            spec_row(
                "Methods"@,
                cur.methods as int,
                match prev {
                    Some(p) => Some(p.methods as int),
                    None => None,
                },
            ),
        ],
        Language::Rust => seq![
            spec_row(
                "Structs"@,
                cur.structs as int,
                match prev {
                    Some(p) => Some(p.structs as int),
                    None => None,
                },
            ),
            spec_row(
                "Functions"@,
                cur.functions as int,
                match prev {
                    Some(p) => Some(p.functions as int),
                    None => None,
                },
            ),
        ],
        Language::C | Language::Cpp => Seq::empty(),
    }
}

/// The closing rows of every report: the remaining raw metrics and the three
/// derived ones.
pub open spec fn spec_tail_rows(cur: Tally, prev: Option<Tally>) -> Seq<RowModel> {
    seq![
        spec_row(
            "Ifs"@,
            cur.ifs as int,
            match prev {
                Some(p) => Some(p.ifs as int),
                None => None,
            },
        ),
        spec_row(
            "Comments"@,
            cur.comment_lines as int,
            match prev {
                Some(p) => Some(p.comment_lines as int),
                None => None,
            },
        ),
        spec_row(
            "Blank Lines"@,
            cur.blank_lines as int,
            match prev {
                Some(p) => Some(p.blank_lines as int),
                None => None,
            },
        ),
        spec_row(
            "Code Lines"@,
            cur.code_lines as int,
            match prev {
                Some(p) => Some(p.code_lines as int),
                None => None,
            },
        ),
        spec_row(
            "Sans Comments"@,
            spec_sans_comments(cur),
            match prev {
                Some(p) => Some(spec_sans_comments(p)),
                None => None,
            },
        ),
        spec_row(
            "Sans Blanks"@,
            spec_sans_blanks(cur),
            match prev {
                Some(p) => Some(spec_sans_blanks(p)),
                None => None,
            },
        ),
        spec_row(
            "Sans Both"@,
            spec_sans_both(cur),
            match prev {
                Some(p) => Some(spec_sans_both(p)),
                None => None,
            },
        ),
    ]
}

/// Every row of the report, in print order.
pub open spec fn spec_rows(cur: Tally, prev: Option<Tally>, lang: Language) -> Seq<RowModel> {
    spec_lead_rows(cur, prev) + spec_keyword_rows(cur, prev, lang) + spec_tail_rows(cur, prev)
}

/// The views of a sequence of rendered rows.
pub open spec fn rows_model(rows: Seq<StatRow>) -> Seq<RowModel> {
    rows.map_values(|r: StatRow| r@)
}

fn make_row(label: &str, cur: usize, prev: Option<usize>) -> (r: StatRow)
    ensures
        r@ == spec_row(
            label@,
            cur as int,
            match prev {
                Some(p) => Some(p as int),
                None => None,
            },
        ),
{
    let delta: Option<i128> = match prev {
        Some(p) => Some(cur as i128 - p as i128),
        None => None,
    };
    StatRow { label: label.to_owned(), value: cur, delta }
}

/// Renders the report: each metric of the current tally as a labeled row,
/// with a signed delta against the previous tally when one is given, and the
/// three derived rows computed with saturating subtraction.
pub fn report_rows(stats: &Tally, prev_stats: &Option<Tally>, language: &Language) -> (rows: Vec<
    StatRow,
>)
    ensures
        rows_model(rows@) == spec_rows(*stats, *prev_stats, *language),
{
    let mut rows: Vec<StatRow> = Vec::new();
    let cur = *stats;
    rows.push(
        make_row(
            "Files",
            cur.filecount,
            match prev_stats {
                Some(p) => Some(p.filecount),
                None => None,
            },
        ),
    );
    rows.push(
        make_row(
            "Lines",
            cur.total_lines,
            match prev_stats {
                Some(p) => Some(p.total_lines),
                None => None,
            },
        ),
    );
    match language {
        Language::Python => {
            rows.push(
                make_row(
                    "Classes",
                    cur.classes,
                    match prev_stats {
                        Some(p) => Some(p.classes),
                        None => None,
                    },
                ),
            );
            rows.push(
                make_row(
                    "Methods",
                    cur.methods,
                    match prev_stats {
                        Some(p) => Some(p.methods),
                        None => None,
                    },
                ),
            );
        },
        Language::Rust => {
            rows.push(
                make_row(
                    "Structs",
                    cur.structs,
                    match prev_stats {
                        Some(p) => Some(p.structs),
                        None => None,
                    },
                ),
            );
            rows.push(
                make_row(
                    "Functions",
                    cur.functions,
                    match prev_stats {
                        Some(p) => Some(p.functions),
                        None => None,
                    },
                ),
            );
        },
        Language::C | Language::Cpp => {},
    }
    rows.push(
        make_row(
            "Ifs",
            cur.ifs,
            match prev_stats {
                Some(p) => Some(p.ifs),
                None => None,
            },
        ),
    );
    rows.push(
        make_row(
            "Comments",
            cur.comment_lines,
            match prev_stats {
                Some(p) => Some(p.comment_lines),
                None => None,
            },
        ),
    );
    rows.push(
        make_row(
            "Blank Lines",
            cur.blank_lines,
            match prev_stats {
                Some(p) => Some(p.blank_lines),
                None => None,
            },
        ),
    );
    rows.push(
        make_row(
            "Code Lines",
            cur.code_lines,
            match prev_stats {
                Some(p) => Some(p.code_lines),
                None => None,
            },
        ),
    );
    rows.push(
        make_row(
            "Sans Comments",
            cur.sans_comments(),
            match prev_stats {
                Some(p) => Some(p.sans_comments()),
                None => None,
            },
        ),
    );
    rows.push(
        make_row(
            "Sans Blanks",
            cur.sans_blanks(),
            match prev_stats {
                Some(p) => Some(p.sans_blanks()),
                None => None,
            },
        ),
    );
    rows.push(
        make_row(
            "Sans Both",
            cur.sans_both(),
            match prev_stats {
                Some(p) => Some(p.sans_both()),
                None => None,
            },
        ),
    );
    proof {
        assert(rows_model(rows@) =~= spec_rows(*stats, *prev_stats, *language));
    }
    rows
}

/// `Sans Both` is never negative, whatever the tally holds; and on any tally
/// that analysis itself produced it is exactly the code lines.
pub proof fn lemma_sans_both_nonnegative(t: Tally)
    ensures
        spec_sans_both(t) >= 0,
        t.wf() ==> spec_sans_both(t) == t.code_lines,
{
}

/// The fixed message of a run that found no matching files.
pub open spec fn spec_no_files_message(lang: Language) -> Seq<char> {
    "No ."@ + lang.spec_extension() + " files found in the specified directory"@
}

/// The message printed when no file of the language's extension exists under
/// the project directory. Such a run ends successfully and writes no cache
/// record.
pub fn no_files_message(language: &Language) -> (r: String)
    ensures
        r@ == spec_no_files_message(*language),
{
    let mut s = "No .".to_owned();
    s.append(language.extension());
    s.append(" files found in the specified directory");
    s
}

/// Re-running analysis on an unchanged project yields a delta of zero for
/// every row of the report: whenever the previous tally equals the current
/// one, every delta shown is exactly zero.
pub proof fn lemma_rerun_zero_delta(t: Tally, lang: Language)
    ensures
        forall|i: int|
            0 <= i < spec_rows(t, Some(t), lang).len() ==> spec_rows(t, Some(t), lang)[i].delta
                == Some(0int),
{
    let rows = spec_rows(t, Some(t), lang);
    assert forall|i: int| 0 <= i < rows.len() implies rows[i].delta == Some(0int) by {
        let lead = spec_lead_rows(t, Some(t));
        let kw = spec_keyword_rows(t, Some(t), lang);
        let tail = spec_tail_rows(t, Some(t));
        if i < lead.len() {
            assert(rows[i] == lead[i]);
        } else if i < lead.len() + kw.len() {
            assert(rows[i] == kw[i - lead.len()]);
        } else {
            assert(rows[i] == tail[i - lead.len() - kw.len()]);
        }
    }
}

} // verus!
