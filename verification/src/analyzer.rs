//! Per-line classification and per-file accumulation.
//!
//! Every line of a file falls into exactly one bucket: blank, comment,
//! keyword (a code line that starts with a tracked keyword) or plain code.
//! Classification looks only at the line after its leading blanks (spaces
//! and tabs) are stripped, and checks, in this order: emptiness, the
//! language's comment marker, then the language's keyword prefixes in their
//! declared order.

use vstd::prelude::*;

use crate::Category;
use crate::Language;
use crate::Tally;

verus! {

/// A leading blank: a space or a tab.
pub open spec fn is_blank_byte(b: u8) -> bool {
    b == ' ' as u8 || b == '\t' as u8
}

/// The line with its leading blanks removed.
pub open spec fn trimmed(line: Seq<u8>) -> Seq<u8>
    decreases line.len(),
{
    if line.len() > 0 && is_blank_byte(line[0]) {
        trimmed(line.drop_first())
    } else {
        line
    }
}

/// Strips leading spaces and tabs from a line.
pub fn trim_start<'a>(line: &'a [u8]) -> (r: &'a [u8])
    ensures
        r@ == trimmed(line@),
{
    let mut i: usize = 0;
    proof {
        assert(line@.skip(0) =~= line@);
    }
    while i < line.len() && (line[i] == ' ' as u8 || line[i] == '\t' as u8)
        invariant
            0 <= i <= line@.len(),
            trimmed(line@) == trimmed(line@.skip(i as int)),
        decreases line@.len() - i,
    {
        proof {
            assert(line@.skip(i as int)[0] == line@[i as int]);
            assert(line@.skip(i as int).drop_first() =~= line@.skip(i as int + 1));
        }
        i = i + 1;
    }
    let r = vstd::slice::slice_subrange(line, i, line.len());
    proof {
        assert(r@ =~= line@.skip(i as int));
        if i < line@.len() {
            assert(line@.skip(i as int)[0] == line@[i as int]);
            assert(trimmed(line@.skip(i as int)) == line@.skip(i as int));
        } else {
            assert(line@.skip(i as int).len() == 0);
        }
    }
    r
}

/// Whether `p` is a prefix of `s`, byte for byte.
pub fn starts_with(s: &[u8], p: &[u8]) -> (r: bool)
    ensures
        r == p@.is_prefix_of(s@),
{
    if p.len() > s.len() {
        return false;
    }
    let mut i: usize = 0;
    while i < p.len()
        invariant
            0 <= i <= p@.len() <= s@.len(),
            forall|j: int| 0 <= j < i ==> s@[j] == p@[j],
        decreases p@.len() - i,
    {
        if s[i] != p[i] {
            proof {
                assert(s@.subrange(0, p@.len() as int)[i as int] != p@[i as int]);
            }
            return false;
        }
        i = i + 1;
    }
    proof {
        assert(p@ =~= s@.subrange(0, p@.len() as int));
    }
    true
}

/// The comment-line rule: a trimmed line is a comment when it starts with
/// the language's comment marker (`#` for Python, `//` otherwise).
pub open spec fn spec_is_comment(line: Seq<u8>, lang: Language) -> bool {
    match lang {
        Language::Python => line.len() >= 1 && line[0] == '#' as u8,
        Language::Rust | Language::C | Language::Cpp => line.len() >= 2 && line[0] == '/' as u8
            && line[1] == '/' as u8,
    }
}

/// Whether an already-trimmed line is a comment line of the language.
pub fn is_comment(line: &[u8], language: &Language) -> (r: bool)
    ensures
        r == spec_is_comment(line@, *language),
{
    match language {
        Language::Python => line.len() >= 1 && line[0] == '#' as u8,
        Language::Rust | Language::C | Language::Cpp => line.len() >= 2 && line[0] == '/' as u8
            && line[1] == '/' as u8,
    }
}

/// Prefix that marks a Python class definition: `"class "`.
pub open spec fn kw_class() -> Seq<u8> {
    seq!['c' as u8, 'l' as u8, 'a' as u8, 's' as u8, 's' as u8, ' ' as u8]
}

/// Prefix that marks a Python method definition: `"def "`.
pub open spec fn kw_def() -> Seq<u8> {
    seq!['d' as u8, 'e' as u8, 'f' as u8, ' ' as u8]
}

/// Prefix that marks an `if` line in Python and Rust: `"if "`.
pub open spec fn kw_if() -> Seq<u8> {
    seq!['i' as u8, 'f' as u8, ' ' as u8]
}

/// Prefix that marks a Rust struct definition: `"struct "`.
pub open spec fn kw_struct() -> Seq<u8> {
    seq!['s' as u8, 't' as u8, 'r' as u8, 'u' as u8, 'c' as u8, 't' as u8, ' ' as u8]
}

/// Prefix that marks a Rust function definition: `"fn "`.
pub open spec fn kw_fn() -> Seq<u8> {
    seq!['f' as u8, 'n' as u8, ' ' as u8]
}

/// Prefix that marks an `if` line in C and C++: `"if ("`.
pub open spec fn kw_if_paren() -> Seq<u8> {
    seq!['i' as u8, 'f' as u8, ' ' as u8, '(' as u8]
}

/// The keyword rule: the first keyword prefix of the language, in declared
/// order, that the trimmed line starts with.
pub open spec fn spec_keyword(line: Seq<u8>, lang: Language) -> Option<Category> {
    match lang {
        Language::Python => if kw_class().is_prefix_of(line) {
            Some(Category::Classes)
        } else if kw_def().is_prefix_of(line) {
            Some(Category::Methods)
        } else if kw_if().is_prefix_of(line) {
            Some(Category::Ifs)
        } else {
            None
        },
        Language::Rust => if kw_struct().is_prefix_of(line) {
            Some(Category::Structs)
        } else if kw_fn().is_prefix_of(line) {
            Some(Category::Functions)
        } else if kw_if().is_prefix_of(line) {
            Some(Category::Ifs)
        } else {
            None
        },
        Language::C | Language::Cpp => if kw_if_paren().is_prefix_of(line) {
            Some(Category::Ifs)
        } else {
            None
        },
    }
}

/// The keyword category of an already-trimmed line, if any.
pub fn get_keyword(line: &[u8], language: &Language) -> (r: Option<Category>)
    ensures
        r == spec_keyword(line@, *language),
{
    match language {
        Language::Python => {
            let class_p = ['c' as u8, 'l' as u8, 'a' as u8, 's' as u8, 's' as u8, ' ' as u8];
            let def_p = ['d' as u8, 'e' as u8, 'f' as u8, ' ' as u8];
            let if_p = ['i' as u8, 'f' as u8, ' ' as u8];
            proof {
                assert(class_p@ =~= kw_class());
                assert(def_p@ =~= kw_def());
                assert(if_p@ =~= kw_if());
            }
            if starts_with(line, &class_p) {
                Some(Category::Classes)
            } else if starts_with(line, &def_p) {
                Some(Category::Methods)
            } else if starts_with(line, &if_p) {
                Some(Category::Ifs)
            } else {
                None
            }
        },
        Language::Rust => {
            let struct_p = ['s' as u8, 't' as u8, 'r' as u8, 'u' as u8, 'c' as u8, 't' as u8,
                ' ' as u8];
            let fn_p = ['f' as u8, 'n' as u8, ' ' as u8];
            let if_p = ['i' as u8, 'f' as u8, ' ' as u8];
            proof {
                assert(struct_p@ =~= kw_struct());
                assert(fn_p@ =~= kw_fn());
                assert(if_p@ =~= kw_if());
            }
            if starts_with(line, &struct_p) {
                Some(Category::Structs)
            } else if starts_with(line, &fn_p) {
                Some(Category::Functions)
            } else if starts_with(line, &if_p) {
                Some(Category::Ifs)
            } else {
                None
            }
        },
        Language::C | Language::Cpp => {
            let if_p = ['i' as u8, 'f' as u8, ' ' as u8, '(' as u8];
            proof {
                assert(if_p@ =~= kw_if_paren());
            }
            if starts_with(line, &if_p) {
                Some(Category::Ifs)
            } else {
                None
            }
        },
    }
}

/// The bucket of one line: exactly one of blank, comment, keyword or plain
/// code.
#[derive(Clone, Copy, Debug, PartialEq, Eq, Structural)]
pub enum LineClass {
    Blank,
    Comment,
    Keyword(Category),
    Code,
}

/// Classification of one raw line, in strict precedence order: blank, then
/// comment, then keyword, then plain code.
pub open spec fn spec_classify(line: Seq<u8>, lang: Language) -> LineClass {
    let t = trimmed(line);
    if t.len() == 0 {
        LineClass::Blank
    } else if spec_is_comment(t, lang) {
        LineClass::Comment
    } else {
        match spec_keyword(t, lang) {
            Some(c) => LineClass::Keyword(c),
            None => LineClass::Code,
        }
    }
}

/// Classifies one raw line of a file.
pub fn classify_line(line: &[u8], language: &Language) -> (c: LineClass)
    ensures
        c == spec_classify(line@, *language),
{
    let t = trim_start(line);
    if t.len() == 0 {
        LineClass::Blank
    } else if is_comment(t, language) {
        LineClass::Comment
    } else {
        match get_keyword(t, language) {
            Some(c) => LineClass::Keyword(c),
            None => LineClass::Code,
        }
    }
}

/// The mathematical per-bucket counts of a set of lines: what a tally gains
/// when those lines are analyzed.
pub struct LineCounts {
    pub total: nat,
    pub blank: nat,
    pub comment: nat,
    pub code: nat,
    pub classes: nat,
    pub methods: nat,
    pub structs: nat,
    pub functions: nat,
    pub ifs: nat,
}

/// Counts with every bucket zero.
pub open spec fn zero_counts() -> LineCounts {
    LineCounts {
        total: 0,
        blank: 0,
        comment: 0,
        code: 0,
        classes: 0,
        methods: 0,
        structs: 0,
        functions: 0,
        ifs: 0,
    }
}

/// Counts after one more line of the given class: the total always grows by
/// one, exactly one of blank, comment and code grows by one, and a keyword
/// line grows its category as well as code.
pub open spec fn add_line(c: LineCounts, cl: LineClass) -> LineCounts {
    match cl {
        LineClass::Blank => LineCounts { total: c.total + 1, blank: c.blank + 1, ..c },
        LineClass::Comment => LineCounts { total: c.total + 1, comment: c.comment + 1, ..c },
        LineClass::Code => LineCounts { total: c.total + 1, code: c.code + 1, ..c },
        LineClass::Keyword(cat) => {
            let bumped = LineCounts { total: c.total + 1, code: c.code + 1, ..c };
            match cat {
                Category::Classes => LineCounts { classes: c.classes + 1, ..bumped },
                Category::Methods => LineCounts { methods: c.methods + 1, ..bumped },
                Category::Structs => LineCounts { structs: c.structs + 1, ..bumped },
                Category::Functions => LineCounts { functions: c.functions + 1, ..bumped },
                Category::Ifs => LineCounts { ifs: c.ifs + 1, ..bumped },
            }
        },
    }
}

/// The counts of one file's lines under the classification rules of `lang`.
pub open spec fn file_counts(lines: Seq<Seq<u8>>, lang: Language) -> LineCounts
    decreases lines.len(),
{
    if lines.len() == 0 {
        zero_counts()
    } else {
        add_line(file_counts(lines.drop_last(), lang), spec_classify(lines.last(), lang))
    }
}

proof fn lemma_file_counts_step(lines: Seq<Seq<u8>>, i: int, lang: Language)
    requires
        0 <= i < lines.len(),
    ensures
        file_counts(lines.subrange(0, i + 1), lang) == add_line(
            file_counts(lines.subrange(0, i), lang),
            spec_classify(lines[i], lang),
        ),
{
    assert(lines.subrange(0, i + 1).drop_last() =~= lines.subrange(0, i));
    assert(lines.subrange(0, i + 1).last() == lines[i]);
}

/// The four per-line buckets are mutually exclusive and together exhaust the
/// file: blanks, comments and code lines partition the total, which equals
/// the number of lines, and the keyword categories (each keyword line lands
/// in exactly one) never exceed the code lines they are part of.
pub proof fn lemma_buckets_partition(lines: Seq<Seq<u8>>, lang: Language)
    ensures
        file_counts(lines, lang).total == lines.len(),
        file_counts(lines, lang).blank + file_counts(lines, lang).comment + file_counts(
            lines,
            lang,
        ).code == lines.len(),
        file_counts(lines, lang).classes + file_counts(lines, lang).methods + file_counts(
            lines,
            lang,
        ).structs + file_counts(lines, lang).functions + file_counts(lines, lang).ifs
            <= file_counts(lines, lang).code,
    decreases lines.len(),
{
    if lines.len() > 0 {
        lemma_buckets_partition(lines.drop_last(), lang);
    }
}

/// Analyzes the lines of one file, adding each line's bucket to the running
/// tally. The number of selected files is not this function's business and
/// stays as it was.
pub fn analyze_file(lines: &Vec<Vec<u8>>, language: &Language, stats: &mut Tally)
    requires
        old(stats).wf(),
        old(stats).total_lines + lines@.len() <= usize::MAX,
    ensures
        final(stats).wf(),
        final(stats).filecount == old(stats).filecount,
        final(stats).total_lines == old(stats).total_lines + lines@.len(),
        final(stats).blank_lines == old(stats).blank_lines + file_counts(
            lines.deep_view(),
            *language,
        ).blank,
        final(stats).comment_lines == old(stats).comment_lines + file_counts(
            lines.deep_view(),
            *language,
        ).comment,
        final(stats).code_lines == old(stats).code_lines + file_counts(
            lines.deep_view(),
            *language,
        ).code,
        final(stats).classes == old(stats).classes + file_counts(
            lines.deep_view(),
            *language,
        ).classes,
        final(stats).methods == old(stats).methods + file_counts(
            lines.deep_view(),
            *language,
        ).methods,
        final(stats).structs == old(stats).structs + file_counts(
            lines.deep_view(),
            *language,
        ).structs,
        final(stats).functions == old(stats).functions + file_counts(
            lines.deep_view(),
            *language,
        ).functions,
        final(stats).ifs == old(stats).ifs + file_counts(lines.deep_view(), *language).ifs,
{
    let ghost dv = lines.deep_view();
    let mut i: usize = 0;
    proof {
        assert(dv.subrange(0, 0) =~= Seq::<Seq<u8>>::empty());
    }
    while i < lines.len()
        invariant
            0 <= i <= lines@.len(),
            dv == lines.deep_view(),
            dv.len() == lines@.len(),
            old(stats).wf(),
            old(stats).total_lines + lines@.len() <= usize::MAX,
            stats.wf(),
            stats.filecount == old(stats).filecount,
            file_counts(dv.subrange(0, i as int), *language).total == i,
            stats.total_lines == old(stats).total_lines + i,
            stats.blank_lines == old(stats).blank_lines + file_counts(
                dv.subrange(0, i as int),
                *language,
            ).blank,
            stats.comment_lines == old(stats).comment_lines + file_counts(
                dv.subrange(0, i as int),
                *language,
            ).comment,
            stats.code_lines == old(stats).code_lines + file_counts(
                dv.subrange(0, i as int),
                *language,
            ).code,
            stats.classes == old(stats).classes + file_counts(
                dv.subrange(0, i as int),
                *language,
            ).classes,
            stats.methods == old(stats).methods + file_counts(
                dv.subrange(0, i as int),
                *language,
            ).methods,
            stats.structs == old(stats).structs + file_counts(
                dv.subrange(0, i as int),
                *language,
            ).structs,
            stats.functions == old(stats).functions + file_counts(
                dv.subrange(0, i as int),
                *language,
            ).functions,
            stats.ifs == old(stats).ifs + file_counts(dv.subrange(0, i as int), *language).ifs,
        decreases lines@.len() - i,
    {
        let line: &Vec<u8> = &lines[i];
        proof {
            assert(lines@[i as int].deep_view() =~= lines@[i as int]@);
            assert(dv[i as int] == lines@[i as int]@);
            lemma_file_counts_step(dv, i as int, *language);
        }
        let class = classify_line(line.as_slice(), language);
        stats.total_lines = stats.total_lines + 1;
        match class {
            LineClass::Blank => {
                stats.blank_lines = stats.blank_lines + 1;
            },
            LineClass::Comment => {
                stats.comment_lines = stats.comment_lines + 1;
            },
            LineClass::Code => {
                stats.code_lines = stats.code_lines + 1;
            },
            LineClass::Keyword(cat) => {
                stats.code_lines = stats.code_lines + 1;
                match cat {
                    Category::Classes => {
                        stats.classes = stats.classes + 1;
                    },
                    Category::Methods => {
                        stats.methods = stats.methods + 1;
                    },
                    Category::Structs => {
                        stats.structs = stats.structs + 1;
                    },
                    Category::Functions => {
                        stats.functions = stats.functions + 1;
                    },
                    Category::Ifs => {
                        stats.ifs = stats.ifs + 1;
                    },
                }
            },
        }
        i = i + 1;
    }
    proof {
        assert(dv.subrange(0, dv.len() as int) =~= dv);
    }
}

/// The sum of the line counts of every file of a project.
pub open spec fn sum_lines(files: Seq<Seq<Seq<u8>>>) -> nat
    decreases files.len(),
{
    if files.len() == 0 {
        0
    } else {
        sum_lines(files.drop_last()) + files.last().len()
    }
}

/// Counts added field by field: what a tally gains from two sets of lines in
/// a row.
pub open spec fn add_counts(a: LineCounts, b: LineCounts) -> LineCounts {
    LineCounts {
        total: a.total + b.total,
        blank: a.blank + b.blank,
        comment: a.comment + b.comment,
        code: a.code + b.code,
        classes: a.classes + b.classes,
        methods: a.methods + b.methods,
        structs: a.structs + b.structs,
        functions: a.functions + b.functions,
        ifs: a.ifs + b.ifs,
    }
}

/// The counts of a whole project: the per-file counts of every selected
/// file, folded together.
pub open spec fn project_counts(files: Seq<Seq<Seq<u8>>>, lang: Language) -> LineCounts
    decreases files.len(),
{
    if files.len() == 0 {
        zero_counts()
    } else {
        add_counts(
            project_counts(files.drop_last(), lang),
            file_counts(files.last(), lang),
        )
    }
}

/// A project's `total_lines` equals the sum of the per-file line counts over
/// all selected files, and its buckets partition that sum just as a single
/// file's do.
pub proof fn lemma_project_total(files: Seq<Seq<Seq<u8>>>, lang: Language)
    ensures
        project_counts(files, lang).total == sum_lines(files),
        project_counts(files, lang).blank + project_counts(files, lang).comment + project_counts(
            files,
            lang,
        ).code == sum_lines(files),
        project_counts(files, lang).classes + project_counts(files, lang).methods
            + project_counts(files, lang).structs + project_counts(files, lang).functions
            + project_counts(files, lang).ifs <= project_counts(files, lang).code,
    decreases files.len(),
{
    if files.len() > 0 {
        lemma_project_total(files.drop_last(), lang);
        lemma_buckets_partition(files.last(), lang);
    }
}

proof fn lemma_project_counts_step(files: Seq<Seq<Seq<u8>>>, i: int, lang: Language)
    requires
        0 <= i < files.len(),
    ensures
        project_counts(files.subrange(0, i + 1), lang) == add_counts(
            project_counts(files.subrange(0, i), lang),
            file_counts(files[i], lang),
        ),
        sum_lines(files.subrange(0, i + 1)) == sum_lines(files.subrange(0, i))
            + files[i].len(),
{
    assert(files.subrange(0, i + 1).drop_last() =~= files.subrange(0, i));
    assert(files.subrange(0, i + 1).last() == files[i]);
}

proof fn lemma_sum_lines_prefix(files: Seq<Seq<Seq<u8>>>, i: int)
    requires
        0 <= i <= files.len(),
    ensures
        sum_lines(files.subrange(0, i)) <= sum_lines(files),
    decreases files.len() - i,
{
    if i == files.len() {
        assert(files.subrange(0, i) =~= files);
    } else {
        assert(files.subrange(0, i + 1).drop_last() =~= files.subrange(0, i));
        lemma_sum_lines_prefix(files, i + 1);
    }
}

/// Analyzes a whole project: a tally over every selected file, with
/// `filecount` set to the number of those files.
pub fn analyze_project(files: &Vec<Vec<Vec<u8>>>, language: &Language) -> (t: Tally)
    requires
        sum_lines(files.deep_view()) <= usize::MAX,
    ensures
        t.wf(),
        t.filecount == files@.len(),
        t.total_lines == sum_lines(files.deep_view()),
        t.total_lines == project_counts(files.deep_view(), *language).total,
        t.blank_lines == project_counts(files.deep_view(), *language).blank,
        t.comment_lines == project_counts(files.deep_view(), *language).comment,
        t.code_lines == project_counts(files.deep_view(), *language).code,
        t.classes == project_counts(files.deep_view(), *language).classes,
        t.methods == project_counts(files.deep_view(), *language).methods,
        t.structs == project_counts(files.deep_view(), *language).structs,
        t.functions == project_counts(files.deep_view(), *language).functions,
        t.ifs == project_counts(files.deep_view(), *language).ifs,
{
    let ghost dv = files.deep_view();
    let mut stats = Tally::new(files.len());
    let mut i: usize = 0;
    proof {
        assert(dv.subrange(0, 0) =~= Seq::<Seq<Seq<u8>>>::empty());
    }
    while i < files.len()
        invariant
            0 <= i <= files@.len(),
            dv == files.deep_view(),
            dv.len() == files@.len(),
            sum_lines(dv) <= usize::MAX,
            stats.wf(),
            stats.filecount == files@.len(),
            stats.total_lines == sum_lines(dv.subrange(0, i as int)),
            stats.total_lines == project_counts(dv.subrange(0, i as int), *language).total,
            stats.blank_lines == project_counts(dv.subrange(0, i as int), *language).blank,
            stats.comment_lines == project_counts(dv.subrange(0, i as int), *language).comment,
            stats.code_lines == project_counts(dv.subrange(0, i as int), *language).code,
            stats.classes == project_counts(dv.subrange(0, i as int), *language).classes,
            stats.methods == project_counts(dv.subrange(0, i as int), *language).methods,
            stats.structs == project_counts(dv.subrange(0, i as int), *language).structs,
            stats.functions == project_counts(dv.subrange(0, i as int), *language).functions,
            stats.ifs == project_counts(dv.subrange(0, i as int), *language).ifs,
        decreases files@.len() - i,
    {
        let file: &Vec<Vec<u8>> = &files[i];
        proof {
            assert(files@[i as int].deep_view() =~= dv[i as int]);
            lemma_project_counts_step(dv, i as int, *language);
            lemma_sum_lines_prefix(dv, i as int + 1);
            lemma_buckets_partition(dv[i as int], *language);
        }
        analyze_file(file, language, &mut stats);
        i = i + 1;
    }
    proof {
        assert(dv.subrange(0, dv.len() as int) =~= dv);
    }
    stats
}

} // verus!

