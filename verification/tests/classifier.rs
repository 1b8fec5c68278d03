use repostats::analyzer::{analyze_file, analyze_project, classify_line, get_keyword, is_comment, LineClass};
use repostats::{Category, Language, Tally};

fn lines_of(strs: &[&str]) -> Vec<Vec<u8>> {
    strs.iter().map(|s| s.as_bytes().to_vec()).collect()
}

#[test]
fn python_comment_marker() {
    assert!(is_comment(b"# hello", &Language::Python));
    assert!(!is_comment(b"// hello", &Language::Python));
    assert!(!is_comment(b"x = 1", &Language::Python));
}

#[test]
fn c_family_comment_marker() {
    assert!(is_comment(b"// hello", &Language::Rust));
    assert!(is_comment(b"//", &Language::C));
    assert!(is_comment(b"//x", &Language::Cpp));
    assert!(!is_comment(b"/ x", &Language::Rust));
    assert!(!is_comment(b"# x", &Language::Rust));
}

#[test]
fn python_keywords() {
    assert_eq!(get_keyword(b"class Foo:", &Language::Python), Some(Category::Classes));
    assert_eq!(get_keyword(b"def bar():", &Language::Python), Some(Category::Methods));
    assert_eq!(get_keyword(b"if True:", &Language::Python), Some(Category::Ifs));
    assert_eq!(get_keyword(b"classify()", &Language::Python), None);
    assert_eq!(get_keyword(b"deferred = 1", &Language::Python), None);
    assert_eq!(get_keyword(b"return 1", &Language::Python), None);
}

#[test]
fn rust_keywords() {
    assert_eq!(get_keyword(b"struct Foo {", &Language::Rust), Some(Category::Structs));
    assert_eq!(get_keyword(b"fn main() {", &Language::Rust), Some(Category::Functions));
    assert_eq!(get_keyword(b"if x > 0 {", &Language::Rust), Some(Category::Ifs));
    assert_eq!(get_keyword(b"let x = 1;", &Language::Rust), None);
}

#[test]
fn c_keywords_only_if_with_paren() {
    assert_eq!(get_keyword(b"if (x) {", &Language::C), Some(Category::Ifs));
    assert_eq!(get_keyword(b"if x {", &Language::C), None);
    assert_eq!(get_keyword(b"struct foo {", &Language::C), None);
    assert_eq!(get_keyword(b"if (x) {", &Language::Cpp), Some(Category::Ifs));
}

#[test]
fn classify_strips_leading_blanks() {
    assert_eq!(classify_line(b"    def bar():", &Language::Python), LineClass::Keyword(Category::Methods));
    assert_eq!(classify_line(b"\t# note", &Language::Python), LineClass::Comment);
    assert_eq!(classify_line(b"  \t  ", &Language::Python), LineClass::Blank);
    assert_eq!(classify_line(b"", &Language::Rust), LineClass::Blank);
}

#[test]
fn classify_precedence_comment_before_keyword() {
    // A commented-out keyword is a comment line, not a keyword line.
    assert_eq!(classify_line(b"// fn main() {", &Language::Rust), LineClass::Comment);
    assert_eq!(classify_line(b"# class Foo:", &Language::Python), LineClass::Comment);
}

#[test]
fn classify_plain_code() {
    assert_eq!(classify_line(b"return 1", &Language::Python), LineClass::Code);
    assert_eq!(classify_line(b"x += 1;", &Language::C), LineClass::Code);
}

#[test]
fn buckets_are_exclusive_and_sum_to_line_count() {
    let ls = lines_of(&["fn f() {", "", "// c", "    if x {", "}", "\t"]);
    let mut t = Tally::new(1);
    analyze_file(&ls, &Language::Rust, &mut t);
    assert_eq!(t.total_lines, 6);
    assert_eq!(t.blank_lines + t.comment_lines + t.code_lines, t.total_lines);
    assert_eq!(t.blank_lines, 2);
    assert_eq!(t.comment_lines, 1);
    assert_eq!(t.code_lines, 3);
    assert_eq!(t.functions, 1);
    assert_eq!(t.ifs, 1);
    assert_eq!(t.structs, 0);
}

#[test]
fn python_example_file() {
    // A keyword line counts as both its keyword and code; `return` is plain
    // code; so the six lines split one blank, one comment, four code.
    let ls = lines_of(&[
        "class Foo:",
        "    def bar():",
        "        if True:",
        "",
        "# comment",
        "        return 1",
    ]);
    let mut t = Tally::new(1);
    analyze_file(&ls, &Language::Python, &mut t);
    assert_eq!(t.total_lines, 6);
    assert_eq!(t.blank_lines, 1);
    assert_eq!(t.comment_lines, 1);
    assert_eq!(t.classes, 1);
    assert_eq!(t.methods, 1);
    assert_eq!(t.ifs, 1);
    assert_eq!(t.code_lines, 4);
    assert_eq!(t.blank_lines + t.comment_lines + t.code_lines, t.total_lines);
}

#[test]
fn analyze_file_accumulates() {
    let first = lines_of(&["fn a() {}", "x"]);
    let second = lines_of(&["// note", "fn b() {}"]);
    let mut t = Tally::new(2);
    analyze_file(&first, &Language::Rust, &mut t);
    analyze_file(&second, &Language::Rust, &mut t);
    assert_eq!(t.filecount, 2);
    assert_eq!(t.total_lines, 4);
    assert_eq!(t.functions, 2);
    assert_eq!(t.comment_lines, 1);
    assert_eq!(t.code_lines, 3);
}

#[test]
fn project_total_is_sum_of_file_line_counts() {
    let files = vec![
        lines_of(&["class A:", "    pass"]),
        lines_of(&[]),
        lines_of(&["# only a comment", "", "x = 1"]),
    ];
    let t = analyze_project(&files, &Language::Python);
    assert_eq!(t.filecount, 3);
    assert_eq!(t.total_lines, 2 + 0 + 3);
    assert_eq!(t.classes, 1);
    assert_eq!(t.comment_lines, 1);
    assert_eq!(t.blank_lines, 1);
    assert_eq!(t.code_lines, 3);
}

#[test]
fn empty_project_yields_zero_tally() {
    let files: Vec<Vec<Vec<u8>>> = Vec::new();
    let t = analyze_project(&files, &Language::Rust);
    assert_eq!(t, Tally::new(0));
}
