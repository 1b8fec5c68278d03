use repostats::stats::{no_files_message, report_rows, StatRow};
use repostats::{Language, Tally};

fn sample_tally() -> Tally {
    Tally {
        filecount: 2,
        total_lines: 10,
        blank_lines: 2,
        comment_lines: 3,
        code_lines: 5,
        classes: 0,
        methods: 0,
        structs: 1,
        functions: 2,
        ifs: 1,
    }
}

fn labels(rows: &[StatRow]) -> Vec<&str> {
    rows.iter().map(|r| r.label.as_str()).collect()
}

#[test]
fn rust_rows_in_print_order() {
    let rows = report_rows(&sample_tally(), &None, &Language::Rust);
    assert_eq!(
        labels(&rows),
        vec![
            "Files",
            "Lines",
            "Structs",
            "Functions",
            "Ifs",
            "Comments",
            "Blank Lines",
            "Code Lines",
            "Sans Comments",
            "Sans Blanks",
            "Sans Both",
        ]
    );
}

#[test]
fn python_rows_show_classes_and_methods() {
    let rows = report_rows(&sample_tally(), &None, &Language::Python);
    assert_eq!(rows[2].label, "Classes");
    assert_eq!(rows[3].label, "Methods");
    assert_eq!(rows.len(), 11);
}

#[test]
fn c_rows_have_no_keyword_rows() {
    let rows = report_rows(&sample_tally(), &None, &Language::C);
    assert_eq!(rows.len(), 9);
    assert_eq!(rows[2].label, "Ifs");
    let rows_cpp = report_rows(&sample_tally(), &None, &Language::Cpp);
    assert_eq!(rows_cpp.len(), 9);
}

#[test]
fn values_and_derived_rows() {
    let t = sample_tally();
    let rows = report_rows(&t, &None, &Language::Rust);
    assert_eq!(rows[0].value, 2); // Files
    assert_eq!(rows[1].value, 10); // Lines
    assert_eq!(rows[8].value, 7); // Sans Comments: 10 - 3
    assert_eq!(rows[9].value, 8); // Sans Blanks: 10 - 2
    assert_eq!(rows[10].value, 5); // Sans Both: 10 - 3 - 2
}

#[test]
fn no_previous_tally_means_no_delta() {
    let rows = report_rows(&sample_tally(), &None, &Language::Rust);
    assert!(rows.iter().all(|r| r.delta.is_none()));
}

#[test]
fn deltas_are_signed_current_minus_previous() {
    let prev = sample_tally();
    let mut cur = sample_tally();
    cur.total_lines = 13;
    cur.comment_lines = 1;
    cur.blank_lines = 2;
    let rows = report_rows(&cur, &Some(prev), &Language::Rust);
    assert_eq!(rows[1].delta, Some(3)); // Lines: 13 - 10
    assert_eq!(rows[5].delta, Some(-2)); // Comments: 1 - 3
    assert_eq!(rows[6].delta, Some(0)); // Blank Lines: 2 - 2
    assert_eq!(rows[8].delta, Some(12 - 7)); // Sans Comments
    assert_eq!(rows[10].delta, Some(10 - 5)); // Sans Both
}

#[test]
fn unchanged_tally_gives_zero_delta_on_every_row() {
    let t = sample_tally();
    for lang in [Language::Python, Language::Rust, Language::C, Language::Cpp] {
        let rows = report_rows(&t, &Some(t), &lang);
        assert!(rows.iter().all(|r| r.delta == Some(0)));
    }
}

#[test]
fn sans_metrics_saturate_on_inconsistent_tally() {
    // A stored record can be inconsistent; the derived rows floor at zero.
    let t = Tally {
        filecount: 1,
        total_lines: 3,
        blank_lines: 2,
        comment_lines: 2,
        code_lines: 0,
        classes: 0,
        methods: 0,
        structs: 0,
        functions: 0,
        ifs: 0,
    };
    assert_eq!(t.sans_comments(), 1);
    assert_eq!(t.sans_blanks(), 1);
    assert_eq!(t.sans_both(), 0);
    let t2 = Tally { comment_lines: 9, ..t };
    assert_eq!(t2.sans_comments(), 0);
    assert_eq!(t2.sans_both(), 0);
}

#[test]
fn no_files_message_names_the_extension() {
    assert_eq!(
        no_files_message(&Language::Rust),
        "No .rs files found in the specified directory"
    );
    assert_eq!(
        no_files_message(&Language::Python),
        "No .py files found in the specified directory"
    );
    assert_eq!(
        no_files_message(&Language::Cpp),
        "No .cpp files found in the specified directory"
    );
}
