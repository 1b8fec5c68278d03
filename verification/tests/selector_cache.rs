use repostats::cache::{cache_file_name, to_hex, Cache};
use repostats::utils::{files_for_language, get_files_with_extension, has_extension, slice_eq};
use repostats::{Language, Tally};
use sha2::Digest;

fn paths_of(strs: &[&str]) -> Vec<Vec<u8>> {
    strs.iter().map(|s| s.as_bytes().to_vec()).collect()
}

#[test]
fn extension_must_match_exactly() {
    assert!(has_extension(b"main.rs", b"rs"));
    assert!(has_extension(b"src/lib.rs", b"rs"));
    assert!(!has_extension(b"main.rs", b"py"));
    assert!(!has_extension(b"main.RS", b"rs"));
    assert!(!has_extension(b"main.pyc", b"py"));
    assert!(!has_extension(b"Makefile", b"rs"));
}

#[test]
fn hidden_files_and_trailing_dots() {
    // A leading dot alone names a hidden file, not an extension.
    assert!(!has_extension(b".rs", b"rs"));
    assert!(!has_extension(b"dir/.rs", b"rs"));
    assert!(has_extension(b".config.rs", b"rs"));
    // A trailing dot gives an empty extension.
    assert!(has_extension(b"file.", b""));
    assert!(!has_extension(b"file.", b"rs"));
    // Only the final component counts.
    assert!(!has_extension(b"a.rs/readme", b"rs"));
    assert!(has_extension(b"a.py/b.rs", b"rs"));
}

#[test]
fn selector_keeps_matching_paths_in_order() {
    let paths = paths_of(&[
        "a.py",
        "b.rs",
        "sub/dir/c.py",
        "noext",
        ".py",
        "d.pyc",
        "e.py",
    ]);
    let got = get_files_with_extension(&paths, b"py");
    assert_eq!(got, paths_of(&["a.py", "sub/dir/c.py", "e.py"]));
}

#[test]
fn selector_with_no_match_returns_empty() {
    let paths = paths_of(&["a.c", "b.cpp", "c.h"]);
    let got = get_files_with_extension(&paths, b"rs");
    assert!(got.is_empty());
}

#[test]
fn files_for_language_uses_the_canonical_extension() {
    let paths = paths_of(&["a.py", "b.rs", "c.c", "d.cpp", "e.txt"]);
    assert_eq!(files_for_language(&paths, &Language::Python), paths_of(&["a.py"]));
    assert_eq!(files_for_language(&paths, &Language::Rust), paths_of(&["b.rs"]));
    assert_eq!(files_for_language(&paths, &Language::C), paths_of(&["c.c"]));
    assert_eq!(files_for_language(&paths, &Language::Cpp), paths_of(&["d.cpp"]));
}

#[test]
fn slice_eq_compares_bytes() {
    assert!(slice_eq(b"abc", b"abc"));
    assert!(!slice_eq(b"abc", b"abd"));
    assert!(!slice_eq(b"abc", b"ab"));
    assert!(slice_eq(b"", b""));
}

#[test]
fn hex_rendering_is_two_lowercase_digits_per_byte() {
    assert_eq!(to_hex(&vec![]), "");
    assert_eq!(to_hex(&vec![0x00, 0xff, 0x1a]), "00ff1a");
    assert_eq!(to_hex(&vec![0xab, 0xcd, 0xef]), "abcdef");
}

#[test]
fn cache_file_name_uses_sha256_of_the_path() {
    // SHA-256 of "abc" is a published test vector.
    assert_eq!(
        cache_file_name("abc", &Language::Rust),
        "ba7816bf8f01cfea414140de5dae2223b00361a396177a9cb410ff61f20015ad_rust.json"
    );
}

#[test]
fn cache_file_name_matches_a_digest_computed_here() {
    let dir = "/home/user/project";
    let digest = sha2::Sha256::digest(dir.as_bytes());
    let mut expected = String::new();
    for b in digest.as_slice() {
        expected.push_str(&format!("{:02x}", b));
    }
    expected.push_str("_python.json");
    assert_eq!(cache_file_name(dir, &Language::Python), expected);
}

#[test]
fn cache_file_name_separates_languages_and_paths() {
    let a = cache_file_name("/proj", &Language::C);
    let b = cache_file_name("/proj", &Language::Cpp);
    let c = cache_file_name("/proj2", &Language::C);
    assert_ne!(a, b);
    assert_ne!(a, c);
    assert!(a.ends_with("_c.json"));
    assert!(b.ends_with("_cpp.json"));
}

#[test]
fn cache_record_holds_a_tally() {
    let t = Tally::new(3);
    let c = Cache { stats: t };
    assert_eq!(c.stats, t);
    assert_eq!(c.stats.filecount, 3);
}

#[test]
fn language_names_and_extensions() {
    assert_eq!(Language::Python.extension(), "py");
    assert_eq!(Language::Rust.extension(), "rs");
    assert_eq!(Language::C.extension(), "c");
    assert_eq!(Language::Cpp.extension(), "cpp");
    assert_eq!(Language::Python.name(), "python");
    assert_eq!(Language::Rust.name(), "rust");
    assert_eq!(Language::C.name(), "c");
    assert_eq!(Language::Cpp.name(), "cpp");
}
