use sloc_scan::language::Language;

#[test]
fn rs_extension_is_rust() {
    assert_eq!(Language::from_path("a.rs"), Language::Rust);
    assert_eq!(Language::from_path("main.rs"), Language::Rust);
}

#[test]
fn py_extension_is_python() {
    assert_eq!(Language::from_path("b.py"), Language::Python);
}

#[test]
fn other_extension_is_unknown() {
    assert_eq!(Language::from_path("notes.txt"), Language::Unknown);
    assert_eq!(Language::from_path("a.rss"), Language::Unknown);
    assert_eq!(Language::from_path("a.r"), Language::Unknown);
}

#[test]
fn no_dot_is_unknown() {
    assert_eq!(Language::from_path("Makefile"), Language::Unknown);
    assert_eq!(Language::from_path("README"), Language::Unknown);
    assert_eq!(Language::from_path(""), Language::Unknown);
}

#[test]
fn dotless_name_colliding_with_known_extension() {
    // A name with no `.` is its own extension, so a file named exactly
    // like a known extension classifies as that language.
    assert_eq!(Language::from_path("rs"), Language::Rust);
    assert_eq!(Language::from_path("py"), Language::Python);
}

#[test]
fn last_dot_decides() {
    assert_eq!(Language::from_path("a.tar.rs"), Language::Rust);
    assert_eq!(Language::from_path("a.rs.txt"), Language::Unknown);
    assert_eq!(Language::from_path("a.rs."), Language::Unknown);
}

#[test]
fn hidden_style_names_classify_by_extension() {
    assert_eq!(Language::from_path(".env"), Language::Unknown);
    assert_eq!(Language::from_path(".rs"), Language::Rust);
}

#[test]
fn display_names() {
    assert_eq!(Language::Rust.name(), "Rust");
    assert_eq!(Language::Python.name(), "Python");
    assert_eq!(Language::Unknown.name(), "Unknown");
}

#[test]
fn canonical_extensions() {
    assert_eq!(Language::Rust.file_extension(), "rs");
    assert_eq!(Language::Python.file_extension(), "py");
    assert_eq!(Language::Unknown.file_extension(), "");
}
