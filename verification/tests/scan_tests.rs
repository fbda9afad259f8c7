use sloc_scan::ignore::GitIgnore;
use sloc_scan::language::Language;
use sloc_scan::record::FileInfo;
use sloc_scan::report::{aggregate, usize_to_string};
use sloc_scan::scan::{Entry, ProjectInfo};

fn strings(xs: &[&str]) -> Vec<String> {
    let mut v = Vec::new();
    for x in xs {
        v.push(String::from(*x));
    }
    v
}

fn file(name: &str, lines: &[&str]) -> Entry {
    Entry::File { name: String::from(name), lines: strings(lines) }
}

fn dir(name: &str, gitignore: &[&str], entries: Vec<Entry>) -> Entry {
    Entry::Dir { name: String::from(name), gitignore: strings(gitignore), entries }
}

#[test]
fn empty_file_record() {
    let lines: Vec<String> = Vec::new();
    let r = FileInfo::new("empty.rs", &lines);
    assert_eq!(r.language, Language::Rust);
    assert_eq!(r.nlines, 0);
    assert_eq!(r.nsloc, 0);
}

#[test]
fn blank_lines_are_not_source_lines() {
    let lines = strings(&["fn main() {}", "", "let x = 1;"]);
    let r = FileInfo::new("a.rs", &lines);
    assert_eq!(r.nlines, 3);
    assert_eq!(r.nsloc, 2);
}

#[test]
fn whitespace_only_line_counts_as_source() {
    let lines = strings(&["  ", "", "\t"]);
    let r = FileInfo::new("w.py", &lines);
    assert_eq!(r.nlines, 3);
    assert_eq!(r.nsloc, 2);
}

#[test]
fn source_never_exceeds_total() {
    let lines = strings(&["", "", "a", "", "b"]);
    let r = FileInfo::new("x.txt", &lines);
    assert!(r.nsloc <= r.nlines);
    assert_eq!(r.nlines, 5);
    assert_eq!(r.nsloc, 2);
}

#[test]
fn registry_starts_empty() {
    let g = GitIgnore::new();
    assert_eq!(g.ignored_files.len(), 0);
}

#[test]
fn registry_keeps_lines_in_order() {
    let mut g = GitIgnore::new();
    g.add_patterns(&strings(&["target/", "*.log"]));
    g.add_patterns(&strings(&["build/"]));
    assert_eq!(g.ignored_files, strings(&["target/", "*.log", "build/"]));
}

#[test]
fn two_files_and_a_hidden_one() {
    // a.rs has 3 lines of which 1 is blank; b.py has 2 lines, none
    // blank; the hidden .env contributes nothing at all.
    let root = dir(
        ".",
        &[],
        vec![
            file("a.rs", &["fn main() {", "", "}"]),
            file("b.py", &["x = 1", "y = 2"]),
            file(".env", &["a", "b", "c", "d", "e", "f", "g", "h", "i", "j"]),
        ],
    );
    let info = ProjectInfo::new(&root);
    assert_eq!(info.files.len(), 2);
    let (rc, rl, rs) = aggregate(&info.files, Language::Rust);
    assert_eq!((rc, rl, rs), (1, 3, 2));
    let (pc, pl, ps) = aggregate(&info.files, Language::Python);
    assert_eq!((pc, pl, ps), (1, 2, 2));
    let (uc, ul, us) = aggregate(&info.files, Language::Unknown);
    assert_eq!((uc, ul, us), (0, 0, 0));
}

#[test]
fn hidden_directory_is_not_recursed_into() {
    let root = dir(
        "top",
        &[],
        vec![
            dir(".git", &["should-not-load"], vec![file("c.rs", &["deep"])]),
            file("ok.py", &["p"]),
        ],
    );
    let info = ProjectInfo::new(&root);
    assert_eq!(info.files.len(), 1);
    assert_eq!(info.files[0].language, Language::Python);
    assert_eq!(info.git_ignore.ignored_files.len(), 0);
}

#[test]
fn subdirectory_gitignore_adds_its_lines_only() {
    let with_ignore = dir(
        "root",
        &[],
        vec![
            file("a.rs", &["x"]),
            dir("sub", &["pat1", "pat2"], vec![file("b.rs", &["y"])]),
        ],
    );
    let without_ignore = dir(
        "root",
        &[],
        vec![file("a.rs", &["x"]), dir("sub", &[], vec![file("b.rs", &["y"])])],
    );
    let with_info = ProjectInfo::new(&with_ignore);
    let without_info = ProjectInfo::new(&without_ignore);
    assert_eq!(with_info.git_ignore.ignored_files, strings(&["pat1", "pat2"]));
    assert_eq!(without_info.git_ignore.ignored_files.len(), 0);
    // The patterns never affect which files are scanned.
    assert_eq!(with_info.files, without_info.files);
    assert_eq!(with_info.files.len(), 2);
}

#[test]
fn scan_is_depth_first_pre_order() {
    let root = dir(
        "r",
        &["top"],
        vec![
            file("a.rs", &["1"]),
            dir("inner", &["mid"], vec![file("b.py", &["1", "2"]), dir("deep", &["low"], vec![])]),
            file("c.txt", &["1", "2", "3"]),
        ],
    );
    let info = ProjectInfo::new(&root);
    assert_eq!(info.git_ignore.ignored_files, strings(&["top", "mid", "low"]));
    assert_eq!(info.files.len(), 3);
    assert_eq!(info.files[0].language, Language::Rust);
    assert_eq!(info.files[0].nlines, 1);
    assert_eq!(info.files[1].language, Language::Python);
    assert_eq!(info.files[1].nlines, 2);
    assert_eq!(info.files[2].language, Language::Unknown);
    assert_eq!(info.files[2].nlines, 3);
}

#[test]
fn scanning_twice_yields_identical_output() {
    let build = || {
        dir(
            "again",
            &["ig"],
            vec![
                file("a.rs", &["fn f() {}", ""]),
                dir("s", &[], vec![file("b.py", &["pass"])]),
                file("plain", &["z"]),
            ],
        )
    };
    let first = ProjectInfo::new(&build());
    let second = ProjectInfo::new(&build());
    assert_eq!(first.files, second.files);
    assert_eq!(first.to_string(), second.to_string());
}

#[test]
fn report_for_mixed_tree() {
    let root = dir(
        ".",
        &[],
        vec![file("a.rs", &["fn main() {", "", "}"]), file("b.py", &["x = 1", "y = 2"])],
    );
    let info = ProjectInfo::new(&root);
    let expected = String::from("Language  Nr Files    Nr Lines    Nr SLOC\n")
        + "Rust:     1           3         2\n" + "Python:     1           2         2\n";
    assert_eq!(info.to_string(), expected);
}

#[test]
fn report_for_empty_tree_is_header_only() {
    let root = dir("none", &[], vec![]);
    let info = ProjectInfo::new(&root);
    assert_eq!(info.to_string(), "Language  Nr Files    Nr Lines    Nr SLOC\n");
}

#[test]
fn report_skips_absent_languages() {
    let root = dir("u", &[], vec![file("notes", &["hello"])]);
    let info = ProjectInfo::new(&root);
    let expected =
        String::from("Language  Nr Files    Nr Lines    Nr SLOC\n")
            + "Unknown:     1           1         1\n";
    assert_eq!(info.to_string(), expected);
}

#[test]
fn scanning_a_lone_file_yields_its_record() {
    let root = file("only.rs", &["a", ""]);
    let info = ProjectInfo::new(&root);
    assert_eq!(info.files.len(), 1);
    assert_eq!(info.files[0].language, Language::Rust);
    assert_eq!(info.files[0].nlines, 2);
    assert_eq!(info.files[0].nsloc, 1);
    assert_eq!(info.git_ignore.ignored_files.len(), 0);
}

#[test]
fn decimal_rendering() {
    assert_eq!(usize_to_string(0), "0");
    assert_eq!(usize_to_string(7), "7");
    assert_eq!(usize_to_string(10), "10");
    assert_eq!(usize_to_string(12345), "12345");
    assert_eq!(usize_to_string(1000000), "1000000");
}
