//! Aggregation of file records into per-language totals, and the plain
//! text table rendered from them.

use vstd::prelude::*;
use vstd::string::{StrSliceExecFns, StringExecFns};
use crate::language::Language;
use crate::record::FileInfo;
use crate::scan::ProjectInfo;

verus! {

/// How many of the given records carry this language.
pub open spec fn agg_count(s: Seq<FileInfo>, l: Language) -> nat
    decreases s.len(),
{
    if s.len() == 0 {
        0
    } else {
        agg_count(s.drop_last(), l) + if s.last().language == l {
            1nat
        } else {
            0nat
        }
    }
}

/// The summed total lines of the records that carry this language.
pub open spec fn agg_lines(s: Seq<FileInfo>, l: Language) -> nat
    decreases s.len(),
{
    if s.len() == 0 {
        0
    } else {
        agg_lines(s.drop_last(), l) + if s.last().language == l {
            s.last().nlines as nat
        } else {
            0nat
        }
    }
}

/// The summed source lines of the records that carry this language.
pub open spec fn agg_sloc(s: Seq<FileInfo>, l: Language) -> nat
    decreases s.len(),
{
    if s.len() == 0 {
        0
    } else {
        agg_sloc(s.drop_last(), l) + if s.last().language == l {
            s.last().nsloc as nat
        } else {
            0nat
        }
    }
}

/// An aggregate over a prefix never exceeds the aggregate over the whole.
pub proof fn lemma_agg_prefix_le(s: Seq<FileInfo>, l: Language, j: int)
    requires
        0 <= j <= s.len(),
    ensures
        agg_count(s.subrange(0, j), l) <= agg_count(s, l),
        agg_lines(s.subrange(0, j), l) <= agg_lines(s, l),
        agg_sloc(s.subrange(0, j), l) <= agg_sloc(s, l),
    decreases s.len() - j,
{
    if j == s.len() {
        assert(s.subrange(0, j) =~= s);
    } else {
        let pre = s.subrange(0, j);
        let post = s.subrange(0, j + 1);
        assert(post.drop_last() =~= pre);
        assert(post.last() == s[j]);
        lemma_agg_prefix_le(s, l, j + 1);
    }
}

/// Law: the file count of a language is the length of the records
/// filtered to that language — the aggregate counts exactly the records
/// that carry it.
pub proof fn lemma_agg_count_is_filter_len(s: Seq<FileInfo>, l: Language)
    ensures
        agg_count(s, l) == s.filter(|f: FileInfo| f.language == l).len(),
    decreases s.len(),
{
    reveal(Seq::filter);
    if s.len() > 0 {
        lemma_agg_count_is_filter_len(s.drop_last(), l);
    }
}

/// Law: the per-language sums range over exactly the records that carry
/// the language: each is the fold of the filtered records.
pub proof fn lemma_agg_sums_are_filter_sums(s: Seq<FileInfo>, l: Language)
    ensures
        agg_lines(s, l) == s.filter(|f: FileInfo| f.language == l).fold_left(
            0int,
            |acc: int, f: FileInfo| acc + f.nlines,
        ),
        agg_sloc(s, l) == s.filter(|f: FileInfo| f.language == l).fold_left(
            0int,
            |acc: int, f: FileInfo| acc + f.nsloc,
        ),
    decreases s.len(),
{
    reveal(Seq::filter);
    if s.len() > 0 {
        lemma_agg_sums_are_filter_sums(s.drop_last(), l);
        let pred = |f: FileInfo| f.language == l;
        if pred(s.last()) {
            assert(s.filter(pred) == s.drop_last().filter(pred).push(s.last()));
            assert(s.filter(pred).drop_last() =~= s.drop_last().filter(pred));
            assert(s.filter(pred).last() == s.last());
        }
    }
}

/// The sums a scan can render: each per-language total fits the machine
/// word it is rendered from.
pub open spec fn sums_fit(s: Seq<FileInfo>) -> bool {
    forall|l: Language| agg_lines(s, l) <= usize::MAX && agg_sloc(s, l) <= usize::MAX
}

/// One pass over the records: how many carry this language, and their
/// summed total and source lines.
pub fn aggregate(files: &Vec<FileInfo>, l: Language) -> (r: (usize, usize, usize))
    requires
        agg_lines(files@, l) <= usize::MAX,
        agg_sloc(files@, l) <= usize::MAX,
    ensures
        r.0 == agg_count(files@, l),
        r.1 == agg_lines(files@, l),
        r.2 == agg_sloc(files@, l),
{
    let mut n_files: usize = 0;
    let mut n_lines: usize = 0;
    let mut n_sloc: usize = 0;
    let mut j: usize = 0;
    while j < files.len()
        invariant
            j <= files.len(),
            agg_lines(files@, l) <= usize::MAX,
            agg_sloc(files@, l) <= usize::MAX,
            n_files == agg_count(files@.subrange(0, j as int), l),
            n_lines == agg_lines(files@.subrange(0, j as int), l),
            n_sloc == agg_sloc(files@.subrange(0, j as int), l),
            n_files <= j,
        decreases files.len() - j,
    {
        proof {
            let pre = files@.subrange(0, j as int);
            let post = files@.subrange(0, j + 1 as int);
            assert(post.drop_last() =~= pre);
            assert(post.last() == files@[j as int]);
            lemma_agg_prefix_le(files@, l, j + 1);
        }
        if files[j].language == l {
            n_files = n_files + 1;
            n_lines = n_lines + files[j].nlines;
            n_sloc = n_sloc + files[j].nsloc;
        }
        j = j + 1;
    }
    proof {
        assert(files@.subrange(0, files@.len() as int) =~= files@);
    }
    (n_files, n_lines, n_sloc)
}

/// The character a decimal digit renders as.
pub open spec fn digit_char(d: nat) -> char {
    if d == 0 {
        '0'
    } else if d == 1 {
        '1'
    } else if d == 2 {
        '2'
    } else if d == 3 {
        '3'
    } else if d == 4 {
        '4'
    } else if d == 5 {
        '5'
    } else if d == 6 {
        '6'
    } else if d == 7 {
        '7'
    } else if d == 8 {
        '8'
    } else {
        '9'
    }
}

/// The decimal rendering of a number, most significant digit first, with
/// no leading zeros (zero itself renders as one digit).
pub open spec fn dec_str(n: nat) -> Seq<char>
    decreases n,
{
    if n < 10 {
        seq![digit_char(n)]
    } else {
        dec_str(n / 10).push(digit_char(n % 10))
    }
}

/// The one-character string a decimal digit renders as.
fn digit_str(d: usize) -> (r: &'static str)
    requires
        d < 10,
    ensures
        r@ == seq![digit_char(d as nat)],
{
    if d == 0 {
        proof {
            reveal_strlit("0");
        }
        assert("0"@ =~= seq![digit_char(0)]);
        "0"
    } else if d == 1 {
        proof {
            reveal_strlit("1");
        }
        assert("1"@ =~= seq![digit_char(1)]);
        "1"
    } else if d == 2 {
        proof {
            reveal_strlit("2");
        }
        assert("2"@ =~= seq![digit_char(2)]);
        "2"
    } else if d == 3 {
        proof {
            reveal_strlit("3");
        }
        assert("3"@ =~= seq![digit_char(3)]);
        "3"
    } else if d == 4 {
        proof {
            reveal_strlit("4");
        }
        assert("4"@ =~= seq![digit_char(4)]);
        "4"
    } else if d == 5 {
        proof {
            reveal_strlit("5");
        }
        assert("5"@ =~= seq![digit_char(5)]);
        "5"
    } else if d == 6 {
        proof {
            reveal_strlit("6");
        }
        assert("6"@ =~= seq![digit_char(6)]);
        "6"
    } else if d == 7 {
        proof {
            reveal_strlit("7");
        }
        assert("7"@ =~= seq![digit_char(7)]);
        "7"
    } else if d == 8 {
        proof {
            reveal_strlit("8");
        }
        assert("8"@ =~= seq![digit_char(8)]);
        "8"
    } else {
        proof {
            reveal_strlit("9");
        }
        assert("9"@ =~= seq![digit_char(9)]);
        "9"
    }
}

/// Renders a number in decimal.
pub fn usize_to_string(n: usize) -> (r: String)
    ensures
        r@ == dec_str(n as nat),
    decreases n,
{
    if n < 10 {
        digit_str(n).to_owned()
    } else {
        let q: usize = n / 10;
        let d: usize = n % 10;
        assert(q < n) by (nonlinear_arith)
            requires
                n >= 10,
                q == n / 10,
        {}
        let mut s = usize_to_string(q);
        s.append(digit_str(d));
        proof {
            assert(dec_str((n as nat) / 10).push(digit_char((n as nat) % 10)) =~= dec_str(
                (n as nat) / 10,
            ) + seq![digit_char((n as nat) % 10)]);
        }
        s
    }
}

/// The table row rendered for one language and its totals.
pub open spec fn row_str(l: Language, c: nat, t: nat, s: nat) -> Seq<char> {
    l.name_spec() + ":     "@ + dec_str(c) + "           "@ + dec_str(t) + "         "@ + dec_str(
        s,
    ) + "\n"@
}

/// The row a language contributes to the report: its totals if any
/// record carries it, nothing if none does.
pub open spec fn lang_row(s: Seq<FileInfo>, l: Language) -> Seq<char> {
    if agg_count(s, l) > 0 {
        row_str(l, agg_count(s, l), agg_lines(s, l), agg_sloc(s, l))
    } else {
        Seq::empty()
    }
}

/// The whole report: a header, then one row per language present, in the
/// fixed order Rust, Python, Unknown.
pub open spec fn report_str(s: Seq<FileInfo>) -> Seq<char> {
    "Language  Nr Files    Nr Lines    Nr SLOC\n"@ + lang_row(s, Language::Rust) + lang_row(
        s,
        Language::Python,
    ) + lang_row(s, Language::Unknown)
}

/// Appends one language's row (nothing, when no record carries it) to
/// the report being built.
fn push_row(ret: String, files: &Vec<FileInfo>, l: Language) -> (r: String)
    requires
        agg_lines(files@, l) <= usize::MAX,
        agg_sloc(files@, l) <= usize::MAX,
    ensures
        r@ == ret@ + lang_row(files@, l),
{
    let ghost ret0 = ret@;
    let mut ret = ret;
    let (n_files, n_lines, n_sloc) = aggregate(files, l);
    if n_files > 0 {
        ret.append(l.name());
        ret.append(":     ");
        ret.append(usize_to_string(n_files).as_str());
        ret.append("           ");
        ret.append(usize_to_string(n_lines).as_str());
        ret.append("         ");
        ret.append(usize_to_string(n_sloc).as_str());
        ret.append("\n");
        proof {
            assert(ret@ =~= ret0 + lang_row(files@, l));
        }
    } else {
        proof {
            assert(ret@ =~= ret0 + lang_row(files@, l));
        }
    }
    ret
}

/// Law: a scan is deterministic, so scanning the same tree twice yields
/// identical aggregate counts and an identical rendered report.
pub proof fn lemma_scan_idempotent(r1: ProjectInfo, r2: ProjectInfo, root: crate::scan::Entry)
    requires
        r1.files@ == crate::scan::records_of(root),
        r2.files@ == crate::scan::records_of(root),
    ensures
        forall|l: Language|
            agg_count(r1.files@, l) == agg_count(r2.files@, l) && agg_lines(r1.files@, l)
                == agg_lines(r2.files@, l) && agg_sloc(r1.files@, l) == agg_sloc(r2.files@, l),
        report_str(r1.files@) == report_str(r2.files@),
{
}

impl ProjectInfo {
    /// Renders the per-language summary table: a header line, then one
    /// row per language present among the records, in the fixed order
    /// Rust, Python, Unknown, each with its file count, total line
    /// count, and source line count.
    pub fn to_string(&self) -> (r: String)
        requires
            sums_fit(self.files@),
        ensures
            r@ == report_str(self.files@),
    {
        proof {
            assert(agg_lines(self.files@, Language::Rust) <= usize::MAX && agg_sloc(
                self.files@,
                Language::Rust,
            ) <= usize::MAX);
            assert(agg_lines(self.files@, Language::Python) <= usize::MAX && agg_sloc(
                self.files@,
                Language::Python,
            ) <= usize::MAX);
            assert(agg_lines(self.files@, Language::Unknown) <= usize::MAX && agg_sloc(
                self.files@,
                Language::Unknown,
            ) <= usize::MAX);
        }
        let mut ret = String::new();
        ret.append("Language  Nr Files    Nr Lines    Nr SLOC\n");
        let ret = push_row(ret, &self.files, Language::Rust);
        let ret = push_row(ret, &self.files, Language::Python);
        let ret = push_row(ret, &self.files, Language::Unknown);
        proof {
            assert(ret@ =~= report_str(self.files@));
        }
        ret
    }
}

} // verus!
