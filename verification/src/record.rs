//! The record kept for one scanned file: its language tag, its total line
//! count, and its count of non-blank ("source") lines.

use vstd::prelude::*;
use crate::language::{classify, Language};

verus! {

/// The result of scanning one regular file.
#[derive(Debug, Clone, Copy, PartialEq, Eq, Structural)]
pub struct FileInfo {
    pub language: Language,
    pub nlines: usize,
    pub nsloc: usize,
}

/// How many of the given lines are source lines: lines whose content is
/// not the empty string. A line of only spaces still counts.
pub open spec fn count_source(lines: Seq<Seq<char>>) -> nat
    decreases lines.len(),
{
    if lines.len() == 0 {
        0
    } else {
        count_source(lines.drop_last()) + if lines.last().len() == 0 {
            0nat
        } else {
            1nat
        }
    }
}

/// Law: a file never has more source lines than total lines.
pub proof fn lemma_source_le_total(lines: Seq<Seq<char>>)
    ensures
        count_source(lines) <= lines.len(),
    decreases lines.len(),
{
    if lines.len() > 0 {
        lemma_source_le_total(lines.drop_last());
    }
}

/// The record that scanning a file with the given name and lines yields.
pub open spec fn record_of(name: Seq<char>, lines: Seq<Seq<char>>) -> FileInfo {
    FileInfo {
        language: classify(name),
        nlines: lines.len() as usize,
        nsloc: count_source(lines) as usize,
    }
}

impl FileInfo {
    /// The record's counts are consistent: source lines never exceed
    /// total lines.
    pub open spec fn wf(self) -> bool {
        self.nsloc <= self.nlines
    }

    /// Scans one file, given its name and its lines: classifies the name,
    /// counts every line, and counts the lines that are not empty.
    pub fn new(name: &str, lines: &Vec<String>) -> (r: FileInfo)
        ensures
            r == record_of(name@, lines.deep_view()),
            r.language == classify(name@),
            r.nlines == lines@.len(),
            r.nsloc == count_source(lines.deep_view()),
            r.wf(),
    {
        let language = Language::from_path(name);

        let mut nlines: usize = 0;
        let mut nsloc: usize = 0;

        let ghost dv = lines.deep_view();
        let mut j: usize = 0;
        while j < lines.len()
            invariant
                j <= lines.len(),
                dv == lines.deep_view(),
                dv.len() == lines@.len(),
                nlines == j,
                nsloc == count_source(dv.subrange(0, j as int)),
                nsloc <= j,
            decreases lines.len() - j,
        {
            proof {
                let pre = dv.subrange(0, j as int);
                let post = dv.subrange(0, j + 1 as int);
                assert(post.drop_last() =~= pre);
                assert(post.last() == dv[j as int]);
                assert(dv[j as int] == lines@[j as int]@);
            }
            nlines = nlines + 1;
            if !lines[j].as_str().is_empty() {
                nsloc = nsloc + 1;
            }
            j = j + 1;
        }
        proof {
            assert(dv.subrange(0, dv.len() as int) =~= dv);
            lemma_source_le_total(dv);
        }
        FileInfo { language, nlines, nsloc }
    }
}

} // verus!
