//! The registry of raw ignore patterns: every line read from any
//! `.gitignore`-style file met during a scan, kept in the order the lines
//! were handed in. The patterns are collected but never drive exclusion.

use vstd::prelude::*;

verus! {

/// An ordered list of raw ignore-pattern strings.
#[derive(Debug)]
pub struct GitIgnore {
    pub ignored_files: Vec<String>,
}

impl GitIgnore {
    /// An empty registry.
    pub fn new() -> (r: GitIgnore)
        ensures
            r.ignored_files@ == Seq::<String>::empty(),
    {
        GitIgnore { ignored_files: Vec::new() }
    }

    /// Appends the given lines to the registry, one pattern per line, in
    /// order. The lines are stored literally: no trimming, no filtering.
    pub fn add_patterns(&mut self, lines: &Vec<String>)
        ensures
            final(self).ignored_files@ == old(self).ignored_files@ + lines@,
    {
        let ghost start = self.ignored_files@;
        let mut j: usize = 0;
        while j < lines.len()
            invariant
                j <= lines.len(),
                self.ignored_files@ == start + lines@.subrange(0, j as int),
            decreases lines.len() - j,
        {
            proof {
                assert(lines@.subrange(0, j as int).push(lines@[j as int]) =~= lines@.subrange(
                    0,
                    j + 1 as int,
                ));
            }
            self.ignored_files.push(lines[j].clone());
            j = j + 1;
        }
        proof {
            assert(lines@.subrange(0, lines@.len() as int) =~= lines@);
        }
    }
}

} // verus!
