//! The recursive scan: walks a directory tree, depth-first and pre-order,
//! loading each directory's ignore lines into the registry, skipping
//! hidden entries, and producing one [`FileInfo`] per visible regular file.
//!
//! The tree is held as plain data: the surrounding program enumerates the
//! file system into an [`Entry`] (listing every entry, hidden ones
//! included, and the lines it could read), and the scan here decides,
//! verifiably, what is counted and what is skipped.

use vstd::prelude::*;
use crate::ignore::GitIgnore;
use crate::record::{record_of, FileInfo};

verus! {

/// One node of the directory tree handed to the scan.
///
/// A `File` carries its name and its lines. A `Dir` carries its name, the
/// lines of the ignore file that was read for it (empty when none could
/// be opened), and its entries in enumeration order.
#[derive(Debug)]
pub enum Entry {
    File { name: String, lines: Vec<String> },
    Dir { name: String, gitignore: Vec<String>, entries: Vec<Entry> },
}

/// The name of an entry, file or directory.
pub open spec fn entry_name(e: Entry) -> Seq<char> {
    match e {
        Entry::File { name, .. } => name@,
        Entry::Dir { name, .. } => name@,
    }
}

/// Whether a name marks a hidden entry: it starts with `.`.
pub open spec fn spec_hidden(name: Seq<char>) -> bool {
    name.len() > 0 && name[0] == '.'
}

/// The file records a scan of this entry yields, in traversal order. The
/// entry itself is taken as given; hidden names are filtered only among a
/// directory's entries.
pub open spec fn records_of(e: Entry) -> Seq<FileInfo>
    decreases e, 1int,
{
    match e {
        Entry::File { name, lines } => seq![record_of(name@, lines.deep_view())],
        Entry::Dir { entries, .. } => records_of_list(entries@),
    }
}

/// The records of one entry as seen from its parent directory: nothing if
/// the entry is hidden.
pub open spec fn visible_records(e: Entry) -> Seq<FileInfo>
    decreases e, 2int,
{
    if spec_hidden(entry_name(e)) {
        Seq::empty()
    } else {
        records_of(e)
    }
}

/// The records of a directory's entry list, in order, hidden entries
/// contributing nothing.
pub open spec fn records_of_list(es: Seq<Entry>) -> Seq<FileInfo>
    decreases es, 3int,
{
    if es.len() == 0 {
        Seq::empty()
    } else {
        visible_records(es[0]) + records_of_list(es.drop_first())
    }
}

/// The ignore patterns a scan of this entry appends to the registry: the
/// entry's own ignore lines first, then those of its visible
/// subdirectories, depth-first.
pub open spec fn patterns_of(e: Entry) -> Seq<String>
    decreases e, 1int,
{
    match e {
        Entry::File { .. } => Seq::empty(),
        Entry::Dir { gitignore, entries, .. } => gitignore@ + patterns_of_list(entries@),
    }
}

/// The patterns of one entry as seen from its parent directory: nothing
/// if the entry is hidden, for a hidden directory is never descended into.
pub open spec fn visible_patterns(e: Entry) -> Seq<String>
    decreases e, 2int,
{
    if spec_hidden(entry_name(e)) {
        Seq::empty()
    } else {
        patterns_of(e)
    }
}

/// The patterns contributed by a directory's entry list, in order.
pub open spec fn patterns_of_list(es: Seq<Entry>) -> Seq<String>
    decreases es, 3int,
{
    if es.len() == 0 {
        Seq::empty()
    } else {
        visible_patterns(es[0]) + patterns_of_list(es.drop_first())
    }
}

/// Appending an entry at the end of a list appends its visible records.
pub proof fn lemma_records_of_list_push(es: Seq<Entry>, e: Entry)
    ensures
        records_of_list(es.push(e)) == records_of_list(es) + visible_records(e),
    decreases es.len(),
{
    if es.len() == 0 {
        assert(es.push(e)[0] == e);
        assert(es.push(e).drop_first() =~= Seq::<Entry>::empty());
        assert(records_of_list(es.push(e)) == visible_records(es.push(e)[0])
            + records_of_list(es.push(e).drop_first()));
        assert(records_of_list(Seq::<Entry>::empty()) == Seq::<FileInfo>::empty());
        assert(records_of_list(es.push(e)) =~= records_of_list(es) + visible_records(e));
    } else {
        assert(es.push(e)[0] == es[0]);
        assert(es.push(e).drop_first() =~= es.drop_first().push(e));
        lemma_records_of_list_push(es.drop_first(), e);
        assert(records_of_list(es.push(e)) == visible_records(es[0]) + records_of_list(
            es.drop_first().push(e),
        ));
        assert(records_of_list(es) == visible_records(es[0]) + records_of_list(
            es.drop_first(),
        ));
        assert(records_of_list(es.push(e)) =~= records_of_list(es) + visible_records(e));
    }
}

/// Appending an entry at the end of a list appends its visible patterns.
pub proof fn lemma_patterns_of_list_push(es: Seq<Entry>, e: Entry)
    ensures
        patterns_of_list(es.push(e)) == patterns_of_list(es) + visible_patterns(e),
    decreases es.len(),
{
    if es.len() == 0 {
        assert(es.push(e)[0] == e);
        assert(es.push(e).drop_first() =~= Seq::<Entry>::empty());
        assert(patterns_of_list(es.push(e)) == visible_patterns(es.push(e)[0])
            + patterns_of_list(es.push(e).drop_first()));
        assert(patterns_of_list(Seq::<Entry>::empty()) == Seq::<String>::empty());
        assert(patterns_of_list(es.push(e)) =~= patterns_of_list(es) + visible_patterns(e));
    } else {
        assert(es.push(e)[0] == es[0]);
        assert(es.push(e).drop_first() =~= es.drop_first().push(e));
        lemma_patterns_of_list_push(es.drop_first(), e);
        assert(patterns_of_list(es.push(e)) == visible_patterns(es[0]) + patterns_of_list(
            es.drop_first().push(e),
        ));
        assert(patterns_of_list(es) == visible_patterns(es[0]) + patterns_of_list(
            es.drop_first(),
        ));
        assert(patterns_of_list(es.push(e)) =~= patterns_of_list(es) + visible_patterns(e));
    }
}

/// Law: every record a scan yields has consistent counts, its source
/// lines never exceeding its total lines.
pub proof fn lemma_records_wf(e: Entry)
    ensures
        forall|i: int| 0 <= i < records_of(e).len() ==> (#[trigger] records_of(e)[i]).wf(),
    decreases e, 1int,
{
    match e {
        Entry::File { name, lines } => {
            crate::record::lemma_source_le_total(lines.deep_view());
            assert(lines@.len() == lines.len());
            assert(lines.deep_view().len() == lines@.len());
            assert(record_of(name@, lines.deep_view()).wf());
            assert(records_of(e) == seq![record_of(name@, lines.deep_view())]);
            assert(records_of(e).len() == 1);
            assert forall|i: int| 0 <= i < records_of(e).len() implies (
            #[trigger] records_of(e)[i]).wf() by {
                assert(i == 0);
                assert(records_of(e)[0] == record_of(name@, lines.deep_view()));
            }
        },
        Entry::Dir { entries, .. } => {
            lemma_records_wf_list(entries@);
            assert(records_of(e) == records_of_list(entries@));
            assert forall|i: int| 0 <= i < records_of(e).len() implies (
            #[trigger] records_of(e)[i]).wf() by {
                assert(records_of(e)[i] == records_of_list(entries@)[i]);
            }
        },
    }
}

/// Every record of a directory's entry list has consistent counts.
pub proof fn lemma_records_wf_list(es: Seq<Entry>)
    ensures
        forall|i: int|
            0 <= i < records_of_list(es).len() ==> (#[trigger] records_of_list(es)[i]).wf(),
    decreases es, 3int,
{
    if es.len() > 0 {
        if !spec_hidden(entry_name(es[0])) {
            lemma_records_wf(es[0]);
        }
        lemma_records_wf_list(es.drop_first());
        assert forall|i: int| 0 <= i < records_of_list(es).len() implies (
        #[trigger] records_of_list(es)[i]).wf() by {
            let head = visible_records(es[0]);
            let tail = records_of_list(es.drop_first());
            assert(records_of_list(es) == head + tail);
            if i < head.len() {
                assert(!spec_hidden(entry_name(es[0])));
                assert(head == records_of(es[0]));
                assert(records_of_list(es)[i] == records_of(es[0])[i]);
            } else {
                assert(records_of_list(es)[i] == tail[i - head.len()]);
            }
        }
    }
}

/// Law: a hidden entry is never scanned and never recursed into. Putting
/// a hidden entry anywhere into a directory's entry list changes neither
/// the records nor the patterns the scan yields.
pub proof fn lemma_hidden_contributes_nothing(es: Seq<Entry>, i: int, e: Entry)
    requires
        0 <= i <= es.len(),
        spec_hidden(entry_name(e)),
    ensures
        records_of_list(es.insert(i, e)) == records_of_list(es),
        patterns_of_list(es.insert(i, e)) == patterns_of_list(es),
    decreases es.len(),
{
    let with = es.insert(i, e);
    if i == 0 {
        assert(with[0] == e);
        assert(with.drop_first() =~= es);
        assert(visible_records(e) == Seq::<FileInfo>::empty());
        assert(visible_patterns(e) == Seq::<String>::empty());
        assert(records_of_list(with) =~= records_of_list(es));
        assert(patterns_of_list(with) =~= patterns_of_list(es));
    } else {
        assert(es.len() > 0);
        assert(with[0] == es[0]);
        assert(with.drop_first() =~= es.drop_first().insert(i - 1, e));
        lemma_hidden_contributes_nothing(es.drop_first(), i - 1, e);
        assert(records_of_list(with) == visible_records(es[0]) + records_of_list(
            with.drop_first(),
        ));
        assert(patterns_of_list(with) == visible_patterns(es[0]) + patterns_of_list(
            with.drop_first(),
        ));
    }
}

/// Law: the lines of a directory's ignore file never affect which files
/// are scanned. Two directories that differ only in their ignore lines
/// yield the same records.
pub proof fn lemma_patterns_do_not_affect_records(
    name: String,
    g1: Vec<String>,
    g2: Vec<String>,
    entries: Vec<Entry>,
)
    ensures
        records_of(Entry::Dir { name, gitignore: g1, entries }) == records_of(
            Entry::Dir { name, gitignore: g2, entries },
        ),
{
}

impl Entry {
    /// The name of this entry.
    pub fn name(&self) -> (r: &String)
        ensures
            r@ == entry_name(*self),
    {
        match self {
            Entry::File { name, .. } => name,
            Entry::Dir { name, .. } => name,
        }
    }
}

/// Whether this name marks a hidden entry, one the scan must skip.
pub fn is_hidden(name: &str) -> (b: bool)
    ensures
        b == spec_hidden(name@),
{
    if name.unicode_len() == 0 {
        false
    } else {
        name.get_char(0) == '.'
    }
}

/// The outcome of one whole scan: every file record gathered, plus the
/// one scan-wide ignore registry.
#[derive(Debug)]
pub struct ProjectInfo {
    pub files: Vec<FileInfo>,
    pub git_ignore: GitIgnore,
}

impl ProjectInfo {
    /// Scans the given root entry: collects its file records into a flat
    /// list and every ignore line met on the way into a fresh registry.
    /// The root itself is scanned even if its own name is hidden; only
    /// entries inside directories are filtered.
    pub fn new(root: &Entry) -> (r: ProjectInfo)
        ensures
            r.files@ == records_of(*root),
            r.git_ignore.ignored_files@ == patterns_of(*root),
    {
        let mut git_ignore = GitIgnore::new();
        let files = ProjectInfo::_parse_dir(root, &mut git_ignore);
        ProjectInfo { files, git_ignore }
    }

    /// The depth-first, pre-order walk. Loads the entry's ignore lines
    /// first, then visits its entries in order, skipping hidden ones:
    /// a visible file yields its record, a visible directory recurses.
    pub fn _parse_dir(e: &Entry, git_ignore: &mut GitIgnore) -> (files: Vec<FileInfo>)
        ensures
            files@ == records_of(*e),
            final (git_ignore).ignored_files@ == old(git_ignore).ignored_files@ + patterns_of(
                *e,
            ),
        decreases *e,
    {
        match e {
            Entry::File { name, lines } => {
                let mut files: Vec<FileInfo> = Vec::new();
                files.push(FileInfo::new(name.as_str(), lines));
                proof {
                    assert(files@ =~= records_of(*e));
                    assert(git_ignore.ignored_files@ =~= old(
                        git_ignore,
                    ).ignored_files@ + patterns_of(*e));
                }
                files
            },
            Entry::Dir { name: _, gitignore, entries } => {
                git_ignore.add_patterns(gitignore);
                let ghost loaded = old(git_ignore).ignored_files@ + gitignore@;
                let mut files: Vec<FileInfo> = Vec::new();
                let mut j: usize = 0;
                while j < entries.len()
                    invariant
                        j <= entries.len(),
                        (*e) matches Entry::Dir { gitignore: gi, entries: es, .. } && gi
                            == *gitignore && es == *entries,
                        files@ == records_of_list(entries@.subrange(0, j as int)),
                        git_ignore.ignored_files@ == loaded + patterns_of_list(
                            entries@.subrange(0, j as int),
                        ),
                    decreases entries.len() - j,
                {
                    proof {
                        assert(entries@.subrange(0, j as int).push(entries@[j as int])
                            =~= entries@.subrange(0, j + 1 as int));
                        lemma_records_of_list_push(
                            entries@.subrange(0, j as int),
                            entries@[j as int],
                        );
                        lemma_patterns_of_list_push(
                            entries@.subrange(0, j as int),
                            entries@[j as int],
                        );
                    }
                    let item = &entries[j];
                    if !is_hidden(item.name().as_str()) {
                        proof {
                            assert(decreases_to!(*e => *entries));
                            assert(decreases_to!(*entries => entries@));
                            assert(decreases_to!(entries@ => entries@[j as int]));
                        }
                        let mut sub = ProjectInfo::_parse_dir(item, git_ignore);
                        files.append(&mut sub);
                    }
                    j = j + 1;
                }
                proof {
                    assert(entries@.subrange(0, entries@.len() as int) =~= entries@);
                    assert(records_of(*e) == records_of_list(entries@));
                    assert(patterns_of(*e) == gitignore@ + patterns_of_list(entries@));
                    assert(git_ignore.ignored_files@ =~= old(
                        git_ignore,
                    ).ignored_files@ + patterns_of(*e));
                }
                files
            },
        }
    }
}

} // verus!
