//! Classification of a file name into a language tag, driven by the text
//! after the last `.` of the name.

use vstd::prelude::*;
use vstd::string::StrSliceExecFns;

verus! {

/// The closed set of language tags a file can classify as.
#[derive(Debug, Clone, Copy, PartialEq, Eq, Structural)]
pub enum Language {
    Rust,
    Python,
    Unknown,
}

/// The extension of a file name: the characters after the last `.`.
/// A name without a `.` is its own extension.
pub open spec fn ext_of(s: Seq<char>) -> Seq<char>
    decreases s.len(),
{
    if s.len() == 0 {
        s
    } else if s.last() == '.' {
        Seq::empty()
    } else {
        ext_of(s.drop_last()).push(s.last())
    }
}

/// The language a file name classifies as: by its extension alone.
pub open spec fn classify(name: Seq<char>) -> Language {
    if ext_of(name) == seq!['r', 's'] {
        Language::Rust
    } else if ext_of(name) == seq!['p', 'y'] {
        Language::Python
    } else {
        Language::Unknown
    }
}

impl Language {
    /// What `name` returns, as a sequence of characters.
    pub open spec fn name_spec(self) -> Seq<char> {
        match self {
            Language::Rust => "Rust"@,
            Language::Python => "Python"@,
            Language::Unknown => "Unknown"@,
        }
    }

    /// What `file_extension` returns, as a sequence of characters.
    pub open spec fn file_extension_spec(self) -> Seq<char> {
        match self {
            Language::Rust => "rs"@,
            Language::Python => "py"@,
            Language::Unknown => ""@,
        }
    }

    /// Classifies a file name by the text after its last `.`.
    pub fn from_path(name: &str) -> (lang: Language)
        ensures
            lang == classify(name@),
    {
        let n: usize = name.unicode_len();
        let mut i: usize = 0;
        let mut ext_start: usize = 0;
        while i < n
            invariant
                n == name@.len(),
                i <= n,
                ext_start <= i,
                ext_of(name@.subrange(0, i as int)) == name@.subrange(ext_start as int, i as int),
            decreases n - i,
        {
            let c = name.get_char(i);
            proof {
                let pre = name@.subrange(0, i as int);
                let post = name@.subrange(0, i + 1 as int);
                assert(post.drop_last() =~= pre);
                assert(post.last() == name@[i as int]);
                if c == '.' {
                    assert(ext_of(post) =~= name@.subrange(i + 1 as int, i + 1 as int));
                } else {
                    assert(ext_of(pre).push(c) =~= name@.subrange(
                        ext_start as int,
                        i + 1 as int,
                    ));
                }
            }
            if c == '.' {
                ext_start = i + 1;
            }
            i = i + 1;
        }
        proof {
            assert(name@.subrange(0, n as int) =~= name@);
        }
        let ghost ext = ext_of(name@);
        assert(ext == name@.subrange(ext_start as int, n as int));
        if n - ext_start == 2 {
            assert(ext.len() == 2);
            assert(ext[0] == name@[ext_start as int]);
            assert(ext[1] == name@[ext_start + 1 as int]);
            let c0 = name.get_char(ext_start);
            let c1 = name.get_char(ext_start + 1);
            if c0 == 'r' && c1 == 's' {
                proof {
                    assert(ext =~= seq!['r', 's']);
                }
                Language::Rust
            } else if c0 == 'p' && c1 == 'y' {
                proof {
                    assert(ext =~= seq!['p', 'y']);
                }
                Language::Python
            } else {
                proof {
                    assert(ext != seq!['r', 's']);
                    assert(ext != seq!['p', 'y']);
                }
                Language::Unknown
            }
        } else {
            proof {
                assert(ext.len() != 2);
            }
            Language::Unknown
        }
    }

    /// The canonical display name of this language tag.
    pub fn name(&self) -> (r: &str)
        ensures
            r@ == self.name_spec(),
    {
        match self {
            Language::Rust => "Rust",
            Language::Python => "Python",
            Language::Unknown => "Unknown",
        }
    }

    /// The canonical primary file extension of this language tag.
    pub fn file_extension(&self) -> (r: &str)
        ensures
            r@ == self.file_extension_spec(),
    {
        match self {
            Language::Rust => "rs",
            Language::Python => "py",
            Language::Unknown => "",
        }
    }
}

/// A name without a `.` is its own extension.
pub proof fn lemma_no_dot_ext(name: Seq<char>)
    requires
        forall|i: int| 0 <= i < name.len() ==> name[i] != '.',
    ensures
        ext_of(name) == name,
    decreases name.len(),
{
    if name.len() > 0 {
        assert forall|i: int| 0 <= i < name.drop_last().len() implies name.drop_last()[i]
            != '.' by {
            assert(name.drop_last()[i] == name[i]);
        }
        lemma_no_dot_ext(name.drop_last());
        assert(name.drop_last().push(name.last()) =~= name);
    }
}

/// Law: a file name without a `.` classifies as Unknown, unless the whole
/// name is itself a known extension (a dotless file named `rs` or `py`
/// collides with the known tags).
pub proof fn lemma_no_dot_unknown(name: Seq<char>)
    requires
        forall|i: int| 0 <= i < name.len() ==> name[i] != '.',
        name != seq!['r', 's'],
        name != seq!['p', 'y'],
    ensures
        classify(name) == Language::Unknown,
{
    lemma_no_dot_ext(name);
}

/// Law: a file name ending in `.rs` classifies as Rust.
pub proof fn lemma_dot_rs_is_rust(name: Seq<char>)
    requires
        name.len() >= 3,
        name[name.len() - 3] == '.',
        name[name.len() - 2] == 'r',
        name[name.len() - 1] == 's',
    ensures
        classify(name) == Language::Rust,
{
    let d1 = name.drop_last();
    let d2 = d1.drop_last();
    assert(name.last() == name[name.len() - 1]);
    assert(d1.last() == name[name.len() - 2]);
    assert(d2.last() == name[name.len() - 3]);
    assert(ext_of(d2) == Seq::<char>::empty());
    assert(ext_of(d1) == ext_of(d2).push('r'));
    assert(ext_of(name) == ext_of(d1).push('s'));
    assert(ext_of(name) =~= seq!['r', 's']);
}

/// Law: a file name ending in `.py` classifies as Python.
pub proof fn lemma_dot_py_is_python(name: Seq<char>)
    requires
        name.len() >= 3,
        name[name.len() - 3] == '.',
        name[name.len() - 2] == 'p',
        name[name.len() - 1] == 'y',
    ensures
        classify(name) == Language::Python,
{
    let d1 = name.drop_last();
    let d2 = d1.drop_last();
    assert(name.last() == name[name.len() - 1]);
    assert(d1.last() == name[name.len() - 2]);
    assert(d2.last() == name[name.len() - 3]);
    assert(ext_of(d2) == Seq::<char>::empty());
    assert(ext_of(d1) == ext_of(d2).push('p'));
    assert(ext_of(name) == ext_of(d1).push('y'));
    assert(ext_of(name) =~= seq!['p', 'y']);
    assert(ext_of(name) != seq!['r', 's']);
}

/// Law: a file name whose extension is neither `rs` nor `py` classifies
/// as Unknown.
pub proof fn lemma_other_ext_unknown(name: Seq<char>)
    requires
        ext_of(name) != seq!['r', 's'],
        ext_of(name) != seq!['p', 'y'],
    ensures
        classify(name) == Language::Unknown,
{
}

} // verus!
