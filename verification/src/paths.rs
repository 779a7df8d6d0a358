//! Splitting a canonical archive path into its file name, extension and
//! parent directory.
//!
//! The caller canonicalizes the archive path first; this module only reads
//! the resulting string. The file name is the part after the last `/` (the
//! whole string when there is no `/`). The extension is the part of the file
//! name after its last `.`, provided that dot is not the file name's first
//! character; a leading dot alone marks a hidden file, not an extension. The
//! parent is the part before the last `/`, or `/` itself when the last `/`
//! is the first character.

use vstd::prelude::*;

verus! {

/// Why an archive path cannot be used for a restore.
#[derive(Clone, Copy, Debug, PartialEq, Eq, Structural)]
pub enum PathError {
    /// The path could not be canonicalized by the filesystem.
    Unresolvable,
    /// The file name carries no extension.
    MissingExtension,
    /// The path has no parent directory component.
    MissingParent,
}

/// The three components of a split archive path.
pub struct PathParts {
    pub extension: String,
    pub parent: String,
    pub file_name: String,
}

/// The file name of a path: everything after the last `/`, or the whole
/// path when it holds no `/`.
pub open spec fn spec_file_name(p: Seq<char>) -> Seq<char> {
    match p.index_of_last('/') {
        None => p,
        Some(i) => p.subrange(i + 1, p.len() as int),
    }
}

/// The extension of a file name: everything after the last `.`, unless the
/// file name holds no `.` or its only role is to lead a hidden file (the
/// last `.` sits at index 0).
pub open spec fn spec_extension(name: Seq<char>) -> Option<Seq<char>> {
    match name.index_of_last('.') {
        None => None,
        Some(i) => if i == 0 {
            None
        } else {
            Some(name.subrange(i + 1, name.len() as int))
        },
    }
}

/// The parent directory of a path that holds a `/`: everything before the
/// last `/`, or the root `/` when the last `/` is the first character.
pub open spec fn spec_parent(p: Seq<char>) -> Seq<char> {
    match p.index_of_last('/') {
        None => Seq::empty(),
        Some(i) => if i == 0 {
            "/"@
        } else {
            p.subrange(0, i)
        },
    }
}

/// What splitting a path yields: its extension, parent and file name, or
/// the first error in the order the restore checks them — a missing
/// extension before a missing parent.
pub open spec fn spec_split_result(p: Seq<char>) -> Result<(Seq<char>, Seq<char>, Seq<char>), PathError> {
    let name = spec_file_name(p);
    match spec_extension(name) {
        None => Err(PathError::MissingExtension),
        Some(ext) => if p.contains('/') {
            Ok((ext, spec_parent(p), name))
        } else {
            Err(PathError::MissingParent)
        },
    }
}

/// A position that carries `c` and is followed by no further `c` is the
/// last occurrence of `c`.
proof fn lemma_index_of_last_at(s: Seq<char>, c: char, i: int)
    requires
        0 <= i < s.len(),
        s[i] == c,
        forall|j: int| i < j < s.len() ==> s[j] != c,
    ensures
        s.index_of_last(c) == Some(i),
{
    s.index_of_last_ensures(c);
    assert(s.contains(c));
    let k = s.index_of_last(c)->0;
    assert(k == i) by {
        if k < i {
            assert(s[i] != c);
        }
        if i < k {
            assert(s[k] != c);
        }
    }
}

/// A sequence with no occurrence of `c` has no last occurrence of `c`.
proof fn lemma_index_of_last_absent(s: Seq<char>, c: char)
    requires
        forall|j: int| 0 <= j < s.len() ==> s[j] != c,
    ensures
        s.index_of_last(c) is None,
        !s.contains(c),
{
    s.index_of_last_ensures(c);
}

/// The index of the last occurrence of `c` in `s`, or `None` when `s` does
/// not contain `c`.
fn last_index_of_char(s: &str, c: char) -> (r: Option<usize>)
    ensures
        match r {
            Some(i) => i < s@.len() && s@.index_of_last(c) == Some(i as int) && s@.contains(c),
            None => s@.index_of_last(c) is None && !s@.contains(c),
        },
{
    let n = s.unicode_len();
    let mut k = n;
    while k > 0
        invariant
            k <= n,
            n == s@.len(),
            forall|j: int| k <= j < s@.len() ==> s@[j] != c,
        decreases k,
    {
        k = k - 1;
        if s.get_char(k) == c {
            proof {
                lemma_index_of_last_at(s@, c, k as int);
            }
            return Some(k);
        }
    }
    proof {
        lemma_index_of_last_absent(s@, c);
    }
    None
}

/// Split a canonical archive path into extension, parent directory and file
/// name. The extension is checked before the parent, so a path that lacks
/// both reports the missing extension.
pub fn split_archive_path(path: &str) -> (r: Result<PathParts, PathError>)
    ensures
        match spec_split_result(path@) {
            Ok(t) => {
                &&& r is Ok
                &&& r->Ok_0.extension@ == t.0
                &&& r->Ok_0.parent@ == t.1
                &&& r->Ok_0.file_name@ == t.2
            },
            Err(e) => r is Err && r->Err_0 == e,
        },
{
    let n = path.unicode_len();
    let slash = last_index_of_char(path, '/');
    let name: &str = match slash {
        Some(i) => path.substring_char(i + 1, n),
        None => path,
    };
    let name_len = name.unicode_len();
    let dot = last_index_of_char(name, '.');
    let ext: &str = match dot {
        Some(j) => {
            if j == 0 {
                return Err(PathError::MissingExtension);
            }
            name.substring_char(j + 1, name_len)
        },
        None => {
            return Err(PathError::MissingExtension);
        },
    };
    let parent: String = match slash {
        Some(i) => {
            if i == 0 {
                String::from_str("/")
            } else {
                String::from_str(path.substring_char(0, i))
            }
        },
        None => {
            return Err(PathError::MissingParent);
        },
    };
    Ok(PathParts {
        extension: String::from_str(ext),
        parent,
        file_name: String::from_str(name),
    })
}

} // verus!
