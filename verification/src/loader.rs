//! The loader: the state of one restore and its decisions.
//!
//! `ImageLoader` owns the inputs of a single restore and decides, from the
//! results of the injected capabilities (volume inventory, operator prompt),
//! whether to proceed, and which container command performs the extraction.

use crate::command::build_command;
use crate::command::spec_container_command;
use crate::paths::split_archive_path;
use crate::paths::spec_split_result;
use crate::paths::PathError;
use vstd::prelude::*;

verus! {

/// Why a restore stops before any process runs.
#[derive(Clone, Copy, Debug, PartialEq, Eq, Structural)]
pub enum LoadError {
    /// The canonical archive path cannot be split into usable parts.
    Path(PathError),
    /// The archive's extension is outside the fixed table.
    UnsupportedExtension,
}

/// A character lower-cased over the ASCII letters: `A`..`Z` map to
/// `a`..`z`, every other character stays itself. The table's keys are ASCII,
/// so this is all the lower-casing the comparison needs.
pub open spec fn spec_lower_char(c: char) -> char {
    if 65 <= c as u32 && c as u32 <= 90 {
        ((c as u8) + 32) as char
    } else {
        c
    }
}

/// A string lower-cased character by character.
pub open spec fn spec_lower(s: Seq<char>) -> Seq<char> {
    s.map_values(|c: char| spec_lower_char(c))
}

/// See [`spec_lower_char`].
fn lower_char(c: char) -> (r: char)
    ensures
        r == spec_lower_char(c),
{
    if c as u32 >= 65 && c as u32 <= 90 {
        ((c as u8) + 32) as char
    } else {
        c
    }
}

/// Whether `a`, lower-cased, holds the same characters as `b`.
fn eq_lower(a: &str, b: &str) -> (r: bool)
    ensures
        r == (spec_lower(a@) == b@),
{
    let na = a.unicode_len();
    let nb = b.unicode_len();
    if na != nb {
        return false;
    }
    let mut i: usize = 0;
    while i < na
        invariant
            i <= na,
            na == a@.len(),
            na == b@.len(),
            forall|j: int| 0 <= j < i ==> spec_lower(a@)[j] == b@[j],
        decreases na - i,
    {
        if lower_char(a.get_char(i)) != b.get_char(i) {
            assert(spec_lower(a@)[i as int] != b@[i as int]);
            return false;
        }
        i = i + 1;
    }
    proof {
        assert(spec_lower(a@) =~= b@);
    }
    true
}

/// One restore of an archive into a named volume: the target volume, the
/// archive path as the caller gave it, whether the operator may be asked to
/// confirm an overwrite, and the fixed table from archive extensions to
/// decompression commands.
pub struct ImageLoader {
    pub volume_name: String,
    pub image_path: String,
    pub is_interactive: bool,
    pub command_list: Vec<(String, String)>,
}

/// The fixed table from archive extensions to decompression commands.
pub open spec fn spec_table() -> Seq<(Seq<char>, Seq<char>)> {
    seq![
        ("gz"@, "gunzip"@),
        ("zip"@, "unzip"@),
        ("rar"@, "unrar x"@),
        ("tar"@, "tar xvf"@),
        ("tgz"@, "tar xvzf"@),
        ("tbz2"@, "tar xvjf"@),
    ]
}

/// The decompression command for an already lower-cased extension: the
/// value paired with it in the fixed table, or `None` for any extension
/// outside the table. The lookup compares lower-cased extensions, so its
/// callers pass [`spec_lower`] of what the path carries.
pub open spec fn spec_command_for(ext: Seq<char>) -> Option<Seq<char>> {
    if ext == "gz"@ {
        Some("gunzip"@)
    } else if ext == "zip"@ {
        Some("unzip"@)
    } else if ext == "rar"@ {
        Some("unrar x"@)
    } else if ext == "tar"@ {
        Some("tar xvf"@)
    } else if ext == "tgz"@ {
        Some("tar xvzf"@)
    } else if ext == "tbz2"@ {
        Some("tar xvjf"@)
    } else {
        None
    }
}

impl ImageLoader {
    /// The loader's invariant: its table holds exactly the fixed
    /// extension-to-command pairs, in their tabulated order.
    pub open spec fn wf(&self) -> bool {
        &&& self.command_list@.len() == spec_table().len()
        &&& forall|i: int|
            0 <= i < spec_table().len() ==> (#[trigger] self.command_list@[i]).0@
                == spec_table()[i].0 && self.command_list@[i].1@ == spec_table()[i].1
    }

    /// Construct a loader from the caller's arguments. The inputs are
    /// stored verbatim; the extension table is built deterministically and
    /// identically for every instance.
    pub fn new(volume: &str, path: &str, is_interactive: bool) -> (r: ImageLoader)
        ensures
            r.volume_name@ == volume@,
            r.image_path@ == path@,
            r.is_interactive == is_interactive,
            r.wf(),
    {
        ImageLoader {
            volume_name: String::from_str(volume),
            image_path: String::from_str(path),
            is_interactive,
            command_list: ImageLoader::extension_vs_commands(),
        }
    }

    /// The fixed extension-to-command table as a vector of pairs.
    pub fn extension_vs_commands() -> (r: Vec<(String, String)>)
        ensures
            r@.len() == spec_table().len(),
            forall|i: int|
                0 <= i < spec_table().len() ==> (#[trigger] r@[i]).0@ == spec_table()[i].0
                    && r@[i].1@ == spec_table()[i].1,
    {
        let mut ext_cmd: Vec<(String, String)> = Vec::new();
        ext_cmd.push((String::from_str("gz"), String::from_str("gunzip")));
        ext_cmd.push((String::from_str("zip"), String::from_str("unzip")));
        ext_cmd.push((String::from_str("rar"), String::from_str("unrar x")));
        ext_cmd.push((String::from_str("tar"), String::from_str("tar xvf")));
        ext_cmd.push((String::from_str("tgz"), String::from_str("tar xvzf")));
        ext_cmd.push((String::from_str("tbz2"), String::from_str("tar xvjf")));
        ext_cmd
    }

    /// Look an extension up in the loader's table. The comparison against
    /// the table's keys is lower-cased, so `GZ` finds the same command as
    /// `gz`.
    pub fn lookup_command(&self, ext: &str) -> (r: Option<String>)
        requires
            self.wf(),
        ensures
            match spec_command_for(spec_lower(ext@)) {
                Some(c) => r is Some && r->0@ == c,
                None => r is None,
            },
    {
        let n = self.command_list.len();
        let mut i: usize = 0;
        while i < n
            invariant
                self.wf(),
                n == self.command_list@.len(),
                i <= n,
                forall|j: int| 0 <= j < i ==> spec_lower(ext@) != (#[trigger] spec_table()[j]).0,
            decreases n - i,
        {
            if eq_lower(ext, self.command_list[i].0.as_str()) {
                proof {
                    lemma_command_for_at(spec_lower(ext@), i as int);
                }
                return Some(self.command_list[i].1.clone());
            }
            i = i + 1;
        }
        None
    }

    /// Whether the operator must be asked to confirm: only when the target
    /// volume already exists and the restore is interactive.
    pub open spec fn spec_needs_confirmation(&self, volume_exists: bool) -> bool {
        volume_exists && self.is_interactive
    }

    /// See [`Self::spec_needs_confirmation`].
    pub fn needs_confirmation(&self, volume_exists: bool) -> (r: bool)
        ensures
            r == self.spec_needs_confirmation(volume_exists),
    {
        volume_exists && self.is_interactive
    }

    /// Whether the restore stops before touching anything: only when the
    /// volume exists, the restore is interactive, and the prompt came back
    /// `true`, which by its inherited polarity means the operator declined.
    /// A non-interactive restore therefore proceeds over an existing
    /// volume: its fixed default is to continue.
    pub open spec fn spec_should_abort(&self, volume_exists: bool, declined: bool) -> bool {
        volume_exists && self.is_interactive && declined
    }

    /// See [`Self::spec_should_abort`].
    pub fn should_abort(&self, volume_exists: bool, declined: bool) -> (r: bool)
        ensures
            r == self.spec_should_abort(volume_exists, declined),
    {
        volume_exists && self.is_interactive && declined
    }

    /// From the canonical archive path to the container command that
    /// extracts it into the target volume, or the exact reason no process
    /// may run: a path whose parts cannot be split, or an extension whose
    /// lower-cased form is outside the table. The command keeps the file
    /// name's original case; only the table comparison is lower-cased.
    pub fn extraction_command(&self, canonical_path: &str) -> (r: Result<String, LoadError>)
        requires
            self.wf(),
        ensures
            match spec_split_result(canonical_path@) {
                Err(e) => r is Err && r->Err_0 == LoadError::Path(e),
                Ok(t) => match spec_command_for(spec_lower(t.0)) {
                    None => r is Err && r->Err_0 == LoadError::UnsupportedExtension,
                    Some(c) => r is Ok && r->Ok_0@ == spec_container_command(
                        self.volume_name@,
                        t.1,
                        t.2,
                        c,
                    ),
                },
            },
    {
        let parts = match split_archive_path(canonical_path) {
            Ok(p) => p,
            Err(e) => {
                return Err(LoadError::Path(e));
            },
        };
        let decompress = match self.lookup_command(parts.extension.as_str()) {
            Some(c) => c,
            None => {
                return Err(LoadError::UnsupportedExtension);
            },
        };
        Ok(
            build_command(
                self.volume_name.as_str(),
                parts.parent.as_str(),
                parts.file_name.as_str(),
                decompress.as_str(),
            ),
        )
    }
}

/// When an extension equals the table's key at `i` and none before it, the
/// lookup yields the command at `i`.
proof fn lemma_command_for_at(ext: Seq<char>, i: int)
    requires
        0 <= i < spec_table().len(),
        ext == spec_table()[i].0,
        forall|j: int| 0 <= j < i ==> ext != (#[trigger] spec_table()[j]).0,
    ensures
        spec_command_for(ext) == Some(spec_table()[i].1),
{
}

/// The six tabulated extensions are pairwise distinct strings.
proof fn lemma_keys_distinct()
    ensures
        "zip"@ != "gz"@,
        "rar"@ != "gz"@,
        "rar"@ != "zip"@,
        "tar"@ != "gz"@,
        "tar"@ != "zip"@,
        "tar"@ != "rar"@,
        "tgz"@ != "gz"@,
        "tgz"@ != "zip"@,
        "tgz"@ != "rar"@,
        "tgz"@ != "tar"@,
        "tbz2"@ != "gz"@,
        "tbz2"@ != "zip"@,
        "tbz2"@ != "rar"@,
        "tbz2"@ != "tar"@,
        "tbz2"@ != "tgz"@,
{
    reveal_strlit("gz");
    reveal_strlit("zip");
    reveal_strlit("rar");
    reveal_strlit("tar");
    reveal_strlit("tgz");
    reveal_strlit("tbz2");
    assert("gz"@.len() == 2 && "zip"@.len() == 3 && "rar"@.len() == 3);
    assert("tar"@.len() == 3 && "tgz"@.len() == 3 && "tbz2"@.len() == 4);
    assert("zip"@[0] == 'z' && "rar"@[0] == 'r' && "tar"@[0] == 't' && "tgz"@[0] == 't');
    assert("tar"@[1] == 'a' && "tgz"@[1] == 'g');
}

/// The lookup and the tabulated pairs agree: every tabulated extension maps
/// to exactly its tabulated command, and an extension the lookup accepts is
/// one of the tabulated extensions — so an extension outside the table maps
/// to nothing, and no command is ever built for it.
pub proof fn lemma_lookup_agrees_with_table()
    ensures
        forall|i: int|
            0 <= i < spec_table().len() ==> spec_command_for((#[trigger] spec_table()[i]).0)
                == Some(spec_table()[i].1),
        forall|ext: Seq<char>|
            spec_command_for(ext) is Some ==> exists|i: int|
                0 <= i < spec_table().len() && (#[trigger] spec_table()[i]).0 == ext,
{
    lemma_keys_distinct();
    assert(spec_command_for(spec_table()[0].0) == Some(spec_table()[0].1));
    assert(spec_command_for(spec_table()[1].0) == Some(spec_table()[1].1));
    assert(spec_command_for(spec_table()[2].0) == Some(spec_table()[2].1));
    assert(spec_command_for(spec_table()[3].0) == Some(spec_table()[3].1));
    assert(spec_command_for(spec_table()[4].0) == Some(spec_table()[4].1));
    assert(spec_command_for(spec_table()[5].0) == Some(spec_table()[5].1));
    assert forall|ext: Seq<char>| spec_command_for(ext) is Some implies exists|i: int|
        0 <= i < spec_table().len() && (#[trigger] spec_table()[i]).0 == ext by {
        if ext == "gz"@ {
            assert(spec_table()[0].0 == ext);
        } else if ext == "zip"@ {
            assert(spec_table()[1].0 == ext);
        } else if ext == "rar"@ {
            assert(spec_table()[2].0 == ext);
        } else if ext == "tar"@ {
            assert(spec_table()[3].0 == ext);
        } else if ext == "tgz"@ {
            assert(spec_table()[4].0 == ext);
        } else {
            assert(spec_table()[5].0 == ext);
        }
    }
}

/// The table's keys are already lower-case: lower-casing moves every
/// extension onto the keys exactly as tabulated, and an extension that is
/// already a key is looked up unchanged.
pub proof fn lemma_table_keys_lower_cased()
    ensures
        forall|i: int|
            0 <= i < spec_table().len() ==> spec_lower((#[trigger] spec_table()[i]).0)
                == spec_table()[i].0,
{
    reveal_strlit("gz");
    reveal_strlit("zip");
    reveal_strlit("rar");
    reveal_strlit("tar");
    reveal_strlit("tgz");
    reveal_strlit("tbz2");
    assert(spec_lower("gz"@) =~= "gz"@);
    assert(spec_lower("zip"@) =~= "zip"@);
    assert(spec_lower("rar"@) =~= "rar"@);
    assert(spec_lower("tar"@) =~= "tar"@);
    assert(spec_lower("tgz"@) =~= "tgz"@);
    assert(spec_lower("tbz2"@) =~= "tbz2"@);
}

/// A non-interactive restore never asks for confirmation, and its default
/// over an existing volume is fixed: it proceeds, whatever the prompt
/// capability would have answered.
pub proof fn lemma_non_interactive_proceeds(l: ImageLoader, volume_exists: bool, declined: bool)
    requires
        !l.is_interactive,
    ensures
        !l.spec_needs_confirmation(volume_exists),
        !l.spec_should_abort(volume_exists, declined),
{
}

/// An interactive restore over an existing volume aborts exactly when the
/// operator declines.
pub proof fn lemma_declined_overwrite_aborts(l: ImageLoader, declined: bool)
    requires
        l.is_interactive,
    ensures
        l.spec_should_abort(true, declined) == declined,
{
}

/// The abort decision carries no hidden state: it is a function of the
/// loader's interactive flag and the two capability results alone, so two
/// runs over the same values — or over two loaders built alike — agree.
pub proof fn lemma_decision_idempotent(
    a: ImageLoader,
    b: ImageLoader,
    volume_exists: bool,
    declined: bool,
)
    requires
        a.is_interactive == b.is_interactive,
    ensures
        a.spec_should_abort(volume_exists, declined) == b.spec_should_abort(
            volume_exists,
            declined,
        ),
{
}

} // verus!


