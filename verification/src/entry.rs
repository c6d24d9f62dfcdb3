//! One filesystem entry as the browser sees it: a display name, the absolute
//! path used for every operation on the entry, the extension that drives icon
//! and preview selection, and a transient deletion mark.

use vstd::prelude::*;

use crate::text::str_eq;

verus! {

/// The glyph shown before a directory.
pub const FOLDER_ICON: &'static str = "\u{e5ff} ";

/// The glyph shown before a file whose extension the table does not know.
pub const FILE_ICON: &'static str = "\u{f0214} ";

/// Descriptor of one directory entry.
#[derive(Clone, Debug)]
pub struct FileData {
    pub shortname: String,
    pub absolute: String,
    pub extension: String,
    pub icon: String,
    pub marked_for_deletion: bool,
}

/// Mathematical image of a [`FileData`]: every string as a sequence of chars.
#[verifier::ext_equal]
pub ghost struct FileView {
    pub shortname: Seq<char>,
    pub absolute: Seq<char>,
    pub extension: Seq<char>,
    pub icon: Seq<char>,
    pub marked_for_deletion: bool,
}

impl View for FileData {
    type V = FileView;

    open spec fn view(&self) -> FileView {
        FileView {
            shortname: self.shortname@,
            absolute: self.absolute@,
            extension: self.extension@,
            icon: self.icon@,
            marked_for_deletion: self.marked_for_deletion,
        }
    }
}

/// The views of a whole catalog, in order.
pub open spec fn views(s: Seq<FileData>) -> Seq<FileView> {
    s.map_values(|f: FileData| f@)
}

impl FileData {
    /// Flips the transient deletion mark; every other field stays.
    pub fn toggle_mark_for_deletion(&mut self)
        ensures
            final(self).marked_for_deletion == !old(self).marked_for_deletion,
            final(self).shortname == old(self).shortname,
            final(self).absolute == old(self).absolute,
            final(self).extension == old(self).extension,
            final(self).icon == old(self).icon,
    {
        self.marked_for_deletion = !self.marked_for_deletion;
    }
}

/// A field-for-field copy of an entry; the clone of each string keeps its
/// characters, so the copy is equal to the original.
pub fn copy_entry(f: &FileData) -> (r: FileData)
    ensures
        r == *f,
{
    FileData {
        shortname: f.shortname.clone(),
        absolute: f.absolute.clone(),
        extension: f.extension.clone(),
        icon: f.icon.clone(),
        marked_for_deletion: f.marked_for_deletion,
    }
}


// ---------------------------------------------------------------------------
// Building a catalog entry
// ---------------------------------------------------------------------------
/// The glyph for a file extension, from a fixed table; an extension the
/// table does not know gets the plain file glyph.
pub open spec fn icon_of_ext(ext: Seq<char>) -> Seq<char> {
    if ext == "py"@ {
        "\u{e73c} "@
    } else if ext == "rs"@ {
        "\u{e7a8} "@
    } else if ext == "js"@ {
        "\u{e781} "@
    } else if ext == "ts"@ {
        "\u{f06e6} "@
    } else if ext == "svelte"@ {
        "\u{e697} "@
    } else if ext == "c"@ {
        "\u{e61e} "@
    } else if ext == "h"@ {
        "\u{e61e} "@
    } else if ext == "cpp"@ {
        "\u{e61d} "@
    } else if ext == "hpp"@ {
        "\u{e61d} "@
    } else if ext == "zig"@ {
        "\u{e6a9} "@
    } else if ext == "go"@ {
        "\u{f07d3} "@
    } else if ext == "pdf"@ {
        "\u{eaeb} "@
    } else if ext == "json"@ {
        "\u{e60b} "@
    } else if ext == "toml"@ {
        "\u{e615} "@
    } else if ext == "wav"@ {
        "\u{f0388} "@
    } else if ext == "mp3"@ {
        "\u{f0388} "@
    } else if ext == "flaac"@ {
        "\u{f0388} "@
    } else if ext == "folder"@ {
        "\u{f024b} "@
    } else if ext == "gitignore"@ {
        "\u{e702} "@
    } else if ext == "git"@ {
        "\u{e702} "@
    } else if ext == "github"@ {
        "\u{e702} "@
    } else {
        FILE_ICON@
    }
}

/// The glyph for an entry: a directory gets the folder glyph, a file goes
/// by its extension.
pub open spec fn icon_of(is_dir: bool, ext: Seq<char>) -> Seq<char> {
    if is_dir {
        FOLDER_ICON@
    } else {
        icon_of_ext(ext)
    }
}

/// Executable glyph lookup.
pub fn icon_for(is_dir: bool, ext: &str) -> (r: String)
    ensures
        r@ == icon_of(is_dir, ext@),
{
    if is_dir {
        return String::from_str(FOLDER_ICON);
    }
    if str_eq(ext, "py") {
        String::from_str("\u{e73c} ")
    } else if str_eq(ext, "rs") {
        String::from_str("\u{e7a8} ")
    } else if str_eq(ext, "js") {
        String::from_str("\u{e781} ")
    } else if str_eq(ext, "ts") {
        String::from_str("\u{f06e6} ")
    } else if str_eq(ext, "svelte") {
        String::from_str("\u{e697} ")
    } else if str_eq(ext, "c") {
        String::from_str("\u{e61e} ")
    } else if str_eq(ext, "h") {
        String::from_str("\u{e61e} ")
    } else if str_eq(ext, "cpp") {
        String::from_str("\u{e61d} ")
    } else if str_eq(ext, "hpp") {
        String::from_str("\u{e61d} ")
    } else if str_eq(ext, "zig") {
        String::from_str("\u{e6a9} ")
    } else if str_eq(ext, "go") {
        String::from_str("\u{f07d3} ")
    } else if str_eq(ext, "pdf") {
        String::from_str("\u{eaeb} ")
    } else if str_eq(ext, "json") {
        String::from_str("\u{e60b} ")
    } else if str_eq(ext, "toml") {
        String::from_str("\u{e615} ")
    } else if str_eq(ext, "wav") {
        String::from_str("\u{f0388} ")
    } else if str_eq(ext, "mp3") {
        String::from_str("\u{f0388} ")
    } else if str_eq(ext, "flaac") {
        String::from_str("\u{f0388} ")
    } else if str_eq(ext, "folder") {
        String::from_str("\u{f024b} ")
    } else if str_eq(ext, "gitignore") {
        String::from_str("\u{e702} ")
    } else if str_eq(ext, "git") {
        String::from_str("\u{e702} ")
    } else if str_eq(ext, "github") {
        String::from_str("\u{e702} ")
    } else {
        String::from_str(FILE_ICON)
    }
}

/// The name after the last slash of a path; the whole path when it has
/// none, empty when the path ends in a slash.
pub open spec fn basename_of(s: Seq<char>) -> Seq<char>
    decreases s.len(),
{
    if s.len() == 0 {
        s
    } else if s.last() == '/' {
        Seq::empty()
    } else {
        basename_of(s.drop_last()).push(s.last())
    }
}

proof fn lemma_basename_none(s: Seq<char>)
    requires
        forall|j: int| 0 <= j < s.len() ==> s[j] != '/',
    ensures
        basename_of(s) == s,
    decreases s.len(),
{
    if s.len() > 0 {
        assert forall|j: int| 0 <= j < s.drop_last().len() implies s.drop_last()[j] != '/' by {
            assert(s.drop_last()[j] == s[j]);
        }
        lemma_basename_none(s.drop_last());
        assert(s.drop_last().push(s.last()) =~= s);
    }
}

proof fn lemma_basename_at(s: Seq<char>, k: int)
    requires
        0 <= k < s.len(),
        s[k] == '/',
        forall|j: int| k < j < s.len() ==> s[j] != '/',
    ensures
        basename_of(s) == s.skip(k + 1),
    decreases s.len(),
{
    if k == s.len() - 1 {
        assert(basename_of(s) =~= s.skip(k + 1));
    } else {
        assert(s.last() != '/');
        assert(s.drop_last()[k] == s[k]);
        assert forall|j: int| k < j < s.drop_last().len() implies s.drop_last()[j] != '/' by {
            assert(s.drop_last()[j] == s[j]);
        }
        lemma_basename_at(s.drop_last(), k);
        assert(s.drop_last().skip(k + 1).push(s.last()) =~= s.skip(k + 1));
    }
}

/// A name carries an extension when a dot stands anywhere after its first
/// character, as a path library reads file names.
pub open spec fn has_ext(name: Seq<char>) -> bool {
    exists|j: int| 1 <= j < name.len() && name[j] == '.'
}

/// The characters after the last dot of a name.
pub open spec fn after_last_dot(name: Seq<char>) -> Seq<char>
    decreases name.len(),
{
    if name.len() == 0 {
        name
    } else if name.last() == '.' {
        Seq::empty()
    } else {
        after_last_dot(name.drop_last()).push(name.last())
    }
}

proof fn lemma_after_dot_at(name: Seq<char>, k: int)
    requires
        0 <= k < name.len(),
        name[k] == '.',
        forall|j: int| k < j < name.len() ==> name[j] != '.',
    ensures
        after_last_dot(name) == name.skip(k + 1),
    decreases name.len(),
{
    if k == name.len() - 1 {
        assert(after_last_dot(name) =~= name.skip(k + 1));
    } else {
        assert(name.last() != '.');
        assert(name.drop_last()[k] == name[k]);
        assert forall|j: int| k < j < name.drop_last().len() implies name.drop_last()[j]
            != '.' by {
            assert(name.drop_last()[j] == name[j]);
        }
        lemma_after_dot_at(name.drop_last(), k);
        assert(name.drop_last().skip(k + 1).push(name.last()) =~= name.skip(k + 1));
    }
}

/// The extension field of an entry: what follows the last dot where the
/// name has one; a file without one keeps its whole name there, and
/// anything else gets none.
pub open spec fn extension_of(name: Seq<char>, is_file: bool) -> Seq<char> {
    if has_ext(name) {
        after_last_dot(name)
    } else if is_file {
        name
    } else {
        Seq::empty()
    }
}

/// The descriptor one directory child becomes: its basename as display
/// name, the path itself, the extension read from the name, the glyph from
/// the table, and no deletion mark.
pub open spec fn entry_of(path: Seq<char>, is_file: bool, is_dir: bool) -> FileView {
    let name = basename_of(path);
    let ext = extension_of(name, is_file);
    FileView {
        shortname: name,
        absolute: path,
        extension: ext,
        icon: icon_of(is_dir, ext),
        marked_for_deletion: false,
    }
}

/// Builds the catalog entry for one directory child from its path and what
/// the filesystem says it is.
pub fn make_entry(path_str: String, is_file: bool, is_dir: bool) -> (r: FileData)
    ensures
        r@ == entry_of(path_str@, is_file, is_dir),
{
    let s = path_str.as_str();
    let n = s.unicode_len();
    let mut last_slash: Option<usize> = None;
    for i in 0..n
        invariant
            n == s@.len(),
            match last_slash {
                Some(k) => k < i && s@[k as int] == '/' && forall|j: int|
                    k < j < i ==> s@[j] != '/',
                None => forall|j: int| 0 <= j < i ==> s@[j] != '/',
            },
    {
        if s.get_char(i) == '/' {
            last_slash = Some(i);
        }
    }
    let name: String = match last_slash {
        Some(k) => {
            proof {
                lemma_basename_at(s@, k as int);
            }
            s.substring_char(k + 1, n).to_owned()
        },
        None => {
            proof {
                lemma_basename_none(s@);
            }
            path_str.clone()
        },
    };
    let ns = name.as_str();
    let nn = ns.unicode_len();
    let mut last_dot: Option<usize> = None;
    for i in 0..nn
        invariant
            nn == ns@.len(),
            ns@ == name@,
            match last_dot {
                Some(k) => k < i && ns@[k as int] == '.' && forall|j: int|
                    k < j < i ==> ns@[j] != '.',
                None => forall|j: int| 0 <= j < i ==> ns@[j] != '.',
            },
    {
        if ns.get_char(i) == '.' {
            last_dot = Some(i);
        }
    }
    let mut ext: String = String::new();
    let mut ext_found = false;
    match last_dot {
        Some(k) => {
            if k >= 1 {
                proof {
                    lemma_after_dot_at(name@, k as int);
                    assert(has_ext(name@)) by {
                        assert(1 <= k < name@.len() && name@[k as int] == '.');
                    }
                }
                ext = ns.substring_char(k + 1, nn).to_owned();
                ext_found = true;
            } else {
                proof {
                    assert(!has_ext(name@));
                }
            }
        },
        None => {
            proof {
                assert(!has_ext(name@));
            }
        },
    }
    if !ext_found {
        if is_file {
            ext = name.clone();
        }
    }
    let icon = icon_for(is_dir, ext.as_str());
    FileData {
        shortname: name,
        absolute: path_str,
        extension: ext,
        icon,
        marked_for_deletion: false,
    }
}

} // verus!
