//! Directory entries as plain values, and the text that one entry becomes.

use vstd::prelude::*;

verus! {

/// What a child of the listed directory is.
#[derive(Clone, Copy, Debug, PartialEq, Eq, Structural)]
pub enum EntryKind {
    Directory,
    File,
}

/// One child of the listed directory whose name and kind are known.
#[derive(Debug)]
pub struct DirectoryEntry {
    pub name: String,
    pub kind: EntryKind,
}

/// One item of a directory enumeration, as far as it could be read.
#[derive(Debug)]
pub enum RawEntry {
    /// The enumeration failed on this item: not even a name is known.
    Unreadable,
    /// The item has a name, but its metadata could not be read.
    Unclassified { name: String },
    /// The item has a name and a kind.
    Classified(DirectoryEntry),
}

/// The text set behind the name of a directory.
pub const DIRECTORY_MARK: &'static str = "/";

/// The text set behind each entry of a packed line.
pub const PACKED_GAP: &'static str = "  ";

/// The text that ends a line.
pub const LINE_END: &'static str = "\n";

/// The text set behind the name of a directory.
pub open spec fn directory_mark() -> Seq<char> {
    DIRECTORY_MARK@
}

/// The text set behind each entry of a packed line.
pub open spec fn packed_gap() -> Seq<char> {
    PACKED_GAP@
}

/// The text that ends a line.
pub open spec fn line_end() -> Seq<char> {
    LINE_END@
}

/// A name is hidden if it begins with a dot.
pub open spec fn hidden(name: Seq<char>) -> bool {
    name.len() > 0 && name[0] == '.'
}

/// What follows an entry: a line end in the one-per-line layout, a gap of
/// two spaces in the packed layout.
pub open spec fn separator(one_per_line: bool) -> Seq<char> {
    if one_per_line {
        line_end()
    } else {
        packed_gap()
    }
}

/// A directory, as it is printed in the given layout.
pub open spec fn dir_text(one_per_line: bool, name: Seq<char>) -> Seq<char> {
    name + directory_mark() + separator(one_per_line)
}

/// A file, as it is printed in the given layout.
pub open spec fn file_text(one_per_line: bool, name: Seq<char>) -> Seq<char> {
    name + separator(one_per_line)
}

/// A classified entry, as it is printed in the given layout.
pub open spec fn entry_text(one_per_line: bool, entry: DirectoryEntry) -> Seq<char> {
    match entry.kind {
        EntryKind::Directory => dir_text(one_per_line, entry.name@),
        EntryKind::File => file_text(one_per_line, entry.name@),
    }
}

/// The raw entry for a child with the given name. `is_dir` is what its
/// metadata says, or `None` where the metadata could not be read.
pub open spec fn classified(name: String, is_dir: Option<bool>) -> RawEntry {
    match is_dir {
        None => RawEntry::Unclassified { name },
        Some(true) => RawEntry::Classified(DirectoryEntry { name, kind: EntryKind::Directory }),
        Some(false) => RawEntry::Classified(DirectoryEntry { name, kind: EntryKind::File }),
    }
}

/// Classifies a named child by one metadata lookup: a directory where the
/// metadata says so, else a file; unclassified where the lookup failed.
pub fn classify(name: String, is_dir: Option<bool>) -> (entry: RawEntry)
    ensures
        entry == classified(name, is_dir),
{
    match is_dir {
        None => RawEntry::Unclassified { name },
        Some(true) => RawEntry::Classified(DirectoryEntry { name, kind: EntryKind::Directory }),
        Some(false) => RawEntry::Classified(DirectoryEntry { name, kind: EntryKind::File }),
    }
}

/// Tells whether a name begins with a dot.
pub fn is_hidden(name: &str) -> (r: bool)
    ensures
        r == hidden(name@),
{
    !name.is_empty() && name.get_char(0) == '.'
}

/// The text for a directory: its name, a slash, and what the layout sets
/// behind an entry.
pub fn format_dir(one_per_line: bool, dir: &str) -> (text: String)
    ensures
        text@ == dir_text(one_per_line, dir@),
{
    let mut text = String::from_str(dir);
    text.append(DIRECTORY_MARK);
    if one_per_line {
        text.append(LINE_END);
    } else {
        text.append(PACKED_GAP);
    }
    text
}

/// The text for a file: its bare name, and what the layout sets behind an entry.
pub fn format_file(one_per_line: bool, file: &str) -> (text: String)
    ensures
        text@ == file_text(one_per_line, file@),
{
    let mut text = String::from_str(file);
    if one_per_line {
        text.append(LINE_END);
    } else {
        text.append(PACKED_GAP);
    }
    text
}

/// The text for a classified entry, by its kind.
pub fn format_entry(one_per_line: bool, entry: &DirectoryEntry) -> (text: String)
    ensures
        text@ == entry_text(one_per_line, *entry),
{
    match entry.kind {
        EntryKind::Directory => format_dir(one_per_line, entry.name.as_str()),
        EntryKind::File => format_file(one_per_line, entry.name.as_str()),
    }
}

/// The fixed texts character by character: a slash marks a directory, a
/// line end follows an entry on its own line, two spaces follow an entry of a
/// packed line.
pub proof fn lemma_fixed_texts()
    ensures
        directory_mark() == seq!['/'],
        line_end() == seq!['\n'],
        packed_gap() == seq![' ', ' '],
        separator(true) == seq!['\n'],
        separator(false) == seq![' ', ' '],
{
    reveal_strlit("/");
    reveal_strlit("\n");
    reveal_strlit("  ");
    assert(directory_mark() =~= seq!['/']);
    assert(line_end() =~= seq!['\n']);
    assert(packed_gap() =~= seq![' ', ' ']);
}

/// A directory's text is its name, a slash and the separator; a file's text
/// is its name and the separator alone, so that nothing stands between a
/// file's name and what follows it. Either text begins with the name and
/// ends with the separator.
pub proof fn lemma_slash_marks_directories(one_per_line: bool, entry: DirectoryEntry)
    ensures
        entry.kind == EntryKind::Directory ==> entry_text(one_per_line, entry) == entry.name@
            + seq!['/'] + separator(one_per_line),
        entry.kind == EntryKind::File ==> entry_text(one_per_line, entry) == entry.name@
            + separator(one_per_line),
        entry_text(one_per_line, entry).len() >= entry.name@.len() + separator(one_per_line).len(),
        entry_text(one_per_line, entry).subrange(0, entry.name@.len() as int) == entry.name@,
        entry_text(one_per_line, entry).subrange(
            entry_text(one_per_line, entry).len() - separator(one_per_line).len(),
            entry_text(one_per_line, entry).len() as int,
        ) == separator(one_per_line),
{
    lemma_fixed_texts();
    let text = entry_text(one_per_line, entry);
    let tail = separator(one_per_line);
    assert(text.subrange(0, entry.name@.len() as int) =~= entry.name@);
    assert(text.subrange(text.len() - tail.len(), text.len() as int) =~= tail);
}

} // verus!
