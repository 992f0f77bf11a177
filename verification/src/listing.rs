//! The listing printer: from the raw entries of one directory to the text
//! that is written out.

use vstd::prelude::*;
use crate::entry::{
    entry_text, format_entry, hidden, is_hidden, lemma_fixed_texts, lemma_slash_marks_directories,
    line_end, separator, DirectoryEntry, RawEntry, LINE_END,
};
use crate::help::{help_banner, help_text};
use crate::options::{help_flag, mentions, parse, Options, OptionsView};

verus! {

/// The largest number of raw entries that is still printed on one line.
pub const PACKED_LIMIT: usize = 10;

/// The layout for a directory with `raw_count` raw entries: one entry per
/// line above the limit, all entries packed on one line up to it.
pub open spec fn one_per_line(raw_count: nat) -> bool {
    raw_count > PACKED_LIMIT
}

/// A raw entry is listed if it is classified and, unless hidden entries are
/// asked for, its name does not begin with a dot.
pub open spec fn listed(show_hidden: bool, entry: RawEntry) -> bool {
    match entry {
        RawEntry::Classified(e) => show_hidden || !hidden(e.name@),
        _ => false,
    }
}

/// The entries that are listed, in enumeration order.
pub open spec fn visible_entries(show_hidden: bool, entries: Seq<RawEntry>) -> Seq<DirectoryEntry>
    decreases entries.len(),
{
    if entries.len() == 0 {
        Seq::empty()
    } else {
        let front = visible_entries(show_hidden, entries.drop_last());
        if listed(show_hidden, entries.last()) {
            front.push(entries.last()->Classified_0)
        } else {
            front
        }
    }
}

/// The texts of the given entries, one behind the other.
pub open spec fn entries_text(one_per_line: bool, shown: Seq<DirectoryEntry>) -> Seq<char>
    decreases shown.len(),
{
    if shown.len() == 0 {
        Seq::empty()
    } else {
        entries_text(one_per_line, shown.drop_last()) + entry_text(one_per_line, shown.last())
    }
}

/// What a listing run writes. `read` is `None` where the directory could not
/// be enumerated. The layout goes by the number of raw entries, the text by
/// the listed ones, and one line end closes the output in every case.
pub open spec fn listing_text(show_hidden: bool, read: Option<Seq<RawEntry>>) -> Seq<char> {
    match read {
        None => line_end(),
        Some(entries) => entries_text(
            one_per_line(entries.len()),
            visible_entries(show_hidden, entries),
        ) + line_end(),
    }
}

/// What a whole run writes: the usage banner alone where help is asked for,
/// else the listing.
pub open spec fn run_text(opts: OptionsView, name: Seq<char>, read: Option<Seq<RawEntry>>) -> Seq<
    char,
> {
    if opts.help {
        help_banner(name)
    } else {
        listing_text(opts.all_files, read)
    }
}

/// The outcome of a directory read as a mathematical value.
pub open spec fn read_view(read: Option<&Vec<RawEntry>>) -> Option<Seq<RawEntry>> {
    match read {
        None => None,
        Some(entries) => Some(entries@),
    }
}

/// Decides the layout from the number of raw entries.
pub fn layout(raw_count: usize) -> (r: bool)
    ensures
        r == one_per_line(raw_count as nat),
{
    raw_count > PACKED_LIMIT
}

/// Tells whether a run with these options reads the directory at all: one
/// that prints the usage banner does not.
pub fn reads_directory(opts: &Options) -> (r: bool)
    ensures
        r == !opts.help,
{
    !opts.help
}

/// The text for the raw entries of a directory that was enumerated.
pub fn list_entries(show_hidden: bool, entries: &Vec<RawEntry>) -> (text: String)
    ensures
        text@ == listing_text(show_hidden, Some(entries@)),
{
    let one_per_line = layout(entries.len());
    let mut text = String::new();
    let mut i: usize = 0;
    while i < entries.len()
        invariant
            i <= entries.len(),
            text@ == entries_text(one_per_line, visible_entries(show_hidden, entries@.take(i as int))),
        decreases entries.len() - i,
    {
        proof {
            assert(entries@.take(i + 1).drop_last() =~= entries@.take(i as int));
            assert(entries@.take(i + 1).last() == entries@[i as int]);
        }
        match &entries[i] {
            RawEntry::Classified(entry) => {
                if show_hidden || !is_hidden(entry.name.as_str()) {
                    let piece = format_entry(one_per_line, entry);
                    text.append(piece.as_str());
                    proof {
                        let front = visible_entries(show_hidden, entries@.take(i as int));
                        assert(front.push(*entry).drop_last() =~= front);
                    }
                }
            },
            _ => {},
        }
        i += 1;
    }
    proof {
        assert(entries@.take(entries.len() as int) =~= entries@);
    }
    text.append(LINE_END);
    text
}

/// The text of a listing run, whether or not the directory could be enumerated.
pub fn listing_output(show_hidden: bool, read: Option<&Vec<RawEntry>>) -> (text: String)
    ensures
        text@ == listing_text(show_hidden, read_view(read)),
{
    match read {
        Some(entries) => list_entries(show_hidden, entries),
        None => String::from_str(LINE_END),
    }
}

/// Everything that one run writes to standard output. `name` is the
/// invocation name; `read` holds the raw entries of the directory at
/// `opts.path`, or `None` where it could not be enumerated or was not read.
pub fn run_output(opts: &Options, name: &str, read: Option<&Vec<RawEntry>>) -> (text: String)
    ensures
        text@ == run_text(opts@, name@, read_view(read)),
{
    if opts.help {
        help_text(name)
    } else {
        listing_output(opts.all_files, read)
    }
}

/// A directory with at most `PACKED_LIMIT` raw entries is printed packed:
/// each listed entry with two spaces behind it, all on one line. The count
/// is that of the raw entries, whatever is left out afterwards.
pub proof fn lemma_few_raw_entries_are_packed(show_hidden: bool, entries: Seq<RawEntry>)
    requires
        entries.len() <= PACKED_LIMIT,
    ensures
        listing_text(show_hidden, Some(entries)) == entries_text(
            false,
            visible_entries(show_hidden, entries),
        ) + line_end(),
{
}

/// A directory with more than `PACKED_LIMIT` raw entries is printed one entry
/// per line, even where few of them are listed in the end.
pub proof fn lemma_many_raw_entries_are_one_per_line(show_hidden: bool, entries: Seq<RawEntry>)
    requires
        entries.len() > PACKED_LIMIT,
    ensures
        listing_text(show_hidden, Some(entries)) == entries_text(
            true,
            visible_entries(show_hidden, entries),
        ) + line_end(),
{
}

/// The visible entries are exactly the listed raw entries: each visible entry
/// is a classified raw entry that passes the hidden filter, with its name and
/// kind unchanged, and each such raw entry is visible.
pub proof fn lemma_visible_entries_are_the_listed(show_hidden: bool, entries: Seq<RawEntry>)
    ensures
        forall|k: int|
            0 <= k < visible_entries(show_hidden, entries).len() ==> exists|i: int|
                0 <= i < entries.len() && listed(show_hidden, entries[i]) && #[trigger] entries[i]
                    == RawEntry::Classified(
                    (#[trigger] visible_entries(show_hidden, entries)[k]),
                ),
        forall|i: int|
            0 <= i < entries.len() && listed(show_hidden, #[trigger] entries[i]) ==> (
            entries[i] matches RawEntry::Classified(e) && visible_entries(
                show_hidden,
                entries,
            ).contains(e)),
    decreases entries.len(),
{
    if entries.len() > 0 {
        let front = entries.drop_last();
        let shown = visible_entries(show_hidden, entries);
        let shown_front = visible_entries(show_hidden, front);
        lemma_visible_entries_are_the_listed(show_hidden, front);
        assert forall|k: int| 0 <= k < shown.len() implies exists|i: int|
            0 <= i < entries.len() && listed(show_hidden, entries[i]) && #[trigger] entries[i]
                == RawEntry::Classified((#[trigger] shown[k])) by {
            if k < shown_front.len() {
                assert(shown[k] == shown_front[k]);
                let i = choose|i: int|
                    0 <= i < front.len() && listed(show_hidden, front[i]) && #[trigger] front[i]
                        == RawEntry::Classified(shown_front[k]);
                assert(entries[i] == front[i]);
            } else {
                assert(entries[entries.len() - 1] == RawEntry::Classified(shown[k]));
            }
        }
        assert forall|i: int|
            0 <= i < entries.len() && listed(show_hidden, #[trigger] entries[i]) implies (
        entries[i] matches RawEntry::Classified(e) && shown.contains(e)) by {
            if i < front.len() {
                assert(front[i] == entries[i]);
                let e = entries[i]->Classified_0;
                assert(shown_front.contains(e));
                let k = choose|k: int| 0 <= k < shown_front.len() && shown_front[k] == e;
                assert(shown[k] == e);
            } else {
                assert(shown[shown.len() - 1] == entries[i]->Classified_0);
            }
        }
    }
}

/// Without the request for all files, no visible entry has a name that begins
/// with a dot.
pub proof fn lemma_hidden_entries_are_left_out(entries: Seq<RawEntry>)
    ensures
        forall|k: int|
            0 <= k < visible_entries(false, entries).len() ==> !hidden(
                (#[trigger] visible_entries(false, entries)[k]).name@,
            ),
{
    lemma_visible_entries_are_the_listed(false, entries);
}

/// With the request for all files, every classified raw entry is visible,
/// hidden or not, with the kind it was classified as.
pub proof fn lemma_all_files_shows_hidden_entries(entries: Seq<RawEntry>, i: int)
    requires
        0 <= i < entries.len(),
        entries[i] is Classified,
    ensures
        visible_entries(true, entries).contains(entries[i]->Classified_0),
{
    lemma_visible_entries_are_the_listed(true, entries);
    assert(listed(true, entries[i]));
}

/// Where the help flag stands among the tokens, the run writes the usage
/// banner and nothing else, whatever the other tokens say and whatever a
/// read of the directory would have given.
pub proof fn lemma_help_writes_the_banner_alone(
    tokens: Seq<Seq<char>>,
    name: Seq<char>,
    read: Option<Seq<RawEntry>>,
)
    requires
        mentions(tokens, help_flag()),
    ensures
        run_text(parse(tokens), name, read) == help_banner(name),
{
}

/// A listing always closes with one line end behind the entries' text. Where
/// nothing is listed, because the directory could not be read or no entry is
/// visible, that line end is the whole output. Else it follows the last
/// entry's separator: the two spaces of a packed line, or the line end of
/// the last entry's own line, which leaves one blank line.
pub proof fn lemma_listing_ends_with_one_line_end(show_hidden: bool, read: Option<Seq<RawEntry>>)
    ensures
        listing_text(show_hidden, read).len() >= 1,
        listing_text(show_hidden, read).last() == '\n',
        read is None ==> listing_text(show_hidden, read) == seq!['\n'],
        read matches Some(entries) ==> {
            let shown = visible_entries(show_hidden, entries);
            let text = listing_text(show_hidden, read);
            let layout = one_per_line(entries.len());
            &&& text == entries_text(layout, shown) + seq!['\n']
            &&& shown.len() == 0 ==> text == seq!['\n']
            &&& shown.len() > 0 && layout ==> text.len() >= 2 && text.subrange(
                text.len() - 2,
                text.len() as int,
            ) == seq!['\n', '\n']
            &&& shown.len() > 0 && !layout ==> text.len() >= 3 && text.subrange(
                text.len() - 3,
                text.len() as int,
            ) == seq![' ', ' ', '\n']
        },
{
    lemma_fixed_texts();
    match read {
        None => {},
        Some(entries) => {
            let shown = visible_entries(show_hidden, entries);
            let text = listing_text(show_hidden, read);
            let layout = one_per_line(entries.len());
            if shown.len() > 0 {
                let body = entries_text(layout, shown);
                let piece = entry_text(layout, shown.last());
                assert(body == entries_text(layout, shown.drop_last()) + piece);
                lemma_slash_marks_directories(layout, shown.last());
                let tail = separator(layout);
                assert(piece =~= piece.subrange(0, piece.len() - tail.len()) + piece.subrange(
                    piece.len() - tail.len(),
                    piece.len() as int,
                ));
                if layout {
                    assert(text.subrange(text.len() - 2, text.len() as int) =~= seq!['\n', '\n']);
                } else {
                    assert(text.subrange(text.len() - 3, text.len() as int) =~= seq![
                        ' ',
                        ' ',
                        '\n',
                    ]);
                }
            } else {
                assert(text =~= seq!['\n']);
            }
        },
    }
}

} // verus!
