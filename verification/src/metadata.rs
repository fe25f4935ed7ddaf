//! The metadata that mpv reports of a track.

use vstd::prelude::*;

use crate::json::Json;
use crate::json::JsonView;
use crate::text;

verus! {

broadcast use vstd::string::group_string_axioms;

/// What `str::to_lowercase` makes of a text.
pub uninterp spec fn lowercased(text: Seq<char>) -> Seq<char>;

/// `str::to_lowercase` of std gives the lower case of a text by the rules of Unicode. Of an ASCII
/// text that is the text with its capitals in lower case.
#[verifier::external_body]
fn to_lowercase(text: &str) -> (lower: String)
    ensures
        lower@ == lowercased(text@),
        vstd::utf8::is_ascii_chars(text@) ==> lower@ == text::ascii_lower(text@),
{
    text.to_lowercase()
}

/// An entry: its key, and its value where that is a text.
pub type EntryView = (Seq<char>, Option<Seq<char>>);

/// The entries of a JSON table, with their keys in lower case.
pub open spec fn entries_of(table: Seq<(Seq<char>, JsonView)>) -> Seq<EntryView> {
    table.map_values(|e: (Seq<char>, JsonView)| (lowercased(e.0), e.1.as_text()))
}

/// The table of metadata in a message of mpv, where there is one.
pub open spec fn table_in(message: JsonView) -> Option<Seq<(Seq<char>, JsonView)>> {
    match message.field("data"@) {
        Some(JsonView::Table(table)) => Some(table),
        _ => None,
    }
}

/// The text of the last entry with the given key.
pub open spec fn latest(entries: Seq<EntryView>, key: Seq<char>) -> Option<Seq<char>>
    decreases entries.len(),
{
    if entries.len() == 0 {
        None
    } else if entries.last().0 == key {
        entries.last().1
    } else {
        latest(entries.drop_last(), key)
    }
}

/// The text of the last entry with the given key, or `otherwise`.
pub open spec fn latest_or(
    entries: Seq<EntryView>,
    key: Seq<char>,
    otherwise: Seq<char>,
) -> Seq<char> {
    match latest(entries, key) {
        Some(found) => found,
        None => otherwise,
    }
}

/// The metadata of a track: keys in lower case, each with its value where that is a text. Of two
/// entries with one key the later counts.
#[derive(Debug)]
pub struct Metadata {
    pub entries: Vec<(String, Option<String>)>,
}

impl View for Metadata {
    type V = Seq<EntryView>;

    open spec fn view(&self) -> Seq<EntryView> {
        self.entries@.map_values(|e: (String, Option<String>)| (e.0@, text::opt_view(e.1)))
    }
}

impl Metadata {
    /// The metadata in a message of mpv. There may be none, such as when mpv has just started.
    pub fn read(message: &Json) -> (metadata: Option<Metadata>)
        ensures
            match (metadata, table_in(message@)) {
                (Some(m), Some(table)) => {
                    &&& m@ == entries_of(table)
                    &&& forall|i: int|
                        0 <= i < table.len() && vstd::utf8::is_ascii_chars(
                            (#[trigger] table[i]).0,
                        ) ==> m@[i].0 == text::ascii_lower(table[i].0)
                },
                (None, None) => true,
                _ => false,
            },
    {
        match message.get("data") {
            Some(Json::Table(table)) => {
                let ghost all = message@.field("data"@)->0->Table_0;
                let mut entries: Vec<(String, Option<String>)> = Vec::new();
                let mut i: usize = 0;
                while i < table.len()
                    invariant
                        i <= table@.len() == all.len(),
                        all == Json::Table(*table)@->Table_0,
                        entries@.len() == i,
                        forall|k: int|
                            0 <= k < i ==> (#[trigger] entries@[k]).0@ == lowercased(all[k].0)
                                && text::opt_view(entries@[k].1) == all[k].1.as_text(),
                        forall|k: int|
                            0 <= k < i && vstd::utf8::is_ascii_chars((#[trigger] all[k]).0)
                                ==> entries@[k].0@ == text::ascii_lower(all[k].0),
                    decreases table@.len() - i,
                {
                    assert(all[i as int] == (table@[i as int].0@, table@[i as int].1@));
                    let value: Option<String> = match table[i].1.as_text() {
                        Some(t) => Some(t.to_owned()),
                        None => None,
                    };
                    entries.push((to_lowercase(table[i].0.as_str()), value));
                    i = i + 1;
                }
                let metadata = Metadata { entries };
                assert(metadata@ =~= entries_of(all));
                Some(metadata)
            },
            _ => None,
        }
    }

    /// The text of the last entry with the given key.
    pub fn get(&self, key: &str) -> (found: Option<String>)
        ensures
            text::opt_view(found) == latest(self@, key@),
    {
        let mut i: usize = self.entries.len();
        assert(self@.take(i as int) =~= self@);
        while i > 0
            invariant
                i <= self.entries@.len() == self@.len(),
                latest(self@, key@) == latest(self@.take(i as int), key@),
            decreases i,
        {
            let entry = &self.entries[i - 1];
            assert(self@[i - 1] == (entry.0@, text::opt_view(entry.1)));
            if entry.0.as_str().eq(key) {
                return match &entry.1 {
                    Some(t) => Some(t.clone()),
                    None => None,
                };
            }
            assert(self@.take(i as int).drop_last() =~= self@.take(i - 1));
            i = i - 1;
        }
        None
    }

    /// The text of the last entry with the given key, or `otherwise`.
    pub fn get_or(&self, key: &str, otherwise: &str) -> (found: String)
        ensures
            found@ == latest_or(self@, key@, otherwise@),
    {
        match self.get(key) {
            Some(t) => t,
            None => otherwise.to_owned(),
        }
    }
}

/// Whether the entry at position `i` is the last one with a key.
pub open spec fn is_last(entries: Seq<EntryView>, i: int, key: Seq<char>) -> bool {
    &&& 0 <= i < entries.len()
    &&& entries[i].0 == key
    &&& forall|j: int| i < j < entries.len() ==> (#[trigger] entries[j]).0 != key
}

/// Whether no entry has a key.
pub open spec fn is_silent(entries: Seq<EntryView>, key: Seq<char>) -> bool {
    forall|j: int| 0 <= j < entries.len() ==> (#[trigger] entries[j]).0 != key
}

/// What is reported under a key is what the last entry with the key says, as it is, and nothing is
/// where no entry has the key.
pub proof fn law_the_last_entry_counts(
    entries: Seq<EntryView>,
    i: int,
    key: Seq<char>,
    otherwise: Seq<char>,
)
    ensures
        is_last(entries, i, key) ==> latest(entries, key) == entries[i].1,
        is_silent(entries, key) ==> latest(entries, key) is None,
        latest(entries, key) matches Some(found) ==> latest_or(entries, key, otherwise) == found,
        latest(entries, key) is None ==> latest_or(entries, key, otherwise) == otherwise,
    decreases entries.len(),
{
    if entries.len() > 0 {
        let first = entries.drop_last();
        let n = entries.len() - 1;
        law_the_last_entry_counts(first, i, key, otherwise);
        if is_silent(entries, key) {
            assert(entries[n].0 != key);
            assert forall|j: int| 0 <= j < first.len() implies (#[trigger] first[j]).0 != key by {
                assert(first[j] == entries[j]);
            }
        }
        if is_last(entries, i, key) && i < n {
            assert(entries[n].0 != key);
            assert(first[i] == entries[i]);
            assert forall|j: int| i < j < first.len() implies (#[trigger] first[j]).0 != key by {
                assert(first[j] == entries[j]);
            }
        }
    }
}

/// Every entry of the reported table is kept, in its place: its key in lower case, and its value
/// where that is a text.
pub proof fn law_every_entry_is_kept(
    message: JsonView,
    table: Seq<(Seq<char>, JsonView)>,
    metadata: Metadata,
)
    ensures
        message.field("data"@) == Some(JsonView::Table(table)) ==> table_in(message) == Some(table),
        !(message.field("data"@) matches Some(JsonView::Table(_))) ==> table_in(message) is None,
        entries_of(table).len() == table.len(),
        forall|i: int|
            0 <= i < table.len() ==> #[trigger] entries_of(table)[i] == (
                lowercased(table[i].0),
                match table[i].1 {
                    JsonView::Text(t) => Some(t),
                    _ => None,
                },
            ),
        metadata@.len() == metadata.entries@.len(),
        forall|i: int|
            0 <= i < metadata.entries@.len() ==> #[trigger] metadata@[i] == (
                metadata.entries@[i].0@,
                match metadata.entries@[i].1 {
                    Some(t) => Some(t@),
                    None => None,
                },
            ),
{
}

} // verus!
