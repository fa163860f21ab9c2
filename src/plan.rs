//! From input text to the list of lessons to upload.

use vstd::prelude::*;
use crate::dedup::{resolve_duplicates, resolved_name};
use crate::lesson::{lesson_name, Lesson};
use crate::parser::{entries_view, parse_records, parsed, RawEntry, RawView};

verus! {

/// The names of parsed entries, before duplicates are marked.
pub open spec fn entry_names(es: Seq<RawView>) -> Seq<Seq<char>> {
    es.map_values(|e: RawView| lesson_name(e.0, e.1, e.3))
}

/// One lesson per entry, named from its type, title and position.
pub fn lessons_from(entries: &Vec<RawEntry>) -> (r: Vec<Lesson>)
    ensures
        r@.len() == entries@.len(),
        forall|i: int|
            0 <= i < r@.len() ==> {
                &&& (#[trigger] r@[i]).name@ == entry_names(entries_view(entries@))[i]
                &&& r@[i].link@ == entries@[i].link@
            },
{
    let mut out: Vec<Lesson> = Vec::new();
    let n = entries.len();
    let mut i: usize = 0;
    while i < n
        invariant
            n == entries@.len(),
            i <= n,
            out@.len() == i,
            forall|j: int|
                0 <= j < i ==> {
                    &&& (#[trigger] out@[j]).name@ == entry_names(entries_view(entries@))[j]
                    &&& out@[j].link@ == entries@[j].link@
                },
        decreases n - i,
    {
        let e = &entries[i];
        out.push(Lesson::new(e.title.as_str(), e.link.as_str(), e.index, e.lesson_type));
        i += 1;
    }
    out
}

/// The lessons of an input text in upload order: parsed, named, and with
/// repeated names marked.
pub fn prepare_lessons(input: &str) -> (r: Vec<Lesson>)
    ensures
        r@.len() == parsed(input@).len(),
        forall|i: int|
            0 <= i < r@.len() ==> {
                &&& (#[trigger] r@[i]).name@ == resolved_name(entry_names(parsed(input@)), i)
                &&& r@[i].link@ == parsed(input@)[i].2
            },
{
    let entries = parse_records(input);
    let mut lessons = lessons_from(&entries);
    let ghost before = lessons@;
    assert(crate::dedup::names_of(before) =~= entry_names(parsed(input@)));
    resolve_duplicates(&mut lessons);
    lessons
}

} // verus!
