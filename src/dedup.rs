//! Disambiguation of repeated lesson names.

use ahash::{AHashMap, RandomState};
use vstd::prelude::*;
use vstd::string::*;
use crate::lesson::{Lesson, NAME_LIMIT};
use crate::text::{lemma_decimal_len_usize, marker, marker_string, truncate_chars, truncated};

verus! {

#[verifier::external_type_specification]
#[verifier::external_body]
#[verifier::reject_recursive_types(K)]
#[verifier::reject_recursive_types(V)]
#[verifier::reject_recursive_types(S)]
pub struct ExAHashMap<K, V, S>(AHashMap<K, V, S>);

#[verifier::external_type_specification]
#[verifier::external_body]
pub struct ExRandomState(RandomState);

/// A map from lesson names to how often each has occurred.
pub type NameCounts = AHashMap<String, usize>;

/// What a map from names to counts holds, keyed by the names' characters.
pub uninterp spec fn name_counts(m: NameCounts) -> Map<Seq<char>, usize>;

/// Relies on `AHashMap::default`: a new map holds no entry.
#[verifier::external_body]
fn new_counts() -> (r: NameCounts)
    ensures
        name_counts(r).dom() == Set::<Seq<char>>::empty(),
{
    AHashMap::default()
}

/// Relies on `AHashMap::get`: the value stored under an equal key, if any.
#[verifier::external_body]
fn count_of(m: &NameCounts, k: &String) -> (r: Option<usize>)
    ensures
        name_counts(*m).contains_key(k@) ==> r == Some(name_counts(*m)[k@]),
        !name_counts(*m).contains_key(k@) ==> r is None,
{
    m.get(k).copied()
}

/// Relies on `AHashMap::insert`: the key then maps to the value, the other
/// entries stay.
#[verifier::external_body]
fn set_count(m: &mut NameCounts, k: String, v: usize)
    ensures
        name_counts(*final(m)) == name_counts(*old(m)).insert(k@, v),
{
    m.insert(k, v);
}

/// The number of times `n` occurs among the first `end` names.
pub open spec fn count_through(names: Seq<Seq<char>>, end: int, n: Seq<char>) -> nat
    decreases end,
{
    if end <= 0 {
        0
    } else {
        count_through(names, end - 1, n) + if names[end - 1] == n {
            1nat
        } else {
            0nat
        }
    }
}

/// `name` cut so that the marker `" (c)"` fits in the limit, then the marker.
pub open spec fn with_count_marker(name: Seq<char>, c: nat) -> Seq<char> {
    truncated(name, (NAME_LIMIT - marker(c).len()) as nat) + marker(c)
}

/// The name at position `i` once duplicates are marked: the first occurrence
/// of a name stays, the `c`-th (from 2 on) gets the marker `" (c)"`.
pub open spec fn resolved_name(names: Seq<Seq<char>>, i: int) -> Seq<char> {
    let c = count_through(names, i + 1, names[i]);
    if c >= 2 {
        with_count_marker(names[i], c)
    } else {
        names[i]
    }
}

/// The names of a list of lessons.
pub open spec fn names_of(ls: Seq<Lesson>) -> Seq<Seq<char>> {
    ls.map_values(|l: Lesson| l.name@)
}

pub proof fn lemma_count_through_bound(names: Seq<Seq<char>>, end: int, n: Seq<char>)
    requires
        0 <= end,
    ensures
        count_through(names, end, n) <= end,
    decreases end,
{
    if end > 0 {
        lemma_count_through_bound(names, end - 1, n);
    }
}

/// Marks every lesson whose name repeats an earlier one with its running
/// occurrence count; the order and the links stay.
pub fn resolve_duplicates(lessons: &mut Vec<Lesson>)
    ensures
        final(lessons)@.len() == old(lessons)@.len(),
        forall|i: int|
            0 <= i < old(lessons)@.len() ==> {
                &&& (#[trigger] final(lessons)@[i]).name@ == resolved_name(names_of(old(lessons)@), i)
                &&& final(lessons)@[i].link@ == old(lessons)@[i].link@
            },
{
    let ghost names = names_of(lessons@);
    let mut counts = new_counts();
    let mut out: Vec<Lesson> = Vec::new();
    let n = lessons.len();
    let mut idx: usize = 0;
    while idx < n
        invariant
            n == lessons@.len(),
            names == names_of(lessons@),
            idx <= n,
            out@.len() == idx,
            forall|j: int|
                0 <= j < idx ==> {
                    &&& (#[trigger] out@[j]).name@ == resolved_name(names, j)
                    &&& out@[j].link@ == lessons@[j].link@
                },
            forall|k: Seq<char>|
                #[trigger] name_counts(counts).contains_key(k) <==> count_through(names, idx as int, k) > 0,
            forall|k: Seq<char>|
                #[trigger] name_counts(counts).contains_key(k) ==> name_counts(counts)[k] as nat
                    == count_through(names, idx as int, k),
        decreases n - idx,
    {
        let key = lessons[idx].name.clone();
        assert(key@ == names[idx as int]);
        proof {
            lemma_count_through_bound(names, idx as int, key@);
        }
        let c: usize = match count_of(&counts, &key) {
            None => 1,
            Some(c) => c + 1,
        };
        assert(c as nat == count_through(names, idx as int + 1, names[idx as int]));
        let ghost before = counts;
        set_count(&mut counts, key, c);
        assert forall|k: Seq<char>| #[trigger] name_counts(counts).contains_key(k)
            <==> count_through(names, idx as int + 1, k) > 0 by {
            if k != names[idx as int] {
                assert(name_counts(counts).contains_key(k) == name_counts(before).contains_key(k));
            }
        }
        assert forall|k: Seq<char>| #[trigger] name_counts(counts).contains_key(k)
            implies name_counts(counts)[k] as nat == count_through(names, idx as int + 1, k) by {
            if k != names[idx as int] {
                assert(name_counts(counts)[k] == name_counts(before)[k]);
            }
        }
        let name = if c > 1 {
            let m = marker_string(c as u128);
            proof {
                lemma_decimal_len_usize(c as nat);
            }
            let limit = NAME_LIMIT - m.as_str().unicode_len();
            let mut renamed = truncate_chars(lessons[idx].name.as_str(), limit).to_owned();
            renamed.append(m.as_str());
            renamed
        } else {
            lessons[idx].name.clone()
        };
        out.push(Lesson { name, link: lessons[idx].link.clone() });
        idx += 1;
    }
    *lessons = out;
}

/// Where every name has at most `NAME_LIMIT` characters, so has every
/// name once duplicates are marked.
pub proof fn lemma_resolved_within_limit(names: Seq<Seq<char>>, i: int)
    requires
        0 <= i < names.len(),
        names.len() <= usize::MAX,
        names[i].len() <= NAME_LIMIT,
    ensures
        resolved_name(names, i).len() <= NAME_LIMIT,
{
    let c = count_through(names, i + 1, names[i]);
    lemma_count_through_bound(names, i + 1, names[i]);
    lemma_decimal_len_usize(c);
}

/// Three lessons with one name `l` (short enough for a marker to fit) come
/// out as `l`, `l (2)` and `l (3)`: the first occurrence is untouched.
pub proof fn lemma_three_equal_names(l: Seq<char>)
    requires
        l.len() + 4 <= NAME_LIMIT,
    ensures
        resolved_name(seq![l, l, l], 0) == l,
        resolved_name(seq![l, l, l], 1) == l + " (2)"@,
        resolved_name(seq![l, l, l], 2) == l + " (3)"@,
{
    let names = seq![l, l, l];
    reveal_with_fuel(count_through, 4);
    assert(count_through(names, 1, l) == 1);
    assert(count_through(names, 2, l) == 2);
    assert(count_through(names, 3, l) == 3);
    reveal_strlit(" (2)");
    reveal_strlit(" (3)");
    assert(marker(2) =~= " (2)"@);
    assert(marker(3) =~= " (3)"@);
    assert(truncated(l, (NAME_LIMIT - 4) as nat) == l);
}

} // verus!
