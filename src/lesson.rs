//! Lessons and the normalization of their display names.

use vstd::prelude::*;
use vstd::string::*;
use crate::text::{
    lemma_decimal_len_usize, lower_of, lowercase, marker, marker_string, occurs_in,
    str_contains, truncate_chars, truncated,
};

verus! {

/// The longest name, in characters, that the remote catalog displays.
pub const NAME_LIMIT: usize = 70;

/// The half of the input a lesson comes from.
#[derive(Clone, Copy, Debug, PartialEq, Eq, Structural)]
pub enum LessonType {
    TechSkills,
    SoftSkills,
}

/// A lesson as submitted to the remote catalog.
#[derive(Debug)]
pub struct Lesson {
    pub name: String,
    pub link: String,
}

/// The display prefix of a lesson type.
pub open spec fn category_prefix(t: LessonType) -> Seq<char> {
    match t {
        LessonType::TechSkills => "Tech skills"@,
        LessonType::SoftSkills => "Soft skills"@,
    }
}

/// A lower-cased title already names a category, with a space or an
/// underscore between the two words.
pub open spec fn embeds_category(lower: Seq<char>) -> bool {
    ||| occurs_in("tech skills"@, lower)
    ||| occurs_in("tech_skills"@, lower)
    ||| occurs_in("soft skills"@, lower)
    ||| occurs_in("soft_skills"@, lower)
}

/// The name before truncation, given the title's lower-cased form: the
/// title alone where it already names a category, else the category
/// prefix, a space and the title.
pub open spec fn base_name_with(t: LessonType, title: Seq<char>, lower: Seq<char>) -> Seq<char> {
    if embeds_category(lower) {
        title
    } else {
        category_prefix(t) + seq![' '] + title
    }
}

/// The name before truncation.
pub open spec fn base_name(t: LessonType, title: Seq<char>) -> Seq<char> {
    base_name_with(t, title, lower_of(title))
}

/// Empty without a position; `" (k+1)"` for the 0-based position `k`.
pub open spec fn position_suffix(i: Option<usize>) -> Seq<char> {
    match i {
        None => Seq::empty(),
        Some(k) => marker((k + 1) as nat),
    }
}

/// The name of a lesson given the title's lower-cased form: the base name
/// cut so that the suffix still fits in the limit, then the suffix.
pub open spec fn lesson_name_with(
    t: LessonType,
    title: Seq<char>,
    lower: Seq<char>,
    i: Option<usize>,
) -> Seq<char> {
    truncated(base_name_with(t, title, lower), (NAME_LIMIT - position_suffix(i).len()) as nat)
        + position_suffix(i)
}

/// The canonical name of a lesson.
pub open spec fn lesson_name(t: LessonType, title: Seq<char>, i: Option<usize>) -> Seq<char> {
    lesson_name_with(t, title, lower_of(title), i)
}

pub proof fn lemma_position_suffix_len(i: Option<usize>)
    ensures
        position_suffix(i).len() <= 23,
{
    if let Some(k) = i {
        lemma_decimal_len_usize((k + 1) as nat);
    }
}

fn prefix_of(t: LessonType) -> (r: &'static str)
    ensures
        r@ == category_prefix(t),
{
    match t {
        LessonType::TechSkills => "Tech skills",
        LessonType::SoftSkills => "Soft skills",
    }
}

impl Lesson {
    /// The lesson for one link of a titled line, given the title's
    /// lower-cased form `lowered`; `i` is the link's 0-based position where
    /// the line holds several links.
    pub fn with_lowered_title(
        name: &str,
        lowered: &str,
        link: &str,
        i: Option<usize>,
        lesson_type: LessonType,
    ) -> (r: Lesson)
        ensures
            r.name@ == lesson_name_with(lesson_type, name@, lowered@, i),
            r.link@ == link@,
    {
        let marker = match i {
            None => String::new(),
            Some(k) => marker_string(k as u128 + 1),
        };
        proof {
            lemma_position_suffix_len(i);
        }
        let embedded = str_contains(lowered, "tech skills")
            || str_contains(lowered, "tech_skills")
            || str_contains(lowered, "soft skills")
            || str_contains(lowered, "soft_skills");
        let limit = NAME_LIMIT - marker.as_str().unicode_len();
        let mut out = if embedded {
            truncate_chars(name, limit).to_owned()
        } else {
            let mut full = prefix_of(lesson_type).to_owned();
            full.append(" ");
            full.append(name);
            proof {
                reveal_strlit(" ");
            }
            truncate_chars(full.as_str(), limit).to_owned()
        };
        out.append(marker.as_str());
        Lesson { name: out, link: link.to_owned() }
    }

    /// The lesson for one link of a titled line; `i` is the link's 0-based
    /// position where the line holds several links.
    pub fn new(name: &str, link: &str, i: Option<usize>, lesson_type: LessonType) -> (r: Lesson)
        ensures
            r.name@ == lesson_name(lesson_type, name@, i),
            r.name@.len() <= NAME_LIMIT,
            r.link@ == link@,
    {
        proof {
            lemma_name_within_limit(lesson_type, name@, i);
        }
        let lower = lowercase(name);
        Lesson::with_lowered_title(name, lower.as_str(), link, i, lesson_type)
    }
}

/// Every normalized name has at most `NAME_LIMIT` characters, and is a
/// prefix of whole characters of the base name followed by the position
/// suffix, so no character is ever split.
pub proof fn lemma_name_within_limit(t: LessonType, title: Seq<char>, i: Option<usize>)
    ensures
        lesson_name(t, title, i).len() <= NAME_LIMIT,
        exists|k: int|
            0 <= k <= base_name(t, title).len() && #[trigger] base_name(t, title).take(k)
                + position_suffix(i) == lesson_name(t, title, i),
{
    lemma_position_suffix_len(i);
    let base = base_name(t, title);
    let limit = NAME_LIMIT - position_suffix(i).len();
    let k = if base.len() <= limit {
        base.len() as int
    } else {
        limit
    };
    assert(base.take(k) =~= truncated(base, limit as nat));
}

/// Normalizing the same lesson type, title and position twice gives the
/// same name.
pub proof fn lemma_name_deterministic(
    t: LessonType,
    title: Seq<char>,
    i: Option<usize>,
    first: Seq<char>,
    second: Seq<char>,
)
    requires
        first == lesson_name(t, title, i),
        second == lesson_name(t, title, i),
    ensures
        first == second,
{
}

} // verus!
