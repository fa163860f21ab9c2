//! Parsing of the lesson list: two blank-line-separated halves of
//! tab-separated `title<TAB>link [link ...]` lines.

use vstd::prelude::*;
use vstd::string::*;
use crate::lesson::LessonType;
use crate::text::chars_of;

verus! {

/// One link of one input line, before its name is derived.
#[derive(Debug)]
pub struct RawEntry {
    pub lesson_type: LessonType,
    pub title: String,
    pub link: String,
    /// The link's 0-based position where the line holds several links.
    pub index: Option<usize>,
}

/// A parsed entry as plain values: type, title, link and position.
pub type RawView = (LessonType, Seq<char>, Seq<char>, Option<usize>);

impl View for RawEntry {
    type V = RawView;

    open spec fn view(&self) -> RawView {
        (self.lesson_type, self.title@, self.link@, self.index)
    }
}

pub open spec fn entries_view(es: Seq<RawEntry>) -> Seq<RawView> {
    es.map_values(|e: RawEntry| e@)
}

/// `s` with every occurrence of `from` replaced by `to`, scanning from the
/// left without overlaps.
pub open spec fn replaced(s: Seq<char>, from: Seq<char>, to: Seq<char>) -> Seq<char>
    decreases s.len(),
{
    if from.len() == 0 || s.len() < from.len() {
        s
    } else if s.take(from.len() as int) == from {
        to + replaced(s.skip(from.len() as int), from, to)
    } else {
        seq![s[0]] + replaced(s.skip(1), from, to)
    }
}

/// Relies on `str::replace`: each match of the pattern, found from the left
/// without overlaps, is replaced.
#[verifier::external_body]
fn replace_all(s: &str, from: &str, to: &str) -> (r: String)
    requires
        from@.len() > 0,
    ensures
        r@ == replaced(s@, from@, to@),
{
    s.replace(from, to)
}

/// The first position at or after `i` that holds `c`, or the length of `s`.
pub open spec fn find_from(s: Seq<char>, c: char, i: int) -> int
    decreases s.len() - i,
{
    if i >= s.len() {
        s.len() as int
    } else if s[i] == c {
        i
    } else {
        find_from(s, c, i + 1)
    }
}

/// The first position of a blank line (two line feeds) at or after `i`, or
/// the length of `s`.
pub open spec fn find_blank(s: Seq<char>, i: int) -> int
    decreases s.len() - i,
{
    if i + 1 >= s.len() {
        s.len() as int
    } else if s[i] == '\n' && s[i + 1] == '\n' {
        i
    } else {
        find_blank(s, i + 1)
    }
}

/// The non-empty space-separated words of `s` from position `start` on.
pub open spec fn words_from(s: Seq<char>, start: int) -> Seq<Seq<char>>
    decreases s.len() - start,
{
    if start < 0 || start >= s.len() {
        Seq::empty()
    } else {
        let k = find_from(s, ' ', start);
        let w = s.subrange(start, k);
        let rest = if start <= k < s.len() {
            words_from(s, k + 1)
        } else {
            Seq::empty()
        };
        if w.len() == 0 {
            rest
        } else {
            seq![w] + rest
        }
    }
}

/// The entries of one line: none without a tab or with nothing after it;
/// one per word of the link field, numbered, where the field holds a space;
/// else one for the whole field.
pub open spec fn line_entries(t: LessonType, line: Seq<char>) -> Seq<RawView> {
    let k = find_from(line, '\t', 0);
    let title = line.take(k);
    let field = line.skip(k + 1);
    if k >= line.len() || field.len() == 0 {
        Seq::empty()
    } else if !field.contains(' ') {
        seq![(t, title, field, None)]
    } else {
        words_from(field, 0).map(|i: int, w: Seq<char>| (t, title, w, Some(i as usize)))
    }
}

/// The entries of the lines of `s` that start at or after `start`.
pub open spec fn segment_from(t: LessonType, s: Seq<char>, start: int) -> Seq<RawView>
    decreases s.len() - start,
{
    if start < 0 || start > s.len() {
        Seq::empty()
    } else {
        let k = find_from(s, '\n', start);
        let here = line_entries(t, s.subrange(start, k));
        if start <= k < s.len() {
            here + segment_from(t, s, k + 1)
        } else {
            here
        }
    }
}

/// The entries of a text whose line endings are line feeds: the part before
/// the first blank line is tech skills, the part after it soft skills.
pub open spec fn parsed_normalized(s: Seq<char>) -> Seq<RawView> {
    let b = find_blank(s, 0);
    let soft = if b < s.len() {
        s.skip(b + 2)
    } else {
        Seq::empty()
    };
    segment_from(LessonType::TechSkills, s.take(b), 0) + segment_from(
        LessonType::SoftSkills,
        soft,
        0,
    )
}

/// The entries of an input text, after each CRLF became a line feed.
pub open spec fn parsed(text: Seq<char>) -> Seq<RawView> {
    parsed_normalized(replaced(text, seq!['\r', '\n'], seq!['\n']))
}

pub proof fn lemma_find_from(s: Seq<char>, c: char, i: int)
    requires
        0 <= i <= s.len(),
    ensures
        i <= find_from(s, c, i) <= s.len(),
        forall|j: int| i <= j < find_from(s, c, i) ==> s[j] != c,
        find_from(s, c, i) < s.len() ==> s[find_from(s, c, i)] == c,
    decreases s.len() - i,
{
    if i < s.len() && s[i] != c {
        lemma_find_from(s, c, i + 1);
    }
}

fn find_char(v: &Vec<char>, c: char, start: usize) -> (r: usize)
    requires
        start <= v@.len(),
    ensures
        r as int == find_from(v@, c, start as int),
        start <= r <= v@.len(),
{
    let mut j = start;
    while j < v.len() && v[j] != c
        invariant
            start <= j <= v@.len(),
            find_from(v@, c, j as int) == find_from(v@, c, start as int),
        decreases v@.len() - j,
    {
        j += 1;
    }
    j
}

fn find_blank_line(v: &Vec<char>) -> (r: usize)
    ensures
        r as int == find_blank(v@, 0),
        r < v@.len() ==> r + 2 <= v@.len(),
        r <= v@.len(),
{
    let n = v.len();
    if n < 2 {
        return n;
    }
    let mut j: usize = 0;
    while j < n - 1 && !(v[j] == '\n' && v[j + 1] == '\n')
        invariant
            n == v@.len(),
            n >= 2,
            j <= n - 1,
            find_blank(v@, j as int) == find_blank(v@, 0),
        decreases n - j,
    {
        j += 1;
    }
    if j < n - 1 {
        j
    } else {
        n
    }
}

fn slice_chars(v: &Vec<char>, a: usize, b: usize) -> (r: Vec<char>)
    requires
        a <= b <= v@.len(),
    ensures
        r@ == v@.subrange(a as int, b as int),
{
    let mut out: Vec<char> = Vec::new();
    let mut j = a;
    while j < b
        invariant
            a <= j <= b <= v@.len(),
            out@ == v@.subrange(a as int, j as int),
        decreases b - j,
    {
        out.push(v[j]);
        j += 1;
        assert(out@ =~= v@.subrange(a as int, j as int));
    }
    out
}

fn parse_line(t: LessonType, line_s: &str, line_v: &Vec<char>, out: &mut Vec<RawEntry>)
    requires
        line_v@ == line_s@,
    ensures
        entries_view(final(out)@) == entries_view(old(out)@) + line_entries(t, line_v@),
{
    let ghost line = line_v@;
    let n = line_v.len();
    let k = find_char(line_v, '\t', 0);
    proof {
        lemma_find_from(line, '\t', 0);
    }
    if k >= n || k + 1 >= n {
        assert(entries_view(out@) =~= entries_view(out@) + line_entries(t, line));
        return;
    }
    let title = line_s.substring_char(0, k);
    let field_s = line_s.substring_char(k + 1, n);
    let field_v = slice_chars(line_v, k + 1, n);
    let ghost field = field_v@;
    assert(field =~= line.skip(k + 1));
    let m = field_v.len();
    let sp = find_char(&field_v, ' ', 0);
    proof {
        lemma_find_from(field, ' ', 0);
    }
    if sp >= m {
        assert(!field.contains(' '));
        let ghost before = entries_view(out@);
        out.push(RawEntry { lesson_type: t, title: title.to_owned(), link: field_s.to_owned(), index: None });
        assert(entries_view(out@) =~= before + line_entries(t, line));
        return;
    }
    assert(field[sp as int] == ' ');
    assert(field.contains(' '));
    let ghost base = entries_view(out@);
    let ghost mk = |i: int, w: Seq<char>| (t, title@, w, Some(i as usize));
    let ghost mut done: Seq<Seq<char>> = Seq::empty();
    let mut start: usize = 0;
    let mut i: usize = 0;
    while start < m
        invariant
            m == field.len(),
            field == field_v@,
            field_s@ == field,
            start <= m,
            i == done.len(),
            i <= start,
            words_from(field, 0) == done + words_from(field, start as int),
            entries_view(out@) == base + done.map(mk),
            mk == (|i: int, w: Seq<char>| (t, title@, w, Some(i as usize))),
        decreases m - start,
    {
        let e = find_char(&field_v, ' ', start);
        proof {
            lemma_find_from(field, ' ', start as int);
        }
        let ghost w = field.subrange(start as int, e as int);
        if e > start {
            let link = field_s.substring_char(start, e).to_owned();
            let ghost prev = entries_view(out@);
            out.push(RawEntry { lesson_type: t, title: title.to_owned(), link, index: Some(i) });
            proof {
                assert(entries_view(out@) =~= prev.push((t, title@, w, Some(i))));
                assert(mk(i as int, w) == (t, title@, w, Some(i)));
                assert(done.push(w).map(mk) =~= done.map(mk).push(mk(i as int, w)));
                assert(entries_view(out@) =~= base + done.push(w).map(mk));
                assert(words_from(field, 0) =~= done.push(w) + words_from(field, (if e < m { e + 1 } else { m as int })));
                done = done.push(w);
            }
            i += 1;
        } else {
            assert(words_from(field, 0) =~= done + words_from(field, (if e < m { e + 1 } else { m as int })));
        }
        if e < m {
            start = e + 1;
        } else {
            start = m;
        }
    }
    assert(done =~= words_from(field, 0));
    assert(entries_view(out@) =~= base + line_entries(t, line));
}

fn parse_segment(t: LessonType, s: &str, v: &Vec<char>, out: &mut Vec<RawEntry>)
    requires
        v@ == s@,
    ensures
        entries_view(final(out)@) == entries_view(old(out)@) + segment_from(t, v@, 0),
{
    let ghost init = entries_view(out@);
    let n = v.len();
    let mut start: usize = 0;
    loop
        invariant_except_break
            entries_view(out@) + segment_from(t, v@, start as int) == init + segment_from(t, v@, 0),
        invariant
            n == v@.len(),
            v@ == s@,
            start <= n,
        ensures
            entries_view(out@) == init + segment_from(t, v@, 0),
        decreases n - start,
    {
        let k = find_char(v, '\n', start);
        proof {
            lemma_find_from(v@, '\n', start as int);
        }
        let line_s = s.substring_char(start, k);
        let line_v = slice_chars(v, start, k);
        let ghost before = entries_view(out@);
        parse_line(t, line_s, &line_v, out);
        if k >= n {
            assert(segment_from(t, v@, start as int) == line_entries(t, line_v@));
            assert(entries_view(out@) =~= init + segment_from(t, v@, 0));
            break;
        }
        assert(entries_view(out@) + segment_from(t, v@, k + 1) =~= before + segment_from(t, v@, start as int));
        start = k + 1;
    }
}

/// A line without a tab, or whose only tab is its last character, gives no
/// entry.
pub proof fn lemma_dropped_lines(t: LessonType, line: Seq<char>)
    requires
        !line.contains('\t') || (line.len() > 0 && line.last() == '\t' && !line.drop_last().contains(
            '\t',
        )),
    ensures
        line_entries(t, line) == Seq::<RawView>::empty(),
{
    lemma_find_from(line, '\t', 0);
    let k = find_from(line, '\t', 0);
    if line.contains('\t') {
        if k < line.len() - 1 {
            assert(line.drop_last()[k] == '\t');
        }
    } else {
        if k < line.len() {
            assert(line[k] == '\t');
        }
    }
}

/// Splits an input text into entries: tech skills lines before the first
/// blank line, soft skills lines after it, each in source order.
pub fn parse_records(input: &str) -> (r: Vec<RawEntry>)
    ensures
        entries_view(r@) == parsed(input@),
{
    proof {
        reveal_strlit("\r\n");
        reveal_strlit("\n");
    }
    assert("\r\n"@ =~= seq!['\r', '\n']);
    assert("\n"@ =~= seq!['\n']);
    let text = replace_all(input, "\r\n", "\n");
    let v = chars_of(text.as_str());
    let ghost s = v@;
    let n = v.len();
    let b = find_blank_line(&v);
    let mut out: Vec<RawEntry> = Vec::new();
    let tech_s = text.as_str().substring_char(0, b);
    let tech_v = slice_chars(&v, 0, b);
    assert(tech_v@ =~= s.take(b as int));
    parse_segment(LessonType::TechSkills, tech_s, &tech_v, &mut out);
    if b < n {
        let soft_s = text.as_str().substring_char(b + 2, n);
        let soft_v = slice_chars(&v, b + 2, n);
        assert(soft_v@ =~= s.skip(b + 2));
        parse_segment(LessonType::SoftSkills, soft_s, &soft_v, &mut out);
    } else {
        let ghost e: Seq<char> = Seq::empty();
        assert(find_from(e, '\n', 0) == 0);
        assert(find_from(e, '\t', 0) == 0);
        assert(segment_from(LessonType::SoftSkills, e, 0) =~= Seq::empty());
    }
    assert(entries_view(out@) =~= parsed(input@));
    out
}

} // verus!
