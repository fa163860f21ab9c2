use lms_records::lesson::LessonType;
use lms_records::parser::{parse_records, RawEntry};
use lms_records::plan::{lessons_from, prepare_lessons};

fn view(e: &RawEntry) -> (LessonType, &str, &str, Option<usize>) {
    (e.lesson_type, e.title.as_str(), e.link.as_str(), e.index)
}

#[test]
fn multi_link_line_gives_numbered_entries() {
    let es = parse_records("Intro\thttps://a.com https://b.com");
    let v: Vec<_> = es.iter().map(view).collect();
    assert_eq!(
        v,
        vec![
            (LessonType::TechSkills, "Intro", "https://a.com", Some(0)),
            (LessonType::TechSkills, "Intro", "https://b.com", Some(1)),
        ]
    );
    let ls = lessons_from(&es);
    assert!(ls[0].name.ends_with(" (1)"));
    assert!(ls[1].name.ends_with(" (2)"));
    assert_eq!(ls[0].name, "Tech skills Intro (1)");
    assert_eq!(ls[1].name, "Tech skills Intro (2)");
}

#[test]
fn blank_line_splits_tech_from_soft() {
    let es = parse_records("A\tX\n\nB\tY");
    let v: Vec<_> = es.iter().map(view).collect();
    assert_eq!(
        v,
        vec![(LessonType::TechSkills, "A", "X", None), (LessonType::SoftSkills, "B", "Y", None)]
    );
}

#[test]
fn crlf_line_endings_are_normalized() {
    let es = parse_records("A\tX\r\nC\tZ\r\n\r\nB\tY\r\n");
    let v: Vec<_> = es.iter().map(view).collect();
    assert_eq!(
        v,
        vec![
            (LessonType::TechSkills, "A", "X", None),
            (LessonType::TechSkills, "C", "Z", None),
            (LessonType::SoftSkills, "B", "Y", None),
        ]
    );
}

#[test]
fn lines_without_tab_or_link_are_dropped() {
    let es = parse_records("just a comment\nTitle\t\n\tonlylink\nOk\tL");
    let v: Vec<_> = es.iter().map(view).collect();
    assert_eq!(
        v,
        vec![(LessonType::TechSkills, "", "onlylink", None), (LessonType::TechSkills, "Ok", "L", None)]
    );
    let es = parse_records("no tab here\nTitle\t");
    assert!(es.is_empty());
}

#[test]
fn repeated_spaces_give_no_empty_links() {
    let es = parse_records("T\t a  b ");
    let v: Vec<_> = es.iter().map(view).collect();
    assert_eq!(
        v,
        vec![(LessonType::TechSkills, "T", "a", Some(0)), (LessonType::TechSkills, "T", "b", Some(1))]
    );
    let es = parse_records("T\t   ");
    assert!(es.is_empty());
}

#[test]
fn only_first_tab_splits() {
    let es = parse_records("T\ta\tb");
    let v: Vec<_> = es.iter().map(view).collect();
    assert_eq!(v, vec![(LessonType::TechSkills, "T", "a\tb", None)]);
}

#[test]
fn later_blank_lines_stay_in_soft() {
    let es = parse_records("A\tX\n\nB\tY\n\n\nC\tZ\n");
    let v: Vec<_> = es.iter().map(view).collect();
    assert_eq!(
        v,
        vec![
            (LessonType::TechSkills, "A", "X", None),
            (LessonType::SoftSkills, "B", "Y", None),
            (LessonType::SoftSkills, "C", "Z", None),
        ]
    );
}

#[test]
fn empty_input_gives_nothing() {
    assert!(parse_records("").is_empty());
    assert!(parse_records("\n\n").is_empty());
}

#[test]
fn prepared_lessons_are_named_and_deduplicated() {
    let ls = prepare_lessons("Intro\thttps://youtu.be/1\nIntro\thttps://x.org\n\nIntro\thttps://y.org");
    let names: Vec<&str> = ls.iter().map(|l| l.name.as_str()).collect();
    assert_eq!(names, vec!["Tech skills Intro", "Tech skills Intro (2)", "Soft skills Intro"]);
    let links: Vec<&str> = ls.iter().map(|l| l.link.as_str()).collect();
    assert_eq!(links, vec!["https://youtu.be/1", "https://x.org", "https://y.org"]);
}
