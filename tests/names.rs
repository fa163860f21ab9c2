use lms_records::dedup::resolve_duplicates;
use lms_records::lesson::{Lesson, LessonType};
use lms_records::text::{append_decimal, marker_string, truncate_chars};

fn lesson(name: &str) -> Lesson {
    Lesson { name: name.to_string(), link: "https://x.org".to_string() }
}

#[test]
fn prefixes_tech_title() {
    let l = Lesson::new("Intro", "https://a.com", None, LessonType::TechSkills);
    assert_eq!(l.name, "Tech skills Intro");
    assert_eq!(l.link, "https://a.com");
}

#[test]
fn prefixes_soft_title_with_position() {
    let l = Lesson::new("Talks", "https://a.com", Some(0), LessonType::SoftSkills);
    assert_eq!(l.name, "Soft skills Talks (1)");
    let l = Lesson::new("Talks", "https://a.com", Some(9), LessonType::SoftSkills);
    assert_eq!(l.name, "Soft skills Talks (10)");
}

#[test]
fn embedded_category_is_kept_case_insensitively() {
    let l = Lesson::new("TECH SKILLS lesson 3", "l", None, LessonType::SoftSkills);
    assert_eq!(l.name, "TECH SKILLS lesson 3");
    let l = Lesson::new("Lesson soft_Skills", "l", None, LessonType::TechSkills);
    assert_eq!(l.name, "Lesson soft_Skills");
    let l = Lesson::new("techskills", "l", None, LessonType::TechSkills);
    assert_eq!(l.name, "Tech skills techskills");
}

#[test]
fn long_title_is_cut_to_limit() {
    let title = "a".repeat(100);
    let l = Lesson::new(&title, "l", None, LessonType::TechSkills);
    assert_eq!(l.name.chars().count(), 70);
    assert_eq!(l.name, format!("Tech skills {}", "a".repeat(58)));
    let l = Lesson::new(&title, "l", Some(1), LessonType::TechSkills);
    assert_eq!(l.name.chars().count(), 70);
    assert!(l.name.ends_with("a (2)"));
}

#[test]
fn multibyte_title_is_cut_by_characters() {
    let title = "ї".repeat(100);
    let l = Lesson::new(&title, "l", Some(11), LessonType::SoftSkills);
    assert_eq!(l.name.chars().count(), 70);
    assert_eq!(l.name, format!("Soft skills {} (12)", "ї".repeat(53)));
}

#[test]
fn normalizing_twice_gives_the_same_name() {
    let a = Lesson::new("Git basics", "l", Some(2), LessonType::TechSkills);
    let b = Lesson::new("Git basics", "l", Some(2), LessonType::TechSkills);
    assert_eq!(a.name, b.name);
}

#[test]
fn truncates_by_characters() {
    assert_eq!(truncate_chars("héllo", 2), "hé");
    assert_eq!(truncate_chars("héllo", 5), "héllo");
    assert_eq!(truncate_chars("héllo", 9), "héllo");
    assert_eq!(truncate_chars("", 0), "");
}

#[test]
fn renders_markers() {
    assert_eq!(marker_string(2), " (2)");
    assert_eq!(marker_string(1234567890), " (1234567890)");
    let mut s = "n=".to_string();
    append_decimal(&mut s, 0);
    assert_eq!(s, "n=0");
    let mut s = String::new();
    append_decimal(&mut s, u128::from(u64::MAX) + 1);
    assert_eq!(s, "18446744073709551616");
}

#[test]
fn three_equal_names_get_running_markers() {
    let mut ls = vec![lesson("L"), lesson("L"), lesson("L")];
    resolve_duplicates(&mut ls);
    let names: Vec<&str> = ls.iter().map(|l| l.name.as_str()).collect();
    assert_eq!(names, vec!["L", "L (2)", "L (3)"]);
}

#[test]
fn duplicates_are_counted_per_name() {
    let mut ls = vec![lesson("A"), lesson("B"), lesson("A"), lesson("B (1)"), lesson("B")];
    resolve_duplicates(&mut ls);
    let names: Vec<&str> = ls.iter().map(|l| l.name.as_str()).collect();
    assert_eq!(names, vec!["A", "B", "A (2)", "B (1)", "B (2)"]);
    assert!(ls.iter().all(|l| l.link == "https://x.org"));
}

#[test]
fn duplicate_of_full_length_name_is_cut_before_marker() {
    let long = "x".repeat(70);
    let mut ls = vec![lesson(&long), lesson(&long)];
    resolve_duplicates(&mut ls);
    assert_eq!(ls[0].name, long);
    assert_eq!(ls[1].name, format!("{} (2)", "x".repeat(66)));
    assert_eq!(ls[1].name.chars().count(), 70);
}

#[test]
fn empty_list_stays_empty() {
    let mut ls: Vec<Lesson> = vec![];
    resolve_duplicates(&mut ls);
    assert!(ls.is_empty());
}
