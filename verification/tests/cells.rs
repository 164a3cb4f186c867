use timetable::cell::{interpret, is_free_text, CellError};
use timetable::classify::classify;
use timetable::schedule::{Lesson, Subgroup};
use timetable::types::{Entity, ItemType};

fn teacher() -> Entity {
    Entity { name: "Petrov A.B.".to_string(), kind: ItemType::Teacher }
}

fn group() -> Entity {
    Entity { name: "Group-5".to_string(), kind: ItemType::Group }
}

fn lines(nodes: &[&str]) -> Vec<String> {
    nodes.iter().map(|n| n.to_string()).collect()
}

#[test]
fn classify_title_with_period_is_teacher() {
    assert_eq!(classify("Petrov A.B."), Some(teacher()));
    assert_eq!(classify("a.").map(|e| e.kind), Some(ItemType::Teacher));
    assert_eq!(classify("..").map(|e| e.kind), Some(ItemType::Teacher));
}

#[test]
fn classify_title_without_period_is_group() {
    assert_eq!(classify("Group-5"), Some(group()));
    assert_eq!(classify("").map(|e| e.kind), Some(ItemType::Group));
}

#[test]
fn classify_skips_placeholders() {
    assert_eq!(classify("."), None);
    assert_eq!(classify("\u{412}\u{410}\u{41a}\u{410}\u{41d}\u{421}\u{418}\u{42f}"), None);
}

#[test]
fn classify_keeps_titles_close_to_placeholders() {
    let lower = "\u{432}\u{430}\u{43a}\u{430}\u{43d}\u{441}\u{438}\u{44f}";
    assert_eq!(classify(lower).map(|e| e.kind), Some(ItemType::Group));
    assert_eq!(classify(". ").map(|e| e.kind), Some(ItemType::Teacher));
}

#[test]
fn subgroup_from_reads_words_two_to_four() {
    let s = Subgroup::from(vec!["01", "A", "Ivan", "Petrov", "210"]);
    assert_eq!(s, Subgroup { room: "210".to_string(), teacher: "Ivan Petrov".to_string() });
}

#[test]
fn subgroup_from_ignores_words_after_the_fifth() {
    let s = Subgroup::from(vec!["1", "2", "3", "4", "5", "6", "7"]);
    assert_eq!(s, Subgroup { room: "5".to_string(), teacher: "3 4".to_string() });
}

#[test]
fn free_markers() {
    for text in ["", "-", "_", " "] {
        assert!(is_free_text(text));
    }
    for text in ["--", "x", "- -", "\n"] {
        assert!(!is_free_text(text));
    }
}

#[test]
fn cell_with_marker_is_free_for_both_kinds() {
    for entity in [teacher(), group()] {
        for first in ["-", "_", "", " ", "  \t ", " - ", "\u{a0}"] {
            assert_eq!(interpret(&lines(&[first]), &entity), Ok(None));
            assert_eq!(interpret(&lines(&[first, "Calculus", "x y z"]), &entity), Ok(None));
        }
        assert_eq!(interpret(&lines(&[]), &entity), Ok(None));
    }
}

#[test]
fn cell_with_lone_line_break_is_free() {
    for entity in [teacher(), group()] {
        assert_eq!(interpret(&lines(&["\n"]), &entity), Ok(None));
        assert_eq!(interpret(&lines(&["\n", "-"]), &entity), Ok(None));
        assert_eq!(interpret(&lines(&["\n", "\n", "a", "b", "c"]), &entity), Ok(None));
    }
}

#[test]
fn teacher_cell_with_three_nodes() {
    let got = interpret(&lines(&["Group-5", "Calculus", "Room-210"]), &teacher());
    assert_eq!(
        got,
        Ok(Some(Lesson::CommonLesson {
            teacher: "Petrov A.B.".to_string(),
            group: "Group-5".to_string(),
            room: "Room-210".to_string(),
            name: "Calculus".to_string(),
        }))
    );
}

#[test]
fn teacher_cell_after_stray_line_break() {
    let got = interpret(&lines(&["\n", " Group-5 ", "Linear   algebra", "\n210\n"]), &teacher());
    assert_eq!(
        got,
        Ok(Some(Lesson::CommonLesson {
            teacher: "Petrov A.B.".to_string(),
            group: "Group-5".to_string(),
            room: "210".to_string(),
            name: "Linear algebra".to_string(),
        }))
    );
}

#[test]
fn teacher_cell_ignores_nodes_after_the_room() {
    let got = interpret(&lines(&["G", "N", "R", "more"]), &teacher());
    assert_eq!(
        got,
        Ok(Some(Lesson::CommonLesson {
            teacher: "Petrov A.B.".to_string(),
            group: "G".to_string(),
            room: "R".to_string(),
            name: "N".to_string(),
        }))
    );
}

#[test]
fn teacher_cell_cut_short() {
    assert_eq!(interpret(&lines(&["Group-5"]), &teacher()), Err(CellError::MissingName));
    assert_eq!(interpret(&lines(&["Group-5", "Calculus"]), &teacher()), Err(CellError::MissingRoom));
    assert_eq!(interpret(&lines(&["\n", "Group-5", "Calculus"]), &teacher()), Err(CellError::MissingRoom));
}

#[test]
fn group_cell_with_two_nodes_reads_first_three_words() {
    let got = interpret(&lines(&["Calculus", "Ivan Petrov 210"]), &group());
    assert_eq!(
        got,
        Ok(Some(Lesson::CommonLesson {
            teacher: "Ivan Petrov".to_string(),
            group: "Group-5".to_string(),
            room: "210".to_string(),
            name: "Calculus".to_string(),
        }))
    );
}

#[test]
fn group_cell_with_two_nodes_and_prefixed_line() {
    let got = interpret(&lines(&["Calculus", "01 A Ivan Petrov 210"]), &group());
    assert_eq!(
        got,
        Ok(Some(Lesson::CommonLesson {
            teacher: "01 A".to_string(),
            group: "Group-5".to_string(),
            room: "Ivan".to_string(),
            name: "Calculus".to_string(),
        }))
    );
}

#[test]
fn group_cell_with_three_nodes_is_subgrouped() {
    let got = interpret(
        &lines(&["Calculus", "01 A Ivan Petrov 210", "02 B  Anna Smirnova\t311 extra"]),
        &group(),
    );
    match got {
        Ok(Some(Lesson::SubgroupedLesson { name, subgroups })) => {
            assert_eq!(name, "Calculus");
            assert_eq!(subgroups.len(), 2);
            assert_eq!(
                subgroups[0],
                Subgroup { room: "210".to_string(), teacher: "Ivan Petrov".to_string() }
            );
            assert_eq!(
                subgroups[1],
                Subgroup { room: "311".to_string(), teacher: "Anna Smirnova".to_string() }
            );
        }
        other => panic!("{:?}", other),
    }
}

#[test]
fn group_cell_cut_short() {
    assert_eq!(interpret(&lines(&["Calculus"]), &group()), Err(CellError::MissingSecondLine));
    assert_eq!(interpret(&lines(&["Calculus", "Ivan Petrov"]), &group()), Err(CellError::ShortLessonLine));
    assert_eq!(interpret(&lines(&["Calculus", ""]), &group()), Err(CellError::ShortLessonLine));
    assert_eq!(
        interpret(&lines(&["Calculus", "01 A Ivan Petrov", "02 B Anna Smirnova 311"]), &group()),
        Err(CellError::ShortSubgroupLine)
    );
    assert_eq!(
        interpret(&lines(&["Calculus", "01 A Ivan Petrov 210", "02 B Anna"]), &group()),
        Err(CellError::ShortSubgroupLine)
    );
}

#[test]
fn group_cell_owner_is_the_group() {
    let got = interpret(&lines(&["  Physics ", "A B C"]), &group());
    match got {
        Ok(Some(Lesson::CommonLesson { group, name, .. })) => {
            assert_eq!(group, "Group-5");
            assert_eq!(name, "Physics");
        }
        other => panic!("{:?}", other),
    }
}
