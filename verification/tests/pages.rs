use timetable::cell::CellError;
use scraper::Html;
use timetable::markup::{
    parse_html_page, read_page, read_tables, read_title, PageError, Selectors, MAX_PAGE_CHARS,
};
use timetable::page::{owner, parse_page, read_day, read_week, walk, Page};
use timetable::schedule::{Day, Lesson, Schedule, Subgroup, Week};
use timetable::types::{Entity, ItemType};

fn teacher() -> Entity {
    Entity { name: "Petrov A.B.".to_string(), kind: ItemType::Teacher }
}

fn group() -> Entity {
    Entity { name: "Group-5".to_string(), kind: ItemType::Group }
}

fn cell(nodes: &[&str]) -> Vec<String> {
    nodes.iter().map(|n| n.to_string()).collect()
}

fn calculus() -> Lesson {
    Lesson::CommonLesson {
        teacher: "Petrov A.B.".to_string(),
        group: "Group-5".to_string(),
        room: "Room-210".to_string(),
        name: "Calculus".to_string(),
    }
}

const TITLE_OPEN: &str = "<font face=\"Times New Roman\" size=\"6\" color=\"#ff00ff\">";

fn teacher_html() -> String {
    format!(
        "<html><body><p>{}Petrov  A.B.</font></p>\
         <table><tr><td>h</td><td>1</td></tr><tr><td>h</td><td>2</td></tr>\
         <tr><td>Mon</td><td><font face=\"Arial\" size=\"1\">Group-5<br>Calculus<br>Room-210</font></td><td>-</td></tr>\
         </table></body></html>",
        TITLE_OPEN
    )
}

fn group_html() -> String {
    format!(
        "<html><body>{}Group-5</font>\
         <table><tr><td>h</td></tr><tr><td>h</td></tr>\
         <tr><td>Mon</td><td>\n<font>Calculus<br>Petrov A.B. Room-210</font></td>\
         <td><font>Physics<br>01 A Ivan Petrov 210<br>02 B Anna Smirnova 311</font></td><td>_</td></tr>\
         <tr><td>Tue</td></tr>\
         </table><table><tr><td>only header</td></tr></table></body></html>",
        TITLE_OPEN
    )
}

#[test]
fn day_skips_the_label_cell() {
    let row = vec![cell(&["Mon"]), cell(&["Group-5", "Calculus", "Room-210"]), cell(&["-"])];
    assert_eq!(read_day(&row, &teacher()), Ok(Day { lessons: vec![Some(calculus()), None] }));
}

#[test]
fn day_of_row_without_cells_is_empty() {
    assert_eq!(read_day(&Vec::new(), &teacher()), Ok(Day { lessons: vec![] }));
    assert_eq!(read_day(&vec![cell(&["broken"])], &teacher()), Ok(Day { lessons: vec![] }));
}

#[test]
fn day_fails_with_the_first_broken_cell() {
    let row = vec![cell(&["Mon"]), cell(&["-"]), cell(&["G", "N"]), cell(&["G"])];
    assert_eq!(read_day(&row, &teacher()), Err(CellError::MissingRoom));
}

#[test]
fn week_skips_two_header_rows() {
    let broken = vec![cell(&["x"]), cell(&["broken"])];
    let table = vec![
        broken.clone(),
        broken,
        vec![cell(&["Mon"]), cell(&["-"])],
        vec![cell(&["Tue"]), cell(&["Group-5", "Calculus", "Room-210"])],
    ];
    assert_eq!(
        read_week(&table, &teacher()),
        Ok(Week {
            days: vec![Day { lessons: vec![None] }, Day { lessons: vec![Some(calculus())] }]
        })
    );
}

#[test]
fn week_of_short_table_has_no_days() {
    for rows in 0..3 {
        let table = vec![vec![cell(&["x"]), cell(&["broken"])]; rows];
        assert_eq!(read_week(&table, &teacher()), Ok(Week { days: vec![] }));
    }
}

#[test]
fn walk_keeps_the_order_of_tables() {
    let header = vec![cell(&["h"])];
    let first = vec![header.clone(), header.clone(), vec![cell(&["Mon"]), cell(&["-"])]];
    let second = vec![header.clone(), header.clone()];
    let third = vec![
        header.clone(),
        header,
        vec![cell(&["Mon"]), cell(&["_"]), cell(&["Group-5", "Calculus", "Room-210"])],
    ];
    assert_eq!(
        walk(&vec![first, second, third], &teacher()),
        Ok(Schedule {
            weeks: vec![
                Week { days: vec![Day { lessons: vec![None] }] },
                Week { days: vec![] },
                Week { days: vec![Day { lessons: vec![None, Some(calculus())] }] },
            ]
        })
    );
}

#[test]
fn walk_of_no_tables_is_empty_schedule() {
    assert_eq!(walk(&Vec::new(), &group()), Ok(Schedule { weeks: vec![] }));
}

#[test]
fn owner_normalizes_the_title() {
    assert_eq!(owner(&Some("  Petrov \n A.B. ".to_string())), Some(teacher()));
    assert_eq!(owner(&Some("Group-5".to_string())), Some(group()));
    assert_eq!(owner(&Some(" . ".to_string())), None);
    assert_eq!(owner(&None), None);
}

#[test]
fn page_without_title_is_skipped() {
    let broken = vec![vec![vec![cell(&["h"])], vec![cell(&["h"])], vec![cell(&["x"]), cell(&["broken"])]]];
    assert_eq!(parse_page(&Page { title: None, tables: broken.clone() }), Ok(None));
    assert_eq!(parse_page(&Page { title: Some(".".to_string()), tables: broken.clone() }), Ok(None));
    let vacancy = "\u{412}\u{410}\u{41a}\u{410}\u{41d}\u{421}\u{418}\u{42f}".to_string();
    assert_eq!(parse_page(&Page { title: Some(vacancy), tables: broken.clone() }), Ok(None));
    assert_eq!(
        parse_page(&Page { title: Some("Petrov A.B.".to_string()), tables: broken }),
        Err(CellError::MissingName)
    );
}

#[test]
fn page_gives_owner_and_schedule() {
    let header = vec![cell(&["h"])];
    let table = vec![
        header.clone(),
        header,
        vec![cell(&["Mon"]), cell(&["Group-5", "Calculus", "Room-210"])],
    ];
    let page = Page { title: Some("Petrov A.B.".to_string()), tables: vec![table] };
    assert_eq!(
        parse_page(&page),
        Ok(Some((
            teacher(),
            Schedule { weeks: vec![Week { days: vec![Day { lessons: vec![Some(calculus())] }] }] }
        )))
    );
}

#[test]
fn selectors_are_accepted() {
    assert!(Selectors::new().is_some());
}

#[test]
fn read_title_finds_the_marked_element() {
    let selectors = Selectors::new().unwrap();
    let doc = Html::parse_document(&teacher_html());
    assert_eq!(read_title(&doc, &selectors), Some("Petrov  A.B.".to_string()));
    let plain = Html::parse_document("<html><body><font size=\"6\">Petrov A.B.</font></body></html>");
    assert_eq!(read_title(&plain, &selectors), None);
    let empty = Html::parse_document(&format!("<html><body>{}</font>{}x</font></body></html>", TITLE_OPEN, TITLE_OPEN));
    assert_eq!(read_title(&empty, &selectors), None);
}

#[test]
fn read_tables_gives_text_nodes_of_cells() {
    let selectors = Selectors::new().unwrap();
    let doc = Html::parse_document(&teacher_html());
    assert_eq!(
        read_tables(&doc, &selectors),
        vec![vec![
            vec![cell(&["h"]), cell(&["1"])],
            vec![cell(&["h"]), cell(&["2"])],
            vec![cell(&["Mon"]), cell(&["Group-5", "Calculus", "Room-210"]), cell(&["-"])],
        ]]
    );
}

#[test]
fn read_page_gives_title_and_tables() {
    let selectors = Selectors::new().unwrap();
    let doc = Html::parse_document("<html><body><table><tr><td></td><td>a<b>b</b></td></tr></table></body></html>");
    assert_eq!(
        read_page(&doc, &selectors),
        Page { title: None, tables: vec![vec![vec![cell(&[]), cell(&["a", "b"])]]] }
    );
}

#[test]
fn html_page_of_teacher() {
    let selectors = Selectors::new().unwrap();
    assert_eq!(
        parse_html_page(&teacher_html(), &selectors),
        Ok(Some((
            teacher(),
            Schedule {
                weeks: vec![Week { days: vec![Day { lessons: vec![Some(calculus()), None] }] }]
            }
        )))
    );
}

#[test]
fn html_page_of_group() {
    let selectors = Selectors::new().unwrap();
    let physics = Lesson::SubgroupedLesson {
        name: "Physics".to_string(),
        subgroups: vec![
            Subgroup { room: "210".to_string(), teacher: "Ivan Petrov".to_string() },
            Subgroup { room: "311".to_string(), teacher: "Anna Smirnova".to_string() },
        ],
    };
    let calculus = Lesson::CommonLesson {
        teacher: "Petrov A.B.".to_string(),
        group: "Group-5".to_string(),
        room: "Room-210".to_string(),
        name: "Calculus".to_string(),
    };
    assert_eq!(
        parse_html_page(&group_html(), &selectors),
        Ok(Some((
            group(),
            Schedule {
                weeks: vec![
                    Week {
                        days: vec![
                            Day { lessons: vec![Some(calculus), Some(physics), None] },
                            Day { lessons: vec![] },
                        ]
                    },
                    Week { days: vec![] },
                ]
            }
        )))
    );
}

#[test]
fn html_page_without_title_is_skipped() {
    let selectors = Selectors::new().unwrap();
    let html = "<html><body><table><tr></tr><tr></tr><tr><td>Mon</td><td>broken</td></tr></table></body></html>";
    assert_eq!(parse_html_page(html, &selectors), Ok(None));
    let vacancy = format!(
        "<html><body>{} \u{412}\u{410}\u{41a}\u{410}\u{41d}\u{421}\u{418}\u{42f} </font></body></html>",
        TITLE_OPEN
    );
    assert_eq!(parse_html_page(&vacancy, &selectors), Ok(None));
}

#[test]
fn html_page_with_broken_cell_fails() {
    let selectors = Selectors::new().unwrap();
    let html = format!(
        "<html><body>{}Group-5</font><table><tr></tr><tr></tr>\
         <tr><td>Mon</td><td>Calculus<br>Ivan Petrov</td></tr></table></body></html>",
        TITLE_OPEN
    );
    assert_eq!(parse_html_page(&html, &selectors), Err(PageError::Cell(CellError::ShortLessonLine)));
}

#[test]
fn html_page_that_is_too_long_is_refused() {
    let selectors = Selectors::new().unwrap();
    let text = " ".repeat(MAX_PAGE_CHARS + 1);
    assert_eq!(parse_html_page(&text, &selectors), Err(PageError::TooLong));
}

#[test]
fn page_length_is_counted_in_characters() {
    assert_eq!(MAX_PAGE_CHARS, 0x1fff_ffff);
    let selectors = Selectors::new().unwrap();
    let html = format!(
        "<html><body>{}\u{413}\u{440}\u{443}\u{43f}\u{43f}\u{430}</font></body></html>",
        TITLE_OPEN
    );
    match parse_html_page(&html, &selectors) {
        Ok(Some((entity, _))) => {
            assert_eq!(entity.name, "\u{413}\u{440}\u{443}\u{43f}\u{43f}\u{430}")
        }
        other => panic!("{:?}", other),
    }
}
