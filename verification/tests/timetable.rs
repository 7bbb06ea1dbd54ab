use zst_webapp_scrapper::controllers::plan_controller::classrooms::{
    classrooms, lesson_in_room, room_grid_fits,
};
use zst_webapp_scrapper::controllers::plan_controller::plan::{
    id_type_for, lesson_cell, plan, plan_from_rows, plan_page_url, with_group,
    without_group, Cell, Query, TableRow, Timetable, Type,
};
use zst_webapp_scrapper::entities::table::{Column, PlanRow, Subject};
use zst_webapp_scrapper::utils::list::IdType;

fn s(x: &str) -> String {
    x.to_string()
}

fn strings(v: &[&str]) -> Vec<String> {
    v.iter().map(|x| x.to_string()).collect()
}

fn cell(inner: &str, breaks: &[&str], p: &[&str], n: &[&str], r: &[&str]) -> Cell {
    Cell {
        inner_html: s(inner),
        breaks: strings(breaks),
        subjects: strings(p),
        teachers: strings(n),
        classrooms: strings(r),
    }
}

fn subject(c: &Column, k: usize) -> (String, Option<String>, Option<String>) {
    let x = &c.subjects[k];
    (x.subject.clone(), x.teacher.clone(), x.classroom.clone())
}

const PLAN_PAGE: &str = "<html><body><table class=\"tabela\">\
<tr><th>Nr</th><th>Godz</th><th>Pon</th><th>Wt</th></tr>\
<tr><td class=\"nr\">1</td><td class=\"g\"> 8:00- 8:45</td>\
<td class=\"l\"><span class=\"p\">mat</span> <a class=\"n\">JK</a> <span class=\"s\">12</span></td>\
<td class=\"l\">&nbsp;</td></tr>\
<tr><td class=\"nr\">2</td><td class=\"g\"> 8:50- 9:35</td>\
<td class=\"l\"><span><span class=\"p\">ang-1/2</span> <a class=\"n\">AB</a> <span class=\"s\">21</span></span><br>\
<span><span class=\"p\">ang-2/2</span> <a class=\"n\">CD</a> <span class=\"s\">22</span></span></td>\
<td class=\"l\">religia</td></tr>\
</table></body></html>";

#[test]
fn empty_cell_has_no_lesson() {
    assert!(lesson_cell(1, &cell("&nbsp;", &[], &[], &[], &[]), 0).is_none());
}

#[test]
fn grouped_cell_lists_each_group() {
    let c = cell("x", &["<br>"], &["ang-1/2", "ang-2/2"], &["AB"], &["21", "22"]);
    let col = lesson_cell(3, &c, 1).unwrap();
    assert_eq!(col.lesson_number, 1);
    assert_eq!(col.subjects.len(), 2);
    assert_eq!(subject(&col, 0), (s("ang-1/2"), Some(s("AB")), Some(s("21"))));
    assert_eq!(subject(&col, 1), (s("ang-2/2"), Some(s("")), Some(s("22"))));
    let col = with_group(&cell("", &[], &[], &[], &[]), 4).unwrap();
    assert!(col.subjects.is_empty());
}

#[test]
fn single_cell_reads_its_elements() {
    let c = cell("<span class=\"p\">mat</span> <a class=\"n\">JK</a> <span class=\"s\">12</span>", &[], &["mat"], &["JK"], &["12"]);
    let col = lesson_cell(3, &c, 1).unwrap();
    assert_eq!(col.lesson_number, 3);
    assert_eq!(subject(&col, 0), (s("mat"), Some(s("JK")), Some(s("12"))));
}

#[test]
fn single_cell_falls_back_on_the_words() {
    let col = without_group(&cell("religia", &[], &[], &[], &[]), 2).unwrap();
    assert_eq!(col.lesson_number, 2);
    assert_eq!(subject(&col, 0), (s("religia"), None, None));
    let col = without_group(&cell("JK wf sala 7", &[], &[], &[], &[]), 5).unwrap();
    assert_eq!(subject(&col, 0), (s("wf"), Some(s("JK")), Some(s("7"))));
    let col = without_group(&cell("JK wf", &[], &[], &["Kowalski"], &[]), 5).unwrap();
    assert_eq!(subject(&col, 0), (s("wf"), Some(s("Kowalski")), Some(s("wf"))));
    let c = cell("a b", &["<br/>"], &["p"], &[], &[]);
    assert_eq!(lesson_cell(6, &c, 1).unwrap().lesson_number, 6);
}

fn row(hour: &str, cells: Vec<Cell>) -> TableRow {
    TableRow { hours: strings(&[hour]), cells }
}

#[test]
fn plan_by_row_skips_the_header() {
    let rows = vec![
        TableRow { hours: vec![], cells: vec![] },
        row(" 8:00- 8:45", vec![cell("religia", &[], &[], &[], &[]), cell("&nbsp;", &[], &[], &[], &[])]),
        row(" 8:50 -9:35", vec![cell("&nbsp;", &[], &[], &[], &[])]),
    ];
    match plan_from_rows(&rows, Type::Row).unwrap() {
        Timetable::ByRow(p) => {
            assert_eq!(p.hours, strings(&["8:00-8:45", "8:50-9:35"]));
            assert_eq!(p.weekdays.len(), 2);
            assert_eq!(p.weekdays[0].len(), 2);
            assert_eq!(p.weekdays[0][0].as_ref().unwrap().lesson_number, 1);
            assert!(p.weekdays[0][1].is_none());
            assert_eq!(p.weekdays[1].len(), 1);
        }
        Timetable::ByWeekday(_) => panic!("wrong layout"),
    }
}

#[test]
fn plan_by_weekday_reads_columns() {
    let rows = vec![
        TableRow { hours: vec![], cells: vec![] },
        row("1", vec![cell("a", &[], &[], &[], &[]), cell("b", &[], &[], &[], &[])]),
        row("2", vec![cell("c", &[], &[], &[], &[])]),
    ];
    match plan_from_rows(&rows, Type::Column).unwrap() {
        Timetable::ByWeekday(p) => {
            assert_eq!(p.hours, strings(&["1", "2"]));
            assert_eq!(p.weekdays.len(), 5);
            let monday: Vec<String> = p.weekdays[&0].iter().map(|c| c.as_ref().unwrap().subjects[0].subject.clone()).collect();
            assert_eq!(monday, strings(&["a", "c"]));
            assert_eq!(p.weekdays[&1].len(), 1);
            assert!(p.weekdays[&4].is_empty());
        }
        Timetable::ByRow(_) => panic!("wrong layout"),
    }
}

#[test]
fn plan_needs_an_hour_in_each_row() {
    let rows = vec![
        TableRow { hours: vec![], cells: vec![] },
        TableRow { hours: vec![], cells: vec![cell("a", &[], &[], &[], &[])] },
    ];
    assert!(plan_from_rows(&rows, Type::Row).is_none());
    assert!(plan_from_rows(&vec![], Type::Column).is_some());
}

#[test]
fn plan_counts_rows_in_a_byte() {
    let rows: Vec<TableRow> = (0..256).map(|_| row("h", vec![])).collect();
    assert!(plan_from_rows(&rows, Type::Row).is_none());
    let rows: Vec<TableRow> = (0..255).map(|_| row("h", vec![])).collect();
    assert!(plan_from_rows(&rows, Type::Row).is_some());
}

#[test]
fn plan_of_a_timetable_page() {
    match plan(PLAN_PAGE, Type::Row).unwrap() {
        Timetable::ByRow(p) => {
            assert_eq!(p.hours, strings(&["8:00-8:45", "8:50-9:35"]));
            let first = p.weekdays[0][0].as_ref().unwrap();
            assert_eq!(first.lesson_number, 1);
            assert_eq!(subject(first, 0), (s("mat"), Some(s("JK")), Some(s("12"))));
            assert!(p.weekdays[0][1].is_none());
            let grouped = p.weekdays[1][0].as_ref().unwrap();
            assert_eq!(grouped.lesson_number, 0);
            assert_eq!(subject(grouped, 1), (s("ang-2/2"), Some(s("CD")), Some(s("22"))));
            assert_eq!(subject(p.weekdays[1][1].as_ref().unwrap(), 0), (s("religia"), None, None));
        }
        Timetable::ByWeekday(_) => panic!("wrong layout"),
    }
    match plan(PLAN_PAGE, Type::Column).unwrap() {
        Timetable::ByWeekday(p) => {
            assert_eq!(p.weekdays[&0].len(), 2);
            assert_eq!(p.weekdays[&1].len(), 2);
            assert!(p.weekdays[&1][0].is_none());
            assert!(p.weekdays[&2].is_empty());
        }
        Timetable::ByRow(_) => panic!("wrong layout"),
    }
}

#[test]
fn query_defaults_to_weekdays() {
    assert_eq!(Query::default().direction, Some(Type::Column));
    assert_eq!(Type::default(), Type::Column);
    assert_eq!(Query { direction: None }.chosen(), Type::Column);
    assert_eq!(Query { direction: Some(Type::Row) }.chosen(), Type::Row);
}

#[test]
fn path_names_class_or_teacher() {
    assert_eq!(id_type_for("1TI"), IdType::Class);
    assert_eq!(id_type_for("JK"), IdType::Teacher);
    assert_eq!(id_type_for(""), IdType::Teacher);
    assert_eq!(id_type_for(" 1"), IdType::Teacher);
    assert_eq!(id_type_for("9a"), IdType::Class);
    assert_eq!(id_type_for("Ab"), IdType::Teacher);
    assert_eq!(plan_page_url("o1"), "http://www.zstrzeszow.pl/plan/plany/o1.html");
}

fn lesson(room: Option<&str>, n: u8) -> Option<Column> {
    Some(Column {
        subjects: vec![Subject { subject: s("x"), teacher: None, classroom: room.map(s) }],
        lesson_number: n,
    })
}

#[test]
fn room_plan_gathers_the_room_lessons() {
    let a = PlanRow { hours: vec![], weekdays: vec![vec![lesson(Some("12"), 1), lesson(Some("7"), 2)]] };
    let b = PlanRow { hours: vec![], weekdays: vec![vec![None, lesson(Some("12"), 9)], vec![lesson(None, 3)]] };
    let c = PlanRow { hours: vec![], weekdays: vec![vec![lesson(Some("12"), 4)]] };
    let plans = vec![a, b, c];
    assert!(room_grid_fits(&plans, "12"));
    let room = classrooms(&plans, "12");
    assert!(room.hours.is_empty());
    assert_eq!(room.weekdays.len(), 13);
    assert!(room.weekdays.iter().all(|h| h.len() == 12));
    assert_eq!(room.weekdays[0][0].as_ref().unwrap().lesson_number, 4);
    assert_eq!(room.weekdays[0][1].as_ref().unwrap().lesson_number, 9);
    assert!(room.weekdays[1][0].is_none());
    let empty_room = classrooms(&plans, "");
    assert_eq!(empty_room.weekdays[1][0].as_ref().unwrap().lesson_number, 3);
    assert!(lesson_in_room(&lesson(Some("7"), 0).unwrap(), "7"));
    assert!(!lesson_in_room(&lesson(None, 0).unwrap(), "7"));
}

#[test]
fn room_grid_has_13_hours_of_12() {
    let mut hours = vec![vec![None; 12]; 13];
    hours.push(vec![lesson(Some("5"), 0)]);
    let plans = vec![PlanRow { hours: vec![], weekdays: hours }];
    assert!(!room_grid_fits(&plans, "5"));
    assert!(room_grid_fits(&plans, "6"));
    let wide = vec![PlanRow { hours: vec![], weekdays: vec![{
        let mut v = vec![None; 12];
        v.push(lesson(Some("5"), 0));
        v
    }] }];
    assert!(!room_grid_fits(&wide, "5"));
}
