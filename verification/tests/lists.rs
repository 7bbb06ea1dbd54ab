use zst_webapp_scrapper::controllers::plan_controller::plans::{
    class_from_link, plans, entry_class, link_index_text,
};
use zst_webapp_scrapper::controllers::plan_controller::teachers::{
    entry_teacher, teacher_from_link, teachers,
};
use zst_webapp_scrapper::controllers::plan_controller::plan::plan_page_for;
use zst_webapp_scrapper::utils::list::{
    find_id, get_id, link_id_text, link_key_text, list_selector_text, IdType,
};

const LIST_PAGE: &str = "<html><head><title>Lista</title></head><body>\
<h1>Oddziały</h1>\
<ul><li><a href=\"plany/o1.html\">1TI</a></li><li><a href=\"plany/o2.html\">2TM</a></li></ul>\
<h2>Nauczyciele</h2>\
<ul><li><a href=\"plany/n1.html\">Jan Kowalski (JK)</a></li><li><a href=\"plany/n2.html\">Anna Nowak (AN)</a></li></ul>\
</body></html>";

#[test]
fn id_type_positions() {
    assert_eq!(IdType::Class.to_int(), 2);
    assert_eq!(IdType::Teacher.to_int(), 4);
    assert_eq!(list_selector_text(IdType::Class), "ul:nth-child(2) > li");
    assert_eq!(list_selector_text(IdType::Teacher), "ul:nth-child(4) > li");
}

#[test]
fn link_keys_and_ids() {
    assert_eq!(link_key_text("1TI", IdType::Class), "1TI");
    assert_eq!(link_key_text("Jan Kowalski (JK)", IdType::Teacher), "JK");
    assert_eq!(link_key_text("A)", IdType::Teacher), "A");
    assert_eq!(link_id_text("plany/o1.html"), "o1");
    assert_eq!(link_id_text("o7"), "o7");
}

#[test]
fn find_id_takes_the_last_entry_of_a_name() {
    let entries = vec![
        ("1TI".to_string(), "o1".to_string()),
        ("2TM".to_string(), "o2".to_string()),
        ("1TI".to_string(), "o9".to_string()),
    ];
    assert_eq!(find_id(&entries, "1TI"), "o9");
    assert_eq!(find_id(&entries, "2TM"), "o2");
    assert_eq!(find_id(&entries, "3X"), "None");
    assert_eq!(find_id(&vec![], "3X"), "None");
}

#[test]
fn get_id_reads_the_list_page() {
    assert_eq!(get_id(LIST_PAGE, "2TM", IdType::Class), Some("o2".to_string()));
    assert_eq!(get_id(LIST_PAGE, "AN", IdType::Teacher), Some("n2".to_string()));
    assert_eq!(get_id(LIST_PAGE, "ZZ", IdType::Teacher), Some("None".to_string()));
    let broken = "<body><p>x</p><ul><li>no link</li></ul></body>";
    assert_eq!(get_id(broken, "x", IdType::Class), None);
}

#[test]
fn class_from_link_reads_year_and_name() {
    let c = class_from_link("plany/o1.html", "1TI").unwrap();
    assert_eq!(c.index, "o1");
    assert_eq!(c.year, 1);
    assert_eq!(c.name, "TI");
    assert!(class_from_link("plany/o1.html", "TI").is_none());
    assert!(class_from_link("plany/o1.html", "").is_none());
    assert!(class_from_link("o1", "1TI").is_none());
    assert!(class_from_link("plany/o1.html", "ą1").is_none());
    assert_eq!(link_index_text("plany/n12.html"), Some("n12".to_string()));
}

#[test]
fn classes_from_the_list_page() {
    let classes = plans(LIST_PAGE).unwrap();
    assert_eq!(classes.len(), 2);
    assert_eq!(classes[0].format(), "o1. 1TI");
    assert_eq!(classes[1].index, "o2");
    assert_eq!(classes[1].year, 2);
    assert_eq!(classes[1].name, "TM");
    assert_eq!(entry_class("<a href=\"plany/o3.html\">3TE</a>").unwrap().index, "o3");
    assert!(entry_class("<span>none</span>").is_none());
}

#[test]
fn only_the_first_29_classes_are_read() {
    let mut page = String::from("<body><h1>x</h1><ul>");
    for k in 0..40 {
        page.push_str(&format!("<li><a href=\"plany/o{k}.html\">1A{k}</a></li>"));
    }
    page.push_str("</ul></body>");
    let classes = plans(&page).unwrap();
    assert_eq!(classes.len(), 29);
    assert_eq!(classes[28].index, "o28");
}

#[test]
fn teacher_from_link_reads_name_and_initials() {
    let t = teacher_from_link("plany/n1.html", "Jan Kowalski (JK)").unwrap();
    assert_eq!(t.index, "n1");
    assert_eq!(t.initials, "JK");
    assert_eq!(t.name, "Jan Kowalski");
    let t = teacher_from_link("plany/n1.html", " (JK)").unwrap();
    assert_eq!(t.name, "");
    assert_eq!(t.initials, "JK");
    assert!(teacher_from_link("plany/n1.html", "(JK)").is_none());
    assert!(teacher_from_link("plany/n1.html", "JK)").is_none());
    assert!(teacher_from_link("n1", "Jan Kowalski (JK)").is_none());
}

#[test]
fn teachers_from_the_list_page() {
    let teachers = teachers(LIST_PAGE).unwrap();
    assert_eq!(teachers.len(), 2);
    assert_eq!(teachers[1].name, "Anna Nowak");
    assert_eq!(teachers[1].initials, "AN");
    assert_eq!(teachers[1].index, "n2");
    assert!(entry_teacher("<b>x</b>").is_none());
}

#[test]
fn plan_page_for_a_path() {
    assert_eq!(
        plan_page_for(LIST_PAGE, "2TM"),
        Some("http://www.zstrzeszow.pl/plan/plany/o2.html".to_string())
    );
    assert_eq!(
        plan_page_for(LIST_PAGE, "JK"),
        Some("http://www.zstrzeszow.pl/plan/plany/n1.html".to_string())
    );
    assert_eq!(
        plan_page_for(LIST_PAGE, ""),
        Some("http://www.zstrzeszow.pl/plan/plany/None.html".to_string())
    );
    assert_eq!(plan_page_for("<body><p>x</p><ul><li>no link</li></ul></body>", "1A"), None);
}
