use zst_webapp_scrapper::controllers::plan_controller::news::{
    entry_news, news, news_from_parts,
};
use zst_webapp_scrapper::controllers::{
    announcement_from_parts, announcements, announcements_text, entry_announcement, home,
    HomeAnswer, QueryStr,
};
use zst_webapp_scrapper::entities::announcement::Annoucement;
use zst_webapp_scrapper::utils::scraping::{selector_for, Scraper};

const HOME_PAGE: &str = "<html><body>\
<div class=\"mainDataContainer\"><div class=\"newsDataContainer\">\
<div class=\"mainNewsPanel\"><div class=\"newsTypePic\"><img src=\"img/a.png\"></div>\
<div class=\"newsCtn1\"><div><p>Ogłoszenie</p></div></div>\
<div class=\"newsCtn2\"><div class=\"newsTitle\"><p>Dzień otwarty</p></div></div></div>\
<div class=\"mainNewsPanel\"><div class=\"newsTypePic\"><img src=\"img/b.png\"></div>\
<div class=\"newsCtn1\"><div><p>Sport</p></div></div>\
<div class=\"newsCtn2\"><div class=\"newsTitle\"><p>Turniej</p></div></div></div>\
</div></div>\
<div id=\"content_4\"><ul><li><span>2024-01-02</span> <a href=\"#\">Zebranie</a></li>\
<li><span>2024-01-03</span> <a href=\"#\">Wycieczka</a></li></ul></div>\
</body></html>";

#[test]
fn news_of_the_home_page() {
    let items = news(HOME_PAGE).unwrap();
    assert_eq!(items.len(), 2);
    assert_eq!(items[0].image, "img/a.png");
    assert_eq!(items[0].news_type, "Ogłoszenie");
    assert_eq!(items[0].title, "Dzień otwarty");
    assert_eq!(items[1].title, "Turniej");
    assert_eq!(items[1].date.month, "");
    assert_eq!(items[1].description, "");
    assert!(news("<body></body>").unwrap().is_empty());
}

#[test]
fn news_needs_every_part() {
    let n = news_from_parts(&vec![Some("i.png".to_string())], &vec!["t".to_string()], &vec!["x".to_string()]);
    assert_eq!(n.unwrap().image, "i.png");
    assert!(news_from_parts(&vec![None], &vec!["t".to_string()], &vec!["x".to_string()]).is_none());
    assert!(news_from_parts(&vec![], &vec!["t".to_string()], &vec!["x".to_string()]).is_none());
    assert!(news_from_parts(&vec![Some("i".to_string())], &vec![], &vec!["x".to_string()]).is_none());
    assert!(entry_news("<div class=\"newsTypePic\"><img></div>").is_none());
    let broken = "<html><body><div class=\"mainDataContainer\"><div class=\"newsDataContainer\">\
<div class=\"mainNewsPanel\"><p>empty</p></div></div></div></body></html>";
    assert!(news(broken).is_none());
}

#[test]
fn announcements_of_the_home_page() {
    let list = announcements(HOME_PAGE).unwrap();
    assert_eq!(list.len(), 2);
    assert_eq!(list[0].date, "2024-01-02");
    assert_eq!(list[0].title, "Zebranie");
    assert_eq!(announcements_text(&list), "2024-01-02 Zebranie\n2024-01-03 Wycieczka\n");
    assert_eq!(announcements_text(&vec![]), "");
    assert!(entry_announcement("<a>x</a>").is_none());
    let a = announcement_from_parts(&vec!["d".to_string(), "e".to_string()], &vec!["t".to_string()]).unwrap();
    assert_eq!(a.format(), "d t");
    assert!(announcement_from_parts(&vec![], &vec!["t".to_string()]).is_none());
}

#[test]
fn only_the_first_100_announcements_are_read() {
    let mut page = String::from("<body><div id=\"content_4\"><ul>");
    for k in 0..120 {
        page.push_str(&format!("<li><span>{k}</span><a>t{k}</a></li>"));
    }
    page.push_str("</ul></div></body>");
    let list = announcements(&page).unwrap();
    assert_eq!(list.len(), 100);
    assert_eq!(list[99].title, "t99");
}

#[test]
fn home_answers_text_or_announcements() {
    match home(HOME_PAGE, &QueryStr { format: Some(true) }).unwrap() {
        HomeAnswer::Text(t) => assert_eq!(t, "2024-01-02 Zebranie\n2024-01-03 Wycieczka\n"),
        HomeAnswer::Announcements(_) => panic!("text was asked for"),
    }
    match home(HOME_PAGE, &QueryStr { format: None }).unwrap() {
        HomeAnswer::Announcements(list) => assert_eq!(list[1].title, "Wycieczka"),
        HomeAnswer::Text(_) => panic!("no text was asked for"),
    }
    let broken = "<body><div id=\"content_4\"><ul><li>nothing</li></ul></div></body>";
    assert!(home(broken, &QueryStr { format: Some(true) }).is_none());
}

#[test]
fn query_chooses_text() {
    assert!(QueryStr { format: Some(true) }.as_text());
    assert!(!QueryStr { format: Some(false) }.as_text());
    assert!(!QueryStr { format: None }.as_text());
    let a = Annoucement { date: "1".to_string(), title: "2".to_string() };
    assert_eq!(announcements_text(&vec![a]), "1 2\n");
}

#[test]
fn selectors_parse_through_scraper() {
    assert!(selector_for("td..l").is_none());
    let found = selector_for("span.p").unwrap();
    let doc0 = scraper::Html::parse_fragment("<p><span class=\"p\">a</span><span>b</span></p>");
    assert_eq!(doc0.select(&found).count(), 1);
    let sel = "span.p".to_sel();
    let doc = scraper::Html::parse_fragment("<span class=\"p\">x</span>");
    assert_eq!(doc.select(&sel).count(), 1);
}
