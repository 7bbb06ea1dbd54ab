//! The news panels of the school's home page.
use vstd::prelude::*;
use vstd::string::*;

use crate::entities::news::{Date, DateView, News, NewsView};
use crate::entities::table::{opt_text, texts};
use crate::utils::scraping::{
    document_inner_html, fragment_attribute, fragment_inner_html, opt_texts,
    select_fragment_attribute, select_fragment_inner_html, select_inner_html, selector_parses,
};

verus! {

/// The news item that a panel's parts give: the first image's `src`, the
/// first type paragraph and the first title paragraph; the date and the
/// description are left empty. `None` where a part is missing.
pub open spec fn spec_news_from_parts(
    images: Seq<Option<Seq<char>>>,
    types: Seq<Seq<char>>,
    titles: Seq<Seq<char>>,
) -> Option<NewsView> {
    if images.len() == 0 || images[0] is None || types.len() == 0 || titles.len() == 0 {
        None
    } else {
        Some(
            NewsView {
                image: images[0]->Some_0,
                news_type: types[0],
                title: titles[0],
                date: DateView { month: Seq::empty(), day_name: Seq::empty(), day: Seq::empty() },
                description: Seq::empty(),
            },
        )
    }
}

/// The view of an optional news item.
pub open spec fn opt_news(o: Option<News>) -> Option<NewsView> {
    match o {
        Some(n) => Some(n@),
        None => None,
    }
}

/// The news item that a panel's parts give: the `src` of each image, and the
/// inner HTML of each type paragraph and of each title paragraph.
pub fn news_from_parts(images: &Vec<Option<String>>, types: &Vec<String>, titles: &Vec<String>) -> (r:
    Option<News>)
    ensures
        opt_news(r) == spec_news_from_parts(opt_texts(images@), texts(types@), texts(titles@)),
        r is Some <==> (images@.len() > 0 && images@[0] is Some && types@.len() > 0
            && titles@.len() > 0),
        r matches Some(n) ==> n@.title == titles@[0]@ && n@.news_type == types@[0]@
            && images@[0] == Some(n.image),
{
    if images.len() == 0 || types.len() == 0 || titles.len() == 0 {
        return None;
    }
    assert(opt_texts(images@)[0] == opt_text(images@[0]));
    assert(texts(types@)[0] == types@[0]@);
    assert(texts(titles@)[0] == titles@[0]@);
    let image = match &images[0] {
        Some(i) => i.clone(),
        None => return None,
    };
    let news = News {
        image,
        news_type: types[0].clone(),
        title: titles[0].clone(),
        date: Date { month: String::new(), day_name: String::new(), day: String::new() },
        description: String::new(),
    };
    assert(news@.date.month =~= Seq::<char>::empty());
    Some(news)
}

/// The news item of one panel (its HTML). `None` where scraper refuses one of
/// the part selectors or a part is missing.
pub open spec fn spec_entry_news(item: Seq<char>) -> Option<NewsView> {
    if !(selector_parses(".newsTypePic img"@) && selector_parses(".newsCtn1 div > p"@)
        && selector_parses(".newsCtn2 .newsTitle p"@)) {
        None
    } else {
        spec_news_from_parts(
            fragment_attribute(item, ".newsTypePic img"@, "src"@),
            fragment_inner_html(item, ".newsCtn1 div > p"@),
            fragment_inner_html(item, ".newsCtn2 .newsTitle p"@),
        )
    }
}

/// The news item of one panel (its HTML).
pub fn entry_news(item: &str) -> (r: Option<News>)
    ensures
        opt_news(r) == spec_entry_news(item@),
{
    let images = match select_fragment_attribute(item, ".newsTypePic img", "src") {
        Some(v) => v,
        None => return None,
    };
    let types = match select_fragment_inner_html(item, ".newsCtn1 div > p") {
        Some(v) => v,
        None => return None,
    };
    let titles = match select_fragment_inner_html(item, ".newsCtn2 .newsTitle p") {
        Some(v) => v,
        None => return None,
    };
    news_from_parts(&images, &types, &titles)
}

/// A news item's title is the first title paragraph of its panel, its type the
/// first type paragraph and its image the `src` of the first image, however many
/// of each the panel has.
pub proof fn lemma_news_takes_first_parts(item: Seq<char>)
    ensures
        spec_entry_news(item) matches Some(n) ==> {
            let titles = fragment_inner_html(item, ".newsCtn2 .newsTitle p"@);
            let types = fragment_inner_html(item, ".newsCtn1 div > p"@);
            let images = fragment_attribute(item, ".newsTypePic img"@, "src"@);
            &&& titles.len() > 0 && n.title == titles[0]
            &&& types.len() > 0 && n.news_type == types[0]
            &&& images.len() > 0 && images[0] == Some(n.image)
        },
{
}

/// The selector of the news panels.
pub open spec fn news_panels() -> Seq<char> {
    "body > div.mainDataContainer div.newsDataContainer div.mainNewsPanel"@
}

/// The news of the home page (its HTML): every news panel, each read by
/// `spec_entry_news`. `None` where scraper refuses the panels' selector or a
/// panel gives no news item.
pub open spec fn spec_news(document: Seq<char>) -> Option<Seq<NewsView>> {
    let items = document_inner_html(document, news_panels());
    if !selector_parses(news_panels()) {
        None
    } else if exists|k: int| 0 <= k < items.len() && (#[trigger] spec_entry_news(items[k])) is None {
        None
    } else {
        Some(Seq::new(items.len(), |k: int| spec_entry_news(items[k])->Some_0))
    }
}

/// The news reads every news panel of the page, in order: where it is read,
/// there is one news item per panel and item `k` is what panel `k` gives; it
/// fails only where the panels' selector is refused or a panel gives no item.
pub proof fn lemma_news_reads_every_panel(document: Seq<char>)
    ensures
        ({
            let items = document_inner_html(document, news_panels());
            &&& spec_news(document) matches Some(v) ==> v.len() == items.len() && forall|k: int|
                0 <= k < items.len() ==> spec_entry_news(items[k]) == Some(#[trigger] v[k])
            &&& spec_news(document) is None <==> (!selector_parses(news_panels())
                || exists|k: int|
                0 <= k < items.len() && (#[trigger] spec_entry_news(items[k])) is None)
        }),
{
}

/// The news of the home page (its HTML).
pub fn news(document: &str) -> (r: Option<Vec<News>>)
    ensures
        match spec_news(document@) {
            Some(v) => r matches Some(ns) && ns@.map_values(|n: News| n@) == v,
            None => r is None,
        },
        r matches Some(ns) ==> {
            let items = document_inner_html(document@, news_panels());
            &&& ns@.len() == items.len()
            &&& forall|k: int|
                0 <= k < ns@.len() ==> spec_entry_news(items[k]) == Some((#[trigger] ns@[k])@)
        },
{
    let items = match select_inner_html(
        document,
        "body > div.mainDataContainer div.newsDataContainer div.mainNewsPanel",
    ) {
        Some(v) => v,
        None => return None,
    };
    let ghost iv = document_inner_html(document@, news_panels());
    assert(texts(items@) == iv);
    let n = items.len();
    let mut news: Vec<News> = Vec::new();
    let mut k: usize = 0;
    while k < n
        invariant
            n == iv.len(),
            n == items@.len(),
            k <= n,
            texts(items@) == iv,
            iv == document_inner_html(document@, news_panels()),
            selector_parses(news_panels()),
            news@.len() == k,
            forall|j: int|
                #![trigger news@[j]]
                #![trigger spec_entry_news(iv[j])]
                0 <= j < k ==> spec_entry_news(iv[j]) == Some(news@[j]@),
        decreases n - k,
    {
        assert(texts(items@)[k as int] == items@[k as int]@);
        let item = match entry_news(items[k].as_str()) {
            Some(x) => x,
            None => {
                assert(spec_entry_news(iv[k as int]) is None);
                return None;
            },
        };
        news.push(item);
        k = k + 1;
    }
    assert(news@.map_values(|n: News| n@) =~= Seq::new(
        n as nat,
        |j: int| spec_entry_news(iv[j])->Some_0,
    ));
    assert(!exists|j: int| 0 <= j < n && (#[trigger] spec_entry_news(iv[j])) is None);
    Some(news)
}

} // verus!
