//! The request handlers' logic; here, the announcements of the school's home page.
pub mod plan_controller;

use vstd::prelude::*;
use vstd::string::*;

use crate::controllers::plan_controller::plans::read_count;
use crate::entities::announcement::{Annoucement, AnnoucementView, announcement_line};
use crate::entities::table::texts;
use crate::utils::scraping::{
    document_inner_html, fragment_inner_html, select_fragment_inner_html, select_inner_html,
    selector_parses,
};
use crate::utils::text::push_char;

verus! {

/// The query of the announcements request: whether to answer in plain text.
#[derive(Debug)]
pub struct QueryStr {
    pub format: Option<bool>,
}

impl QueryStr {
    /// Whether the answer is plain text: `format`, false where it is not given.
    pub fn as_text(&self) -> (r: bool)
        ensures
            r == (self.format == Some(true)),
    {
        match self.format {
            Some(b) => b,
            None => false,
        }
    }
}

/// The announcement that an entry's parts give: the first `span` is its
/// date, the first link its title. `None` where either is missing.
pub open spec fn spec_announcement_from_parts(dates: Seq<Seq<char>>, titles: Seq<Seq<char>>) -> Option<AnnoucementView> {
    if dates.len() == 0 || titles.len() == 0 {
        None
    } else {
        Some(AnnoucementView { date: dates[0], title: titles[0] })
    }
}

/// The view of an optional announcement.
pub open spec fn opt_announcement(o: Option<Annoucement>) -> Option<AnnoucementView> {
    match o {
        Some(a) => Some(a@),
        None => None,
    }
}

/// The announcement that an entry's parts give: the inner HTML of each of its
/// `span` elements and of each of its links.
pub fn announcement_from_parts(dates: &Vec<String>, titles: &Vec<String>) -> (r: Option<Annoucement>)
    ensures
        opt_announcement(r) == spec_announcement_from_parts(texts(dates@), texts(titles@)),
        r is Some <==> (dates@.len() > 0 && titles@.len() > 0),
        r matches Some(a) ==> a@.date == dates@[0]@ && a@.title == titles@[0]@,
{
    if dates.len() == 0 || titles.len() == 0 {
        return None;
    }
    assert(texts(dates@)[0] == dates@[0]@);
    assert(texts(titles@)[0] == titles@[0]@);
    Some(Annoucement { date: dates[0].clone(), title: titles[0].clone() })
}

/// The announcement of one entry (its HTML). `None` where scraper refuses
/// `span` or `a`, or a part is missing.
pub open spec fn spec_entry_announcement(item: Seq<char>) -> Option<AnnoucementView> {
    if !(selector_parses("span"@) && selector_parses("a"@)) {
        None
    } else {
        spec_announcement_from_parts(fragment_inner_html(item, "span"@), fragment_inner_html(item, "a"@))
    }
}

/// The announcement of one entry (its HTML).
pub fn entry_announcement(item: &str) -> (r: Option<Annoucement>)
    ensures
        opt_announcement(r) == spec_entry_announcement(item@),
{
    let dates = match select_fragment_inner_html(item, "span") {
        Some(v) => v,
        None => return None,
    };
    let titles = match select_fragment_inner_html(item, "a") {
        Some(v) => v,
        None => return None,
    };
    announcement_from_parts(&dates, &titles)
}

/// An announcement's title is the first link of its entry and its date the
/// first `span`, however many links or spans the entry has.
pub proof fn lemma_announcement_takes_first_link(item: Seq<char>)
    ensures
        spec_entry_announcement(item) matches Some(a) ==> {
            let dates = fragment_inner_html(item, "span"@);
            let links = fragment_inner_html(item, "a"@);
            &&& links.len() > 0 && a.title == links[0]
            &&& dates.len() > 0 && a.date == dates[0]
        },
{
}

/// The selector of the announcement entries.
pub open spec fn announcement_entries() -> Seq<char> {
    "#content_4 > ul > li"@
}

/// The announcements of the home page (its HTML): the first 100 entries, each
/// read by `spec_entry_announcement`. `None` where scraper refuses the entries'
/// selector or one of those entries gives no announcement.
pub open spec fn spec_announcements(document: Seq<char>) -> Option<Seq<AnnoucementView>> {
    let items = document_inner_html(document, announcement_entries());
    let n = read_count(items.len(), 100);
    if !selector_parses(announcement_entries()) {
        None
    } else if exists|k: int| 0 <= k < n && (#[trigger] spec_entry_announcement(items[k])) is None {
        None
    } else {
        Some(Seq::new(n, |k: int| spec_entry_announcement(items[k])->Some_0))
    }
}

/// The announcements of the home page (its HTML).
pub fn announcements(document: &str) -> (r: Option<Vec<Annoucement>>)
    ensures
        match spec_announcements(document@) {
            Some(v) => r matches Some(a) && a@.map_values(|x: Annoucement| x@) == v,
            None => r is None,
        },
        r matches Some(a) ==> {
            let items = document_inner_html(document@, announcement_entries());
            &&& a@.len() == if items.len() < 100 {
                items.len()
            } else {
                100
            }
            &&& forall|k: int|
                0 <= k < a@.len() ==> spec_entry_announcement(items[k]) == Some(
                    (#[trigger] a@[k])@,
                )
        },
{
    let items = match select_inner_html(document, "#content_4 > ul > li") {
        Some(v) => v,
        None => return None,
    };
    let ghost iv = document_inner_html(document@, announcement_entries());
    assert(texts(items@) == iv);
    let n: usize = if items.len() < 100 {
        items.len()
    } else {
        100
    };
    let mut out: Vec<Annoucement> = Vec::new();
    let mut k: usize = 0;
    while k < n
        invariant
            n == read_count(iv.len(), 100),
            n <= items@.len(),
            k <= n,
            texts(items@) == iv,
            iv == document_inner_html(document@, announcement_entries()),
            selector_parses(announcement_entries()),
            out@.len() == k,
            forall|j: int|
                #![trigger out@[j]]
                #![trigger spec_entry_announcement(iv[j])]
                0 <= j < k ==> spec_entry_announcement(iv[j]) == Some(out@[j]@),
        decreases n - k,
    {
        assert(texts(items@)[k as int] == items@[k as int]@);
        let a = match entry_announcement(items[k].as_str()) {
            Some(a) => a,
            None => {
                assert(spec_entry_announcement(iv[k as int]) is None);
                return None;
            },
        };
        out.push(a);
        k = k + 1;
    }
    assert(out@.map_values(|x: Annoucement| x@) =~= Seq::new(
        n as nat,
        |j: int| spec_entry_announcement(iv[j])->Some_0,
    ));
    assert(!exists|j: int| 0 <= j < n && (#[trigger] spec_entry_announcement(iv[j])) is None);
    Some(out)
}

/// The announcements read every entry of the home page's list up to the 100th,
/// in order: where they are read, there are as many as the list has entries, or
/// 100 where there are more, and announcement `k` is what entry `k` gives; they
/// fail only where the entries' selector is refused or one of those entries
/// gives no announcement.
pub proof fn lemma_announcements_read_up_to_100_entries(document: Seq<char>)
    ensures
        ({
            let items = document_inner_html(document, announcement_entries());
            let n: int = if items.len() < 100 {
                items.len() as int
            } else {
                100
            };
            &&& spec_announcements(document) matches Some(v) ==> v.len() == n && forall|k: int|
                0 <= k < n ==> spec_entry_announcement(items[k]) == Some(#[trigger] v[k])
            &&& spec_announcements(document) is None <==> (!selector_parses(
                announcement_entries(),
            ) || exists|k: int|
                0 <= k < n && (#[trigger] spec_entry_announcement(items[k])) is None)
        }),
{
}

/// The plain-text listing of announcements: each one's line followed by a newline.
pub open spec fn announcements_listing(list: Seq<AnnoucementView>) -> Seq<char>
    decreases list.len(),
{
    if list.len() == 0 {
        Seq::empty()
    } else {
        announcements_listing(list.drop_last()) + announcement_line(list.last()) + seq!['\n']
    }
}

/// The plain-text listing of announcements.
pub fn announcements_text(list: &Vec<Annoucement>) -> (r: String)
    ensures
        r@ == announcements_listing(list@.map_values(|x: Annoucement| x@)),
{
    let ghost lv = list@.map_values(|x: Annoucement| x@);
    let mut out = String::new();
    let mut k: usize = 0;
    while k < list.len()
        invariant
            k <= list@.len(),
            lv == list@.map_values(|x: Annoucement| x@),
            out@ == announcements_listing(lv.take(k as int)),
        decreases list@.len() - k,
    {
        let line = list[k].format();
        out.append(line.as_str());
        push_char(&mut out, '\n');
        assert(lv.take(k + 1).drop_last() =~= lv.take(k as int));
        assert(lv.take(k + 1).last() == list@[k as int]@);
        k = k + 1;
    }
    assert(lv.take(k as int) =~= lv);
    out
}

/// What the announcements request is answered with: the plain-text listing,
/// or the announcements themselves.
#[derive(Debug)]
pub enum HomeAnswer {
    Text(String),
    Announcements(Vec<Annoucement>),
}

/// The answer to the announcements request, from the home page (its HTML): the
/// plain-text listing where the query asks for text, else the announcements;
/// `None` where the page gives no announcements (`spec_announcements`: one of
/// the first 100 entries lacks a `span` or a link).
/// `None` marks a page that cannot be read to the end (a missing part, not a
/// failed fetch): the service treats it as fatal and panics, so such a page
/// gets no answer.
pub fn home(document: &str, query: &QueryStr) -> (r: Option<HomeAnswer>)
    ensures
        match spec_announcements(document@) {
            None => r is None,
            Some(v) => r matches Some(answer) && if query.format == Some(true) {
                answer matches HomeAnswer::Text(t) && t@ == announcements_listing(v)
            } else {
                answer matches HomeAnswer::Announcements(list) && list@.map_values(
                    |x: Annoucement| x@,
                ) == v
            },
        },
{
    let list = match announcements(document) {
        Some(l) => l,
        None => return None,
    };
    if query.as_text() {
        Some(HomeAnswer::Text(announcements_text(&list)))
    } else {
        Some(HomeAnswer::Announcements(list))
    }
}

} // verus!
