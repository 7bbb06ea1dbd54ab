//! The list page of the timetables: finding the id of a class's or a
//! teacher's timetable page by its name.
use vstd::prelude::*;
use vstd::string::*;

use vstd::utf8::*;

use crate::controllers::plan_controller::plans::{after_bytes, link_index};
use crate::entities::table::{opt_text, texts};
use crate::utils::scraping::{
    nested_attribute, nested_inner_html, opt_texts2, select_nested_attribute,
    select_nested_inner_html, selector_parses, texts2,
};
use crate::utils::text::{
    decimal, lemma_replace_all_absent, occurs, push_decimal, remove_char, replace, replace_all, string_of,
    text_eq, to_chars,
};

verus! {

/// Whose timetables a list names: classes or teachers.
#[derive(Debug, Clone, Copy, PartialEq, Eq, Structural)]
pub enum IdType {
    Class,
    Teacher,
}

/// The position of a kind's list among the lists of the page.
pub open spec fn list_position(t: IdType) -> u8 {
    match t {
        IdType::Class => 2,
        IdType::Teacher => 4,
    }
}

impl IdType {
    /// The position of this kind's list among the lists of the page.
    pub fn to_int(&self) -> (r: u8)
        ensures
            r == list_position(*self),
    {
        match self {
            Self::Class => 2,
            Self::Teacher => 4,
        }
    }
}

/// The selector of the entries of a kind's list: `ul:nth-child({n}) > li`.
pub open spec fn list_selector(t: IdType) -> Seq<char> {
    "ul:nth-child("@ + decimal(list_position(t) as nat) + ") > li"@
}

/// The selector of the entries of a kind's list.
pub fn list_selector_text(t: IdType) -> (r: String)
    ensures
        r@ == list_selector(t),
{
    let mut r = String::new();
    r.append("ul:nth-child(");
    push_decimal(&mut r, t.to_int());
    r.append(") > li");
    r
}

/// The name under which an entry's link is looked up: a class by the whole
/// text of its link; a teacher by the last three chars of it (all of it where
/// it is shorter) with the `)` removed, which leaves the initials of
/// `Name Surname (XY)`.
pub open spec fn link_key(text: Seq<char>, t: IdType) -> Seq<char> {
    match t {
        IdType::Class => text,
        IdType::Teacher => remove_char(
            if text.len() >= 3 {
                text.skip(text.len() - 3)
            } else {
                text
            },
            ')',
        ),
    }
}

/// The id that a link's target names: the target without `plany/` and `.html`.
pub open spec fn link_id(href: Seq<char>) -> Seq<char> {
    replace_all(replace_all(href, "plany/"@, Seq::empty()), ".html"@, Seq::empty())
}

/// The name under which an entry's link is looked up.
pub fn link_key_text(text: &str, t: IdType) -> (r: String)
    ensures
        r@ == link_key(text@, t),
{
    match t {
        IdType::Class => text.to_owned(),
        IdType::Teacher => {
            let cs = to_chars(text);
            let n = cs.len();
            let lo = if n >= 3 {
                n - 3
            } else {
                0
            };
            let tail = string_of(&cs, lo, n);
            assert(tail@ =~= (if text@.len() >= 3 {
                text@.skip(text@.len() - 3)
            } else {
                text@
            }));
            crate::utils::text::without_char(tail.as_str(), ')')
        },
    }
}

/// The id that a link's target names.
pub fn link_id_text(href: &str) -> (r: String)
    ensures
        r@ == link_id(href@),
{
    proof {
        reveal_strlit("plany/");
        reveal_strlit(".html");
        reveal_strlit("");
        assert(""@ =~= Seq::<char>::empty());
    }
    let a = replace(href, "plany/", "");
    let b = replace(a.as_str(), ".html", "");
    b
}

/// The id found under `name` among the entries (name, id), read in order with
/// a later entry of a name taking the place of an earlier one; `"None"` where
/// no entry has the name.
pub open spec fn lookup_id(entries: Seq<(Seq<char>, Seq<char>)>, name: Seq<char>) -> Seq<char>
    decreases entries.len(),
{
    if entries.len() == 0 {
        "None"@
    } else if entries.last().0 == name {
        entries.last().1
    } else {
        lookup_id(entries.drop_last(), name)
    }
}

/// The text pairs of a list of (name, id) entries.
pub open spec fn entry_texts(v: Seq<(String, String)>) -> Seq<(Seq<char>, Seq<char>)> {
    v.map_values(|e: (String, String)| (e.0@, e.1@))
}

/// The id found under `name` among the entries.
pub fn find_id(entries: &Vec<(String, String)>, name: &str) -> (r: String)
    ensures
        r@ == lookup_id(entry_texts(entries@), name@),
{
    let ghost ev = entry_texts(entries@);
    let mut k: usize = entries.len();
    assert(ev.take(k as int) =~= ev);
    while k > 0
        invariant
            k <= entries@.len(),
            ev == entry_texts(entries@),
            lookup_id(ev, name@) == lookup_id(ev.take(k as int), name@),
        decreases k,
    {
        assert(ev.take(k as int).drop_last() =~= ev.take(k - 1));
        assert(ev.take(k as int).last() == ev[k - 1]);
        if text_eq(entries[k - 1].0.as_str(), name) {
            return entries[k - 1].1.clone();
        }
        k = k - 1;
    }
    "None".to_owned()
}

/// The entries (name, id) of a kind's list on the list page: for each of its
/// entries, the first link's name and the id of its target. `None` where scraper
/// refuses a selector or an entry lacks a link or the link a target.
pub open spec fn list_entries(document: Seq<char>, t: IdType) -> Option<
    Seq<(Seq<char>, Seq<char>)>,
> {
    let texts_of = nested_inner_html(document, list_selector(t), "a"@);
    let hrefs = nested_attribute(document, list_selector(t), "a"@, "href"@);
    if !(selector_parses(list_selector(t)) && selector_parses("a"@)) {
        None
    } else if exists|k: int|
        0 <= k < texts_of.len() && ((#[trigger] texts_of[k]).len() == 0 || hrefs[k][0] is None) {
        None
    } else {
        Some(
            Seq::new(
                texts_of.len(),
                |k: int| (link_key(texts_of[k][0], t), link_id(hrefs[k][0]->Some_0)),
            ),
        )
    }
}

/// The id of the timetable page of the class or teacher `name`, as the list
/// page (its HTML) gives it: `"None"` where the list has no such name; `None`
/// where the list cannot be read (see `list_entries`: an entry without a link,
/// or a link without a target).
/// `None` marks a page that cannot be read to the end (a missing part, not a
/// failed fetch): the service treats it as fatal and panics, so such a page
/// gets no answer.
pub fn get_id(document: &str, name: &str, t: IdType) -> (r: Option<String>)
    ensures
        match list_entries(document@, t) {
            Some(entries) => r matches Some(id) && id@ == lookup_id(entries, name@),
            None => r is None,
        },
{
    let sel = list_selector_text(t);
    let names = match select_nested_inner_html(document, sel.as_str(), "a") {
        Some(v) => v,
        None => return None,
    };
    let hrefs = match select_nested_attribute(document, sel.as_str(), "a", "href") {
        Some(v) => v,
        None => return None,
    };
    let ghost tn = nested_inner_html(document@, list_selector(t), "a"@);
    let ghost th = nested_attribute(document@, list_selector(t), "a"@, "href"@);
    assert(texts2(names@) == tn);
    assert(opt_texts2(hrefs@) == th);
    let mut entries: Vec<(String, String)> = Vec::new();
    let mut k: usize = 0;
    while k < names.len()
        invariant
            k <= names@.len(),
            sel@ == list_selector(t),
            selector_parses(list_selector(t)) && selector_parses("a"@),
            tn == nested_inner_html(document@, list_selector(t), "a"@),
            th == nested_attribute(document@, list_selector(t), "a"@, "href"@),
            texts2(names@) == tn,
            opt_texts2(hrefs@) == th,
            hrefs@.len() == names@.len(),
            forall|j: int| 0 <= j < names@.len() ==> (#[trigger] hrefs@[j])@.len() == names@[j]@.len(),
            forall|j: int| 0 <= j < k ==> tn[j].len() > 0 && th[j][0] is Some,
            entries@.len() == k,
            forall|j: int|
                0 <= j < k ==> entry_texts(entries@)[j] == (
                    #[trigger] link_key(tn[j][0], t),
                    link_id(th[j][0]->Some_0),
                ),
        decreases names@.len() - k,
    {
        assert(texts2(names@)[k as int] == texts(names@[k as int]@));
        assert(opt_texts2(hrefs@)[k as int] == crate::utils::scraping::opt_texts(hrefs@[k as int]@));
        if names[k].len() == 0 {
            assert(tn[k as int].len() == 0);
            return None;
        }
        let href = match &hrefs[k][0] {
            Some(h) => h,
            None => {
                assert(th[k as int][0] is None);
                return None;
            },
        };
        assert(texts(names@[k as int]@)[0] == names@[k as int]@[0]@);
        assert(crate::utils::scraping::opt_texts(hrefs@[k as int]@)[0] == opt_text(hrefs@[k as int]@[0]));
        let key = link_key_text(names[k][0].as_str(), t);
        let id = link_id_text(href.as_str());
        let ghost before = entry_texts(entries@);
        entries.push((key, id));
        assert(entry_texts(entries@) =~= before.push((key@, id@)));
        k = k + 1;
    }
    let ghost want = Seq::new(
        tn.len(),
        |j: int| (link_key(tn[j][0], t), link_id(th[j][0]->Some_0)),
    );
    assert(entry_texts(entries@) =~= want);
    assert(list_entries(document@, t) == Some(want));
    Some(find_id(&entries, name))
}

/// The UTF-8 encoding of two texts one after the other is their encodings one
/// after the other.
pub proof fn lemma_encode_utf8_concat(a: Seq<char>, b: Seq<char>)
    ensures
        encode_utf8(a + b) == encode_utf8(a) + encode_utf8(b),
    decreases a.len(),
{
    if a.len() == 0 {
        assert(a + b =~= b);
        assert(encode_utf8(a) + encode_utf8(b) =~= encode_utf8(b));
    } else {
        assert((a + b).drop_first() =~= a.drop_first() + b);
        assert((a + b)[0] == a[0]);
        lemma_encode_utf8_concat(a.drop_first(), b);
        assert(encode_utf8(a + b) =~= encode_utf8(a) + encode_utf8(b));
    }
}

/// For a list link whose target is `plany/{id}.html`, with an id in which
/// `plany/` does not occur, the id that the class and teacher lists give
/// (`link_index`) is the id under which the timetable is looked up (`link_id`).
pub proof fn lemma_list_index_is_lookup_id(id: Seq<char>)
    requires
        forall|i: int| !#[trigger] occurs(id, "plany/"@, i),
    ensures
        link_index("plany/"@ + id) == Some(link_id("plany/"@ + id)),
{
    broadcast use vstd::utf8::encode_utf8_valid_utf8, vstd::utf8::encode_utf8_decode_utf8;

    reveal_strlit("plany/");
    let pre = "plany/"@;
    let href = pre + id;
    assert(is_ascii_chars(pre));
    is_ascii_chars_encode_utf8(pre);
    lemma_encode_utf8_concat(pre, id);
    let bytes = encode_utf8(href);
    assert(encode_utf8(pre).len() == 6);
    assert(bytes.subrange(6, bytes.len() as int) =~= encode_utf8(id));
    assert(valid_utf8(bytes));
    if id.len() == 0 {
        is_char_boundary_start_end_of_seq(bytes);
    } else {
        encode_utf8_first_scalar(id);
        assert(bytes[6] == encode_utf8(id)[0]);
        assert(!is_continuation_byte(encode_utf8(id)[0]));
        is_char_boundary_iff_not_is_continuation_byte(bytes, 6);
    }
    assert(is_char_boundary(bytes, 6));
    assert(after_bytes(href, 6) == id);
    assert(href.take(6) =~= pre);
    assert(href.skip(6) =~= id);
    assert(replace_all(href, pre, Seq::empty()) == Seq::<char>::empty() + replace_all(id, pre, Seq::empty()));
    lemma_replace_all_absent(id, pre, Seq::empty());
    assert(Seq::<char>::empty() + id =~= id);
}

} // verus!
