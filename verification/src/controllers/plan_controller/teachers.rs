//! The list of teachers on the timetable list page.
use vstd::prelude::*;
use vstd::string::*;

use crate::controllers::plan_controller::plans::{link_index, link_index_text, read_count};
use crate::entities::class::{Teacher, TeacherView};
use crate::entities::table::{opt_text, texts};
use crate::utils::list::{link_key, list_selector, list_selector_text, IdType};
use crate::utils::scraping::{
    document_inner_html, fragment_attribute, fragment_inner_html, opt_texts,
    select_fragment_attribute, select_fragment_inner_html, select_inner_html, selector_parses,
};
use crate::utils::text::{lemma_remove_char_absent, string_of, to_chars, trim, trim_spec};

verus! {

/// A teacher from their list link, whose text reads `Name Surname (XY)`: the id
/// from the link's target, the initials from the second- and third-last chars
/// of the text, and the name from the text before its last five chars, trimmed.
/// `None` where the target cannot be sliced or the text has fewer than five chars.
pub open spec fn spec_teacher_from_link(href: Seq<char>, text: Seq<char>) -> Option<TeacherView> {
    match link_index(href) {
        Some(index) => if text.len() >= 5 {
            Some(
                TeacherView {
                    index,
                    initials: text.subrange(text.len() - 3, text.len() - 1),
                    name: trim_spec(text.take(text.len() - 5)),
                },
            )
        } else {
            None
        },
        None => None,
    }
}

/// The view of an optional teacher.
pub open spec fn opt_teacher(o: Option<Teacher>) -> Option<TeacherView> {
    match o {
        Some(t) => Some(t@),
        None => None,
    }
}

/// A teacher from the target and the text of their list link.
pub fn teacher_from_link(href: &str, text: &str) -> (r: Option<Teacher>)
    ensures
        opt_teacher(r) == spec_teacher_from_link(href@, text@),
{
    let index = match link_index_text(href) {
        Some(i) => i,
        None => return None,
    };
    let chars = to_chars(text);
    let n = chars.len();
    if n < 5 {
        return None;
    }
    let name = string_of(&chars, 0, n - 5);
    let initials = string_of(&chars, n - 3, n - 1);
    let trimmed = trim(name.as_str());
    assert(chars@.subrange(0, n - 5) =~= text@.take(n - 5));
    Some(Teacher { index, initials, name: trimmed })
}

/// The teacher of one list entry (its HTML): from the first link in it. `None`
/// where scraper refuses the selector `a`, the entry has no link, the link no
/// target, or the link gives no teacher.
pub open spec fn spec_entry_teacher(item: Seq<char>) -> Option<TeacherView> {
    let t = fragment_inner_html(item, "a"@);
    let h = fragment_attribute(item, "a"@, "href"@);
    if !selector_parses("a"@) || t.len() == 0 || h[0] is None {
        None
    } else {
        spec_teacher_from_link(h[0]->Some_0, t[0])
    }
}

/// The teacher of one list entry (its HTML).
pub fn entry_teacher(item: &str) -> (r: Option<Teacher>)
    ensures
        opt_teacher(r) == spec_entry_teacher(item@),
{
    let names = match select_fragment_inner_html(item, "a") {
        Some(v) => v,
        None => return None,
    };
    let hrefs = match select_fragment_attribute(item, "a", "href") {
        Some(v) => v,
        None => return None,
    };
    assert(texts(names@) == fragment_inner_html(item@, "a"@));
    assert(opt_texts(hrefs@) == fragment_attribute(item@, "a"@, "href"@));
    if names.len() == 0 {
        return None;
    }
    assert(opt_texts(hrefs@)[0] == opt_text(hrefs@[0]));
    assert(texts(names@)[0] == names@[0]@);
    match &hrefs[0] {
        Some(h) => teacher_from_link(h.as_str(), names[0].as_str()),
        None => None,
    }
}

/// The teachers of the timetable list page (its HTML): the first 98 entries of
/// the teacher list (`list_selector(IdType::Teacher)`), each read by
/// `spec_entry_teacher`. `None` where scraper refuses the list's selector or
/// one of those entries gives no teacher.
pub open spec fn spec_teachers(document: Seq<char>) -> Option<Seq<TeacherView>> {
    let items = document_inner_html(document, list_selector(IdType::Teacher));
    let n = read_count(items.len(), 98);
    if !selector_parses(list_selector(IdType::Teacher)) {
        None
    } else if exists|k: int| 0 <= k < n && (#[trigger] spec_entry_teacher(items[k])) is None {
        None
    } else {
        Some(Seq::new(n, |k: int| spec_entry_teacher(items[k])->Some_0))
    }
}

/// The teachers of the timetable list page (its HTML).
pub fn teachers(document: &str) -> (r: Option<Vec<Teacher>>)
    ensures
        match spec_teachers(document@) {
            Some(v) => r matches Some(ts) && ts@.map_values(|t: Teacher| t@) == v,
            None => r is None,
        },
        r matches Some(ts) ==> {
            let items = document_inner_html(document@, list_selector(IdType::Teacher));
            &&& ts@.len() == if items.len() < 98 {
                items.len()
            } else {
                98
            }
            &&& forall|k: int|
                0 <= k < ts@.len() ==> spec_entry_teacher(items[k]) == Some(
                    (#[trigger] ts@[k])@,
                )
        },
{
    let sel = list_selector_text(IdType::Teacher);
    let items = match select_inner_html(document, sel.as_str()) {
        Some(v) => v,
        None => return None,
    };
    let ghost iv = document_inner_html(document@, list_selector(IdType::Teacher));
    assert(texts(items@) == iv);
    let n: usize = if items.len() < 98 {
        items.len()
    } else {
        98
    };
    let mut teachers: Vec<Teacher> = Vec::new();
    let mut k: usize = 0;
    while k < n
        invariant
            n == read_count(iv.len(), 98),
            n <= items@.len(),
            k <= n,
            texts(items@) == iv,
            iv == document_inner_html(document@, list_selector(IdType::Teacher)),
            selector_parses(list_selector(IdType::Teacher)),
            teachers@.len() == k,
            forall|j: int|
                #![trigger teachers@[j]]
                #![trigger spec_entry_teacher(iv[j])]
                0 <= j < k ==> spec_entry_teacher(iv[j]) == Some(teachers@[j]@),
        decreases n - k,
    {
        assert(texts(items@)[k as int] == items@[k as int]@);
        let t = match entry_teacher(items[k].as_str()) {
            Some(t) => t,
            None => {
                assert(spec_entry_teacher(iv[k as int]) is None);
                return None;
            },
        };
        teachers.push(t);
        k = k + 1;
    }
    assert(teachers@.map_values(|t: Teacher| t@) =~= Seq::new(
        n as nat,
        |j: int| spec_entry_teacher(iv[j])->Some_0,
    ));
    assert(!exists|j: int| 0 <= j < n && (#[trigger] spec_entry_teacher(iv[j])) is None);
    Some(teachers)
}

/// A link whose text reads `Name (XY)` gives the teacher named `Name` (trimmed)
/// with initials `XY` and the id of the link's target.
pub proof fn lemma_teacher_link_text_gives_name_and_initials(
    href: Seq<char>,
    name: Seq<char>,
    initials: Seq<char>,
)
    requires
        link_index(href) is Some,
        initials.len() == 2,
    ensures
        spec_teacher_from_link(href, name + seq![' ', '('] + initials + seq![')']) == Some(
            TeacherView { index: link_index(href)->Some_0, initials, name: trim_spec(name) },
        ),
{
    let text = name + seq![' ', '('] + initials + seq![')'];
    assert(text.subrange(text.len() - 3, text.len() - 1) =~= initials);
    assert(text.take(text.len() - 5) =~= name);
}

/// A teacher list entry is read from its first link, however many it has.
pub proof fn lemma_entry_teacher_reads_first_link(item: Seq<char>)
    ensures
        spec_entry_teacher(item) matches Some(v) ==> {
            let texts = fragment_inner_html(item, "a"@);
            let targets = fragment_attribute(item, "a"@, "href"@);
            &&& texts.len() > 0 && targets[0] is Some
            &&& spec_teacher_from_link(targets[0]->Some_0, texts[0]) == Some(v)
        },
{
}

/// The teacher list reads every entry of the page's teacher list up to the
/// 98th, in order: where it is read, it has as many teachers as the list has
/// entries, or 98 where there are more, and teacher `k` is what entry `k` gives;
/// it fails only where the list's selector is refused or one of those entries
/// gives no teacher.
pub proof fn lemma_teacher_list_reads_up_to_98_entries(document: Seq<char>)
    ensures
        ({
            let items = document_inner_html(document, list_selector(IdType::Teacher));
            let n: int = if items.len() < 98 {
                items.len() as int
            } else {
                98
            };
            &&& spec_teachers(document) matches Some(v) ==> v.len() == n && forall|k: int|
                0 <= k < n ==> spec_entry_teacher(items[k]) == Some(#[trigger] v[k])
            &&& spec_teachers(document) is None <==> (!selector_parses(
                list_selector(IdType::Teacher),
            ) || exists|k: int| 0 <= k < n && (#[trigger] spec_entry_teacher(items[k])) is None)
        }),
{
}

/// The initials that the teacher list shows for a teacher whose link reads
/// `Name Surname (XY)` are the name under which their timetable's id is looked
/// up (`link_key`).
pub proof fn lemma_initials_are_lookup_key(href: Seq<char>, text: Seq<char>)
    requires
        spec_teacher_from_link(href, text) is Some,
        text.last() == ')',
        !(spec_teacher_from_link(href, text)->Some_0).initials.contains(')'),
    ensures
        link_key(text, IdType::Teacher) == (spec_teacher_from_link(href, text)->Some_0).initials,
{
    let t = spec_teacher_from_link(href, text)->Some_0;
    let n = text.len();
    let tail = text.skip(n - 3);
    assert(tail.drop_last() =~= t.initials);
    assert(tail.last() == ')');
    lemma_remove_char_absent(t.initials, ')');
}

} // verus!
