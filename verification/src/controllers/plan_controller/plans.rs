//! The list of classes on the timetable list page.
use vstd::prelude::*;
use vstd::string::*;
use vstd::utf8::*;

use crate::entities::class::{Class, ClassView, class_label};
use crate::entities::table::{opt_text, texts};
use crate::utils::scraping::{
    document_inner_html, fragment_attribute, fragment_inner_html, opt_texts,
    select_fragment_attribute, select_fragment_inner_html, select_inner_html, selector_parses,
};
use crate::utils::text::{byte_suffix, decimal, digit_char, replace, replace_all};

verus! {

broadcast use vstd::utf8::encode_utf8_decode_utf8;

/// The text after the first `k` bytes of the UTF-8 encoding of `s` (what
/// `&s[k..]` gives where byte `k` starts a char).
pub open spec fn after_bytes(s: Seq<char>, k: int) -> Seq<char> {
    decode_utf8(encode_utf8(s).subrange(k, encode_utf8(s).len() as int))
}

/// The id of a timetable page from a list link's target `plany/{id}.html`:
/// the target after its sixth byte, without `.html`. `None` where byte 6 does
/// not start a char (or the target is shorter), where slicing panics.
pub open spec fn link_index(href: Seq<char>) -> Option<Seq<char>> {
    if is_char_boundary(encode_utf8(href), 6) {
        Some(replace_all(after_bytes(href, 6), ".html"@, Seq::empty()))
    } else {
        None
    }
}

/// A class from its list link: the id from the link's target, the year from the
/// first byte of the link's text, which must be an ASCII digit, and the name
/// from the rest of the text. `None` where the target cannot be sliced, the
/// text is empty or does not start with a digit.
pub open spec fn spec_class_from_link(href: Seq<char>, text: Seq<char>) -> Option<ClassView> {
    let tb = encode_utf8(text);
    match link_index(href) {
        Some(index) => if is_char_boundary(tb, 1) && tb.len() >= 1 && 48 <= tb[0] <= 57 {
            Some(ClassView { index, year: (tb[0] - 48) as u8, name: after_bytes(text, 1) })
        } else {
            None
        },
        None => None,
    }
}

/// The id of a timetable page from a list link's target.
pub fn link_index_text(href: &str) -> (r: Option<String>)
    ensures
        opt_text(r) == link_index(href@),
{
    proof {
        reveal_strlit(".html");
        reveal_strlit("");
        assert(""@ =~= Seq::<char>::empty());
    }
    match byte_suffix(href, 6) {
        Some(rest) => Some(replace(rest, ".html", "")),
        None => None,
    }
}

/// The view of an optional class.
pub open spec fn opt_class(o: Option<Class>) -> Option<ClassView> {
    match o {
        Some(c) => Some(c@),
        None => None,
    }
}

/// A class from the target and the text of its list link.
pub fn class_from_link(href: &str, text: &str) -> (r: Option<Class>)
    ensures
        opt_class(r) == spec_class_from_link(href@, text@),
{
    let index = match link_index_text(href) {
        Some(i) => i,
        None => return None,
    };
    let name = match byte_suffix(text, 1) {
        Some(n) => n,
        None => return None,
    };
    let bytes = text.as_bytes();
    if bytes.len() < 1 {
        return None;
    }
    let first = bytes[0];
    if first < 48 || first > 57 {
        return None;
    }
    Some(Class { index, year: first - 48, name: name.to_owned() })
}

/// The class of one list entry (its HTML): from the first link in it. `None`
/// where scraper refuses the selector `a`, the entry has no link, the link no
/// target, or the link gives no class.
pub open spec fn spec_entry_class(item: Seq<char>) -> Option<ClassView> {
    let t = fragment_inner_html(item, "a"@);
    let h = fragment_attribute(item, "a"@, "href"@);
    if !selector_parses("a"@) || t.len() == 0 || h[0] is None {
        None
    } else {
        spec_class_from_link(h[0]->Some_0, t[0])
    }
}

/// The class of one list entry (its HTML).
pub fn entry_class(item: &str) -> (r: Option<Class>)
    ensures
        opt_class(r) == spec_entry_class(item@),
{
    let names = match select_fragment_inner_html(item, "a") {
        Some(v) => v,
        None => return None,
    };
    let hrefs = match select_fragment_attribute(item, "a", "href") {
        Some(v) => v,
        None => return None,
    };
    assert(texts(names@) == fragment_inner_html(item@, "a"@));
    assert(opt_texts(hrefs@) == fragment_attribute(item@, "a"@, "href"@));
    if names.len() == 0 {
        return None;
    }
    assert(opt_texts(hrefs@)[0] == opt_text(hrefs@[0]));
    assert(texts(names@)[0] == names@[0]@);
    match &hrefs[0] {
        Some(h) => class_from_link(h.as_str(), names[0].as_str()),
        None => None,
    }
}

/// The selector of the class list's entries.
pub open spec fn class_entries() -> Seq<char> {
    "body > ul:nth-child(2) > li"@
}

/// The number of entries read of a list of `n`: at most `limit`.
pub open spec fn read_count(n: nat, limit: nat) -> nat {
    if n < limit {
        n
    } else {
        limit
    }
}

/// The classes of the timetable list page (its HTML): the first 29 entries of
/// the class list, each read by `spec_entry_class`. `None` where scraper
/// refuses the list's selector or one of those entries gives no class.
pub open spec fn spec_classes(document: Seq<char>) -> Option<Seq<ClassView>> {
    let items = document_inner_html(document, class_entries());
    let n = read_count(items.len(), 29);
    if !selector_parses(class_entries()) {
        None
    } else if exists|k: int| 0 <= k < n && (#[trigger] spec_entry_class(items[k])) is None {
        None
    } else {
        Some(Seq::new(n, |k: int| spec_entry_class(items[k])->Some_0))
    }
}

/// The classes of the timetable list page (its HTML), as `spec_classes` says:
/// `None` where one of the first 29 entries lacks a link or a target, its
/// target has no char starting at byte 6, or its text does not start with a
/// digit.
/// `None` marks a page that cannot be read to the end (a missing part, not a
/// failed fetch): the service treats it as fatal and panics, so such a page
/// gets no answer.
pub fn plans(document: &str) -> (r: Option<Vec<Class>>)
    ensures
        match spec_classes(document@) {
            Some(v) => r matches Some(cs) && cs@.map_values(|c: Class| c@) == v,
            None => r is None,
        },
        r matches Some(cs) ==> {
            let items = document_inner_html(document@, class_entries());
            &&& cs@.len() == if items.len() < 29 {
                items.len()
            } else {
                29
            }
            &&& forall|k: int|
                0 <= k < cs@.len() ==> spec_entry_class(items[k]) == Some((#[trigger] cs@[k])@)
        },
{
    let items = match select_inner_html(document, "body > ul:nth-child(2) > li") {
        Some(v) => v,
        None => return None,
    };
    let ghost iv = document_inner_html(document@, class_entries());
    assert(texts(items@) == iv);
    let n: usize = if items.len() < 29 {
        items.len()
    } else {
        29
    };
    let mut classes: Vec<Class> = Vec::new();
    let mut k: usize = 0;
    while k < n
        invariant
            n == read_count(iv.len(), 29),
            n <= items@.len(),
            k <= n,
            texts(items@) == iv,
            iv == document_inner_html(document@, class_entries()),
            selector_parses(class_entries()),
            classes@.len() == k,
            forall|j: int|
                #![trigger classes@[j]]
                #![trigger spec_entry_class(iv[j])]
                0 <= j < k ==> spec_entry_class(iv[j]) == Some(classes@[j]@),
        decreases n - k,
    {
        assert(texts(items@)[k as int] == items@[k as int]@);
        let c = match entry_class(items[k].as_str()) {
            Some(c) => c,
            None => {
                assert(spec_entry_class(iv[k as int]) is None);
                return None;
            },
        };
        classes.push(c);
        k = k + 1;
    }
    assert(classes@.map_values(|c: Class| c@) =~= Seq::new(
        n as nat,
        |j: int| spec_entry_class(iv[j])->Some_0,
    ));
    assert(!exists|j: int| 0 <= j < n && (#[trigger] spec_entry_class(iv[j])) is None);
    Some(classes)
}

/// A class list entry is read from its first link, however many it has.
pub proof fn lemma_entry_class_reads_first_link(item: Seq<char>)
    ensures
        spec_entry_class(item) matches Some(v) ==> {
            let texts = fragment_inner_html(item, "a"@);
            let targets = fragment_attribute(item, "a"@, "href"@);
            &&& texts.len() > 0 && targets[0] is Some
            &&& spec_class_from_link(targets[0]->Some_0, texts[0]) == Some(v)
        },
{
}

/// The class list reads every entry of the page's class list up to the 29th,
/// in order: where it is read, it has as many classes as the list has entries,
/// or 29 where there are more, and class `k` is what entry `k` gives; it fails
/// only where the list's selector is refused or one of those entries gives no
/// class.
pub proof fn lemma_class_list_reads_up_to_29_entries(document: Seq<char>)
    ensures
        ({
            let items = document_inner_html(document, class_entries());
            let n: int = if items.len() < 29 {
                items.len() as int
            } else {
                29
            };
            &&& spec_classes(document) matches Some(v) ==> v.len() == n && forall|k: int|
                0 <= k < n ==> spec_entry_class(items[k]) == Some(#[trigger] v[k])
            &&& spec_classes(document) is None <==> (!selector_parses(class_entries())
                || exists|k: int| 0 <= k < n && (#[trigger] spec_entry_class(items[k])) is None)
        }),
{
}

/// The label of a class read from a list link reproduces the link: it is the
/// class's id, a dot and a space, then the link's text.
pub proof fn lemma_class_label_reproduces_link_text(href: Seq<char>, text: Seq<char>)
    requires
        spec_class_from_link(href, text) is Some,
    ensures
        class_label(spec_class_from_link(href, text)->Some_0) == (spec_class_from_link(
            href,
            text,
        )->Some_0).index + seq!['.', ' '] + text,
{
    broadcast use vstd::utf8::encode_utf8_valid_utf8;

    let c = spec_class_from_link(href, text)->Some_0;
    let tb = encode_utf8(text);
    let b = tb[0];
    assert(valid_utf8(tb));
    assert(decode_utf8(tb) == text);
    assert(b <= 57);
    assert(is_leading_byte_width_1(b)) by (bit_vector)
        requires
            b <= 57,
    ;
    assert(leading_bits_width_1(b) == b as u32) by (bit_vector)
        requires
            b <= 57,
    ;
    assert(decode_first_scalar(tb) == b as u32);
    assert(pop_first_scalar(tb) == tb.subrange(1, tb.len() as int));
    assert(text == seq![(b as u32) as char] + after_bytes(text, 1));
    assert(c.year == b - 48);
    assert(decimal(c.year as nat) == seq![digit_char(c.year as nat)]);
    assert(digit_char(c.year as nat) == (b as u32) as char);
    assert(class_label(c) =~= c.index + seq!['.', ' '] + text);
}

} // verus!
