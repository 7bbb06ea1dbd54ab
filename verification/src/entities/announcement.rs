use vstd::prelude::*;
use vstd::string::*;

use crate::utils::text::push_char;

verus! {

/// One announcement from the school's home page: its date and its title.
#[derive(Debug, Clone)]
pub struct Annoucement {
    pub date: String,
    pub title: String,
}

/// What an announcement holds, as text.
pub struct AnnoucementView {
    pub date: Seq<char>,
    pub title: Seq<char>,
}

impl View for Annoucement {
    type V = AnnoucementView;

    open spec fn view(&self) -> AnnoucementView {
        AnnoucementView { date: self.date@, title: self.title@ }
    }
}

/// The one-line form of an announcement: its date, a space, its title.
pub open spec fn announcement_line(a: AnnoucementView) -> Seq<char> {
    a.date + seq![' '] + a.title
}

impl Annoucement {
    /// `"{date} {title}"`.
    pub fn format(&self) -> (r: String)
        ensures
            r@ == announcement_line(self@),
    {
        let mut r = String::new();
        r.append(self.date.as_str());
        push_char(&mut r, ' ');
        r.append(self.title.as_str());
        r
    }
}

} // verus!
