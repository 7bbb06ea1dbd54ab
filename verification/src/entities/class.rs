use vstd::prelude::*;
use vstd::string::*;

use crate::utils::text::{decimal, push_char, push_decimal};

verus! {

/// A class of the school, as its timetable list names it: the id of its
/// timetable page, its year and the rest of its name.
#[derive(Debug, Clone)]
pub struct Class {
    pub index: String,
    pub year: u8,
    pub name: String,
}

/// A teacher, as the timetable list names them.
#[derive(Debug, Clone)]
pub struct Teacher {
    pub index: String,
    pub initials: String,
    pub name: String,
}

/// What a class holds, with its text as chars.
pub struct ClassView {
    pub index: Seq<char>,
    pub year: u8,
    pub name: Seq<char>,
}

/// What a teacher holds, as text.
pub struct TeacherView {
    pub index: Seq<char>,
    pub initials: Seq<char>,
    pub name: Seq<char>,
}

impl View for Class {
    type V = ClassView;

    open spec fn view(&self) -> ClassView {
        ClassView { index: self.index@, year: self.year, name: self.name@ }
    }
}

impl View for Teacher {
    type V = TeacherView;

    open spec fn view(&self) -> TeacherView {
        TeacherView { index: self.index@, initials: self.initials@, name: self.name@ }
    }
}

/// The label of a class: its index, a dot and a space, then its year in decimal and its name.
pub open spec fn class_label(c: ClassView) -> Seq<char> {
    c.index + seq!['.', ' '] + decimal(c.year as nat) + c.name
}

impl Class {
    /// `"{index}. {year}{name}"`.
    pub fn format(&self) -> (r: String)
        ensures
            r@ == class_label(self@),
    {
        let mut r = String::new();
        r.append(self.index.as_str());
        push_char(&mut r, '.');
        push_char(&mut r, ' ');
        push_decimal(&mut r, self.year);
        r.append(self.name.as_str());
        assert(r@ =~= class_label(self@));
        r
    }
}

} // verus!
