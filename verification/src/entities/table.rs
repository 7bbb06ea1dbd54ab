use std::collections::HashMap;

use vstd::prelude::*;

verus! {

/// One subject taught in a lesson slot, with the teacher and the room where known.
#[derive(Debug, Clone)]
pub struct Subject {
    pub subject: String,
    pub teacher: Option<String>,
    pub classroom: Option<String>,
}

/// One lesson slot of a timetable: the subjects taught in it (more than one
/// when the class is split into groups) and the number the slot carries.
#[derive(Debug, Clone)]
pub struct Column {
    pub subjects: Vec<Subject>,
    pub lesson_number: u8,
}

/// A timetable by weekday: the hours, and for each weekday (0 is Monday) its slots.
#[derive(Debug, Clone)]
pub struct PlanColumn {
    pub hours: Vec<String>,
    pub weekdays: HashMap<u8, Vec<Option<Column>>>,
}

/// A timetable by row: the hours, and for each hour the slots of the week.
#[derive(Debug, Clone)]
pub struct PlanRow {
    pub hours: Vec<String>,
    pub weekdays: Vec<Vec<Option<Column>>>,
}

/// What a subject holds, as text.
pub struct SubjectView {
    pub subject: Seq<char>,
    pub teacher: Option<Seq<char>>,
    pub classroom: Option<Seq<char>>,
}

/// What a lesson slot holds.
pub struct ColumnView {
    pub subjects: Seq<SubjectView>,
    pub lesson_number: u8,
}

/// What a timetable by weekday holds.
pub struct PlanColumnView {
    pub hours: Seq<Seq<char>>,
    pub weekdays: Map<u8, Seq<Option<ColumnView>>>,
}

/// What a timetable by row holds.
pub struct PlanRowView {
    pub hours: Seq<Seq<char>>,
    pub weekdays: Seq<Seq<Option<ColumnView>>>,
}

/// The text of an optional string.
pub open spec fn opt_text(o: Option<String>) -> Option<Seq<char>> {
    match o {
        Some(s) => Some(s@),
        None => None,
    }
}

/// The texts of a sequence of strings.
pub open spec fn texts(v: Seq<String>) -> Seq<Seq<char>> {
    v.map_values(|s: String| s@)
}

/// The view of an optional lesson slot.
pub open spec fn opt_column(o: Option<Column>) -> Option<ColumnView> {
    match o {
        Some(c) => Some(c@),
        None => None,
    }
}

/// The views of a sequence of optional lesson slots.
pub open spec fn slots(v: Seq<Option<Column>>) -> Seq<Option<ColumnView>> {
    v.map_values(|o: Option<Column>| opt_column(o))
}

impl View for Subject {
    type V = SubjectView;

    open spec fn view(&self) -> SubjectView {
        SubjectView {
            subject: self.subject@,
            teacher: opt_text(self.teacher),
            classroom: opt_text(self.classroom),
        }
    }
}

impl View for Column {
    type V = ColumnView;

    open spec fn view(&self) -> ColumnView {
        ColumnView {
            subjects: self.subjects@.map_values(|s: Subject| s@),
            lesson_number: self.lesson_number,
        }
    }
}

impl View for PlanColumn {
    type V = PlanColumnView;

    open spec fn view(&self) -> PlanColumnView {
        PlanColumnView {
            hours: texts(self.hours@),
            weekdays: self.weekdays@.map_values(|v: Vec<Option<Column>>| slots(v@)),
        }
    }
}

impl View for PlanRow {
    type V = PlanRowView;

    open spec fn view(&self) -> PlanRowView {
        PlanRowView {
            hours: texts(self.hours@),
            weekdays: self.weekdays@.map_values(|v: Vec<Option<Column>>| slots(v@)),
        }
    }
}

/// A copy of a list of strings.
pub fn copy_texts(v: &Vec<String>) -> (r: Vec<String>)
    ensures
        texts(r@) == texts(v@),
{
    let mut r: Vec<String> = Vec::new();
    let mut i: usize = 0;
    while i < v.len()
        invariant
            i <= v@.len(),
            r@.len() == i,
            forall|k: int| 0 <= k < i ==> #[trigger] r@[k]@ == v@[k]@,
        decreases v@.len() - i,
    {
        r.push(v[i].clone());
        i = i + 1;
    }
    assert(texts(r@) =~= texts(v@));
    r
}

/// A copy of an optional string.
pub fn copy_opt_text(o: &Option<String>) -> (r: Option<String>)
    ensures
        opt_text(r) == opt_text(*o),
{
    match o {
        Some(s) => Some(s.clone()),
        None => None,
    }
}

/// A copy of a subject.
pub fn copy_subject(s: &Subject) -> (r: Subject)
    ensures
        r@ == s@,
{
    Subject {
        subject: s.subject.clone(),
        teacher: copy_opt_text(&s.teacher),
        classroom: copy_opt_text(&s.classroom),
    }
}

/// A copy of a lesson slot.
pub fn copy_column(c: &Column) -> (r: Column)
    ensures
        r@ == c@,
{
    let mut subjects: Vec<Subject> = Vec::new();
    let mut i: usize = 0;
    while i < c.subjects.len()
        invariant
            i <= c.subjects@.len(),
            subjects@.len() == i,
            forall|k: int| 0 <= k < i ==> #[trigger] subjects@[k]@ == c.subjects@[k]@,
        decreases c.subjects@.len() - i,
    {
        let s = copy_subject(&c.subjects[i]);
        subjects.push(s);
        i = i + 1;
    }
    let r = Column { subjects, lesson_number: c.lesson_number };
    assert(r@.subjects =~= c@.subjects);
    r
}

} // verus!
