//! A timetable page: reading its table into lesson slots, laid out by weekday
//! or by row.
use vstd::prelude::*;
use vstd::string::*;

use std::collections::HashMap;

use crate::entities::table::{
    Column, ColumnView, PlanColumn, PlanColumnView, PlanRow, PlanRowView, Subject, SubjectView,
    copy_column, copy_texts, opt_column, slots, texts,
};
use crate::utils::scraping::{
    cell_inner_html, cell_outer_html, nested_inner_html, select_cell_inner_html,
    select_cell_outer_html, select_nested_inner_html, selector_parses, texts2, texts3,
};
use crate::utils::list::{get_id, list_entries, lookup_id, IdType};
use crate::utils::text::{
    is_numeric, lemma_split_char_nonempty, lemma_split_char_single_piece, remove_char, split, split_char, text_eq,
    unicode_numeric, without_char,
};

verus! {

/// Which way a timetable is laid out: one list of slots per hour, or one per weekday.
#[derive(Debug, Clone, Copy, PartialEq, Eq, Structural)]
pub enum Type {
    Row,
    Column,
}

impl Default for Type {
    fn default() -> (r: Self)
        ensures
            r == Type::Column,
    {
        Type::Column
    }
}

/// The query of a timetable request: the layout asked for, if any.
#[derive(Debug)]
pub struct Query {
    pub direction: Option<Type>,
}

impl Default for Query {
    fn default() -> (r: Self)
        ensures
            r.direction == Some(Type::Column),
    {
        Query { direction: Some(Type::Column) }
    }
}

/// The layout a query asks for; by weekday where it names none.
pub open spec fn chosen_direction(direction: Option<Type>) -> Type {
    match direction {
        Some(t) => t,
        None => Type::Column,
    }
}

impl Query {
    /// The layout this query asks for; by weekday where it names none.
    pub fn chosen(&self) -> (r: Type)
        ensures
            r == chosen_direction(self.direction),
    {
        match self.direction {
            Some(t) => t,
            None => Type::default(),
        }
    }
}

/// What the timetable reads of one lesson cell (`td.l`) of the table: its inner
/// HTML, the outer HTML of each `<br>` in it, and the inner HTML of each subject
/// (`span.p`), teacher (`.n`) and room (`span.s`) element in it, in page order.
#[derive(Debug)]
pub struct Cell {
    pub inner_html: String,
    pub breaks: Vec<String>,
    pub subjects: Vec<String>,
    pub teachers: Vec<String>,
    pub classrooms: Vec<String>,
}

/// What a lesson cell holds, as text.
pub struct CellView {
    pub inner_html: Seq<char>,
    pub breaks: Seq<Seq<char>>,
    pub subjects: Seq<Seq<char>>,
    pub teachers: Seq<Seq<char>>,
    pub classrooms: Seq<Seq<char>>,
}

impl View for Cell {
    type V = CellView;

    open spec fn view(&self) -> CellView {
        CellView {
            inner_html: self.inner_html@,
            breaks: self.breaks@.map_values(|s: String| s@),
            subjects: self.subjects@.map_values(|s: String| s@),
            teachers: self.teachers@.map_values(|s: String| s@),
            classrooms: self.classrooms@.map_values(|s: String| s@),
        }
    }
}

/// The `k`-th text of `v`, or the empty text past its end.
pub open spec fn nth_or_empty(v: Seq<Seq<char>>, k: int) -> Seq<char> {
    if 0 <= k < v.len() {
        v[k]
    } else {
        Seq::empty()
    }
}

/// A cell split into groups: one subject per subject element, with the teacher
/// and room of the same position (empty where there are fewer of those).
pub open spec fn spec_with_group(cell: CellView, j: u8) -> ColumnView {
    ColumnView {
        subjects: Seq::new(
            cell.subjects.len(),
            |k: int|
                SubjectView {
                    subject: cell.subjects[k],
                    teacher: Some(nth_or_empty(cell.teachers, k)),
                    classroom: Some(nth_or_empty(cell.classrooms, k)),
                },
        ),
        lesson_number: j,
    }
}

/// A cell of one subject. Where its inner HTML has no space, that HTML is the
/// subject, with no teacher and no room. Else the subject, teacher and room are
/// the first of their elements, and where one is missing, the second, first and
/// last space-separated piece of the inner HTML stand in for them.
pub open spec fn spec_without_group(cell: CellView, i: u8) -> ColumnView {
    let pieces = split_char(cell.inner_html, ' ');
    if pieces.len() == 1 {
        ColumnView {
            subjects: seq![SubjectView { subject: pieces[0], teacher: None, classroom: None }],
            lesson_number: i,
        }
    } else {
        ColumnView {
            subjects: seq![
                SubjectView {
                    subject: if cell.subjects.len() > 0 {
                        cell.subjects[0]
                    } else {
                        pieces[1]
                    },
                    teacher: Some(
                        if cell.teachers.len() > 0 {
                            cell.teachers[0]
                        } else {
                            pieces[0]
                        },
                    ),
                    classroom: Some(
                        if cell.classrooms.len() > 0 {
                            cell.classrooms[0]
                        } else {
                            pieces.last()
                        },
                    ),
                },
            ],
            lesson_number: i,
        }
    }
}

/// Whether a cell is split into groups: its first `<br>` reads `<br>`.
pub open spec fn is_grouped(cell: CellView) -> bool {
    cell.breaks.len() > 0 && cell.breaks[0] == "<br>"@
}

/// The lesson slot of the cell in row `i` and column `j`: none for an empty
/// cell (`&nbsp;`), else the grouped or the single-subject reading of it.
pub open spec fn spec_lesson_cell(i: u8, cell: CellView, j: u8) -> Option<ColumnView> {
    if cell.inner_html == "&nbsp;"@ {
        None
    } else if is_grouped(cell) {
        Some(spec_with_group(cell, j))
    } else {
        Some(spec_without_group(cell, i))
    }
}

/// The lesson slot of a cell split into groups, numbered `j`.
pub fn with_group(cell: &Cell, j: u8) -> (r: Option<Column>)
    ensures
        opt_column(r) == Some(spec_with_group(cell@, j)),
        r matches Some(c) && c@.lesson_number == j && c@.subjects.len() == cell@.subjects.len(),
        r matches Some(c) && forall|k: int|
            0 <= k < cell@.subjects.len() ==> (#[trigger] c@.subjects[k]).subject
                == cell@.subjects[k],
{
    let ghost spec = spec_with_group(cell@, j);
    let mut subjects: Vec<Subject> = Vec::new();
    let mut k: usize = 0;
    while k < cell.subjects.len()
        invariant
            k <= cell.subjects@.len(),
            spec == spec_with_group(cell@, j),
            subjects@.len() == k,
            forall|t: int| 0 <= t < k ==> #[trigger] subjects@[t]@ == spec.subjects[t],
        decreases cell.subjects@.len() - k,
    {
        let teacher = if k < cell.teachers.len() {
            cell.teachers[k].clone()
        } else {
            String::new()
        };
        let classroom = if k < cell.classrooms.len() {
            cell.classrooms[k].clone()
        } else {
            String::new()
        };
        let subject = Subject {
            subject: cell.subjects[k].clone(),
            teacher: Some(teacher),
            classroom: Some(classroom),
        };
        subjects.push(subject);
        k = k + 1;
    }
    let col = Column { subjects, lesson_number: j };
    assert(col@.subjects =~= spec.subjects);
    Some(col)
}

/// A grouped cell gives one subject per subject element of the cell, in order
/// and however many teacher or room elements it has: subject `k` is named by
/// subject element `k`, with teacher element `k` and room element `k` where
/// there are that many, and empty text where there are not; the slot is
/// numbered by the cell's column `j`.
pub proof fn lemma_grouped_cell_has_one_subject_per_element(i: u8, cell: CellView, j: u8)
    requires
        cell.inner_html != "&nbsp;"@,
        cell.breaks.len() > 0,
        cell.breaks[0] == "<br>"@,
    ensures
        spec_lesson_cell(i, cell, j) matches Some(c) && c.lesson_number == j
            && c.subjects.len() == cell.subjects.len() && forall|k: int|
            0 <= k < cell.subjects.len() ==> {
                &&& (#[trigger] c.subjects[k]).subject == cell.subjects[k]
                &&& c.subjects[k].teacher == Some(
                    if k < cell.teachers.len() {
                        cell.teachers[k]
                    } else {
                        Seq::<char>::empty()
                    },
                )
                &&& c.subjects[k].classroom == Some(
                    if k < cell.classrooms.len() {
                        cell.classrooms[k]
                    } else {
                        Seq::<char>::empty()
                    },
                )
            },
{
}

/// An empty cell (`&nbsp;`) gives no lesson; any other cell gives one.
pub proof fn lemma_only_empty_cells_give_no_lesson(i: u8, cell: CellView, j: u8)
    ensures
        spec_lesson_cell(i, cell, j) is None <==> cell.inner_html == "&nbsp;"@,
{
}

/// A cell that is not split into groups gives a slot of exactly one subject,
/// numbered by the cell's row `i`. Where its text holds no space, that text is
/// the subject, with no teacher and no room; else the first subject, teacher
/// and room elements of the cell are the ones shown, where it has them.
pub proof fn lemma_single_cell_gives_one_subject(i: u8, cell: CellView, j: u8)
    requires
        cell.inner_html != "&nbsp;"@,
        !(cell.breaks.len() > 0 && cell.breaks[0] == "<br>"@),
    ensures
        spec_lesson_cell(i, cell, j) matches Some(c) && c.lesson_number == i && c.subjects.len()
            == 1 && (!cell.inner_html.contains(' ') ==> c.subjects[0] == SubjectView {
            subject: cell.inner_html,
            teacher: None,
            classroom: None,
        }) && (cell.inner_html.contains(' ') ==> {
            &&& cell.subjects.len() > 0 ==> c.subjects[0].subject == cell.subjects[0]
            &&& cell.teachers.len() > 0 ==> c.subjects[0].teacher == Some(cell.teachers[0])
            &&& cell.classrooms.len() > 0 ==> c.subjects[0].classroom == Some(cell.classrooms[0])
            &&& c.subjects[0].teacher is Some && c.subjects[0].classroom is Some
        }),
{
    lemma_split_char_single_piece(cell.inner_html, ' ');
}

/// The lesson slot of a cell of one subject, numbered `i`.
pub fn without_group(cell: &Cell, i: u8) -> (r: Option<Column>)
    ensures
        opt_column(r) == Some(spec_without_group(cell@, i)),
{
    let pieces = split(cell.inner_html.as_str(), ' ');
    proof {
        lemma_split_char_nonempty(cell.inner_html@, ' ');
    }
    if pieces.len() == 1 {
        let s = Subject { subject: pieces[0].clone(), teacher: None, classroom: None };
        let col = Column { subjects: vec![s], lesson_number: i };
        assert(col@.subjects =~= spec_without_group(cell@, i).subjects);
        return Some(col);
    }
    let subject = if cell.subjects.len() > 0 {
        cell.subjects[0].clone()
    } else {
        pieces[1].clone()
    };
    let teacher = if cell.teachers.len() > 0 {
        cell.teachers[0].clone()
    } else {
        pieces[0].clone()
    };
    let last = pieces.len() - 1;
    let classroom = if cell.classrooms.len() > 0 {
        cell.classrooms[0].clone()
    } else {
        pieces[last].clone()
    };
    let s = Subject { subject, teacher: Some(teacher), classroom: Some(classroom) };
    let col = Column { subjects: vec![s], lesson_number: i };
    assert(col@.subjects =~= spec_without_group(cell@, i).subjects);
    Some(col)
}

/// The lesson slot of the cell in row `i` and column `j`.
pub fn lesson_cell(i: u8, cell: &Cell, j: u8) -> (r: Option<Column>)
    ensures
        opt_column(r) == spec_lesson_cell(i, cell@, j),
{
    if text_eq(cell.inner_html.as_str(), "&nbsp;") {
        None
    } else if cell.breaks.len() > 0 && text_eq(cell.breaks[0].as_str(), "<br>") {
        with_group(cell, j)
    } else {
        without_group(cell, i)
    }
}

/// What the timetable reads of one row of its table (`tr`): the inner HTML of
/// each hour cell (`td.g`) in it and each of its lesson cells.
#[derive(Debug)]
pub struct TableRow {
    pub hours: Vec<String>,
    pub cells: Vec<Cell>,
}

/// What a table row holds.
pub struct TableRowView {
    pub hours: Seq<Seq<char>>,
    pub cells: Seq<CellView>,
}

impl View for TableRow {
    type V = TableRowView;

    open spec fn view(&self) -> TableRowView {
        TableRowView { hours: texts(self.hours@), cells: self.cells@.map_values(|c: Cell| c@) }
    }
}

/// A timetable in the layout that was asked for.
#[derive(Debug)]
pub enum Timetable {
    ByWeekday(PlanColumn),
    ByRow(PlanRow),
}

/// What a timetable holds.
pub enum TimetableView {
    ByWeekday(PlanColumnView),
    ByRow(PlanRowView),
}

impl View for Timetable {
    type V = TimetableView;

    open spec fn view(&self) -> TimetableView {
        match self {
            Timetable::ByWeekday(p) => TimetableView::ByWeekday(p@),
            Timetable::ByRow(p) => TimetableView::ByRow(p@),
        }
    }
}

/// The view of an optional timetable.
pub open spec fn opt_timetable(o: Option<Timetable>) -> Option<TimetableView> {
    match o {
        Some(t) => Some(t@),
        None => None,
    }
}

/// Whether the table can be read: the rows and the cells of each row after the
/// first are numbered by a `u8` counter without overflow (at most 255 of each),
/// and each row after the first has an hour cell.
pub open spec fn table_readable(rows: Seq<TableRowView>) -> bool {
    &&& rows.len() <= 255
    &&& forall|k: int|
        1 <= k < rows.len() ==> (#[trigger] rows[k]).hours.len() > 0 && rows[k].cells.len() <= 255
}

/// The lesson slots of row `k`.
pub open spec fn row_slots(k: int, row: TableRowView) -> Seq<Option<ColumnView>> {
    Seq::new(row.cells.len(), |j: int| spec_lesson_cell(k as u8, row.cells[j], j as u8))
}

/// The hours of the timetable: from each row after the first (the header), the
/// inner HTML of its first hour cell, spaces removed.
pub open spec fn table_hours(rows: Seq<TableRowView>) -> Seq<Seq<char>> {
    if rows.len() == 0 {
        Seq::empty()
    } else {
        Seq::new((rows.len() - 1) as nat, |k: int| remove_char(rows[k + 1].hours[0], ' '))
    }
}

/// The lesson slots of each row after the first (the header).
pub open spec fn table_slots(rows: Seq<TableRowView>) -> Seq<Seq<Option<ColumnView>>> {
    if rows.len() == 0 {
        Seq::empty()
    } else {
        Seq::new((rows.len() - 1) as nat, |k: int| row_slots(k + 1, rows[k + 1]))
    }
}

/// Column `d` of a table of slots: the `d`-th slot of each row that has one.
pub open spec fn weekday_slots(table: Seq<Seq<Option<ColumnView>>>, d: int) -> Seq<
    Option<ColumnView>,
>
    decreases table.len(),
{
    if table.len() == 0 {
        Seq::empty()
    } else {
        let pre = weekday_slots(table.drop_last(), d);
        if d < table.last().len() {
            pre.push(table.last()[d])
        } else {
            pre
        }
    }
}

/// The five weekdays (0 is Monday) of a table of slots, each its column.
pub open spec fn weekday_map(table: Seq<Seq<Option<ColumnView>>>) -> Map<
    u8,
    Seq<Option<ColumnView>>,
> {
    Map::new(|d: u8| d < 5, |d: u8| weekday_slots(table, d as int))
}

/// The timetable that the table rows give in the layout asked for; none where
/// the table cannot be read.
pub open spec fn spec_plan(rows: Seq<TableRowView>, direction: Type) -> Option<TimetableView> {
    if !table_readable(rows) {
        None
    } else {
        match direction {
            Type::Row => Some(
                TimetableView::ByRow(
                    PlanRowView { hours: table_hours(rows), weekdays: table_slots(rows) },
                ),
            ),
            Type::Column => Some(
                TimetableView::ByWeekday(
                    PlanColumnView {
                        hours: table_hours(rows),
                        weekdays: weekday_map(table_slots(rows)),
                    },
                ),
            ),
        }
    }
}

/// Column `d` of a table of lesson slots.
fn weekday_of(table: &Vec<Vec<Option<Column>>>, d: usize) -> (r: Vec<Option<Column>>)
    ensures
        slots(r@) == weekday_slots(table@.map_values(|v: Vec<Option<Column>>| slots(v@)), d as int),
{
    let ghost tv = table@.map_values(|v: Vec<Option<Column>>| slots(v@));
    let mut out: Vec<Option<Column>> = Vec::new();
    let mut k: usize = 0;
    while k < table.len()
        invariant
            k <= table@.len(),
            tv == table@.map_values(|v: Vec<Option<Column>>| slots(v@)),
            slots(out@) == weekday_slots(tv.take(k as int), d as int),
        decreases table@.len() - k,
    {
        assert(tv.take(k + 1).drop_last() =~= tv.take(k as int));
        assert(tv.take(k + 1).last() == slots(table@[k as int]@));
        if d < table[k].len() {
            let slot = match &table[k][d] {
                Some(c) => Some(copy_column(c)),
                None => None,
            };
            let ghost before = slots(out@);
            out.push(slot);
            assert(slots(out@) =~= before.push(opt_column(table@[k as int]@[d as int])));
        }
        k = k + 1;
    }
    assert(tv.take(k as int) =~= tv);
    out
}

/// The lesson slots of row `k` of the table.
fn row_lessons(k: u8, row: &TableRow) -> (r: Vec<Option<Column>>)
    requires
        row.cells@.len() <= 255,
    ensures
        slots(r@) == row_slots(k as int, row@),
{
    let mut out: Vec<Option<Column>> = Vec::new();
    let mut j: usize = 0;
    while j < row.cells.len()
        invariant
            j <= row.cells@.len() <= 255,
            slots(out@) == row_slots(k as int, row@).take(j as int),
        decreases row.cells@.len() - j,
    {
        let lesson = lesson_cell(k, &row.cells[j], j as u8);
        let ghost before = slots(out@);
        out.push(lesson);
        assert(slots(out@) =~= row_slots(k as int, row@).take(j + 1)) by {
            assert(before.push(opt_column(lesson)) =~= slots(out@));
        }
        j = j + 1;
    }
    assert(row_slots(k as int, row@).take(j as int) =~= row_slots(k as int, row@));
    out
}

/// The timetable that the rows of a timetable page's table give: the header row
/// is skipped; each later row gives an hour and a row of lesson slots. In the
/// layout by weekday, weekday `d` (0 to 4) holds slot `d` of each row that has
/// one. `None` where the table cannot be read (`table_readable`).
pub fn plan_from_rows(rows: &Vec<TableRow>, direction: Type) -> (r: Option<Timetable>)
    ensures
        opt_timetable(r) == spec_plan(rows@.map_values(|t: TableRow| t@), direction),
{
    let ghost rv = rows@.map_values(|t: TableRow| t@);
    if rows.len() > 255 {
        return None;
    }
    let mut hours: Vec<String> = Vec::new();
    let mut table: Vec<Vec<Option<Column>>> = Vec::new();
    let mut k: usize = 1;
    while k < rows.len()
        invariant
            1 <= k,
            rows@.len() <= 255,
            k <= rows@.len() || (rows@.len() == 0 && k == 1),
            rv == rows@.map_values(|t: TableRow| t@),
            forall|t: int|
                1 <= t < k ==> (#[trigger] rv[t]).hours.len() > 0 && rv[t].cells.len() <= 255,
            texts(hours@) == table_hours(rv).take(k - 1),
            table@.map_values(|v: Vec<Option<Column>>| slots(v@)) == table_slots(rv).take(k - 1),
        decreases rows@.len() - k,
    {
        let row = &rows[k];
        if row.hours.len() == 0 || row.cells.len() > 255 {
            assert(rv[k as int] == row@);
            return None;
        }
        let hour = without_char(row.hours[0].as_str(), ' ');
        let lessons = row_lessons(k as u8, row);
        let ghost hb = texts(hours@);
        let ghost tb = table@.map_values(|v: Vec<Option<Column>>| slots(v@));
        hours.push(hour);
        table.push(lessons);
        assert(texts(hours@) =~= table_hours(rv).take(k as int)) by {
            assert(texts(hours@) =~= hb.push(hour@));
        }
        assert(table@.map_values(|v: Vec<Option<Column>>| slots(v@)) =~= table_slots(rv).take(
            k as int,
        )) by {
            assert(table@.map_values(|v: Vec<Option<Column>>| slots(v@)) =~= tb.push(
                slots(lessons@),
            ));
        }
        k = k + 1;
    }
    assert(rv.len() == rows@.len());
    assert(table_readable(rv));
    if rows.len() > 0 {
        assert(k == rows@.len());
    }
    assert(table_hours(rv).len() == k - 1 && table_slots(rv).len() == k - 1);
    assert(table_hours(rv).take(k - 1) =~= table_hours(rv));
    assert(table_slots(rv).take(k - 1) =~= table_slots(rv));
    assert(texts(hours@) =~= table_hours(rv));
    assert(table@.map_values(|v: Vec<Option<Column>>| slots(v@)) =~= table_slots(rv));
    match direction {
        Type::Row => Some(Timetable::ByRow(PlanRow { hours, weekdays: table })),
        Type::Column => {
            broadcast use vstd::std_specs::hash::group_hash_axioms;

            let monday = weekday_of(&table, 0);
            let tuesday = weekday_of(&table, 1);
            let wednesday = weekday_of(&table, 2);
            let thursday = weekday_of(&table, 3);
            let friday = weekday_of(&table, 4);
            let mut weekdays: HashMap<u8, Vec<Option<Column>>> = HashMap::new();
            weekdays.insert(0, monday);
            weekdays.insert(1, tuesday);
            weekdays.insert(2, wednesday);
            weekdays.insert(3, thursday);
            weekdays.insert(4, friday);
            let plan = PlanColumn { hours, weekdays };
            assert(plan@.weekdays =~= weekday_map(table_slots(rv)));
            Some(Timetable::ByWeekday(plan))
        },
    }
}

/// Whether scraper accepts every selector that reading a timetable page uses.
pub open spec fn plan_selectors_parse() -> bool {
    &&& selector_parses(".tabela > tbody > tr"@)
    &&& selector_parses("td.g"@)
    &&& selector_parses("td.l"@)
    &&& selector_parses("br"@)
    &&& selector_parses("span.p"@)
    &&& selector_parses(".n"@)
    &&& selector_parses("span.s"@)
}

/// The rows of the timetable table of a page, as scraper finds them: for each
/// `.tabela > tbody > tr`, its `td.g` hour cells and its `td.l` lesson cells.
pub open spec fn document_rows(document: Seq<char>) -> Seq<TableRowView> {
    let rows = ".tabela > tbody > tr"@;
    let cells = nested_inner_html(document, rows, "td.l"@);
    Seq::new(
        cells.len(),
        |k: int|
            TableRowView {
                hours: nested_inner_html(document, rows, "td.g"@)[k],
                cells: Seq::new(
                    cells[k].len(),
                    |j: int|
                        CellView {
                            inner_html: cells[k][j],
                            breaks: cell_outer_html(document, rows, "td.l"@, "br"@)[k][j],
                            subjects: cell_inner_html(document, rows, "td.l"@, "span.p"@)[k][j],
                            teachers: cell_inner_html(document, rows, "td.l"@, ".n"@)[k][j],
                            classrooms: cell_inner_html(document, rows, "td.l"@, "span.s"@)[k][j],
                        },
                ),
            },
    )
}

/// The timetable of a timetable page in the layout asked for.
pub open spec fn spec_plan_document(document: Seq<char>, direction: Type) -> Option<TimetableView> {
    if plan_selectors_parse() {
        spec_plan(document_rows(document), direction)
    } else {
        None
    }
}

/// The timetable of a timetable page (its HTML), in the layout asked for: the
/// rows of its table read as `plan_from_rows` reads them; `None` where
/// scraper refuses a selector or the table cannot be read (a row after the
/// header without an hour cell, or more rows or cells than a `u8` counts).
/// `None` marks a page that cannot be read to the end (a missing part, not a
/// failed fetch): the service treats it as fatal and panics, so such a page
/// gets no answer.
pub fn plan(document: &str, direction: Type) -> (r: Option<Timetable>)
    ensures
        opt_timetable(r) == spec_plan_document(document@, direction),
{
    let rows_sel = ".tabela > tbody > tr";
    let hours = match select_nested_inner_html(document, rows_sel, "td.g") {
        Some(v) => v,
        None => return None,
    };
    let cells = match select_nested_inner_html(document, rows_sel, "td.l") {
        Some(v) => v,
        None => return None,
    };
    let breaks = match select_cell_outer_html(document, rows_sel, "td.l", "br") {
        Some(v) => v,
        None => return None,
    };
    let subjects = match select_cell_inner_html(document, rows_sel, "td.l", "span.p") {
        Some(v) => v,
        None => return None,
    };
    let teachers = match select_cell_inner_html(document, rows_sel, "td.l", ".n") {
        Some(v) => v,
        None => return None,
    };
    let classrooms = match select_cell_inner_html(document, rows_sel, "td.l", "span.s") {
        Some(v) => v,
        None => return None,
    };
    let ghost d = document@;
    let ghost want = document_rows(d);
    assert(plan_selectors_parse());
    assert(texts2(cells@) == nested_inner_html(d, rows_sel@, "td.l"@));
    assert(want.len() == cells@.len());
    assert(rows_sel@ == ".tabela > tbody > tr"@);
    let mut rows: Vec<TableRow> = Vec::new();
    let mut k: usize = 0;
    while k < cells.len()
        invariant
            k <= cells@.len(),
            want == document_rows(d),
            rows_sel@ == ".tabela > tbody > tr"@,
            texts2(hours@) == nested_inner_html(d, rows_sel@, "td.g"@),
            texts2(cells@) == nested_inner_html(d, rows_sel@, "td.l"@),
            texts3(breaks@) == cell_outer_html(d, rows_sel@, "td.l"@, "br"@),
            texts3(subjects@) == cell_inner_html(d, rows_sel@, "td.l"@, "span.p"@),
            texts3(teachers@) == cell_inner_html(d, rows_sel@, "td.l"@, ".n"@),
            texts3(classrooms@) == cell_inner_html(d, rows_sel@, "td.l"@, "span.s"@),
            hours@.len() == cells@.len(),
            breaks@.len() == cells@.len(),
            subjects@.len() == cells@.len(),
            teachers@.len() == cells@.len(),
            classrooms@.len() == cells@.len(),
            forall|t: int| 0 <= t < cells@.len() ==> (#[trigger] breaks@[t])@.len() == cells@[t]@.len(),
            forall|t: int| 0 <= t < cells@.len() ==> (#[trigger] subjects@[t])@.len() == cells@[t]@.len(),
            forall|t: int| 0 <= t < cells@.len() ==> (#[trigger] teachers@[t])@.len() == cells@[t]@.len(),
            forall|t: int| 0 <= t < cells@.len() ==> (#[trigger] classrooms@[t])@.len() == cells@[t]@.len(),
            rows@.len() == k,
            want.len() == cells@.len(),
            forall|t: int| 0 <= t < k ==> (#[trigger] rows@[t])@ == want[t],
        decreases cells@.len() - k,
    {
        assert(texts2(cells@)[k as int] == texts(cells@[k as int]@));
        assert(texts3(breaks@)[k as int] == texts2(breaks@[k as int]@));
        assert(texts3(subjects@)[k as int] == texts2(subjects@[k as int]@));
        assert(texts3(teachers@)[k as int] == texts2(teachers@[k as int]@));
        assert(texts3(classrooms@)[k as int] == texts2(classrooms@[k as int]@));
        assert(texts(cells@[k as int]@).len() == cells@[k as int]@.len());
        assert(want[k as int].cells.len() == cells@[k as int]@.len());
        let mut row_cells: Vec<Cell> = Vec::new();
        let mut j: usize = 0;
        while j < cells[k].len()
            invariant
                k < cells@.len(),
                j <= cells@[k as int]@.len(),
                want == document_rows(d),
                rows_sel@ == ".tabela > tbody > tr"@,
                texts2(cells@) == nested_inner_html(d, rows_sel@, "td.l"@),
                texts2(cells@)[k as int] == texts(cells@[k as int]@),
                texts3(breaks@)[k as int] == texts2(breaks@[k as int]@),
                texts3(subjects@)[k as int] == texts2(subjects@[k as int]@),
                texts3(teachers@)[k as int] == texts2(teachers@[k as int]@),
                texts3(classrooms@)[k as int] == texts2(classrooms@[k as int]@),
                texts3(breaks@) == cell_outer_html(d, rows_sel@, "td.l"@, "br"@),
                texts3(subjects@) == cell_inner_html(d, rows_sel@, "td.l"@, "span.p"@),
                texts3(teachers@) == cell_inner_html(d, rows_sel@, "td.l"@, ".n"@),
                texts3(classrooms@) == cell_inner_html(d, rows_sel@, "td.l"@, "span.s"@),
                breaks@[k as int]@.len() == cells@[k as int]@.len(),
                subjects@[k as int]@.len() == cells@[k as int]@.len(),
                teachers@[k as int]@.len() == cells@[k as int]@.len(),
                classrooms@[k as int]@.len() == cells@[k as int]@.len(),
                breaks@.len() == cells@.len(),
                subjects@.len() == cells@.len(),
                teachers@.len() == cells@.len(),
                classrooms@.len() == cells@.len(),
                row_cells@.len() == j,
                want.len() == cells@.len(),
                want[k as int].cells.len() == cells@[k as int]@.len(),
                forall|t: int| 0 <= t < j ==> (#[trigger] row_cells@[t])@ == want[k as int].cells[t],
            decreases cells@[k as int]@.len() - j,
        {
            let cell = Cell {
                inner_html: cells[k][j].clone(),
                breaks: copy_texts(&breaks[k][j]),
                subjects: copy_texts(&subjects[k][j]),
                teachers: copy_texts(&teachers[k][j]),
                classrooms: copy_texts(&classrooms[k][j]),
            };
            assert(texts2(breaks@[k as int]@)[j as int] == texts(breaks@[k as int]@[j as int]@));
            assert(texts2(subjects@[k as int]@)[j as int] == texts(subjects@[k as int]@[j as int]@));
            assert(texts2(teachers@[k as int]@)[j as int] == texts(teachers@[k as int]@[j as int]@));
            assert(texts2(classrooms@[k as int]@)[j as int] == texts(
                classrooms@[k as int]@[j as int]@,
            ));
            assert(texts(cells@[k as int]@)[j as int] == cells@[k as int]@[j as int]@);
            assert(cell@ == want[k as int].cells[j as int]);
            row_cells.push(cell);
            j = j + 1;
        }
        let row = TableRow { hours: copy_texts(&hours[k]), cells: row_cells };
        assert(texts2(hours@)[k as int] == texts(hours@[k as int]@));
        assert(row@.cells =~= want[k as int].cells);
        rows.push(row);
        k = k + 1;
    }
    assert(rows@.map_values(|t: TableRow| t@) =~= want);
    plan_from_rows(&rows, direction)
}

/// The first char of a text, or a space where it is empty.
pub open spec fn first_or_space(s: Seq<char>) -> char {
    if s.len() > 0 {
        s[0]
    } else {
        ' '
    }
}

/// Whose timetable a requested path names: a class where it starts with a
/// numeric char, a teacher otherwise.
pub open spec fn path_id_type(path: Seq<char>) -> IdType {
    if unicode_numeric(first_or_space(path)) {
        IdType::Class
    } else {
        IdType::Teacher
    }
}

/// An ASCII letter or a space: a char that `char::is_numeric` refuses.
pub open spec fn ascii_letter_or_space(c: char) -> bool {
    c == ' ' || ('a' <= c <= 'z') || ('A' <= c <= 'Z')
}

/// Whose timetable a requested path names.
pub fn id_type_for(path: &str) -> (r: IdType)
    ensures
        r == path_id_type(path@),
        path@.len() == 0 ==> r == IdType::Teacher,
        path@.len() > 0 && '0' <= path@[0] <= '9' ==> r == IdType::Class,
        path@.len() > 0 && ascii_letter_or_space(path@[0]) ==> r == IdType::Teacher,
{
    let first = if path.unicode_len() > 0 {
        path.get_char(0)
    } else {
        ' '
    };
    if is_numeric(first) {
        IdType::Class
    } else {
        IdType::Teacher
    }
}

/// The address of the timetable page with id `id`.
pub open spec fn plan_page_address(id: Seq<char>) -> Seq<char> {
    "http://www.zstrzeszow.pl/plan/plany/"@ + id + ".html"@
}

/// The address of the timetable page with id `id`.
pub fn plan_page_url(id: &str) -> (r: String)
    ensures
        r@ == plan_page_address(id@),
{
    let mut r = String::new();
    r.append("http://www.zstrzeszow.pl/plan/plany/");
    r.append(id);
    r.append(".html");
    r
}

/// The timetable by row skips the table's header row and keeps every other
/// row in order: hour `k` is the first hour cell of row `k + 1` with its spaces
/// removed, and slot `j` of hour `k` is what lesson cell `j` of row `k + 1`
/// gives, read as a cell of row `k + 1` and column `j`. A table that cannot be
/// read gives no timetable in either layout.
pub proof fn lemma_row_layout_reads_rows_after_header(rows: Seq<TableRowView>)
    ensures
        !table_readable(rows) ==> spec_plan(rows, Type::Row) is None && spec_plan(
            rows,
            Type::Column,
        ) is None,
        table_readable(rows) && rows.len() > 0 ==> (spec_plan(rows, Type::Row) matches Some(
            TimetableView::ByRow(p),
        ) && p.hours.len() == rows.len() - 1 && p.weekdays.len() == rows.len() - 1 && forall|
            k: int,
        |
            0 <= k < rows.len() - 1 ==> {
                &&& #[trigger] p.hours[k] == remove_char(rows[k + 1].hours[0], ' ')
                &&& p.weekdays[k].len() == rows[k + 1].cells.len()
                &&& forall|j: int|
                    0 <= j < rows[k + 1].cells.len() ==> #[trigger] p.weekdays[k][j]
                        == spec_lesson_cell((k + 1) as u8, rows[k + 1].cells[j], j as u8)
            }),
        table_readable(rows) && rows.len() == 0 ==> (spec_plan(rows, Type::Row) matches Some(
            TimetableView::ByRow(p),
        ) && p.hours.len() == 0 && p.weekdays.len() == 0),
{
}

/// The timetable by weekday is the timetable by row read down its columns:
/// both layouts of the same table exist together, have the same hours, and
/// weekday `d` (0 to 4) of the first holds slot `d` of each row of the second
/// that has one.
pub proof fn lemma_weekdays_are_columns_of_rows(rows: Seq<TableRowView>)
    requires
        table_readable(rows),
    ensures
        spec_plan(rows, Type::Row) matches Some(TimetableView::ByRow(by_row)) && spec_plan(
            rows,
            Type::Column,
        ) matches Some(TimetableView::ByWeekday(by_day)) && by_day.hours == by_row.hours
            && by_day.weekdays.dom() == Set::new(|d: u8| d < 5) && (forall|d: u8|
            d < 5 ==> #[trigger] by_day.weekdays[d] == weekday_slots(by_row.weekdays, d as int)),
{
    assert(weekday_map(table_slots(rows)).dom() =~= Set::new(|d: u8| d < 5));
}

/// The address of the timetable page that a requested path names, as the list
/// page (its HTML) gives it: the path picks the class or the teacher list
/// (`path_id_type`: the class list for a path that starts with a digit, the
/// teacher list for an empty path or one that starts with an ASCII letter),
/// the path is looked up there (`lookup_id`, `"None"` where
/// it is not listed), and the page is `plan_page_address` of that id. `None`
/// where the list cannot be read (`list_entries`); the service treats that as
/// fatal and panics.
pub fn plan_page_for(list: &str, path: &str) -> (r: Option<String>)
    ensures
        match list_entries(list@, path_id_type(path@)) {
            Some(entries) => r matches Some(url) && url@ == plan_page_address(
                lookup_id(entries, path@),
            ),
            None => r is None,
        },
        path@.len() == 0 ==> path_id_type(path@) == IdType::Teacher,
        path@.len() > 0 && '0' <= path@[0] <= '9' ==> path_id_type(path@) == IdType::Class,
        path@.len() > 0 && ascii_letter_or_space(path@[0]) ==> path_id_type(path@)
            == IdType::Teacher,
{
    let t = id_type_for(path);
    match get_id(list, path, t) {
        Some(id) => Some(plan_page_url(id.as_str())),
        None => None,
    }
}

} // verus!
