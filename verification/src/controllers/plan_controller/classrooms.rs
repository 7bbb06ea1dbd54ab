//! A room's timetable, gathered from the timetables of all classes.
use vstd::prelude::*;
use vstd::string::*;

use crate::entities::table::{
    Column, ColumnView, PlanRow, PlanRowView, SubjectView, copy_column, opt_column, slots,
};
use crate::utils::text::text_eq;

verus! {

/// The room of a subject; empty where none is given.
pub open spec fn room_of(s: SubjectView) -> Seq<char> {
    match s.classroom {
        Some(c) => c,
        None => Seq::empty(),
    }
}

/// Whether a lesson slot is taught in `room`: one of its subjects is.
pub open spec fn taught_in(lesson: ColumnView, room: Seq<char>) -> bool {
    exists|s: int| 0 <= s < lesson.subjects.len() && room_of(#[trigger] lesson.subjects[s]) == room
}

/// Whether slot `j` of hour `i` of a class timetable holds a lesson taught in `room`.
pub open spec fn slot_in_room(plan: PlanRowView, room: Seq<char>, i: int, j: int) -> bool {
    &&& 0 <= i < plan.weekdays.len()
    &&& 0 <= j < plan.weekdays[i].len()
    &&& plan.weekdays[i][j] is Some
    &&& taught_in(plan.weekdays[i][j]->Some_0, room)
}

/// Slot `j` of hour `i` of the room's timetable: the lesson in that slot of the
/// last of the class timetables whose lesson there is taught in the room; none
/// where no class has one.
pub open spec fn room_slot(plans: Seq<PlanRowView>, room: Seq<char>, i: int, j: int) -> Option<
    ColumnView,
>
    decreases plans.len(),
{
    if plans.len() == 0 {
        None
    } else if slot_in_room(plans.last(), room, i, j) {
        plans.last().weekdays[i][j]
    } else {
        room_slot(plans.drop_last(), room, i, j)
    }
}

/// Whether every lesson of the class timetables that is taught in `room` lies in
/// the room's grid of 13 hours by 12 slots, the grid that `classrooms` fills.
pub open spec fn fits_room_grid(plans: Seq<PlanRowView>, room: Seq<char>) -> bool {
    forall|p: int, i: int, j: int|
        0 <= p < plans.len() && #[trigger] slot_in_room(plans[p], room, i, j) ==> i < 13 && j < 12
}

/// The views of a list of class timetables.
pub open spec fn plan_views(plans: Seq<PlanRow>) -> Seq<PlanRowView> {
    plans.map_values(|p: PlanRow| p@)
}

/// Whether a lesson slot is taught in `room`.
pub fn lesson_in_room(lesson: &Column, room: &str) -> (r: bool)
    ensures
        r == taught_in(lesson@, room@),
        forall|s: int|
            0 <= s < lesson@.subjects.len() && (#[trigger] lesson@.subjects[s]).classroom == Some(
                room@,
            ) ==> r,
        r ==> exists|s: int|
            0 <= s < lesson@.subjects.len() && ((#[trigger] lesson@.subjects[s]).classroom == Some(
                room@,
            ) || (lesson@.subjects[s].classroom is None && room@.len() == 0)),
{
    let mut k: usize = 0;
    while k < lesson.subjects.len()
        invariant
            k <= lesson.subjects@.len(),
            forall|t: int| 0 <= t < k ==> room_of(#[trigger] lesson@.subjects[t]) != room@,
        decreases lesson.subjects@.len() - k,
    {
        let here = match &lesson.subjects[k].classroom {
            Some(c) => text_eq(c.as_str(), room),
            None => text_eq("", room),
        };
        proof {
            reveal_strlit("");
            assert(lesson@.subjects[k as int] == lesson.subjects@[k as int]@);
            assert(""@ =~= Seq::<char>::empty());
        }
        if here {
            assert(room_of(lesson@.subjects[k as int]) == room@);
            return true;
        }
        k = k + 1;
    }
    false
}

/// Whether every lesson taught in `room` lies in the room's grid.
pub fn room_grid_fits(plans: &Vec<PlanRow>, room: &str) -> (r: bool)
    ensures
        r == fits_room_grid(plan_views(plans@), room@),
{
    let ghost pv = plan_views(plans@);
    let mut p: usize = 0;
    while p < plans.len()
        invariant
            p <= plans@.len(),
            pv == plan_views(plans@),
            forall|q: int, i: int, j: int|
                0 <= q < p && #[trigger] slot_in_room(pv[q], room@, i, j) ==> i < 13 && j < 12,
        decreases plans@.len() - p,
    {
        let plan = &plans[p];
        assert(pv[p as int] == plan@);
        let mut i: usize = 0;
        while i < plan.weekdays.len()
            invariant
                p < plans@.len(),
                pv == plan_views(plans@),
                pv[p as int] == plan@,
                i <= plan.weekdays@.len(),
                forall|q: int, a: int, b: int|
                    0 <= q < p && #[trigger] slot_in_room(pv[q], room@, a, b) ==> a < 13 && b < 12,
                forall|a: int, b: int|
                    0 <= a < i && #[trigger] slot_in_room(pv[p as int], room@, a, b) ==> a < 13
                        && b < 12,
            decreases plan.weekdays@.len() - i,
        {
            let hour = &plan.weekdays[i];
            assert(plan@.weekdays[i as int] == slots(hour@));
            let mut j: usize = 0;
            while j < hour.len()
                invariant
                    p < plans@.len(),
                    pv == plan_views(plans@),
                    pv[p as int] == plan@,
                    i < plan.weekdays@.len(),
                    plan@.weekdays[i as int] == slots(hour@),
                    j <= hour@.len(),
                    forall|q: int, a: int, b: int|
                        0 <= q < p && #[trigger] slot_in_room(pv[q], room@, a, b) ==> a < 13 && b
                            < 12,
                    forall|a: int, b: int|
                        0 <= a < i && #[trigger] slot_in_room(pv[p as int], room@, a, b) ==> a
                            < 13 && b < 12,
                    forall|b: int|
                        0 <= b < j && #[trigger] slot_in_room(pv[p as int], room@, i as int, b)
                            ==> i < 13 && b < 12,
                decreases hour@.len() - j,
            {
                if let Some(lesson) = &hour[j] {
                    assert(slots(hour@)[j as int] == opt_column(hour@[j as int]));
                    if lesson_in_room(lesson, room) && (i >= 13 || j >= 12) {
                        assert(slot_in_room(pv[p as int], room@, i as int, j as int));
                        return false;
                    }
                } else {
                    assert(slots(hour@)[j as int] == opt_column(hour@[j as int]));
                }
                j = j + 1;
            }
            i = i + 1;
        }
        p = p + 1;
    }
    true
}

/// The slot of the room's grid at index `k`, hour `k / 12` and slot `k % 12`.
pub open spec fn grid_slot(plans: Seq<PlanRowView>, room: Seq<char>, k: int) -> Option<ColumnView> {
    room_slot(plans, room, k / 12, k % 12)
}

/// Writes into the room's grid (hour `a`, slot `b` at index `12 * a + b`) each
/// lesson of `plan` that is taught in `room`.
fn apply_plan(grid: &mut Vec<Option<Column>>, plan: &PlanRow, room: &str)
    requires
        old(grid)@.len() == 156,
        forall|i: int, j: int| #[trigger] slot_in_room(plan@, room@, i, j) ==> i < 13 && j < 12,
    ensures
        final(grid)@.len() == 156,
        forall|k: int|
            0 <= k < 156 ==> opt_column(#[trigger] final(grid)@[k]) == if slot_in_room(
                plan@,
                room@,
                k / 12,
                k % 12,
            ) {
                plan@.weekdays[k / 12][k % 12]
            } else {
                opt_column(old(grid)@[k])
            },
{
    let ghost before = grid@;
    let mut i: usize = 0;
    while i < plan.weekdays.len()
        invariant
            grid@.len() == 156,
            before.len() == 156,
            before == old(grid)@,
            i <= plan.weekdays@.len(),
            forall|a: int, b: int| #[trigger] slot_in_room(plan@, room@, a, b) ==> a < 13 && b < 12,
            forall|k: int|
                0 <= k < 156 ==> opt_column(#[trigger] grid@[k]) == if k / 12 < i && slot_in_room(
                    plan@,
                    room@,
                    k / 12,
                    k % 12,
                ) {
                    plan@.weekdays[k / 12][k % 12]
                } else {
                    opt_column(before[k])
                },
        decreases plan.weekdays@.len() - i,
    {
        let hour = &plan.weekdays[i];
        assert(plan@.weekdays[i as int] == slots(hour@));
        let mut j: usize = 0;
        while j < hour.len()
            invariant
                grid@.len() == 156,
                before.len() == 156,
                i < plan.weekdays@.len(),
                plan@.weekdays[i as int] == slots(hour@),
                j <= hour@.len(),
                forall|a: int, b: int|
                    #[trigger] slot_in_room(plan@, room@, a, b) ==> a < 13 && b < 12,
                forall|k: int|
                    0 <= k < 156 ==> opt_column(#[trigger] grid@[k]) == if (k / 12 < i || (k / 12
                        == i && k % 12 < j)) && slot_in_room(plan@, room@, k / 12, k % 12) {
                        plan@.weekdays[k / 12][k % 12]
                    } else {
                        opt_column(before[k])
                    },
            decreases hour@.len() - j,
        {
            assert(slots(hour@)[j as int] == opt_column(hour@[j as int]));
            if let Some(lesson) = &hour[j] {
                if lesson_in_room(lesson, room) {
                    assert(slot_in_room(plan@, room@, i as int, j as int));
                    let copy = copy_column(lesson);
                    let idx = i * 12 + j;
                    assert(idx / 12 == i && idx % 12 == j);
                    grid.set(idx, Some(copy));
                } else {
                    assert(!slot_in_room(plan@, room@, i as int, j as int));
                }
            } else {
                assert(!slot_in_room(plan@, room@, i as int, j as int));
            }
            j = j + 1;
        }
        assert forall|k: int| #![trigger grid@[k]] 0 <= k < 156 && k / 12 == i && k % 12 >= j implies !slot_in_room(
            plan@,
            room@,
            k / 12,
            k % 12,
        ) by {}
        i = i + 1;
    }
}

/// The timetable of `room`, gathered from the class timetables: 13 hours of
/// 12 slots, slot `j` of hour `i` holding `room_slot(plans, room, i, j)`; no
/// hours listed.
pub fn classrooms(plans: &Vec<PlanRow>, room: &str) -> (r: PlanRow)
    requires
        fits_room_grid(plan_views(plans@), room@),
    ensures
        r@.hours.len() == 0,
        r@.weekdays.len() == 13,
        forall|i: int| 0 <= i < 13 ==> (#[trigger] r@.weekdays[i]).len() == 12,
        forall|i: int, j: int|
            0 <= i < 13 && 0 <= j < 12 ==> #[trigger] r@.weekdays[i][j] == room_slot(
                plan_views(plans@),
                room@,
                i,
                j,
            ),
{
    let ghost pv = plan_views(plans@);
    let mut grid: Vec<Option<Column>> = Vec::new();
    let mut k: usize = 0;
    while k < 156
        invariant
            k <= 156,
            grid@.len() == k,
            forall|t: int| 0 <= t < k ==> (#[trigger] grid@[t]) is None,
        decreases 156 - k,
    {
        grid.push(None);
        k = k + 1;
    }
    let mut p: usize = 0;
    while p < plans.len()
        invariant
            p <= plans@.len(),
            pv == plan_views(plans@),
            fits_room_grid(pv, room@),
            grid@.len() == 156,
            forall|t: int|
                0 <= t < 156 ==> opt_column(#[trigger] grid@[t]) == grid_slot(
                    pv.take(p as int),
                    room@,
                    t,
                ),
        decreases plans@.len() - p,
    {
        assert(pv[p as int] == plans@[p as int]@);
        assert forall|i: int, j: int| #[trigger]
            slot_in_room(plans@[p as int]@, room@, i, j) implies i < 13 && j < 12 by {
            assert(slot_in_room(pv[p as int], room@, i, j));
        }
        apply_plan(&mut grid, &plans[p], room);
        assert(pv.take(p + 1).drop_last() =~= pv.take(p as int));
        assert(pv.take(p + 1).last() == pv[p as int]);
        p = p + 1;
    }
    assert(pv.take(p as int) =~= pv);
    let mut weekdays: Vec<Vec<Option<Column>>> = Vec::new();
    let mut i: usize = 0;
    while i < 13
        invariant
            i <= 13,
            grid@.len() == 156,
            weekdays@.len() == i,
            forall|t: int| 0 <= t < 156 ==> opt_column(#[trigger] grid@[t]) == grid_slot(pv, room@, t),
            forall|a: int| 0 <= a < i ==> (#[trigger] weekdays@[a])@.len() == 12,
            forall|a: int, b: int|
                0 <= a < i && 0 <= b < 12 ==> opt_column(#[trigger] weekdays@[a]@[b]) == room_slot(
                    pv,
                    room@,
                    a,
                    b,
                ),
        decreases 13 - i,
    {
        let mut hour: Vec<Option<Column>> = Vec::new();
        let mut j: usize = 0;
        while j < 12
            invariant
                i < 13,
                j <= 12,
                grid@.len() == 156,
                hour@.len() == j,
                forall|t: int|
                    0 <= t < 156 ==> opt_column(#[trigger] grid@[t]) == grid_slot(pv, room@, t),
                forall|b: int|
                    0 <= b < j ==> opt_column(#[trigger] hour@[b]) == room_slot(pv, room@, i as int, b),
            decreases 12 - j,
        {
            let idx = i * 12 + j;
            assert(idx / 12 == i && idx % 12 == j);
            let slot = match &grid[idx] {
                Some(c) => Some(copy_column(c)),
                None => None,
            };
            hour.push(slot);
            j = j + 1;
        }
        weekdays.push(hour);
        i = i + 1;
    }
    let r = PlanRow { hours: Vec::new(), weekdays };
    assert(r@.hours =~= Seq::<Seq<char>>::empty());
    assert forall|a: int| 0 <= a < 13 implies (#[trigger] r@.weekdays[a]).len() == 12 by {
        assert(r@.weekdays[a] == slots(weekdays@[a]@));
    }
    assert forall|a: int, b: int| 0 <= a < 13 && 0 <= b < 12 implies #[trigger] r@.weekdays[a][b]
        == room_slot(pv, room@, a, b) by {
        assert(r@.weekdays[a] == slots(weekdays@[a]@));
        assert(slots(weekdays@[a]@)[b] == opt_column(weekdays@[a]@[b]));
    }
    r
}

/// A slot of a room's timetable is filled exactly when some class timetable has
/// a lesson taught in that room in the same hour and slot; it then holds the
/// lesson of the last such timetable, which is taught in the room.
pub proof fn lemma_room_slot_comes_from_last_class(
    plans: Seq<PlanRowView>,
    room: Seq<char>,
    i: int,
    j: int,
)
    ensures
        room_slot(plans, room, i, j) is None <==> !exists|p: int|
            0 <= p < plans.len() && #[trigger] slot_in_room(plans[p], room, i, j),
        room_slot(plans, room, i, j) matches Some(l) ==> taught_in(l, room) && exists|p: int|
            0 <= p < plans.len() && #[trigger] slot_in_room(plans[p], room, i, j)
                && plans[p].weekdays[i][j] == Some(l) && forall|q: int|
                p < q < plans.len() ==> !#[trigger] slot_in_room(plans[q], room, i, j),
    decreases plans.len(),
{
    if plans.len() > 0 {
        let pre = plans.drop_last();
        lemma_room_slot_comes_from_last_class(pre, room, i, j);
        let last = plans.len() - 1;
        assert(plans[last] == plans.last());
        assert forall|p: int| 0 <= p < pre.len() implies pre[p] == plans[p] by {}
        if slot_in_room(plans.last(), room, i, j) {
            assert(slot_in_room(plans[last], room, i, j));
        } else if room_slot(pre, room, i, j) is Some {
            let p = choose|p: int|
                0 <= p < pre.len() && #[trigger] slot_in_room(pre[p], room, i, j)
                    && pre[p].weekdays[i][j] == room_slot(pre, room, i, j) && forall|q: int|
                    p < q < pre.len() ==> !#[trigger] slot_in_room(pre[q], room, i, j);
            assert(slot_in_room(plans[p], room, i, j));
            assert forall|q: int| p < q < plans.len() implies !#[trigger] slot_in_room(
                plans[q],
                room,
                i,
                j,
            ) by {
                if q < pre.len() {
                    assert(!slot_in_room(pre[q], room, i, j));
                }
            }
        } else {
            assert forall|p: int| 0 <= p < plans.len() implies !#[trigger] slot_in_room(
                plans[p],
                room,
                i,
                j,
            ) by {
                if p < pre.len() {
                    assert(!slot_in_room(pre[p], room, i, j));
                }
            }
        }
    }
}

/// Every group of a lesson counts: a lesson one of whose subjects (groups) has
/// `room` as its classroom is taught in that room, whichever group it is.
pub proof fn lemma_any_group_puts_lesson_in_room(lesson: ColumnView, room: Seq<char>, s: int)
    requires
        0 <= s < lesson.subjects.len(),
        lesson.subjects[s].classroom == Some(room),
    ensures
        taught_in(lesson, room),
{
    assert(room_of(lesson.subjects[s]) == room);
}

/// A room's timetable shows every lesson that some class has in that room,
/// whichever of the lesson's groups is taught there: where class timetable `p`
/// has, in slot `j` of hour `i` (inside the 13 by 12 grid), a lesson one of whose
/// subjects has `room` as its classroom, that slot of the room's timetable is
/// filled, with a lesson taught in the room.
pub proof fn lemma_room_timetable_shows_every_group(
    plans: Seq<PlanRowView>,
    room: Seq<char>,
    p: int,
    i: int,
    j: int,
    s: int,
)
    requires
        0 <= p < plans.len(),
        0 <= i < plans[p].weekdays.len(),
        0 <= j < plans[p].weekdays[i].len(),
        plans[p].weekdays[i][j] is Some,
        0 <= s < (plans[p].weekdays[i][j]->Some_0).subjects.len(),
        (plans[p].weekdays[i][j]->Some_0).subjects[s].classroom == Some(room),
    ensures
        room_slot(plans, room, i, j) matches Some(l) && taught_in(l, room),
{
    lemma_any_group_puts_lesson_in_room(plans[p].weekdays[i][j]->Some_0, room, s);
    assert(slot_in_room(plans[p], room, i, j));
    lemma_room_slot_comes_from_last_class(plans, room, i, j);
}

} // verus!
