//! Reading one page: from the title and the text of its tables to the
//! owner of the page and its schedule.

use vstd::prelude::*;
use crate::cell::{interpret, interpreted, viewed, CellError};
use crate::classify::{classified, classify};
use crate::schedule::{Day, DayView, Lesson, LessonView, Schedule, ScheduleView, Week, WeekView};
use crate::text::{normalize, normalized};
use crate::types::{Entity, EntityView};

verus! {

/// What the parser reads of a page.
#[derive(Debug, Clone, PartialEq, Eq)]
pub struct Page {
    /// The first text node of the title element, as it stands in the page;
    /// `None` where the page has no title element or the element no text.
    pub title: Option<String>,
    /// The text of every table of the page, in document order.
    pub tables: Vec<Vec<Vec<Vec<String>>>>,
}

/// Mathematical model of a [`Page`].
pub struct PageView {
    pub title: Option<Seq<char>>,
    pub tables: Seq<Seq<Seq<Seq<Seq<char>>>>>,
}

impl View for Page {
    type V = PageView;

    open spec fn view(&self) -> PageView {
        PageView { title: self.title.deep_view(), tables: self.tables.deep_view() }
    }
}

impl DeepView for Page {
    type V = PageView;

    open spec fn deep_view(&self) -> PageView {
        self.view()
    }
}

/// The slots read from the cells `row[1]` to `row[n - 1]`: the first cell
/// of a row is its label and holds no slot. The first cell that cannot be
/// read gives the error.
pub open spec fn slots_upto(row: Seq<Seq<Seq<char>>>, n: int, entity: EntityView) -> Result<
    DayView,
    CellError,
>
    decreases n,
{
    if n <= 1 {
        Ok(Seq::empty())
    } else {
        match slots_upto(row, n - 1, entity) {
            Err(e) => Err(e),
            Ok(done) => match interpreted(row[n - 1], entity) {
                Err(e) => Err(e),
                Ok(slot) => Ok(done.push(slot)),
            },
        }
    }
}

/// The day that a row stands for.
pub open spec fn day_of(row: Seq<Seq<Seq<char>>>, entity: EntityView) -> Result<
    DayView,
    CellError,
> {
    slots_upto(row, row.len() as int, entity)
}

/// The days read from the rows `table[2]` to `table[n - 1]`: the first two
/// rows of a table are headers and stand for no day.
pub open spec fn days_upto(table: Seq<Seq<Seq<Seq<char>>>>, n: int, entity: EntityView) -> Result<
    WeekView,
    CellError,
>
    decreases n,
{
    if n <= 2 {
        Ok(Seq::empty())
    } else {
        match days_upto(table, n - 1, entity) {
            Err(e) => Err(e),
            Ok(done) => match day_of(table[n - 1], entity) {
                Err(e) => Err(e),
                Ok(day) => Ok(done.push(day)),
            },
        }
    }
}

/// The week that a table stands for.
pub open spec fn week_of(table: Seq<Seq<Seq<Seq<char>>>>, entity: EntityView) -> Result<
    WeekView,
    CellError,
> {
    days_upto(table, table.len() as int, entity)
}

/// The weeks read from the first `n` tables.
pub open spec fn weeks_upto(
    tables: Seq<Seq<Seq<Seq<Seq<char>>>>>,
    n: int,
    entity: EntityView,
) -> Result<ScheduleView, CellError>
    decreases n,
{
    if n <= 0 {
        Ok(Seq::empty())
    } else {
        match weeks_upto(tables, n - 1, entity) {
            Err(e) => Err(e),
            Ok(done) => match week_of(tables[n - 1], entity) {
                Err(e) => Err(e),
                Ok(week) => Ok(done.push(week)),
            },
        }
    }
}

/// The schedule that the tables of a page stand for: one week for each
/// table, in the order of the tables.
pub open spec fn schedule_of(tables: Seq<Seq<Seq<Seq<Seq<char>>>>>, entity: EntityView) -> Result<
    ScheduleView,
    CellError,
> {
    weeks_upto(tables, tables.len() as int, entity)
}

/// The entity that the title of a page names: the title is normalized and
/// then classified. A page without a title names nobody.
pub open spec fn owner_of(title: Option<Seq<char>>) -> Option<EntityView> {
    match title {
        None => None,
        Some(t) => classified(normalized(t)),
    }
}

/// What a page comes to: nothing for a page that names nobody, else its
/// owner and schedule, or the error of the first cell that cannot be read.
pub open spec fn page_outcome(page: PageView) -> Result<
    Option<(EntityView, ScheduleView)>,
    CellError,
> {
    match owner_of(page.title) {
        None => Ok(None),
        Some(entity) => match schedule_of(page.tables, entity) {
            Err(e) => Err(e),
            Ok(schedule) => Ok(Some((entity, schedule))),
        },
    }
}

/// Reads the day of one row: one slot for each cell after the label.
pub fn read_day(row: &Vec<Vec<String>>, entity: &Entity) -> (r: Result<Day, CellError>)
    ensures
        viewed(r) == day_of(row.deep_view(), entity@),
{
    let mut lessons: Vec<Option<Lesson>> = Vec::new();
    let mut i: usize = 1;
    assert(lessons.deep_view() =~= Seq::<Option<LessonView>>::empty());
    while i < row.len()
        invariant
            1 <= i,
            i <= row.len() || (row.len() == 0 && i == 1),
            slots_upto(row.deep_view(), i as int, entity@) == Ok::<DayView, CellError>(
                lessons.deep_view(),
            ),
        decreases row.len() - i,
    {
        let ghost done = lessons.deep_view();
        match interpret(&row[i], entity) {
            Err(e) => {
                proof {
                    lemma_slots_error_stays(row.deep_view(), i + 1, row.len() as int, entity@);
                }
                return Err(e);
            },
            Ok(slot) => {
                lessons.push(slot);
                assert(lessons.deep_view() =~= done.push(slot.deep_view()));
            },
        }
        i += 1;
    }
    Ok(Day { lessons })
}

/// Reads the week of one table: one day for each row after the two header
/// rows.
pub fn read_week(table: &Vec<Vec<Vec<String>>>, entity: &Entity) -> (r: Result<Week, CellError>)
    ensures
        viewed(r) == week_of(table.deep_view(), entity@),
{
    let mut days: Vec<Day> = Vec::new();
    let mut i: usize = 2;
    assert(days.deep_view() =~= Seq::<DayView>::empty());
    while i < table.len()
        invariant
            2 <= i,
            i <= table.len() || (table.len() < 2 && i == 2),
            days_upto(table.deep_view(), i as int, entity@) == Ok::<WeekView, CellError>(
                days.deep_view(),
            ),
        decreases table.len() - i,
    {
        let ghost done = days.deep_view();
        match read_day(&table[i], entity) {
            Err(e) => {
                proof {
                    lemma_days_error_stays(table.deep_view(), i + 1, table.len() as int, entity@);
                }
                return Err(e);
            },
            Ok(day) => {
                days.push(day);
                assert(days.deep_view() =~= done.push(day@));
            },
        }
        i += 1;
    }
    Ok(Week { days })
}

/// Walks the tables of a page: one week for each table, in document order.
pub fn walk(tables: &Vec<Vec<Vec<Vec<String>>>>, entity: &Entity) -> (r: Result<
    Schedule,
    CellError,
>)
    ensures
        viewed(r) == schedule_of(tables.deep_view(), entity@),
{
    let mut weeks: Vec<Week> = Vec::new();
    let mut i: usize = 0;
    assert(weeks.deep_view() =~= Seq::<WeekView>::empty());
    while i < tables.len()
        invariant
            i <= tables.len(),
            weeks_upto(tables.deep_view(), i as int, entity@) == Ok::<ScheduleView, CellError>(
                weeks.deep_view(),
            ),
        decreases tables.len() - i,
    {
        let ghost done = weeks.deep_view();
        match read_week(&tables[i], entity) {
            Err(e) => {
                proof {
                    lemma_weeks_error_stays(
                        tables.deep_view(),
                        i + 1,
                        tables.len() as int,
                        entity@,
                    );
                }
                return Err(e);
            },
            Ok(week) => {
                weeks.push(week);
                assert(weeks.deep_view() =~= done.push(week@));
            },
        }
        i += 1;
    }
    Ok(Schedule { weeks })
}

/// Finds the owner of a page from the text of its title element.
pub fn owner(title: &Option<String>) -> (r: Option<Entity>)
    ensures
        r.deep_view() == owner_of(title.deep_view()),
{
    match title {
        None => None,
        Some(t) => {
            let name = normalize(t.as_str());
            classify(name.as_str())
        },
    }
}

/// Parses one page: `Ok(None)` for a page to be skipped, else the owner of
/// the page with its schedule.
pub fn parse_page(page: &Page) -> (r: Result<Option<(Entity, Schedule)>, CellError>)
    ensures
        viewed(r) == page_outcome(page@),
{
    match owner(&page.title) {
        None => Ok(None),
        Some(entity) => match walk(&page.tables, &entity) {
            Err(e) => Err(e),
            Ok(schedule) => Ok(Some((entity, schedule))),
        },
    }
}

/// Once a cell has failed, the cells after it change nothing.
pub proof fn lemma_slots_error_stays(
    row: Seq<Seq<Seq<char>>>,
    m: int,
    n: int,
    entity: EntityView,
)
    requires
        m <= n,
        slots_upto(row, m, entity) is Err,
    ensures
        slots_upto(row, n, entity) == slots_upto(row, m, entity),
    decreases n - m,
{
    if m < n {
        lemma_slots_error_stays(row, m, n - 1, entity);
    }
}

/// Once a row has failed, the rows after it change nothing.
pub proof fn lemma_days_error_stays(
    table: Seq<Seq<Seq<Seq<char>>>>,
    m: int,
    n: int,
    entity: EntityView,
)
    requires
        m <= n,
        days_upto(table, m, entity) is Err,
    ensures
        days_upto(table, n, entity) == days_upto(table, m, entity),
    decreases n - m,
{
    if m < n {
        lemma_days_error_stays(table, m, n - 1, entity);
    }
}

/// Once a table has failed, the tables after it change nothing.
pub proof fn lemma_weeks_error_stays(
    tables: Seq<Seq<Seq<Seq<Seq<char>>>>>,
    m: int,
    n: int,
    entity: EntityView,
)
    requires
        m <= n,
        weeks_upto(tables, m, entity) is Err,
    ensures
        weeks_upto(tables, n, entity) == weeks_upto(tables, m, entity),
    decreases n - m,
{
    if m < n {
        lemma_weeks_error_stays(tables, m, n - 1, entity);
    }
}

/// Whether the cell `row[i]` cannot be read while all cells before it,
/// from the second on, can.
pub open spec fn cell_fails_first(
    row: Seq<Seq<Seq<char>>>,
    i: int,
    entity: EntityView,
    e: CellError,
) -> bool {
    &&& interpreted(row[i], entity) == Err::<Option<LessonView>, CellError>(e)
    &&& forall|j: int| 1 <= j < i ==> (#[trigger] interpreted(row[j], entity)) is Ok
}

/// Whether the row `table[i]` cannot be read while all rows before it,
/// from the third on, can.
pub open spec fn row_fails_first(
    table: Seq<Seq<Seq<Seq<char>>>>,
    i: int,
    entity: EntityView,
    e: CellError,
) -> bool {
    &&& day_of(table[i], entity) == Err::<DayView, CellError>(e)
    &&& forall|j: int| 2 <= j < i ==> (#[trigger] day_of(table[j], entity)) is Ok
}

/// Whether the table `tables[i]` cannot be read while all tables before it
/// can.
pub open spec fn table_fails_first(
    tables: Seq<Seq<Seq<Seq<Seq<char>>>>>,
    i: int,
    entity: EntityView,
    e: CellError,
) -> bool {
    &&& week_of(tables[i], entity) == Err::<WeekView, CellError>(e)
    &&& forall|j: int| 0 <= j < i ==> (#[trigger] week_of(tables[j], entity)) is Ok
}

/// A day has one slot for each cell after the label, in the order of the
/// cells; reading fails with the error of the first cell that fails.
pub proof fn lemma_slots_in_cell_order(row: Seq<Seq<Seq<char>>>, n: int, entity: EntityView)
    requires
        0 <= n <= row.len(),
    ensures
        match slots_upto(row, n, entity) {
            Ok(day) => {
                &&& day.len() == if n == 0 {
                    0
                } else {
                    n - 1
                }
                &&& forall|i: int|
                    0 <= i < day.len() ==> interpreted(row[i + 1], entity) == Ok::<
                        Option<LessonView>,
                        CellError,
                    >(#[trigger] day[i])
            },
            Err(e) => exists|i: int| 1 <= i < n && #[trigger] cell_fails_first(row, i, entity, e),
        },
    decreases n,
{
    if n > 1 {
        lemma_slots_in_cell_order(row, n - 1, entity);
        match slots_upto(row, n - 1, entity) {
            Err(e) => {},
            Ok(done) => match interpreted(row[n - 1], entity) {
                Err(e) => {
                    assert forall|j: int| 1 <= j < n - 1 implies (#[trigger] interpreted(
                        row[j],
                        entity,
                    )) is Ok by {
                        assert(interpreted(row[(j - 1) + 1], entity) == Ok::<
                            Option<LessonView>,
                            CellError,
                        >(done[j - 1]));
                    }
                    assert(cell_fails_first(row, n - 1, entity, e));
                },
                Ok(slot) => {},
            },
        }
    }
}

/// A week has one day for each row after the two header rows, in the
/// order of the rows; a table of two rows or fewer is a week without days;
/// reading fails with the error of the first row that fails.
pub proof fn lemma_days_in_row_order(table: Seq<Seq<Seq<Seq<char>>>>, n: int, entity: EntityView)
    requires
        0 <= n <= table.len(),
    ensures
        match days_upto(table, n, entity) {
            Ok(week) => {
                &&& week.len() == if n <= 2 {
                    0
                } else {
                    n - 2
                }
                &&& forall|i: int|
                    0 <= i < week.len() ==> day_of(table[i + 2], entity) == Ok::<DayView, CellError>(
                        #[trigger] week[i],
                    )
            },
            Err(e) => exists|i: int| 2 <= i < n && #[trigger] row_fails_first(table, i, entity, e),
        },
    decreases n,
{
    if n > 2 {
        lemma_days_in_row_order(table, n - 1, entity);
        match days_upto(table, n - 1, entity) {
            Err(e) => {},
            Ok(done) => match day_of(table[n - 1], entity) {
                Err(e) => {
                    assert forall|j: int| 2 <= j < n - 1 implies (#[trigger] day_of(
                        table[j],
                        entity,
                    )) is Ok by {
                        assert(day_of(table[(j - 2) + 2], entity) == Ok::<DayView, CellError>(
                            done[j - 2],
                        ));
                    }
                    assert(row_fails_first(table, n - 1, entity, e));
                },
                Ok(day) => {},
            },
        }
    }
}

/// A schedule has one week for each table, in the order of the tables;
/// reading fails with the error of the first table that fails.
pub proof fn lemma_weeks_in_table_order(
    tables: Seq<Seq<Seq<Seq<Seq<char>>>>>,
    n: int,
    entity: EntityView,
)
    requires
        0 <= n <= tables.len(),
    ensures
        match weeks_upto(tables, n, entity) {
            Ok(schedule) => {
                &&& schedule.len() == n
                &&& forall|i: int|
                    0 <= i < schedule.len() ==> week_of(tables[i], entity) == Ok::<
                        WeekView,
                        CellError,
                    >(#[trigger] schedule[i])
            },
            Err(e) => exists|i: int| 0 <= i < n && #[trigger] table_fails_first(tables, i, entity, e),
        },
    decreases n,
{
    if n > 0 {
        lemma_weeks_in_table_order(tables, n - 1, entity);
        match weeks_upto(tables, n - 1, entity) {
            Err(e) => {},
            Ok(done) => match week_of(tables[n - 1], entity) {
                Err(e) => {
                    assert forall|j: int| 0 <= j < n - 1 implies (#[trigger] week_of(
                        tables[j],
                        entity,
                    )) is Ok by {
                        assert(week_of(tables[j], entity) == Ok::<WeekView, CellError>(done[j]));
                    }
                    assert(table_fails_first(tables, n - 1, entity, e));
                },
                Ok(week) => {},
            },
        }
    }
}

} // verus!
