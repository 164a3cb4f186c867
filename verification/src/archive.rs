//! Gathering the pages of an archive into one timetable: the schedule of
//! every entity under its name, and the index of the names.

use vstd::prelude::*;
use crate::cell::CellError;
use crate::decode::{decode_strict, windows_1251_text};
use crate::markup::{html_page_outcome, parse_html_page, standard_selectors, PageError, Selectors};
use crate::order::{is_sorting_of, sort_names};
use crate::schedule::{Schedule, ScheduleView};
use crate::text::{ends_with, has_suffix, same_text};
use crate::types::{Entity, EntityView, ItemType, Items};

verus! {

/// One member of the archive: its name and its bytes.
#[derive(Debug, Clone, PartialEq, Eq)]
pub struct ArchiveEntry {
    pub name: String,
    pub bytes: Vec<u8>,
}

/// Mathematical model of an [`ArchiveEntry`].
pub struct ArchiveEntryView {
    pub name: Seq<char>,
    pub bytes: Seq<u8>,
}

impl View for ArchiveEntry {
    type V = ArchiveEntryView;

    open spec fn view(&self) -> ArchiveEntryView {
        ArchiveEntryView { name: self.name@, bytes: self.bytes@ }
    }
}

impl DeepView for ArchiveEntry {
    type V = ArchiveEntryView;

    open spec fn deep_view(&self) -> ArchiveEntryView {
        self.view()
    }
}

/// Why an archive could not be parsed.
#[derive(Debug, Clone, Copy, PartialEq, Eq, Structural)]
pub enum ParseError {
    /// One of the selectors by which pages are read was not accepted.
    Selectors,
    /// The bytes of the entry at this index are no text in windows-1251.
    Undecodable { entry: usize },
    /// The page at this index is too long for the HTML parser.
    TooLong { entry: usize },
    /// A cell on the page at this index could not be read.
    Cell { entry: usize, error: CellError },
}

/// The map that a list of named schedules stands for: a later schedule
/// replaces an earlier one of the same name.
pub open spec fn map_of(entries: Seq<(Seq<char>, ScheduleView)>) -> Map<Seq<char>, ScheduleView>
    decreases entries.len(),
{
    if entries.len() == 0 {
        Map::empty()
    } else {
        map_of(entries.drop_last()).insert(entries.last().0, entries.last().1)
    }
}

/// Whether no name occurs twice.
pub open spec fn distinct_names(entries: Seq<(Seq<char>, ScheduleView)>) -> bool {
    forall|i: int, j: int| 0 <= i < j < entries.len() ==> entries[i].0 != entries[j].0
}

/// The keys of the map are the names in the list.
pub proof fn lemma_map_of_keys(entries: Seq<(Seq<char>, ScheduleView)>, name: Seq<char>)
    ensures
        map_of(entries).contains_key(name) <==> exists|i: int|
            0 <= i < entries.len() && (#[trigger] entries[i]).0 == name,
    decreases entries.len(),
{
    if entries.len() > 0 {
        let init = entries.drop_last();
        lemma_map_of_keys(init, name);
        if map_of(entries).contains_key(name) {
            if entries.last().0 == name {
                assert(entries[entries.len() - 1].0 == name);
            } else {
                let i = choose|i: int| 0 <= i < init.len() && (#[trigger] init[i]).0 == name;
                assert(entries[i].0 == name);
            }
        }
        if exists|i: int| 0 <= i < entries.len() && (#[trigger] entries[i]).0 == name {
            let i = choose|i: int| 0 <= i < entries.len() && (#[trigger] entries[i]).0 == name;
            if i < init.len() {
                assert(init[i].0 == name);
            }
        }
    }
}

/// Where no name occurs twice, each name maps to the schedule beside it.
pub proof fn lemma_map_of_at(entries: Seq<(Seq<char>, ScheduleView)>, i: int)
    requires
        distinct_names(entries),
        0 <= i < entries.len(),
    ensures
        map_of(entries).contains_key(entries[i].0),
        map_of(entries)[entries[i].0] == entries[i].1,
    decreases entries.len(),
{
    let init = entries.drop_last();
    if i < entries.len() - 1 {
        lemma_map_of_at(init, i);
    }
}

/// Replacing the schedule beside a name is inserting under that name.
pub proof fn lemma_map_of_update(
    entries: Seq<(Seq<char>, ScheduleView)>,
    i: int,
    schedule: ScheduleView,
)
    requires
        distinct_names(entries),
        0 <= i < entries.len(),
    ensures
        distinct_names(entries.update(i, (entries[i].0, schedule))),
        map_of(entries.update(i, (entries[i].0, schedule))) == map_of(entries).insert(
            entries[i].0,
            schedule,
        ),
    decreases entries.len(),
{
    let name = entries[i].0;
    let changed = entries.update(i, (name, schedule));
    let init = entries.drop_last();
    if i == entries.len() - 1 {
        assert(changed.drop_last() =~= init);
    } else {
        lemma_map_of_update(init, i, schedule);
        assert(changed.drop_last() =~= init.update(i, (name, schedule)));
    }
}

/// Where no name occurs twice, the map has one key for each entry.
pub proof fn lemma_map_of_len(entries: Seq<(Seq<char>, ScheduleView)>)
    requires
        distinct_names(entries),
    ensures
        map_of(entries).dom().finite(),
        map_of(entries).dom().len() == entries.len(),
    decreases entries.len(),
{
    if entries.len() == 0 {
    } else {
        let init = entries.drop_last();
        lemma_map_of_len(init);
        lemma_map_of_keys(init, entries.last().0);
    }
}

/// The schedules of an archive, each under the name of its entity.
#[derive(Debug)]
pub struct Schedules {
    entries: Vec<(String, Schedule)>,
}

impl View for Schedules {
    type V = Map<Seq<char>, ScheduleView>;

    closed spec fn view(&self) -> Map<Seq<char>, ScheduleView> {
        map_of(self.entries.deep_view())
    }
}

impl Schedules {
    #[verifier::type_invariant]
    spec fn names_are_distinct(&self) -> bool {
        distinct_names(self.entries.deep_view())
    }

    /// No schedules.
    pub fn new() -> (r: Schedules)
        ensures
            r@ == Map::<Seq<char>, ScheduleView>::empty(),
    {
        let entries: Vec<(String, Schedule)> = Vec::new();
        Schedules { entries }
    }

    /// The number of names.
    pub fn len(&self) -> (n: usize)
        ensures
            self@.dom().finite(),
            n == self@.dom().len(),
    {
        proof {
            use_type_invariant(self);
            lemma_map_of_len(self.entries.deep_view());
        }
        self.entries.len()
    }

    /// The schedule under `name`, if there is one.
    pub fn get(&self, name: &str) -> (r: Option<&Schedule>)
        ensures
            match r {
                Some(schedule) => self@.contains_key(name@) && self@[name@] == schedule@,
                None => !self@.contains_key(name@),
            },
    {
        proof {
            use_type_invariant(self);
        }
        let mut i: usize = 0;
        while i < self.entries.len()
            invariant
                i <= self.entries.len(),
                distinct_names(self.entries.deep_view()),
                forall|k: int| 0 <= k < i ==> (#[trigger] self.entries.deep_view()[k]).0 != name@,
            decreases self.entries.len() - i,
        {
            if same_text(self.entries[i].0.as_str(), name) {
                proof {
                    lemma_map_of_at(self.entries.deep_view(), i as int);
                }
                return Some(&self.entries[i].1);
            }
            i += 1;
        }
        proof {
            lemma_map_of_keys(self.entries.deep_view(), name@);
        }
        None
    }

    /// Puts `schedule` under `name`. A schedule that stood there is
    /// replaced: the last one put under a name is the one that stays.
    pub fn insert(&mut self, name: String, schedule: Schedule)
        ensures
            final(self)@ == old(self)@.insert(name@, schedule@),
    {
        proof {
            use_type_invariant(&*self);
        }
        let ghost before = self.entries.deep_view();
        let mut entries: Vec<(String, Schedule)> = Vec::new();
        std::mem::swap(&mut self.entries, &mut entries);
        let mut i: usize = 0;
        while i < entries.len() && !same_text(entries[i].0.as_str(), name.as_str())
            invariant
                i <= entries.len(),
                entries.deep_view() == before,
                forall|k: int| 0 <= k < i ==> (#[trigger] before[k]).0 != name@,
            decreases entries.len() - i,
        {
            i += 1;
        }
        if i < entries.len() {
            proof {
                lemma_map_of_update(before, i as int, schedule@);
            }
            entries.set(i, (name, schedule));
            assert(entries.deep_view() =~= before.update(
                i as int,
                (before[i as int].0, schedule@),
            ));
        } else {
            entries.push((name, schedule));
            proof {
                let after = entries.deep_view();
                assert(after =~= before.push((name@, schedule@)));
                assert(after.drop_last() =~= before);
            }
        }
        std::mem::swap(&mut self.entries, &mut entries);
    }

    /// Hands out the schedules with their names. No name occurs twice, and
    /// the list stands for the same map.
    pub fn into_entries(self) -> (entries: Vec<(String, Schedule)>)
        ensures
            distinct_names(entries.deep_view()),
            map_of(entries.deep_view()) == self@,
    {
        proof {
            use_type_invariant(&self);
        }
        self.entries
    }
}

/// What an archive comes to.
#[derive(Debug)]
pub struct Timetable {
    /// The names of the teachers and of the groups.
    pub items: Items,
    /// The schedule of each of them.
    pub schedules: Schedules,
}

/// Mathematical model of a [`Timetable`].
pub struct TimetableView {
    pub teachers: Seq<Seq<char>>,
    pub groups: Seq<Seq<char>>,
    pub schedules: Map<Seq<char>, ScheduleView>,
}

impl View for Timetable {
    type V = TimetableView;

    open spec fn view(&self) -> TimetableView {
        TimetableView {
            teachers: self.items.teachers.deep_view(),
            groups: self.items.groups.deep_view(),
            schedules: self.schedules@,
        }
    }
}

/// The timetable of an archive without pages.
pub open spec fn empty_timetable() -> TimetableView {
    TimetableView { teachers: Seq::empty(), groups: Seq::empty(), schedules: Map::empty() }
}

/// The timetable after one more page: the name of its owner joins the
/// teachers or the groups, and its schedule stands under that name, in
/// place of any that stood there.
pub open spec fn with_page(acc: TimetableView, entity: EntityView, schedule: ScheduleView) -> TimetableView {
    TimetableView {
        teachers: if entity.kind == ItemType::Teacher {
            acc.teachers.push(entity.name)
        } else {
            acc.teachers
        },
        groups: if entity.kind == ItemType::Group {
            acc.groups.push(entity.name)
        } else {
            acc.groups
        },
        schedules: acc.schedules.insert(entity.name, schedule),
    }
}

/// Only the members of the archive whose name ends in `.html` are pages.
pub open spec fn is_page_name(name: Seq<char>) -> bool {
    has_suffix(name, seq!['.', 'h', 't', 'm', 'l'])
}

/// The timetable after the entry at `index`: an entry that is no page, or
/// whose page names nobody, changes nothing; a page that cannot be decoded,
/// is too long or cannot be read is an error.
pub open spec fn with_entry(
    acc: TimetableView,
    entry: ArchiveEntryView,
    index: int,
    selectors: Selectors,
) -> Result<TimetableView, ParseError> {
    if !is_page_name(entry.name) {
        Ok(acc)
    } else {
        match windows_1251_text(entry.bytes) {
            None => Err(ParseError::Undecodable { entry: index as usize }),
            Some(text) => match html_page_outcome(text, selectors) {
                Err(PageError::TooLong) => Err(ParseError::TooLong { entry: index as usize }),
                Err(PageError::Cell(error)) => Err(
                    ParseError::Cell { entry: index as usize, error },
                ),
                Ok(None) => Ok(acc),
                Ok(Some((entity, schedule))) => Ok(with_page(acc, entity, schedule)),
            },
        }
    }
}

/// The timetable after the first `n` entries, in their order; the first
/// entry that fails gives the error.
pub open spec fn gathered_upto(entries: Seq<ArchiveEntryView>, n: int, selectors: Selectors) -> Result<
    TimetableView,
    ParseError,
>
    decreases n,
{
    if n <= 0 {
        Ok(empty_timetable())
    } else {
        match gathered_upto(entries, n - 1, selectors) {
            Err(e) => Err(e),
            Ok(acc) => with_entry(acc, entries[n - 1], n - 1, selectors),
        }
    }
}

/// The timetable gathered from all entries.
pub open spec fn gathered(entries: Seq<ArchiveEntryView>, selectors: Selectors) -> Result<
    TimetableView,
    ParseError,
> {
    gathered_upto(entries, entries.len() as int, selectors)
}

/// Whether `t` is `gathered` with both lists of names sorted.
pub open spec fn is_finished(t: TimetableView, gathered: TimetableView) -> bool {
    &&& t.schedules == gathered.schedules
    &&& is_sorting_of(t.teachers, gathered.teachers)
    &&& is_sorting_of(t.groups, gathered.groups)
}

/// Once an entry has failed, the entries after it change nothing.
pub proof fn lemma_gathered_error_stays(
    entries: Seq<ArchiveEntryView>,
    m: int,
    n: int,
    selectors: Selectors,
)
    requires
        m <= n,
        gathered_upto(entries, m, selectors) is Err,
    ensures
        gathered_upto(entries, n, selectors) == gathered_upto(entries, m, selectors),
    decreases n - m,
{
    if m < n {
        lemma_gathered_error_stays(entries, m, n - 1, selectors);
    }
}

/// Whether the names in the index are exactly the names under which a
/// schedule stands.
pub open spec fn names_indexed(t: TimetableView) -> bool {
    forall|name: Seq<char>| #[trigger]
        t.schedules.contains_key(name) <==> t.teachers.contains(name) || t.groups.contains(name)
}

/// Taking in a page keeps the index and the schedules in step.
pub proof fn lemma_with_page_names_indexed(
    acc: TimetableView,
    entity: EntityView,
    schedule: ScheduleView,
)
    requires
        names_indexed(acc),
    ensures
        names_indexed(with_page(acc, entity, schedule)),
{
    let next = with_page(acc, entity, schedule);
    assert forall|name: Seq<char>| #[trigger]
        next.schedules.contains_key(name) <==> next.teachers.contains(name) || next.groups.contains(
            name,
        ) by {
        lemma_push_contains(acc.teachers, entity.name, name);
        lemma_push_contains(acc.groups, entity.name, name);
    }
}

/// What a list holds after one more name.
pub proof fn lemma_push_contains(names: Seq<Seq<char>>, added: Seq<char>, name: Seq<char>)
    ensures
        names.push(added).contains(name) <==> names.contains(name) || name == added,
{
    let all = names.push(added);
    if names.contains(name) {
        let i = choose|i: int| 0 <= i < names.len() && names[i] == name;
        assert(all[i] == name);
    }
    if name == added {
        assert(all[names.len() as int] == name);
    }
}

/// In what is gathered from an archive, the names in the index are exactly
/// the names under which a schedule stands.
pub proof fn lemma_gathered_names_indexed(
    entries: Seq<ArchiveEntryView>,
    n: int,
    selectors: Selectors,
)
    ensures
        gathered_upto(entries, n, selectors) matches Ok(t) ==> names_indexed(t),
    decreases n,
{
    if n > 0 {
        lemma_gathered_names_indexed(entries, n - 1, selectors);
        match gathered_upto(entries, n - 1, selectors) {
            Err(e) => {},
            Ok(acc) => {
                let entry = entries[n - 1];
                if is_page_name(entry.name) {
                    match windows_1251_text(entry.bytes) {
                        None => {},
                        Some(text) => match html_page_outcome(text, selectors) {
                            Ok(Some((entity, schedule))) => {
                                lemma_with_page_names_indexed(acc, entity, schedule);
                            },
                            _ => {},
                        },
                    }
                }
            },
        }
    }
}

/// Sorting the index changes nothing in which names it holds.
pub proof fn lemma_finished_names_indexed(t: TimetableView, gathered: TimetableView)
    requires
        is_finished(t, gathered),
        names_indexed(gathered),
    ensures
        names_indexed(t),
{
    t.teachers.to_multiset_ensures();
    t.groups.to_multiset_ensures();
    gathered.teachers.to_multiset_ensures();
    gathered.groups.to_multiset_ensures();
    assert forall|name: Seq<char>| #[trigger]
        t.schedules.contains_key(name) <==> t.teachers.contains(name) || t.groups.contains(
            name,
        ) by {
        assert(t.teachers.contains(name) <==> t.teachers.to_multiset().count(name) > 0);
        assert(t.groups.contains(name) <==> t.groups.to_multiset().count(name) > 0);
    }
}

/// Whether a member of the archive with this name is a page.
pub fn is_page(name: &str) -> (b: bool)
    ensures
        b == is_page_name(name@),
{
    proof {
        reveal_strlit(".html");
        assert(".html"@ =~= seq!['.', 'h', 't', 'm', 'l']);
    }
    ends_with(name, ".html")
}

impl Timetable {
    /// The timetable of an archive without pages.
    pub fn new() -> (t: Timetable)
        ensures
            t@ == empty_timetable(),
    {
        let t = Timetable {
            items: Items { teachers: Vec::new(), groups: Vec::new() },
            schedules: Schedules::new(),
        };
        assert(t.items.teachers.deep_view() =~= Seq::<Seq<char>>::empty());
        assert(t.items.groups.deep_view() =~= Seq::<Seq<char>>::empty());
        t
    }

    /// Takes in one page: its owner and its schedule.
    pub fn add(&mut self, entity: Entity, schedule: Schedule)
        ensures
            final(self)@ == with_page(old(self)@, entity@, schedule@),
    {
        let ghost teachers = self.items.teachers.deep_view();
        let ghost groups = self.items.groups.deep_view();
        match entity.kind {
            ItemType::Teacher => {
                self.items.teachers.push(entity.name.clone());
                assert(self.items.teachers.deep_view() =~= teachers.push(entity.name@));
            },
            ItemType::Group => {
                self.items.groups.push(entity.name.clone());
                assert(self.items.groups.deep_view() =~= groups.push(entity.name@));
            },
        }
        self.schedules.insert(entity.name, schedule);
    }

    /// Takes in the entry at `index` of the archive: decodes and parses it
    /// if it is a page.
    pub fn add_entry(&mut self, entry: &ArchiveEntry, index: usize, selectors: &Selectors) -> (r:
        Result<(), ParseError>)
        ensures
            match with_entry(old(self)@, entry@, index as int, *selectors) {
                Ok(t) => r is Ok && final(self)@ == t,
                Err(e) => r == Err::<(), ParseError>(e) && final(self)@ == old(self)@,
            },
    {
        if !is_page(entry.name.as_str()) {
            return Ok(());
        }
        let text = match decode_strict(entry.bytes.as_slice()) {
            None => {
                return Err(ParseError::Undecodable { entry: index });
            },
            Some(text) => text,
        };
        match parse_html_page(text.as_str(), selectors) {
            Err(PageError::TooLong) => Err(ParseError::TooLong { entry: index }),
            Err(PageError::Cell(error)) => Err(ParseError::Cell { entry: index, error }),
            Ok(None) => Ok(()),
            Ok(Some((entity, schedule))) => {
                self.add(entity, schedule);
                Ok(())
            },
        }
    }

    /// Sorts the names of the teachers and those of the groups.
    pub fn finish(self) -> (t: Timetable)
        ensures
            is_finished(t@, self@),
    {
        let Timetable { items, schedules } = self;
        let Items { teachers, groups } = items;
        Timetable {
            items: Items { teachers: sort_names(teachers), groups: sort_names(groups) },
            schedules,
        }
    }
}

/// Gathers the timetable of an archive from its entries, read with the
/// given selectors.
pub fn parse_with(entries: &Vec<ArchiveEntry>, selectors: &Selectors) -> (r: Result<
    Timetable,
    ParseError,
>)
    ensures
        match gathered(entries.deep_view(), *selectors) {
            Ok(g) => r matches Ok(t) && is_finished(t@, g),
            Err(e) => r matches Err(x) && x == e,
        },
        r matches Ok(t) ==> names_indexed(t@),
{
    let mut timetable = Timetable::new();
    let mut i: usize = 0;
    while i < entries.len()
        invariant
            i <= entries.len(),
            gathered_upto(entries.deep_view(), i as int, *selectors) == Ok::<
                TimetableView,
                ParseError,
            >(timetable@),
        decreases entries.len() - i,
    {
        match timetable.add_entry(&entries[i], i, selectors) {
            Err(e) => {
                proof {
                    lemma_gathered_error_stays(
                        entries.deep_view(),
                        i + 1,
                        entries.len() as int,
                        *selectors,
                    );
                }
                return Err(e);
            },
            Ok(_) => {},
        }
        i += 1;
    }
    let ghost all = timetable@;
    let finished = timetable.finish();
    proof {
        lemma_gathered_names_indexed(entries.deep_view(), entries.len() as int, *selectors);
        lemma_finished_names_indexed(finished@, all);
    }
    Ok(finished)
}

/// Gathers the timetable of an archive from its entries: every entry whose
/// name ends in `.html` is decoded from windows-1251 and parsed as a page,
/// and the names of the teachers and groups are sorted.
pub fn parse(entries: &Vec<ArchiveEntry>) -> (r: Result<Timetable, ParseError>)
    ensures
        match standard_selectors() {
            None => r matches Err(x) && x == ParseError::Selectors,
            Some(selectors) => match gathered(entries.deep_view(), selectors) {
                Ok(g) => r matches Ok(t) && is_finished(t@, g),
                Err(e) => r matches Err(x) && x == e,
            },
        },
        r matches Ok(t) ==> names_indexed(t@),
{
    match Selectors::new() {
        None => Err(ParseError::Selectors),
        Some(selectors) => parse_with(entries, &selectors),
    }
}

} // verus!
