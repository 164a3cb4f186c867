//! The timetable of one entity: weeks of days of lesson slots.

use vstd::prelude::*;

verus! {

/// All the weeks of one entity, in the order of the tables on its page.
#[derive(Debug, Clone, PartialEq, Eq)]
pub struct Schedule {
    pub weeks: Vec<Week>,
}

/// The days of one week, in the order of the table's rows.
#[derive(Debug, Clone, PartialEq, Eq)]
pub struct Week {
    pub days: Vec<Day>,
}

/// The slots of one day, in the order of the row's cells. A slot without a
/// lesson is `None`.
#[derive(Debug, Clone, PartialEq, Eq)]
pub struct Day {
    pub lessons: Vec<Option<Lesson>>,
}

/// One of the two parallel sessions of a lesson held in subgroups.
#[derive(Debug, Clone, PartialEq, Eq)]
pub struct Subgroup {
    pub room: String,
    pub teacher: String,
}

/// What occupies a slot.
#[derive(Debug, Clone, PartialEq, Eq)]
pub enum Lesson {
    /// One lesson with one teacher, one group and one room.
    CommonLesson { teacher: String, group: String, room: String, name: String },
    /// One lesson held as two parallel sessions.
    SubgroupedLesson { name: String, subgroups: Vec<Subgroup> },
}

/// Mathematical model of a [`Subgroup`].
pub struct SubgroupView {
    pub room: Seq<char>,
    pub teacher: Seq<char>,
}

/// Mathematical model of a [`Lesson`].
pub enum LessonView {
    CommonLesson { teacher: Seq<char>, group: Seq<char>, room: Seq<char>, name: Seq<char> },
    SubgroupedLesson { name: Seq<char>, subgroups: Seq<SubgroupView> },
}

/// Model of a [`Day`]: its slots.
pub type DayView = Seq<Option<LessonView>>;

/// Model of a [`Week`]: its days.
pub type WeekView = Seq<Seq<Option<LessonView>>>;

/// Model of a [`Schedule`]: its weeks.
pub type ScheduleView = Seq<Seq<Seq<Option<LessonView>>>>;

impl View for Subgroup {
    type V = SubgroupView;

    open spec fn view(&self) -> SubgroupView {
        SubgroupView { room: self.room@, teacher: self.teacher@ }
    }
}

impl DeepView for Subgroup {
    type V = SubgroupView;

    open spec fn deep_view(&self) -> SubgroupView {
        self.view()
    }
}

impl View for Lesson {
    type V = LessonView;

    open spec fn view(&self) -> LessonView {
        match *self {
            Lesson::CommonLesson { teacher, group, room, name } => LessonView::CommonLesson {
                teacher: teacher@,
                group: group@,
                room: room@,
                name: name@,
            },
            Lesson::SubgroupedLesson { name, subgroups } => LessonView::SubgroupedLesson {
                name: name@,
                subgroups: subgroups.deep_view(),
            },
        }
    }
}

impl DeepView for Lesson {
    type V = LessonView;

    open spec fn deep_view(&self) -> LessonView {
        self.view()
    }
}

impl View for Day {
    type V = DayView;

    open spec fn view(&self) -> DayView {
        self.lessons.deep_view()
    }
}

impl DeepView for Day {
    type V = DayView;

    open spec fn deep_view(&self) -> DayView {
        self.view()
    }
}

impl View for Week {
    type V = WeekView;

    open spec fn view(&self) -> WeekView {
        self.days.deep_view()
    }
}

impl DeepView for Week {
    type V = WeekView;

    open spec fn deep_view(&self) -> WeekView {
        self.view()
    }
}

impl View for Schedule {
    type V = ScheduleView;

    open spec fn view(&self) -> ScheduleView {
        self.weeks.deep_view()
    }
}

impl DeepView for Schedule {
    type V = ScheduleView;

    open spec fn deep_view(&self) -> ScheduleView {
        self.view()
    }
}

/// The session that a line of at least five words describes: two words of
/// prefix, two of the teacher's name, one of the room.
pub open spec fn subgroup_of(tokens: Seq<Seq<char>>) -> SubgroupView {
    SubgroupView { room: tokens[4], teacher: tokens[2] + seq![' '] + tokens[3] }
}

impl LessonView {
    /// A lesson in subgroups has exactly two of them.
    pub open spec fn wf(self) -> bool {
        self matches LessonView::SubgroupedLesson { subgroups, .. } ==> subgroups.len() == 2
    }
}

impl Subgroup {
    /// Reads a session from the words of its line: the third and fourth word
    /// are the teacher, the fifth is the room.
    pub fn from(thing: Vec<&str>) -> (r: Subgroup)
        requires
            thing.len() >= 5,
        ensures
            r@ == subgroup_of(thing.deep_view()),
    {
        let room = String::from_str(thing[4]);
        let mut teacher = String::from_str(thing[2]);
        teacher.append(" ");
        teacher.append(thing[3]);
        proof {
            reveal_strlit(" ");
            assert(" "@ =~= seq![' ']);
        }
        Subgroup { room, teacher }
    }
}

} // verus!
