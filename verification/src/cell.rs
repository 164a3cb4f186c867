//! Reading one table cell: from the text nodes of the cell to a lesson slot.

use vstd::prelude::*;
use crate::schedule::{subgroup_of, Lesson, LessonView, Subgroup};
use crate::text::{is_space, lemma_blank_has_no_words, lemma_word_is_normal, normalize, normalized,
    same_text, split_whitespace, words};
use crate::types::{Entity, EntityView, ItemType};

verus! {

/// Why a cell that holds a lesson could not be read.
#[derive(Debug, Clone, Copy, PartialEq, Eq, Structural)]
pub enum CellError {
    /// A teacher's cell ends after the group: the lesson's name is missing.
    MissingName,
    /// A teacher's cell ends after the lesson's name: the room is missing.
    MissingRoom,
    /// A group's cell ends after the lesson's name.
    MissingSecondLine,
    /// The only line after the name has fewer than three words.
    ShortLessonLine,
    /// One of the two subgroup lines has fewer than five words.
    ShortSubgroupLine,
}

/// The text nodes that count: a first node that is a lone line break is an
/// artifact of the markup and is left out.
pub open spec fn content(lines: Seq<Seq<char>>) -> Seq<Seq<char>> {
    if lines.len() > 0 && lines[0] == seq!['\n'] {
        lines.drop_first()
    } else {
        lines
    }
}

/// The texts that mark a slot as free.
pub open spec fn is_free_marker(text: Seq<char>) -> bool {
    ||| text.len() == 0
    ||| text == seq!['-']
    ||| text == seq!['_']
    ||| text == seq![' ']
}

/// A cell holds no lesson when nothing counts in it or when its first text
/// that counts, normalized, is a free marker.
pub open spec fn is_free(lines: Seq<Seq<char>>) -> bool {
    let c = content(lines);
    c.len() == 0 || is_free_marker(normalized(c[0]))
}

/// The lesson on a teacher's page: group, name and room, one text node each.
pub open spec fn teacher_lesson(c: Seq<Seq<char>>, teacher: Seq<char>) -> Result<
    LessonView,
    CellError,
> {
    if c.len() < 2 {
        Err(CellError::MissingName)
    } else if c.len() < 3 {
        Err(CellError::MissingRoom)
    } else {
        Ok(
            LessonView::CommonLesson {
                teacher,
                group: normalized(c[0]),
                room: normalized(c[2]),
                name: normalized(c[1]),
            },
        )
    }
}

/// The lesson on a group's page: the name, then either one line with the
/// teacher's two names and the room, or two lines, one for each subgroup.
pub open spec fn group_lesson(c: Seq<Seq<char>>, group: Seq<char>) -> Result<
    LessonView,
    CellError,
> {
    if c.len() < 2 {
        Err(CellError::MissingSecondLine)
    } else if c.len() >= 3 {
        let second = words(c[1]);
        let third = words(c[2]);
        if second.len() < 5 || third.len() < 5 {
            Err(CellError::ShortSubgroupLine)
        } else {
            Ok(
                LessonView::SubgroupedLesson {
                    name: normalized(c[0]),
                    subgroups: seq![subgroup_of(second), subgroup_of(third)],
                },
            )
        }
    } else {
        let second = words(c[1]);
        if second.len() < 3 {
            Err(CellError::ShortLessonLine)
        } else {
            Ok(
                LessonView::CommonLesson {
                    teacher: second[0] + seq![' '] + second[1],
                    group,
                    room: second[2],
                    name: normalized(c[0]),
                },
            )
        }
    }
}

/// What the text nodes `lines` of a cell on the page of `entity` stand for:
/// a free slot, a lesson, or an error where the cell is cut short.
pub open spec fn interpreted(lines: Seq<Seq<char>>, entity: EntityView) -> Result<
    Option<LessonView>,
    CellError,
> {
    if is_free(lines) {
        Ok(None)
    } else {
        let lesson = match entity.kind {
            ItemType::Teacher => teacher_lesson(content(lines), entity.name),
            ItemType::Group => group_lesson(content(lines), entity.name),
        };
        match lesson {
            Ok(l) => Ok(Some(l)),
            Err(e) => Err(e),
        }
    }
}

/// Model of a result: the model of what was read, or the error as it is.
pub open spec fn viewed<T: DeepView, E>(r: Result<T, E>) -> Result<T::V, E> {
    match r {
        Ok(value) => Ok(value.deep_view()),
        Err(e) => Err(e),
    }
}

/// Whether `text` is one of the markers of a free slot.
pub fn is_free_text(text: &str) -> (b: bool)
    ensures
        b == is_free_marker(text@),
{
    proof {
        reveal_strlit("");
        reveal_strlit("-");
        reveal_strlit("_");
        reveal_strlit(" ");
        assert(""@ =~= Seq::<char>::empty());
        assert("-"@ =~= seq!['-']);
        assert("_"@ =~= seq!['_']);
        assert(" "@ =~= seq![' ']);
        assert(text@.len() == 0 <==> text@ =~= Seq::<char>::empty());
    }
    same_text(text, "") || same_text(text, "-") || same_text(text, "_") || same_text(text, " ")
}

/// Reads one cell of the page of `entity` from its text nodes, given in
/// document order.
pub fn interpret(lines: &Vec<String>, entity: &Entity) -> (r: Result<Option<Lesson>, CellError>)
    ensures
        viewed(r) == interpreted(lines.deep_view(), entity@),
{
    let n = lines.len();
    proof {
        reveal_strlit("\n");
        reveal_strlit(" ");
        assert("\n"@ =~= seq!['\n']);
        assert(" "@ =~= seq![' ']);
    }
    let start: usize = if n > 0 && same_text(lines[0].as_str(), "\n") {
        1
    } else {
        0
    };
    let ghost c = content(lines.deep_view());
    if start >= n {
        return Ok(None);
    }
    let first = normalize(lines[start].as_str());
    if is_free_text(first.as_str()) {
        return Ok(None);
    }
    let count = n - start;
    match entity.kind {
        ItemType::Teacher => {
            if count < 2 {
                return Err(CellError::MissingName);
            }
            if count < 3 {
                return Err(CellError::MissingRoom);
            }
            let name = normalize(lines[start + 1].as_str());
            let room = normalize(lines[start + 2].as_str());
            Ok(
                Some(
                    Lesson::CommonLesson { teacher: entity.name.clone(), group: first, room, name },
                ),
            )
        },
        ItemType::Group => {
            if count < 2 {
                return Err(CellError::MissingSecondLine);
            }
            let second = split_whitespace(lines[start + 1].as_str());
            if count >= 3 {
                let third = split_whitespace(lines[start + 2].as_str());
                if second.len() < 5 || third.len() < 5 {
                    return Err(CellError::ShortSubgroupLine);
                }
                let mut subgroups: Vec<Subgroup> = Vec::new();
                subgroups.push(Subgroup::from(second));
                subgroups.push(Subgroup::from(third));
                assert(subgroups.deep_view() =~= seq![
                    subgroup_of(words(c[1])),
                    subgroup_of(words(c[2])),
                ]);
                Ok(Some(Lesson::SubgroupedLesson { name: first, subgroups }))
            } else {
                if second.len() < 3 {
                    return Err(CellError::ShortLessonLine);
                }
                let mut teacher = String::from_str(second[0]);
                teacher.append(" ");
                teacher.append(second[1]);
                let room = String::from_str(second[2]);
                Ok(
                    Some(
                        Lesson::CommonLesson {
                            teacher,
                            group: entity.name.clone(),
                            room,
                            name: first,
                        },
                    ),
                )
            }
        },
    }
}

/// Whether a cell begins with something that marks a free slot: nothing at
/// all, a dash, an underscore, or text that is all whitespace.
pub open spec fn starts_free(lines: Seq<Seq<char>>) -> bool {
    ||| lines.len() == 0
    ||| lines[0] == seq!['-']
    ||| lines[0] == seq!['_']
    ||| forall|k: int| 0 <= k < lines[0].len() ==> is_space(#[trigger] lines[0][k])
}

/// Whether a cell begins with a lone line break that is followed by the
/// text of a lesson. The line break is then no marker but an artifact, and
/// the cell is read from its second node on.
pub open spec fn starts_with_stray_break(lines: Seq<Seq<char>>) -> bool {
    &&& lines.len() >= 2
    &&& lines[0] == seq!['\n']
    &&& !is_free_marker(normalized(lines[1]))
}

/// A cell that begins with a marker of a free slot is a free slot, whoever
/// owns the page, unless the marker is a stray line break before a lesson.
pub proof fn lemma_free_marker_gives_free_slot(lines: Seq<Seq<char>>, entity: EntityView)
    requires
        starts_free(lines),
        !starts_with_stray_break(lines),
    ensures
        interpreted(lines, entity) == Ok::<Option<LessonView>, CellError>(None),
{
    if lines.len() > 0 {
        let first = lines[0];
        if first == seq!['-'] || first == seq!['_'] {
            lemma_word_is_normal(first);
        } else if first != seq!['\n'] {
            lemma_blank_has_no_words(first);
        }
    }
}

/// A lesson that was read is well formed, and the owner of the page stands
/// in it as itself: as the teacher on a teacher's page, as the group of an
/// undivided lesson on a group's page.
pub proof fn lemma_lesson_names_owner(lines: Seq<Seq<char>>, entity: EntityView)
    ensures
        match interpreted(lines, entity) {
            Ok(Some(lesson)) => {
                &&& lesson.wf()
                &&& entity.kind == ItemType::Teacher ==> (lesson matches LessonView::CommonLesson {
                    teacher,
                    ..
                } && teacher == entity.name)
                &&& entity.kind == ItemType::Group ==> (lesson matches LessonView::CommonLesson {
                    group,
                    ..
                } ==> group == entity.name)
            },
            _ => true,
        },
{
}

} // verus!
