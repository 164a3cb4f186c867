//! Telling teachers' pages from groups' pages by their title.

use vstd::prelude::*;
use crate::text::{contains_char, same_text};
use crate::types::{Entity, EntityView, ItemType};

verus! {

/// The title of a page for a position that nobody holds.
pub open spec fn vacancy_marker() -> Seq<char> {
    seq![
        '\u{412}',
        '\u{410}',
        '\u{41a}',
        '\u{410}',
        '\u{41d}',
        '\u{421}',
        '\u{418}',
        '\u{42f}',
    ]
}

/// Titles that stand for no entity: a lone period and the vacancy marker.
pub open spec fn is_placeholder(title: Seq<char>) -> bool {
    title == seq!['.'] || title == vacancy_marker()
}

/// A teacher's name is abbreviated and so holds a period; a group's never
/// does.
pub open spec fn kind_of(title: Seq<char>) -> ItemType {
    if title.contains('.') {
        ItemType::Teacher
    } else {
        ItemType::Group
    }
}

/// The entity that a normalized title names, if it names one.
pub open spec fn classified(title: Seq<char>) -> Option<EntityView> {
    if is_placeholder(title) {
        None
    } else {
        Some(EntityView { name: title, kind: kind_of(title) })
    }
}

/// Decides from the normalized title of a page whose page it is. Placeholder
/// titles give `None`: such a page is to be skipped.
pub fn classify(title: &str) -> (r: Option<Entity>)
    ensures
        r.deep_view() == classified(title@),
{
    proof {
        reveal_strlit(".");
        reveal_strlit("ВАКАНСИЯ");
        assert("."@ =~= seq!['.']);
        assert("ВАКАНСИЯ"@ =~= vacancy_marker());
    }
    if same_text(title, ".") || same_text(title, "ВАКАНСИЯ") {
        return None;
    }
    let kind = if contains_char(title, '.') {
        ItemType::Teacher
    } else {
        ItemType::Group
    };
    Some(Entity { name: String::from_str(title), kind })
}

/// Any title with a period, other than the lone period, is a teacher's; any
/// title without one, other than the vacancy marker, is a group's; the two
/// placeholders name nobody.
pub proof fn lemma_classified_by_period(title: Seq<char>)
    ensures
        title.contains('.') && title != seq!['.'] ==> classified(title) == Some(
            EntityView { name: title, kind: ItemType::Teacher },
        ),
        !title.contains('.') && title != vacancy_marker() ==> classified(title) == Some(
            EntityView { name: title, kind: ItemType::Group },
        ),
        classified(seq!['.']) is None,
        classified(vacancy_marker()) is None,
{
    if title == seq!['.'] {
        assert(title[0] == '.');
    }
}

} // verus!
