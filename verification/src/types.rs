//! The parties a timetable page can belong to, and the index of their names.

use vstd::prelude::*;

verus! {

/// What a page describes: the week of a teacher or that of a student group.
#[derive(Debug, Clone, Copy, PartialEq, Eq, Structural)]
pub enum ItemType {
    Teacher,
    Group,
}

/// The owner of a page: its display name and what it is.
#[derive(Debug, Clone, PartialEq, Eq)]
pub struct Entity {
    pub name: String,
    pub kind: ItemType,
}

/// Mathematical model of an [`Entity`].
pub struct EntityView {
    pub name: Seq<char>,
    pub kind: ItemType,
}

impl View for Entity {
    type V = EntityView;

    open spec fn view(&self) -> EntityView {
        EntityView { name: self.name@, kind: self.kind }
    }
}

impl DeepView for Entity {
    type V = EntityView;

    open spec fn deep_view(&self) -> EntityView {
        self.view()
    }
}

/// The names met in an archive, teachers and groups apart.
#[derive(Debug, Clone, PartialEq, Eq)]
pub struct Items {
    pub teachers: Vec<String>,
    pub groups: Vec<String>,
}

/// Mathematical model of [`Items`].
pub struct ItemsView {
    pub teachers: Seq<Seq<char>>,
    pub groups: Seq<Seq<char>>,
}

impl View for Items {
    type V = ItemsView;

    open spec fn view(&self) -> ItemsView {
        ItemsView { teachers: self.teachers.deep_view(), groups: self.groups.deep_view() }
    }
}

impl DeepView for Items {
    type V = ItemsView;

    open spec fn deep_view(&self) -> ItemsView {
        self.view()
    }
}

} // verus!
