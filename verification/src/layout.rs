//! Rows of windows: columns side by side, each holding one window or several.

use crate::platform::{Entity, WorkspaceId};
use crate::seqs::{gather, lemma_gather_step};
use vstd::prelude::*;

verus! {

/// One place of a stack: a window, or native tabs that share a frame.
#[derive(Clone, Debug, PartialEq, Eq)]
pub enum StackItem {
    Single(Entity),
    Tabs(Vec<Entity>),
}

/// One column of a row.
#[derive(Clone, Debug, PartialEq, Eq)]
pub enum Column {
    Single(Entity),
    Stack(Vec<StackItem>),
    Tabs(Vec<Entity>),
    Fullscreen(Entity),
}

/// One row of a native space: what it lays out, and what it owns besides.
#[derive(Clone, Debug, PartialEq, Eq)]
pub struct LayoutStrip {
    /// The native space that the row is on.
    pub id: WorkspaceId,
    /// Where the row comes among the rows of its space.
    pub virtual_index: u32,
    /// The windows that are laid out.
    pub columns: Vec<Column>,
    /// The windows that the row owns without laying them out.
    pub detached: Vec<Entity>,
}

impl StackItem {
    /// The windows of this place, topmost first.
    pub open spec fn members(self) -> Seq<Entity> {
        match self {
            StackItem::Single(entity) => seq![entity],
            StackItem::Tabs(tabs) => tabs@,
        }
    }
}

/// The windows of a place in a stack, as a function.
pub open spec fn item_members() -> spec_fn(StackItem) -> Seq<Entity> {
    |item: StackItem| item.members()
}

impl Column {
    /// The windows of the column, topmost first.
    pub open spec fn members(self) -> Seq<Entity> {
        match self {
            Column::Single(entity) => seq![entity],
            Column::Stack(items) => gather(items@, item_members()),
            Column::Tabs(tabs) => tabs@,
            Column::Fullscreen(entity) => seq![entity],
        }
    }

    /// The windows of the column, topmost first.
    pub fn windows(&self) -> (windows: Vec<Entity>)
        ensures
            windows@ == self.members(),
    {
        let mut windows: Vec<Entity> = Vec::new();
        match self {
            Column::Single(entity) => {
                windows.push(*entity);
            },
            Column::Fullscreen(entity) => {
                windows.push(*entity);
            },
            Column::Tabs(tabs) => {
                append_all(&mut windows, tabs);
                assert(windows@ =~= tabs@);
            },
            Column::Stack(items) => {
                let mut i: usize = 0;
                assert(items@.take(0) =~= Seq::<StackItem>::empty());
                while i < items.len()
                    invariant
                        i <= items.len(),
                        windows@ == gather(items@.take(i as int), item_members()),
                    decreases items.len() - i,
                {
                    proof {
                        lemma_gather_step(items@, item_members(), i as int);
                    }
                    match &items[i] {
                        StackItem::Single(entity) => {
                            windows.push(*entity);
                        },
                        StackItem::Tabs(tabs) => {
                            append_all(&mut windows, tabs);
                        },
                    }
                    assert(windows@ =~= gather(items@.take(i + 1), item_members()));
                    i = i + 1;
                }
                assert(items@.take(i as int) =~= items@);
            },
        }
        windows
    }

    /// The window on top of the column.
    pub fn top(&self) -> (top: Option<Entity>)
        ensures
            top == (if self.members().len() > 0 {
                Some(self.members()[0])
            } else {
                None
            }),
    {
        let windows = self.windows();
        if windows.len() > 0 {
            Some(windows[0])
        } else {
            None
        }
    }
}

/// The windows of a column, as a function.
pub open spec fn column_members() -> spec_fn(Column) -> Seq<Entity> {
    |column: Column| column.members()
}

impl LayoutStrip {
    /// The windows that the row lays out, column by column.
    pub open spec fn laid_out(self) -> Seq<Entity> {
        gather(self.columns@, column_members())
    }

    /// Every window that the row owns: first those laid out, then the others.
    pub open spec fn owned(self) -> Seq<Entity> {
        self.laid_out() + self.detached@
    }

    /// The windows that the row lays out, column by column.
    pub fn all_windows(&self) -> (windows: Vec<Entity>)
        ensures
            windows@ == self.laid_out(),
    {
        let mut windows: Vec<Entity> = Vec::new();
        let mut i: usize = 0;
        assert(self.columns@.take(0) =~= Seq::<Column>::empty());
        while i < self.columns.len()
            invariant
                i <= self.columns.len(),
                windows@ == gather(self.columns@.take(i as int), column_members()),
            decreases self.columns.len() - i,
        {
            proof {
                lemma_gather_step(self.columns@, column_members(), i as int);
            }
            append_all(&mut windows, &self.columns[i].windows());
            i = i + 1;
        }
        assert(self.columns@.take(i as int) =~= self.columns@);
        windows
    }

    /// Every window that the row owns: first those laid out, then the others.
    pub fn held_windows(&self) -> (windows: Vec<Entity>)
        ensures
            windows@ == self.owned(),
    {
        let mut windows = self.all_windows();
        append_all(&mut windows, &self.detached);
        windows
    }
}

/// Appends every entity of `more`.
pub(crate) fn append_all(list: &mut Vec<Entity>, more: &Vec<Entity>)
    ensures
        final(list)@ == old(list)@ + more@,
{
    let ghost start = list@;
    let mut i: usize = 0;
    while i < more.len()
        invariant
            i <= more.len(),
            list@ == start + more@.take(i as int),
        decreases more.len() - i,
    {
        list.push(more[i]);
        i = i + 1;
        assert(list@ =~= start + more@.take(i as int));
    }
    assert(more@.take(i as int) =~= more@);
}

} // verus!
