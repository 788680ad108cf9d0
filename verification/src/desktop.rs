//! Everything that a query looks at, in one place.

use crate::platform::{CGDirectDisplayID, Entity, WinID, WorkspaceId};
use crate::seqs::distinct;
use crate::spaces::{
    is_held, live_on, live_windows, looks_up, on_space, row_spaces, spaces_asked, still_on_space,
    LiveSpaces, QueryRow, Reply,
};
use crate::world::{
    application_of, find_application, lemma_overlaps_fit, visibility, window_visibility,
    Application, Display, Unmanaged, Window, Windows,
};
use std::collections::HashSet;
use vstd::prelude::*;

verus! {

broadcast use vstd::std_specs::hash::group_hash_axioms;

/// Everything that a query looks at, borrowed.
pub struct Desktop<'a> {
    pub rows: &'a Vec<QueryRow>,
    pub displays: &'a Vec<Display>,
    pub windows: &'a Windows,
    pub apps: &'a Vec<Application>,
    pub sliver_width: i32,
}

/// Everything that a query looks at.
pub struct DesktopView {
    pub rows: Seq<QueryRow>,
    pub displays: Seq<Display>,
    pub windows: Windows,
    pub apps: Seq<Application>,
    /// How much of a window has to show for it to count as visible.
    pub sliver_width: i32,
}

impl<'a> View for Desktop<'a> {
    type V = DesktopView;

    open spec fn view(&self) -> DesktopView {
        DesktopView {
            rows: self.rows@,
            displays: self.displays@,
            windows: *self.windows,
            apps: self.apps@,
            sliver_width: self.sliver_width,
        }
    }
}

/// Whether a window is off the screen whatever its last known frame says.
pub open spec fn out_of_sight(window: Window) -> bool {
    window.unmanaged == Some(Unmanaged::Minimized) || window.unmanaged == Some(Unmanaged::Hidden)
}

impl DesktopView {
    /// Whether the number of every row fits: rows count from one.
    pub open spec fn numbers_fit(self) -> bool {
        forall|i: int|
            0 <= i < self.rows.len() ==> (#[trigger] self.rows[i]).strip.virtual_index < u32::MAX
    }

    /// Whether an entity is a window of a known application.
    pub open spec fn knows(self, entity: Entity) -> bool {
        self.windows.window_of(entity) matches Some(window) && (self.windows.parent_of(
            window.id,
        ) matches Some(parent) && application_of(self.apps, parent) is Some)
    }

    /// Whether the frame of an entity, if there is one to be told, has sides
    /// that can be told in 32 bits.
    pub open spec fn frame_fits(self, entity: Entity) -> bool {
        self.knows(entity) ==> (self.windows.window_of(entity)->0.frame matches Some(frame)
            ==> frame.sides_fit())
    }

    /// Whether the frames of all entities listed can be told.
    pub open spec fn frames_fit(self, entities: Seq<Entity>) -> bool {
        forall|i: int| 0 <= i < entities.len() ==> self.frame_fits(#[trigger] entities[i])
    }

    /// The spaces that the window server is asked about, in order.
    pub open spec fn plan(self) -> Seq<WorkspaceId> {
        spaces_asked(row_spaces(self.rows))
    }

    /// What is on each space that the window server was asked about.
    pub open spec fn live(self, replies: Seq<Reply>) -> Map<WorkspaceId, Seq<WinID>> {
        live_windows(self.plan(), replies)
    }

    /// Which display a window is on, and whether it shows there. Minimized and
    /// hidden windows are never on screen, whatever their last known frame says.
    pub open spec fn whereabouts(self, window: Window) -> Option<(CGDirectDisplayID, bool)> {
        match window.frame {
            None => None,
            Some(frame) => match visibility(frame, self.displays, self.sliver_width) {
                None => None,
                Some((display, visible)) => Some((display, visible && !out_of_sight(window))),
            },
        }
    }

    /// Recognises a float that may still be claimed by a row, because it is still
    /// on the space of the row.
    pub open spec fn parked(
        self,
        row: QueryRow,
        live: Map<WorkspaceId, Seq<WinID>>,
    ) -> spec_fn(Entity) -> bool {
        |entity: Entity|
            self.windows.floats(entity) && on_space(
                live_on(live, row.strip.id),
                entity,
                self.windows,
            )
    }

    /// Recognises a window that a row may go on listing where it is laid out:
    /// anything but a float that left the space of the row.
    pub open spec fn remains(
        self,
        row: QueryRow,
        live: Map<WorkspaceId, Seq<WinID>>,
    ) -> spec_fn(Entity) -> bool {
        |entity: Entity|
            !self.windows.floats(entity) || on_space(
                live_on(live, row.strip.id),
                entity,
                self.windows,
            )
    }

    /// The float of a number, unless some row already holds it, as a function.
    /// A floating window belongs to one row, and rows on the same space all see
    /// it.
    pub open spec fn stray(self, live: Map<WorkspaceId, Seq<WinID>>) -> spec_fn(
        WinID,
    ) -> Option<Entity> {
        |id: WinID|
            match self.windows.window_numbered(id) {
                None => None,
                Some(window) => if self.windows.floats(window.entity) && !is_held(
                    self.rows,
                    live,
                    self.windows,
                    window.entity,
                ) {
                    Some(window.entity)
                } else {
                    None
                },
            }
    }

    /// The space of a row, as a function.
    pub open spec fn space_of_row() -> spec_fn(QueryRow) -> WorkspaceId {
        |row: QueryRow| row.strip.id
    }

    /// The spaces that have a row, in the order of their first rows.
    pub open spec fn spaces(self) -> Seq<WorkspaceId> {
        distinct(self.rows.map_values(DesktopView::space_of_row()))
    }
}

impl<'a> Desktop<'a> {
    /// Which display a window is on, and whether it shows there.
    pub(crate) fn locate(&self, window: &Window) -> (place: Option<(CGDirectDisplayID, bool)>)
        requires
            window.frame matches Some(frame) ==> frame.sides_fit(),
        ensures
            place == self@.whereabouts(*window),
    {
        let hidden: bool = match window.unmanaged {
            Some(Unmanaged::Minimized) => true,
            Some(Unmanaged::Hidden) => true,
            _ => false,
        };
        match window.frame {
            None => None,
            Some(frame) => {
                proof {
                    lemma_overlaps_fit(frame, self.displays@);
                }
                match window_visibility(frame, self.displays, self.sliver_width) {
                    None => None,
                    Some((display, visible)) => Some((display, visible && !hidden)),
                }
            },
        }
    }

    /// Whether the number of every row fits.
    pub(crate) fn check_numbers(&self) -> (fit: bool)
        ensures
            fit == self@.numbers_fit(),
    {
        let mut i: usize = 0;
        while i < self.rows.len()
            invariant
                i <= self.rows.len(),
                forall|j: int|
                    0 <= j < i ==> (#[trigger] self@.rows[j]).strip.virtual_index < u32::MAX,
            decreases self.rows.len() - i,
        {
            if self.rows[i].strip.virtual_index == u32::MAX {
                assert(!(self@.rows[i as int].strip.virtual_index < u32::MAX));
                return false;
            }
            i = i + 1;
        }
        true
    }

    /// Whether the frame of an entity can be told.
    fn check_frame(&self, entity: Entity) -> (fit: bool)
        ensures
            fit == self@.frame_fits(entity),
    {
        let window = match self.windows.get(entity) {
            Some(window) => window,
            None => return true,
        };
        let parent: Entity = match self.windows.find_parent(window.id) {
            Some(parent) => parent,
            None => return true,
        };
        if find_application(self.apps, parent).is_none() {
            return true;
        }
        match &window.frame {
            Some(frame) => frame.check_sides(),
            None => true,
        }
    }

    /// Whether the frames of all entities listed can be told.
    pub(crate) fn check_frames(&self, entities: &Vec<Entity>) -> (fit: bool)
        ensures
            fit == self@.frames_fit(entities@),
    {
        let mut i: usize = 0;
        while i < entities.len()
            invariant
                i <= entities.len(),
                forall|j: int| 0 <= j < i ==> self@.frame_fits(#[trigger] entities@[j]),
            decreases entities.len() - i,
        {
            if !self.check_frame(entities[i]) {
                assert(!self@.frame_fits(entities@[i as int]));
                return false;
            }
            i = i + 1;
        }
        true
    }

    /// The floats among the windows listed that are still on the space of a row.
    pub(crate) fn parked_floats(
        &self,
        entities: &Vec<Entity>,
        row: &QueryRow,
        live: &LiveSpaces,
    ) -> (floats: Vec<Entity>)
        ensures
            floats@ == entities@.filter(self@.parked(*row, live@)),
    {
        let ghost keep = self@.parked(*row, live@);
        let on = live.ids(row.strip.id);
        let mut floats: Vec<Entity> = Vec::new();
        let mut i: usize = 0;
        proof {
            reveal(Seq::filter);
            assert(entities@.take(0) =~= Seq::<Entity>::empty());
        }
        while i < entities.len()
            invariant
                i <= entities.len(),
                keep == self@.parked(*row, live@),
                looks_up(on, live_on(live@, row.strip.id)),
                floats@ == entities@.take(i as int).filter(keep),
            decreases entities.len() - i,
        {
            proof {
                reveal(Seq::filter);
                assert(entities@.take(i + 1).drop_last() =~= entities@.take(i as int));
            }
            let entity: Entity = entities[i];
            if self.windows.is_floating(entity) && still_on_space(on, entity, self.windows) {
                floats.push(entity);
            }
            i = i + 1;
        }
        assert(entities@.take(i as int) =~= entities@);
        floats
    }

    /// What a row lays out, without the floats that left its space.
    pub(crate) fn remaining_windows(&self, row: &QueryRow, live: &LiveSpaces) -> (kept: Vec<Entity>)
        ensures
            kept@ == row.strip.laid_out().filter(self@.remains(*row, live@)),
    {
        let ghost keep = self@.remains(*row, live@);
        let on = live.ids(row.strip.id);
        let entities = row.strip.all_windows();
        let mut kept: Vec<Entity> = Vec::new();
        let mut i: usize = 0;
        proof {
            reveal(Seq::filter);
            assert(entities@.take(0) =~= Seq::<Entity>::empty());
        }
        while i < entities.len()
            invariant
                i <= entities.len(),
                keep == self@.remains(*row, live@),
                looks_up(on, live_on(live@, row.strip.id)),
                kept@ == entities@.take(i as int).filter(keep),
            decreases entities.len() - i,
        {
            proof {
                reveal(Seq::filter);
                assert(entities@.take(i + 1).drop_last() =~= entities@.take(i as int));
            }
            let entity: Entity = entities[i];
            if !self.windows.is_floating(entity) || still_on_space(on, entity, self.windows) {
                kept.push(entity);
            }
            i = i + 1;
        }
        assert(entities@.take(i as int) =~= entities@);
        kept
    }

    /// The floats among the windows listed that no row holds.
    pub(crate) fn stray_floats(
        &self,
        ids: &Vec<WinID>,
        live: &LiveSpaces,
        held: &HashSet<Entity>,
    ) -> (floats: Vec<Entity>)
        requires
            forall|entity: Entity| #![trigger held@.contains(entity)]
                held@.contains(entity) <==> is_held(
                    self.rows@,
                    live@,
                    *self.windows,
                    entity,
                ),
        ensures
            floats@ == ids@.filter_map(self@.stray(live@)),
    {
        let ghost stray = self@.stray(live@);
        let mut floats: Vec<Entity> = Vec::new();
        let mut i: usize = 0;
        assert(ids@.take(0) =~= Seq::<WinID>::empty());
        while i < ids.len()
            invariant
                i <= ids.len(),
                stray == self@.stray(live@),
                forall|entity: Entity| #![trigger held@.contains(entity)]
                    held@.contains(entity) <==> is_held(
                        self.rows@,
                        live@,
                        *self.windows,
                        entity,
                    ),
                floats@ == ids@.take(i as int).filter_map(stray),
            decreases ids.len() - i,
        {
            proof {
                ids@.lemma_filter_map_take_succ(stray, i as int);
            }
            if let Some(window) = self.windows.find(ids[i]) {
                let entity: Entity = window.entity;
                if self.windows.is_floating(entity) && !held.contains(&entity) {
                    floats.push(entity);
                }
            }
            i = i + 1;
            assert(floats@ =~= ids@.take(i as int).filter_map(stray));
        }
        assert(ids@.take(i as int) =~= ids@);
        floats
    }
}

} // verus!
