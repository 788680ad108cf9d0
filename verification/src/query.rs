//! The state document that clients query: every row with its windows, and what
//! is in use.

use crate::clock::{is_read_now, now_timestamp};
use crate::desktop::{Desktop, DesktopView};
use crate::geometry::Frame;
use crate::layout::append_all;
use crate::platform::{CGDirectDisplayID, Entity, WinID, WorkspaceId};
use crate::seqs::{
    by_rank, distinct, first_from, first_where, gather, insert_ranked, lemma_by_rank_push,
    lemma_distinct_push, lemma_gather_step, push_distinct, views, Ranked,
};
use crate::spaces::{
    active_space, active_workspace_id, check_reading, collect_spaces, held_windows, is_held,
    live_on, reading, row_shows, shows_row, spaces_to_ask, strip_visibility, LiveSpaces, QueryRow,
    Reply, Step,
};
use crate::world::{
    active_display, application_of, display_in_use, find_application, text_of, text_or_empty,
    Application, Display, Unmanaged, Windows,
};
use std::collections::HashSet;
use vstd::prelude::*;

verus! {

/// A window in the document.
#[derive(Clone, Debug, PartialEq, Eq)]
pub struct PaneruWindowState {
    pub window_id: WinID,
    pub bundle_id: String,
    pub app_name: String,
    pub title: String,
    pub focused: bool,
    pub floating: bool,
    pub display_id: Option<CGDirectDisplayID>,
    pub frame: Option<Frame>,
    pub visible: bool,
}

/// A row in the document.
#[derive(Clone, Debug, PartialEq, Eq)]
pub struct PaneruVirtualWorkspaceState {
    pub number: u32,
    pub native_workspace_id: WorkspaceId,
    pub active: bool,
    pub windows: Vec<PaneruWindowState>,
}

/// What is in use.
#[derive(Clone, Debug, PartialEq, Eq)]
pub struct PaneruActiveState {
    pub display_id: Option<CGDirectDisplayID>,
    pub native_workspace_id: Option<WorkspaceId>,
    pub virtual_workspace_number: Option<u32>,
    pub focused_window_id: Option<WinID>,
    pub focused_bundle_id: Option<String>,
    pub focused_app_name: Option<String>,
    pub focused_window_title: Option<String>,
}

/// The whole document.
#[derive(Clone, Debug, PartialEq, Eq)]
pub struct PaneruQueryState {
    pub version: u32,
    pub timestamp: u64,
    pub active: PaneruActiveState,
    pub virtual_workspaces: Vec<PaneruVirtualWorkspaceState>,
}

/// The contents of a [`PaneruWindowState`].
pub struct PaneruWindowStateView {
    pub window_id: WinID,
    pub bundle_id: Seq<char>,
    pub app_name: Seq<char>,
    pub title: Seq<char>,
    pub focused: bool,
    pub floating: bool,
    pub display_id: Option<CGDirectDisplayID>,
    pub frame: Option<Frame>,
    pub visible: bool,
}

/// The contents of a [`PaneruVirtualWorkspaceState`].
pub struct PaneruVirtualWorkspaceStateView {
    pub number: u32,
    pub native_workspace_id: WorkspaceId,
    pub active: bool,
    pub windows: Seq<PaneruWindowStateView>,
}

/// The contents of a [`PaneruActiveState`].
pub struct PaneruActiveStateView {
    pub display_id: Option<CGDirectDisplayID>,
    pub native_workspace_id: Option<WorkspaceId>,
    pub virtual_workspace_number: Option<u32>,
    pub focused_window_id: Option<WinID>,
    pub focused_bundle_id: Option<Seq<char>>,
    pub focused_app_name: Option<Seq<char>>,
    pub focused_window_title: Option<Seq<char>>,
}

/// The contents of a [`PaneruQueryState`].
pub struct PaneruQueryStateView {
    pub version: u32,
    pub timestamp: u64,
    pub active: PaneruActiveStateView,
    pub virtual_workspaces: Seq<PaneruVirtualWorkspaceStateView>,
}

impl View for PaneruWindowState {
    type V = PaneruWindowStateView;

    open spec fn view(&self) -> PaneruWindowStateView {
        PaneruWindowStateView {
            window_id: self.window_id,
            bundle_id: self.bundle_id@,
            app_name: self.app_name@,
            title: self.title@,
            focused: self.focused,
            floating: self.floating,
            display_id: self.display_id,
            frame: self.frame,
            visible: self.visible,
        }
    }
}

impl View for PaneruVirtualWorkspaceState {
    type V = PaneruVirtualWorkspaceStateView;

    open spec fn view(&self) -> PaneruVirtualWorkspaceStateView {
        PaneruVirtualWorkspaceStateView {
            number: self.number,
            native_workspace_id: self.native_workspace_id,
            active: self.active,
            windows: views(self.windows@),
        }
    }
}

/// The contents of text that may be missing.
pub open spec fn text_view(text: Option<String>) -> Option<Seq<char>> {
    match text {
        Some(text) => Some(text@),
        None => None,
    }
}

impl View for PaneruActiveState {
    type V = PaneruActiveStateView;

    open spec fn view(&self) -> PaneruActiveStateView {
        PaneruActiveStateView {
            display_id: self.display_id,
            native_workspace_id: self.native_workspace_id,
            virtual_workspace_number: self.virtual_workspace_number,
            focused_window_id: self.focused_window_id,
            focused_bundle_id: text_view(self.focused_bundle_id),
            focused_app_name: text_view(self.focused_app_name),
            focused_window_title: text_view(self.focused_window_title),
        }
    }
}

impl View for PaneruQueryState {
    type V = PaneruQueryStateView;

    open spec fn view(&self) -> PaneruQueryStateView {
        PaneruQueryStateView {
            version: self.version,
            timestamp: self.timestamp,
            active: self.active@,
            virtual_workspaces: views(self.virtual_workspaces@),
        }
    }
}

impl Ranked for PaneruVirtualWorkspaceState {
    open spec fn rank(row: PaneruVirtualWorkspaceStateView) -> (int, int) {
        (row.native_workspace_id as int, row.number as int)
    }

    fn ranks_before(&self, other: &PaneruVirtualWorkspaceState) -> (earlier: bool) {
        self.native_workspace_id < other.native_workspace_id || (self.native_workspace_id
            == other.native_workspace_id && self.number < other.number)
    }
}

/// The number of a row: rows count from one.
pub open spec fn row_number(row: QueryRow) -> u32 {
    (row.strip.virtual_index + 1) as u32
}

/// Recognises the window that has the focus.
pub open spec fn has_focus() -> spec_fn(PaneruWindowStateView) -> bool {
    |window: PaneruWindowStateView| window.focused
}

/// The row in use: the last one marked so.
pub open spec fn last_active(rows: Seq<QueryRow>) -> Option<QueryRow>
    decreases rows.len(),
{
    if rows.len() == 0 {
        None
    } else if rows.last().active {
        Some(rows.last())
    } else {
        last_active(rows.drop_last())
    }
}

/// Whether some row of space `id` has this number.
pub open spec fn has_number(rows: Seq<QueryRow>, id: WorkspaceId, number: int) -> bool {
    exists|i: int|
        0 <= i < rows.len() && (#[trigger] rows[i]).strip.id == id && row_number(rows[i]) == number
}

/// The largest number of a row of space `id`; 0 where it has none.
pub open spec fn largest_number(rows: Seq<QueryRow>, id: WorkspaceId) -> nat
    decreases rows.len(),
{
    if rows.len() == 0 {
        0
    } else {
        let rest = largest_number(rows.drop_last(), id);
        if rows.last().strip.id == id && row_number(rows.last()) > rest {
            row_number(rows.last()) as nat
        } else {
            rest
        }
    }
}

/// A row that is missing: it has no windows.
pub open spec fn missing_row(id: WorkspaceId, number: nat) -> PaneruVirtualWorkspaceStateView {
    PaneruVirtualWorkspaceStateView {
        number: number as u32,
        native_workspace_id: id,
        active: false,
        windows: Seq::empty(),
    }
}

/// The rows of space `id` that are missing up to a number.
pub open spec fn missing_to(rows: Seq<QueryRow>, id: WorkspaceId, number: nat) -> Seq<
    PaneruVirtualWorkspaceStateView,
>
    decreases number,
{
    if number == 0 {
        Seq::empty()
    } else {
        let rest = missing_to(rows, id, (number - 1) as nat);
        if has_number(rows, id, number as int) {
            rest
        } else {
            rest.push(missing_row(id, number))
        }
    }
}

/// The rows of a space that are missing below its largest number, as a function.
pub open spec fn missing_on(rows: Seq<QueryRow>) -> spec_fn(WorkspaceId) -> Seq<
    PaneruVirtualWorkspaceStateView,
> {
    |id: WorkspaceId| missing_to(rows, id, largest_number(rows, id))
}

impl DesktopView {
    /// What the document says of an entity: nothing where it is no window or its
    /// application is unknown.
    pub open spec fn window_state(self, entity: Entity) -> Option<PaneruWindowStateView> {
        match self.windows.window_of(entity) {
            None => None,
            Some(window) => match self.windows.parent_of(window.id) {
                None => None,
                Some(parent) => match application_of(self.apps, parent) {
                    None => None,
                    Some(app) => Some(
                        PaneruWindowStateView {
                            window_id: window.id,
                            bundle_id: text_or_empty(app.bundle_id),
                            app_name: app.name@,
                            title: text_or_empty(window.title),
                            focused: self.windows.focused == Some(entity),
                            floating: window.unmanaged == Some(Unmanaged::Floating),
                            display_id: match self.whereabouts(window) {
                                Some((display, _)) => Some(display),
                                None => None,
                            },
                            frame: match window.frame {
                                Some(frame) => Some(frame.as_frame()),
                                None => None,
                            },
                            visible: self.whereabouts(window) matches Some((_, visible)) && visible,
                        },
                    ),
                },
            },
        }
    }

    /// What the document says of an entity, as a function.
    pub open spec fn window_stater(self) -> spec_fn(Entity) -> Option<PaneruWindowStateView> {
        |entity: Entity| self.window_state(entity)
    }

    /// The floats that a row shows although no row holds them.
    pub open spec fn strays_on(self, row: QueryRow, live: Map<WorkspaceId, Seq<WinID>>) -> Seq<
        Entity,
    > {
        if row_shows(row, self.rows) {
            match live_on(live, row.strip.id) {
                Some(ids) => ids.filter_map(self.stray(live)),
                None => Seq::empty(),
            }
        } else {
            Seq::empty()
        }
    }

    /// Everything on a row: what it lays out, the floats it owns besides, and
    /// the floats on its space that no row holds. A float that left the space of
    /// the row is not on the row, laid out or not.
    pub open spec fn row_members(self, row: QueryRow, live: Map<WorkspaceId, Seq<WinID>>) -> Seq<
        Entity,
    > {
        row.strip.laid_out().filter(self.remains(row, live)) + row.strip.detached@.filter(
            self.parked(row, live),
        ) + self.strays_on(row, live)
    }

    /// What the document says of the windows of a row.
    pub open spec fn row_windows(self, row: QueryRow, live: Map<WorkspaceId, Seq<WinID>>) -> Seq<
        PaneruWindowStateView,
    > {
        self.row_members(row, live).filter_map(self.window_stater())
    }

    /// What the document says of a row, as a function.
    pub open spec fn row_stater(self, live: Map<WorkspaceId, Seq<WinID>>) -> spec_fn(
        QueryRow,
    ) -> PaneruVirtualWorkspaceStateView {
        |row: QueryRow|
            PaneruVirtualWorkspaceStateView {
                number: row_number(row),
                native_workspace_id: row.strip.id,
                active: row.active,
                windows: self.row_windows(row, live),
            }
    }

    /// The window in use among the first rows: the one that has the focus on the
    /// last row in use that has one.
    pub open spec fn focus_among(
        self,
        rows: Seq<QueryRow>,
        live: Map<WorkspaceId, Seq<WinID>>,
    ) -> Option<PaneruWindowStateView>
        decreases rows.len(),
    {
        if rows.len() == 0 {
            None
        } else {
            let rest = self.focus_among(rows.drop_last(), live);
            if rows.last().active {
                match first_where(self.row_windows(rows.last(), live), has_focus()) {
                    Some(window) => Some(window),
                    None => rest,
                }
            } else {
                rest
            }
        }
    }

    /// What is in use, by the first rows.
    pub open spec fn in_use_among(
        self,
        rows: Seq<QueryRow>,
        live: Map<WorkspaceId, Seq<WinID>>,
    ) -> PaneruActiveStateView {
        let row = last_active(rows);
        let focus = self.focus_among(rows, live);
        PaneruActiveStateView {
            display_id: display_in_use(self.displays),
            native_workspace_id: match row {
                Some(row) => Some(row.strip.id),
                None => None,
            },
            virtual_workspace_number: match row {
                Some(row) => Some(row_number(row)),
                None => None,
            },
            focused_window_id: match focus {
                Some(window) => Some(window.window_id),
                None => None,
            },
            focused_bundle_id: match focus {
                Some(window) => Some(window.bundle_id),
                None => None,
            },
            focused_app_name: match focus {
                Some(window) => Some(window.app_name),
                None => None,
            },
            focused_window_title: match focus {
                Some(window) => Some(window.title),
                None => None,
            },
        }
    }

    /// Every row of every space, those missing included, in any order.
    pub open spec fn unordered_rows(self, live: Map<WorkspaceId, Seq<WinID>>) -> Seq<
        PaneruVirtualWorkspaceStateView,
    > {
        self.rows.map_values(self.row_stater(live)) + gather(self.spaces(), missing_on(self.rows))
    }

    /// Whether every number in the document fits.
    pub open spec fn fits(self, live: Map<WorkspaceId, Seq<WinID>>) -> bool {
        &&& self.numbers_fit()
        &&& forall|i: int|
            0 <= i < self.rows.len() ==> self.frames_fit(
                self.row_members(#[trigger] self.rows[i], live),
            )
    }

    /// Whether the document, once these answers allow to build it, has no number
    /// that does not fit.
    pub open spec fn can_describe(self, replies: Seq<Reply>) -> bool {
        reading(self.plan(), replies) == Step::<()>::Ready(()) ==> self.fits(self.live(replies))
    }

    /// The document, given what is on each space.
    pub open spec fn document(
        self,
        live: Map<WorkspaceId, Seq<WinID>>,
        timestamp: u64,
    ) -> PaneruQueryStateView {
        PaneruQueryStateView {
            version: 1,
            timestamp,
            active: self.in_use_among(self.rows, live),
            virtual_workspaces: by_rank::<PaneruVirtualWorkspaceState>(self.unordered_rows(live)),
        }
    }
}

impl<'a> Desktop<'a> {
    /// What the document says of an entity.
    fn state_of(&self, entity: Entity) -> (state: Option<PaneruWindowState>)
        requires
            self@.frame_fits(entity),
        ensures
            match state {
                Some(state) => self@.window_state(entity) == Some(state@),
                None => self@.window_state(entity) is None,
            },
    {
        let window = match self.windows.get(entity) {
            Some(window) => window,
            None => return None,
        };
        let parent: Entity = match self.windows.find_parent(window.id) {
            Some(parent) => parent,
            None => return None,
        };
        let app = match find_application(self.apps, parent) {
            Some(app) => app,
            None => return None,
        };
        let place = self.locate(window);
        Some(
            PaneruWindowState {
                window_id: window.id,
                bundle_id: text_of(&app.bundle_id),
                app_name: app.name.clone(),
                title: text_of(&window.title),
                focused: self.windows.focused == Some(entity),
                floating: match window.unmanaged {
                    Some(Unmanaged::Floating) => true,
                    _ => false,
                },
                display_id: match place {
                    Some((display, _)) => Some(display),
                    None => None,
                },
                frame: match &window.frame {
                    Some(frame) => Some(frame.to_frame()),
                    None => None,
                },
                visible: match place {
                    Some((_, visible)) => visible,
                    None => false,
                },
            },
        )
    }

    /// Everything on a row.
    fn members_of(
        &self,
        row: &QueryRow,
        active: Option<WorkspaceId>,
        live: &LiveSpaces,
        held: &HashSet<Entity>,
    ) -> (members: Vec<Entity>)
        requires
            active == active_space(self.rows@),
            forall|entity: Entity| #![trigger held@.contains(entity)]
                held@.contains(entity) <==> is_held(self.rows@, live@, *self.windows, entity),
        ensures
            members@ == self@.row_members(*row, live@),
    {
        let mut members = self.remaining_windows(row, live);
        append_all(&mut members, &self.parked_floats(&row.strip.detached, row, live));
        if shows_row(row, active, self.rows) {
            if let Some(ids) = live.get(row.strip.id) {
                append_all(&mut members, &self.stray_floats(ids, live, held));
            }
        }
        assert(members@ =~= self@.row_members(*row, live@));
        members
    }

    /// What the document says of the windows listed.
    fn states_of(&self, entities: &Vec<Entity>) -> (states: Vec<PaneruWindowState>)
        requires
            self@.frames_fit(entities@),
        ensures
            views(states@) == entities@.filter_map(self@.window_stater()),
    {
        let ghost stater = self@.window_stater();
        let mut states: Vec<PaneruWindowState> = Vec::new();
        let mut i: usize = 0;
        assert(entities@.take(0) =~= Seq::<Entity>::empty());
        assert(views(states@) =~= Seq::<PaneruWindowStateView>::empty());
        while i < entities.len()
            invariant
                i <= entities.len(),
                self@.frames_fit(entities@),
                stater == self@.window_stater(),
                views(states@) == entities@.take(i as int).filter_map(stater),
            decreases entities.len() - i,
        {
            proof {
                entities@.lemma_filter_map_take_succ(stater, i as int);
            }
            if let Some(state) = self.state_of(entities[i]) {
                states.push(state);
            }
            i = i + 1;
            assert(views(states@) =~= entities@.take(i as int).filter_map(stater));
        }
        assert(entities@.take(i as int) =~= entities@);
        states
    }

    /// Lists the spaces that have a row, in the order of their first rows.
    fn list_spaces(&self) -> (ids: Vec<WorkspaceId>)
        ensures
            ids@ == self@.spaces(),
    {
        let ghost all = self.rows@.map_values(DesktopView::space_of_row());
        let mut ids: Vec<WorkspaceId> = Vec::new();
        let mut i: usize = 0;
        assert(all.take(0) =~= Seq::<WorkspaceId>::empty());
        while i < self.rows.len()
            invariant
                i <= self.rows.len(),
                all == self.rows@.map_values(DesktopView::space_of_row()),
                ids@ == distinct(all.take(i as int)),
            decreases self.rows.len() - i,
        {
            proof {
                let id = self.rows@[i as int].strip.id;
                assert(all.take(i + 1) =~= all.take(i as int).push(id));
                lemma_distinct_push(all.take(i as int), id);
            }
            push_distinct(&mut ids, self.rows[i].strip.id);
            i = i + 1;
        }
        assert(all.take(i as int) =~= all);
        ids
    }

    /// The largest number of a row of space `id`; 0 where it has none.
    fn last_number(&self, id: WorkspaceId) -> (largest: u32)
        requires
            self@.numbers_fit(),
        ensures
            largest == largest_number(self.rows@, id),
    {
        let mut largest: u32 = 0;
        let mut i: usize = 0;
        assert(self.rows@.take(0) =~= Seq::<QueryRow>::empty());
        while i < self.rows.len()
            invariant
                i <= self.rows.len(),
                self@.numbers_fit(),
                largest == largest_number(self.rows@.take(i as int), id),
            decreases self.rows.len() - i,
        {
            assert(self.rows@.take(i + 1).drop_last() =~= self.rows@.take(i as int));
            let row = &self.rows[i];
            assert(self@.rows[i as int].strip.virtual_index < u32::MAX);
            if row.strip.id == id && row.strip.virtual_index + 1 > largest {
                largest = row.strip.virtual_index + 1;
            }
            i = i + 1;
        }
        assert(self.rows@.take(i as int) =~= self.rows@);
        largest
    }

    /// Whether some row of space `id` has this number.
    fn is_present(&self, id: WorkspaceId, number: u32) -> (present: bool)
        requires
            self@.numbers_fit(),
        ensures
            present == has_number(self.rows@, id, number as int),
    {
        let mut i: usize = 0;
        while i < self.rows.len()
            invariant
                i <= self.rows.len(),
                self@.numbers_fit(),
                forall|j: int|
                    0 <= j < i ==> !((#[trigger] self.rows@[j]).strip.id == id && row_number(
                        self.rows@[j],
                    ) == number),
            decreases self.rows.len() - i,
        {
            let row = &self.rows[i];
            assert(self@.rows[i as int].strip.virtual_index < u32::MAX);
            if row.strip.id == id && row.strip.virtual_index + 1 == number {
                assert(row_number(self.rows@[i as int]) == number);
                return true;
            }
            i = i + 1;
        }
        false
    }

    /// Adds the rows that are missing below the largest number of each space.
    fn add_missing(
        &self,
        listed: &mut Vec<PaneruVirtualWorkspaceState>,
        Ghost(base): Ghost<Seq<PaneruVirtualWorkspaceStateView>>,
    )
        requires
            self@.numbers_fit(),
            views(old(listed)@) == by_rank::<PaneruVirtualWorkspaceState>(base),
        ensures
            views(final(listed)@) == by_rank::<PaneruVirtualWorkspaceState>(
                base + gather(self@.spaces(), missing_on(self.rows@)),
            ),
    {
        let ids = self.list_spaces();
        let ghost missing = missing_on(self.rows@);
        let mut k: usize = 0;
        assert(ids@.take(0) =~= Seq::<WorkspaceId>::empty());
        assert(base + gather(ids@.take(0), missing) =~= base);
        while k < ids.len()
            invariant
                k <= ids.len(),
                self@.numbers_fit(),
                missing == missing_on(self.rows@),
                views(listed@) == by_rank::<PaneruVirtualWorkspaceState>(
                    base + gather(ids@.take(k as int), missing),
                ),
            decreases ids.len() - k,
        {
            let id: WorkspaceId = ids[k];
            let largest: u32 = self.last_number(id);
            let ghost so_far = base + gather(ids@.take(k as int), missing);
            let mut number: u32 = 0;
            assert(so_far + missing_to(self.rows@, id, 0) =~= so_far);
            while number < largest
                invariant
                    number <= largest,
                    self@.numbers_fit(),
                    views(listed@) == by_rank::<PaneruVirtualWorkspaceState>(
                        so_far + missing_to(self.rows@, id, number as nat),
                    ),
                decreases largest - number,
            {
                number = number + 1;
                if !self.is_present(id, number) {
                    let row = PaneruVirtualWorkspaceState {
                        number,
                        native_workspace_id: id,
                        active: false,
                        windows: Vec::new(),
                    };
                    proof {
                        assert(row@.windows =~= Seq::<PaneruWindowStateView>::empty());
                        let rest = missing_to(self.rows@, id, (number - 1) as nat);
                        assert(so_far + rest.push(row@) =~= (so_far + rest).push(row@));
                        lemma_by_rank_push::<PaneruVirtualWorkspaceState>(so_far + rest, row@);
                    }
                    insert_ranked(listed, row);
                }
            }
            proof {
                lemma_gather_step(ids@, missing, k as int);
                assert(base + (gather(ids@.take(k as int), missing) + missing(id)) =~= so_far
                    + missing(id));
            }
            k = k + 1;
        }
        assert(ids@.take(k as int) =~= ids@);
    }

    /// Builds the document, given what is on each space.
    fn describe(&self, live: &LiveSpaces, timestamp: u64) -> (document: PaneruQueryState)
        requires
            self@.fits(live@),
        ensures
            document@ == self@.document(live@, timestamp),
    {
        let space = active_workspace_id(self.rows);
        let held = held_windows(self.rows, live, self.windows);
        let ghost stater = self@.row_stater(live@);
        let ghost all = self.rows@.map_values(stater);
        let mut active = PaneruActiveState {
            display_id: active_display(self.displays),
            native_workspace_id: None,
            virtual_workspace_number: None,
            focused_window_id: None,
            focused_bundle_id: None,
            focused_app_name: None,
            focused_window_title: None,
        };
        let mut listed: Vec<PaneruVirtualWorkspaceState> = Vec::new();
        let mut i: usize = 0;
        proof {
            assert(self.rows@.take(0) =~= Seq::<QueryRow>::empty());
            assert(all.take(0) =~= Seq::<PaneruVirtualWorkspaceStateView>::empty());
            assert(views(listed@) =~= Seq::<PaneruVirtualWorkspaceStateView>::empty());
        }
        while i < self.rows.len()
            invariant
                i <= self.rows.len(),
                self@.fits(live@),
                space == active_space(self.rows@),
                forall|entity: Entity| #![trigger held@.contains(entity)]
                    held@.contains(entity) <==> is_held(self.rows@, live@, *self.windows, entity),
                stater == self@.row_stater(live@),
                all == self.rows@.map_values(stater),
                active@ == self@.in_use_among(self.rows@.take(i as int), live@),
                views(listed@) == by_rank::<PaneruVirtualWorkspaceState>(all.take(i as int)),
            decreases self.rows.len() - i,
        {
            let row = &self.rows[i];
            proof {
                assert(self.rows@.take(i + 1).drop_last() =~= self.rows@.take(i as int));
                assert(self@.rows[i as int].strip.virtual_index < u32::MAX);
            }
            let members = self.members_of(row, space, live, &held);
            assert(self@.frames_fit(self@.row_members(self@.rows[i as int], live@)));
            let windows = self.states_of(&members);
            let number: u32 = row.strip.virtual_index + 1;
            if row.active {
                active.native_workspace_id = Some(row.strip.id);
                active.virtual_workspace_number = Some(number);
                if let Some(window) = focused_window(&windows) {
                    active.focused_window_id = Some(window.window_id);
                    active.focused_bundle_id = Some(window.bundle_id.clone());
                    active.focused_app_name = Some(window.app_name.clone());
                    active.focused_window_title = Some(window.title.clone());
                }
            }
            let state = PaneruVirtualWorkspaceState {
                number,
                native_workspace_id: row.strip.id,
                active: row.active,
                windows,
            };
            proof {
                assert(state@ == stater(*row));
                assert(all.take(i + 1) =~= all.take(i as int).push(state@));
                lemma_by_rank_push::<PaneruVirtualWorkspaceState>(all.take(i as int), state@);
            }
            insert_ranked(&mut listed, state);
            i = i + 1;
        }
        proof {
            assert(self.rows@.take(i as int) =~= self.rows@);
            assert(all.take(i as int) =~= all);
        }
        self.add_missing(&mut listed, Ghost(all));
        PaneruQueryState { version: 1, timestamp, active, virtual_workspaces: listed }
    }
}

impl<'a> Desktop<'a> {
    /// Whether every number in the document fits.
    fn check_fits(&self, live: &LiveSpaces) -> (fit: bool)
        ensures
            fit == self@.fits(live@),
    {
        if !self.check_numbers() {
            return false;
        }
        let space = active_workspace_id(self.rows);
        let held = held_windows(self.rows, live, self.windows);
        let mut i: usize = 0;
        while i < self.rows.len()
            invariant
                i <= self.rows.len(),
                space == active_space(self.rows@),
                forall|entity: Entity| #![trigger held@.contains(entity)]
                    held@.contains(entity) <==> is_held(self.rows@, live@, *self.windows, entity),
                forall|j: int|
                    0 <= j < i ==> self@.frames_fit(
                        self@.row_members(#[trigger] self@.rows[j], live@),
                    ),
            decreases self.rows.len() - i,
        {
            let members = self.members_of(&self.rows[i], space, live, &held);
            if !self.check_frames(&members) {
                assert(!self@.frames_fit(self@.row_members(self@.rows[i as int], live@)));
                return false;
            }
            i = i + 1;
        }
        true
    }

    /// Whether the document, once these answers allow to build it, has no number
    /// that does not fit.
    pub(crate) fn check_document(&self, replies: &Vec<Reply>) -> (fit: bool)
        ensures
            fit == self@.can_describe(replies@),
    {
        let plan = spaces_to_ask(&strip_visibility(self.rows));
        match check_reading(&plan, replies) {
            Step::Ready(_) => self.check_fits(&collect_spaces(&plan, replies)),
            _ => true,
        }
    }
}

/// The first of the windows listed that has the focus.
fn focused_window(windows: &Vec<PaneruWindowState>) -> (found: Option<&PaneruWindowState>)
    ensures
        match found {
            Some(window) => first_where(views(windows@), has_focus()) == Some(window@),
            None => first_where(views(windows@), has_focus()) is None,
        },
{
    let mut i: usize = 0;
    while i < windows.len()
        invariant
            i <= windows.len(),
            first_where(views(windows@), has_focus()) == first_from(
                views(windows@),
                has_focus(),
                i as int,
            ),
        decreases windows.len() - i,
    {
        if windows[i].focused {
            return Some(&windows[i]);
        }
        i = i + 1;
    }
    None
}

/// Everything that a query looks at, as one desktop.
pub open spec fn desktop_of(
    workspaces: Seq<QueryRow>,
    displays: Seq<Display>,
    windows: Windows,
    apps: Seq<Application>,
    sliver_width: i32,
) -> DesktopView {
    DesktopView { rows: workspaces, displays, windows, apps, sliver_width }
}

/// A document that is built from the desktop and from what the window server
/// answers.
pub trait QueryState: Sized {
    /// Whether the document is the one for this desktop and these answers, as of
    /// now.
    spec fn describes(&self, desktop: DesktopView, replies: Seq<Reply>) -> bool;

    /// Builds the document, or says which space to ask about next. A space that
    /// cannot be enumerated fails it.
    fn extract(
        workspaces: &Vec<QueryRow>,
        displays: &Vec<Display>,
        windows: &Windows,
        apps: &Vec<Application>,
        replies: &Vec<Reply>,
        sliver_width: i32,
    ) -> (step: Step<Self>)
        requires
            desktop_of(workspaces@, displays@, *windows, apps@, sliver_width).can_describe(replies@),
        ensures
            ({
                let desktop = desktop_of(workspaces@, displays@, *windows, apps@, sliver_width);
                match step {
                    Step::Ask(id) => reading(desktop.plan(), replies@) == Step::<()>::Ask(id),
                    Step::Failed(error) => reading(desktop.plan(), replies@) == Step::<()>::Failed(
                        error,
                    ),
                    Step::Ready(document) => {
                        &&& reading(desktop.plan(), replies@) == Step::<()>::Ready(())
                        &&& document.describes(desktop, replies@)
                    },
                }
            }),
    ;
}

impl PaneruQueryState {
    /// Builds the document as of `timestamp`, or says which space to ask about
    /// next. A space that cannot be enumerated fails it.
    pub fn extract_at(
        workspaces: &Vec<QueryRow>,
        displays: &Vec<Display>,
        windows: &Windows,
        apps: &Vec<Application>,
        replies: &Vec<Reply>,
        sliver_width: i32,
        timestamp: u64,
    ) -> (step: Step<PaneruQueryState>)
        requires
            desktop_of(workspaces@, displays@, *windows, apps@, sliver_width).can_describe(replies@),
        ensures
            ({
                let desktop = desktop_of(workspaces@, displays@, *windows, apps@, sliver_width);
                match step {
                    Step::Ask(id) => reading(desktop.plan(), replies@) == Step::<()>::Ask(id),
                    Step::Failed(error) => reading(desktop.plan(), replies@) == Step::<()>::Failed(
                        error,
                    ),
                    Step::Ready(document) => {
                        &&& reading(desktop.plan(), replies@) == Step::<()>::Ready(())
                        &&& document@ == desktop.document(desktop.live(replies@), timestamp)
                    },
                }
            }),
    {
        let plan = spaces_to_ask(&strip_visibility(workspaces));
        match check_reading(&plan, replies) {
            Step::Ask(id) => Step::Ask(id),
            Step::Failed(error) => Step::Failed(error),
            Step::Ready(_) => {
                let desktop = Desktop { rows: workspaces, displays, windows, apps, sliver_width };
                let live = collect_spaces(&plan, replies);
                Step::Ready(desktop.describe(&live, timestamp))
            },
        }
    }
}

impl QueryState for PaneruQueryState {
    open spec fn describes(&self, desktop: DesktopView, replies: Seq<Reply>) -> bool {
        &&& self@ == desktop.document(desktop.live(replies), self.timestamp)
        &&& is_read_now(self.timestamp)
    }

    fn extract(
        workspaces: &Vec<QueryRow>,
        displays: &Vec<Display>,
        windows: &Windows,
        apps: &Vec<Application>,
        replies: &Vec<Reply>,
        sliver_width: i32,
    ) -> (step: Step<PaneruQueryState>) {
        PaneruQueryState::extract_at(
            workspaces,
            displays,
            windows,
            apps,
            replies,
            sliver_width,
            now_timestamp(),
        )
    }
}

} // verus!
