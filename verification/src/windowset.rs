//! The layout as the tree that scripts transform: displays, their rows, the
//! columns of each row. Unlike the state document, which flattens each row into
//! a list of windows, the tree keeps what is beside what.

use crate::desktop::{Desktop, DesktopView};
use crate::geometry::Frame;
use crate::layout::{append_all, column_members, Column, LayoutStrip};
use crate::platform::{CGDirectDisplayID, Entity, WinID, WorkspaceId};
use crate::query::row_number;
use crate::seqs::{
    by_rank, first_from, first_where, gather, insert_ranked, lemma_by_rank_push,
    lemma_gather_contains, numbered, views, Ranked,
};
use crate::spaces::{
    active_space, active_workspace_id, check_reading, collect_spaces, held_windows, is_held,
    reading, row_shows, row_spaces, shown_space, shows_row, spaces_to_ask, strip_visibility,
    windows_in, LiveSpaces, QueryRow, Reply, Step,
};
use crate::world::{
    application_of, find_application, text_of, text_or_empty, Display, Unmanaged, Windows,
};
use std::collections::HashSet;
use vstd::prelude::*;

verus! {

/// The bits of the double one: the whole width of a display.
pub const FULL_WIDTH: u64 = 0x3ff0_0000_0000_0000;

/// How a column arranges its windows, in the vocabulary a script sees.
#[derive(Clone, Copy, Debug, PartialEq, Eq, Structural)]
pub enum ColumnKind {
    Single,
    Stack,
    Tabs,
    Fullscreen,
}

/// One window, as a script sees it.
#[derive(Clone, Debug, PartialEq, Eq)]
pub struct WindowRec {
    pub id: WinID,
    pub app_name: String,
    pub bundle_id: String,
    pub title: String,
    pub frame: Option<Frame>,
    pub floating: bool,
    pub managed: bool,
    pub visible: bool,
    pub focused: bool,
}

/// One column, as a script sees it.
#[derive(Clone, Debug, PartialEq, Eq)]
pub struct ColumnSet {
    pub kind: ColumnKind,
    /// The share of the display's width, as the bits of a double.
    pub width_ratio: u64,
    /// Which of the windows is on top.
    pub selected: usize,
    pub windows: Vec<WindowRec>,
}

/// One row, as a script sees it.
#[derive(Clone, Debug, PartialEq, Eq)]
pub struct WorkspaceSet {
    pub number: u32,
    pub native_id: WorkspaceId,
    pub active: bool,
    pub columns: Vec<ColumnSet>,
    pub floating: Vec<WindowRec>,
}

/// One display, as a script sees it.
#[derive(Clone, Debug, PartialEq, Eq)]
pub struct DisplaySet {
    pub id: CGDirectDisplayID,
    pub frame: Frame,
    pub active: bool,
    pub workspaces: Vec<WorkspaceSet>,
}

/// The whole tree.
#[derive(Clone, Debug, PartialEq, Eq)]
pub struct WindowSet {
    pub displays: Vec<DisplaySet>,
    pub focused: Option<WinID>,
}

/// The contents of a [`WindowRec`].
pub struct WindowRecView {
    pub id: WinID,
    pub app_name: Seq<char>,
    pub bundle_id: Seq<char>,
    pub title: Seq<char>,
    pub frame: Option<Frame>,
    pub floating: bool,
    pub managed: bool,
    pub visible: bool,
    pub focused: bool,
}

/// The contents of a [`ColumnSet`].
pub struct ColumnSetView {
    pub kind: ColumnKind,
    pub width_ratio: u64,
    pub selected: int,
    pub windows: Seq<WindowRecView>,
}

/// The contents of a [`WorkspaceSet`].
pub struct WorkspaceSetView {
    pub number: u32,
    pub native_id: WorkspaceId,
    pub active: bool,
    pub columns: Seq<ColumnSetView>,
    pub floating: Seq<WindowRecView>,
}

/// The contents of a [`DisplaySet`].
pub struct DisplaySetView {
    pub id: CGDirectDisplayID,
    pub frame: Frame,
    pub active: bool,
    pub workspaces: Seq<WorkspaceSetView>,
}

/// The contents of a [`WindowSet`].
pub struct WindowSetView {
    pub displays: Seq<DisplaySetView>,
    pub focused: Option<WinID>,
}

impl View for WindowRec {
    type V = WindowRecView;

    open spec fn view(&self) -> WindowRecView {
        WindowRecView {
            id: self.id,
            app_name: self.app_name@,
            bundle_id: self.bundle_id@,
            title: self.title@,
            frame: self.frame,
            floating: self.floating,
            managed: self.managed,
            visible: self.visible,
            focused: self.focused,
        }
    }
}

impl View for ColumnSet {
    type V = ColumnSetView;

    open spec fn view(&self) -> ColumnSetView {
        ColumnSetView {
            kind: self.kind,
            width_ratio: self.width_ratio,
            selected: self.selected as int,
            windows: views(self.windows@),
        }
    }
}

impl View for WorkspaceSet {
    type V = WorkspaceSetView;

    open spec fn view(&self) -> WorkspaceSetView {
        WorkspaceSetView {
            number: self.number,
            native_id: self.native_id,
            active: self.active,
            columns: views(self.columns@),
            floating: views(self.floating@),
        }
    }
}

impl View for DisplaySet {
    type V = DisplaySetView;

    open spec fn view(&self) -> DisplaySetView {
        DisplaySetView {
            id: self.id,
            frame: self.frame,
            active: self.active,
            workspaces: views(self.workspaces@),
        }
    }
}

impl View for WindowSet {
    type V = WindowSetView;

    open spec fn view(&self) -> WindowSetView {
        WindowSetView { displays: views(self.displays@), focused: self.focused }
    }
}

impl Ranked for WorkspaceSet {
    open spec fn rank(workspace: WorkspaceSetView) -> (int, int) {
        (workspace.number as int, 0)
    }

    fn ranks_before(&self, other: &WorkspaceSet) -> (earlier: bool) {
        self.number < other.number
    }
}

/// Recognises a window that is laid out.
pub open spec fn rec_tiled() -> spec_fn(WindowRecView) -> bool {
    |rec: WindowRecView| !rec.floating
}

/// The windows of a column of the tree, as a function.
pub open spec fn column_windows() -> spec_fn(ColumnSetView) -> Seq<WindowRecView> {
    |column: ColumnSetView| column.windows
}

impl WorkspaceSetView {
    /// Every window of the row: column by column, then the floats.
    pub open spec fn windows(self) -> Seq<WindowRecView> {
        gather(self.columns, column_windows()) + self.floating
    }
}

/// The position of the first window of a number from position `i` on.
pub open spec fn position_from(recs: Seq<WindowRecView>, id: WinID, i: int) -> Option<int>
    decreases recs.len() - i,
{
    if i < 0 || i >= recs.len() {
        None
    } else if recs[i].id == id {
        Some(i)
    } else {
        position_from(recs, id, i + 1)
    }
}

/// How a column arranges its windows.
pub open spec fn kind_of(column: Column) -> ColumnKind {
    match column {
        Column::Single(_) => ColumnKind::Single,
        Column::Stack(_) => ColumnKind::Stack,
        Column::Tabs(_) => ColumnKind::Tabs,
        Column::Fullscreen(_) => ColumnKind::Fullscreen,
    }
}

/// How a layout column arranges its windows, in the vocabulary a script sees.
pub fn column_kind(column: &Column) -> (kind: ColumnKind)
    ensures
        kind == kind_of(*column),
{
    match column {
        Column::Single(_) => ColumnKind::Single,
        Column::Stack(_) => ColumnKind::Stack,
        Column::Tabs(_) => ColumnKind::Tabs,
        Column::Fullscreen(_) => ColumnKind::Fullscreen,
    }
}

impl Windows {
    /// The share of the width that an entity asks for.
    pub open spec fn ratio_of(self, entity: Entity) -> Option<u64> {
        match self.window_of(entity) {
            Some(window) => window.width_ratio,
            None => None,
        }
    }

    /// Recognises an entity that asks for a share of the width.
    pub open spec fn asks_width(self) -> spec_fn(Entity) -> bool {
        |entity: Entity| self.ratio_of(entity) is Some
    }

    /// The number of the window that has the focus.
    pub open spec fn focused_id(self) -> Option<WinID> {
        match self.focused {
            Some(entity) => match self.window_of(entity) {
                Some(window) => Some(window.id),
                None => None,
            },
            None => None,
        }
    }

    /// The share of the width that an entity asks for.
    fn width_ratio(&self, entity: Entity) -> (ratio: Option<u64>)
        ensures
            ratio == self.ratio_of(entity),
    {
        match self.get(entity) {
            Some(window) => window.width_ratio,
            None => None,
        }
    }

    /// The number of the window that has the focus.
    fn focused_window_id(&self) -> (id: Option<WinID>)
        ensures
            id == self.focused_id(),
    {
        match self.focused {
            Some(entity) => match self.get(entity) {
                Some(window) => Some(window.id),
                None => None,
            },
            None => None,
        }
    }
}

impl DesktopView {
    /// An entity as a script sees it: nothing where it is no window or its
    /// application is unknown.
    pub open spec fn window_rec(self, entity: Entity) -> Option<WindowRecView> {
        match self.windows.window_of(entity) {
            None => None,
            Some(window) => match self.windows.parent_of(window.id) {
                None => None,
                Some(parent) => match application_of(self.apps, parent) {
                    None => None,
                    Some(app) => Some(
                        WindowRecView {
                            id: window.id,
                            app_name: app.name@,
                            bundle_id: text_or_empty(app.bundle_id),
                            title: text_or_empty(window.title),
                            frame: match window.frame {
                                Some(frame) => Some(frame.as_frame()),
                                None => None,
                            },
                            floating: window.unmanaged == Some(Unmanaged::Floating),
                            managed: window.unmanaged is None,
                            visible: self.whereabouts(window) matches Some((_, visible)) && visible,
                            focused: self.windows.focused == Some(entity),
                        },
                    ),
                },
            },
        }
    }

    /// An entity as a script sees it, as a function.
    pub open spec fn recorder(self) -> spec_fn(Entity) -> Option<WindowRecView> {
        |entity: Entity| self.window_rec(entity)
    }

    /// Recognises an entity that does not float.
    pub open spec fn tiles(self) -> spec_fn(Entity) -> bool {
        |entity: Entity| !self.windows.floats(entity)
    }

    /// The windows of a column, as a script sees them.
    pub open spec fn column_recs(self, column: Column) -> Seq<WindowRecView> {
        column.members().filter_map(self.recorder())
    }

    /// The share of the width that a column takes: what the first of its windows
    /// asks for that asks, or else everything.
    pub open spec fn column_ratio(self, column: Column) -> u64 {
        match first_where(column.members(), self.windows.asks_width()) {
            Some(entity) => self.windows.ratio_of(entity)->0,
            None => FULL_WIDTH,
        }
    }

    /// Where the top of a column is among the windows of it that are laid out;
    /// the first where it is not among them.
    pub open spec fn column_selected(self, column: Column, tiled: Seq<WindowRecView>) -> int {
        if column.members().len() == 0 {
            0
        } else {
            match self.windows.window_of(column.members()[0]) {
                None => 0,
                Some(top) => match position_from(tiled, top.id, 0) {
                    Some(position) => position,
                    None => 0,
                },
            }
        }
    }

    /// A column as a script sees it: nothing where no window of it is laid out.
    pub open spec fn column_set(self, column: Column) -> Option<ColumnSetView> {
        let tiled = self.column_recs(column).filter(rec_tiled());
        if tiled.len() == 0 {
            None
        } else {
            Some(
                ColumnSetView {
                    kind: kind_of(column),
                    width_ratio: self.column_ratio(column),
                    selected: self.column_selected(column, tiled),
                    windows: tiled,
                },
            )
        }
    }

    /// A column as a script sees it, as a function.
    pub open spec fn column_setter(self) -> spec_fn(Column) -> Option<ColumnSetView> {
        |column: Column| self.column_set(column)
    }

    /// The spaces that are read once more for the tree: one for each row that
    /// shows.
    pub open spec fn row_reads(self) -> Seq<WorkspaceId> {
        row_spaces(self.rows).filter_map(shown_space())
    }

    /// The spaces that the window server is asked about for the tree: first once
    /// each, then again for each row that shows.
    pub open spec fn tree_plan(self) -> Seq<WorkspaceId> {
        self.plan() + self.row_reads()
    }

    /// What was answered for the row at position `i`.
    pub open spec fn row_reply(self, i: int, replies: Seq<Reply>) -> Seq<WinID> {
        if row_shows(self.rows[i], self.rows) {
            let earlier = row_spaces(self.rows).take(i).filter_map(shown_space());
            windows_in(replies[self.plan().len() as int + earlier.len() as int])
        } else {
            Seq::empty()
        }
    }

    /// The floats on a row, given what was answered for it: those among its
    /// columns, those it owns besides, and those that no row holds. A window
    /// stays in its column after it is floated, so that it can be laid out again
    /// later: the mark decides, not the place. A float that left the space of the
    /// row is not on the row.
    pub open spec fn float_members(
        self,
        row: QueryRow,
        live: Map<WorkspaceId, Seq<WinID>>,
        reply: Seq<WinID>,
    ) -> Seq<Entity> {
        row.strip.laid_out().filter(self.parked(row, live)) + row.strip.detached@.filter(
            self.parked(row, live),
        ) + reply.filter_map(self.stray(live))
    }

    /// The floats on a row, as a script sees them.
    pub open spec fn row_floats(
        self,
        row: QueryRow,
        live: Map<WorkspaceId, Seq<WinID>>,
        reply: Seq<WinID>,
    ) -> Seq<WindowRecView> {
        self.float_members(row, live, reply).filter_map(self.recorder())
    }

    /// A row as a script sees it, given what was answered for it.
    pub open spec fn workspace_set(
        self,
        row: QueryRow,
        live: Map<WorkspaceId, Seq<WinID>>,
        reply: Seq<WinID>,
    ) -> WorkspaceSetView {
        WorkspaceSetView {
            number: row_number(row),
            native_id: row.strip.id,
            active: row.active,
            columns: row.strip.columns@.filter_map(self.column_setter()),
            floating: self.row_floats(row, live, reply),
        }
    }

    /// A numbered row of the display of `entity` as a script sees it, as a
    /// function.
    pub open spec fn row_setter(self, entity: Entity, replies: Seq<Reply>) -> spec_fn(
        (int, QueryRow),
    ) -> Option<WorkspaceSetView> {
        |row: (int, QueryRow)|
            if row.1.parent == entity {
                Some(
                    self.workspace_set(
                        row.1,
                        self.live(replies),
                        self.row_reply(row.0, replies),
                    ),
                )
            } else {
                None
            }
    }

    /// A display as a script sees it: its rows from the first to the last.
    pub open spec fn display_set(self, display: Display, replies: Seq<Reply>) -> DisplaySetView {
        DisplaySetView {
            id: display.id,
            frame: display.bounds.as_frame(),
            active: display.active,
            workspaces: by_rank::<WorkspaceSet>(
                numbered(self.rows).filter_map(self.row_setter(display.entity, replies)),
            ),
        }
    }

    /// The whole tree.
    pub open spec fn window_set(self, replies: Seq<Reply>) -> WindowSetView {
        WindowSetView {
            displays: self.displays.map_values(
                |display: Display| self.display_set(display, replies),
            ),
            focused: self.windows.focused_id(),
        }
    }

    /// Whether the sides of every display can be told in 32 bits.
    pub open spec fn displays_fit(self) -> bool {
        forall|i: int|
            0 <= i < self.displays.len() ==> (#[trigger] self.displays[i]).bounds.sides_fit()
    }

    /// Whether the frames of a row's windows can be told, given what was
    /// answered for it.
    pub open spec fn row_fits(
        self,
        row: QueryRow,
        live: Map<WorkspaceId, Seq<WinID>>,
        reply: Seq<WinID>,
    ) -> bool {
        &&& self.frames_fit(row.strip.laid_out())
        &&& self.frames_fit(row.strip.detached@.filter(self.parked(row, live)))
        &&& self.frames_fit(reply.filter_map(self.stray(live)))
    }

    /// Whether every number in the tree fits.
    pub open spec fn tree_fits(self, replies: Seq<Reply>) -> bool {
        &&& self.numbers_fit()
        &&& self.displays_fit()
        &&& forall|i: int|
            0 <= i < self.rows.len() ==> self.row_fits(
                #[trigger] self.rows[i],
                self.live(replies),
                self.row_reply(i, replies),
            )
    }

    /// Whether the tree, once these answers allow to build it, has no number
    /// that does not fit.
    pub open spec fn can_build_tree(self, replies: Seq<Reply>) -> bool {
        reading(self.tree_plan(), replies) == Step::<()>::Ready(()) ==> self.tree_fits(replies)
    }
}

impl DesktopView {
    /// Where the frames of all that a row lays out can be told, so can those of
    /// each column.
    proof fn lemma_column_fits(self, strip: LayoutStrip, c: int)
        requires
            self.frames_fit(strip.laid_out()),
            0 <= c < strip.columns@.len(),
        ensures
            self.frames_fit(strip.columns@[c].members()),
    {
        let members = strip.columns@[c].members();
        assert forall|i: int| 0 <= i < members.len() implies self.frame_fits(
            #[trigger] members[i],
        ) by {
            assert(column_members()(strip.columns@[c]).contains(members[i]));
            lemma_gather_contains(strip.columns@, column_members(), members[i]);
            let k = choose|k: int|
                0 <= k < strip.laid_out().len() && strip.laid_out()[k] == members[i];
            assert(self.frame_fits(strip.laid_out()[k]));
        }
    }

    /// Where the frames of all entities listed can be told, so can those of the
    /// entities kept.
    proof fn lemma_kept_fit(self, entities: Seq<Entity>, keep: spec_fn(Entity) -> bool)
        requires
            self.frames_fit(entities),
        ensures
            self.frames_fit(entities.filter(keep)),
    {
        let kept = entities.filter(keep);
        assert forall|i: int| 0 <= i < kept.len() implies self.frame_fits(#[trigger] kept[i]) by {
            entities.lemma_filter_contains_rev(keep, kept[i]);
            let k = choose|k: int| 0 <= k < entities.len() && entities[k] == kept[i];
            assert(self.frame_fits(entities[k]));
        }
    }
}

/// The windows that were answered for a row; none where nobody asked.
pub open spec fn answered(reply: Option<&Vec<WinID>>) -> Seq<WinID> {
    match reply {
        Some(ids) => ids@,
        None => Seq::empty(),
    }
}

/// A longer run keeps at least as many.
proof fn lemma_kept_grows<A, B>(s: Seq<A>, f: spec_fn(A) -> Option<B>, k: int)
    requires
        0 <= k <= s.len(),
    ensures
        s.take(k).filter_map(f).len() <= s.filter_map(f).len(),
    decreases s.len(),
{
    if k < s.len() {
        assert(s.drop_last().take(k) =~= s.take(k));
        lemma_kept_grows(s.drop_last(), f, k);
    } else {
        assert(s.take(k) =~= s);
    }
}

impl<'a> Desktop<'a> {
    /// One window, as a script sees it. `None` for an entity that is no longer
    /// a window we know anything about.
    pub fn window_record(&self, entity: Entity) -> (rec: Option<WindowRec>)
        requires
            self@.frame_fits(entity),
        ensures
            match rec {
                Some(rec) => self@.window_rec(entity) == Some(rec@),
                None => self@.window_rec(entity) is None,
            },
    {
        let window = match self.windows.get(entity) {
            Some(window) => window,
            None => return None,
        };
        let parent: Entity = match self.windows.find_parent(window.id) {
            Some(parent) => parent,
            None => return None,
        };
        let app = match find_application(self.apps, parent) {
            Some(app) => app,
            None => return None,
        };
        Some(
            WindowRec {
                id: window.id,
                app_name: app.name.clone(),
                bundle_id: text_of(&app.bundle_id),
                title: text_of(&window.title),
                frame: match &window.frame {
                    Some(frame) => Some(frame.to_frame()),
                    None => None,
                },
                floating: match window.unmanaged {
                    Some(Unmanaged::Floating) => true,
                    _ => false,
                },
                managed: window.unmanaged.is_none(),
                visible: match self.locate(window) {
                    Some((_, visible)) => visible,
                    None => false,
                },
                focused: self.windows.focused == Some(entity),
            },
        )
    }

    /// The windows listed, as a script sees them.
    fn records_of(&self, entities: &Vec<Entity>) -> (recs: Vec<WindowRec>)
        requires
            self@.frames_fit(entities@),
        ensures
            views(recs@) == entities@.filter_map(self@.recorder()),
    {
        let ghost recorder = self@.recorder();
        let mut recs: Vec<WindowRec> = Vec::new();
        let mut i: usize = 0;
        assert(entities@.take(0) =~= Seq::<Entity>::empty());
        assert(views(recs@) =~= Seq::<WindowRecView>::empty());
        while i < entities.len()
            invariant
                i <= entities.len(),
                self@.frames_fit(entities@),
                recorder == self@.recorder(),
                views(recs@) == entities@.take(i as int).filter_map(recorder),
            decreases entities.len() - i,
        {
            proof {
                entities@.lemma_filter_map_take_succ(recorder, i as int);
            }
            if let Some(rec) = self.window_record(entities[i]) {
                recs.push(rec);
            }
            i = i + 1;
            assert(views(recs@) =~= entities@.take(i as int).filter_map(recorder));
        }
        assert(entities@.take(i as int) =~= entities@);
        recs
    }

    /// The windows of a column that are laid out, as a script sees them.
    fn tile_column(&self, members: &Vec<Entity>) -> (tiled: Vec<WindowRec>)
        requires
            self@.frames_fit(members@),
        ensures
            views(tiled@) == members@.filter_map(self@.recorder()).filter(rec_tiled()),
    {
        let ghost recorder = self@.recorder();
        let mut tiled: Vec<WindowRec> = Vec::new();
        let mut i: usize = 0;
        proof {
            reveal(Seq::filter);
            assert(members@.take(0) =~= Seq::<Entity>::empty());
            assert(views(tiled@) =~= Seq::<WindowRecView>::empty());
        }
        while i < members.len()
            invariant
                i <= members.len(),
                self@.frames_fit(members@),
                recorder == self@.recorder(),
                views(tiled@) == members@.take(i as int).filter_map(recorder).filter(rec_tiled()),
            decreases members.len() - i,
        {
            let ghost recs = members@.take(i as int).filter_map(recorder);
            proof {
                members@.lemma_filter_map_take_succ(recorder, i as int);
                assert(recs + Seq::<WindowRecView>::empty() =~= recs);
            }
            if let Some(rec) = self.window_record(members[i]) {
                proof {
                    reveal(Seq::filter);
                    assert((recs + seq![rec@]).drop_last() =~= recs);
                    assert((recs + seq![rec@]).last() == rec@);
                }
                if !rec.floating {
                    tiled.push(rec);
                }
            }
            i = i + 1;
            assert(views(tiled@) =~= members@.take(i as int).filter_map(recorder).filter(
                rec_tiled(),
            ));
        }
        assert(members@.take(i as int) =~= members@);
        tiled
    }

    /// The share of the width that a column takes.
    fn ratio(&self, column: &Column, members: &Vec<Entity>) -> (ratio: u64)
        requires
            members@ == column.members(),
        ensures
            ratio == self@.column_ratio(*column),
    {
        let ghost asks = self.windows.asks_width();
        let mut i: usize = 0;
        while i < members.len()
            invariant
                i <= members.len(),
                members@ == column.members(),
                asks == self.windows.asks_width(),
                first_where(members@, asks) == first_from(members@, asks, i as int),
            decreases members.len() - i,
        {
            if let Some(ratio) = self.windows.width_ratio(members[i]) {
                return ratio;
            }
            i = i + 1;
        }
        FULL_WIDTH
    }

    /// Where the top of a column is among the windows of it that are laid out.
    fn selected(&self, column: &Column, tiled: &Vec<WindowRec>) -> (selected: usize)
        ensures
            selected == self@.column_selected(*column, views(tiled@)),
    {
        let top: Entity = match column.top() {
            Some(top) => top,
            None => return 0,
        };
        let id: WinID = match self.windows.get(top) {
            Some(window) => window.id,
            None => return 0,
        };
        let mut i: usize = 0;
        while i < tiled.len()
            invariant
                i <= tiled.len(),
                column.members().len() > 0,
                self.windows.window_of(column.members()[0]) matches Some(window) && window.id == id,
                position_from(views(tiled@), id, 0) == position_from(views(tiled@), id, i as int),
            decreases tiled.len() - i,
        {
            if tiled[i].id == id {
                return i;
            }
            i = i + 1;
        }
        0
    }

    /// One row as a script sees it, given what was answered for it.
    fn build_row(
        &self,
        row: &QueryRow,
        live: &LiveSpaces,
        held: &HashSet<Entity>,
        reply: Option<&Vec<WinID>>,
    ) -> (workspace: WorkspaceSet)
        requires
            self@.row_fits(*row, live@, answered(reply)),
            row.strip.virtual_index < u32::MAX,
            forall|entity: Entity| #![trigger held@.contains(entity)]
                held@.contains(entity) <==> is_held(self.rows@, live@, *self.windows, entity),
        ensures
            workspace@ == self@.workspace_set(*row, live@, answered(reply)),
    {
        let ghost setter = self@.column_setter();
        let strip = &row.strip;
        let mut columns: Vec<ColumnSet> = Vec::new();
        let mut i: usize = 0;
        proof {
            assert(strip.columns@.take(0) =~= Seq::<Column>::empty());
            assert(views(columns@) =~= Seq::<ColumnSetView>::empty());
        }
        while i < strip.columns.len()
            invariant
                i <= strip.columns.len(),
                self@.frames_fit(strip.laid_out()),
                setter == self@.column_setter(),
                views(columns@) == strip.columns@.take(i as int).filter_map(setter),
            decreases strip.columns.len() - i,
        {
            let column = &strip.columns[i];
            proof {
                strip.columns@.lemma_filter_map_take_succ(setter, i as int);
                self@.lemma_column_fits(*strip, i as int);
            }
            let members = column.windows();
            let tiled = self.tile_column(&members);
            if tiled.len() > 0 {
                let ratio: u64 = self.ratio(column, &members);
                let selected: usize = self.selected(column, &tiled);
                columns.push(
                    ColumnSet {
                        kind: column_kind(column),
                        width_ratio: ratio,
                        selected,
                        windows: tiled,
                    },
                );
            }
            i = i + 1;
            assert(views(columns@) =~= strip.columns@.take(i as int).filter_map(setter));
        }
        assert(strip.columns@.take(i as int) =~= strip.columns@);
        let laid_out = strip.all_windows();
        let mut floats = self.parked_floats(&laid_out, row, live);
        proof {
            self@.lemma_kept_fit(laid_out@, self@.parked(*row, live@));
        }
        append_all(&mut floats, &self.parked_floats(&strip.detached, row, live));
        if let Some(ids) = reply {
            append_all(&mut floats, &self.stray_floats(ids, live, held));
        }
        assert(Seq::<WinID>::empty().filter_map(self@.stray(live@)) =~= Seq::<Entity>::empty());
        assert(floats@ =~= self@.float_members(*row, live@, answered(reply)));
        let floating = self.records_of(&floats);
        WorkspaceSet {
            number: strip.virtual_index + 1,
            native_id: strip.id,
            active: row.active,
            columns,
            floating,
        }
    }

    /// What was answered for each row, given all answers.
    fn row_answers<'b>(
        &self,
        active: Option<WorkspaceId>,
        asked: usize,
        replies: &'b Vec<Reply>,
    ) -> (answers: Vec<Option<&'b Vec<WinID>>>)
        requires
            active == active_space(self.rows@),
            asked == self@.plan().len(),
            self@.tree_plan().len() <= replies.len(),
        ensures
            answers.len() == self.rows.len(),
            forall|i: int|
                0 <= i < answers.len() ==> answered(#[trigger] answers@[i]) == self@.row_reply(
                    i,
                    replies@,
                ),
    {
        let ghost shown = row_spaces(self.rows@);
        let mut answers: Vec<Option<&'b Vec<WinID>>> = Vec::new();
        let mut next: usize = asked;
        let mut i: usize = 0;
        assert(shown.take(0) =~= Seq::<(WorkspaceId, bool)>::empty());
        while i < self.rows.len()
            invariant
                i <= self.rows.len(),
                active == active_space(self.rows@),
                asked == self@.plan().len(),
                self@.tree_plan().len() <= replies.len(),
                shown == row_spaces(self.rows@),
                next == asked + shown.take(i as int).filter_map(shown_space()).len(),
                answers.len() == i,
                forall|j: int|
                    0 <= j < i ==> answered(#[trigger] answers@[j]) == self@.row_reply(j, replies@),
            decreases self.rows.len() - i,
        {
            proof {
                shown.lemma_filter_map_take_succ(shown_space(), i as int);
                lemma_kept_grows(shown, shown_space(), i + 1);
            }
            if shows_row(&self.rows[i], active, self.rows) {
                match &replies[next] {
                    Ok(ids) => answers.push(Some(ids)),
                    Err(_) => answers.push(None),
                }
                next = next + 1;
            } else {
                answers.push(None);
            }
            i = i + 1;
        }
        answers
    }

    /// One display as a script sees it, given what was answered for each row.
    fn build_display(
        &self,
        display: &Display,
        live: &LiveSpaces,
        held: &HashSet<Entity>,
        answers: &Vec<Option<&Vec<WinID>>>,
        Ghost(replies): Ghost<Seq<Reply>>,
    ) -> (set: DisplaySet)
        requires
            self@.tree_fits(replies),
            display.bounds.sides_fit(),
            live@ == self@.live(replies),
            forall|entity: Entity| #![trigger held@.contains(entity)]
                held@.contains(entity) <==> is_held(self.rows@, live@, *self.windows, entity),
            answers.len() == self.rows.len(),
            forall|i: int|
                0 <= i < answers.len() ==> answered(#[trigger] answers@[i]) == self@.row_reply(
                    i,
                    replies,
                ),
        ensures
            set@ == self@.display_set(*display, replies),
    {
        let ghost setter = self@.row_setter(display.entity, replies);
        let ghost all = numbered(self.rows@);
        let mut workspaces: Vec<WorkspaceSet> = Vec::new();
        let mut i: usize = 0;
        proof {
            assert(all.take(0) =~= Seq::<(int, QueryRow)>::empty());
            assert(views(workspaces@) =~= Seq::<WorkspaceSetView>::empty());
        }
        while i < self.rows.len()
            invariant
                i <= self.rows.len(),
                self@.tree_fits(replies),
                live@ == self@.live(replies),
                forall|entity: Entity| #![trigger held@.contains(entity)]
                    held@.contains(entity) <==> is_held(self.rows@, live@, *self.windows, entity),
                answers.len() == self.rows.len(),
                forall|j: int|
                    0 <= j < answers.len() ==> answered(#[trigger] answers@[j]) == self@.row_reply(
                        j,
                        replies,
                    ),
                setter == self@.row_setter(display.entity, replies),
                all == numbered(self.rows@),
                views(workspaces@) == by_rank::<WorkspaceSet>(
                    all.take(i as int).filter_map(setter),
                ),
            decreases self.rows.len() - i,
        {
            let row = &self.rows[i];
            let ghost so_far = all.take(i as int).filter_map(setter);
            proof {
                assert(self@.rows[i as int].strip.virtual_index < u32::MAX);
                assert(answered(answers@[i as int]) == self@.row_reply(i as int, replies));
                all.lemma_filter_map_take_succ(setter, i as int);
                assert(so_far + Seq::<WorkspaceSetView>::empty() =~= so_far);
            }
            if row.parent == display.entity {
                let workspace = self.build_row(row, live, held, answers[i]);
                proof {
                    assert(setter(all[i as int]) == Some(workspace@));
                    assert(so_far + seq![workspace@] =~= so_far.push(workspace@));
                    lemma_by_rank_push::<WorkspaceSet>(so_far, workspace@);
                }
                insert_ranked(&mut workspaces, workspace);
            }
            i = i + 1;
        }
        assert(all.take(i as int) =~= all);
        DisplaySet {
            id: display.id,
            frame: display.bounds.to_frame(),
            active: display.active,
            workspaces,
        }
    }

    /// The spaces that are asked about for the tree.
    fn list_tree_plan(&self) -> (plan: Vec<WorkspaceId>)
        ensures
            plan@ == self@.tree_plan(),
    {
        let strips = strip_visibility(self.rows);
        let mut plan = spaces_to_ask(&strips);
        let ghost once = plan@;
        let mut i: usize = 0;
        assert(strips@.take(0) =~= Seq::<(WorkspaceId, bool)>::empty());
        assert(once + Seq::<WorkspaceId>::empty() =~= once);
        while i < strips.len()
            invariant
                i <= strips.len(),
                plan@ == once + strips@.take(i as int).filter_map(shown_space()),
            decreases strips.len() - i,
        {
            proof {
                strips@.lemma_filter_map_take_succ(shown_space(), i as int);
            }
            if strips[i].1 {
                plan.push(strips[i].0);
            }
            i = i + 1;
            assert(plan@ =~= once + strips@.take(i as int).filter_map(shown_space()));
        }
        assert(strips@.take(i as int) =~= strips@);
        plan
    }

    /// Builds the tree, given all answers.
    fn build_tree(&self, replies: &Vec<Reply>) -> (set: WindowSet)
        requires
            self@.tree_fits(replies@),
            self@.tree_plan().len() <= replies.len(),
        ensures
            set@ == self@.window_set(replies@),
    {
        let plan = spaces_to_ask(&strip_visibility(self.rows));
        let live = collect_spaces(&plan, replies);
        let held = held_windows(self.rows, &live, self.windows);
        let answers = self.row_answers(active_workspace_id(self.rows), plan.len(), replies);
        let mut displays: Vec<DisplaySet> = Vec::new();
        let mut i: usize = 0;
        while i < self.displays.len()
            invariant
                i <= self.displays.len(),
                self@.tree_fits(replies@),
                live@ == self@.live(replies@),
                forall|entity: Entity| #![trigger held@.contains(entity)]
                    held@.contains(entity) <==> is_held(self.rows@, live@, *self.windows, entity),
                answers.len() == self.rows.len(),
                forall|j: int|
                    0 <= j < answers.len() ==> answered(#[trigger] answers@[j]) == self@.row_reply(
                        j,
                        replies@,
                    ),
                displays.len() == i,
                forall|j: int|
                    0 <= j < i ==> (#[trigger] displays@[j])@ == self@.display_set(
                        self.displays@[j],
                        replies@,
                    ),
            decreases self.displays.len() - i,
        {
            assert(self@.displays[i as int].bounds.sides_fit());
            displays.push(
                self.build_display(&self.displays[i], &live, &held, &answers, Ghost(replies@)),
            );
            i = i + 1;
        }
        assert(views(displays@) =~= self@.window_set(replies@).displays);
        WindowSet { displays, focused: self.windows.focused_window_id() }
    }

    /// Whether the sides of every display can be told in 32 bits.
    fn check_displays(&self) -> (fit: bool)
        ensures
            fit == self@.displays_fit(),
    {
        let mut i: usize = 0;
        while i < self.displays.len()
            invariant
                i <= self.displays.len(),
                forall|j: int| 0 <= j < i ==> (#[trigger] self@.displays[j]).bounds.sides_fit(),
            decreases self.displays.len() - i,
        {
            if !self.displays[i].bounds.check_sides() {
                assert(!self@.displays[i as int].bounds.sides_fit());
                return false;
            }
            i = i + 1;
        }
        true
    }

    /// Whether the frames of a row's windows can be told, given what was
    /// answered for it.
    fn check_row(
        &self,
        row: &QueryRow,
        live: &LiveSpaces,
        held: &HashSet<Entity>,
        reply: Option<&Vec<WinID>>,
    ) -> (fit: bool)
        requires
            forall|entity: Entity| #![trigger held@.contains(entity)]
                held@.contains(entity) <==> is_held(self.rows@, live@, *self.windows, entity),
        ensures
            fit == self@.row_fits(*row, live@, answered(reply)),
    {
        if !self.check_frames(&row.strip.all_windows()) {
            return false;
        }
        if !self.check_frames(&self.parked_floats(&row.strip.detached, row, live)) {
            return false;
        }
        match reply {
            Some(ids) => self.check_frames(&self.stray_floats(ids, live, held)),
            None => {
                assert(Seq::<WinID>::empty().filter_map(self@.stray(live@)) =~= Seq::empty());
                true
            },
        }
    }

    /// Whether every number in the tree fits, given all answers.
    fn check_all(&self, replies: &Vec<Reply>) -> (fit: bool)
        requires
            self@.tree_plan().len() <= replies.len(),
        ensures
            fit == self@.tree_fits(replies@),
    {
        if !self.check_numbers() || !self.check_displays() {
            return false;
        }
        let plan = spaces_to_ask(&strip_visibility(self.rows));
        let live = collect_spaces(&plan, replies);
        let held = held_windows(self.rows, &live, self.windows);
        let answers = self.row_answers(active_workspace_id(self.rows), plan.len(), replies);
        let mut i: usize = 0;
        while i < self.rows.len()
            invariant
                i <= self.rows.len(),
                live@ == self@.live(replies@),
                forall|entity: Entity| #![trigger held@.contains(entity)]
                    held@.contains(entity) <==> is_held(self.rows@, live@, *self.windows, entity),
                answers.len() == self.rows.len(),
                forall|j: int|
                    0 <= j < answers.len() ==> answered(#[trigger] answers@[j]) == self@.row_reply(
                        j,
                        replies@,
                    ),
                forall|j: int|
                    0 <= j < i ==> self@.row_fits(
                        #[trigger] self@.rows[j],
                        self@.live(replies@),
                        self@.row_reply(j, replies@),
                    ),
            decreases self.rows.len() - i,
        {
            assert(answered(answers@[i as int]) == self@.row_reply(i as int, replies@));
            if !self.check_row(&self.rows[i], &live, &held, answers[i]) {
                assert(!self@.row_fits(
                    self@.rows[i as int],
                    self@.live(replies@),
                    self@.row_reply(i as int, replies@),
                ));
                return false;
            }
            i = i + 1;
        }
        true
    }

    /// Whether the tree, once these answers allow to build it, has no number
    /// that does not fit.
    pub(crate) fn check_tree(&self, replies: &Vec<Reply>) -> (fit: bool)
        ensures
            fit == self@.can_build_tree(replies@),
    {
        let plan = self.list_tree_plan();
        match check_reading(&plan, replies) {
            Step::Ready(_) => self.check_all(replies),
            _ => true,
        }
    }

    /// Builds the tree, or says which space to ask about next. A space that
    /// cannot be enumerated fails it.
    pub fn extract_window_set(&self, replies: &Vec<Reply>) -> (step: Step<WindowSet>)
        requires
            self@.can_build_tree(replies@),
        ensures
            match step {
                Step::Ask(id) => reading(self@.tree_plan(), replies@) == Step::<()>::Ask(id),
                Step::Failed(error) => reading(self@.tree_plan(), replies@) == Step::<()>::Failed(
                    error,
                ),
                Step::Ready(set) => {
                    &&& reading(self@.tree_plan(), replies@) == Step::<()>::Ready(())
                    &&& set@ == self@.window_set(replies@)
                },
            },
    {
        let plan = self.list_tree_plan();
        match check_reading(&plan, replies) {
            Step::Ask(id) => Step::Ask(id),
            Step::Failed(error) => Step::Failed(error),
            Step::Ready(_) => Step::Ready(self.build_tree(replies)),
        }
    }
}

} // verus!
