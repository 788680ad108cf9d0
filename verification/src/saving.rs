//! Taking down the rows, spaces and displays for the next start.

use crate::clock::{is_read_now, now_timestamp};
use crate::layout::{Column, LayoutStrip, StackItem};
use crate::platform::{CGDirectDisplayID, Entity, WorkspaceId};
use crate::saved::{
    saved_window, PaneruState, PaneruStateView, SavedColumn, SavedColumnView, SavedDisplay,
    SavedDisplayView, SavedRect, SavedStackItem, SavedStackItemView, SavedStrip, SavedStripView,
    SavedWindow, SavedWindowView, SavedWorkspace, SavedWorkspaceView,
};
use crate::seqs::{
    by_rank, distinct, insert_ranked, lemma_by_rank_push, lemma_distinct_push, push_distinct,
    views,
};
use crate::world::{
    active_display, display_in_use, display_of, find_display, Application, Display, Windows,
};
use vstd::prelude::*;
use vstd::std_specs::convert::FromSpec;

verus! {

/// The layout of the saved state that is written, and the only one that is
/// read back.
pub const SUPPORTED_STATE_VERSION: u32 = 2;

/// A row, the display it belongs to, and whether it is the row in use.
#[derive(Clone, Debug, PartialEq, Eq)]
pub struct StripRow {
    pub parent: Option<Entity>,
    pub strip: LayoutStrip,
    pub active: bool,
}

/// What is saved of an entity, as a function.
pub open spec fn window_saver(windows: Windows, apps: Seq<Application>) -> spec_fn(Entity) -> Option<
    SavedWindowView,
> {
    |entity: Entity| saved_window(entity, windows, apps)
}

/// What is saved of an entity that is set aside: only a genuine float. A
/// minimised or hidden window is found to be so again at the next start, and
/// saved as a float it would be put back on screen.
pub open spec fn float_saver(windows: Windows, apps: Seq<Application>) -> spec_fn(Entity) -> Option<
    SavedWindowView,
> {
    |entity: Entity|
        if windows.floats(entity) {
            saved_window(entity, windows, apps)
        } else {
            None
        }
}

/// What is saved of tabs: nothing where nothing is saved of any of them.
pub open spec fn saved_tabs(tabs: Seq<Entity>, windows: Windows, apps: Seq<Application>) -> Option<
    Seq<SavedWindowView>,
> {
    let saved = tabs.filter_map(window_saver(windows, apps));
    if saved.len() == 0 {
        None
    } else {
        Some(saved)
    }
}

/// What is saved of a place in a stack.
pub open spec fn saved_item(item: StackItem, windows: Windows, apps: Seq<Application>) -> Option<
    SavedStackItemView,
> {
    match item {
        StackItem::Single(entity) => match saved_window(entity, windows, apps) {
            Some(window) => Some(SavedStackItemView::Single(window)),
            None => None,
        },
        StackItem::Tabs(tabs) => match saved_tabs(tabs@, windows, apps) {
            Some(tabs) => Some(SavedStackItemView::Tabs(tabs)),
            None => None,
        },
    }
}

/// What is saved of a place in a stack, as a function.
pub open spec fn item_saver(windows: Windows, apps: Seq<Application>) -> spec_fn(
    StackItem,
) -> Option<SavedStackItemView> {
    |item: StackItem| saved_item(item, windows, apps)
}

/// What is saved of a column: nothing where nothing is saved of any window in
/// it.
pub open spec fn saved_column(column: Column, windows: Windows, apps: Seq<Application>) -> Option<
    SavedColumnView,
> {
    match column {
        Column::Single(entity) => match saved_window(entity, windows, apps) {
            Some(window) => Some(SavedColumnView::Single(window)),
            None => None,
        },
        Column::Stack(items) => {
            let saved = items@.filter_map(item_saver(windows, apps));
            if saved.len() == 0 {
                None
            } else {
                Some(SavedColumnView::Stack(saved))
            }
        },
        Column::Tabs(tabs) => match saved_tabs(tabs@, windows, apps) {
            Some(tabs) => Some(SavedColumnView::Tabs(tabs)),
            None => None,
        },
        Column::Fullscreen(entity) => match saved_window(entity, windows, apps) {
            Some(window) => Some(SavedColumnView::Fullscreen(window)),
            None => None,
        },
    }
}

/// What is saved of a column, as a function.
pub open spec fn column_saver(windows: Windows, apps: Seq<Application>) -> spec_fn(
    Column,
) -> Option<SavedColumnView> {
    |column: Column| saved_column(column, windows, apps)
}

/// What is saved of a row.
pub open spec fn saved_strip(strip: LayoutStrip, windows: Windows, apps: Seq<Application>) -> SavedStripView {
    SavedStripView {
        virtual_index: strip.virtual_index,
        columns: strip.columns@.filter_map(column_saver(windows, apps)),
        floating: strip.detached@.filter_map(float_saver(windows, apps)),
    }
}

/// What is saved of a row of space `id`, as a function.
pub open spec fn strip_saver(
    id: WorkspaceId,
    windows: Windows,
    apps: Seq<Application>,
) -> spec_fn(StripRow) -> Option<SavedStripView> {
    |row: StripRow|
        if row.strip.id == id {
            Some(saved_strip(row.strip, windows, apps))
        } else {
            None
        }
}

/// The display of a row.
pub open spec fn row_display(row: StripRow, displays: Seq<Display>) -> Option<CGDirectDisplayID> {
    match row.parent {
        Some(entity) => display_of(displays, entity),
        None => None,
    }
}

/// The display of space `id`: that of its first row that has one.
pub open spec fn space_display(
    id: WorkspaceId,
    rows: Seq<StripRow>,
    displays: Seq<Display>,
) -> Option<CGDirectDisplayID>
    decreases rows.len(),
{
    if rows.len() == 0 {
        None
    } else {
        match space_display(id, rows.drop_last(), displays) {
            Some(display) => Some(display),
            None => if rows.last().strip.id == id {
                row_display(rows.last(), displays)
            } else {
                None
            },
        }
    }
}

/// The row of space `id` that is in use: the last one marked so.
pub open spec fn space_active_index(id: WorkspaceId, rows: Seq<StripRow>) -> Option<u32>
    decreases rows.len(),
{
    if rows.len() == 0 {
        None
    } else if rows.last().strip.id == id && rows.last().active {
        Some(rows.last().strip.virtual_index)
    } else {
        space_active_index(id, rows.drop_last())
    }
}

/// What is saved of space `id`: its rows from the first to the last.
pub open spec fn saved_workspace(
    id: WorkspaceId,
    rows: Seq<StripRow>,
    displays: Seq<Display>,
    windows: Windows,
    apps: Seq<Application>,
) -> SavedWorkspaceView {
    SavedWorkspaceView {
        workspace_id: id,
        display_id: space_display(id, rows, displays),
        active_virtual_index: space_active_index(id, rows),
        strips: by_rank::<SavedStrip>(rows.filter_map(strip_saver(id, windows, apps))),
    }
}

/// The space of a row, as a function.
pub open spec fn row_space() -> spec_fn(StripRow) -> WorkspaceId {
    |row: StripRow| row.strip.id
}

/// The spaces that have a row, in the order of their first rows.
pub open spec fn spaces_of(rows: Seq<StripRow>) -> Seq<WorkspaceId> {
    distinct(rows.map_values(row_space()))
}

/// The space of a row on the display of `entity`, as a function.
pub open spec fn row_space_on(entity: Entity) -> spec_fn(StripRow) -> Option<WorkspaceId> {
    |row: StripRow|
        if row.parent == Some(entity) {
            Some(row.strip.id)
        } else {
            None
        }
}

/// The spaces that have a row on the display of `entity`, each once.
pub open spec fn spaces_on(entity: Entity, rows: Seq<StripRow>) -> Seq<WorkspaceId> {
    distinct(rows.filter_map(row_space_on(entity)))
}

/// What is saved of a display.
pub open spec fn saved_display(display: Display, rows: Seq<StripRow>) -> SavedDisplayView {
    SavedDisplayView {
        display_id: display.id,
        bounds: SavedRect::from_spec(display.bounds),
        active: display.active,
        workspace_ids: spaces_on(display.entity, rows),
    }
}

/// What is saved of everything.
pub open spec fn saved_state(
    rows: Seq<StripRow>,
    displays: Seq<Display>,
    windows: Windows,
    apps: Seq<Application>,
    timestamp: u64,
) -> PaneruStateView {
    PaneruStateView {
        version: SUPPORTED_STATE_VERSION,
        timestamp,
        active_display_id: display_in_use(displays),
        displays: displays.map_values(|display: Display| saved_display(display, rows)),
        workspaces: spaces_of(rows).map_values(
            |id: WorkspaceId| saved_workspace(id, rows, displays, windows, apps),
        ),
    }
}

/// What becomes of a state that was read back: only the layout that is written
/// is understood.
pub open spec fn read_back(state: PaneruState) -> Option<PaneruState> {
    if state.version == SUPPORTED_STATE_VERSION {
        Some(state)
    } else {
        None
    }
}

/// Saves what can be saved of the windows listed.
fn save_windows(entities: &Vec<Entity>, windows: &Windows, apps: &Vec<Application>) -> (saved: Vec<
    SavedWindow,
>)
    ensures
        views(saved@) == entities@.filter_map(window_saver(*windows, apps@)),
{
    let ghost saver = window_saver(*windows, apps@);
    let mut saved: Vec<SavedWindow> = Vec::new();
    let mut i: usize = 0;
    assert(entities@.take(0) =~= Seq::<Entity>::empty());
    assert(views(saved@) =~= Seq::<SavedWindowView>::empty());
    while i < entities.len()
        invariant
            i <= entities.len(),
            saver == window_saver(*windows, apps@),
            views(saved@) == entities@.take(i as int).filter_map(saver),
        decreases entities.len() - i,
    {
        proof {
            entities@.lemma_filter_map_take_succ(saver, i as int);
        }
        if let Some(window) = SavedWindow::from_entity(entities[i], windows, apps) {
            saved.push(window);
        }
        i = i + 1;
        assert(views(saved@) =~= entities@.take(i as int).filter_map(saver));
    }
    assert(entities@.take(i as int) =~= entities@);
    saved
}

/// Saves the genuine floats among the windows listed.
fn save_floats(entities: &Vec<Entity>, windows: &Windows, apps: &Vec<Application>) -> (saved: Vec<
    SavedWindow,
>)
    ensures
        views(saved@) == entities@.filter_map(float_saver(*windows, apps@)),
{
    let ghost saver = float_saver(*windows, apps@);
    let mut saved: Vec<SavedWindow> = Vec::new();
    let mut i: usize = 0;
    assert(entities@.take(0) =~= Seq::<Entity>::empty());
    assert(views(saved@) =~= Seq::<SavedWindowView>::empty());
    while i < entities.len()
        invariant
            i <= entities.len(),
            saver == float_saver(*windows, apps@),
            views(saved@) == entities@.take(i as int).filter_map(saver),
        decreases entities.len() - i,
    {
        proof {
            entities@.lemma_filter_map_take_succ(saver, i as int);
        }
        if windows.is_floating(entities[i]) {
            if let Some(window) = SavedWindow::from_entity(entities[i], windows, apps) {
                saved.push(window);
            }
        }
        i = i + 1;
        assert(views(saved@) =~= entities@.take(i as int).filter_map(saver));
    }
    assert(entities@.take(i as int) =~= entities@);
    saved
}

/// Saves a place in a stack.
fn save_item(item: &StackItem, windows: &Windows, apps: &Vec<Application>) -> (saved: Option<
    SavedStackItem,
>)
    ensures
        match saved {
            Some(saved) => saved_item(*item, *windows, apps@) == Some(saved@),
            None => saved_item(*item, *windows, apps@) is None,
        },
{
    match item {
        StackItem::Single(entity) => match SavedWindow::from_entity(*entity, windows, apps) {
            Some(window) => Some(SavedStackItem::Single(window)),
            None => None,
        },
        StackItem::Tabs(tabs) => {
            let saved = save_windows(tabs, windows, apps);
            if saved.len() == 0 {
                None
            } else {
                Some(SavedStackItem::Tabs(saved))
            }
        },
    }
}

/// Saves the places of a stack.
fn save_items(items: &Vec<StackItem>, windows: &Windows, apps: &Vec<Application>) -> (saved: Vec<
    SavedStackItem,
>)
    ensures
        views(saved@) == items@.filter_map(item_saver(*windows, apps@)),
{
    let ghost saver = item_saver(*windows, apps@);
    let mut saved: Vec<SavedStackItem> = Vec::new();
    let mut i: usize = 0;
    assert(items@.take(0) =~= Seq::<StackItem>::empty());
    assert(views(saved@) =~= Seq::<SavedStackItemView>::empty());
    while i < items.len()
        invariant
            i <= items.len(),
            saver == item_saver(*windows, apps@),
            views(saved@) == items@.take(i as int).filter_map(saver),
        decreases items.len() - i,
    {
        proof {
            items@.lemma_filter_map_take_succ(saver, i as int);
        }
        if let Some(item) = save_item(&items[i], windows, apps) {
            saved.push(item);
        }
        i = i + 1;
        assert(views(saved@) =~= items@.take(i as int).filter_map(saver));
    }
    assert(items@.take(i as int) =~= items@);
    saved
}

/// Saves a column.
fn save_column(column: &Column, windows: &Windows, apps: &Vec<Application>) -> (saved: Option<
    SavedColumn,
>)
    ensures
        match saved {
            Some(saved) => saved_column(*column, *windows, apps@) == Some(saved@),
            None => saved_column(*column, *windows, apps@) is None,
        },
{
    match column {
        Column::Single(entity) => match SavedWindow::from_entity(*entity, windows, apps) {
            Some(window) => Some(SavedColumn::Single(window)),
            None => None,
        },
        Column::Stack(items) => {
            let saved = save_items(items, windows, apps);
            if saved.len() == 0 {
                None
            } else {
                Some(SavedColumn::Stack(saved))
            }
        },
        Column::Tabs(tabs) => {
            let saved = save_windows(tabs, windows, apps);
            if saved.len() == 0 {
                None
            } else {
                Some(SavedColumn::Tabs(saved))
            }
        },
        Column::Fullscreen(entity) => match SavedWindow::from_entity(*entity, windows, apps) {
            Some(window) => Some(SavedColumn::Fullscreen(window)),
            None => None,
        },
    }
}

/// Saves a row.
fn save_strip(strip: &LayoutStrip, windows: &Windows, apps: &Vec<Application>) -> (saved: SavedStrip)
    ensures
        saved@ == saved_strip(*strip, *windows, apps@),
{
    let ghost saver = column_saver(*windows, apps@);
    let mut columns: Vec<SavedColumn> = Vec::new();
    let mut i: usize = 0;
    assert(strip.columns@.take(0) =~= Seq::<Column>::empty());
    assert(views(columns@) =~= Seq::<SavedColumnView>::empty());
    while i < strip.columns.len()
        invariant
            i <= strip.columns.len(),
            saver == column_saver(*windows, apps@),
            views(columns@) == strip.columns@.take(i as int).filter_map(saver),
        decreases strip.columns.len() - i,
    {
        proof {
            strip.columns@.lemma_filter_map_take_succ(saver, i as int);
        }
        if let Some(column) = save_column(&strip.columns[i], windows, apps) {
            columns.push(column);
        }
        i = i + 1;
        assert(views(columns@) =~= strip.columns@.take(i as int).filter_map(saver));
    }
    assert(strip.columns@.take(i as int) =~= strip.columns@);
    SavedStrip {
        virtual_index: strip.virtual_index,
        columns,
        floating: save_floats(&strip.detached, windows, apps),
    }
}

/// What has been gathered of a space so far.
struct SavedWorkspaceBuilder {
    display_id: Option<CGDirectDisplayID>,
    active_virtual_index: Option<u32>,
    strips: Vec<SavedStrip>,
}

/// Saves space `id` with all its rows.
fn save_workspace(
    id: WorkspaceId,
    rows: &Vec<StripRow>,
    displays: &Vec<Display>,
    windows: &Windows,
    apps: &Vec<Application>,
) -> (saved: SavedWorkspace)
    ensures
        saved@ == saved_workspace(id, rows@, displays@, *windows, apps@),
{
    let ghost saver = strip_saver(id, *windows, apps@);
    let mut workspace = SavedWorkspaceBuilder {
        display_id: None,
        active_virtual_index: None,
        strips: Vec::new(),
    };
    let mut i: usize = 0;
    assert(rows@.take(0) =~= Seq::<StripRow>::empty());
    assert(views(workspace.strips@) =~= Seq::<SavedStripView>::empty());
    while i < rows.len()
        invariant
            i <= rows.len(),
            saver == strip_saver(id, *windows, apps@),
            workspace.display_id == space_display(id, rows@.take(i as int), displays@),
            workspace.active_virtual_index == space_active_index(id, rows@.take(i as int)),
            views(workspace.strips@) == by_rank::<SavedStrip>(
                rows@.take(i as int).filter_map(saver),
            ),
        decreases rows.len() - i,
    {
        let row = &rows[i];
        proof {
            rows@.lemma_filter_map_take_succ(saver, i as int);
            assert(rows@.take(i + 1).drop_last() =~= rows@.take(i as int));
            let before_row = rows@.take(i as int).filter_map(saver);
            if row.strip.id == id {
                let saved = saved_strip(row.strip, *windows, apps@);
                assert(before_row + seq![saved] =~= before_row.push(saved));
                lemma_by_rank_push::<SavedStrip>(before_row, saved);
            } else {
                assert(before_row + Seq::<SavedStripView>::empty() =~= before_row);
            }
        }
        if row.strip.id == id {
            if workspace.display_id.is_none() {
                workspace.display_id = match row.parent {
                    Some(entity) => find_display(displays, entity),
                    None => None,
                };
            }
            if row.active {
                workspace.active_virtual_index = Some(row.strip.virtual_index);
            }
            insert_ranked(&mut workspace.strips, save_strip(&row.strip, windows, apps));
        }
        i = i + 1;
    }
    assert(rows@.take(i as int) =~= rows@);
    SavedWorkspace {
        workspace_id: id,
        display_id: workspace.display_id,
        active_virtual_index: workspace.active_virtual_index,
        strips: workspace.strips,
    }
}

/// Lists the spaces that have a row, in the order of their first rows.
fn list_spaces(rows: &Vec<StripRow>) -> (ids: Vec<WorkspaceId>)
    ensures
        ids@ == spaces_of(rows@),
{
    let ghost all = rows@.map_values(row_space());
    let mut ids: Vec<WorkspaceId> = Vec::new();
    let mut i: usize = 0;
    assert(all.take(0) =~= Seq::<WorkspaceId>::empty());
    while i < rows.len()
        invariant
            i <= rows.len(),
            all == rows@.map_values(row_space()),
            ids@ == distinct(all.take(i as int)),
        decreases rows.len() - i,
    {
        proof {
            assert(all.take(i + 1) =~= all.take(i as int).push(rows@[i as int].strip.id));
            lemma_distinct_push(all.take(i as int), rows@[i as int].strip.id);
        }
        push_distinct(&mut ids, rows[i].strip.id);
        i = i + 1;
    }
    assert(all.take(i as int) =~= all);
    ids
}

/// Saves a display with the spaces that have a row on it.
fn save_display(display: &Display, rows: &Vec<StripRow>) -> (saved: SavedDisplay)
    ensures
        saved@ == saved_display(*display, rows@),
{
    let ghost on = row_space_on(display.entity);
    let mut workspace_ids: Vec<WorkspaceId> = Vec::new();
    let mut i: usize = 0;
    assert(rows@.take(0) =~= Seq::<StripRow>::empty());
    while i < rows.len()
        invariant
            i <= rows.len(),
            on == row_space_on(display.entity),
            workspace_ids@ == distinct(rows@.take(i as int).filter_map(on)),
        decreases rows.len() - i,
    {
        proof {
            rows@.lemma_filter_map_take_succ(on, i as int);
            let so_far = rows@.take(i as int).filter_map(on);
            let id = rows@[i as int].strip.id;
            assert(so_far + seq![id] =~= so_far.push(id));
            assert(so_far + Seq::<WorkspaceId>::empty() =~= so_far);
            lemma_distinct_push(so_far, id);
        }
        if rows[i].parent == Some(display.entity) {
            push_distinct(&mut workspace_ids, rows[i].strip.id);
        }
        i = i + 1;
    }
    assert(rows@.take(i as int) =~= rows@);
    SavedDisplay {
        display_id: display.id,
        bounds: SavedRect::from(display.bounds),
        active: display.active,
        workspace_ids,
    }
}

impl PaneruState {
    /// Takes the desktop down as of `timestamp`.
    pub fn extract_at(
        workspaces: &Vec<StripRow>,
        displays: &Vec<Display>,
        windows: &Windows,
        apps: &Vec<Application>,
        timestamp: u64,
    ) -> (state: PaneruState)
        ensures
            state@ == saved_state(workspaces@, displays@, *windows, apps@, timestamp),
    {
        let mut saved_displays: Vec<SavedDisplay> = Vec::new();
        let mut i: usize = 0;
        while i < displays.len()
            invariant
                i <= displays.len(),
                saved_displays.len() == i,
                forall|j: int|
                    0 <= j < i ==> (#[trigger] saved_displays@[j])@ == saved_display(
                        displays@[j],
                        workspaces@,
                    ),
            decreases displays.len() - i,
        {
            saved_displays.push(save_display(&displays[i], workspaces));
            i = i + 1;
        }
        let ids = list_spaces(workspaces);
        let mut saved_workspaces: Vec<SavedWorkspace> = Vec::new();
        let mut k: usize = 0;
        while k < ids.len()
            invariant
                k <= ids.len(),
                saved_workspaces.len() == k,
                forall|j: int|
                    0 <= j < k ==> (#[trigger] saved_workspaces@[j])@ == saved_workspace(
                        ids@[j],
                        workspaces@,
                        displays@,
                        *windows,
                        apps@,
                    ),
            decreases ids.len() - k,
        {
            saved_workspaces.push(save_workspace(ids[k], workspaces, displays, windows, apps));
            k = k + 1;
        }
        let state = PaneruState {
            version: SUPPORTED_STATE_VERSION,
            timestamp,
            active_display_id: active_display(displays),
            displays: saved_displays,
            workspaces: saved_workspaces,
        };
        proof {
            let model = saved_state(workspaces@, displays@, *windows, apps@, timestamp);
            assert(state@.displays =~= model.displays);
            assert(state@.workspaces =~= model.workspaces);
        }
        state
    }

    /// Takes the desktop down now. The clock decides the timestamp; everything
    /// else follows from the desktop.
    pub fn extract(
        workspaces: &Vec<StripRow>,
        displays: &Vec<Display>,
        windows: &Windows,
        apps: &Vec<Application>,
    ) -> (state: PaneruState)
        ensures
            state@ == saved_state(workspaces@, displays@, *windows, apps@, state.timestamp),
            is_read_now(state.timestamp),
    {
        PaneruState::extract_at(workspaces, displays, windows, apps, now_timestamp())
    }

    /// The state that was read back, if its layout is the one that is read.
    pub fn if_supported(self) -> (state: Option<PaneruState>)
        ensures
            state == read_back(self),
    {
        if self.version == SUPPORTED_STATE_VERSION {
            Some(self)
        } else {
            None
        }
    }
}

} // verus!
