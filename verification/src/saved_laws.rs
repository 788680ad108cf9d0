//! What holds of every saved state.

use crate::layout::{column_members, item_members, Column, LayoutStrip, StackItem};
use crate::matching::{
    column_places, is_place, place_in, saved_item_windows, strip_places, workspace_places,
    SavedPlace,
};
use crate::platform::{Entity, Pid, WinID, WorkspaceId};
use crate::saved::{
    saved_window, PaneruState, PaneruStateView, SavedColumnView, SavedStrip, SavedStripView,
    SavedWindowView,
};
use crate::saving::{
    column_saver, float_saver, item_saver, read_back, row_display, row_space, row_space_on,
    saved_column, saved_display, saved_item, saved_state, saved_strip, saved_workspace,
    space_display, spaces_of, strip_saver, window_saver, StripRow,
};
use crate::seqs::{
    distinct, first_where, lemma_by_rank_contains, lemma_by_rank_ordered, lemma_distinct,
    lemma_filter_map_contains, lemma_first_is_listed, lemma_first_is_none, lemma_gather_contains,
    numbered, ordered,
};
use crate::world::{is_display, is_in_use, Application, Display, Windows};
use vstd::prelude::*;

verus! {

/// A state that was taken down is understood when it is read back.
pub proof fn lemma_saved_state_is_read_back(
    state: PaneruState,
    rows: Seq<StripRow>,
    displays: Seq<Display>,
    windows: Windows,
    apps: Seq<Application>,
    timestamp: u64,
)
    requires
        state@ == saved_state(rows, displays, windows, apps, timestamp),
    ensures
        read_back(state) == Some(state),
{
}

/// The spaces saved are those that have a row, each once.
pub proof fn lemma_spaces_saved_once(
    rows: Seq<StripRow>,
    displays: Seq<Display>,
    windows: Windows,
    apps: Seq<Application>,
    timestamp: u64,
)
    ensures
        ({
            let workspaces = saved_state(rows, displays, windows, apps, timestamp).workspaces;
            &&& forall|i: int, j: int|
                0 <= i < j < workspaces.len() ==> (#[trigger] workspaces[i]).workspace_id != (
                #[trigger] workspaces[j]).workspace_id
            &&& forall|i: int|
                0 <= i < workspaces.len() ==> exists|k: int|
                    0 <= k < rows.len() && (#[trigger] rows[k]).strip.id == (
                    #[trigger] workspaces[i]).workspace_id
        }),
{
    let ids = rows.map_values(row_space());
    lemma_distinct(ids);
    let workspaces = saved_state(rows, displays, windows, apps, timestamp).workspaces;
    assert forall|i: int| 0 <= i < workspaces.len() implies exists|k: int|
        0 <= k < rows.len() && (#[trigger] rows[k]).strip.id == (
        #[trigger] workspaces[i]).workspace_id by {
        let id = workspaces[i].workspace_id;
        assert(id == spaces_of(rows)[i]);
        assert(distinct(ids).contains(id));
        let k = choose|k: int| 0 <= k < ids.len() && ids[k] == id;
        assert(rows[k].strip.id == id);
    }
}

/// Every row is saved with its space, and a saved space holds no row that is
/// not its own.
pub proof fn lemma_rows_saved(
    rows: Seq<StripRow>,
    displays: Seq<Display>,
    windows: Windows,
    apps: Seq<Application>,
    timestamp: u64,
)
    ensures
        ({
            let workspaces = saved_state(rows, displays, windows, apps, timestamp).workspaces;
            &&& forall|k: int|
                0 <= k < rows.len() ==> exists|i: int|
                    {
                        &&& 0 <= i < workspaces.len()
                        &&& (#[trigger] workspaces[i]).workspace_id == (#[trigger] rows[k]).strip.id
                        &&& workspaces[i].strips.contains(
                            saved_strip(rows[k].strip, windows, apps),
                        )
                    }
            &&& forall|i: int, strip: SavedStripView|
                0 <= i < workspaces.len() && #[trigger] workspaces[i].strips.contains(strip)
                    ==> exists|k: int|
                    {
                        &&& 0 <= k < rows.len()
                        &&& (#[trigger] rows[k]).strip.id == workspaces[i].workspace_id
                        &&& strip == saved_strip(rows[k].strip, windows, apps)
                    }
        }),
{
    let workspaces = saved_state(rows, displays, windows, apps, timestamp).workspaces;
    assert forall|k: int| 0 <= k < rows.len() implies exists|i: int|
        {
            &&& 0 <= i < workspaces.len()
            &&& (#[trigger] workspaces[i]).workspace_id == (#[trigger] rows[k]).strip.id
            &&& workspaces[i].strips.contains(saved_strip(rows[k].strip, windows, apps))
        } by {
        lemma_row_saved(rows, displays, windows, apps, timestamp, k);
    }
    assert forall|i: int, strip: SavedStripView|
        0 <= i < workspaces.len() && #[trigger] workspaces[i].strips.contains(
            strip,
        ) implies exists|k: int|
        {
            &&& 0 <= k < rows.len()
            &&& (#[trigger] rows[k]).strip.id == workspaces[i].workspace_id
            &&& strip == saved_strip(rows[k].strip, windows, apps)
        } by {
        let id = spaces_of(rows)[i];
        let saver = strip_saver(id, windows, apps);
        lemma_by_rank_contains::<SavedStrip>(rows.filter_map(saver), strip);
        lemma_filter_map_contains(rows, saver, strip);
        let k = choose|k: int| 0 <= k < rows.len() && saver(#[trigger] rows[k]) == Some(strip);
        assert(rows[k].strip.id == id);
    }
}

proof fn lemma_row_saved(
    rows: Seq<StripRow>,
    displays: Seq<Display>,
    windows: Windows,
    apps: Seq<Application>,
    timestamp: u64,
    k: int,
) -> (i: int)
    requires
        0 <= k < rows.len(),
    ensures
        ({
            let workspaces = saved_state(rows, displays, windows, apps, timestamp).workspaces;
            &&& 0 <= i < workspaces.len()
            &&& workspaces[i].workspace_id == rows[k].strip.id
            &&& workspaces[i].strips.contains(saved_strip(rows[k].strip, windows, apps))
        }),
{
    let ids = rows.map_values(row_space());
    let id = rows[k].strip.id;
    lemma_distinct(ids);
    assert(ids[k] == id);
    assert(ids.contains(id));
    assert(distinct(ids).contains(id));
    let i = choose|i: int| 0 <= i < spaces_of(rows).len() && spaces_of(rows)[i] == id;
    let strip = saved_strip(rows[k].strip, windows, apps);
    let saver = strip_saver(id, windows, apps);
    assert(saver(rows[k]) == Some(strip));
    lemma_filter_map_contains(rows, saver, strip);
    lemma_by_rank_contains::<SavedStrip>(rows.filter_map(saver), strip);
    i
}

/// The rows of a saved space go from the first to the last.
pub proof fn lemma_rows_in_order(
    rows: Seq<StripRow>,
    displays: Seq<Display>,
    windows: Windows,
    apps: Seq<Application>,
    timestamp: u64,
)
    ensures
        ({
            let workspaces = saved_state(rows, displays, windows, apps, timestamp).workspaces;
            forall|w: int, i: int, j: int|
                #![trigger workspaces[w].strips[i], workspaces[w].strips[j]]
                0 <= w < workspaces.len() && 0 <= i < j < workspaces[w].strips.len()
                    ==> workspaces[w].strips[i].virtual_index
                    <= workspaces[w].strips[j].virtual_index
        }),
{
    let workspaces = saved_state(rows, displays, windows, apps, timestamp).workspaces;
    assert forall|w: int, i: int, j: int|
        #![trigger workspaces[w].strips[i], workspaces[w].strips[j]]
        0 <= w < workspaces.len() && 0 <= i < j
            < workspaces[w].strips.len() implies workspaces[w].strips[i].virtual_index
        <= workspaces[w].strips[j].virtual_index by {
        lemma_by_rank_ordered::<SavedStrip>(
            rows.filter_map(strip_saver(spaces_of(rows)[w], windows, apps)),
        );
        assert(ordered::<SavedStrip>(workspaces[w].strips));
    }
}

/// A display lists a space once, and only where one of its rows is on that
/// space.
pub proof fn lemma_display_lists_spaces_once(display: Display, rows: Seq<StripRow>)
    ensures
        saved_display(display, rows).workspace_ids.no_duplicates(),
        forall|id: WorkspaceId|
            #[trigger] saved_display(display, rows).workspace_ids.contains(id) <==> exists|k: int|
                {
                    &&& 0 <= k < rows.len()
                    &&& (#[trigger] rows[k]).parent == Some(display.entity)
                    &&& rows[k].strip.id == id
                },
{
    let on = row_space_on(display.entity);
    lemma_distinct(rows.filter_map(on));
    assert forall|id: WorkspaceId|
        #[trigger] saved_display(display, rows).workspace_ids.contains(id) <==> exists|k: int|
            {
                &&& 0 <= k < rows.len()
                &&& (#[trigger] rows[k]).parent == Some(display.entity)
                &&& rows[k].strip.id == id
            } by {
        lemma_filter_map_contains(rows, on, id);
        if exists|k: int|
            {
                &&& 0 <= k < rows.len()
                &&& (#[trigger] rows[k]).parent == Some(display.entity)
                &&& rows[k].strip.id == id
            } {
            let k = choose|k: int|
                {
                    &&& 0 <= k < rows.len()
                    &&& (#[trigger] rows[k]).parent == Some(display.entity)
                    &&& rows[k].strip.id == id
                };
            assert(on(rows[k]) == Some(id));
        }
    }
}

/// A space that some display lists has a display in its own entry too.
pub proof fn lemma_listed_space_has_display(
    rows: Seq<StripRow>,
    displays: Seq<Display>,
    windows: Windows,
    apps: Seq<Application>,
    d: int,
    id: WorkspaceId,
)
    requires
        0 <= d < displays.len(),
        saved_display(displays[d], rows).workspace_ids.contains(id),
    ensures
        saved_workspace(id, rows, displays, windows, apps).display_id is Some,
{
    lemma_display_lists_spaces_once(displays[d], rows);
    let k = choose|k: int|
        {
            &&& 0 <= k < rows.len()
            &&& (#[trigger] rows[k]).parent == Some(displays[d].entity)
            &&& rows[k].strip.id == id
        };
    lemma_first_is_none(displays, is_display(displays[d].entity), 0);
    assert(is_display(displays[d].entity)(displays[d]));
    assert(row_display(rows[k], displays) is Some);
    lemma_space_display(id, rows, displays, k);
}

proof fn lemma_space_display(id: WorkspaceId, rows: Seq<StripRow>, displays: Seq<Display>, k: int)
    requires
        0 <= k < rows.len(),
        rows[k].strip.id == id,
        row_display(rows[k], displays) is Some,
    ensures
        space_display(id, rows, displays) is Some,
    decreases rows.len(),
{
    if k < rows.len() - 1 {
        lemma_space_display(id, rows.drop_last(), displays, k);
    }
}

/// The display that is named as the one in use is saved as such.
pub proof fn lemma_active_display_is_saved(
    rows: Seq<StripRow>,
    displays: Seq<Display>,
    windows: Windows,
    apps: Seq<Application>,
    timestamp: u64,
)
    ensures
        ({
            let state = saved_state(rows, displays, windows, apps, timestamp);
            match state.active_display_id {
                Some(id) => exists|d: int|
                    {
                        &&& 0 <= d < state.displays.len()
                        &&& (#[trigger] state.displays[d]).active
                        &&& state.displays[d].display_id == id
                    },
                None => forall|d: int|
                    0 <= d < state.displays.len() ==> !(#[trigger] state.displays[d]).active,
            }
        }),
{
    let state = saved_state(rows, displays, windows, apps, timestamp);
    lemma_first_is_listed(displays, is_in_use(), 0);
    lemma_first_is_none(displays, is_in_use(), 0);
    match first_where(displays, is_in_use()) {
        Some(display) => {
            let d = choose|d: int| 0 <= d < displays.len() && displays[d] == display;
            assert(state.displays[d] == saved_display(displays[d], rows));
            assert(state.displays[d].active);
        },
        None => {
            assert forall|d: int| 0 <= d < state.displays.len() implies !(
            #[trigger] state.displays[d]).active by {
                assert(state.displays[d] == saved_display(displays[d], rows));
                assert(!is_in_use()(displays[d]));
            }
        },
    }
}

/// Of the windows that a row sets aside, the genuine floats are saved, and no
/// others.
pub proof fn lemma_only_floats_saved(
    strip: LayoutStrip,
    windows: Windows,
    apps: Seq<Application>,
    saved: SavedWindowView,
)
    ensures
        saved_strip(strip, windows, apps).floating.contains(saved) <==> exists|i: int|
            {
                &&& 0 <= i < strip.detached@.len()
                &&& windows.floats(#[trigger] strip.detached@[i])
                &&& saved_window(strip.detached@[i], windows, apps) == Some(saved)
            },
{
    let saver = float_saver(windows, apps);
    lemma_filter_map_contains(strip.detached@, saver, saved);
    if exists|i: int|
        {
            &&& 0 <= i < strip.detached@.len()
            &&& windows.floats(#[trigger] strip.detached@[i])
            &&& saved_window(strip.detached@[i], windows, apps) == Some(saved)
        } {
        let i = choose|i: int|
            {
                &&& 0 <= i < strip.detached@.len()
                &&& windows.floats(#[trigger] strip.detached@[i])
                &&& saved_window(strip.detached@[i], windows, apps) == Some(saved)
            };
        assert(saver(strip.detached@[i]) == Some(saved));
    }
}

/// No column is saved without a window in it.
pub proof fn lemma_no_empty_column(
    strip: LayoutStrip,
    windows: Windows,
    apps: Seq<Application>,
    column: SavedColumnView,
)
    requires
        saved_strip(strip, windows, apps).columns.contains(column),
    ensures
        column.windows().len() > 0,
{
    let saver = column_saver(windows, apps);
    lemma_filter_map_contains(strip.columns@, saver, column);
    let i = choose|i: int|
        0 <= i < strip.columns@.len() && saver(#[trigger] strip.columns@[i]) == Some(column);
    match strip.columns@[i] {
        Column::Stack(items) => {
            let saved = items@.filter_map(item_saver(windows, apps));
            let item = saved[0];
            assert(saved.contains(item));
            lemma_filter_map_contains(items@, item_saver(windows, apps), item);
            let j = choose|j: int|
                0 <= j < items@.len() && item_saver(windows, apps)(#[trigger] items@[j]) == Some(
                    item,
                );
            assert(item.windows().len() > 0);
            let window = item.windows()[0];
            assert(saved_item_windows()(saved[0]).contains(window));
            lemma_gather_contains(saved, saved_item_windows(), window);
            assert(column.windows().contains(window));
        },
        _ => {},
    }
}

/// A window that is laid out and can be saved is saved with its column.
proof fn lemma_member_saved(
    column: Column,
    windows: Windows,
    apps: Seq<Application>,
    entity: Entity,
    window: SavedWindowView,
)
    requires
        column.members().contains(entity),
        saved_window(entity, windows, apps) == Some(window),
    ensures
        saved_column(column, windows, apps) matches Some(saved) && saved.windows().contains(window),
{
    match column {
        Column::Single(e) => {
            assert(seq![window].contains(seq![window][0]));
        },
        Column::Fullscreen(e) => {
            assert(seq![window].contains(seq![window][0]));
        },
        Column::Tabs(tabs) => {
            lemma_tab_saved(tabs@, windows, apps, entity, window);
        },
        Column::Stack(items) => {
            lemma_gather_contains(items@, item_members(), entity);
            let j = choose|j: int|
                0 <= j < items@.len() && item_members()(#[trigger] items@[j]).contains(entity);
            match items@[j] {
                StackItem::Single(e) => {
                    assert(seq![window].contains(seq![window][0]));
                },
                StackItem::Tabs(tabs) => {
                    lemma_tab_saved(tabs@, windows, apps, entity, window);
                },
            }
            let item = saved_item(items@[j], windows, apps)->0;
            let saver = item_saver(windows, apps);
            assert(saver(items@[j]) == Some(item));
            lemma_filter_map_contains(items@, saver, item);
            let saved = items@.filter_map(saver);
            let k = choose|k: int| 0 <= k < saved.len() && saved[k] == item;
            assert(saved_item_windows()(saved[k]).contains(window));
            lemma_gather_contains(saved, saved_item_windows(), window);
        },
    }
}

proof fn lemma_tab_saved(
    tabs: Seq<Entity>,
    windows: Windows,
    apps: Seq<Application>,
    entity: Entity,
    window: SavedWindowView,
)
    requires
        tabs.contains(entity),
        saved_window(entity, windows, apps) == Some(window),
    ensures
        tabs.filter_map(window_saver(windows, apps)).contains(window),
{
    let k = choose|k: int| 0 <= k < tabs.len() && tabs[k] == entity;
    assert(window_saver(windows, apps)(tabs[k]) == Some(window));
    lemma_filter_map_contains(tabs, window_saver(windows, apps), window);
}

/// Every window that was laid out and could be saved is found again by its
/// numbers and its bundle.
pub proof fn lemma_saved_window_is_found(
    rows: Seq<StripRow>,
    displays: Seq<Display>,
    windows: Windows,
    apps: Seq<Application>,
    timestamp: u64,
    row: int,
    entity: Entity,
)
    requires
        0 <= row < rows.len(),
        rows[row].strip.laid_out().contains(entity),
        saved_window(entity, windows, apps) is Some,
    ensures
        ({
            let window = saved_window(entity, windows, apps)->0;
            let state = saved_state(rows, displays, windows, apps, timestamp);
            first_where(
                state.places(),
                is_place(window.window_id, window.pid, window.bundle_id),
            ) matches Some(place) && place.window.hard_matches(
                window.window_id,
                window.pid,
                window.bundle_id,
            )
        }),
{
    let window = saved_window(entity, windows, apps)->0;
    let state = saved_state(rows, displays, windows, apps, timestamp);
    let strip = rows[row].strip;
    lemma_gather_contains(strip.columns@, column_members(), entity);
    let c = choose|c: int|
        0 <= c < strip.columns@.len() && column_members()(#[trigger] strip.columns@[c]).contains(
            entity,
        );
    lemma_member_saved(strip.columns@[c], windows, apps, entity, window);
    let column = saved_column(strip.columns@[c], windows, apps)->0;
    let saver = column_saver(windows, apps);
    assert(saver(strip.columns@[c]) == Some(column));
    lemma_filter_map_contains(strip.columns@, saver, column);
    let saved = saved_strip(strip, windows, apps);
    let k = choose|k: int| 0 <= k < saved.columns.len() && saved.columns[k] == column;
    let w = lemma_row_saved(rows, displays, windows, apps, timestamp, row);
    let id = strip.id;
    let place = place_in(id, strip.virtual_index, k)(window);
    let m = choose|m: int| 0 <= m < column.windows().len() && column.windows()[m] == window;
    let listed = column.windows().map_values(place_in(id, strip.virtual_index, k));
    assert(listed[m] == place);
    let f = column_places(id, strip.virtual_index);
    assert(f(numbered(saved.columns)[k]) == listed);
    assert(f(numbered(saved.columns)[k]).contains(place));
    lemma_gather_contains(numbered(saved.columns), f, place);
    let strips = state.workspaces[w].strips;
    let s = choose|s: int| 0 <= s < strips.len() && strips[s] == saved;
    assert(strip_places(id)(strips[s]).contains(place));
    lemma_gather_contains(strips, strip_places(id), place);
    assert(workspace_places()(state.workspaces[w]).contains(place));
    lemma_gather_contains(state.workspaces, workspace_places(), place);
    let p = is_place(window.window_id, window.pid, window.bundle_id);
    let at = choose|at: int| 0 <= at < state.places().len() && state.places()[at] == place;
    assert(p(state.places()[at]));
    lemma_first_is_none(state.places(), p, 0);
    lemma_first_is_listed(state.places(), p, 0);
}

/// A saved tab is what was saved of one of the tabs.
proof fn lemma_saved_tab_origin(
    tabs: Seq<Entity>,
    windows: Windows,
    apps: Seq<Application>,
    window: SavedWindowView,
) -> (entity: Entity)
    requires
        tabs.filter_map(window_saver(windows, apps)).contains(window),
    ensures
        tabs.contains(entity),
        saved_window(entity, windows, apps) == Some(window),
{
    lemma_filter_map_contains(tabs, window_saver(windows, apps), window);
    let k = choose|k: int|
        0 <= k < tabs.len() && window_saver(windows, apps)(#[trigger] tabs[k]) == Some(window);
    tabs[k]
}

/// A window in a saved column is what was saved of a window in the column.
proof fn lemma_saved_member_origin(
    column: Column,
    windows: Windows,
    apps: Seq<Application>,
    window: SavedWindowView,
) -> (entity: Entity)
    requires
        saved_column(column, windows, apps) matches Some(saved) && saved.windows().contains(window),
    ensures
        column.members().contains(entity),
        saved_window(entity, windows, apps) == Some(window),
{
    match column {
        Column::Single(e) => {
            assert(column.members()[0] == e);
            e
        },
        Column::Fullscreen(e) => {
            assert(column.members()[0] == e);
            e
        },
        Column::Tabs(tabs) => lemma_saved_tab_origin(tabs@, windows, apps, window),
        Column::Stack(items) => {
            let saver = item_saver(windows, apps);
            let saved = items@.filter_map(saver);
            lemma_gather_contains(saved, saved_item_windows(), window);
            let k = choose|k: int|
                0 <= k < saved.len() && saved_item_windows()(#[trigger] saved[k]).contains(window);
            assert(saved.contains(saved[k]));
            lemma_filter_map_contains(items@, saver, saved[k]);
            let j = choose|j: int|
                0 <= j < items@.len() && saver(#[trigger] items@[j]) == Some(saved[k]);
            let entity = match items@[j] {
                StackItem::Single(e) => {
                    assert(items@[j].members()[0] == e);
                    e
                },
                StackItem::Tabs(tabs) => lemma_saved_tab_origin(tabs@, windows, apps, window),
            };
            assert(item_members()(items@[j]).contains(entity));
            lemma_gather_contains(items@, item_members(), entity);
            entity
        },
    }
}

/// Every place in a saved state is that of a window that was laid out: its
/// space, its row, and what was saved of it.
pub proof fn lemma_place_origin(
    rows: Seq<StripRow>,
    displays: Seq<Display>,
    windows: Windows,
    apps: Seq<Application>,
    timestamp: u64,
    place: SavedPlace,
) -> (origin: (int, Entity))
    requires
        saved_state(rows, displays, windows, apps, timestamp).places().contains(place),
    ensures
        0 <= origin.0 < rows.len(),
        rows[origin.0].strip.laid_out().contains(origin.1),
        saved_window(origin.1, windows, apps) == Some(place.window),
        place.workspace_id == rows[origin.0].strip.id,
        place.virtual_index == rows[origin.0].strip.virtual_index,
{
    let workspaces = saved_state(rows, displays, windows, apps, timestamp).workspaces;
    lemma_gather_contains(workspaces, workspace_places(), place);
    let w = choose|w: int|
        0 <= w < workspaces.len() && workspace_places()(#[trigger] workspaces[w]).contains(place);
    let id = workspaces[w].workspace_id;
    let strips = workspaces[w].strips;
    lemma_gather_contains(strips, strip_places(id), place);
    let t = choose|t: int|
        0 <= t < strips.len() && strip_places(id)(#[trigger] strips[t]).contains(place);
    lemma_rows_saved(rows, displays, windows, apps, timestamp);
    assert(workspaces[w].strips.contains(strips[t]));
    let k = choose|k: int|
        {
            &&& 0 <= k < rows.len()
            &&& (#[trigger] rows[k]).strip.id == id
            &&& strips[t] == saved_strip(rows[k].strip, windows, apps)
        };
    let columns = strips[t].columns;
    let f = column_places(id, strips[t].virtual_index);
    lemma_gather_contains(numbered(columns), f, place);
    let c = choose|c: int|
        0 <= c < numbered(columns).len() && f(#[trigger] numbered(columns)[c]).contains(place);
    let listed = columns[c].windows().map_values(place_in(id, strips[t].virtual_index, c));
    assert(f(numbered(columns)[c]) == listed);
    let m = choose|m: int| 0 <= m < listed.len() && listed[m] == place;
    assert(columns[c].windows()[m] == place.window);
    assert(columns[c].windows().contains(place.window));
    let strip = rows[k].strip;
    let saver = column_saver(windows, apps);
    assert(columns.contains(columns[c]));
    lemma_filter_map_contains(strip.columns@, saver, columns[c]);
    let x = choose|x: int|
        0 <= x < strip.columns@.len() && saver(#[trigger] strip.columns@[x]) == Some(columns[c]);
    let entity = lemma_saved_member_origin(strip.columns@[x], windows, apps, place.window);
    assert(column_members()(strip.columns@[x]).contains(entity));
    lemma_gather_contains(strip.columns@, column_members(), entity);
    (k, entity)
}

/// A window that was laid out and could be saved, and whose numbers and bundle
/// no other window that was laid out has, is found again under its own space and
/// its own row, with what was saved of it.
pub proof fn lemma_saved_window_is_found_in_its_place(
    rows: Seq<StripRow>,
    displays: Seq<Display>,
    windows: Windows,
    apps: Seq<Application>,
    timestamp: u64,
    row: int,
    entity: Entity,
)
    requires
        0 <= row < rows.len(),
        rows[row].strip.laid_out().contains(entity),
        saved_window(entity, windows, apps) matches Some(window) && forall|k: int, other: Entity|
            {
                &&& 0 <= k < rows.len()
                &&& #[trigger] rows[k].strip.laid_out().contains(other)
                &&& saved_window(other, windows, apps) matches Some(saved) && saved.hard_matches(
                    window.window_id,
                    window.pid,
                    window.bundle_id,
                )
            } ==> k == row && other == entity,
    ensures
        ({
            let window = saved_window(entity, windows, apps)->0;
            let state = saved_state(rows, displays, windows, apps, timestamp);
            first_where(
                state.places(),
                is_place(window.window_id, window.pid, window.bundle_id),
            ) matches Some(place) && {
                &&& place.workspace_id == rows[row].strip.id
                &&& place.virtual_index == rows[row].strip.virtual_index
                &&& place.window == window
            }
        }),
{
    let window = saved_window(entity, windows, apps)->0;
    let state = saved_state(rows, displays, windows, apps, timestamp);
    let p = is_place(window.window_id, window.pid, window.bundle_id);
    lemma_saved_window_is_found(rows, displays, windows, apps, timestamp, row, entity);
    lemma_first_is_listed(state.places(), p, 0);
    let place = first_where(state.places(), p)->0;
    let origin = lemma_place_origin(rows, displays, windows, apps, timestamp, place);
    assert(rows[origin.0].strip.laid_out().contains(origin.1));
}

/// What is found is a saved window that matches in every respect, and nothing
/// is found only where no window that was laid out does.
pub proof fn lemma_match_is_exact(
    state: PaneruStateView,
    id: WinID,
    pid: Pid,
    bundle: Seq<char>,
)
    ensures
        match first_where(state.places(), is_place(id, pid, bundle)) {
            Some(place) => state.places().contains(place) && place.window.hard_matches(
                id,
                pid,
                bundle,
            ),
            None => forall|i: int|
                0 <= i < state.places().len() ==> !(
                #[trigger] state.places()[i]).window.hard_matches(id, pid, bundle),
        },
{
    let p = is_place(id, pid, bundle);
    lemma_first_is_listed(state.places(), p, 0);
    lemma_first_is_none(state.places(), p, 0);
    assert forall|i: int|
        first_where(state.places(), p) is None && 0 <= i < state.places().len() implies !(
    #[trigger] state.places()[i]).window.hard_matches(id, pid, bundle) by {
        assert(!p(state.places()[i]));
    }
}

} // verus!
