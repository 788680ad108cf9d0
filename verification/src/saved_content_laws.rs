//! What a saved state says of the desktop it was taken from.

use crate::geometry::Rect;
use crate::layout::{item_members, Column, LayoutStrip, StackItem};
use crate::lookup_laws::lemma_display_in_use;
use crate::matching::{
    column_places, is_place, place_in, saved_item_windows, strip_places, workspace_places,
    SavedPlace,
};
use crate::platform::{Entity, Pid, WinID, WorkspaceId};
use crate::saved::{
    saved_window, PaneruState, PaneruStateView, SavedColumnView, SavedRect, SavedStackItemView,
    SavedStrip, SavedStripView, SavedWindowView, SavedWorkspaceView,
};
use crate::saving::{
    column_saver, float_saver, item_saver, read_back, row_space, row_space_on, saved_column,
    saved_display, saved_item, saved_state, saved_strip, saved_tabs, saved_workspace, space_active_index,
    space_display, strip_saver, window_saver, StripRow,
};
use crate::seqs::{
    distinct, first_where, gather, lemma_by_rank_stable, lemma_distinct_in_order,
    lemma_filter_map_add, lemma_filter_map_narrowed, lemma_filter_map_push, lemma_first_appearance,
    lemma_first_in_gather, lemma_first_where, lemma_gather_add, numbered, of_rank,
};
use crate::world::{application_of, display_of, Application, Display, Unmanaged, Windows};
use vstd::prelude::*;
use vstd::std_specs::convert::FromSpec;

verus! {

/// Whether saved text is the text that is there, or nothing where it is missing.
pub open spec fn is_text(saved: Seq<char>, text: Option<String>) -> bool {
    &&& text matches Some(t) ==> saved == t@
    &&& text is None ==> saved.len() == 0
}

/// What is saved of an entity tells its window field by field, and its
/// application. Nothing is saved exactly where there is no window, no owner, no
/// known application or no process.
pub proof fn lemma_saved_window_tells(entity: Entity, windows: Windows, apps: Seq<Application>)
    ensures
        match saved_window(entity, windows, apps) {
            Some(saved) => windows.window_of(entity) matches Some(window) && (windows.parent_of(
                window.id,
            ) matches Some(parent) && (application_of(apps, parent) matches Some(app) && {
                &&& saved.window_id == window.id
                &&& window.pid == Some(saved.pid)
                &&& saved.psn == app.psn
                &&& is_text(saved.bundle_id, app.bundle_id)
                &&& is_text(saved.title, window.title)
                &&& is_text(saved.identifier, window.identifier)
                &&& is_text(saved.role, window.role)
                &&& is_text(saved.subrole, window.subrole)
            })),
            None => windows.window_of(entity) matches Some(window) ==> (windows.parent_of(
                window.id,
            ) matches Some(parent) ==> application_of(apps, parent) is None || window.pid is None),
        },
{
}

/// A saved window is the one asked for exactly where its number, its process and
/// its bundle are, each of them.
pub proof fn lemma_hard_matches(saved: SavedWindowView, id: WinID, pid: Pid, bundle: Seq<char>)
    ensures
        saved.hard_matches(id, pid, bundle) ==> saved.window_id == id,
        saved.hard_matches(id, pid, bundle) ==> saved.pid == pid,
        saved.hard_matches(id, pid, bundle) ==> saved.bundle_id == bundle,
        saved.window_id == id && saved.pid == pid && saved.bundle_id == bundle
            ==> saved.hard_matches(id, pid, bundle),
{
}

/// A saved rectangle has the corners of the rectangle.
pub proof fn lemma_saved_rect(rect: Rect)
    ensures
        SavedRect::from_spec(rect).min_x == rect.min.x,
        SavedRect::from_spec(rect).min_y == rect.min.y,
        SavedRect::from_spec(rect).max_x == rect.max.x,
        SavedRect::from_spec(rect).max_y == rect.max.y,
{
}

/// A state is read back as it is where it has the second layout, and else not at
/// all.
pub proof fn lemma_read_back(state: PaneruState)
    ensures
        state.version == 2 ==> read_back(state) == Some(state),
        state.version != 2 ==> read_back(state) is None,
{
}

/// Tabs are saved in their order, those that can be; nothing is saved where none
/// can.
pub proof fn lemma_saved_tabs(tabs: Seq<Entity>, windows: Windows, apps: Seq<Application>)
    ensures
        ({
            let all = tabs.filter_map(|e: Entity| saved_window(e, windows, apps));
            &&& all.len() == 0 ==> saved_tabs(tabs, windows, apps) is None
            &&& all.len() > 0 ==> saved_tabs(tabs, windows, apps) == Some(all)
        }),
{
    assert(window_saver(windows, apps) =~= |e: Entity| saved_window(e, windows, apps));
}

/// A place of a stack is saved as what it is: a window as a window, tabs as tabs.
pub proof fn lemma_saved_item(item: StackItem, windows: Windows, apps: Seq<Application>)
    ensures
        item matches StackItem::Single(entity) ==> match saved_window(entity, windows, apps) {
            Some(window) => saved_item(item, windows, apps) == Some(
                SavedStackItemView::Single(window),
            ),
            None => saved_item(item, windows, apps) is None,
        },
        item matches StackItem::Tabs(tabs) ==> match saved_tabs(tabs@, windows, apps) {
            Some(saved) => saved_item(item, windows, apps) == Some(SavedStackItemView::Tabs(saved)),
            None => saved_item(item, windows, apps) is None,
        },
{
}

/// A column is saved as what it is; a stack with those of its places, in their
/// order, that can be saved.
pub proof fn lemma_saved_column(column: Column, windows: Windows, apps: Seq<Application>)
    ensures
        column matches Column::Single(entity) ==> match saved_window(entity, windows, apps) {
            Some(window) => saved_column(column, windows, apps) == Some(
                SavedColumnView::Single(window),
            ),
            None => saved_column(column, windows, apps) is None,
        },
        column matches Column::Fullscreen(entity) ==> match saved_window(entity, windows, apps) {
            Some(window) => saved_column(column, windows, apps) == Some(
                SavedColumnView::Fullscreen(window),
            ),
            None => saved_column(column, windows, apps) is None,
        },
        column matches Column::Tabs(tabs) ==> match saved_tabs(tabs@, windows, apps) {
            Some(saved) => saved_column(column, windows, apps) == Some(
                SavedColumnView::Tabs(saved),
            ),
            None => saved_column(column, windows, apps) is None,
        },
        column matches Column::Stack(items) ==> {
            let all = items@.filter_map(|i: StackItem| saved_item(i, windows, apps));
            &&& all.len() == 0 ==> saved_column(column, windows, apps) is None
            &&& all.len() > 0 ==> saved_column(column, windows, apps) == Some(
                SavedColumnView::Stack(all),
            )
        },
{
    assert(item_saver(windows, apps) =~= |i: StackItem| saved_item(i, windows, apps));
}

/// A saved place of a stack holds its window, or its tabs in their order.
pub proof fn lemma_saved_item_windows(item: SavedStackItemView)
    ensures
        item matches SavedStackItemView::Single(window) ==> item.windows() == seq![window],
        item matches SavedStackItemView::Tabs(tabs) ==> item.windows() == tabs,
{
}

/// A saved column holds its window or its tabs; a stack the windows of its
/// places, one place after the other.
pub proof fn lemma_saved_column_windows(
    column: SavedColumnView,
    a: Seq<SavedStackItemView>,
    b: Seq<SavedStackItemView>,
)
    ensures
        column matches SavedColumnView::Single(window) ==> column.windows() == seq![window],
        column matches SavedColumnView::Fullscreen(window) ==> column.windows() == seq![window],
        column matches SavedColumnView::Tabs(tabs) ==> column.windows() == tabs,
        column matches SavedColumnView::Stack(items) ==> {
            &&& items.len() == 0 ==> column.windows().len() == 0
            &&& items.len() == 1 ==> column.windows() == items[0].windows()
            &&& items == a + b ==> column.windows() == SavedColumnView::Stack(a).windows()
                + SavedColumnView::Stack(b).windows()
        },
{
    if let SavedColumnView::Stack(items) = column {
        lemma_gather_add(a, b, saved_item_windows());
        if items.len() == 1 {
            reveal_with_fuel(gather, 2);
            assert(items.drop_last() =~= Seq::<SavedStackItemView>::empty());
            assert(column.windows() =~= items[0].windows());
        }
    }
}

/// Whatever its kind, a column is saved with those of its windows that can be,
/// from the top, each as often as it is there.
pub proof fn lemma_saved_column_keeps_windows(
    column: Column,
    windows: Windows,
    apps: Seq<Application>,
)
    ensures
        ({
            let all = column.members().filter_map(|e: Entity| saved_window(e, windows, apps));
            match saved_column(column, windows, apps) {
                Some(saved) => saved.windows() == all && all.len() > 0,
                None => all.len() == 0,
            }
        }),
{
    let saver = window_saver(windows, apps);
    assert(saver =~= |e: Entity| saved_window(e, windows, apps));
    match column {
        Column::Single(entity) => {
            Seq::lemma_filter_map_singleton(entity, saver);
        },
        Column::Fullscreen(entity) => {
            Seq::lemma_filter_map_singleton(entity, saver);
        },
        Column::Tabs(_) => {},
        Column::Stack(items) => {
            lemma_saved_items_keep_windows(items@, windows, apps);
        },
    }
}

proof fn lemma_saved_items_keep_windows(
    items: Seq<StackItem>,
    windows: Windows,
    apps: Seq<Application>,
)
    ensures
        gather(items.filter_map(item_saver(windows, apps)), saved_item_windows()) == gather(
            items,
            item_members(),
        ).filter_map(window_saver(windows, apps)),
        items.filter_map(item_saver(windows, apps)).len() > 0 ==> gather(
            items.filter_map(item_saver(windows, apps)),
            saved_item_windows(),
        ).len() > 0,
    decreases items.len(),
{
    let saver = window_saver(windows, apps);
    if items.len() > 0 {
        let rest = items.drop_last();
        let last = items.last();
        let kept = rest.filter_map(item_saver(windows, apps));
        lemma_saved_items_keep_windows(rest, windows, apps);
        assert(rest.push(last) =~= items);
        lemma_filter_map_push(rest, last, item_saver(windows, apps));
        lemma_filter_map_add(gather(rest, item_members()), last.members(), saver);
        if let StackItem::Single(entity) = last {
            Seq::lemma_filter_map_singleton(entity, saver);
        }
        match saved_item(last, windows, apps) {
            Some(item) => {
                assert(item.windows() == last.members().filter_map(saver));
                assert(kept.push(item).drop_last() =~= kept);
            },
            None => {
                assert(last.members().filter_map(saver).len() == 0);
                assert(gather(rest, item_members()).filter_map(saver) + last.members().filter_map(
                    saver,
                ) =~= gather(rest, item_members()).filter_map(saver));
            },
        }
    }
}

/// A row is saved under its own place, with its columns in their order, and with
/// those of the windows set aside, in their order, that are marked as floating.
pub proof fn lemma_saved_strip(strip: LayoutStrip, windows: Windows, apps: Seq<Application>)
    ensures
        saved_strip(strip, windows, apps).virtual_index == strip.virtual_index,
        saved_strip(strip, windows, apps).columns == strip.columns@.filter_map(
            |c: Column| saved_column(c, windows, apps),
        ),
        saved_strip(strip, windows, apps).floating == strip.detached@.filter_map(
            |e: Entity|
                match windows.window_of(e) {
                    Some(window) => if window.unmanaged == Some(Unmanaged::Floating) {
                        saved_window(e, windows, apps)
                    } else {
                        None
                    },
                    None => None,
                },
        ),
{
    assert(column_saver(windows, apps) =~= |c: Column| saved_column(c, windows, apps));
    assert(float_saver(windows, apps) =~= |e: Entity|
        match windows.window_of(e) {
            Some(window) => if window.unmanaged == Some(Unmanaged::Floating) {
                saved_window(e, windows, apps)
            } else {
                None
            },
            None => None,
        });
}

/// A space is saved with the display of its first row that belongs to one.
pub proof fn lemma_space_has_first_display(
    id: WorkspaceId,
    rows: Seq<StripRow>,
    displays: Seq<Display>,
    windows: Windows,
    apps: Seq<Application>,
)
    ensures
        match saved_workspace(id, rows, displays, windows, apps).display_id {
            Some(display) => exists|k: int|
                {
                    &&& 0 <= k < rows.len()
                    &&& (#[trigger] rows[k]).strip.id == id
                    &&& rows[k].parent matches Some(entity) && display_of(displays, entity) == Some(
                        display,
                    )
                    &&& forall|j: int|
                        0 <= j < k && (#[trigger] rows[j]).strip.id == id ==> (
                        rows[j].parent matches Some(entity) ==> display_of(
                            displays,
                            entity,
                        ) is None)
                },
            None => forall|j: int|
                0 <= j < rows.len() && (#[trigger] rows[j]).strip.id == id ==> (
                rows[j].parent matches Some(entity) ==> display_of(displays, entity) is None),
        },
{
    lemma_space_display_is_first(id, rows, displays);
}

proof fn lemma_space_display_is_first(
    id: WorkspaceId,
    rows: Seq<StripRow>,
    displays: Seq<Display>,
)
    ensures
        match space_display(id, rows, displays) {
            Some(display) => exists|k: int|
                {
                    &&& 0 <= k < rows.len()
                    &&& (#[trigger] rows[k]).strip.id == id
                    &&& rows[k].parent matches Some(entity) && display_of(displays, entity) == Some(
                        display,
                    )
                    &&& forall|j: int|
                        0 <= j < k && (#[trigger] rows[j]).strip.id == id ==> (
                        rows[j].parent matches Some(entity) ==> display_of(
                            displays,
                            entity,
                        ) is None)
                },
            None => forall|j: int|
                0 <= j < rows.len() && (#[trigger] rows[j]).strip.id == id ==> (
                rows[j].parent matches Some(entity) ==> display_of(displays, entity) is None),
        },
    decreases rows.len(),
{
    if rows.len() > 0 {
        let rest = rows.drop_last();
        let last = rows.len() - 1;
        lemma_space_display_is_first(id, rest, displays);
        match space_display(id, rest, displays) {
            Some(display) => {
                let k = choose|k: int|
                    {
                        &&& 0 <= k < rest.len()
                        &&& (#[trigger] rest[k]).strip.id == id
                        &&& rest[k].parent matches Some(entity) && display_of(displays, entity)
                            == Some(display)
                        &&& forall|j: int|
                            0 <= j < k && (#[trigger] rest[j]).strip.id == id ==> (
                            rest[j].parent matches Some(entity) ==> display_of(
                                displays,
                                entity,
                            ) is None)
                    };
                assert(rows[k] == rest[k]);
                assert forall|j: int| 0 <= j < k && (#[trigger] rows[j]).strip.id == id implies (
                rows[j].parent matches Some(entity) ==> display_of(displays, entity) is None) by {
                    assert(rest[j] == rows[j]);
                }
            },
            None => {
                assert forall|j: int| 0 <= j < last && (#[trigger] rows[j]).strip.id == id implies (
                rows[j].parent matches Some(entity) ==> display_of(displays, entity) is None) by {
                    assert(rest[j] == rows[j]);
                }
                assert(rows[last] == rows.last());
            },
        }
    }
}

/// A space is saved with the place of its last row that is in use.
pub proof fn lemma_space_has_last_active_row(
    id: WorkspaceId,
    rows: Seq<StripRow>,
    displays: Seq<Display>,
    windows: Windows,
    apps: Seq<Application>,
)
    ensures
        saved_workspace(id, rows, displays, windows, apps).workspace_id == id,
        match saved_workspace(id, rows, displays, windows, apps).active_virtual_index {
            Some(index) => exists|k: int|
                {
                    &&& 0 <= k < rows.len()
                    &&& (#[trigger] rows[k]).strip.id == id
                    &&& rows[k].active
                    &&& rows[k].strip.virtual_index == index
                    &&& forall|j: int|
                        k < j < rows.len() && (#[trigger] rows[j]).strip.id == id
                            ==> !rows[j].active
                },
            None => forall|j: int|
                0 <= j < rows.len() && (#[trigger] rows[j]).strip.id == id ==> !rows[j].active,
        },
{
    lemma_active_index_is_last(id, rows);
}

proof fn lemma_active_index_is_last(id: WorkspaceId, rows: Seq<StripRow>)
    ensures
        match space_active_index(id, rows) {
            Some(index) => exists|k: int|
                {
                    &&& 0 <= k < rows.len()
                    &&& (#[trigger] rows[k]).strip.id == id
                    &&& rows[k].active
                    &&& rows[k].strip.virtual_index == index
                    &&& forall|j: int|
                        k < j < rows.len() && (#[trigger] rows[j]).strip.id == id
                            ==> !rows[j].active
                },
            None => forall|j: int|
                0 <= j < rows.len() && (#[trigger] rows[j]).strip.id == id ==> !rows[j].active,
        },
    decreases rows.len(),
{
    if rows.len() > 0 {
        let rest = rows.drop_last();
        let last = rows.len() - 1;
        assert(rows[last] == rows.last());
        if !(rows.last().strip.id == id && rows.last().active) {
            lemma_active_index_is_last(id, rest);
            assert forall|j: int| 0 <= j < last implies rest[j] == #[trigger] rows[j] by {}
            if let Some(index) = space_active_index(id, rest) {
                let k = choose|k: int|
                    {
                        &&& 0 <= k < rest.len()
                        &&& (#[trigger] rest[k]).strip.id == id
                        &&& rest[k].active
                        &&& rest[k].strip.virtual_index == index
                        &&& forall|j: int|
                            k < j < rest.len() && (#[trigger] rest[j]).strip.id == id
                                ==> !rest[j].active
                    };
                assert(rows[k] == rest[k]);
            }
        }
    }
}

/// The saved rows of a space that have one place are the rows of that space with
/// that place, in their order.
pub proof fn lemma_rows_of_one_place(
    id: WorkspaceId,
    rows: Seq<StripRow>,
    displays: Seq<Display>,
    windows: Windows,
    apps: Seq<Application>,
    index: u32,
)
    ensures
        saved_workspace(id, rows, displays, windows, apps).strips.filter(
            |s: SavedStripView| s.virtual_index == index,
        ) == rows.filter_map(
            |row: StripRow|
                if row.strip.id == id && row.strip.virtual_index == index {
                    Some(saved_strip(row.strip, windows, apps))
                } else {
                    None
                },
        ),
{
    let saver = strip_saver(id, windows, apps);
    let here = |s: SavedStripView| s.virtual_index == index;
    assert(of_rank::<SavedStrip>((index as int, 0)) =~= here);
    lemma_by_rank_stable::<SavedStrip>(rows.filter_map(saver), (index as int, 0));
    lemma_filter_map_narrowed(
        rows,
        saver,
        here,
        |row: StripRow|
            if row.strip.id == id && row.strip.virtual_index == index {
                Some(saved_strip(row.strip, windows, apps))
            } else {
                None
            },
    );
}

/// A display lists its spaces in the order of their first rows on it.
pub proof fn lemma_display_lists_in_order(display: Display, rows: Seq<StripRow>, i: int, j: int)
    requires
        0 <= i < j < saved_display(display, rows).workspace_ids.len(),
    ensures
        exists|k: int|
            {
                &&& 0 <= k < rows.len()
                &&& (#[trigger] rows[k]).parent == Some(display.entity)
                &&& rows[k].strip.id == saved_display(display, rows).workspace_ids[i]
                &&& forall|m: int|
                    0 <= m <= k && (#[trigger] rows[m]).parent == Some(display.entity)
                        ==> rows[m].strip.id != saved_display(display, rows).workspace_ids[j]
            },
{
    let on = row_space_on(display.entity);
    let once = distinct(rows.filter_map(on));
    lemma_distinct_in_order(rows, on, i, j);
    let k = choose|k: int|
        {
            &&& 0 <= k < rows.len()
            &&& on(#[trigger] rows[k]) == Some(once[i])
            &&& forall|m: int| 0 <= m <= k ==> on(#[trigger] rows[m]) != Some(once[j])
        };
    assert(rows[k].parent == Some(display.entity));
    assert forall|m: int|
        0 <= m <= k && (#[trigger] rows[m]).parent == Some(
            display.entity,
        ) implies rows[m].strip.id != saved_display(display, rows).workspace_ids[j] by {
        assert(on(rows[m]) != Some(once[j]));
    }
}

/// The spaces are saved in the order of their first rows.
pub proof fn lemma_spaces_saved_in_order(
    rows: Seq<StripRow>,
    displays: Seq<Display>,
    windows: Windows,
    apps: Seq<Application>,
    timestamp: u64,
    i: int,
    j: int,
)
    requires
        0 <= i < j < saved_state(rows, displays, windows, apps, timestamp).workspaces.len(),
    ensures
        ({
            let saved = saved_state(rows, displays, windows, apps, timestamp).workspaces;
            exists|k: int|
                {
                    &&& 0 <= k < rows.len()
                    &&& (#[trigger] rows[k]).strip.id == saved[i].workspace_id
                    &&& forall|m: int|
                        0 <= m <= k ==> (#[trigger] rows[m]).strip.id != saved[j].workspace_id
                }
        }),
{
    let saved = saved_state(rows, displays, windows, apps, timestamp).workspaces;
    let ids = rows.map_values(row_space());
    lemma_first_appearance(ids, i, j);
    let k = choose|k: int|
        {
            &&& 0 <= k < ids.len()
            &&& #[trigger] ids[k] == distinct(ids)[i]
            &&& forall|m: int| 0 <= m <= k ==> #[trigger] ids[m] != distinct(ids)[j]
        };
    assert(rows[k].strip.id == saved[i].workspace_id);
    assert forall|m: int| 0 <= m <= k implies (#[trigger] rows[m]).strip.id
        != saved[j].workspace_id by {
        assert(ids[m] != distinct(ids)[j]);
    }
}

/// The saved state has the second layout, the stamp given, and tells every
/// display in its place: its number, its corners, whether it is in use.
pub proof fn lemma_saved_state_tells(
    rows: Seq<StripRow>,
    displays: Seq<Display>,
    windows: Windows,
    apps: Seq<Application>,
    timestamp: u64,
)
    ensures
        ({
            let state = saved_state(rows, displays, windows, apps, timestamp);
            &&& state.version == 2
            &&& state.timestamp == timestamp
            &&& state.displays.len() == displays.len()
            &&& forall|d: int|
                0 <= d < displays.len() ==> {
                    let saved = #[trigger] state.displays[d];
                    &&& saved.display_id == displays[d].id
                    &&& saved.active == displays[d].active
                    &&& saved.bounds.min_x == displays[d].bounds.min.x
                    &&& saved.bounds.min_y == displays[d].bounds.min.y
                    &&& saved.bounds.max_x == displays[d].bounds.max.x
                    &&& saved.bounds.max_y == displays[d].bounds.max.y
                    &&& saved == saved_display(displays[d], rows)
                }
            &&& forall|w: int|
                0 <= w < state.workspaces.len() ==> #[trigger] state.workspaces[w]
                    == saved_workspace(
                    state.workspaces[w].workspace_id,
                    rows,
                    displays,
                    windows,
                    apps,
                )
            &&& state.active_display_id matches Some(id) ==> exists|d: int|
                {
                    &&& 0 <= d < displays.len()
                    &&& (#[trigger] displays[d]).active
                    &&& displays[d].id == id
                    &&& forall|e: int| 0 <= e < d ==> !(#[trigger] displays[e]).active
                }
            &&& state.active_display_id is None ==> forall|d: int|
                0 <= d < displays.len() ==> !(#[trigger] displays[d]).active
        }),
{
    lemma_display_in_use(displays);
}

/// Whether a saved window bears a number, a process and a bundle.
pub open spec fn is_it(window: SavedWindowView, id: WinID, pid: Pid, bundle: Seq<char>) -> bool {
    window.window_id == id && window.pid == pid && window.bundle_id == bundle
}

/// Whether the window at a position bears a number, a process and a bundle: the
/// window at `m` in the column at `c` of the row at `s` of the space at `w`.
pub open spec fn is_it_at(
    state: PaneruStateView,
    w: int,
    s: int,
    c: int,
    m: int,
    id: WinID,
    pid: Pid,
    bundle: Seq<char>,
) -> bool {
    &&& 0 <= w < state.workspaces.len()
    &&& 0 <= s < state.workspaces[w].strips.len()
    &&& 0 <= c < state.workspaces[w].strips[s].columns.len()
    &&& 0 <= m < state.workspaces[w].strips[s].columns[c].windows().len()
    &&& is_it(state.workspaces[w].strips[s].columns[c].windows()[m], id, pid, bundle)
}

/// What is found bears the number, the process and the bundle asked for, is told
/// with its own space, row and column, and nothing before it in the saved state
/// bears them too. Nothing is found exactly where nothing laid out bears them.
pub proof fn lemma_match_is_first(state: PaneruStateView, id: WinID, pid: Pid, bundle: Seq<char>)
    ensures
        match first_where(state.places(), is_place(id, pid, bundle)) {
            Some(place) => {
                &&& place.window.window_id == id
                &&& place.window.pid == pid
                &&& place.window.bundle_id == bundle
                &&& exists|w: int, s: int, c: int, m: int|
                    {
                        &&& #[trigger] is_it_at(state, w, s, c, m, id, pid, bundle)
                        &&& place.workspace_id == state.workspaces[w].workspace_id
                        &&& place.virtual_index == state.workspaces[w].strips[s].virtual_index
                        &&& place.column == c
                        &&& place.window
                            == state.workspaces[w].strips[s].columns[c].windows()[m]
                        &&& forall|w2: int, s2: int, c2: int, m2: int| #[trigger]
                            is_it_at(state, w2, s2, c2, m2, id, pid, bundle) ==> {
                                ||| w < w2
                                ||| w == w2 && s < s2
                                ||| w == w2 && s == s2 && c < c2
                                ||| w == w2 && s == s2 && c == c2 && m <= m2
                            }
                    }
            },
            None => forall|w: int, s: int, c: int, m: int|
                !#[trigger] is_it_at(state, w, s, c, m, id, pid, bundle),
        },
{
    let p = is_place(id, pid, bundle);
    lemma_first_in_gather(state.workspaces, workspace_places(), p);
    match first_where(state.places(), p) {
        Some(place) => {
            let w = choose|w: int|
                {
                    &&& 0 <= w < state.workspaces.len()
                    &&& first_where(workspace_places()(#[trigger] state.workspaces[w]), p) == Some(
                        place,
                    )
                    &&& forall|j: int|
                        0 <= j < w ==> first_where(
                            workspace_places()(#[trigger] state.workspaces[j]),
                            p,
                        ) is None
                };
            let (s, c, m) = lemma_first_in_workspace(
                state.workspaces[w],
                place,
                id,
                pid,
                bundle,
            );
            assert(is_it_at(state, w, s, c, m, id, pid, bundle));
            assert forall|w2: int, s2: int, c2: int, m2: int| #[trigger]
                is_it_at(state, w2, s2, c2, m2, id, pid, bundle) implies {
                ||| w < w2
                ||| w == w2 && s < s2
                ||| w == w2 && s == s2 && c < c2
                ||| w == w2 && s == s2 && c == c2 && m <= m2
            } by {
                let other = state.workspaces[w2];
                assert(is_it(other.strips[s2].columns[c2].windows()[m2], id, pid, bundle));
                if w2 < w {
                    lemma_none_in_workspace(other, id, pid, bundle, s2, c2, m2);
                }
            }
        },
        None => {
            assert forall|w: int, s: int, c: int, m: int|
                !#[trigger] is_it_at(state, w, s, c, m, id, pid, bundle) by {
                if is_it_at(state, w, s, c, m, id, pid, bundle) {
                    lemma_none_in_workspace(state.workspaces[w], id, pid, bundle, s, c, m);
                }
            }
        },
    }
}

proof fn lemma_none_in_column(
    workspace_id: WorkspaceId,
    virtual_index: u32,
    c: int,
    column: SavedColumnView,
    id: WinID,
    pid: Pid,
    bundle: Seq<char>,
    m: int,
)
    requires
        first_where(
            column_places(workspace_id, virtual_index)((c, column)),
            is_place(id, pid, bundle),
        ) is None,
        0 <= m < column.windows().len(),
    ensures
        !is_it(column.windows()[m], id, pid, bundle),
{
    let listed = column.windows().map_values(place_in(workspace_id, virtual_index, c));
    lemma_first_where(listed, is_place(id, pid, bundle));
    assert(!is_place(id, pid, bundle)(listed[m]));
}

proof fn lemma_none_in_strip(
    workspace_id: WorkspaceId,
    strip: SavedStripView,
    id: WinID,
    pid: Pid,
    bundle: Seq<char>,
    c: int,
    m: int,
)
    requires
        first_where(strip_places(workspace_id)(strip), is_place(id, pid, bundle)) is None,
        0 <= c < strip.columns.len(),
        0 <= m < strip.columns[c].windows().len(),
    ensures
        !is_it(strip.columns[c].windows()[m], id, pid, bundle),
{
    let f = column_places(workspace_id, strip.virtual_index);
    lemma_first_in_gather(numbered(strip.columns), f, is_place(id, pid, bundle));
    assert(first_where(f(numbered(strip.columns)[c]), is_place(id, pid, bundle)) is None);
    lemma_none_in_column(
        workspace_id,
        strip.virtual_index,
        c,
        strip.columns[c],
        id,
        pid,
        bundle,
        m,
    );
}

proof fn lemma_none_in_workspace(
    workspace: SavedWorkspaceView,
    id: WinID,
    pid: Pid,
    bundle: Seq<char>,
    s: int,
    c: int,
    m: int,
)
    requires
        first_where(workspace_places()(workspace), is_place(id, pid, bundle)) is None,
        0 <= s < workspace.strips.len(),
        0 <= c < workspace.strips[s].columns.len(),
        0 <= m < workspace.strips[s].columns[c].windows().len(),
    ensures
        !is_it(workspace.strips[s].columns[c].windows()[m], id, pid, bundle),
{
    let f = strip_places(workspace.workspace_id);
    lemma_first_in_gather(workspace.strips, f, is_place(id, pid, bundle));
    assert(first_where(f(workspace.strips[s]), is_place(id, pid, bundle)) is None);
    lemma_none_in_strip(workspace.workspace_id, workspace.strips[s], id, pid, bundle, c, m);
}

proof fn lemma_first_in_workspace(
    workspace: SavedWorkspaceView,
    place: SavedPlace,
    id: WinID,
    pid: Pid,
    bundle: Seq<char>,
) -> (at: (int, int, int))
    requires
        first_where(workspace_places()(workspace), is_place(id, pid, bundle)) == Some(place),
    ensures
        ({
            let (s, c, m) = at;
            &&& 0 <= s < workspace.strips.len()
            &&& 0 <= c < workspace.strips[s].columns.len()
            &&& 0 <= m < workspace.strips[s].columns[c].windows().len()
            &&& is_it(place.window, id, pid, bundle)
            &&& place.workspace_id == workspace.workspace_id
            &&& place.virtual_index == workspace.strips[s].virtual_index
            &&& place.column == c
            &&& place.window == workspace.strips[s].columns[c].windows()[m]
            &&& forall|s2: int, c2: int, m2: int|
                {
                    &&& 0 <= s2 < workspace.strips.len()
                    &&& 0 <= c2 < workspace.strips[s2].columns.len()
                    &&& 0 <= m2 < workspace.strips[s2].columns[c2].windows().len()
                    &&& is_it(
                        #[trigger] workspace.strips[s2].columns[c2].windows()[m2],
                        id,
                        pid,
                        bundle,
                    )
                } ==> {
                    ||| s < s2
                    ||| s == s2 && c < c2
                    ||| s == s2 && c == c2 && m <= m2
                }
        }),
{
    let p = is_place(id, pid, bundle);
    let ws = workspace.workspace_id;
    let f = strip_places(ws);
    lemma_first_in_gather(workspace.strips, f, p);
    let s = choose|s: int|
        {
            &&& 0 <= s < workspace.strips.len()
            &&& first_where(f(#[trigger] workspace.strips[s]), p) == Some(place)
            &&& forall|j: int|
                0 <= j < s ==> first_where(f(#[trigger] workspace.strips[j]), p) is None
        };
    let strip = workspace.strips[s];
    let g = column_places(ws, strip.virtual_index);
    let columns = numbered(strip.columns);
    lemma_first_in_gather(columns, g, p);
    let c = choose|c: int|
        {
            &&& 0 <= c < columns.len()
            &&& first_where(g(#[trigger] columns[c]), p) == Some(place)
            &&& forall|j: int| 0 <= j < c ==> first_where(g(#[trigger] columns[j]), p) is None
        };
    let windows = strip.columns[c].windows();
    let listed = windows.map_values(place_in(ws, strip.virtual_index, c));
    assert(g(columns[c]) == listed);
    lemma_first_where(listed, p);
    let m = choose|m: int|
        {
            &&& 0 <= m < listed.len()
            &&& #[trigger] listed[m] == place
            &&& p(place)
            &&& forall|j: int| 0 <= j < m ==> !p(#[trigger] listed[j])
        };
    assert forall|s2: int, c2: int, m2: int|
        {
            &&& 0 <= s2 < workspace.strips.len()
            &&& 0 <= c2 < workspace.strips[s2].columns.len()
            &&& 0 <= m2 < workspace.strips[s2].columns[c2].windows().len()
            &&& is_it(#[trigger] workspace.strips[s2].columns[c2].windows()[m2], id, pid, bundle)
        } implies {
        ||| s < s2
        ||| s == s2 && c < c2
        ||| s == s2 && c == c2 && m <= m2
    } by {
        if s2 < s {
            assert(first_where(f(workspace.strips[s2]), p) is None);
            lemma_none_in_strip(ws, workspace.strips[s2], id, pid, bundle, c2, m2);
        } else if s2 == s && c2 < c {
            assert(first_where(g(columns[c2]), p) is None);
            lemma_none_in_column(
                ws,
                strip.virtual_index,
                c2,
                strip.columns[c2],
                id,
                pid,
                bundle,
                m2,
            );
        } else if s2 == s && c2 == c && m2 < m {
            assert(!p(listed[m2]));
        }
    }
    (s, c, m)
}

} // verus!
