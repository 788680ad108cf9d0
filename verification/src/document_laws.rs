//! What a state document says of the desktop it describes.

use crate::clock::is_read_now;
use crate::desktop::DesktopView;
use crate::geometry::{Frame, Rect};
use crate::lookup_laws::{lemma_as_frame, lemma_display_in_use, lemma_window_of};
use crate::platform::{Entity, WinID, WorkspaceId};
use crate::query::{
    desktop_of, has_focus, has_number, largest_number, last_active, missing_on, missing_row,
    row_number, PaneruQueryState, PaneruVirtualWorkspaceState, PaneruVirtualWorkspaceStateView,
    QueryState,
};
use crate::query_laws::{
    is_missing, lemma_document_rows, lemma_kept_satisfies, lemma_largest_is_largest,
    lemma_missing_is_missing,
};
use crate::saved_content_laws::is_text;
use crate::seqs::{
    first_where, gather, lemma_add_contains, lemma_by_rank_stable, lemma_filter_map_contains,
    lemma_first_where, lemma_map_narrowed, lemma_nothing_kept, of_rank,
};
use crate::spaces::{is_held, live_on, on_space, reading, row_shows, QueryRow, Reply, Step};
use crate::world::{application_of, visibility, Application, Display, Unmanaged, Windows};
use vstd::prelude::*;

verus! {

/// Whether a frame is told as it is: its corner, and its sides where they can be
/// told.
pub open spec fn is_frame(told: Option<Frame>, frame: Option<Rect>) -> bool {
    match (told, frame) {
        (Some(told), Some(frame)) => {
            &&& told.x == frame.min.x
            &&& told.y == frame.min.y
            &&& -0x8000_0000 <= frame.max.x - frame.min.x <= 0x7fff_ffff && -0x8000_0000
                <= frame.max.y - frame.min.y <= 0x7fff_ffff ==> told.x + told.width == frame.max.x
                && told.y + told.height == frame.max.y
        },
        (None, None) => true,
        _ => false,
    }
}

/// What the document says of an entity tells its window field by field, and its
/// application; where it is and whether it is visible follow from its frame and
/// its mark. It says nothing exactly where there is no window, no owner or no
/// known application.
pub proof fn lemma_window_state_tells(desktop: DesktopView, entity: Entity)
    ensures
        match desktop.window_state(entity) {
            Some(state) => desktop.windows.window_of(entity) matches Some(window) && (
            desktop.windows.parent_of(window.id) matches Some(parent) && (application_of(
                desktop.apps,
                parent,
            ) matches Some(app) && {
                &&& state.window_id == window.id
                &&& is_text(state.bundle_id, app.bundle_id)
                &&& state.app_name == app.name@
                &&& is_text(state.title, window.title)
                &&& state.focused <==> desktop.windows.focused == Some(entity)
                &&& state.floating <==> window.unmanaged == Some(Unmanaged::Floating)
                &&& is_frame(state.frame, window.frame)
                &&& window.frame is None ==> state.display_id is None && !state.visible
                &&& window.frame matches Some(frame) ==> match visibility(
                    frame,
                    desktop.displays,
                    desktop.sliver_width,
                ) {
                    Some((display, shown)) => {
                        &&& state.display_id == Some(display)
                        &&& state.visible <==> shown && window.unmanaged != Some(
                            Unmanaged::Minimized,
                        ) && window.unmanaged != Some(Unmanaged::Hidden)
                    },
                    None => state.display_id is None && !state.visible,
                }
            })),
            None => desktop.windows.window_of(entity) matches Some(window) ==> (
            desktop.windows.parent_of(window.id) matches Some(parent) ==> application_of(
                desktop.apps,
                parent,
            ) is None),
        },
{
    if let Some(window) = desktop.windows.window_of(entity) {
        if let Some(frame) = window.frame {
            if frame.sides_fit() {
                lemma_as_frame(frame);
            }
        }
    }
}

/// A row is told with its number, which counts from one, its space, whether it
/// is in use, and what is said of its windows, in their order.
pub proof fn lemma_row_is_told(
    desktop: DesktopView,
    row: QueryRow,
    live: Map<WorkspaceId, Seq<WinID>>,
)
    ensures
        ({
            let state = desktop.row_stater(live)(row);
            &&& row.strip.virtual_index < u32::MAX ==> state.number == row.strip.virtual_index + 1
            &&& state.native_workspace_id == row.strip.id
            &&& state.active == row.active
            &&& state.windows == desktop.row_members(row, live).filter_map(
                |e: Entity| desktop.window_state(e),
            )
            &&& state.windows == desktop.row_windows(row, live)
        }),
{
    assert(desktop.window_stater() =~= |e: Entity| desktop.window_state(e));
}

/// A row lists, in this order: what it lays out, but for floats that left its
/// space; the floats set aside that are still there; and, where it shows, the
/// floats that the window server lists on its space and that no row holds.
pub proof fn lemma_row_members_in_order(
    desktop: DesktopView,
    row: QueryRow,
    live: Map<WorkspaceId, Seq<WinID>>,
)
    ensures
        ({
            let windows = desktop.windows;
            let floats = |e: Entity|
                windows.window_of(e) matches Some(w) && w.unmanaged == Some(Unmanaged::Floating);
            let claimed = |e: Entity| on_space(live_on(live, row.strip.id), e, windows);
            let listed = live_on(live, row.strip.id);
            let strays = if row_shows(row, desktop.rows) && listed is Some {
                (listed->0).filter_map(
                    |id: WinID|
                        match windows.window_numbered(id) {
                            Some(w) => if floats(w.entity) && !is_held(
                                desktop.rows,
                                live,
                                windows,
                                w.entity,
                            ) {
                                Some(w.entity)
                            } else {
                                None
                            },
                            None => None,
                        },
                )
            } else {
                Seq::empty()
            };
            desktop.row_members(row, live) == row.strip.laid_out().filter(
                |e: Entity| floats(e) ==> claimed(e),
            ) + row.strip.detached@.filter(|e: Entity| floats(e) && claimed(e)) + strays
        }),
{
    let windows = desktop.windows;
    let floats = |e: Entity|
        windows.window_of(e) matches Some(w) && w.unmanaged == Some(Unmanaged::Floating);
    let claimed = |e: Entity| on_space(live_on(live, row.strip.id), e, windows);
    assert(desktop.remains(row, live) =~= |e: Entity| floats(e) ==> claimed(e));
    assert(desktop.parked(row, live) =~= |e: Entity| floats(e) && claimed(e));
    assert(desktop.stray(live) =~= |id: WinID|
        match windows.window_numbered(id) {
            Some(w) => if floats(w.entity) && !is_held(desktop.rows, live, windows, w.entity) {
                Some(w.entity)
            } else {
                None
            },
            None => None,
        });
}

/// A window is on a row exactly where the row lays it out and it did not float
/// away; or the row sets it aside, it floats, and it is still there; or the row
/// shows, and it floats, is listed on the space, and is held by no row.
pub proof fn lemma_row_lists(
    desktop: DesktopView,
    row: QueryRow,
    live: Map<WorkspaceId, Seq<WinID>>,
    entity: Entity,
)
    ensures
        desktop.row_members(row, live).contains(entity) <==> {
            let floats = desktop.windows.floats(entity);
            let claimed = on_space(live_on(live, row.strip.id), entity, desktop.windows);
            ||| row.strip.laid_out().contains(entity) && (floats ==> claimed)
            ||| row.strip.detached@.contains(entity) && floats && claimed
            ||| {
                &&& row_shows(row, desktop.rows)
                &&& floats
                &&& !is_held(desktop.rows, live, desktop.windows, entity)
                &&& live_on(live, row.strip.id) matches Some(ids) && exists|k: int|
                    {
                        &&& 0 <= k < ids.len()
                        &&& desktop.windows.window_numbered(#[trigger] ids[k]) matches Some(w)
                            && w.entity == entity
                    }
            }
        },
{
    let remaining = row.strip.laid_out().filter(desktop.remains(row, live));
    let parked = row.strip.detached@.filter(desktop.parked(row, live));
    let strays = desktop.strays_on(row, live);
    lemma_add_contains(remaining + parked, strays, entity);
    lemma_add_contains(remaining, parked, entity);
    lemma_kept_satisfies(row.strip.laid_out(), desktop.remains(row, live), entity);
    lemma_kept_satisfies(row.strip.detached@, desktop.parked(row, live), entity);
    lemma_satisfying_is_kept(row.strip.laid_out(), desktop.remains(row, live), entity);
    lemma_satisfying_is_kept(row.strip.detached@, desktop.parked(row, live), entity);
    if let Some(ids) = live_on(live, row.strip.id) {
        lemma_filter_map_contains(ids, desktop.stray(live), entity);
        if exists|k: int|
            {
                &&& 0 <= k < ids.len()
                &&& desktop.windows.window_numbered(#[trigger] ids[k]) matches Some(w) && w.entity
                    == entity
            } {
            let k = choose|k: int|
                {
                    &&& 0 <= k < ids.len()
                    &&& desktop.windows.window_numbered(#[trigger] ids[k]) matches Some(w)
                        && w.entity == entity
                };
            if desktop.windows.floats(entity) && !is_held(
                desktop.rows,
                live,
                desktop.windows,
                entity,
            ) {
                assert(desktop.stray(live)(ids[k]) == Some(entity));
            }
        }
        if ids.filter_map(desktop.stray(live)).contains(entity) {
            let k = choose|k: int|
                0 <= k < ids.len() && desktop.stray(live)(#[trigger] ids[k]) == Some(entity);
            assert(desktop.windows.window_numbered(ids[k]) is Some);
        }
    }
}

/// What is listed and satisfies a filter is kept.
pub proof fn lemma_satisfying_is_kept<A>(s: Seq<A>, keep: spec_fn(A) -> bool, item: A)
    ensures
        s.contains(item) && keep(item) ==> s.filter(keep).contains(item),
{
    if s.contains(item) && keep(item) {
        let i = choose|i: int| 0 <= i < s.len() && s[i] == item;
        s.lemma_filter_contains(keep, i);
    }
}

/// Whether a window listed on a row has the focus.
pub open spec fn lists_focus(
    desktop: DesktopView,
    live: Map<WorkspaceId, Seq<WinID>>,
    row: QueryRow,
    k: int,
) -> bool {
    0 <= k < desktop.row_windows(row, live).len() && desktop.row_windows(row, live)[k].focused
}

/// Whether a row is in use, and the window listed at `k` is the first on it that
/// has the focus.
pub open spec fn focus_at(
    desktop: DesktopView,
    live: Map<WorkspaceId, Seq<WinID>>,
    row: QueryRow,
    k: int,
) -> bool {
    &&& row.active
    &&& lists_focus(desktop, live, row, k)
    &&& forall|j: int| 0 <= j < k ==> !#[trigger] lists_focus(desktop, live, row, j)
}

/// The window told as in use is the first on its row that has the focus, on the
/// last row in use that lists one: all four are told of it. None is told exactly
/// where no row in use lists a window that has the focus.
pub proof fn lemma_focus_in_use(
    desktop: DesktopView,
    live: Map<WorkspaceId, Seq<WinID>>,
    timestamp: u64,
)
    ensures
        ({
            let active = desktop.document(live, timestamp).active;
            match active.focused_window_id {
                Some(id) => exists|i: int, k: int|
                    {
                        &&& 0 <= i < desktop.rows.len()
                        &&& #[trigger] focus_at(desktop, live, desktop.rows[i], k)
                        &&& desktop.row_windows(desktop.rows[i], live)[k].window_id == id
                        &&& active.focused_bundle_id == Some(
                            desktop.row_windows(desktop.rows[i], live)[k].bundle_id,
                        )
                        &&& active.focused_app_name == Some(
                            desktop.row_windows(desktop.rows[i], live)[k].app_name,
                        )
                        &&& active.focused_window_title == Some(
                            desktop.row_windows(desktop.rows[i], live)[k].title,
                        )
                        &&& forall|j: int, m: int|
                            i < j < desktop.rows.len() && desktop.rows[j].active
                                ==> !#[trigger] lists_focus(desktop, live, desktop.rows[j], m)
                    },
                None => {
                    &&& active.focused_bundle_id is None
                    &&& active.focused_app_name is None
                    &&& active.focused_window_title is None
                    &&& forall|j: int, m: int|
                        0 <= j < desktop.rows.len() && desktop.rows[j].active
                            ==> !#[trigger] lists_focus(desktop, live, desktop.rows[j], m)
                },
            }
        }),
{
    lemma_focus_among(desktop, desktop.rows, live);
}

proof fn lemma_focus_among(
    desktop: DesktopView,
    rows: Seq<QueryRow>,
    live: Map<WorkspaceId, Seq<WinID>>,
)
    ensures
        match desktop.focus_among(rows, live) {
            Some(state) => exists|i: int, k: int|
                {
                    &&& 0 <= i < rows.len()
                    &&& #[trigger] focus_at(desktop, live, rows[i], k)
                    &&& desktop.row_windows(rows[i], live)[k] == state
                    &&& forall|j: int, m: int|
                        i < j < rows.len() && rows[j].active ==> !#[trigger] lists_focus(
                            desktop,
                            live,
                            rows[j],
                            m,
                        )
                },
            None => forall|j: int, m: int|
                0 <= j < rows.len() && rows[j].active ==> !#[trigger] lists_focus(
                    desktop,
                    live,
                    rows[j],
                    m,
                ),
        },
    decreases rows.len(),
{
    if rows.len() > 0 {
        let rest = rows.drop_last();
        let last = rows.len() - 1;
        let own = desktop.row_windows(rows.last(), live);
        lemma_focus_among(desktop, rest, live);
        lemma_first_where(own, has_focus());
        assert(rows[last] == rows.last());
        let found = if rows.last().active {
            first_where(own, has_focus())
        } else {
            None
        };
        match found {
            Some(state) => {
                let k = choose|k: int|
                    {
                        &&& 0 <= k < own.len()
                        &&& #[trigger] own[k] == state
                        &&& has_focus()(state)
                        &&& forall|j: int| 0 <= j < k ==> !has_focus()(#[trigger] own[j])
                    };
                assert forall|j: int| 0 <= j < k implies !#[trigger] lists_focus(
                    desktop,
                    live,
                    rows[last],
                    j,
                ) by {
                    assert(!has_focus()(own[j]));
                }
                assert(focus_at(desktop, live, rows[last], k));
            },
            None => {
                assert forall|m: int| rows[last].active implies !#[trigger] lists_focus(
                    desktop,
                    live,
                    rows[last],
                    m,
                ) by {
                    if 0 <= m < own.len() {
                        assert(!has_focus()(own[m]));
                    }
                }
                match desktop.focus_among(rest, live) {
                    Some(state) => {
                        let (i, k) = choose|i: int, k: int|
                            {
                                &&& 0 <= i < rest.len()
                                &&& #[trigger] focus_at(desktop, live, rest[i], k)
                                &&& desktop.row_windows(rest[i], live)[k] == state
                                &&& forall|j: int, m: int|
                                    i < j < rest.len() && rest[j].active
                                        ==> !#[trigger] lists_focus(desktop, live, rest[j], m)
                            };
                        assert(rows[i] == rest[i]);
                        assert(focus_at(desktop, live, rows[i], k));
                        assert forall|j: int, m: int|
                            i < j < rows.len() && rows[j].active implies !#[trigger] lists_focus(
                            desktop,
                            live,
                            rows[j],
                            m,
                        ) by {
                            if j < last {
                                assert(rest[j] == rows[j]);
                                assert(!lists_focus(desktop, live, rest[j], m));
                            }
                        }
                    },
                    None => {
                        assert forall|j: int, m: int|
                            0 <= j < rows.len() && rows[j].active implies !#[trigger] lists_focus(
                            desktop,
                            live,
                            rows[j],
                            m,
                        ) by {
                            if j < last {
                                assert(rest[j] == rows[j]);
                                assert(!lists_focus(desktop, live, rest[j], m));
                            }
                        }
                    },
                }
            },
        }
    }
}

/// The document is of the first layout and bears the stamp given; the display
/// told as in use is the first marked so, the row told as in use the last.
pub proof fn lemma_in_use(
    desktop: DesktopView,
    live: Map<WorkspaceId, Seq<WinID>>,
    timestamp: u64,
)
    requires
        desktop.numbers_fit(),
    ensures
        ({
            let document = desktop.document(live, timestamp);
            &&& document.version == 1
            &&& document.timestamp == timestamp
            &&& match document.active.display_id {
                Some(id) => exists|d: int|
                    {
                        &&& 0 <= d < desktop.displays.len()
                        &&& (#[trigger] desktop.displays[d]).id == id
                        &&& desktop.displays[d].active
                        &&& forall|e: int| 0 <= e < d ==> !(#[trigger] desktop.displays[e]).active
                    },
                None => forall|e: int|
                    0 <= e < desktop.displays.len() ==> !(#[trigger] desktop.displays[e]).active,
            }
            &&& match document.active.native_workspace_id {
                Some(id) => exists|i: int|
                    {
                        &&& 0 <= i < desktop.rows.len()
                        &&& (#[trigger] desktop.rows[i]).active
                        &&& desktop.rows[i].strip.id == id
                        &&& document.active.virtual_workspace_number matches Some(number) && number
                            == desktop.rows[i].strip.virtual_index + 1
                        &&& forall|j: int|
                            i < j < desktop.rows.len() ==> !(#[trigger] desktop.rows[j]).active
                    },
                None => {
                    &&& document.active.virtual_workspace_number is None
                    &&& forall|j: int|
                        0 <= j < desktop.rows.len() ==> !(#[trigger] desktop.rows[j]).active
                },
            }
        }),
{
    lemma_display_in_use(desktop.displays);
    lemma_last_active(desktop.rows);
    if let Some(row) = last_active(desktop.rows) {
        let i = choose|i: int|
            {
                &&& 0 <= i < desktop.rows.len()
                &&& #[trigger] desktop.rows[i] == row
                &&& row.active
                &&& forall|j: int|
                    i < j < desktop.rows.len() ==> !(#[trigger] desktop.rows[j]).active
            };
        assert(desktop.rows[i].strip.virtual_index < u32::MAX);
    }
}

proof fn lemma_last_active(rows: Seq<QueryRow>)
    ensures
        match last_active(rows) {
            Some(row) => exists|i: int|
                {
                    &&& 0 <= i < rows.len()
                    &&& #[trigger] rows[i] == row
                    &&& row.active
                    &&& forall|j: int| i < j < rows.len() ==> !(#[trigger] rows[j]).active
                },
            None => forall|j: int| 0 <= j < rows.len() ==> !(#[trigger] rows[j]).active,
        },
    decreases rows.len(),
{
    if rows.len() > 0 {
        let rest = rows.drop_last();
        let last = rows.len() - 1;
        assert(rows[last] == rows.last());
        if !rows.last().active {
            lemma_last_active(rest);
            assert forall|j: int| 0 <= j < last implies rest[j] == #[trigger] rows[j] by {}
            if let Some(row) = last_active(rest) {
                let i = choose|i: int|
                    {
                        &&& 0 <= i < rest.len()
                        &&& #[trigger] rest[i] == row
                        &&& row.active
                        &&& forall|j: int| i < j < rest.len() ==> !(#[trigger] rest[j]).active
                    };
                assert(rows[i] == row);
            }
        }
    }
}

/// The rows of the document that have one number on one space are the rows of
/// that space with that number, in their order, where there is one.
pub proof fn lemma_document_rows_of_one_number(
    desktop: DesktopView,
    live: Map<WorkspaceId, Seq<WinID>>,
    timestamp: u64,
    id: WorkspaceId,
    number: u32,
)
    requires
        desktop.numbers_fit(),
        exists|i: int|
            {
                &&& 0 <= i < desktop.rows.len()
                &&& (#[trigger] desktop.rows[i]).strip.id == id
                &&& desktop.rows[i].strip.virtual_index + 1 == number
            },
    ensures
        desktop.document(live, timestamp).virtual_workspaces.filter(
            |s: PaneruVirtualWorkspaceStateView| s.native_workspace_id == id && s.number == number,
        ) == desktop.rows.filter_map(
            |row: QueryRow|
                if row.strip.id == id && row.strip.virtual_index + 1 == number {
                    Some(desktop.row_stater(live)(row))
                } else {
                    None
                },
        ),
{
    let here = |s: PaneruVirtualWorkspaceStateView|
        s.native_workspace_id == id && s.number == number;
    let told = |row: QueryRow|
        if row.strip.id == id && row.strip.virtual_index + 1 == number {
            Some(desktop.row_stater(live)(row))
        } else {
            None
        };
    let rank = (id as int, number as int);
    assert(of_rank::<PaneruVirtualWorkspaceState>(rank) =~= here);
    let rows = desktop.rows.map_values(desktop.row_stater(live));
    let missing = gather(desktop.spaces(), missing_on(desktop.rows));
    lemma_by_rank_stable::<PaneruVirtualWorkspaceState>(desktop.unordered_rows(live), rank);
    Seq::filter_distributes_over_add(rows, missing, here);
    let i = choose|i: int|
        {
            &&& 0 <= i < desktop.rows.len()
            &&& (#[trigger] desktop.rows[i]).strip.id == id
            &&& desktop.rows[i].strip.virtual_index + 1 == number
        };
    assert(row_number(desktop.rows[i]) == number);
    assert(has_number(desktop.rows, id, number as int));
    assert forall|s: PaneruVirtualWorkspaceStateView| #[trigger]
        missing.contains(s) implies !here(s) by {
        lemma_missing_is_missing(desktop.rows, desktop.spaces(), s);
    }
    lemma_nothing_kept(missing, here);
    assert forall|row: QueryRow| #[trigger] desktop.rows.contains(row) implies told(row) == (if here(
        desktop.row_stater(live)(row),
    ) {
        Some(desktop.row_stater(live)(row))
    } else {
        None
    }) by {
        let k = choose|k: int| 0 <= k < desktop.rows.len() && desktop.rows[k] == row;
        assert(desktop.rows[k].strip.virtual_index < u32::MAX);
    }
    lemma_map_narrowed(desktop.rows, desktop.row_stater(live), here, told);
    assert(rows.filter(here) + missing.filter(here) =~= rows.filter(here));
}

/// A number that no row of a space has, below one that a row of it has, is in
/// the document as a row that is not in use and has no windows.
pub proof fn lemma_gap_is_filled(
    desktop: DesktopView,
    live: Map<WorkspaceId, Seq<WinID>>,
    timestamp: u64,
    id: WorkspaceId,
    number: u32,
)
    requires
        desktop.numbers_fit(),
        1 <= number,
        exists|i: int|
            {
                &&& 0 <= i < desktop.rows.len()
                &&& (#[trigger] desktop.rows[i]).strip.id == id
                &&& desktop.rows[i].strip.virtual_index + 1 > number
            },
        forall|i: int|
            0 <= i < desktop.rows.len() && (#[trigger] desktop.rows[i]).strip.id == id
                ==> desktop.rows[i].strip.virtual_index + 1 != number,
    ensures
        desktop.document(live, timestamp).virtual_workspaces.contains(
            PaneruVirtualWorkspaceStateView {
                number,
                native_workspace_id: id,
                active: false,
                windows: Seq::empty(),
            },
        ),
{
    let state = missing_row(id, number as nat);
    lemma_largest_is_largest(desktop.rows, id);
    let i = choose|i: int|
        {
            &&& 0 <= i < desktop.rows.len()
            &&& (#[trigger] desktop.rows[i]).strip.id == id
            &&& desktop.rows[i].strip.virtual_index + 1 > number
        };
    assert(desktop.rows[i].strip.virtual_index < u32::MAX);
    assert(row_number(desktop.rows[i]) > number);
    assert(!has_number(desktop.rows, id, number as int)) by {
        if has_number(desktop.rows, id, number as int) {
            let j = choose|j: int|
                0 <= j < desktop.rows.len() && (#[trigger] desktop.rows[j]).strip.id == id
                    && row_number(desktop.rows[j]) == number;
            assert(desktop.rows[j].strip.virtual_index < u32::MAX);
        }
    }
    assert(is_missing(desktop, state));
    lemma_document_rows(desktop, live, timestamp, state);
}

/// A row of the document is that of a row, or it fills a gap: it is not in use,
/// has no windows, and its number is below that of some row of its space.
pub proof fn lemma_nothing_else_is_listed(
    desktop: DesktopView,
    live: Map<WorkspaceId, Seq<WinID>>,
    timestamp: u64,
    state: PaneruVirtualWorkspaceStateView,
)
    requires
        desktop.numbers_fit(),
        desktop.document(live, timestamp).virtual_workspaces.contains(state),
    ensures
        ({
            ||| exists|i: int|
                0 <= i < desktop.rows.len() && desktop.row_stater(live)(#[trigger] desktop.rows[i])
                    == state
            ||| {
                &&& !state.active
                &&& state.windows.len() == 0
                &&& state.number >= 1
                &&& exists|i: int|
                    {
                        &&& 0 <= i < desktop.rows.len()
                        &&& (#[trigger] desktop.rows[i]).strip.id == state.native_workspace_id
                        &&& desktop.rows[i].strip.virtual_index + 1 > state.number
                    }
                &&& forall|i: int|
                    0 <= i < desktop.rows.len() && (#[trigger] desktop.rows[i]).strip.id
                        == state.native_workspace_id ==> desktop.rows[i].strip.virtual_index + 1
                        != state.number
            }
        }),
{
    lemma_document_rows(desktop, live, timestamp, state);
    if is_missing(desktop, state) {
        let id = state.native_workspace_id;
        lemma_largest_is_largest(desktop.rows, id);
        let i = choose|i: int|
            0 <= i < desktop.rows.len() && (#[trigger] desktop.rows[i]).strip.id == id
                && row_number(desktop.rows[i]) == largest_number(desktop.rows, id);
        assert(desktop.rows[i].strip.virtual_index < u32::MAX);
        assert forall|j: int|
            0 <= j < desktop.rows.len() && (#[trigger] desktop.rows[j]).strip.id
                == id implies desktop.rows[j].strip.virtual_index + 1 != state.number by {
            assert(desktop.rows[j].strip.virtual_index < u32::MAX);
            assert(!has_number(desktop.rows, id, state.number as int));
            assert(row_number(desktop.rows[j]) != state.number);
        }
        assert(desktop.rows[i].strip.virtual_index + 1 != state.number);
    }
}

/// A document can be built wherever every row can be numbered and every frame
/// can be told.
pub proof fn lemma_can_describe(desktop: DesktopView, replies: Seq<Reply>)
    requires
        forall|i: int|
            0 <= i < desktop.rows.len() ==> (#[trigger] desktop.rows[i]).strip.virtual_index
                < 0xffff_ffff,
        every_frame_fits(desktop.windows),
    ensures
        desktop.can_describe(replies),
{
    assert forall|entity: Entity| desktop.frame_fits(entity) by {
        lemma_frame_fits(desktop, entity);
    }
}

/// Whether the sides of every window's frame can be told in 32 bits.
pub open spec fn every_frame_fits(windows: Windows) -> bool {
    forall|i: int|
        0 <= i < windows.all@.len() ==> ((#[trigger] windows.all@[i]).frame matches Some(frame) ==> {
            &&& -0x8000_0000 <= frame.max.x - frame.min.x <= 0x7fff_ffff
            &&& -0x8000_0000 <= frame.max.y - frame.min.y <= 0x7fff_ffff
        })
}

/// Where every frame can be told, so can that of an entity.
pub proof fn lemma_frame_fits(desktop: DesktopView, entity: Entity)
    requires
        every_frame_fits(desktop.windows),
    ensures
        desktop.frame_fits(entity),
{
    lemma_window_of(desktop.windows, entity);
}

/// Nothing is asked of a desktop before all answers are there, nor after an
/// error.
pub proof fn lemma_can_ask(desktop: DesktopView, replies: Seq<Reply>)
    requires
        reading(desktop.plan(), replies) != Step::<()>::Ready(()),
    ensures
        desktop.can_describe(replies),
{
}

/// What a document describes is this desktop with these answers, as of a reading
/// of the clock.
pub proof fn lemma_describes(document: PaneruQueryState, desktop: DesktopView, replies: Seq<Reply>)
    requires
        document.describes(desktop, replies),
    ensures
        document@ == desktop.document(desktop.live(replies), document.timestamp),
        is_read_now(document.timestamp),
{
}

/// A desktop is what it was put together of.
pub proof fn lemma_desktop_of(
    workspaces: Seq<QueryRow>,
    displays: Seq<Display>,
    windows: Windows,
    apps: Seq<Application>,
    sliver_width: i32,
)
    ensures
        ({
            let desktop = desktop_of(workspaces, displays, windows, apps, sliver_width);
            &&& desktop.rows == workspaces
            &&& desktop.displays == displays
            &&& desktop.windows == windows
            &&& desktop.apps == apps
            &&& desktop.sliver_width == sliver_width
        }),
{
}

} // verus!
