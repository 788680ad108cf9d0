//! What a window tree says of the desktop it was built from.

use crate::desktop::DesktopView;
use crate::document_laws::{
    every_frame_fits, is_frame, lemma_frame_fits, lemma_satisfying_is_kept,
};
use crate::layout::Column;
use crate::lookup_laws::lemma_as_frame;
use crate::platform::{Entity, WinID, WorkspaceId};
use crate::query_laws::lemma_kept_satisfies;
use crate::saved_content_laws::is_text;
use crate::seqs::{
    first_where, gather, lemma_add_contains, lemma_by_rank_stable, lemma_filter_map_add,
    lemma_filter_map_contains, lemma_filter_map_narrowed, lemma_filter_map_push,
    lemma_filter_push, lemma_first_where, lemma_gather_add, numbered, of_rank,
};
use crate::spaces::{
    is_held, live_on, on_space, reading, row_shows, row_spaces, shown_space, QueryRow, Reply, Step,
};
use crate::windowset::{
    column_windows, kind_of, position_from, rec_tiled, ColumnKind, ColumnSetView, WindowRecView,
    WorkspaceSet, WorkspaceSetView,
};
use crate::world::{application_of, visibility, Unmanaged, Windows};
use vstd::prelude::*;

verus! {

/// What a script sees of an entity tells its window field by field, and its
/// application; whether it is visible follows from its frame and its mark. It
/// sees nothing exactly where there is no window, no owner or no known
/// application.
pub proof fn lemma_window_rec_tells(desktop: DesktopView, entity: Entity)
    ensures
        match desktop.window_rec(entity) {
            Some(rec) => desktop.windows.window_of(entity) matches Some(window) && (
            desktop.windows.parent_of(window.id) matches Some(parent) && (application_of(
                desktop.apps,
                parent,
            ) matches Some(app) && {
                &&& rec.id == window.id
                &&& is_text(rec.bundle_id, app.bundle_id)
                &&& rec.app_name == app.name@
                &&& is_text(rec.title, window.title)
                &&& rec.focused <==> desktop.windows.focused == Some(entity)
                &&& rec.floating <==> window.unmanaged == Some(Unmanaged::Floating)
                &&& rec.managed <==> window.unmanaged is None
                &&& is_frame(rec.frame, window.frame)
                &&& window.frame is None ==> !rec.visible
                &&& window.frame matches Some(frame) ==> match visibility(
                    frame,
                    desktop.displays,
                    desktop.sliver_width,
                ) {
                    Some((_, shown)) => rec.visible <==> shown && window.unmanaged != Some(
                        Unmanaged::Minimized,
                    ) && window.unmanaged != Some(Unmanaged::Hidden),
                    None => !rec.visible,
                }
            })),
            None => desktop.windows.window_of(entity) matches Some(window) ==> (
            desktop.windows.parent_of(window.id) matches Some(parent) ==> application_of(
                desktop.apps,
                parent,
            ) is None),
        },
{
    if let Some(window) = desktop.windows.window_of(entity) {
        if let Some(frame) = window.frame {
            if frame.sides_fit() {
                lemma_as_frame(frame);
            }
        }
    }
}

/// A column is of the kind that it is.
pub proof fn lemma_kind_of(column: Column)
    ensures
        column is Single <==> kind_of(column) == ColumnKind::Single,
        column is Stack <==> kind_of(column) == ColumnKind::Stack,
        column is Tabs <==> kind_of(column) == ColumnKind::Tabs,
        column is Fullscreen <==> kind_of(column) == ColumnKind::Fullscreen,
{
}

/// The share of the width that an entity asks for is that of its window.
pub proof fn lemma_ratio_of(windows: Windows, entity: Entity)
    ensures
        windows.window_of(entity) matches Some(window) ==> windows.ratio_of(entity)
            == window.width_ratio,
        windows.window_of(entity) is None ==> windows.ratio_of(entity) is None,
{
}

/// The width of a column is what the first of its windows asks for that asks,
/// from the top; the whole width, the double one, only where none asks.
pub proof fn lemma_column_ratio(desktop: DesktopView, column: Column)
    ensures
        ({
            let members = column.members();
            let windows = desktop.windows;
            ||| exists|i: int|
                {
                    &&& 0 <= i < members.len()
                    &&& windows.ratio_of(#[trigger] members[i]) == Some(
                        desktop.column_ratio(column),
                    )
                    &&& forall|j: int| 0 <= j < i ==> windows.ratio_of(#[trigger] members[j]) is None
                }
            ||| {
                &&& desktop.column_ratio(column) == 0x3ff0_0000_0000_0000
                &&& forall|j: int|
                    0 <= j < members.len() ==> windows.ratio_of(#[trigger] members[j]) is None
            }
        }),
        desktop.column_set(column) matches Some(set) ==> set.width_ratio == desktop.column_ratio(
            column,
        ),
{
    let members = column.members();
    let asks = desktop.windows.asks_width();
    lemma_first_where(members, asks);
    match first_where(members, asks) {
        Some(entity) => {
            let i = choose|i: int|
                {
                    &&& 0 <= i < members.len()
                    &&& #[trigger] members[i] == entity
                    &&& asks(entity)
                    &&& forall|j: int| 0 <= j < i ==> !asks(#[trigger] members[j])
                };
            assert(desktop.windows.ratio_of(members[i]) == Some(desktop.column_ratio(column)));
            assert forall|j: int| 0 <= j < i implies desktop.windows.ratio_of(
                #[trigger] members[j],
            ) is None by {
                assert(!asks(members[j]));
            }
        },
        None => {
            assert forall|j: int| 0 <= j < members.len() implies desktop.windows.ratio_of(
                #[trigger] members[j],
            ) is None by {
                assert(!asks(members[j]));
            }
        },
    }
}

/// A column of one window is as wide as that window asks.
pub proof fn lemma_single_column_ratio(desktop: DesktopView, entity: Entity)
    ensures
        desktop.column_set(Column::Single(entity)) matches Some(set) ==> (
        desktop.windows.window_of(entity) matches Some(window) ==> (
        window.width_ratio matches Some(ratio) ==> set.width_ratio == ratio)),
{
    lemma_column_ratio(desktop, Column::Single(entity));
    assert(Column::Single(entity).members()[0] == entity);
}

/// A column is told with those of its windows, from the top, that are known and
/// do not float; not at all where there is none.
pub proof fn lemma_column_set(desktop: DesktopView, column: Column)
    ensures
        ({
            let tiled = column.members().filter_map(
                |e: Entity|
                    match desktop.window_rec(e) {
                        Some(rec) => if rec.floating {
                            None
                        } else {
                            Some(rec)
                        },
                        None => None,
                    },
            );
            match desktop.column_set(column) {
                Some(set) => {
                    &&& set.windows == tiled
                    &&& tiled.len() > 0
                    &&& set.kind == kind_of(column)
                },
                None => tiled.len() == 0,
            }
        }),
{
    let tile = |e: Entity|
        match desktop.window_rec(e) {
            Some(rec) => if rec.floating {
                None
            } else {
                Some(rec)
            },
            None => None,
        };
    lemma_filter_map_narrowed(column.members(), desktop.recorder(), rec_tiled(), tile);
}

/// The window told as on top of a column is the first told that bears the number
/// of the column's first window, or the first told where none does.
pub proof fn lemma_column_top(desktop: DesktopView, column: Column)
    ensures
        desktop.column_set(column) matches Some(set) ==> {
            &&& 0 <= set.selected < set.windows.len()
            &&& column.members().len() > 0
            &&& desktop.windows.window_of(column.members()[0]) is None ==> set.selected == 0
            &&& desktop.windows.window_of(column.members()[0]) matches Some(top) ==> {
                ||| set.windows[set.selected].id == top.id && forall|j: int|
                    0 <= j < set.selected ==> (#[trigger] set.windows[j]).id != top.id
                ||| set.selected == 0 && forall|j: int|
                    0 <= j < set.windows.len() ==> (#[trigger] set.windows[j]).id != top.id
            }
        },
{
    if let Some(set) = desktop.column_set(column) {
        lemma_column_set(desktop, column);
        assert(column.members().len() > 0);
        if let Some(top) = desktop.windows.window_of(column.members()[0]) {
            lemma_position_from(set.windows, top.id, 0);
        }
    }
}

proof fn lemma_position_from(recs: Seq<WindowRecView>, id: WinID, from: int)
    requires
        0 <= from <= recs.len(),
    ensures
        match position_from(recs, id, from) {
            Some(at) => {
                &&& from <= at < recs.len()
                &&& recs[at].id == id
                &&& forall|j: int| from <= j < at ==> (#[trigger] recs[j]).id != id
            },
            None => forall|j: int| from <= j < recs.len() ==> (#[trigger] recs[j]).id != id,
        },
    decreases recs.len() - from,
{
    if from < recs.len() {
        lemma_position_from(recs, id, from + 1);
    }
}

/// A row is told with its number, which counts from one, its space, whether it
/// is in use, its columns in their order, and what is seen of its floats.
pub proof fn lemma_workspace_set(
    desktop: DesktopView,
    row: QueryRow,
    live: Map<WorkspaceId, Seq<WinID>>,
    reply: Seq<WinID>,
)
    ensures
        ({
            let set = desktop.workspace_set(row, live, reply);
            &&& row.strip.virtual_index < u32::MAX ==> set.number == row.strip.virtual_index + 1
            &&& set.native_id == row.strip.id
            &&& set.active == row.active
            &&& set.columns == row.strip.columns@.filter_map(|c: Column| desktop.column_set(c))
            &&& set.floating == desktop.float_members(row, live, reply).filter_map(
                |e: Entity| desktop.window_rec(e),
            )
        }),
{
    assert(desktop.column_setter() =~= |c: Column| desktop.column_set(c));
    assert(desktop.recorder() =~= |e: Entity| desktop.window_rec(e));
}

/// The floats on a row are, in this order: those laid out and those set aside
/// that are still on its space, and those answered that no row holds.
pub proof fn lemma_float_members_in_order(
    desktop: DesktopView,
    row: QueryRow,
    live: Map<WorkspaceId, Seq<WinID>>,
    reply: Seq<WinID>,
)
    ensures
        ({
            let windows = desktop.windows;
            let floats = |e: Entity|
                windows.window_of(e) matches Some(w) && w.unmanaged == Some(Unmanaged::Floating);
            let claimed = |e: Entity| on_space(live_on(live, row.strip.id), e, windows);
            desktop.float_members(row, live, reply) == row.strip.laid_out().filter(
                |e: Entity| floats(e) && claimed(e),
            ) + row.strip.detached@.filter(|e: Entity| floats(e) && claimed(e)) + reply.filter_map(
                |id: WinID|
                    match windows.window_numbered(id) {
                        Some(w) => if floats(w.entity) && !is_held(
                            desktop.rows,
                            live,
                            windows,
                            w.entity,
                        ) {
                            Some(w.entity)
                        } else {
                            None
                        },
                        None => None,
                    },
            )
        }),
{
    let windows = desktop.windows;
    let floats = |e: Entity|
        windows.window_of(e) matches Some(w) && w.unmanaged == Some(Unmanaged::Floating);
    let claimed = |e: Entity| on_space(live_on(live, row.strip.id), e, windows);
    assert(desktop.parked(row, live) =~= |e: Entity| floats(e) && claimed(e));
    assert(desktop.stray(live) =~= |id: WinID|
        match windows.window_numbered(id) {
            Some(w) => if floats(w.entity) && !is_held(desktop.rows, live, windows, w.entity) {
                Some(w.entity)
            } else {
                None
            },
            None => None,
        });
}

/// A window is among the floats of a row exactly where it floats and either the
/// row owns it and it is still on the space, or it is answered and no row holds
/// it.
pub proof fn lemma_float_members_list(
    desktop: DesktopView,
    row: QueryRow,
    live: Map<WorkspaceId, Seq<WinID>>,
    reply: Seq<WinID>,
    entity: Entity,
)
    ensures
        desktop.float_members(row, live, reply).contains(entity) <==> {
            &&& desktop.windows.floats(entity)
            &&& {
                ||| (row.strip.laid_out().contains(entity) || row.strip.detached@.contains(entity))
                    && on_space(live_on(live, row.strip.id), entity, desktop.windows)
                ||| !is_held(desktop.rows, live, desktop.windows, entity) && exists|k: int|
                    {
                        &&& 0 <= k < reply.len()
                        &&& desktop.windows.window_numbered(#[trigger] reply[k]) matches Some(w)
                            && w.entity == entity
                    }
            }
        },
{
    let keep = desktop.parked(row, live);
    let laid_out = row.strip.laid_out().filter(keep);
    let parked = row.strip.detached@.filter(keep);
    let strays = reply.filter_map(desktop.stray(live));
    lemma_add_contains(laid_out + parked, strays, entity);
    lemma_add_contains(laid_out, parked, entity);
    lemma_kept_satisfies(row.strip.laid_out(), keep, entity);
    lemma_kept_satisfies(row.strip.detached@, keep, entity);
    lemma_satisfying_is_kept(row.strip.laid_out(), keep, entity);
    lemma_satisfying_is_kept(row.strip.detached@, keep, entity);
    lemma_filter_map_contains(reply, desktop.stray(live), entity);
    if strays.contains(entity) {
        let k = choose|k: int|
            0 <= k < reply.len() && desktop.stray(live)(#[trigger] reply[k]) == Some(entity);
        assert(desktop.windows.window_numbered(reply[k]) is Some);
    }
    if exists|k: int|
        {
            &&& 0 <= k < reply.len()
            &&& desktop.windows.window_numbered(#[trigger] reply[k]) matches Some(w) && w.entity
                == entity
        } {
        let k = choose|k: int|
            {
                &&& 0 <= k < reply.len()
                &&& desktop.windows.window_numbered(#[trigger] reply[k]) matches Some(w) && w.entity
                    == entity
            };
        if desktop.windows.floats(entity) && !is_held(desktop.rows, live, desktop.windows, entity) {
            assert(desktop.stray(live)(reply[k]) == Some(entity));
        }
    }
}

/// How many rows show.
pub open spec fn shown_among(rows: Seq<QueryRow>, desktop: DesktopView) -> nat
    decreases rows.len(),
{
    if rows.len() == 0 {
        0
    } else if row_shows(rows.last(), desktop.rows) {
        shown_among(rows.drop_last(), desktop) + 1
    } else {
        shown_among(rows.drop_last(), desktop)
    }
}

/// For the tree the window server is asked about the spaces of the document
/// first, and then once more for each row that shows, in their order. A row that
/// shows has what was answered to its own question; any other has nothing.
pub proof fn lemma_tree_asks_again(desktop: DesktopView, replies: Seq<Reply>, i: int)
    requires
        0 <= i < desktop.rows.len(),
    ensures
        desktop.tree_plan().len() == desktop.plan().len() + shown_among(desktop.rows, desktop),
        forall|k: int|
            0 <= k < desktop.plan().len() ==> #[trigger] desktop.tree_plan()[k]
                == desktop.plan()[k],
        !row_shows(desktop.rows[i], desktop.rows) ==> desktop.row_reply(i, replies).len() == 0,
        row_shows(desktop.rows[i], desktop.rows) ==> {
            let at = desktop.plan().len() + shown_among(desktop.rows.take(i), desktop);
            &&& at < desktop.tree_plan().len()
            &&& desktop.tree_plan()[at as int] == desktop.rows[i].strip.id
            &&& replies[at as int] matches Ok(ids) ==> desktop.row_reply(i, replies) == ids@
        },
{
    let strips = row_spaces(desktop.rows);
    assert(desktop.rows.take(desktop.rows.len() as int) =~= desktop.rows);
    assert(strips.take(desktop.rows.len() as int) =~= strips);
    lemma_shown_among(desktop, desktop.rows.len() as int);
    lemma_shown_among(desktop, i);
    if row_shows(desktop.rows[i], desktop.rows) {
        strips.lemma_filter_map_take_succ(shown_space(), i);
        assert(strips.take(i + 1) + strips.skip(i + 1) =~= strips);
        lemma_filter_map_add(strips.take(i + 1), strips.skip(i + 1), shown_space());
        assert(shown_space()(strips[i]) == Some(desktop.rows[i].strip.id));
    }
}

proof fn lemma_shown_among(desktop: DesktopView, n: int)
    requires
        0 <= n <= desktop.rows.len(),
    ensures
        row_spaces(desktop.rows).take(n).filter_map(shown_space()).len() == shown_among(
            desktop.rows.take(n),
            desktop,
        ),
    decreases n,
{
    let strips = row_spaces(desktop.rows);
    if n > 0 {
        lemma_shown_among(desktop, n - 1);
        strips.lemma_filter_map_take_succ(shown_space(), n - 1);
        assert(desktop.rows.take(n).drop_last() =~= desktop.rows.take(n - 1));
        assert(desktop.rows.take(n).last() == desktop.rows[n - 1]);
    }
}

/// The tree tells every display in its place: its number, its frame, whether it
/// is in use; and the number of the window that has the focus.
pub proof fn lemma_window_set_tells(desktop: DesktopView, replies: Seq<Reply>)
    ensures
        ({
            let set = desktop.window_set(replies);
            &&& set.displays.len() == desktop.displays.len()
            &&& forall|d: int|
                0 <= d < desktop.displays.len() ==> {
                    let told = #[trigger] set.displays[d];
                    let display = desktop.displays[d];
                    &&& told.id == display.id
                    &&& told.active == display.active
                    &&& is_frame(Some(told.frame), Some(display.bounds))
                }
            &&& desktop.windows.focused is None ==> set.focused is None
            &&& desktop.windows.focused matches Some(entity) ==> match desktop.windows.window_of(
                entity,
            ) {
                Some(window) => set.focused == Some(window.id),
                None => set.focused is None,
            }
        }),
{
    let set = desktop.window_set(replies);
    assert forall|d: int| 0 <= d < desktop.displays.len() implies is_frame(
        Some((#[trigger] set.displays[d]).frame),
        Some(desktop.displays[d].bounds),
    ) by {
        if desktop.displays[d].bounds.sides_fit() {
            lemma_as_frame(desktop.displays[d].bounds);
        }
    }
}

/// The rows under a display that have one number are the rows that belong to it
/// and have that number, in their order, each with what was answered for it.
pub proof fn lemma_tree_rows_of_one_number(
    desktop: DesktopView,
    replies: Seq<Reply>,
    d: int,
    number: u32,
)
    requires
        desktop.numbers_fit(),
        0 <= d < desktop.displays.len(),
    ensures
        desktop.window_set(replies).displays[d].workspaces.filter(
            |w: WorkspaceSetView| w.number == number,
        ) == Seq::new(desktop.rows.len(), |i: int| i).filter_map(
            |i: int|
                if 0 <= i < desktop.rows.len() && desktop.rows[i].parent
                    == desktop.displays[d].entity && desktop.rows[i].strip.virtual_index + 1
                    == number {
                    Some(
                        desktop.workspace_set(
                            desktop.rows[i],
                            desktop.live(replies),
                            desktop.row_reply(i, replies),
                        ),
                    )
                } else {
                    None
                },
        ),
{
    let entity = desktop.displays[d].entity;
    let setter = desktop.row_setter(entity, replies);
    let here = |w: WorkspaceSetView| w.number == number;
    let all = numbered(desktop.rows);
    let told = |i: int|
        if 0 <= i < desktop.rows.len() && desktop.rows[i].parent == desktop.displays[d].entity
            && desktop.rows[i].strip.virtual_index + 1 == number {
            Some(
                desktop.workspace_set(
                    desktop.rows[i],
                    desktop.live(replies),
                    desktop.row_reply(i, replies),
                ),
            )
        } else {
            None
        };
    assert(of_rank::<WorkspaceSet>((number as int, 0)) =~= here);
    lemma_by_rank_stable::<WorkspaceSet>(all.filter_map(setter), (number as int, 0));
    lemma_rows_by_position(desktop, replies, entity, number, desktop.rows.len() as int, told);
    assert(all.take(desktop.rows.len() as int) =~= all);
    assert(Seq::new(desktop.rows.len(), |i: int| i).take(desktop.rows.len() as int) =~= Seq::new(
        desktop.rows.len(),
        |i: int| i,
    ));
}

proof fn lemma_rows_by_position(
    desktop: DesktopView,
    replies: Seq<Reply>,
    entity: Entity,
    number: u32,
    n: int,
    told: spec_fn(int) -> Option<WorkspaceSetView>,
)
    requires
        desktop.numbers_fit(),
        0 <= n <= desktop.rows.len(),
        forall|i: int| #[trigger]
            told(i) == (if 0 <= i < desktop.rows.len() && desktop.rows[i].parent == entity
                && desktop.rows[i].strip.virtual_index + 1 == number {
                Some(
                    desktop.workspace_set(
                        desktop.rows[i],
                        desktop.live(replies),
                        desktop.row_reply(i, replies),
                    ),
                )
            } else {
                None
            }),
    ensures
        numbered(desktop.rows).take(n).filter_map(desktop.row_setter(entity, replies)).filter(
            |w: WorkspaceSetView| w.number == number,
        ) == Seq::new(desktop.rows.len(), |i: int| i).take(n).filter_map(told),
    decreases n,
{
    let setter = desktop.row_setter(entity, replies);
    let here = |w: WorkspaceSetView| w.number == number;
    let all = numbered(desktop.rows);
    let places = Seq::new(desktop.rows.len(), |i: int| i);
    reveal(Seq::filter);
    if n == 0 {
        assert(all.take(0) =~= Seq::<(int, QueryRow)>::empty());
        assert(places.take(0) =~= Seq::<int>::empty());
        assert(all.take(0).filter_map(setter).filter(here) =~= places.take(0).filter_map(told));
    } else {
        lemma_rows_by_position(desktop, replies, entity, number, n - 1, told);
        assert(all.take(n) =~= all.take(n - 1).push(all[n - 1]));
        assert(places.take(n) =~= places.take(n - 1).push(n - 1));
        lemma_filter_map_push(all.take(n - 1), all[n - 1], setter);
        lemma_filter_map_push(places.take(n - 1), n - 1, told);
        assert(desktop.rows[n - 1].strip.virtual_index < u32::MAX);
        if let Some(set) = setter(all[n - 1]) {
            lemma_filter_push(all.take(n - 1).filter_map(setter), set, here);
        }
    }
}

/// Every window of a row of the tree: column by column, then the floats.
pub proof fn lemma_windows_of_a_tree_row(
    set: WorkspaceSetView,
    first: WorkspaceSetView,
    second: WorkspaceSetView,
)
    ensures
        set.columns.len() == 0 ==> set.windows() == set.floating,
        set.columns.len() == 1 ==> set.windows() == set.columns[0].windows + set.floating,
        set.columns == first.columns + second.columns && first.floating.len() == 0
            && second.floating == set.floating ==> set.windows() == first.windows()
            + second.windows(),
{
    assert(set.columns.len() == 0 ==> set.windows() =~= set.floating);
    if set.columns.len() == 1 {
        reveal_with_fuel(gather, 2);
        assert(set.columns.drop_last() =~= Seq::<ColumnSetView>::empty());
        assert(set.windows() =~= set.columns[0].windows + set.floating);
    }
    lemma_gather_add(first.columns, second.columns, column_windows());
    if set.columns == first.columns + second.columns && first.floating.len() == 0
        && second.floating == set.floating {
        assert(set.windows() =~= first.windows() + second.windows());
    }
}

/// A tree can be built wherever every row can be numbered and every frame and
/// every display can be told.
pub proof fn lemma_can_build_tree(desktop: DesktopView, replies: Seq<Reply>)
    requires
        forall|i: int|
            0 <= i < desktop.rows.len() ==> (#[trigger] desktop.rows[i]).strip.virtual_index
                < 0xffff_ffff,
        every_frame_fits(desktop.windows),
        forall|d: int|
            0 <= d < desktop.displays.len() ==> {
                let bounds = (#[trigger] desktop.displays[d]).bounds;
                &&& -0x8000_0000 <= bounds.max.x - bounds.min.x <= 0x7fff_ffff
                &&& -0x8000_0000 <= bounds.max.y - bounds.min.y <= 0x7fff_ffff
            },
    ensures
        desktop.can_build_tree(replies),
{
    assert forall|entity: Entity| desktop.frame_fits(entity) by {
        lemma_frame_fits(desktop, entity);
    }
}

/// Nothing is asked of a desktop before all answers are there, nor after an
/// error.
pub proof fn lemma_can_ask_for_tree(desktop: DesktopView, replies: Seq<Reply>)
    requires
        reading(desktop.tree_plan(), replies) != Step::<()>::Ready(()),
    ensures
        desktop.can_build_tree(replies),
{
}

} // verus!
