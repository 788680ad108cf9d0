//! What is found where: windows, applications, displays, columns and spaces.

use crate::agreement_laws::lemma_live_is_answered;
use crate::desktop::DesktopView;
use crate::geometry::Rect;
use crate::layout::{column_members, item_members, Column, LayoutStrip, StackItem};
use crate::platform::{Entity, WinID, WorkspaceId};
use crate::query_laws::lemma_asks_shown_spaces;
use crate::seqs::{
    distinct, gather, lemma_add_contains, lemma_distinct, lemma_distinct_in_order,
    lemma_filter_map_contains, lemma_first_appearance, lemma_first_where, lemma_gather_add,
};
use crate::spaces::{
    active_space, first_error, is_active_row, is_held, live_on, live_windows, on_space, reading,
    row_holds, row_shows, row_spaces, shown_space, spaces_asked, QueryRow, Reply, Step,
};
use crate::world::{
    application_of, best_display, display_in_use, display_of, is_application, is_display,
    is_entity, is_in_use, is_numbered, lemma_best_display, text_or_empty, visibility, Application,
    Display, Unmanaged, Windows,
};
use vstd::prelude::*;

verus! {

/// Text that is there reads as itself, missing text as nothing.
pub proof fn lemma_text_or_empty(text: Option<String>)
    ensures
        text matches Some(t) ==> text_or_empty(text) == t@,
        text is None ==> text_or_empty(text).len() == 0,
{
}

/// The window of an entity is the first listed under it.
pub proof fn lemma_window_of(windows: Windows, entity: Entity)
    ensures
        match windows.window_of(entity) {
            Some(window) => exists|i: int|
                {
                    &&& 0 <= i < windows.all@.len()
                    &&& #[trigger] windows.all@[i] == window
                    &&& window.entity == entity
                    &&& forall|j: int| 0 <= j < i ==> (#[trigger] windows.all@[j]).entity != entity
                },
            None => forall|j: int|
                0 <= j < windows.all@.len() ==> (#[trigger] windows.all@[j]).entity != entity,
        },
{
    lemma_first_where(windows.all@, is_entity(entity));
}

/// The window of a number is the first listed that bears it.
pub proof fn lemma_window_numbered(windows: Windows, id: WinID)
    ensures
        match windows.window_numbered(id) {
            Some(window) => exists|i: int|
                {
                    &&& 0 <= i < windows.all@.len()
                    &&& #[trigger] windows.all@[i] == window
                    &&& window.id == id
                    &&& forall|j: int| 0 <= j < i ==> (#[trigger] windows.all@[j]).id != id
                },
            None => forall|j: int|
                0 <= j < windows.all@.len() ==> (#[trigger] windows.all@[j]).id != id,
        },
{
    lemma_first_where(windows.all@, is_numbered(id));
}

/// The owner of a number is the parent of the window that bears it.
pub proof fn lemma_parent_of(windows: Windows, id: WinID)
    ensures
        windows.window_numbered(id) matches Some(window) ==> windows.parent_of(id)
            == window.parent,
        windows.window_numbered(id) is None ==> windows.parent_of(id) is None,
{
}

/// An entity floats where its window is marked as floating, and only there.
pub proof fn lemma_floats(windows: Windows, entity: Entity)
    ensures
        windows.window_of(entity) matches Some(window) ==> (windows.floats(entity)
            <==> window.unmanaged == Some(Unmanaged::Floating)),
        windows.window_of(entity) is None ==> !windows.floats(entity),
{
}

/// The application of an entity is the first listed under it.
pub proof fn lemma_application_of(apps: Seq<Application>, entity: Entity)
    ensures
        match application_of(apps, entity) {
            Some(app) => exists|i: int|
                {
                    &&& 0 <= i < apps.len()
                    &&& #[trigger] apps[i] == app
                    &&& app.entity == entity
                    &&& forall|j: int| 0 <= j < i ==> (#[trigger] apps[j]).entity != entity
                },
            None => forall|j: int| 0 <= j < apps.len() ==> (#[trigger] apps[j]).entity != entity,
        },
{
    lemma_first_where(apps, is_application(entity));
}

/// The display in use is the first marked so.
pub proof fn lemma_display_in_use(displays: Seq<Display>)
    ensures
        match display_in_use(displays) {
            Some(id) => exists|i: int|
                {
                    &&& 0 <= i < displays.len()
                    &&& (#[trigger] displays[i]).id == id
                    &&& displays[i].active
                    &&& forall|j: int| 0 <= j < i ==> !(#[trigger] displays[j]).active
                },
            None => forall|j: int| 0 <= j < displays.len() ==> !(#[trigger] displays[j]).active,
        },
{
    lemma_first_where(displays, is_in_use());
}

/// The display of an entity is the first listed under it.
pub proof fn lemma_display_of(displays: Seq<Display>, entity: Entity)
    ensures
        match display_of(displays, entity) {
            Some(id) => exists|i: int|
                {
                    &&& 0 <= i < displays.len()
                    &&& (#[trigger] displays[i]).id == id
                    &&& displays[i].entity == entity
                    &&& forall|j: int| 0 <= j < i ==> (#[trigger] displays[j]).entity != entity
                },
            None => forall|j: int|
                0 <= j < displays.len() ==> (#[trigger] displays[j]).entity != entity,
        },
{
    lemma_first_where(displays, is_display(entity));
}

/// How much two stretches have in common.
pub open spec fn overlap(lo: i32, hi: i32, other_lo: i32, other_hi: i32) -> int {
    let from = if lo < other_lo {
        other_lo
    } else {
        lo
    };
    let to = if hi < other_hi {
        hi
    } else {
        other_hi
    };
    if from < to {
        to - from
    } else {
        0
    }
}

/// How wide what two rectangles have in common is.
pub open spec fn overlap_width(a: Rect, b: Rect) -> int {
    overlap(a.min.x, a.max.x, b.min.x, b.max.x)
}

/// How high what two rectangles have in common is.
pub open spec fn overlap_height(a: Rect, b: Rect) -> int {
    overlap(a.min.y, a.max.y, b.min.y, b.max.y)
}

/// A point is in what two rectangles have in common exactly where it is in both,
/// and what they have in common never reaches backwards.
pub proof fn lemma_common_points(a: Rect, b: Rect, x: int, y: int)
    ensures
        ({
            let c = a.common(b);
            &&& c.min.x <= c.max.x
            &&& c.min.y <= c.max.y
            &&& c.min.x <= x < c.max.x <==> a.min.x <= x < a.max.x && b.min.x <= x < b.max.x
            &&& c.min.y <= y < c.max.y <==> a.min.y <= y < a.max.y && b.min.y <= y < b.max.y
            &&& c.across() == overlap_width(a, b)
            &&& c.down() == overlap_height(a, b)
        }),
{
}

/// The sides of a rectangle lead from one corner to the other.
pub proof fn lemma_sides(rect: Rect)
    ensures
        rect.min.x + rect.across() == rect.max.x,
        rect.min.y + rect.down() == rect.max.y,
        rect.sides_fit() <==> {
            &&& -0x8000_0000 <= rect.max.x - rect.min.x <= 0x7fff_ffff
            &&& -0x8000_0000 <= rect.max.y - rect.min.y <= 0x7fff_ffff
        },
{
}

/// The frame that clients see starts in the upper left corner and ends in the
/// lower right one.
pub proof fn lemma_as_frame(rect: Rect)
    requires
        rect.sides_fit(),
    ensures
        rect.as_frame().x == rect.min.x,
        rect.as_frame().y == rect.min.y,
        rect.as_frame().x + rect.as_frame().width == rect.max.x,
        rect.as_frame().y + rect.as_frame().height == rect.max.y,
{
}

/// A window is on the display that shows the largest piece of it, the last of
/// several, and counts as visible there exactly where that piece is wider than a
/// sliver. It is on none exactly where no display shows any of it.
pub proof fn lemma_visibility(frame: Rect, displays: Seq<Display>, sliver_width: i32)
    ensures
        match visibility(frame, displays, sliver_width) {
            Some((id, visible)) => exists|d: int|
                {
                    &&& 0 <= d < displays.len()
                    &&& (#[trigger] displays[d]).id == id
                    &&& overlap_width(frame, displays[d].bounds) > 0
                    &&& overlap_height(frame, displays[d].bounds) > 0
                    &&& visible <==> overlap_width(frame, displays[d].bounds) > sliver_width
                    &&& forall|e: int|
                        {
                            &&& 0 <= e < displays.len()
                            &&& overlap_width(frame, (#[trigger] displays[e]).bounds) > 0
                            &&& overlap_height(frame, displays[e].bounds) > 0
                        } ==> {
                            let own = overlap_width(frame, displays[d].bounds) * overlap_height(
                                frame,
                                displays[d].bounds,
                            );
                            let other = overlap_width(frame, displays[e].bounds) * overlap_height(
                                frame,
                                displays[e].bounds,
                            );
                            other <= own && (e > d ==> other < own)
                        }
                },
            None => forall|e: int|
                0 <= e < displays.len() ==> overlap_width(frame, (#[trigger] displays[e]).bounds)
                    == 0 || overlap_height(frame, displays[e].bounds) == 0,
        },
{
    lemma_best_display(frame, displays);
    assert forall|e: int| 0 <= e < displays.len() implies {
        &&& frame.common((#[trigger] displays[e]).bounds).across() == overlap_width(
            frame,
            displays[e].bounds,
        )
        &&& frame.common(displays[e].bounds).down() == overlap_height(frame, displays[e].bounds)
    } by {
        lemma_common_points(frame, displays[e].bounds, 0, 0);
    }
}

/// Where a window is and whether it is visible depends on the numbers and the
/// bounds of the displays alone.
pub proof fn lemma_visibility_by_bounds(
    frame: Rect,
    a: Seq<Display>,
    b: Seq<Display>,
    sliver_width: i32,
)
    requires
        a.len() == b.len(),
        forall|d: int|
            0 <= d < a.len() ==> (#[trigger] a[d]).id == b[d].id && a[d].bounds == b[d].bounds,
    ensures
        visibility(frame, a, sliver_width) == visibility(frame, b, sliver_width),
{
    lemma_best_by_bounds(frame, a, b);
}

proof fn lemma_best_by_bounds(frame: Rect, a: Seq<Display>, b: Seq<Display>)
    requires
        a.len() == b.len(),
        forall|d: int|
            0 <= d < a.len() ==> (#[trigger] a[d]).id == b[d].id && a[d].bounds == b[d].bounds,
    ensures
        match (best_display(frame, a), best_display(frame, b)) {
            (Some(x), Some(y)) => x.id == y.id && x.bounds == y.bounds,
            (None, None) => true,
            _ => false,
        },
    decreases a.len(),
{
    if a.len() > 0 {
        let (ra, rb) = (a.drop_last(), b.drop_last());
        assert forall|d: int| 0 <= d < ra.len() implies (#[trigger] ra[d]).id == rb[d].id
            && ra[d].bounds == rb[d].bounds by {
            assert(a[d].id == b[d].id);
        }
        lemma_best_by_bounds(frame, ra, rb);
        assert(a[a.len() - 1].id == b[a.len() - 1].id);
    }
}

/// A wider sliver hides no less, and never moves a window to another display.
pub proof fn lemma_visibility_by_sliver(
    frame: Rect,
    displays: Seq<Display>,
    narrow: i32,
    wide: i32,
)
    requires
        narrow <= wide,
    ensures
        match (visibility(frame, displays, narrow), visibility(frame, displays, wide)) {
            (Some((a, shown)), Some((b, still))) => a == b && (still ==> shown),
            (None, None) => true,
            _ => false,
        },
{
}

/// A place of a stack holds its window, or its tabs in their order.
pub proof fn lemma_item_members(item: StackItem)
    ensures
        item matches StackItem::Single(entity) ==> item.members() == seq![entity],
        item matches StackItem::Tabs(tabs) ==> item.members() == tabs@,
{
}

/// A column holds its window or its tabs; a stack holds the windows of its
/// places, one place after the other.
pub proof fn lemma_column_members(column: Column)
    ensures
        column matches Column::Single(entity) ==> column.members() == seq![entity],
        column matches Column::Fullscreen(entity) ==> column.members() == seq![entity],
        column matches Column::Tabs(tabs) ==> column.members() == tabs@,
        column matches Column::Stack(items) ==> (items@.len() == 0 ==> column.members().len()
            == 0),
        column matches Column::Stack(items) ==> (items@.len() == 1 ==> column.members()
            == items@[0].members()),
{
    if let Column::Stack(items) = column {
        if items@.len() == 1 {
            reveal_with_fuel(gather, 2);
            assert(items@.drop_last() =~= Seq::<StackItem>::empty());
            assert(column.members() =~= items@[0].members());
        }
    }
}

/// A stack put together of two holds what the one holds, and then what the
/// other holds.
pub proof fn lemma_stack_members(all: Vec<StackItem>, a: Vec<StackItem>, b: Vec<StackItem>)
    requires
        all@ == a@ + b@,
    ensures
        Column::Stack(all).members() == Column::Stack(a).members() + Column::Stack(b).members(),
{
    lemma_gather_add(a@, b@, item_members());
}

/// A row lays out the windows of its columns, one column after the other, and
/// owns these and those it sets aside.
pub proof fn lemma_strip_members(strip: LayoutStrip, entity: Entity)
    ensures
        strip.columns@.len() == 0 ==> strip.laid_out().len() == 0,
        strip.columns@.len() == 1 ==> strip.laid_out() == strip.columns@[0].members(),
        strip.owned().contains(entity) <==> strip.laid_out().contains(entity)
            || strip.detached@.contains(entity),
{
    lemma_add_contains(strip.laid_out(), strip.detached@, entity);
    if strip.columns@.len() == 1 {
        reveal_with_fuel(gather, 2);
        assert(strip.columns@.drop_last() =~= Seq::<Column>::empty());
        assert(strip.laid_out() =~= strip.columns@[0].members());
    }
}

/// A row put together of two lays out what the one lays out, and then what the
/// other does.
pub proof fn lemma_strip_add(all: LayoutStrip, a: LayoutStrip, b: LayoutStrip)
    requires
        all.columns@ == a.columns@ + b.columns@,
    ensures
        all.laid_out() == a.laid_out() + b.laid_out(),
{
    lemma_gather_add(a.columns@, b.columns@, column_members());
}

/// The space in use is that of the first row marked as in use.
pub proof fn lemma_active_space(rows: Seq<QueryRow>)
    ensures
        match active_space(rows) {
            Some(id) => exists|i: int|
                {
                    &&& 0 <= i < rows.len()
                    &&& (#[trigger] rows[i]).strip.id == id
                    &&& rows[i].active
                    &&& forall|j: int| 0 <= j < i ==> !(#[trigger] rows[j]).active
                },
            None => forall|j: int| 0 <= j < rows.len() ==> !(#[trigger] rows[j]).active,
        },
{
    lemma_first_where(rows, is_active_row());
}

/// A row shows where it is in use, or selected while the first row in use is on
/// another space or there is none.
pub proof fn lemma_row_shows(row: QueryRow, rows: Seq<QueryRow>)
    ensures
        row.active ==> row_shows(row, rows),
        !row.active && !row.selected ==> !row_shows(row, rows),
        !row.active && row.selected ==> (row_shows(row, rows) <==> !exists|i: int|
            {
                &&& 0 <= i < rows.len()
                &&& (#[trigger] rows[i]).active
                &&& rows[i].strip.id == row.strip.id
                &&& forall|j: int| 0 <= j < i ==> !(#[trigger] rows[j]).active
            }),
{
    lemma_active_space(rows);
}

/// The rows are told with their spaces, and whether they show, one by one.
pub proof fn lemma_row_spaces(rows: Seq<QueryRow>)
    ensures
        row_spaces(rows).len() == rows.len(),
        forall|i: int|
            0 <= i < rows.len() ==> (#[trigger] row_spaces(rows)[i]).0 == rows[i].strip.id
                && row_spaces(rows)[i].1 == row_shows(rows[i], rows),
{
}

/// Spaces are asked about in the order of their first rows on screen.
pub proof fn lemma_asks_in_order(desktop: DesktopView, i: int, j: int)
    requires
        0 <= i < j < desktop.plan().len(),
    ensures
        exists|k: int|
            {
                &&& 0 <= k < desktop.rows.len()
                &&& (#[trigger] desktop.rows[k]).strip.id == desktop.plan()[i]
                &&& row_shows(desktop.rows[k], desktop.rows)
                &&& forall|m: int|
                    0 <= m <= k && row_shows(#[trigger] desktop.rows[m], desktop.rows)
                        ==> desktop.rows[m].strip.id != desktop.plan()[j]
            },
{
    let strips = row_spaces(desktop.rows);
    let once = distinct(strips.filter_map(shown_space()));
    lemma_distinct_in_order(strips, shown_space(), i, j);
    let k = choose|k: int|
        {
            &&& 0 <= k < strips.len()
            &&& shown_space()(#[trigger] strips[k]) == Some(once[i])
            &&& forall|m: int|
                0 <= m <= k ==> shown_space()(#[trigger] strips[m]) != Some(once[j])
        };
    assert(desktop.rows[k].strip.id == desktop.plan()[i]);
    assert forall|m: int|
        0 <= m <= k && row_shows(
            #[trigger] desktop.rows[m],
            desktop.rows,
        ) implies desktop.rows[m].strip.id != desktop.plan()[j] by {
        assert(shown_space()(strips[m]) != Some(once[j]));
    }
}

/// The spaces to ask about are those told as shown, each once.
pub proof fn lemma_spaces_asked(strips: Seq<(WorkspaceId, bool)>, id: WorkspaceId)
    ensures
        spaces_asked(strips).no_duplicates(),
        spaces_asked(strips).contains(id) <==> exists|k: int|
            0 <= k < strips.len() && (#[trigger] strips[k]).0 == id && strips[k].1,
{
    lemma_distinct(strips.filter_map(shown_space()));
    lemma_filter_map_contains(strips, shown_space(), id);
    if exists|k: int| 0 <= k < strips.len() && (#[trigger] strips[k]).0 == id && strips[k].1 {
        let k = choose|k: int|
            0 <= k < strips.len() && (#[trigger] strips[k]).0 == id && strips[k].1;
        assert(shown_space()(strips[k]) == Some(id));
    }
    assert(spaces_asked(strips).contains(id) <==> strips.filter_map(shown_space()).contains(id));
}

/// Spaces to ask about come in the order in which they are told as shown.
pub proof fn lemma_spaces_asked_in_order(strips: Seq<(WorkspaceId, bool)>, i: int, j: int)
    requires
        0 <= i < j < spaces_asked(strips).len(),
    ensures
        exists|k: int|
            {
                &&& 0 <= k < strips.len()
                &&& (#[trigger] strips[k]).0 == spaces_asked(strips)[i]
                &&& strips[k].1
                &&& forall|m: int|
                    0 <= m <= k && (#[trigger] strips[m]).1 ==> strips[m].0 != spaces_asked(
                        strips,
                    )[j]
            },
{
    let once = distinct(strips.filter_map(shown_space()));
    lemma_distinct_in_order(strips, shown_space(), i, j);
    let k = choose|k: int|
        {
            &&& 0 <= k < strips.len()
            &&& shown_space()(#[trigger] strips[k]) == Some(once[i])
            &&& forall|m: int|
                0 <= m <= k ==> shown_space()(#[trigger] strips[m]) != Some(once[j])
        };
    assert(strips[k].0 == once[i]);
    assert forall|m: int| 0 <= m <= k && (#[trigger] strips[m]).1 implies strips[m].0
        != spaces_asked(strips)[j] by {
        assert(shown_space()(strips[m]) != Some(once[j]));
    }
}

/// An answer that is an error ends the asking, the first of several; where there
/// is none, the next space is asked about until all answers are there.
pub proof fn lemma_reading(plan: Seq<WorkspaceId>, replies: Seq<Reply>)
    ensures
        match reading(plan, replies) {
            Step::Failed(error) => exists|k: int|
                {
                    &&& 0 <= k < replies.len()
                    &&& k < plan.len()
                    &&& #[trigger] replies[k] == Err::<Vec<WinID>, _>(error)
                    &&& forall|j: int| 0 <= j < k ==> #[trigger] replies[j] is Ok
                },
            Step::Ask(id) => {
                &&& replies.len() < plan.len()
                &&& id == plan[replies.len() as int]
                &&& forall|j: int| 0 <= j < replies.len() ==> #[trigger] replies[j] is Ok
            },
            Step::Ready(_) => {
                &&& plan.len() <= replies.len()
                &&& forall|j: int| 0 <= j < plan.len() ==> #[trigger] replies[j] is Ok
            },
        },
{
    let given = if replies.len() < plan.len() {
        replies
    } else {
        replies.take(plan.len() as int)
    };
    lemma_first_error(given);
    if let Some(error) = first_error(given) {
        let k = choose|k: int|
            {
                &&& 0 <= k < given.len()
                &&& #[trigger] given[k] == Err::<Vec<WinID>, _>(error)
                &&& forall|j: int| 0 <= j < k ==> #[trigger] given[j] is Ok
            };
        assert(replies[k] == given[k]);
        assert forall|j: int| 0 <= j < k implies #[trigger] replies[j] is Ok by {
            assert(given[j] is Ok);
        }
    } else {
        assert forall|j: int| 0 <= j < given.len() implies #[trigger] replies[j] is Ok by {
            assert(given[j] is Ok);
        }
    }
}

proof fn lemma_first_error(replies: Seq<Reply>)
    ensures
        match first_error(replies) {
            Some(error) => exists|k: int|
                {
                    &&& 0 <= k < replies.len()
                    &&& #[trigger] replies[k] == Err::<Vec<WinID>, _>(error)
                    &&& forall|j: int| 0 <= j < k ==> #[trigger] replies[j] is Ok
                },
            None => forall|j: int| 0 <= j < replies.len() ==> #[trigger] replies[j] is Ok,
        },
    decreases replies.len(),
{
    if replies.len() > 0 {
        let rest = replies.drop_last();
        let last = replies.len() - 1;
        lemma_first_error(rest);
        match first_error(rest) {
            Some(error) => {
                let k = choose|k: int|
                    {
                        &&& 0 <= k < rest.len()
                        &&& #[trigger] rest[k] == Err::<Vec<WinID>, _>(error)
                        &&& forall|j: int| 0 <= j < k ==> #[trigger] rest[j] is Ok
                    };
                assert(replies[k] == rest[k]);
                assert forall|j: int| 0 <= j < k implies #[trigger] replies[j] is Ok by {
                    assert(rest[j] is Ok);
                }
            },
            None => {
                assert forall|j: int| 0 <= j < last implies #[trigger] replies[j] is Ok by {
                    assert(rest[j] is Ok);
                }
                assert(replies[last] == replies.last());
            },
        }
    }
}

/// What is on a space that was asked about are the windows that its answer
/// lists, each once; of other spaces nothing is known.
pub proof fn lemma_live_windows(plan: Seq<WorkspaceId>, replies: Seq<Reply>, id: WorkspaceId)
    requires
        plan.no_duplicates(),
        plan.len() <= replies.len(),
    ensures
        !plan.contains(id) ==> live_on(live_windows(plan, replies), id) is None,
        forall|k: int|
            0 <= k < plan.len() && #[trigger] plan[k] == id && replies[k] is Ok ==> (live_on(
                live_windows(plan, replies),
                id,
            ) matches Some(ids) && {
                &&& ids.no_duplicates()
                &&& forall|w: WinID| #[trigger]
                    ids.contains(w) <==> replies[k]->Ok_0@.contains(w)
            }),
    decreases plan.len(),
{
    if plan.len() > 0 {
        let rest = plan.drop_last();
        let last = plan.len() - 1;
        assert forall|i: int, j: int| 0 <= i < rest.len() && 0 <= j < rest.len() && i
            != j implies rest[i] != rest[j] by {
            assert(plan[i] != plan[j]);
        }
        lemma_live_windows(rest, replies, id);
        assert(plan[last] == plan.last());
        if !plan.contains(id) {
            assert(!rest.contains(id)) by {
                if rest.contains(id) {
                    let k = choose|k: int| 0 <= k < rest.len() && rest[k] == id;
                    assert(plan[k] == id);
                }
            }
        }
        assert forall|k: int|
            0 <= k < plan.len() && #[trigger] plan[k] == id && replies[k] is Ok implies (live_on(
            live_windows(plan, replies),
            id,
        ) matches Some(ids) && {
            &&& ids.no_duplicates()
            &&& forall|w: WinID| #[trigger] ids.contains(w) <==> replies[k]->Ok_0@.contains(w)
        }) by {
            if k == last {
                lemma_distinct(replies[k]->Ok_0@);
            } else {
                assert(plan[k] != plan[last]);
                assert(rest[k] == id);
            }
        }
    }
}

/// What is on a space comes in the order in which its answer lists it first.
pub proof fn lemma_live_in_order(
    plan: Seq<WorkspaceId>,
    replies: Seq<Reply>,
    k: int,
    i: int,
    j: int,
)
    requires
        plan.no_duplicates(),
        plan.len() <= replies.len(),
        0 <= k < plan.len(),
        replies[k] is Ok,
        live_on(live_windows(plan, replies), plan[k]) matches Some(ids) && 0 <= i < j < ids.len(),
    ensures
        ({
            let ids = live_on(live_windows(plan, replies), plan[k])->0;
            let answer = replies[k]->Ok_0@;
            exists|at: int|
                {
                    &&& 0 <= at < answer.len()
                    &&& #[trigger] answer[at] == ids[i]
                    &&& forall|m: int| 0 <= m <= at ==> #[trigger] answer[m] != ids[j]
                }
        }),
{
    lemma_live_is_answered(plan, replies, k);
    lemma_first_appearance(replies[k]->Ok_0@, i, j);
}

/// A desktop knows of a space what was answered when it was asked about, and
/// nothing of a space without a row on screen.
pub proof fn lemma_live(desktop: DesktopView, replies: Seq<Reply>, id: WorkspaceId)
    requires
        desktop.plan().len() <= replies.len(),
    ensures
        !desktop.plan().contains(id) ==> live_on(desktop.live(replies), id) is None,
        forall|k: int|
            0 <= k < desktop.plan().len() && #[trigger] desktop.plan()[k] == id && replies[k] is Ok
                ==> (live_on(desktop.live(replies), id) matches Some(ids) && {
                &&& ids.no_duplicates()
                &&& forall|w: WinID| #[trigger]
                    ids.contains(w) <==> replies[k]->Ok_0@.contains(w)
            }),
{
    lemma_asks_shown_spaces(desktop);
    lemma_live_windows(desktop.plan(), replies, id);
}

/// A row may claim a window on a space that nobody asked about, and one whose
/// number is among those on the space; no other.
pub proof fn lemma_on_space(live: Option<Seq<WinID>>, entity: Entity, windows: Windows)
    ensures
        live is None ==> on_space(live, entity, windows),
        live is Some && windows.window_of(entity) is None ==> !on_space(live, entity, windows),
        live matches Some(ids) ==> (windows.window_of(entity) matches Some(window) ==> (on_space(
            live,
            entity,
            windows,
        ) <==> ids.contains(window.id))),
{
}

/// A window is held exactly where some row owns it and may claim it.
pub proof fn lemma_is_held(
    rows: Seq<QueryRow>,
    live: Map<WorkspaceId, Seq<WinID>>,
    windows: Windows,
    entity: Entity,
)
    ensures
        is_held(rows, live, windows, entity) <==> exists|i: int|
            {
                &&& 0 <= i < rows.len()
                &&& (#[trigger] rows[i]).strip.owned().contains(entity)
                &&& on_space(live_on(live, rows[i].strip.id), entity, windows)
            },
        forall|id: WorkspaceId| #[trigger]
            live_on(live, id) == (if live.contains_key(id) {
                Some(live[id])
            } else {
                None
            }),
{
    if exists|i: int|
        {
            &&& 0 <= i < rows.len()
            &&& (#[trigger] rows[i]).strip.owned().contains(entity)
            &&& on_space(live_on(live, rows[i].strip.id), entity, windows)
        } {
        let i = choose|i: int|
            {
                &&& 0 <= i < rows.len()
                &&& (#[trigger] rows[i]).strip.owned().contains(entity)
                &&& on_space(live_on(live, rows[i].strip.id), entity, windows)
            };
        assert(row_holds(rows[i], live, windows, entity));
    }
}

} // verus!
