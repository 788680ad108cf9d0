//! What holds of every state document and of every window tree.

use crate::desktop::{out_of_sight, DesktopView};
use crate::layout::{column_members, Column};
use crate::platform::{Entity, WinID, WorkspaceId};
use crate::query::{
    has_number, largest_number, missing_on, missing_row, missing_to, row_number,
    PaneruVirtualWorkspaceState, PaneruVirtualWorkspaceStateView, PaneruWindowStateView,
};
use crate::seqs::{
    by_rank, distinct, gather, lemma_add_contains, lemma_by_rank_contains, lemma_by_rank_differ,
    lemma_by_rank_ordered, lemma_distinct, lemma_filter_map_add, lemma_filter_map_contains,
    lemma_filter_map_filter, lemma_first_is_listed, lemma_first_is_none, lemma_gather_contains,
    lemma_push_contains, lemma_ranks_differ_add, numbered, ordered, ranks_differ, Ranked,
};
use crate::spaces::{
    first_error, is_held, live_on, live_windows, reading, row_holds, row_shows, row_spaces,
    shown_space, windows_in, QueryRow, ReadError, Reply, Step,
};
use crate::windowset::{column_windows, position_from, rec_tiled, WindowRecView, WorkspaceSet};
use crate::world::{is_entity, is_numbered, Windows};
use vstd::prelude::*;

verus! {

/// Only spaces that have a row on screen are asked about, each of them, and
/// each once.
pub proof fn lemma_asks_shown_spaces(desktop: DesktopView)
    ensures
        desktop.plan().no_duplicates(),
        forall|id: WorkspaceId|
            #[trigger] desktop.plan().contains(id) <==> exists|i: int|
                {
                    &&& 0 <= i < desktop.rows.len()
                    &&& (#[trigger] desktop.rows[i]).strip.id == id
                    &&& row_shows(desktop.rows[i], desktop.rows)
                },
{
    let strips = row_spaces(desktop.rows);
    lemma_distinct(strips.filter_map(shown_space()));
    assert forall|id: WorkspaceId|
        #[trigger] desktop.plan().contains(id) <==> exists|i: int|
            {
                &&& 0 <= i < desktop.rows.len()
                &&& (#[trigger] desktop.rows[i]).strip.id == id
                &&& row_shows(desktop.rows[i], desktop.rows)
            } by {
        lemma_filter_map_contains(strips, shown_space(), id);
        if desktop.plan().contains(id) {
            let i = choose|i: int|
                0 <= i < strips.len() && shown_space()(#[trigger] strips[i]) == Some(id);
            assert(strips[i] == (
                desktop.rows[i].strip.id,
                row_shows(desktop.rows[i], desktop.rows),
            ));
        }
        if exists|i: int|
            {
                &&& 0 <= i < desktop.rows.len()
                &&& (#[trigger] desktop.rows[i]).strip.id == id
                &&& row_shows(desktop.rows[i], desktop.rows)
            } {
            let i = choose|i: int|
                {
                    &&& 0 <= i < desktop.rows.len()
                    &&& (#[trigger] desktop.rows[i]).strip.id == id
                    &&& row_shows(desktop.rows[i], desktop.rows)
                };
            assert(shown_space()(strips[i]) == Some(id));
        }
    }
}

/// An answer is kept for each space that was asked about, and for no other.
pub proof fn lemma_live_spaces_are_asked(plan: Seq<WorkspaceId>, replies: Seq<Reply>)
    ensures
        forall|id: WorkspaceId|
            #[trigger] live_windows(plan, replies).contains_key(id) <==> plan.contains(id),
    decreases plan.len(),
{
    if plan.len() > 0 {
        let rest = plan.drop_last();
        lemma_live_spaces_are_asked(rest, replies);
        assert forall|id: WorkspaceId|
            #[trigger] live_windows(plan, replies).contains_key(id) <==> plan.contains(id) by {
            assert(live_windows(rest, replies).contains_key(id) <==> rest.contains(id));
            lemma_push_contains(rest, plan.last(), id);
            assert(rest.push(plan.last()) =~= plan);
        }
    }
}

/// The answer about a space says which windows are on it: those it lists.
pub proof fn lemma_live_windows_are_answered(
    plan: Seq<WorkspaceId>,
    replies: Seq<Reply>,
    i: int,
)
    requires
        plan.no_duplicates(),
        0 <= i < plan.len(),
    ensures
        live_on(live_windows(plan, replies), plan[i]) matches Some(ids) && {
            &&& ids.no_duplicates()
            &&& forall|id: WinID| #[trigger] ids.contains(id) <==> windows_in(replies[i]).contains(id)
        },
    decreases plan.len(),
{
    let last = plan.len() - 1;
    lemma_distinct(windows_in(replies[i]));
    if i < last {
        let rest = plan.drop_last();
        assert(rest[i] == plan[i]);
        lemma_live_windows_are_answered(rest, replies, i);
        assert(plan[i] != plan[last]);
    }
}

/// While answers are missing, the next space is asked about, and an answer to
/// it brings the asking one space further; the last one ends it.
pub proof fn lemma_answer_advances(
    plan: Seq<WorkspaceId>,
    replies: Seq<Reply>,
    id: WorkspaceId,
    windows: Vec<WinID>,
)
    requires
        reading(plan, replies) == Step::<()>::Ask(id),
    ensures
        replies.len() < plan.len(),
        id == plan[replies.len() as int],
        reading(plan, replies.push(Ok(windows))) == (if replies.len() + 1 < plan.len() {
            Step::<()>::Ask(plan[replies.len() as int + 1])
        } else {
            Step::<()>::Ready(())
        }),
{
    let next = replies.push(Ok::<Vec<WinID>, ReadError>(windows));
    assert(next.drop_last() =~= replies);
    assert(first_error(next) == first_error(replies));
    assert(next.take(next.len() as int) =~= next);
}

/// A space that cannot be enumerated fails the whole, with the error that was
/// given for it.
pub proof fn lemma_error_fails(
    plan: Seq<WorkspaceId>,
    replies: Seq<Reply>,
    id: WorkspaceId,
    error: ReadError,
)
    requires
        reading(plan, replies) == Step::<()>::Ask(id),
    ensures
        reading(plan, replies.push(Err(error))) == Step::<()>::Failed(error),
{
    let next = replies.push(Err::<Vec<WinID>, ReadError>(error));
    assert(next.drop_last() =~= replies);
    assert(next.take(next.len() as int) =~= next);
}

/// A space that nobody asked about keeps whatever its rows claim.
pub proof fn lemma_unasked_space_keeps_claims(
    row: QueryRow,
    live: Map<WorkspaceId, Seq<WinID>>,
    desktop: DesktopView,
    entity: Entity,
)
    requires
        !live.contains_key(row.strip.id),
        row.strip.owned().contains(entity),
    ensures
        row_holds(row, live, desktop.windows, entity),
{
}

/// A window that is no longer on the space of a row is not claimed by that row:
/// the row does not hold it and does not list it among its floats, be it set
/// aside or still laid out.
pub proof fn lemma_departed_window_is_not_claimed(
    row: QueryRow,
    live: Map<WorkspaceId, Seq<WinID>>,
    desktop: DesktopView,
    entity: Entity,
)
    requires
        live_on(live, row.strip.id) matches Some(ids) && (desktop.windows.window_of(
            entity,
        ) matches Some(window) ==> !ids.contains(window.id)),
    ensures
        !row_holds(row, live, desktop.windows, entity),
        !row.strip.detached@.filter(desktop.parked(row, live)).contains(entity),
        !row.strip.laid_out().filter(desktop.parked(row, live)).contains(entity),
        desktop.windows.floats(entity) ==> !row.strip.laid_out().filter(
            desktop.remains(row, live),
        ).contains(entity),
{
    lemma_kept_satisfies(row.strip.detached@, desktop.parked(row, live), entity);
    lemma_kept_satisfies(row.strip.laid_out(), desktop.parked(row, live), entity);
    lemma_kept_satisfies(row.strip.laid_out(), desktop.remains(row, live), entity);
}

/// What a filter keeps is listed, and satisfies it.
pub proof fn lemma_kept_satisfies<A>(s: Seq<A>, keep: spec_fn(A) -> bool, item: A)
    ensures
        s.filter(keep).contains(item) ==> s.contains(item) && keep(item),
{
    let kept = s.filter(keep);
    if kept.contains(item) {
        let i = choose|i: int| 0 <= i < kept.len() && kept[i] == item;
        s.lemma_filter_pred(keep, i);
        s.lemma_filter_contains_rev(keep, item);
    }
}

/// A float dragged to another space leaves its row: neither the document nor
/// the tree lists a window of its number on the row, wherever the row keeps it.
pub proof fn lemma_departed_float_leaves_its_row(
    desktop: DesktopView,
    row: QueryRow,
    live: Map<WorkspaceId, Seq<WinID>>,
    reply: Seq<WinID>,
    entity: Entity,
    id: WinID,
)
    requires
        desktop.windows.entities_differ(),
        desktop.windows.numbers_differ(),
        desktop.windows.floats(entity),
        desktop.windows.window_of(entity) matches Some(window) && window.id == id,
        live_on(live, row.strip.id) matches Some(ids) && !ids.contains(id),
        !reply.contains(id),
    ensures
        forall|state: PaneruWindowStateView|
            #[trigger] desktop.row_windows(row, live).contains(state) ==> state.window_id != id,
        forall|rec: WindowRecView|
            #[trigger] desktop.workspace_set(row, live, reply).windows().contains(rec) ==> rec.id
                != id,
{
    lemma_departed_window_is_not_claimed(row, live, desktop, entity);
    let members = desktop.row_members(row, live);
    let remaining = row.strip.laid_out().filter(desktop.remains(row, live));
    let laid_out = row.strip.laid_out().filter(desktop.parked(row, live));
    let parked = row.strip.detached@.filter(desktop.parked(row, live));
    let strays = reply.filter_map(desktop.stray(live));
    lemma_add_contains(remaining + parked, desktop.strays_on(row, live), entity);
    lemma_add_contains(remaining, parked, entity);
    lemma_add_contains(laid_out + parked, strays, entity);
    lemma_add_contains(laid_out, parked, entity);
    lemma_stray_is_answered(desktop, live, live_on(live, row.strip.id)->0, entity);
    lemma_stray_is_answered(desktop, live, reply, entity);
    assert forall|state: PaneruWindowStateView|
        #[trigger] desktop.row_windows(row, live).contains(state) implies state.window_id != id by {
        if state.window_id == id {
            lemma_state_by_number(desktop, members, entity, state);
        }
    }
    let set = desktop.workspace_set(row, live, reply);
    assert forall|rec: WindowRecView| #[trigger] set.windows().contains(rec) implies rec.id
        != id by {
        if rec.id == id {
            lemma_tree_row_members(desktop, row, live, reply);
            let tiled = row.strip.laid_out().filter(desktop.tiles());
            let floats = desktop.float_members(row, live, reply);
            lemma_add_contains(
                tiled.filter_map(desktop.recorder()),
                floats.filter_map(desktop.recorder()),
                rec,
            );
            if tiled.filter_map(desktop.recorder()).contains(rec) {
                lemma_record_by_number(desktop, tiled, entity, rec);
                lemma_kept_satisfies(row.strip.laid_out(), desktop.tiles(), entity);
            } else {
                lemma_record_by_number(desktop, floats, entity, rec);
            }
        }
    }
}

/// A float that is taken from an answer is listed there.
proof fn lemma_stray_is_answered(
    desktop: DesktopView,
    live: Map<WorkspaceId, Seq<WinID>>,
    ids: Seq<WinID>,
    entity: Entity,
)
    requires
        desktop.windows.entities_differ(),
    ensures
        ids.filter_map(desktop.stray(live)).contains(entity) ==> (desktop.windows.window_of(
            entity,
        ) matches Some(window) && ids.contains(window.id)),
{
    let windows = desktop.windows;
    lemma_filter_map_contains(ids, desktop.stray(live), entity);
    if ids.filter_map(desktop.stray(live)).contains(entity) {
        let k = choose|k: int|
            0 <= k < ids.len() && desktop.stray(live)(#[trigger] ids[k]) == Some(entity);
        lemma_first_is_listed(windows.all@, is_numbered(ids[k]), 0);
        lemma_first_is_listed(windows.all@, is_entity(entity), 0);
        let numbered_window = windows.window_numbered(ids[k])->0;
        let a = choose|a: int| 0 <= a < windows.all@.len() && windows.all@[a] == numbered_window;
        lemma_first_is_none(windows.all@, is_entity(entity), 0);
        assert(is_entity(entity)(windows.all@[a]));
        let own = windows.window_of(entity)->0;
        let b = choose|b: int| 0 <= b < windows.all@.len() && windows.all@[b] == own;
        assert(a == b);
    }
}

/// Two entities whose windows share a number are one.
proof fn lemma_entity_by_number(windows: Windows, a: Entity, b: Entity)
    requires
        windows.numbers_differ(),
        windows.window_of(a) is Some,
        windows.window_of(b) is Some,
        windows.window_of(a)->0.id == windows.window_of(b)->0.id,
    ensures
        a == b,
{
    lemma_first_is_listed(windows.all@, is_entity(a), 0);
    lemma_first_is_listed(windows.all@, is_entity(b), 0);
    let i = choose|i: int| 0 <= i < windows.all@.len() && windows.all@[i] == windows.window_of(a)->0;
    let j = choose|j: int| 0 <= j < windows.all@.len() && windows.all@[j] == windows.window_of(b)->0;
    assert(i == j);
}

proof fn lemma_state_by_number(
    desktop: DesktopView,
    entities: Seq<Entity>,
    entity: Entity,
    state: PaneruWindowStateView,
)
    requires
        desktop.windows.numbers_differ(),
        desktop.windows.window_of(entity) matches Some(window) && window.id == state.window_id,
        entities.filter_map(desktop.window_stater()).contains(state),
    ensures
        entities.contains(entity),
{
    lemma_filter_map_contains(entities, desktop.window_stater(), state);
    let k = choose|k: int|
        0 <= k < entities.len() && desktop.window_stater()(#[trigger] entities[k]) == Some(state);
    lemma_entity_by_number(desktop.windows, entity, entities[k]);
}

proof fn lemma_record_by_number(
    desktop: DesktopView,
    entities: Seq<Entity>,
    entity: Entity,
    rec: WindowRecView,
)
    requires
        desktop.windows.numbers_differ(),
        desktop.windows.window_of(entity) matches Some(window) && window.id == rec.id,
        entities.filter_map(desktop.recorder()).contains(rec),
    ensures
        entities.contains(entity),
{
    lemma_filter_map_contains(entities, desktop.recorder(), rec);
    let k = choose|k: int|
        0 <= k < entities.len() && desktop.recorder()(#[trigger] entities[k]) == Some(rec);
    lemma_entity_by_number(desktop.windows, entity, entities[k]);
}

/// A window that some row holds is not handed to a row a second time: what a
/// row shows beyond what rows hold are floats that none of them holds.
pub proof fn lemma_held_window_is_not_handed_out(
    row: QueryRow,
    live: Map<WorkspaceId, Seq<WinID>>,
    desktop: DesktopView,
    entity: Entity,
)
    requires
        desktop.strays_on(row, live).contains(entity),
    ensures
        !is_held(desktop.rows, live, desktop.windows, entity),
        desktop.windows.floats(entity),
        row_shows(row, desktop.rows),
{
    let ids = live_on(live, row.strip.id)->0;
    lemma_filter_map_contains(ids, desktop.stray(live), entity);
}

/// The same holds of the floats that the tree takes from an answer.
pub proof fn lemma_held_window_is_not_taken(
    reply: Seq<WinID>,
    live: Map<WorkspaceId, Seq<WinID>>,
    desktop: DesktopView,
    entity: Entity,
)
    requires
        reply.filter_map(desktop.stray(live)).contains(entity),
    ensures
        !is_held(desktop.rows, live, desktop.windows, entity),
        desktop.windows.floats(entity),
{
    lemma_filter_map_contains(reply, desktop.stray(live), entity);
}

/// Whether a window is owned by one row at most.
pub open spec fn has_one_owner(desktop: DesktopView, entity: Entity) -> bool {
    forall|i: int, j: int|
        {
            &&& 0 <= i < j < desktop.rows.len()
            &&& (#[trigger] desktop.rows[i]).strip.owned().contains(entity)
        } ==> !(#[trigger] desktop.rows[j]).strip.owned().contains(entity)
}

/// Whether a window is owned by one row at most, and is on one space at most.
pub open spec fn settled(
    desktop: DesktopView,
    live: Map<WorkspaceId, Seq<WinID>>,
    entity: Entity,
) -> bool {
    &&& has_one_owner(desktop, entity)
    &&& desktop.windows.window_of(entity) matches Some(window) ==> forall|a: WorkspaceId, b: WorkspaceId|
        {
            &&& live.contains_key(a) && #[trigger] live[a].contains(window.id)
            &&& live.contains_key(b) && #[trigger] live[b].contains(window.id)
        } ==> a == b
}

/// A window belongs to one row: where the rows on screen are on different
/// spaces, no two rows list it.
pub proof fn lemma_window_is_on_one_row(
    desktop: DesktopView,
    live: Map<WorkspaceId, Seq<WinID>>,
    entity: Entity,
    i: int,
    j: int,
)
    requires
        desktop.windows.entities_differ(),
        settled(desktop, live, entity),
        0 <= i < j < desktop.rows.len(),
        row_shows(desktop.rows[i], desktop.rows) && row_shows(desktop.rows[j], desktop.rows)
            ==> desktop.rows[i].strip.id != desktop.rows[j].strip.id,
    ensures
        !(desktop.row_members(desktop.rows[i], live).contains(entity) && desktop.row_members(
            desktop.rows[j],
            live,
        ).contains(entity)),
{
    if desktop.row_members(desktop.rows[i], live).contains(entity) && desktop.row_members(
        desktop.rows[j],
        live,
    ).contains(entity) {
        lemma_member_is_held_or_stray(desktop, live, entity, i);
        lemma_member_is_held_or_stray(desktop, live, entity, j);
        if desktop.strays_on(desktop.rows[i], live).contains(entity) {
            lemma_held_window_is_not_handed_out(desktop.rows[i], live, desktop, entity);
            lemma_stray_is_answered(
                desktop,
                live,
                live_on(live, desktop.rows[i].strip.id)->0,
                entity,
            );
        }
        if desktop.strays_on(desktop.rows[j], live).contains(entity) {
            lemma_held_window_is_not_handed_out(desktop.rows[j], live, desktop, entity);
            lemma_stray_is_answered(
                desktop,
                live,
                live_on(live, desktop.rows[j].strip.id)->0,
                entity,
            );
        }
    }
}

proof fn lemma_member_is_held_or_stray(
    desktop: DesktopView,
    live: Map<WorkspaceId, Seq<WinID>>,
    entity: Entity,
    i: int,
)
    requires
        0 <= i < desktop.rows.len(),
        desktop.row_members(desktop.rows[i], live).contains(entity),
    ensures
        ({
            ||| desktop.rows[i].strip.owned().contains(entity) && (desktop.windows.floats(entity)
                ==> is_held(desktop.rows, live, desktop.windows, entity))
            ||| desktop.strays_on(desktop.rows[i], live).contains(entity)
        }),
{
    let row = desktop.rows[i];
    let remaining = row.strip.laid_out().filter(desktop.remains(row, live));
    let parked = row.strip.detached@.filter(desktop.parked(row, live));
    lemma_add_contains(remaining + parked, desktop.strays_on(row, live), entity);
    lemma_add_contains(remaining, parked, entity);
    lemma_add_contains(row.strip.laid_out(), row.strip.detached@, entity);
    lemma_kept_satisfies(row.strip.laid_out(), desktop.remains(row, live), entity);
    lemma_kept_satisfies(row.strip.detached@, desktop.parked(row, live), entity);
    if row.strip.owned().contains(entity) && desktop.windows.floats(entity) && (
    remaining.contains(entity) || parked.contains(entity)) {
        assert(row_holds(desktop.rows[i], live, desktop.windows, entity));
    }
}

/// A window that its row owns, and that is still on the space of the row, is on
/// no other row of the document, not even on a row of the same space that shows.
pub proof fn lemma_owned_window_is_on_no_other_row(
    desktop: DesktopView,
    live: Map<WorkspaceId, Seq<WinID>>,
    entity: Entity,
    i: int,
    j: int,
)
    requires
        has_one_owner(desktop, entity),
        0 <= i < desktop.rows.len(),
        0 <= j < desktop.rows.len(),
        i != j,
        row_holds(desktop.rows[i], live, desktop.windows, entity),
    ensures
        !desktop.row_members(desktop.rows[j], live).contains(entity),
        desktop.windows.numbers_differ() ==> forall|state: PaneruWindowStateView|
            #[trigger] desktop.row_windows(desktop.rows[j], live).contains(state) ==> (
            desktop.windows.window_of(entity) matches Some(window) ==> state.window_id
                != window.id),
{
    let members = desktop.row_members(desktop.rows[j], live);
    if members.contains(entity) {
        lemma_member_is_held_or_stray(desktop, live, entity, j);
        if desktop.strays_on(desktop.rows[j], live).contains(entity) {
            lemma_held_window_is_not_handed_out(desktop.rows[j], live, desktop, entity);
        }
    }
    if desktop.windows.numbers_differ() {
        assert forall|state: PaneruWindowStateView|
            #[trigger] desktop.row_windows(desktop.rows[j], live).contains(state) implies (
        desktop.windows.window_of(entity) matches Some(window) ==> state.window_id
            != window.id) by {
            if desktop.windows.window_of(entity) matches Some(window) && state.window_id
                == window.id {
                lemma_state_by_number(desktop, members, entity, state);
            }
        }
    }
}

/// A float that its row owns, and that is still on the space of the row, is
/// among the floats of no other row of the tree, not even of a row on the same
/// space, whatever is answered for that row.
pub proof fn lemma_owned_float_is_on_one_tree_row(
    desktop: DesktopView,
    live: Map<WorkspaceId, Seq<WinID>>,
    entity: Entity,
    i: int,
    j: int,
    reply: Seq<WinID>,
)
    requires
        has_one_owner(desktop, entity),
        0 <= i < desktop.rows.len(),
        0 <= j < desktop.rows.len(),
        i != j,
        row_holds(desktop.rows[i], live, desktop.windows, entity),
    ensures
        !desktop.float_members(desktop.rows[j], live, reply).contains(entity),
        desktop.windows.numbers_differ() ==> forall|rec: WindowRecView|
            #[trigger] desktop.workspace_set(desktop.rows[j], live, reply).floating.contains(rec)
                ==> (desktop.windows.window_of(entity) matches Some(window) ==> rec.id
                != window.id),
{
    lemma_float_member_is_owned_or_stray(desktop, live, entity, j, reply);
    if reply.filter_map(desktop.stray(live)).contains(entity) {
        lemma_held_window_is_not_taken(reply, live, desktop, entity);
    }
    let floats = desktop.float_members(desktop.rows[j], live, reply);
    assert(!floats.contains(entity));
    if desktop.windows.numbers_differ() {
        assert forall|rec: WindowRecView|
            #[trigger] desktop.workspace_set(desktop.rows[j], live, reply).floating.contains(
                rec,
            ) implies (desktop.windows.window_of(entity) matches Some(window) ==> rec.id
            != window.id) by {
            if desktop.windows.window_of(entity) matches Some(window) && rec.id == window.id {
                lemma_record_by_number(desktop, floats, entity, rec);
            }
        }
    }
}

/// A window belongs to one row of the tree too: where the rows on screen are on
/// different spaces, no two rows have it among their floats. What is answered
/// for a row is what is on its space.
pub proof fn lemma_float_is_on_one_tree_row(
    desktop: DesktopView,
    live: Map<WorkspaceId, Seq<WinID>>,
    entity: Entity,
    i: int,
    j: int,
    first: Seq<WinID>,
    second: Seq<WinID>,
)
    requires
        desktop.windows.entities_differ(),
        settled(desktop, live, entity),
        0 <= i < j < desktop.rows.len(),
        answers_row(desktop, live, i, first),
        answers_row(desktop, live, j, second),
        row_shows(desktop.rows[i], desktop.rows) && row_shows(desktop.rows[j], desktop.rows)
            ==> desktop.rows[i].strip.id != desktop.rows[j].strip.id,
    ensures
        !(desktop.float_members(desktop.rows[i], live, first).contains(entity)
            && desktop.float_members(desktop.rows[j], live, second).contains(entity)),
{
    if desktop.float_members(desktop.rows[i], live, first).contains(entity)
        && desktop.float_members(desktop.rows[j], live, second).contains(entity) {
        lemma_float_member_is_owned_or_stray(desktop, live, entity, i, first);
        lemma_float_member_is_owned_or_stray(desktop, live, entity, j, second);
        lemma_stray_is_answered(desktop, live, first, entity);
        lemma_stray_is_answered(desktop, live, second, entity);
        if first.filter_map(desktop.stray(live)).contains(entity) {
            lemma_held_window_is_not_taken(first, live, desktop, entity);
        }
        if second.filter_map(desktop.stray(live)).contains(entity) {
            lemma_held_window_is_not_taken(second, live, desktop, entity);
        }
    }
}

/// Whether a list is an answer for the row at position `i`: it lists windows on
/// the space of the row, and none where the row does not show.
pub open spec fn answers_row(
    desktop: DesktopView,
    live: Map<WorkspaceId, Seq<WinID>>,
    i: int,
    reply: Seq<WinID>,
) -> bool {
    forall|id: WinID| #[trigger]
        reply.contains(id) ==> row_shows(desktop.rows[i], desktop.rows) && (live_on(
            live,
            desktop.rows[i].strip.id,
        ) matches Some(ids) && ids.contains(id))
}

proof fn lemma_float_member_is_owned_or_stray(
    desktop: DesktopView,
    live: Map<WorkspaceId, Seq<WinID>>,
    entity: Entity,
    i: int,
    reply: Seq<WinID>,
)
    requires
        0 <= i < desktop.rows.len(),
    ensures
        desktop.float_members(desktop.rows[i], live, reply).contains(entity) ==> {
            ||| desktop.rows[i].strip.owned().contains(entity) && is_held(
                desktop.rows,
                live,
                desktop.windows,
                entity,
            )
            ||| reply.filter_map(desktop.stray(live)).contains(entity)
        },
{
    let row = desktop.rows[i];
    let keep = desktop.parked(row, live);
    let laid_out = row.strip.laid_out().filter(keep);
    let parked = row.strip.detached@.filter(keep);
    lemma_add_contains(laid_out + parked, reply.filter_map(desktop.stray(live)), entity);
    lemma_add_contains(laid_out, parked, entity);
    lemma_add_contains(row.strip.laid_out(), row.strip.detached@, entity);
    lemma_kept_satisfies(row.strip.laid_out(), keep, entity);
    lemma_kept_satisfies(row.strip.detached@, keep, entity);
    if laid_out.contains(entity) || parked.contains(entity) {
        assert(row_holds(desktop.rows[i], live, desktop.windows, entity));
    }
}

/// Minimized and hidden windows are never visible, whatever their last known
/// frame says.
pub proof fn lemma_out_of_sight_is_not_visible(desktop: DesktopView, entity: Entity)
    requires
        desktop.windows.window_of(entity) matches Some(window) && out_of_sight(window),
    ensures
        desktop.window_state(entity) matches Some(state) ==> !state.visible,
        desktop.window_rec(entity) matches Some(rec) ==> !rec.visible,
{
}

/// A window that is visible is on a display.
pub proof fn lemma_visible_is_on_a_display(desktop: DesktopView, entity: Entity)
    ensures
        desktop.window_state(entity) matches Some(state) ==> (state.visible
            ==> state.display_id is Some && state.frame is Some),
{
}

/// The document and the tree know the same windows, and say the same of each.
pub proof fn lemma_document_and_tree_agree(desktop: DesktopView, entity: Entity)
    ensures
        match (desktop.window_state(entity), desktop.window_rec(entity)) {
            (Some(state), Some(rec)) => {
                &&& state.window_id == rec.id
                &&& state.app_name == rec.app_name
                &&& state.bundle_id == rec.bundle_id
                &&& state.title == rec.title
                &&& state.frame == rec.frame
                &&& state.floating == rec.floating
                &&& state.visible == rec.visible
                &&& state.focused == rec.focused
            },
            (None, None) => true,
            _ => false,
        },
{
}

/// The focused window is told completely or not at all.
pub proof fn lemma_focus_is_complete(desktop: DesktopView, live: Map<WorkspaceId, Seq<WinID>>)
    ensures
        ({
            let active = desktop.in_use_among(desktop.rows, live);
            &&& active.focused_window_id is Some <==> active.focused_bundle_id is Some
            &&& active.focused_window_id is Some <==> active.focused_app_name is Some
            &&& active.focused_window_id is Some <==> active.focused_window_title is Some
            &&& active.native_workspace_id is Some <==> active.virtual_workspace_number is Some
        }),
{
}

/// The rows of the document go by space, and within a space by number.
pub proof fn lemma_document_in_order(
    desktop: DesktopView,
    live: Map<WorkspaceId, Seq<WinID>>,
    timestamp: u64,
)
    ensures
        ({
            let listed = desktop.document(live, timestamp).virtual_workspaces;
            forall|i: int, j: int|
                0 <= i < j < listed.len() ==> {
                    ||| (#[trigger] listed[i]).native_workspace_id < (
                    #[trigger] listed[j]).native_workspace_id
                    ||| listed[i].native_workspace_id == listed[j].native_workspace_id
                        && listed[i].number <= listed[j].number
                }
        }),
{
    let listed = desktop.document(live, timestamp).virtual_workspaces;
    lemma_by_rank_ordered::<PaneruVirtualWorkspaceState>(desktop.unordered_rows(live));
    assert(ordered::<PaneruVirtualWorkspaceState>(listed));
}

/// Every row is in the document; whatever else is there is an empty row whose
/// number no row of its space has.
pub proof fn lemma_document_rows(
    desktop: DesktopView,
    live: Map<WorkspaceId, Seq<WinID>>,
    timestamp: u64,
    state: PaneruVirtualWorkspaceStateView,
)
    ensures
        desktop.document(live, timestamp).virtual_workspaces.contains(state) <==> {
            ||| exists|i: int|
                0 <= i < desktop.rows.len() && desktop.row_stater(live)(#[trigger] desktop.rows[i])
                    == state
            ||| is_missing(desktop, state)
        },
{
    let rows = desktop.rows.map_values(desktop.row_stater(live));
    let missing = gather(desktop.spaces(), missing_on(desktop.rows));
    lemma_by_rank_contains::<PaneruVirtualWorkspaceState>(desktop.unordered_rows(live), state);
    lemma_add_contains(rows, missing, state);
    if rows.contains(state) {
        let i = choose|i: int| 0 <= i < rows.len() && rows[i] == state;
        assert(desktop.row_stater(live)(desktop.rows[i]) == state);
    }
    if exists|i: int|
        0 <= i < desktop.rows.len() && desktop.row_stater(live)(#[trigger] desktop.rows[i])
            == state {
        let i = choose|i: int|
            0 <= i < desktop.rows.len() && desktop.row_stater(live)(#[trigger] desktop.rows[i])
                == state;
        assert(rows[i] == state);
    }
    lemma_gather_contains(desktop.spaces(), missing_on(desktop.rows), state);
    lemma_space_listed(desktop, state.native_workspace_id);
    if missing.contains(state) {
        let k = choose|k: int|
            0 <= k < desktop.spaces().len() && missing_on(desktop.rows)(
                #[trigger] desktop.spaces()[k],
            ).contains(state);
        let id = desktop.spaces()[k];
        lemma_missing_to(desktop.rows, id, largest_number(desktop.rows, id), state);
        assert(desktop.spaces().contains(id));
    }
    if is_missing(desktop, state) {
        let id = state.native_workspace_id;
        lemma_missing_to(desktop.rows, id, largest_number(desktop.rows, id), state);
        let k = choose|k: int| 0 <= k < desktop.spaces().len() && desktop.spaces()[k] == id;
        assert(missing_on(desktop.rows)(desktop.spaces()[k]).contains(state));
    }
}

/// Whether a row is one that the document adds: it is empty, and its number is
/// below the largest of its space without being that of a row.
pub open spec fn is_missing(desktop: DesktopView, state: PaneruVirtualWorkspaceStateView) -> bool {
    let id = state.native_workspace_id;
    &&& exists|i: int| 0 <= i < desktop.rows.len() && (#[trigger] desktop.rows[i]).strip.id == id
    &&& 1 <= state.number <= largest_number(desktop.rows, id)
    &&& !has_number(desktop.rows, id, state.number as int)
    &&& state == missing_row(id, state.number as nat)
}

/// Whether no two rows of one space have the same place on it.
pub open spec fn rows_differ(desktop: DesktopView) -> bool {
    forall|i: int, j: int|
        0 <= i < j < desktop.rows.len() && (#[trigger] desktop.rows[i]).strip.id == (
        #[trigger] desktop.rows[j]).strip.id ==> desktop.rows[i].strip.virtual_index
            != desktop.rows[j].strip.virtual_index
}

/// Where no two rows have the same place, the document lists no number of a
/// space twice.
pub proof fn lemma_document_rows_differ(
    desktop: DesktopView,
    live: Map<WorkspaceId, Seq<WinID>>,
    timestamp: u64,
)
    requires
        desktop.numbers_fit(),
        rows_differ(desktop),
    ensures
        ({
            let listed = desktop.document(live, timestamp).virtual_workspaces;
            forall|i: int, j: int|
                0 <= i < j < listed.len() && (#[trigger] listed[i]).native_workspace_id == (
                #[trigger] listed[j]).native_workspace_id ==> listed[i].number
                    != listed[j].number
        }),
{
    let rows = desktop.rows.map_values(desktop.row_stater(live));
    let missing = gather(desktop.spaces(), missing_on(desktop.rows));
    assert forall|i: int, j: int| 0 <= i < j < rows.len() implies row_rank(#[trigger] rows[i])
        != row_rank(#[trigger] rows[j]) by {
        assert(desktop.rows[i].strip.virtual_index < u32::MAX);
        assert(desktop.rows[j].strip.virtual_index < u32::MAX);
    }
    lemma_distinct(desktop.rows.map_values(DesktopView::space_of_row()));
    lemma_missing_rows_differ(desktop.rows, desktop.spaces());
    assert forall|i: int, j: int| 0 <= i < rows.len() && 0 <= j < missing.len() implies row_rank(
        #[trigger] rows[i],
    ) != row_rank(#[trigger] missing[j]) by {
        assert(missing.contains(missing[j]));
        lemma_missing_is_missing(desktop.rows, desktop.spaces(), missing[j]);
        assert(desktop.rows[i].strip.id == rows[i].native_workspace_id);
        assert(row_number(desktop.rows[i]) == rows[i].number);
    }
    lemma_ranks_differ_add::<PaneruVirtualWorkspaceState>(rows, missing);
    lemma_by_rank_differ::<PaneruVirtualWorkspaceState>(desktop.unordered_rows(live));
    let listed = desktop.document(live, timestamp).virtual_workspaces;
    assert forall|i: int, j: int|
        0 <= i < j < listed.len() && (#[trigger] listed[i]).native_workspace_id == (
        #[trigger] listed[j]).native_workspace_id implies listed[i].number
        != listed[j].number by {
        assert(row_rank(listed[i]) != row_rank(listed[j]));
    }
}

/// Where a row is listed in the document.
spec fn row_rank(state: PaneruVirtualWorkspaceStateView) -> (int, int) {
    PaneruVirtualWorkspaceState::rank(state)
}

/// A row that was added for one of the spaces bears the number of no row.
pub proof fn lemma_missing_is_missing(
    rows: Seq<QueryRow>,
    ids: Seq<WorkspaceId>,
    state: PaneruVirtualWorkspaceStateView,
)
    requires
        gather(ids, missing_on(rows)).contains(state),
    ensures
        ids.contains(state.native_workspace_id),
        !has_number(rows, state.native_workspace_id, state.number as int),
{
    lemma_gather_contains(ids, missing_on(rows), state);
    let k = choose|k: int|
        0 <= k < ids.len() && missing_on(rows)(#[trigger] ids[k]).contains(state);
    lemma_missing_to(rows, ids[k], largest_number(rows, ids[k]), state);
}

/// No row is added twice.
proof fn lemma_missing_rows_differ(rows: Seq<QueryRow>, ids: Seq<WorkspaceId>)
    requires
        ids.no_duplicates(),
    ensures
        ranks_differ::<PaneruVirtualWorkspaceState>(gather(ids, missing_on(rows))),
    decreases ids.len(),
{
    if ids.len() > 0 {
        let rest = ids.drop_last();
        let id = ids.last();
        let a = gather(rest, missing_on(rows));
        let b = missing_to(rows, id, largest_number(rows, id));
        assert forall|i: int, j: int| 0 <= i < rest.len() && 0 <= j < rest.len() && i
            != j implies rest[i] != rest[j] by {
            assert(ids[i] != ids[j]);
        }
        lemma_missing_rows_differ(rows, rest);
        lemma_missing_to_differs(rows, id, largest_number(rows, id));
        assert forall|i: int, j: int| 0 <= i < a.len() && 0 <= j < b.len() implies row_rank(
            #[trigger] a[i],
        ) != row_rank(#[trigger] b[j]) by {
            assert(a.contains(a[i]));
            lemma_missing_is_missing(rows, rest, a[i]);
            assert(b.contains(b[j]));
            lemma_missing_to(rows, id, largest_number(rows, id), b[j]);
            let k = choose|k: int| 0 <= k < rest.len() && rest[k] == a[i].native_workspace_id;
            assert(ids[k] != ids[ids.len() - 1]);
        }
        lemma_ranks_differ_add::<PaneruVirtualWorkspaceState>(a, b);
    }
}

/// No row of one space is added twice.
proof fn lemma_missing_to_differs(rows: Seq<QueryRow>, id: WorkspaceId, number: nat)
    requires
        number <= largest_number(rows, id),
    ensures
        ranks_differ::<PaneruVirtualWorkspaceState>(missing_to(rows, id, number)),
    decreases number,
{
    if number > 0 {
        let below = (number - 1) as nat;
        let rest = missing_to(rows, id, below);
        let all = missing_to(rows, id, number);
        lemma_missing_to_differs(rows, id, below);
        lemma_largest_fits(rows, id);
        assert forall|i: int, j: int| 0 <= i < j < all.len() implies row_rank(#[trigger] all[i])
            != row_rank(#[trigger] all[j]) by {
            if j < rest.len() {
                assert(row_rank(rest[i]) != row_rank(rest[j]));
            } else {
                assert(rest.contains(rest[i]));
                lemma_missing_to(rows, id, below, rest[i]);
            }
        }
    }
}

proof fn lemma_space_listed(desktop: DesktopView, id: WorkspaceId)
    ensures
        desktop.spaces().contains(id) <==> exists|i: int|
            0 <= i < desktop.rows.len() && (#[trigger] desktop.rows[i]).strip.id == id,
{
    let ids = desktop.rows.map_values(DesktopView::space_of_row());
    lemma_distinct(ids);
    assert(distinct(ids).contains(id) <==> ids.contains(id));
    if ids.contains(id) {
        let i = choose|i: int| 0 <= i < ids.len() && ids[i] == id;
        assert(desktop.rows[i].strip.id == id);
    }
    if exists|i: int|
        0 <= i < desktop.rows.len() && (#[trigger] desktop.rows[i]).strip.id == id {
        let i = choose|i: int|
            0 <= i < desktop.rows.len() && (#[trigger] desktop.rows[i]).strip.id == id;
        assert(ids[i] == id);
    }
}

proof fn lemma_largest_fits(rows: Seq<QueryRow>, id: WorkspaceId)
    ensures
        largest_number(rows, id) <= u32::MAX,
    decreases rows.len(),
{
    if rows.len() > 0 {
        lemma_largest_fits(rows.drop_last(), id);
    }
}

proof fn lemma_missing_to(
    rows: Seq<QueryRow>,
    id: WorkspaceId,
    number: nat,
    state: PaneruVirtualWorkspaceStateView,
)
    requires
        number <= largest_number(rows, id),
    ensures
        missing_to(rows, id, number).contains(state) <==> {
            &&& state.native_workspace_id == id
            &&& 1 <= state.number <= number
            &&& !has_number(rows, id, state.number as int)
            &&& state == missing_row(id, state.number as nat)
        },
    decreases number,
{
    lemma_largest_fits(rows, id);
    if number > 0 {
        let below = (number - 1) as nat;
        lemma_missing_to(rows, id, below, state);
        lemma_push_contains(
            missing_to(rows, id, below),
            missing_row(id, number),
            state,
        );
        assert(missing_row(id, number).number == number);
    }
}

/// The rows of a space are listed without a gap: each number from one to the
/// largest is there.
pub proof fn lemma_no_gap(
    desktop: DesktopView,
    live: Map<WorkspaceId, Seq<WinID>>,
    timestamp: u64,
    id: WorkspaceId,
    number: u32,
)
    requires
        exists|i: int| 0 <= i < desktop.rows.len() && (#[trigger] desktop.rows[i]).strip.id == id,
        1 <= number <= largest_number(desktop.rows, id),
    ensures
        exists|state: PaneruVirtualWorkspaceStateView|
            {
                &&& #[trigger] desktop.document(live, timestamp).virtual_workspaces.contains(state)
                &&& state.native_workspace_id == id
                &&& state.number == number
            },
{
    let listed = desktop.document(live, timestamp).virtual_workspaces;
    if has_number(desktop.rows, id, number as int) {
        let i = choose|i: int|
            0 <= i < desktop.rows.len() && (#[trigger] desktop.rows[i]).strip.id == id
                && row_number(desktop.rows[i]) == number;
        let state = desktop.row_stater(live)(desktop.rows[i]);
        lemma_document_rows(desktop, live, timestamp, state);
        assert(listed.contains(state));
    } else {
        let state = missing_row(id, number as nat);
        assert(is_missing(desktop, state));
        lemma_document_rows(desktop, live, timestamp, state);
        assert(listed.contains(state));
    }
}

/// No row goes beyond the largest number of its space.
pub proof fn lemma_largest_is_largest(rows: Seq<QueryRow>, id: WorkspaceId)
    ensures
        forall|i: int|
            0 <= i < rows.len() && (#[trigger] rows[i]).strip.id == id ==> row_number(rows[i])
                <= largest_number(rows, id),
        largest_number(rows, id) > 0 ==> has_number(rows, id, largest_number(rows, id) as int),
    decreases rows.len(),
{
    if rows.len() > 0 {
        let rest = rows.drop_last();
        lemma_largest_is_largest(rest, id);
        assert forall|i: int|
            0 <= i < rows.len() && (#[trigger] rows[i]).strip.id == id implies row_number(rows[i])
            <= largest_number(rows, id) by {
            if i < rest.len() {
                assert(rest[i].strip.id == id);
            }
        }
        if largest_number(rows, id) > 0 {
            if rows.last().strip.id == id && row_number(rows.last()) > largest_number(rest, id) {
                assert(rows[rows.len() - 1].strip.id == id);
            } else {
                let i = choose|i: int|
                    0 <= i < rest.len() && (#[trigger] rest[i]).strip.id == id && row_number(
                        rest[i],
                    ) == largest_number(rest, id);
                assert(rows[i].strip.id == id);
            }
        }
    }
}

/// A column of the tree has at least one window, all of them laid out, and the
/// one on top is among them.
pub proof fn lemma_column_is_laid_out(desktop: DesktopView, column: Column)
    ensures
        desktop.column_set(column) matches Some(set) ==> {
            &&& set.windows.len() > 0
            &&& 0 <= set.selected < set.windows.len()
            &&& forall|i: int|
                0 <= i < set.windows.len() ==> !(#[trigger] set.windows[i]).floating
        },
{
    let recs = desktop.column_recs(column);
    let tiled = recs.filter(rec_tiled());
    assert forall|i: int| 0 <= i < tiled.len() implies !(#[trigger] tiled[i]).floating by {
        recs.lemma_filter_pred(rec_tiled(), i);
    }
    if column.members().len() > 0 {
        if let Some(top) = desktop.windows.window_of(column.members()[0]) {
            lemma_position_in_range(tiled, top.id, 0);
        }
    }
}

proof fn lemma_position_in_range(recs: Seq<WindowRecView>, id: WinID, i: int)
    requires
        0 <= i <= recs.len(),
    ensures
        position_from(recs, id, i) matches Some(position) ==> i <= position < recs.len()
            && recs[position].id == id,
    decreases recs.len() - i,
{
    if i < recs.len() {
        lemma_position_in_range(recs, id, i + 1);
    }
}

/// What a row lists as floating floats.
pub proof fn lemma_floating_floats(
    desktop: DesktopView,
    row: QueryRow,
    live: Map<WorkspaceId, Seq<WinID>>,
    reply: Seq<WinID>,
    rec: WindowRecView,
)
    requires
        desktop.workspace_set(row, live, reply).floating.contains(rec),
    ensures
        rec.floating,
{
    let floats = desktop.float_members(row, live, reply);
    lemma_filter_map_contains(floats, desktop.recorder(), rec);
    let i = choose|i: int|
        0 <= i < floats.len() && desktop.recorder()(#[trigger] floats[i]) == Some(rec);
    let laid_out = row.strip.laid_out().filter(desktop.parked(row, live));
    let parked = row.strip.detached@.filter(desktop.parked(row, live));
    let strays = reply.filter_map(desktop.stray(live));
    assert(floats.contains(floats[i]));
    lemma_add_contains(laid_out + parked, strays, floats[i]);
    lemma_add_contains(laid_out, parked, floats[i]);
    lemma_kept_satisfies(row.strip.laid_out(), desktop.parked(row, live), floats[i]);
    lemma_kept_satisfies(row.strip.detached@, desktop.parked(row, live), floats[i]);
    if strays.contains(floats[i]) {
        lemma_held_window_is_not_taken(reply, live, desktop, floats[i]);
    }
}

/// A row of the tree lists what it lays out that does not float, and its floats.
pub proof fn lemma_tree_row_members(
    desktop: DesktopView,
    row: QueryRow,
    live: Map<WorkspaceId, Seq<WinID>>,
    reply: Seq<WinID>,
)
    ensures
        desktop.workspace_set(row, live, reply).windows() == row.strip.laid_out().filter(
            desktop.tiles(),
        ).filter_map(desktop.recorder()) + desktop.float_members(row, live, reply).filter_map(
            desktop.recorder(),
        ),
{
    lemma_columns_tile(desktop, row.strip.columns@);
}

/// The columns of the tree together list what is laid out and does not float.
proof fn lemma_columns_tile(desktop: DesktopView, columns: Seq<Column>)
    ensures
        gather(columns.filter_map(desktop.column_setter()), column_windows()) == gather(
            columns,
            column_members(),
        ).filter(desktop.tiles()).filter_map(desktop.recorder()),
    decreases columns.len(),
{
    reveal(Seq::filter);
    if columns.len() > 0 {
        let rest = columns.drop_last();
        let column = columns.last();
        let setter = desktop.column_setter();
        let recorder = desktop.recorder();
        let tiles = desktop.tiles();
        lemma_columns_tile(desktop, rest);
        lemma_filter_map_filter(column.members(), recorder, rec_tiled(), tiles);
        Seq::filter_distributes_over_add(
            gather(rest, column_members()),
            column.members(),
            tiles,
        );
        lemma_filter_map_add(
            gather(rest, column_members()).filter(tiles),
            column.members().filter(tiles),
            recorder,
        );
        let tiled = desktop.column_recs(column).filter(rec_tiled());
        let before = gather(rest.filter_map(setter), column_windows());
        match desktop.column_set(column) {
            Some(set) => {
                let sets = rest.filter_map(setter);
                assert((sets + seq![set]).drop_last() =~= sets);
                assert((sets + seq![set]).last() == set);
                assert(set.windows == tiled);
            },
            None => {
                assert(rest.filter_map(setter) + Seq::empty() =~= rest.filter_map(setter));
                assert(before + tiled =~= before);
            },
        }
    }
}

/// The rows of a display in the tree go from the first to the last.
pub proof fn lemma_tree_in_order(desktop: DesktopView, replies: Seq<Reply>, d: int)
    requires
        0 <= d < desktop.displays.len(),
    ensures
        ({
            let workspaces = desktop.window_set(replies).displays[d].workspaces;
            forall|i: int, j: int|
                0 <= i < j < workspaces.len() ==> (#[trigger] workspaces[i]).number <= (
                #[trigger] workspaces[j]).number
        }),
{
    let entity = desktop.displays[d].entity;
    let rows = numbered(desktop.rows).filter_map(desktop.row_setter(entity, replies));
    lemma_by_rank_ordered::<WorkspaceSet>(rows);
    assert(ordered::<WorkspaceSet>(by_rank::<WorkspaceSet>(rows)));
}

/// A row is in the tree under the display that it belongs to.
pub proof fn lemma_tree_rows(desktop: DesktopView, replies: Seq<Reply>, d: int, i: int)
    requires
        0 <= d < desktop.displays.len(),
        0 <= i < desktop.rows.len(),
        desktop.rows[i].parent == desktop.displays[d].entity,
    ensures
        desktop.window_set(replies).displays[d].workspaces.contains(
            desktop.workspace_set(
                desktop.rows[i],
                desktop.live(replies),
                desktop.row_reply(i, replies),
            ),
        ),
{
    let entity = desktop.displays[d].entity;
    let setter = desktop.row_setter(entity, replies);
    let set = desktop.workspace_set(
        desktop.rows[i],
        desktop.live(replies),
        desktop.row_reply(i, replies),
    );
    assert(setter(numbered(desktop.rows)[i]) == Some(set));
    lemma_filter_map_contains(numbered(desktop.rows), setter, set);
    lemma_by_rank_contains::<WorkspaceSet>(numbered(desktop.rows).filter_map(setter), set);
}

} // verus!
