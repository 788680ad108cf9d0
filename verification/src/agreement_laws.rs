//! What holds between the state document and the window tree of one desktop.

use crate::desktop::DesktopView;
use crate::geometry::Frame;
use crate::platform::{Entity, WinID, WorkspaceId};
use crate::query::{
    has_number, row_number, PaneruVirtualWorkspaceStateView, PaneruWindowStateView,
};
use crate::query_laws::{
    is_missing, lemma_asks_shown_spaces, lemma_document_rows, lemma_tree_row_members,
    lemma_tree_rows, rows_differ,
};
use crate::seqs::{
    distinct, lemma_by_rank_contains, lemma_distinct, lemma_filter_map_add,
    lemma_filter_map_contains, lemma_filter_map_map, lemma_filter_map_push, lemma_filter_push,
    numbered,
};
use crate::spaces::{
    first_error, lemma_first_error_prefix, live_on, live_windows, reading, row_shows, row_spaces,
    shown_space, windows_in, ReadError, Reply, Step,
};
use crate::windowset::{WindowRecView, WorkspaceSet, WorkspaceSetView};
use vstd::prelude::*;
use vstd::seq_lib::{lemma_multiset_commutative, to_multiset_build};

verus! {

/// What the document and the tree both tell of a window.
pub struct WindowTold {
    pub id: WinID,
    pub app_name: Seq<char>,
    pub bundle_id: Seq<char>,
    pub title: Seq<char>,
    pub frame: Option<Frame>,
    pub floating: bool,
    pub focused: bool,
    pub visible: bool,
}

/// What the document tells of a window, as a function.
pub open spec fn told_by_document() -> spec_fn(PaneruWindowStateView) -> WindowTold {
    |state: PaneruWindowStateView|
        WindowTold {
            id: state.window_id,
            app_name: state.app_name,
            bundle_id: state.bundle_id,
            title: state.title,
            frame: state.frame,
            floating: state.floating,
            focused: state.focused,
            visible: state.visible,
        }
}

/// What the tree tells of a window, as a function.
pub open spec fn told_by_tree() -> spec_fn(WindowRecView) -> WindowTold {
    |rec: WindowRecView|
        WindowTold {
            id: rec.id,
            app_name: rec.app_name,
            bundle_id: rec.bundle_id,
            title: rec.title,
            frame: rec.frame,
            floating: rec.floating,
            focused: rec.focused,
            visible: rec.visible,
        }
}

/// What either tells of an entity, as a function.
spec fn teller(desktop: DesktopView) -> spec_fn(Entity) -> Option<WindowTold> {
    |entity: Entity|
        match desktop.window_state(entity) {
            Some(state) => Some(told_by_document()(state)),
            None => None,
        }
}

/// Whether a row of the document and a row of the tree tell the same: of which
/// row, and of the same windows, as often, in any order.
pub open spec fn same_row(state: PaneruVirtualWorkspaceStateView, set: WorkspaceSetView) -> bool {
    &&& state.native_workspace_id == set.native_id
    &&& state.number == set.number
    &&& state.active == set.active
    &&& state.windows.map_values(told_by_document()).to_multiset() == set.windows().map_values(
        told_by_tree(),
    ).to_multiset()
}

/// What an answer says.
pub open spec fn said(reply: Reply) -> Result<Seq<WinID>, ReadError> {
    match reply {
        Ok(ids) => Ok(ids@),
        Err(error) => Err(error),
    }
}

/// Whether the answers are those that a window server gives to each question of
/// `plan`, always the same to the same.
pub open spec fn answered_by(
    plan: Seq<WorkspaceId>,
    replies: Seq<Reply>,
    server: spec_fn(WorkspaceId) -> Result<Seq<WinID>, ReadError>,
) -> bool {
    &&& replies.len() == plan.len()
    &&& forall|i: int| 0 <= i < plan.len() ==> said(#[trigger] replies[i]) == server(plan[i])
}

/// Whether a window server lists no window twice.
pub open spec fn lists_once(
    server: spec_fn(WorkspaceId) -> Result<Seq<WinID>, ReadError>,
) -> bool {
    forall|id: WorkspaceId| #[trigger] server(id) matches Ok(ids) ==> ids.no_duplicates()
}

/// No answer is an error exactly where there is no first one.
proof fn lemma_first_error_is_none(replies: Seq<Reply>)
    ensures
        first_error(replies) is None <==> forall|i: int|
            0 <= i < replies.len() ==> #[trigger] replies[i] is Ok,
    decreases replies.len(),
{
    if replies.len() > 0 {
        let rest = replies.drop_last();
        lemma_first_error_is_none(rest);
        assert(replies[replies.len() - 1] == replies.last());
        if first_error(replies) is None {
            assert forall|i: int| 0 <= i < replies.len() implies #[trigger] replies[i] is Ok by {
                if i < rest.len() {
                    assert(rest[i] is Ok);
                }
            }
        }
        if forall|i: int| 0 <= i < replies.len() ==> #[trigger] replies[i] is Ok {
            assert forall|i: int| 0 <= i < rest.len() implies #[trigger] rest[i] is Ok by {
                assert(replies[i] is Ok);
            }
        }
    }
}

/// The first error depends only on what the answers say.
proof fn lemma_first_error_by_words(a: Seq<Reply>, b: Seq<Reply>)
    requires
        a.len() == b.len(),
        forall|i: int| 0 <= i < a.len() ==> said(#[trigger] a[i]) == said(b[i]),
    ensures
        first_error(a) == first_error(b),
    decreases a.len(),
{
    if a.len() > 0 {
        assert forall|i: int| 0 <= i < a.drop_last().len() implies said(
            #[trigger] a.drop_last()[i],
        ) == said(b.drop_last()[i]) by {
            assert(said(a[i]) == said(b[i]));
        }
        lemma_first_error_by_words(a.drop_last(), b.drop_last());
        assert(said(a[a.len() - 1]) == said(b[a.len() - 1]));
    }
}

/// A second reading of a space for the tree is of a space that was read before.
proof fn lemma_tree_plan_adds_no_space(desktop: DesktopView, i: int)
    requires
        0 <= i < desktop.tree_plan().len(),
    ensures
        desktop.plan().contains(desktop.tree_plan()[i]),
{
    let plan = desktop.plan();
    lemma_distinct(desktop.row_reads());
    if i < plan.len() {
        assert(desktop.tree_plan()[i] == plan[i]);
    } else {
        let id = desktop.row_reads()[i - plan.len()];
        assert(desktop.tree_plan()[i] == id);
        assert(desktop.row_reads().contains(id));
        assert(distinct(desktop.row_reads()).contains(id));
    }
}

/// Where the window server answers as before, the tree succeeds exactly where
/// the document does, and fails with the same error.
pub proof fn lemma_document_and_tree_succeed_together(
    desktop: DesktopView,
    once: Seq<Reply>,
    twice: Seq<Reply>,
    server: spec_fn(WorkspaceId) -> Result<Seq<WinID>, ReadError>,
)
    requires
        answered_by(desktop.plan(), once, server),
        answered_by(desktop.tree_plan(), twice, server),
    ensures
        reading(desktop.plan(), once) == reading(desktop.tree_plan(), twice),
        reading(desktop.plan(), once) !is Ask,
{
    let plan = desktop.plan();
    let tree_plan = desktop.tree_plan();
    let n = plan.len() as int;
    assert(once.take(n) =~= once);
    assert(twice.take(tree_plan.len() as int) =~= twice);
    let head = twice.take(n);
    assert forall|i: int| 0 <= i < once.len() implies said(#[trigger] once[i]) == said(head[i]) by {
        assert(tree_plan[i] == plan[i]);
        assert(said(twice[i]) == server(tree_plan[i]));
    }
    lemma_first_error_by_words(once, head);
    if first_error(once) is Some {
        lemma_first_error_prefix(twice, n);
    } else {
        lemma_first_error_is_none(once);
        lemma_first_error_is_none(twice);
        assert forall|i: int| 0 <= i < twice.len() implies #[trigger] twice[i] is Ok by {
            lemma_tree_plan_adds_no_space(desktop, i);
            let k = choose|k: int| 0 <= k < plan.len() && plan[k] == tree_plan[i];
            assert(said(once[k]) == server(plan[k]));
            assert(once[k] is Ok);
            assert(said(twice[i]) == server(tree_plan[i]));
        }
    }
}

/// What is on each space depends only on what the answers list.
proof fn lemma_live_by_words(plan: Seq<WorkspaceId>, a: Seq<Reply>, b: Seq<Reply>)
    requires
        forall|i: int| 0 <= i < plan.len() ==> windows_in(#[trigger] a[i]) == windows_in(b[i]),
    ensures
        live_windows(plan, a) == live_windows(plan, b),
    decreases plan.len(),
{
    if plan.len() > 0 {
        lemma_live_by_words(plan.drop_last(), a, b);
        assert(windows_in(a[plan.len() - 1]) == windows_in(b[plan.len() - 1]));
    }
}

/// What is on a space that was asked about is what was answered, each once.
pub proof fn lemma_live_is_answered(plan: Seq<WorkspaceId>, replies: Seq<Reply>, k: int)
    requires
        plan.no_duplicates(),
        0 <= k < plan.len(),
    ensures
        live_on(live_windows(plan, replies), plan[k]) == Some(distinct(windows_in(replies[k]))),
    decreases plan.len(),
{
    if k < plan.len() - 1 {
        let rest = plan.drop_last();
        assert(rest[k] == plan[k]);
        lemma_live_is_answered(rest, replies, k);
        assert(plan[k] != plan[plan.len() - 1]);
    }
}

/// Where nothing is repeated, dropping repeats changes nothing.
proof fn lemma_nothing_to_drop<A>(s: Seq<A>)
    requires
        s.no_duplicates(),
    ensures
        distinct(s) == s,
    decreases s.len(),
{
    if s.len() > 0 {
        let rest = s.drop_last();
        assert forall|i: int, j: int| 0 <= i < rest.len() && 0 <= j < rest.len() && i
            != j implies rest[i] != rest[j] by {
            assert(s[i] != s[j]);
        }
        lemma_nothing_to_drop(rest);
        if rest.contains(s.last()) {
            let i = choose|i: int| 0 <= i < rest.len() && rest[i] == s.last();
            assert(s[i] != s[s.len() - 1]);
        }
        assert(rest.push(s.last()) =~= s);
    } else {
        assert(distinct(s) =~= s);
    }
}

/// What a partial function gives of the item at position `i` comes behind what
/// it gives of the items before.
proof fn lemma_kept_at<A, B>(s: Seq<A>, f: spec_fn(A) -> Option<B>, i: int)
    requires
        0 <= i < s.len(),
        f(s[i]) is Some,
    ensures
        s.take(i).filter_map(f).len() < s.filter_map(f).len(),
        s.filter_map(f)[s.take(i).filter_map(f).len() as int] == f(s[i])->0,
{
    s.lemma_filter_map_take_succ(f, i);
    assert(s.take(i + 1) + s.skip(i + 1) =~= s);
    lemma_filter_map_add(s.take(i + 1), s.skip(i + 1), f);
}

/// What was answered for a row that shows is what the window server says of its
/// space.
proof fn lemma_row_reply(
    desktop: DesktopView,
    twice: Seq<Reply>,
    server: spec_fn(WorkspaceId) -> Result<Seq<WinID>, ReadError>,
    i: int,
)
    requires
        answered_by(desktop.tree_plan(), twice, server),
        reading(desktop.tree_plan(), twice) == Step::<()>::Ready(()),
        0 <= i < desktop.rows.len(),
        row_shows(desktop.rows[i], desktop.rows),
    ensures
        server(desktop.rows[i].strip.id) == Ok::<Seq<WinID>, ReadError>(
            desktop.row_reply(i, twice),
        ),
{
    let strips = row_spaces(desktop.rows);
    let n = desktop.plan().len() as int;
    lemma_kept_at(strips, shown_space(), i);
    let at = n + strips.take(i).filter_map(shown_space()).len() as int;
    assert(desktop.tree_plan()[at] == desktop.rows[i].strip.id);
    assert(twice.take(desktop.tree_plan().len() as int) =~= twice);
    lemma_first_error_is_none(twice);
    assert(twice[at] is Ok);
    assert(said(twice[at]) == server(desktop.tree_plan()[at]));
}

/// What either tells of a run is what both tell.
proof fn lemma_tellers_agree(desktop: DesktopView, entities: Seq<Entity>)
    ensures
        entities.filter_map(desktop.window_stater()).map_values(told_by_document())
            == entities.filter_map(teller(desktop)),
        entities.filter_map(desktop.recorder()).map_values(told_by_tree()) == entities.filter_map(
            teller(desktop),
        ),
{
    lemma_filter_map_map(entities, desktop.window_stater(), told_by_document(), teller(desktop));
    assert forall|entity: Entity| #[trigger] teller(desktop)(entity) == (match desktop.recorder()(
        entity,
    ) {
        Some(rec) => Some(told_by_tree()(rec)),
        None => None,
    }) by {}
    lemma_filter_map_map(entities, desktop.recorder(), told_by_tree(), teller(desktop));
}

/// What is kept by either of two filters that exclude each other is what the one
/// keeps and what the other keeps.
proof fn lemma_kept_by_either<A, B>(
    s: Seq<A>,
    either: spec_fn(A) -> bool,
    p: spec_fn(A) -> bool,
    q: spec_fn(A) -> bool,
    f: spec_fn(A) -> Option<B>,
)
    requires
        forall|a: A| #[trigger] either(a) == (p(a) || q(a)),
        forall|a: A| #[trigger] p(a) ==> !q(a),
    ensures
        s.filter(either).filter_map(f).to_multiset() == s.filter(p).filter_map(
            f,
        ).to_multiset().add(s.filter(q).filter_map(f).to_multiset()),
    decreases s.len(),
{
    broadcast use vstd::multiset::group_multiset_axioms;
    broadcast use to_multiset_build;

    reveal(Seq::filter);
    if s.len() == 0 {
        assert(s.filter(either).filter_map(f) =~= Seq::<B>::empty());
        assert(s.filter(p).filter_map(f) =~= Seq::<B>::empty());
        assert(s.filter(q).filter_map(f) =~= Seq::<B>::empty());
        assert(Seq::<B>::empty().to_multiset() =~= Seq::<B>::empty().to_multiset().add(
            Seq::<B>::empty().to_multiset(),
        )) by {
            lemma_multiset_commutative(Seq::<B>::empty(), Seq::<B>::empty());
            assert(Seq::<B>::empty() + Seq::<B>::empty() =~= Seq::<B>::empty());
        }
    } else {
        let rest = s.drop_last();
        let last = s.last();
        lemma_kept_by_either(rest, either, p, q, f);
        assert(rest.push(last) =~= s);
        lemma_filter_push(rest, last, either);
        lemma_filter_push(rest, last, p);
        lemma_filter_push(rest, last, q);
        lemma_filter_map_push(rest.filter(either), last, f);
        lemma_filter_map_push(rest.filter(p), last, f);
        lemma_filter_map_push(rest.filter(q), last, f);
        assert(either(last) == (p(last) || q(last)));
        assert(p(last) ==> !q(last));
        assert(s.filter(either).filter_map(f).to_multiset() =~= s.filter(p).filter_map(
            f,
        ).to_multiset().add(s.filter(q).filter_map(f).to_multiset()));
    }
}

/// Where a row takes the same floats from outside, the document and the tree
/// tell of the same windows on it.
proof fn lemma_same_windows(
    desktop: DesktopView,
    i: int,
    live: Map<WorkspaceId, Seq<WinID>>,
    reply: Seq<WinID>,
)
    requires
        0 <= i < desktop.rows.len(),
        desktop.strays_on(desktop.rows[i], live) == reply.filter_map(desktop.stray(live)),
    ensures
        same_row(
            desktop.row_stater(live)(desktop.rows[i]),
            desktop.workspace_set(desktop.rows[i], live, reply),
        ),
{
    broadcast use vstd::multiset::group_multiset_axioms;

    let row = desktop.rows[i];
    let t = teller(desktop);
    let all = row.strip.laid_out();
    let remaining = all.filter(desktop.remains(row, live));
    let tiled = all.filter(desktop.tiles());
    let floats = all.filter(desktop.parked(row, live));
    let parked = row.strip.detached@.filter(desktop.parked(row, live));
    let strays = desktop.strays_on(row, live);
    let outer = parked + strays;
    lemma_kept_by_either(
        all,
        desktop.remains(row, live),
        desktop.tiles(),
        desktop.parked(row, live),
        t,
    );
    let members = desktop.row_members(row, live);
    let float_members = desktop.float_members(row, live, reply);
    assert(members =~= remaining + outer);
    assert(float_members =~= floats + outer);
    lemma_filter_map_add(remaining, outer, t);
    lemma_filter_map_add(floats, outer, t);
    lemma_tellers_agree(desktop, members);
    lemma_tellers_agree(desktop, tiled);
    lemma_tellers_agree(desktop, float_members);
    lemma_tree_row_members(desktop, row, live, reply);
    let set = desktop.workspace_set(row, live, reply);
    assert(set.windows().map_values(told_by_tree()) =~= tiled.filter_map(t)
        + float_members.filter_map(t));
    lemma_multiset_commutative(remaining.filter_map(t), outer.filter_map(t));
    lemma_multiset_commutative(floats.filter_map(t), outer.filter_map(t));
    lemma_multiset_commutative(tiled.filter_map(t), float_members.filter_map(t));
    assert(members.filter_map(t).to_multiset() =~= (tiled.filter_map(t) + float_members.filter_map(
        t,
    )).to_multiset());
}

/// Where the window server answers as before and lists no window twice, the
/// document and the tree tell of the same windows on each row.
pub proof fn lemma_rows_tell_the_same(
    desktop: DesktopView,
    once: Seq<Reply>,
    twice: Seq<Reply>,
    server: spec_fn(WorkspaceId) -> Result<Seq<WinID>, ReadError>,
    i: int,
)
    requires
        answered_by(desktop.plan(), once, server),
        answered_by(desktop.tree_plan(), twice, server),
        lists_once(server),
        reading(desktop.plan(), once) == Step::<()>::Ready(()),
        0 <= i < desktop.rows.len(),
    ensures
        same_row(
            desktop.row_stater(desktop.live(once))(desktop.rows[i]),
            desktop.workspace_set(
                desktop.rows[i],
                desktop.live(twice),
                desktop.row_reply(i, twice),
            ),
        ),
{
    let plan = desktop.plan();
    let row = desktop.rows[i];
    let live = desktop.live(once);
    let reply = desktop.row_reply(i, twice);
    lemma_document_and_tree_succeed_together(desktop, once, twice, server);
    assert forall|k: int| 0 <= k < plan.len() implies windows_in(#[trigger] once[k]) == windows_in(
        twice[k],
    ) by {
        assert(desktop.tree_plan()[k] == plan[k]);
        assert(said(once[k]) == server(plan[k]));
        assert(said(twice[k]) == server(desktop.tree_plan()[k]));
    }
    lemma_live_by_words(plan, once, twice);
    if row_shows(row, desktop.rows) {
        lemma_row_reply(desktop, twice, server, i);
        lemma_asks_shown_spaces(desktop);
        assert(plan.contains(row.strip.id));
        let k = choose|k: int| 0 <= k < plan.len() && plan[k] == row.strip.id;
        lemma_live_is_answered(plan, once, k);
        assert(said(once[k]) == server(plan[k]));
        lemma_nothing_to_drop(reply);
        assert(live_on(live, row.strip.id) == Some(reply));
    } else {
        assert(reply.filter_map(desktop.stray(live)) =~= Seq::<Entity>::empty());
    }
    lemma_same_windows(desktop, i, live, reply);
}

/// The row that a row of the tree is made of.
proof fn lemma_tree_row_origin(
    desktop: DesktopView,
    twice: Seq<Reply>,
    d: int,
    set: WorkspaceSetView,
) -> (i: int)
    requires
        0 <= d < desktop.displays.len(),
        desktop.window_set(twice).displays[d].workspaces.contains(set),
    ensures
        0 <= i < desktop.rows.len(),
        set == desktop.workspace_set(
            desktop.rows[i],
            desktop.live(twice),
            desktop.row_reply(i, twice),
        ),
{
    let setter = desktop.row_setter(desktop.displays[d].entity, twice);
    let all = numbered(desktop.rows);
    lemma_by_rank_contains::<WorkspaceSet>(all.filter_map(setter), set);
    lemma_filter_map_contains(all, setter, set);
    let i = choose|i: int| 0 <= i < all.len() && setter(#[trigger] all[i]) == Some(set);
    i
}

/// A row of the document and a row of the tree that are on one space and have
/// one number tell of the same windows.
pub proof fn lemma_document_and_tree_rows_agree(
    desktop: DesktopView,
    once: Seq<Reply>,
    twice: Seq<Reply>,
    server: spec_fn(WorkspaceId) -> Result<Seq<WinID>, ReadError>,
    timestamp: u64,
    state: PaneruVirtualWorkspaceStateView,
    d: int,
    set: WorkspaceSetView,
)
    requires
        answered_by(desktop.plan(), once, server),
        answered_by(desktop.tree_plan(), twice, server),
        lists_once(server),
        reading(desktop.plan(), once) == Step::<()>::Ready(()),
        desktop.numbers_fit(),
        rows_differ(desktop),
        0 <= d < desktop.displays.len(),
        desktop.document(desktop.live(once), timestamp).virtual_workspaces.contains(state),
        desktop.window_set(twice).displays[d].workspaces.contains(set),
        state.native_workspace_id == set.native_id,
        state.number == set.number,
    ensures
        same_row(state, set),
{
    let i = lemma_tree_row_origin(desktop, twice, d, set);
    let stater = desktop.row_stater(desktop.live(once));
    lemma_document_rows(desktop, desktop.live(once), timestamp, state);
    assert(row_number(desktop.rows[i]) == state.number);
    assert(has_number(desktop.rows, state.native_workspace_id, state.number as int));
    assert(!is_missing(desktop, state));
    let j = choose|j: int|
        0 <= j < desktop.rows.len() && stater(#[trigger] desktop.rows[j]) == state;
    assert(row_number(desktop.rows[j]) == state.number);
    assert(desktop.rows[i].strip.virtual_index == desktop.rows[j].strip.virtual_index);
    assert(i == j);
    lemma_rows_tell_the_same(desktop, once, twice, server, i);
}

/// Where every row belongs to a display, a row of the document is in the tree
/// too, or it has no windows.
pub proof fn lemma_document_row_is_in_the_tree(
    desktop: DesktopView,
    once: Seq<Reply>,
    twice: Seq<Reply>,
    server: spec_fn(WorkspaceId) -> Result<Seq<WinID>, ReadError>,
    timestamp: u64,
    state: PaneruVirtualWorkspaceStateView,
)
    requires
        answered_by(desktop.plan(), once, server),
        answered_by(desktop.tree_plan(), twice, server),
        lists_once(server),
        reading(desktop.plan(), once) == Step::<()>::Ready(()),
        forall|i: int|
            0 <= i < desktop.rows.len() ==> exists|d: int|
                0 <= d < desktop.displays.len() && (#[trigger] desktop.displays[d]).entity == (
                #[trigger] desktop.rows[i]).parent,
        desktop.document(desktop.live(once), timestamp).virtual_workspaces.contains(state),
    ensures
        state.windows.len() == 0 || exists|d: int, set: WorkspaceSetView|
            {
                &&& 0 <= d < desktop.displays.len()
                &&& #[trigger] desktop.window_set(twice).displays[d].workspaces.contains(set)
                &&& same_row(state, set)
            },
{
    let stater = desktop.row_stater(desktop.live(once));
    lemma_document_rows(desktop, desktop.live(once), timestamp, state);
    if !is_missing(desktop, state) {
        let i = choose|i: int|
            0 <= i < desktop.rows.len() && stater(#[trigger] desktop.rows[i]) == state;
        let d = choose|d: int|
            0 <= d < desktop.displays.len() && (#[trigger] desktop.displays[d]).entity
                == desktop.rows[i].parent;
        lemma_tree_rows(desktop, twice, d, i);
        lemma_rows_tell_the_same(desktop, once, twice, server, i);
    }
}

/// A row of the tree is in the document too.
pub proof fn lemma_tree_row_is_in_the_document(
    desktop: DesktopView,
    once: Seq<Reply>,
    twice: Seq<Reply>,
    server: spec_fn(WorkspaceId) -> Result<Seq<WinID>, ReadError>,
    timestamp: u64,
    d: int,
    set: WorkspaceSetView,
)
    requires
        answered_by(desktop.plan(), once, server),
        answered_by(desktop.tree_plan(), twice, server),
        lists_once(server),
        reading(desktop.plan(), once) == Step::<()>::Ready(()),
        0 <= d < desktop.displays.len(),
        desktop.window_set(twice).displays[d].workspaces.contains(set),
    ensures
        exists|state: PaneruVirtualWorkspaceStateView|
            {
                &&& #[trigger] desktop.document(
                    desktop.live(once),
                    timestamp,
                ).virtual_workspaces.contains(state)
                &&& same_row(state, set)
            },
{
    let i = lemma_tree_row_origin(desktop, twice, d, set);
    let state = desktop.row_stater(desktop.live(once))(desktop.rows[i]);
    lemma_document_rows(desktop, desktop.live(once), timestamp, state);
    lemma_rows_tell_the_same(desktop, once, twice, server, i);
}

} // verus!
