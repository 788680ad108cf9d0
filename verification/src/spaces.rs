//! Native spaces: which rows show, and what the window server says is on each
//! space.

use crate::layout::LayoutStrip;
use crate::platform::{Entity, WinID, WorkspaceId};
use crate::seqs::{
    distinct, first_from, first_where, lemma_distinct_push, lemma_push_contains, push_distinct,
};
use crate::world::Windows;
use std::collections::{HashMap, HashSet};
use vstd::prelude::*;

verus! {

broadcast use vstd::std_specs::hash::group_hash_axioms;

/// A row, the display it belongs to, whether it is the row in use, and whether
/// it is the one selected on its space.
#[derive(Clone, Debug, PartialEq, Eq)]
pub struct QueryRow {
    pub parent: Entity,
    pub strip: LayoutStrip,
    pub active: bool,
    pub selected: bool,
}

/// Why the window server could not enumerate a space.
#[derive(Debug, PartialEq, Eq)]
pub struct ReadError {
    pub message: String,
}

impl Clone for ReadError {
    fn clone(&self) -> (copy: ReadError)
        ensures
            copy == *self,
    {
        ReadError { message: self.message.clone() }
    }
}

/// What the window server answers when it is asked for the windows of a space.
pub type Reply = Result<Vec<WinID>, ReadError>;

/// How far a result has come that needs answers of the window server.
#[derive(Clone, Debug, PartialEq, Eq)]
pub enum Step<T> {
    /// The windows of this space are needed next.
    Ask(WorkspaceId),
    /// A space could not be enumerated.
    Failed(ReadError),
    /// All answers were there.
    Ready(T),
}

/// The first answer that is an error.
pub open spec fn first_error(replies: Seq<Reply>) -> Option<ReadError>
    decreases replies.len(),
{
    if replies.len() == 0 {
        None
    } else {
        match first_error(replies.drop_last()) {
            Some(error) => Some(error),
            None => match replies.last() {
                Err(error) => Some(error),
                Ok(_) => None,
            },
        }
    }
}

/// How far the answers go that are needed for `plan`, asked one by one. The
/// first error ends the asking.
pub open spec fn reading(plan: Seq<WorkspaceId>, replies: Seq<Reply>) -> Step<()> {
    let given = if replies.len() < plan.len() {
        replies
    } else {
        replies.take(plan.len() as int)
    };
    match first_error(given) {
        Some(error) => Step::Failed(error),
        None => if replies.len() < plan.len() {
            Step::Ask(plan[replies.len() as int])
        } else {
            Step::Ready(())
        },
    }
}

/// Recognises the row in use.
pub open spec fn is_active_row() -> spec_fn(QueryRow) -> bool {
    |row: QueryRow| row.active
}

/// The space of the row in use.
pub open spec fn active_space(rows: Seq<QueryRow>) -> Option<WorkspaceId> {
    match first_where(rows, is_active_row()) {
        Some(row) => Some(row.strip.id),
        None => None,
    }
}

/// Whether a row shows: it is in use, or it is selected on a space other than
/// that of the row in use.
pub open spec fn row_shows(row: QueryRow, rows: Seq<QueryRow>) -> bool {
    row.active || row.selected && active_space(rows) != Some(row.strip.id)
}

/// The space of each row, and whether the row shows.
pub open spec fn row_spaces(rows: Seq<QueryRow>) -> Seq<(WorkspaceId, bool)> {
    rows.map_values(|row: QueryRow| (row.strip.id, row_shows(row, rows)))
}

/// The space of a row that shows, as a function.
pub open spec fn shown_space() -> spec_fn((WorkspaceId, bool)) -> Option<WorkspaceId> {
    |strip: (WorkspaceId, bool)|
        if strip.1 {
            Some(strip.0)
        } else {
            None
        }
}

/// The spaces that have a row on screen, each once, in the order of their first
/// such rows. Only these are asked about: the read goes out to the window
/// server.
pub open spec fn spaces_asked(strips: Seq<(WorkspaceId, bool)>) -> Seq<WorkspaceId> {
    distinct(strips.filter_map(shown_space()))
}

/// The windows that an answer lists.
pub open spec fn windows_in(reply: Reply) -> Seq<WinID> {
    match reply {
        Ok(windows) => windows@,
        Err(_) => Seq::empty(),
    }
}

/// The windows on each space of `plan`, each once, by the answers in the same
/// order.
pub open spec fn live_windows(plan: Seq<WorkspaceId>, replies: Seq<Reply>) -> Map<
    WorkspaceId,
    Seq<WinID>,
>
    decreases plan.len(),
{
    if plan.len() == 0 {
        Map::empty()
    } else {
        live_windows(plan.drop_last(), replies).insert(
            plan.last(),
            distinct(windows_in(replies[plan.len() - 1])),
        )
    }
}

/// The windows on space `id`; `None` where nobody asked.
pub open spec fn live_on(live: Map<WorkspaceId, Seq<WinID>>, id: WorkspaceId) -> Option<
    Seq<WinID>,
> {
    if live.contains_key(id) {
        Some(live[id])
    } else {
        None
    }
}

/// Whether a row may still claim a window, given what is on its space. A space
/// that nobody asked about keeps whatever its rows claim.
pub open spec fn on_space(live: Option<Seq<WinID>>, entity: Entity, windows: Windows) -> bool {
    match live {
        None => true,
        Some(ids) => windows.window_of(entity) matches Some(window) && ids.contains(window.id),
    }
}

/// Whether a row holds a window: it owns it, and the window is still on the
/// space of the row.
pub open spec fn row_holds(
    row: QueryRow,
    live: Map<WorkspaceId, Seq<WinID>>,
    windows: Windows,
    entity: Entity,
) -> bool {
    row.strip.owned().contains(entity) && on_space(live_on(live, row.strip.id), entity, windows)
}

/// Whether some row holds a window.
pub open spec fn is_held(
    rows: Seq<QueryRow>,
    live: Map<WorkspaceId, Seq<WinID>>,
    windows: Windows,
    entity: Entity,
) -> bool {
    exists|i: int| 0 <= i < rows.len() && row_holds(#[trigger] rows[i], live, windows, entity)
}

/// The windows on one space: in the order in which they were listed first, and
/// as a set to look them up in.
struct LiveSpace {
    listed: Vec<WinID>,
    ids: HashSet<WinID>,
}

impl LiveSpace {
    /// Both hold the same windows.
    #[verifier::type_invariant]
    spec fn agrees(&self) -> bool {
        is_set_of(self.ids@, self.listed@)
    }
}

/// Whether a set holds what is listed.
pub open spec fn is_set_of(ids: Set<WinID>, listed: Seq<WinID>) -> bool {
    forall|id: WinID| #[trigger] ids.contains(id) <==> listed.contains(id)
}

/// Whether what is looked up on a space is what is on it; nothing is looked up
/// where nobody asked.
pub open spec fn looks_up(found: Option<&HashSet<WinID>>, live: Option<Seq<WinID>>) -> bool {
    match (found, live) {
        (Some(ids), Some(listed)) => is_set_of(ids@, listed),
        (None, None) => true,
        _ => false,
    }
}

/// The windows that the window server reports on each space that was asked
/// about.
pub struct LiveSpaces {
    spaces: HashMap<WorkspaceId, LiveSpace>,
}

impl View for LiveSpaces {
    type V = Map<WorkspaceId, Seq<WinID>>;

    closed spec fn view(&self) -> Map<WorkspaceId, Seq<WinID>> {
        self.spaces@.map_values(|space: LiveSpace| space.listed@)
    }
}

impl LiveSpaces {
    /// The windows on a space, in the order in which they were listed first;
    /// `None` where nobody asked.
    pub fn get(&self, id: WorkspaceId) -> (found: Option<&Vec<WinID>>)
        ensures
            match found {
                Some(windows) => live_on(self@, id) == Some(windows@),
                None => live_on(self@, id) is None,
            },
    {
        match self.spaces.get(&id) {
            Some(space) => Some(&space.listed),
            None => None,
        }
    }

    /// The windows on a space, to look them up in; `None` where nobody asked.
    pub fn ids(&self, id: WorkspaceId) -> (found: Option<&HashSet<WinID>>)
        ensures
            looks_up(found, live_on(self@, id)),
    {
        match self.spaces.get(&id) {
            Some(space) => {
                proof {
                    use_type_invariant(space);
                }
                Some(&space.ids)
            },
            None => None,
        }
    }
}

/// The windows listed, each once.
fn each_once(list: &Vec<WinID>) -> (space: LiveSpace)
    ensures
        space.listed@ == distinct(list@),
{
    let mut once: Vec<WinID> = Vec::new();
    let mut ids: HashSet<WinID> = HashSet::new();
    let mut i: usize = 0;
    assert(list@.take(0) =~= Seq::<WinID>::empty());
    while i < list.len()
        invariant
            i <= list.len(),
            once@ == distinct(list@.take(i as int)),
            is_set_of(ids@, once@),
        decreases list.len() - i,
    {
        let id: WinID = list[i];
        let ghost earlier = once@;
        proof {
            assert(list@.take(i + 1) =~= list@.take(i as int).push(id));
            lemma_distinct_push(list@.take(i as int), id);
        }
        if !ids.contains(&id) {
            ids.insert(id);
            once.push(id);
            assert forall|other: WinID| #[trigger] ids@.contains(other) <==> once@.contains(
                other,
            ) by {
                lemma_push_contains(earlier, id, other);
            }
        }
        i = i + 1;
    }
    assert(list@.take(i as int) =~= list@);
    LiveSpace { listed: once, ids }
}

/// The space of the row in use.
pub fn active_workspace_id(rows: &Vec<QueryRow>) -> (id: Option<WorkspaceId>)
    ensures
        id == active_space(rows@),
{
    let mut i: usize = 0;
    while i < rows.len()
        invariant
            i <= rows.len(),
            first_where(rows@, is_active_row()) == first_from(rows@, is_active_row(), i as int),
        decreases rows.len() - i,
    {
        if rows[i].active {
            return Some(rows[i].strip.id);
        }
        i = i + 1;
    }
    None
}

/// Whether a row shows, given the space of the row in use.
pub(crate) fn shows_row(row: &QueryRow, active: Option<WorkspaceId>, rows: &Vec<QueryRow>) -> (shows:
    bool)
    requires
        active == active_space(rows@),
    ensures
        shows == row_shows(*row, rows@),
{
    row.active || row.selected && active != Some(row.strip.id)
}

/// The space of each row, and whether the row shows.
pub fn strip_visibility(rows: &Vec<QueryRow>) -> (strips: Vec<(WorkspaceId, bool)>)
    ensures
        strips@ == row_spaces(rows@),
{
    let active = active_workspace_id(rows);
    let mut strips: Vec<(WorkspaceId, bool)> = Vec::new();
    let mut i: usize = 0;
    while i < rows.len()
        invariant
            i <= rows.len(),
            active == active_space(rows@),
            strips.len() == i,
            forall|j: int|
                0 <= j < i ==> #[trigger] strips@[j] == (
                    rows@[j].strip.id,
                    row_shows(rows@[j], rows@),
                ),
        decreases rows.len() - i,
    {
        strips.push((rows[i].strip.id, shows_row(&rows[i], active, rows)));
        i = i + 1;
    }
    assert(strips@ =~= row_spaces(rows@));
    strips
}

/// Lists the spaces that have a row on screen, each once.
pub fn spaces_to_ask(strips: &Vec<(WorkspaceId, bool)>) -> (plan: Vec<WorkspaceId>)
    ensures
        plan@ == spaces_asked(strips@),
{
    let mut plan: Vec<WorkspaceId> = Vec::new();
    let mut i: usize = 0;
    assert(strips@.take(0) =~= Seq::<(WorkspaceId, bool)>::empty());
    while i < strips.len()
        invariant
            i <= strips.len(),
            plan@ == distinct(strips@.take(i as int).filter_map(shown_space())),
        decreases strips.len() - i,
    {
        proof {
            strips@.lemma_filter_map_take_succ(shown_space(), i as int);
            let so_far = strips@.take(i as int).filter_map(shown_space());
            let id = strips@[i as int].0;
            assert(so_far + seq![id] =~= so_far.push(id));
            assert(so_far + Seq::<WorkspaceId>::empty() =~= so_far);
            lemma_distinct_push(so_far, id);
        }
        if strips[i].1 {
            push_distinct(&mut plan, strips[i].0);
        }
        i = i + 1;
    }
    assert(strips@.take(i as int) =~= strips@);
    plan
}

/// How far the answers go that are needed for `plan`.
pub(crate) fn check_reading(plan: &Vec<WorkspaceId>, replies: &Vec<Reply>) -> (step: Step<()>)
    ensures
        step == reading(plan@, replies@),
{
    let mut i: usize = 0;
    assert(replies@.take(0) =~= Seq::<Reply>::empty());
    while i < replies.len() && i < plan.len()
        invariant
            i <= replies.len(),
            i <= plan.len(),
            first_error(replies@.take(i as int)) is None,
        decreases replies.len() - i,
    {
        assert(replies@.take(i + 1).drop_last() =~= replies@.take(i as int));
        if let Err(error) = &replies[i] {
            proof {
                let given = if replies.len() < plan.len() {
                    replies@
                } else {
                    replies@.take(plan.len() as int)
                };
                assert(given.take(i + 1) =~= replies@.take(i + 1));
                lemma_first_error_prefix(given, i + 1);
            }
            return Step::Failed(error.clone());
        }
        i = i + 1;
    }
    if i < plan.len() {
        assert(replies@.take(i as int) =~= replies@);
        Step::Ask(plan[i])
    } else {
        Step::Ready(())
    }
}

/// The first error among the first answers is the first of all.
pub proof fn lemma_first_error_prefix(replies: Seq<Reply>, k: int)
    requires
        0 <= k <= replies.len(),
        first_error(replies.take(k)) is Some,
    ensures
        first_error(replies) == first_error(replies.take(k)),
    decreases replies.len(),
{
    if k < replies.len() {
        assert(replies.drop_last().take(k) =~= replies.take(k));
        lemma_first_error_prefix(replies.drop_last(), k);
    } else {
        assert(replies.take(k) =~= replies);
    }
}

/// The windows the window server currently reports on each native space that
/// has a row on screen. The row a float belongs to is decided here, but which
/// space it is actually on is the window server's to say: a float dragged to
/// another space has to stop being claimed by the row it left.
///
/// Takes the answers given so far, in the order they were asked for, and says
/// which space to ask about next until all are there.
pub fn live_space_windows(strips: &Vec<(WorkspaceId, bool)>, replies: &Vec<Reply>) -> (step: Step<
    LiveSpaces,
>)
    ensures
        match step {
            Step::Ask(id) => reading(spaces_asked(strips@), replies@) == Step::<()>::Ask(id),
            Step::Failed(error) => reading(spaces_asked(strips@), replies@) == Step::<()>::Failed(
                error,
            ),
            Step::Ready(live) => {
                &&& reading(spaces_asked(strips@), replies@) == Step::<()>::Ready(())
                &&& live@ == live_windows(spaces_asked(strips@), replies@)
            },
        },
{
    let plan = spaces_to_ask(strips);
    match check_reading(&plan, replies) {
        Step::Ask(id) => Step::Ask(id),
        Step::Failed(error) => Step::Failed(error),
        Step::Ready(_) => Step::Ready(collect_spaces(&plan, replies)),
    }
}

/// Files the answers under the spaces they are about.
pub(crate) fn collect_spaces(plan: &Vec<WorkspaceId>, replies: &Vec<Reply>) -> (live: LiveSpaces)
    requires
        plan.len() <= replies.len(),
    ensures
        live@ == live_windows(plan@, replies@),
{
    let mut live = LiveSpaces { spaces: HashMap::new() };
    let mut i: usize = 0;
    assert(plan@.take(0) =~= Seq::<WorkspaceId>::empty());
    assert(live@ =~= Map::<WorkspaceId, Seq<WinID>>::empty());
    while i < plan.len()
        invariant
            i <= plan.len(),
            plan.len() <= replies.len(),
            live@ == live_windows(plan@.take(i as int), replies@),
        decreases plan.len() - i,
    {
        assert(plan@.take(i + 1).drop_last() =~= plan@.take(i as int));
        let space = match &replies[i] {
            Ok(windows) => each_once(windows),
            Err(_) => each_once(&Vec::new()),
        };
        let ghost earlier = live@;
        let ghost listed = space.listed@;
        live.spaces.insert(plan[i], space);
        assert(live@ =~= earlier.insert(plan@[i as int], listed));
        i = i + 1;
    }
    assert(plan@.take(i as int) =~= plan@);
    live
}

/// Whether a row may still claim a window, given what the window server says
/// about its space.
pub fn still_on_space(live: Option<&HashSet<WinID>>, entity: Entity, windows: &Windows) -> (still:
    bool)
    ensures
        still == (match live {
            None => true,
            Some(ids) => windows.window_of(entity) matches Some(window) && ids@.contains(window.id),
        }),
{
    match live {
        None => true,
        Some(ids) => match windows.get(entity) {
            Some(window) => ids.contains(&window.id),
            None => false,
        },
    }
}

/// Every window that some row holds.
pub(crate) fn held_windows(rows: &Vec<QueryRow>, live: &LiveSpaces, windows: &Windows) -> (held:
    HashSet<Entity>)
    ensures
        forall|entity: Entity|
            held@.contains(entity) <==> is_held(rows@, live@, *windows, entity),
{
    let mut held: HashSet<Entity> = HashSet::new();
    let mut i: usize = 0;
    while i < rows.len()
        invariant
            i <= rows.len(),
            forall|entity: Entity|
                held@.contains(entity) <==> (exists|k: int|
                    0 <= k < i && row_holds(#[trigger] rows@[k], live@, *windows, entity)),
        decreases rows.len() - i,
    {
        let ghost earlier = held@;
        let row = &rows[i];
        let on = live.ids(row.strip.id);
        let owned = row.strip.held_windows();
        let mut j: usize = 0;
        while j < owned.len()
            invariant
                j <= owned.len(),
                owned@ == row.strip.owned(),
                looks_up(on, live_on(live@, row.strip.id)),
                forall|entity: Entity| #![trigger held@.contains(entity)]
                    held@.contains(entity) <==> earlier.contains(entity) || (
                    owned@.take(j as int).contains(entity) && on_space(
                        live_on(live@, row.strip.id),
                        entity,
                        *windows,
                    )),
            decreases owned.len() - j,
        {
            let ghost previous = held@;
            let entity: Entity = owned[j];
            if still_on_space(on, entity, windows) {
                held.insert(entity);
            }
            proof {
                let on = live_on(live@, row.strip.id);
                let head = owned@.take(j as int);
                let next = owned@.take(j + 1);
                assert(next =~= head.push(entity));
                assert forall|e: Entity|
                    held@.contains(e) <==> earlier.contains(e) || (next.contains(e) && on_space(
                        on,
                        e,
                        *windows,
                    )) by {
                    assert(previous.contains(e) <==> earlier.contains(e) || (head.contains(e)
                        && on_space(on, e, *windows)));
                    if e == entity {
                        assert(next[j as int] == e);
                    }
                    if head.contains(e) {
                        let k = choose|k: int| 0 <= k < head.len() && head[k] == e;
                        assert(next[k] == e);
                    }
                }
            }
            j = j + 1;
        }
        assert(owned@.take(j as int) =~= owned@);
        assert forall|entity: Entity|
            held@.contains(entity) <==> (exists|k: int|
                0 <= k < i + 1 && row_holds(#[trigger] rows@[k], live@, *windows, entity)) by {
            assert(held@.contains(entity) <==> earlier.contains(entity) || row_holds(
                *row,
                live@,
                *windows,
                entity,
            ));
            assert(earlier.contains(entity) <==> (exists|k: int|
                0 <= k < i && row_holds(#[trigger] rows@[k], live@, *windows, entity)));
            if row_holds(*row, live@, *windows, entity) {
                assert(row_holds(rows@[i as int], live@, *windows, entity));
            }
        }
        i = i + 1;
    }
    held
}

} // verus!
