//! Finding a live window again in the saved state.

use crate::platform::{Pid, WinID, WorkspaceId};
use crate::saved::{
    PaneruState, PaneruStateView, SavedColumn, SavedColumnView, SavedStackItem, SavedStackItemView,
    SavedStrip, SavedStripView, SavedWindow, SavedWindowView, SavedWorkspace, SavedWorkspaceView,
};
use crate::seqs::{
    first_from, first_where, gather, lemma_first_is_listed, lemma_first_where_add,
    lemma_gather_add, lemma_gather_step, numbered, views,
};
use vstd::prelude::*;

verus! {

/// A saved window together with where it was laid out.
pub struct SavedPlace {
    pub workspace_id: WorkspaceId,
    pub virtual_index: u32,
    pub column: int,
    pub window: SavedWindowView,
}

impl SavedStackItemView {
    /// The windows of the place, topmost first.
    pub open spec fn windows(self) -> Seq<SavedWindowView> {
        match self {
            SavedStackItemView::Single(window) => seq![window],
            SavedStackItemView::Tabs(tabs) => tabs,
        }
    }
}

/// The windows of a place, as a function.
pub open spec fn saved_item_windows() -> spec_fn(SavedStackItemView) -> Seq<SavedWindowView> {
    |item: SavedStackItemView| item.windows()
}

impl SavedColumnView {
    /// The windows of the column, topmost first.
    pub open spec fn windows(self) -> Seq<SavedWindowView> {
        match self {
            SavedColumnView::Single(window) => seq![window],
            SavedColumnView::Stack(items) => gather(items, saved_item_windows()),
            SavedColumnView::Tabs(tabs) => tabs,
            SavedColumnView::Fullscreen(window) => seq![window],
        }
    }
}

/// The place of a window in a column, as a function.
pub open spec fn place_in(workspace_id: WorkspaceId, virtual_index: u32, column: int) -> spec_fn(
    SavedWindowView,
) -> SavedPlace {
    |window: SavedWindowView| SavedPlace { workspace_id, virtual_index, column, window }
}

/// The places in a numbered column, as a function.
pub open spec fn column_places(workspace_id: WorkspaceId, virtual_index: u32) -> spec_fn(
    (int, SavedColumnView),
) -> Seq<SavedPlace> {
    |column: (int, SavedColumnView)|
        column.1.windows().map_values(place_in(workspace_id, virtual_index, column.0))
}

/// The places in a row, as a function.
pub open spec fn strip_places(workspace_id: WorkspaceId) -> spec_fn(SavedStripView) -> Seq<
    SavedPlace,
> {
    |strip: SavedStripView|
        gather(numbered(strip.columns), column_places(workspace_id, strip.virtual_index))
}

/// The places in a space, as a function.
pub open spec fn workspace_places() -> spec_fn(SavedWorkspaceView) -> Seq<SavedPlace> {
    |workspace: SavedWorkspaceView|
        gather(workspace.strips, strip_places(workspace.workspace_id))
}

impl PaneruStateView {
    /// Every saved window that was laid out: space by space, row by row, column
    /// by column.
    pub open spec fn places(self) -> Seq<SavedPlace> {
        gather(self.workspaces, workspace_places())
    }
}

/// Recognises the window that is asked for.
pub open spec fn is_match(id: WinID, pid: Pid, bundle: Seq<char>) -> spec_fn(
    SavedWindowView,
) -> bool {
    |window: SavedWindowView| window.hard_matches(id, pid, bundle)
}

/// Recognises the place of the window that is asked for.
pub open spec fn is_place(id: WinID, pid: Pid, bundle: Seq<char>) -> spec_fn(SavedPlace) -> bool {
    |place: SavedPlace| place.window.hard_matches(id, pid, bundle)
}

/// The first match among the windows of a column is the first among its places.
proof fn lemma_first_place(
    windows: Seq<SavedWindowView>,
    place: spec_fn(SavedWindowView) -> SavedPlace,
    id: WinID,
    pid: Pid,
    bundle: Seq<char>,
    i: int,
)
    requires
        0 <= i <= windows.len(),
        forall|window: SavedWindowView| (#[trigger] place(window)).window == window,
    ensures
        first_from(windows.map_values(place), is_place(id, pid, bundle), i) == (match first_from(
            windows,
            is_match(id, pid, bundle),
            i,
        ) {
            Some(window) => Some(place(window)),
            None => None,
        }),
    decreases windows.len() - i,
{
    if i < windows.len() {
        assert(place(windows[i]).window == windows[i]);
        lemma_first_place(windows, place, id, pid, bundle, i + 1);
    }
}

/// What is found after the first `k` items is found in all of them.
proof fn lemma_found_early<A>(
    s: Seq<A>,
    f: spec_fn(A) -> Seq<SavedPlace>,
    p: spec_fn(SavedPlace) -> bool,
    k: int,
)
    requires
        0 <= k <= s.len(),
        first_where(gather(s.take(k), f), p) is Some,
    ensures
        first_where(gather(s, f), p) == first_where(gather(s.take(k), f), p),
{
    assert(s.take(k) + s.skip(k) =~= s);
    lemma_gather_add(s.take(k), s.skip(k), f);
    lemma_first_where_add(gather(s.take(k), f), gather(s.skip(k), f), p);
}

/// Finds the window that is asked for among those listed.
fn find_in_windows<'a>(
    windows: &'a Vec<SavedWindow>,
    window_id: WinID,
    pid: Pid,
    bundle_id: &str,
) -> (found: Option<&'a SavedWindow>)
    ensures
        match found {
            Some(window) => first_where(
                views(windows@),
                is_match(window_id, pid, bundle_id@),
            ) == Some(window@),
            None => first_where(views(windows@), is_match(window_id, pid, bundle_id@)) is None,
        },
{
    let ghost wanted = is_match(window_id, pid, bundle_id@);
    let mut i: usize = 0;
    while i < windows.len()
        invariant
            i <= windows.len(),
            wanted == is_match(window_id, pid, bundle_id@),
            first_where(views(windows@), wanted) == first_from(views(windows@), wanted, i as int),
        decreases windows.len() - i,
    {
        if windows[i].hard_match(window_id, pid, bundle_id) {
            return Some(&windows[i]);
        }
        i = i + 1;
    }
    None
}

/// Finds the window that is asked for in a stack.
fn find_in_stack<'a>(
    items: &'a Vec<SavedStackItem>,
    window_id: WinID,
    pid: Pid,
    bundle_id: &str,
) -> (found: Option<&'a SavedWindow>)
    ensures
        match found {
            Some(window) => first_where(
                gather(views(items@), saved_item_windows()),
                is_match(window_id, pid, bundle_id@),
            ) == Some(window@),
            None => first_where(
                gather(views(items@), saved_item_windows()),
                is_match(window_id, pid, bundle_id@),
            ) is None,
        },
{
    let ghost wanted = is_match(window_id, pid, bundle_id@);
    let ghost all = views(items@);
    let mut i: usize = 0;
    assert(all.take(0) =~= Seq::<SavedStackItemView>::empty());
    while i < items.len()
        invariant
            i <= items.len(),
            all == views(items@),
            wanted == is_match(window_id, pid, bundle_id@),
            first_where(gather(all.take(i as int), saved_item_windows()), wanted) is None,
        decreases items.len() - i,
    {
        proof {
            lemma_gather_step(all, saved_item_windows(), i as int);
            lemma_first_where_add(
                gather(all.take(i as int), saved_item_windows()),
                all[i as int].windows(),
                wanted,
            );
            assert(all.take(i + 1) + all.skip(i + 1) =~= all);
            lemma_gather_add(all.take(i + 1), all.skip(i + 1), saved_item_windows());
            lemma_first_where_add(
                gather(all.take(i + 1), saved_item_windows()),
                gather(all.skip(i + 1), saved_item_windows()),
                wanted,
            );
        }
        let found = match &items[i] {
            SavedStackItem::Single(window) => {
                proof {
                    reveal_with_fuel(first_from, 2);
                }
                if window.hard_match(window_id, pid, bundle_id) {
                    Some(window)
                } else {
                    None
                }
            },
            SavedStackItem::Tabs(tabs) => find_in_windows(tabs, window_id, pid, bundle_id),
        };
        if found.is_some() {
            return found;
        }
        i = i + 1;
    }
    assert(all.take(i as int) =~= all);
    None
}

/// Finds the window that is asked for in a column.
fn find_in_column<'a>(
    column: &'a SavedColumn,
    window_id: WinID,
    pid: Pid,
    bundle_id: &str,
) -> (found: Option<&'a SavedWindow>)
    ensures
        match found {
            Some(window) => first_where(
                column@.windows(),
                is_match(window_id, pid, bundle_id@),
            ) == Some(window@),
            None => first_where(
                column@.windows(),
                is_match(window_id, pid, bundle_id@),
            ) is None,
        },
{
    proof {
        reveal_with_fuel(first_from, 2);
    }
    match column {
        SavedColumn::Single(window) => if window.hard_match(window_id, pid, bundle_id) {
            Some(window)
        } else {
            None
        },
        SavedColumn::Fullscreen(window) => if window.hard_match(window_id, pid, bundle_id) {
            Some(window)
        } else {
            None
        },
        SavedColumn::Stack(items) => find_in_stack(items, window_id, pid, bundle_id),
        SavedColumn::Tabs(tabs) => find_in_windows(tabs, window_id, pid, bundle_id),
    }
}

/// Finds the window that is asked for in a row, and its column.
fn find_in_strip<'a>(
    workspace_id: WorkspaceId,
    strip: &'a SavedStrip,
    window_id: WinID,
    pid: Pid,
    bundle_id: &str,
) -> (found: Option<(usize, &'a SavedWindow)>)
    ensures
        match found {
            Some((column, window)) => first_where(
                strip_places(workspace_id)(strip@),
                is_place(window_id, pid, bundle_id@),
            ) == Some(
                SavedPlace {
                    workspace_id,
                    virtual_index: strip.virtual_index,
                    column: column as int,
                    window: window@,
                },
            ),
            None => first_where(
                strip_places(workspace_id)(strip@),
                is_place(window_id, pid, bundle_id@),
            ) is None,
        },
{
    let ghost wanted = is_place(window_id, pid, bundle_id@);
    let ghost all = numbered(views(strip.columns@));
    let ghost f = column_places(workspace_id, strip.virtual_index);
    let mut i: usize = 0;
    assert(all.take(0) =~= Seq::<(int, SavedColumnView)>::empty());
    while i < strip.columns.len()
        invariant
            i <= strip.columns.len(),
            all == numbered(views(strip.columns@)),
            f == column_places(workspace_id, strip.virtual_index),
            wanted == is_place(window_id, pid, bundle_id@),
            first_where(gather(all.take(i as int), f), wanted) is None,
        decreases strip.columns.len() - i,
    {
        let found = find_in_column(&strip.columns[i], window_id, pid, bundle_id);
        proof {
            let windows = views(strip.columns@)[i as int].windows();
            let place = place_in(workspace_id, strip.virtual_index, i as int);
            lemma_first_place(windows, place, window_id, pid, bundle_id@, 0);
            assert(f(all[i as int]) == windows.map_values(place));
            lemma_gather_step(all, f, i as int);
            lemma_first_where_add(gather(all.take(i as int), f), f(all[i as int]), wanted);
            if found is Some {
                lemma_found_early(all, f, wanted, i + 1);
            }
        }
        if let Some(window) = found {
            return Some((i, window));
        }
        i = i + 1;
    }
    assert(all.take(i as int) =~= all);
    None
}

/// Finds the window that is asked for in a space, its row and its column.
fn find_in_workspace<'a>(
    workspace: &'a SavedWorkspace,
    window_id: WinID,
    pid: Pid,
    bundle_id: &str,
) -> (found: Option<(u32, usize, &'a SavedWindow)>)
    ensures
        match found {
            Some((virtual_index, column, window)) => first_where(
                workspace_places()(workspace@),
                is_place(window_id, pid, bundle_id@),
            ) == Some(
                SavedPlace {
                    workspace_id: workspace.workspace_id,
                    virtual_index,
                    column: column as int,
                    window: window@,
                },
            ),
            None => first_where(
                workspace_places()(workspace@),
                is_place(window_id, pid, bundle_id@),
            ) is None,
        },
{
    let ghost wanted = is_place(window_id, pid, bundle_id@);
    let ghost all = views(workspace.strips@);
    let ghost f = strip_places(workspace.workspace_id);
    let mut i: usize = 0;
    assert(all.take(0) =~= Seq::<SavedStripView>::empty());
    while i < workspace.strips.len()
        invariant
            i <= workspace.strips.len(),
            all == views(workspace.strips@),
            f == strip_places(workspace.workspace_id),
            wanted == is_place(window_id, pid, bundle_id@),
            first_where(gather(all.take(i as int), f), wanted) is None,
        decreases workspace.strips.len() - i,
    {
        let strip = &workspace.strips[i];
        let found = find_in_strip(workspace.workspace_id, strip, window_id, pid, bundle_id);
        proof {
            lemma_gather_step(all, f, i as int);
            lemma_first_where_add(gather(all.take(i as int), f), f(all[i as int]), wanted);
            if found is Some {
                lemma_found_early(all, f, wanted, i + 1);
            }
        }
        if let Some((column, window)) = found {
            return Some((strip.virtual_index, column, window));
        }
        i = i + 1;
    }
    assert(all.take(i as int) =~= all);
    None
}

impl PaneruState {
    /// Finds the window that is asked for where it was laid out: its space, its
    /// row, its column, and what was saved of it. Of several, the first counts.
    pub fn find_match(&self, window_id: WinID, pid: Pid, bundle_id: &str) -> (found: Option<
        (WorkspaceId, u32, usize, SavedWindow),
    >)
        ensures
            match found {
                Some((workspace_id, virtual_index, column, window)) => first_where(
                    self@.places(),
                    is_place(window_id, pid, bundle_id@),
                ) == Some(
                    SavedPlace {
                        workspace_id,
                        virtual_index,
                        column: column as int,
                        window: window@,
                    },
                ),
                None => first_where(
                    self@.places(),
                    is_place(window_id, pid, bundle_id@),
                ) is None,
            },
            found matches Some((_, _, _, window)) ==> window.window_id == window_id && window.pid
                == pid && window.bundle_id@ == bundle_id@,
    {
        let ghost wanted = is_place(window_id, pid, bundle_id@);
        let ghost all = views(self.workspaces@);
        let ghost f = workspace_places();
        let mut i: usize = 0;
        assert(all.take(0) =~= Seq::<SavedWorkspaceView>::empty());
        while i < self.workspaces.len()
            invariant
                i <= self.workspaces.len(),
                all == views(self.workspaces@),
                f == workspace_places(),
                wanted == is_place(window_id, pid, bundle_id@),
                first_where(gather(all.take(i as int), f), wanted) is None,
            decreases self.workspaces.len() - i,
        {
            let workspace = &self.workspaces[i];
            let found = find_in_workspace(workspace, window_id, pid, bundle_id);
            proof {
                lemma_gather_step(all, f, i as int);
                lemma_first_where_add(gather(all.take(i as int), f), f(all[i as int]), wanted);
                if found is Some {
                    lemma_found_early(all, f, wanted, i + 1);
                }
            }
            if let Some((virtual_index, column, window)) = found {
                proof {
                    lemma_first_is_listed(self@.places(), wanted, 0);
                }
                return Some((workspace.workspace_id, virtual_index, column, window.clone()));
            }
            i = i + 1;
        }
        assert(all.take(i as int) =~= all);
        None
    }
}

} // verus!
