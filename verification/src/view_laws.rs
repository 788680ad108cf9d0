//! Contents tell the values they are the contents of, field by field.

use crate::desktop::Desktop;
use crate::params::QueryStateParams;
use crate::query::{
    text_view, PaneruActiveState, PaneruQueryState, PaneruVirtualWorkspaceState, PaneruWindowState,
};
use crate::saved::{
    PaneruState, SavedColumn, SavedColumnView, SavedDisplay, SavedStackItem, SavedStackItemView,
    SavedStrip, SavedWindow, SavedWorkspace,
};
use crate::seqs::views;
use crate::windowset::{ColumnSet, DisplaySet, WindowRec, WindowSet, WorkspaceSet};
use vstd::prelude::*;

verus! {

/// Contents of several values are those of each, in their order.
pub proof fn lemma_views<T: View>(s: Seq<T>)
    ensures
        views(s).len() == s.len(),
        forall|i: int| 0 <= i < s.len() ==> #[trigger] views(s)[i] == s[i]@,
{
}

/// The contents of a saved window.
pub proof fn lemma_saved_window_view(saved: SavedWindow)
    ensures
        saved@.window_id == saved.window_id,
        saved@.pid == saved.pid,
        saved@.psn == saved.psn,
        saved@.bundle_id == saved.bundle_id@,
        saved@.title == saved.title@,
        saved@.identifier == saved.identifier@,
        saved@.role == saved.role@,
        saved@.subrole == saved.subrole@,
{
}

/// The contents of a saved place of a stack.
pub proof fn lemma_saved_item_view(saved: SavedStackItem)
    ensures
        saved matches SavedStackItem::Single(window) ==> saved@ == SavedStackItemView::Single(
            window@,
        ),
        saved matches SavedStackItem::Tabs(tabs) ==> (saved@ matches SavedStackItemView::Tabs(seen)
            && seen.len() == tabs@.len() && forall|i: int|
            0 <= i < tabs@.len() ==> #[trigger] seen[i] == tabs@[i]@),
{
}

/// The contents of a saved column.
pub proof fn lemma_saved_column_view(saved: SavedColumn)
    ensures
        saved matches SavedColumn::Single(window) ==> saved@ == SavedColumnView::Single(window@),
        saved matches SavedColumn::Fullscreen(window) ==> saved@ == SavedColumnView::Fullscreen(
            window@,
        ),
        saved matches SavedColumn::Tabs(tabs) ==> (saved@ matches SavedColumnView::Tabs(seen)
            && seen.len() == tabs@.len() && forall|i: int|
            0 <= i < tabs@.len() ==> #[trigger] seen[i] == tabs@[i]@),
        saved matches SavedColumn::Stack(items) ==> (saved@ matches SavedColumnView::Stack(seen)
            && seen.len() == items@.len() && forall|i: int|
            0 <= i < items@.len() ==> #[trigger] seen[i] == items@[i]@),
{
}

/// The contents of a saved row.
pub proof fn lemma_saved_strip_view(saved: SavedStrip)
    ensures
        saved@.virtual_index == saved.virtual_index,
        saved@.columns.len() == saved.columns@.len(),
        forall|i: int|
            0 <= i < saved.columns@.len() ==> #[trigger] saved@.columns[i] == saved.columns@[i]@,
        saved@.floating.len() == saved.floating@.len(),
        forall|i: int|
            0 <= i < saved.floating@.len() ==> #[trigger] saved@.floating[i] == saved.floating@[i]@,
{
}

/// The contents of a saved space.
pub proof fn lemma_saved_workspace_view(saved: SavedWorkspace)
    ensures
        saved@.workspace_id == saved.workspace_id,
        saved@.display_id == saved.display_id,
        saved@.active_virtual_index == saved.active_virtual_index,
        saved@.strips.len() == saved.strips@.len(),
        forall|i: int|
            0 <= i < saved.strips@.len() ==> #[trigger] saved@.strips[i] == saved.strips@[i]@,
{
}

/// The contents of a saved display.
pub proof fn lemma_saved_display_view(saved: SavedDisplay)
    ensures
        saved@.display_id == saved.display_id,
        saved@.bounds == saved.bounds,
        saved@.active == saved.active,
        saved@.workspace_ids == saved.workspace_ids@,
{
}

/// The contents of a saved state.
pub proof fn lemma_state_view(state: PaneruState)
    ensures
        state@.version == state.version,
        state@.timestamp == state.timestamp,
        state@.active_display_id == state.active_display_id,
        state@.displays.len() == state.displays@.len(),
        forall|i: int|
            0 <= i < state.displays@.len() ==> #[trigger] state@.displays[i] == state.displays@[i]@,
        state@.workspaces.len() == state.workspaces@.len(),
        forall|i: int|
            0 <= i < state.workspaces@.len() ==> #[trigger] state@.workspaces[i]
                == state.workspaces@[i]@,
{
}

/// The contents of a window in the document.
pub proof fn lemma_window_state_view(state: PaneruWindowState)
    ensures
        state@.window_id == state.window_id,
        state@.bundle_id == state.bundle_id@,
        state@.app_name == state.app_name@,
        state@.title == state.title@,
        state@.focused == state.focused,
        state@.floating == state.floating,
        state@.display_id == state.display_id,
        state@.frame == state.frame,
        state@.visible == state.visible,
{
}

/// The contents of a row in the document.
pub proof fn lemma_row_state_view(state: PaneruVirtualWorkspaceState)
    ensures
        state@.number == state.number,
        state@.native_workspace_id == state.native_workspace_id,
        state@.active == state.active,
        state@.windows.len() == state.windows@.len(),
        forall|i: int|
            0 <= i < state.windows@.len() ==> #[trigger] state@.windows[i] == state.windows@[i]@,
{
}

/// The contents of text that may be missing.
pub proof fn lemma_text_view(text: Option<String>)
    ensures
        text is None ==> text_view(text) is None,
        text matches Some(t) ==> text_view(text) == Some(t@),
{
}

/// The contents of what is in use.
pub proof fn lemma_active_state_view(active: PaneruActiveState)
    ensures
        active@.display_id == active.display_id,
        active@.native_workspace_id == active.native_workspace_id,
        active@.virtual_workspace_number == active.virtual_workspace_number,
        active@.focused_window_id == active.focused_window_id,
        active@.focused_bundle_id == text_view(active.focused_bundle_id),
        active@.focused_app_name == text_view(active.focused_app_name),
        active@.focused_window_title == text_view(active.focused_window_title),
{
}

/// The contents of a document.
pub proof fn lemma_query_state_view(document: PaneruQueryState)
    ensures
        document@.version == document.version,
        document@.timestamp == document.timestamp,
        document@.active == document.active@,
        document@.virtual_workspaces.len() == document.virtual_workspaces@.len(),
        forall|i: int|
            0 <= i < document.virtual_workspaces@.len() ==> #[trigger] document@.virtual_workspaces[i]
                == document.virtual_workspaces@[i]@,
{
}

/// The contents of a window in the tree.
pub proof fn lemma_window_rec_view(rec: WindowRec)
    ensures
        rec@.id == rec.id,
        rec@.app_name == rec.app_name@,
        rec@.bundle_id == rec.bundle_id@,
        rec@.title == rec.title@,
        rec@.frame == rec.frame,
        rec@.floating == rec.floating,
        rec@.managed == rec.managed,
        rec@.visible == rec.visible,
        rec@.focused == rec.focused,
{
}

/// The contents of a column in the tree.
pub proof fn lemma_column_set_view(set: ColumnSet)
    ensures
        set@.kind == set.kind,
        set@.width_ratio == set.width_ratio,
        set@.selected == set.selected,
        set@.windows.len() == set.windows@.len(),
        forall|i: int|
            0 <= i < set.windows@.len() ==> #[trigger] set@.windows[i] == set.windows@[i]@,
{
}

/// The contents of a row in the tree.
pub proof fn lemma_workspace_set_view(set: WorkspaceSet)
    ensures
        set@.number == set.number,
        set@.native_id == set.native_id,
        set@.active == set.active,
        set@.columns.len() == set.columns@.len(),
        forall|i: int|
            0 <= i < set.columns@.len() ==> #[trigger] set@.columns[i] == set.columns@[i]@,
        set@.floating.len() == set.floating@.len(),
        forall|i: int|
            0 <= i < set.floating@.len() ==> #[trigger] set@.floating[i] == set.floating@[i]@,
{
}

/// The contents of a display in the tree.
pub proof fn lemma_display_set_view(set: DisplaySet)
    ensures
        set@.id == set.id,
        set@.frame == set.frame,
        set@.active == set.active,
        set@.workspaces.len() == set.workspaces@.len(),
        forall|i: int|
            0 <= i < set.workspaces@.len() ==> #[trigger] set@.workspaces[i]
                == set.workspaces@[i]@,
{
}

/// The contents of a tree.
pub proof fn lemma_window_set_view(set: WindowSet)
    ensures
        set@.focused == set.focused,
        set@.displays.len() == set.displays@.len(),
        forall|i: int|
            0 <= i < set.displays@.len() ==> #[trigger] set@.displays[i] == set.displays@[i]@,
{
}

/// What a query looks at.
pub proof fn lemma_desktop_view(desktop: Desktop<'_>)
    ensures
        desktop@.rows == desktop.rows@,
        desktop@.displays == desktop.displays@,
        desktop@.windows == *desktop.windows,
        desktop@.apps == desktop.apps@,
        desktop@.sliver_width == desktop.sliver_width,
{
}

/// What a bundled query looks at.
pub proof fn lemma_params_view(params: QueryStateParams)
    ensures
        params@.rows == params.workspaces@,
        params@.displays == params.displays@,
        params@.windows == params.windows,
        params@.apps == params.apps@,
        params@.sliver_width == params.sliver_width,
{
}

} // verus!
