//! The state that is saved on exit and read back at the next start.

use crate::geometry::Rect;
use crate::platform::{CGDirectDisplayID, Entity, Pid, ProcessSerialNumber, WinID, WorkspaceId};
use crate::seqs::{views, Ranked};
use crate::world::{
    application_of, find_application, text_of, text_or_empty, Application, Windows,
};
use vstd::prelude::*;

verus! {

/// A saved rectangle.
#[derive(Clone, Copy, Debug, PartialEq, Eq, Structural)]
pub struct SavedRect {
    pub min_x: i32,
    pub min_y: i32,
    pub max_x: i32,
    pub max_y: i32,
}

/// A saved window: the numbers it had, and the texts it can be recognised by
/// when the numbers have changed.
#[derive(Debug, PartialEq, Eq)]
pub struct SavedWindow {
    pub window_id: WinID,
    pub pid: Pid,
    pub psn: ProcessSerialNumber,
    pub bundle_id: String,
    pub title: String,
    pub identifier: String,
    pub role: String,
    pub subrole: String,
}

/// One saved place of a stack.
#[derive(Clone, Debug, PartialEq, Eq)]
pub enum SavedStackItem {
    Single(SavedWindow),
    Tabs(Vec<SavedWindow>),
}

/// A saved column.
#[derive(Clone, Debug, PartialEq, Eq)]
pub enum SavedColumn {
    Single(SavedWindow),
    Stack(Vec<SavedStackItem>),
    Tabs(Vec<SavedWindow>),
    Fullscreen(SavedWindow),
}

/// A saved row.
#[derive(Clone, Debug, PartialEq, Eq)]
pub struct SavedStrip {
    pub virtual_index: u32,
    pub columns: Vec<SavedColumn>,
    /// Windows the strip owns without laying out: floats parked on this row,
    /// scratchpads included. Saved so they come back where they were instead
    /// of being left behind wherever they happened to be sitting.
    pub floating: Vec<SavedWindow>,
}

/// A saved native space with its rows.
#[derive(Clone, Debug, PartialEq, Eq)]
pub struct SavedWorkspace {
    pub workspace_id: WorkspaceId,
    pub display_id: Option<CGDirectDisplayID>,
    pub active_virtual_index: Option<u32>,
    pub strips: Vec<SavedStrip>,
}

/// A saved display.
#[derive(Clone, Debug, PartialEq, Eq)]
pub struct SavedDisplay {
    pub display_id: CGDirectDisplayID,
    pub bounds: SavedRect,
    pub active: bool,
    pub workspace_ids: Vec<WorkspaceId>,
}

/// The whole saved state.
#[derive(Clone, Debug, PartialEq, Eq)]
pub struct PaneruState {
    pub version: u32,
    pub timestamp: u64,
    pub active_display_id: Option<CGDirectDisplayID>,
    pub displays: Vec<SavedDisplay>,
    pub workspaces: Vec<SavedWorkspace>,
}

/// The contents of a [`SavedWindow`].
pub struct SavedWindowView {
    pub window_id: WinID,
    pub pid: Pid,
    pub psn: ProcessSerialNumber,
    pub bundle_id: Seq<char>,
    pub title: Seq<char>,
    pub identifier: Seq<char>,
    pub role: Seq<char>,
    pub subrole: Seq<char>,
}

/// The contents of a [`SavedStackItem`].
pub enum SavedStackItemView {
    Single(SavedWindowView),
    Tabs(Seq<SavedWindowView>),
}

/// The contents of a [`SavedColumn`].
pub enum SavedColumnView {
    Single(SavedWindowView),
    Stack(Seq<SavedStackItemView>),
    Tabs(Seq<SavedWindowView>),
    Fullscreen(SavedWindowView),
}

/// The contents of a [`SavedStrip`].
pub struct SavedStripView {
    pub virtual_index: u32,
    pub columns: Seq<SavedColumnView>,
    pub floating: Seq<SavedWindowView>,
}

/// The contents of a [`SavedWorkspace`].
pub struct SavedWorkspaceView {
    pub workspace_id: WorkspaceId,
    pub display_id: Option<CGDirectDisplayID>,
    pub active_virtual_index: Option<u32>,
    pub strips: Seq<SavedStripView>,
}

/// The contents of a [`SavedDisplay`].
pub struct SavedDisplayView {
    pub display_id: CGDirectDisplayID,
    pub bounds: SavedRect,
    pub active: bool,
    pub workspace_ids: Seq<WorkspaceId>,
}

/// The contents of a [`PaneruState`].
pub struct PaneruStateView {
    pub version: u32,
    pub timestamp: u64,
    pub active_display_id: Option<CGDirectDisplayID>,
    pub displays: Seq<SavedDisplayView>,
    pub workspaces: Seq<SavedWorkspaceView>,
}

impl View for SavedWindow {
    type V = SavedWindowView;

    open spec fn view(&self) -> SavedWindowView {
        SavedWindowView {
            window_id: self.window_id,
            pid: self.pid,
            psn: self.psn,
            bundle_id: self.bundle_id@,
            title: self.title@,
            identifier: self.identifier@,
            role: self.role@,
            subrole: self.subrole@,
        }
    }
}

impl View for SavedStackItem {
    type V = SavedStackItemView;

    open spec fn view(&self) -> SavedStackItemView {
        match self {
            SavedStackItem::Single(window) => SavedStackItemView::Single(window@),
            SavedStackItem::Tabs(tabs) => SavedStackItemView::Tabs(views(tabs@)),
        }
    }
}

impl View for SavedColumn {
    type V = SavedColumnView;

    open spec fn view(&self) -> SavedColumnView {
        match self {
            SavedColumn::Single(window) => SavedColumnView::Single(window@),
            SavedColumn::Stack(items) => SavedColumnView::Stack(views(items@)),
            SavedColumn::Tabs(tabs) => SavedColumnView::Tabs(views(tabs@)),
            SavedColumn::Fullscreen(window) => SavedColumnView::Fullscreen(window@),
        }
    }
}

impl View for SavedStrip {
    type V = SavedStripView;

    open spec fn view(&self) -> SavedStripView {
        SavedStripView {
            virtual_index: self.virtual_index,
            columns: views(self.columns@),
            floating: views(self.floating@),
        }
    }
}

impl View for SavedWorkspace {
    type V = SavedWorkspaceView;

    open spec fn view(&self) -> SavedWorkspaceView {
        SavedWorkspaceView {
            workspace_id: self.workspace_id,
            display_id: self.display_id,
            active_virtual_index: self.active_virtual_index,
            strips: views(self.strips@),
        }
    }
}

impl View for SavedDisplay {
    type V = SavedDisplayView;

    open spec fn view(&self) -> SavedDisplayView {
        SavedDisplayView {
            display_id: self.display_id,
            bounds: self.bounds,
            active: self.active,
            workspace_ids: self.workspace_ids@,
        }
    }
}

impl View for PaneruState {
    type V = PaneruStateView;

    open spec fn view(&self) -> PaneruStateView {
        PaneruStateView {
            version: self.version,
            timestamp: self.timestamp,
            active_display_id: self.active_display_id,
            displays: views(self.displays@),
            workspaces: views(self.workspaces@),
        }
    }
}

impl Clone for SavedWindow {
    fn clone(&self) -> (copy: SavedWindow)
        ensures
            copy == *self,
    {
        SavedWindow {
            window_id: self.window_id,
            pid: self.pid,
            psn: self.psn,
            bundle_id: self.bundle_id.clone(),
            title: self.title.clone(),
            identifier: self.identifier.clone(),
            role: self.role.clone(),
            subrole: self.subrole.clone(),
        }
    }
}

impl From<Rect> for SavedRect {
    fn from(rect: Rect) -> (saved: SavedRect) {
        SavedRect { min_x: rect.min.x, min_y: rect.min.y, max_x: rect.max.x, max_y: rect.max.y }
    }
}

impl vstd::std_specs::convert::FromSpecImpl<Rect> for SavedRect {
    open spec fn obeys_from_spec() -> bool {
        true
    }

    open spec fn from_spec(rect: Rect) -> SavedRect {
        SavedRect { min_x: rect.min.x, min_y: rect.min.y, max_x: rect.max.x, max_y: rect.max.y }
    }
}

impl Ranked for SavedStrip {
    open spec fn rank(strip: SavedStripView) -> (int, int) {
        (strip.virtual_index as int, 0)
    }

    fn ranks_before(&self, other: &SavedStrip) -> (earlier: bool) {
        self.virtual_index < other.virtual_index
    }
}

impl SavedWindowView {
    /// Whether this is the very window that is asked for. The bundle counts as
    /// well as both numbers, so that a process number used again by another
    /// application does not match.
    pub open spec fn hard_matches(self, id: WinID, pid: Pid, bundle: Seq<char>) -> bool {
        &&& self.window_id == id
        &&& self.pid == pid
        &&& self.bundle_id == bundle
    }
}

/// What is saved of an entity: nothing where it is no window, its application
/// is unknown, or its process cannot be told.
pub open spec fn saved_window(
    entity: Entity,
    windows: Windows,
    apps: Seq<Application>,
) -> Option<SavedWindowView> {
    match windows.window_of(entity) {
        None => None,
        Some(window) => match windows.parent_of(window.id) {
            None => None,
            Some(parent) => match (application_of(apps, parent), window.pid) {
                (Some(app), Some(pid)) => Some(
                    SavedWindowView {
                        window_id: window.id,
                        pid,
                        psn: app.psn,
                        bundle_id: text_or_empty(app.bundle_id),
                        title: text_or_empty(window.title),
                        identifier: text_or_empty(window.identifier),
                        role: text_or_empty(window.role),
                        subrole: text_or_empty(window.subrole),
                    },
                ),
                _ => None,
            },
        },
    }
}

impl SavedWindow {
    /// What is saved of an entity, if there is anything to save.
    pub fn from_entity(entity: Entity, windows: &Windows, apps: &Vec<Application>) -> (saved:
        Option<SavedWindow>)
        ensures
            match saved {
                Some(saved) => saved_window(entity, *windows, apps@) == Some(saved@),
                None => saved_window(entity, *windows, apps@) is None,
            },
            saved matches Some(saved) ==> (windows.window_of(entity) matches Some(window) && {
                &&& saved.window_id == window.id
                &&& Some(saved.pid) == window.pid
                &&& window.title matches Some(text) ==> saved.title@ == text@
                &&& window.identifier matches Some(text) ==> saved.identifier@ == text@
                &&& window.role matches Some(text) ==> saved.role@ == text@
                &&& window.subrole matches Some(text) ==> saved.subrole@ == text@
            }),
    {
        let window = match windows.get(entity) {
            Some(window) => window,
            None => return None,
        };
        let parent: Entity = match windows.find_parent(window.id) {
            Some(parent) => parent,
            None => return None,
        };
        let app = match find_application(apps, parent) {
            Some(app) => app,
            None => return None,
        };
        let pid: Pid = match window.pid {
            Some(pid) => pid,
            None => return None,
        };
        Some(
            SavedWindow {
                window_id: window.id,
                pid,
                psn: app.psn,
                bundle_id: text_of(&app.bundle_id),
                title: text_of(&window.title),
                identifier: text_of(&window.identifier),
                role: text_of(&window.role),
                subrole: text_of(&window.subrole),
            },
        )
    }

    /// Whether this is the very window that is asked for, bundle included.
    pub fn hard_match(&self, other_id: WinID, other_proc_id: Pid, other_bundle: &str) -> (matched:
        bool)
        ensures
            matched == self@.hard_matches(other_id, other_proc_id, other_bundle@),
            matched <==> self.window_id == other_id && self.pid == other_proc_id && self.bundle_id@
                == other_bundle@,
    {
        self.window_id == other_id && self.pid == other_proc_id && self.bundle_id
            == other_bundle.to_owned()
    }
}

} // verus!
