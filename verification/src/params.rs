//! The desktop bundled for callers that query it.

use crate::clock::is_read_now;
use crate::desktop::{Desktop, DesktopView};
use crate::query::{desktop_of, PaneruQueryState, QueryState};
use crate::spaces::{reading, QueryRow, Reply, Step};
use crate::windowset::WindowSet;
use crate::world::{Application, Display, Windows};
use vstd::prelude::*;

verus! {

/// The desktop that [`QueryState::extract`] needs, bundled so callers take one
/// parameter instead of several.
#[derive(Clone, Debug, PartialEq, Eq)]
pub struct QueryStateParams {
    pub workspaces: Vec<QueryRow>,
    pub displays: Vec<Display>,
    pub windows: Windows,
    pub apps: Vec<Application>,
    /// How much of a window has to show for it to count as visible.
    pub sliver_width: i32,
}

impl View for QueryStateParams {
    type V = DesktopView;

    open spec fn view(&self) -> DesktopView {
        desktop_of(
            self.workspaces@,
            self.displays@,
            self.windows,
            self.apps@,
            self.sliver_width,
        )
    }
}

impl QueryStateParams {
    /// The windows backing the extract, for callers that also need to look a
    /// window up directly rather than through the state document.
    pub fn windows(&self) -> (windows: &Windows)
        ensures
            *windows == self.windows,
    {
        &self.windows
    }

    /// Builds the state document from the desktop, or says which space to ask
    /// the window server about next.
    ///
    /// # Errors
    ///
    /// Fails if the window server cannot enumerate a space.
    pub fn extract(&self, replies: &Vec<Reply>) -> (step: Step<PaneruQueryState>)
        requires
            self@.can_describe(replies@),
        ensures
            match step {
                Step::Ask(id) => reading(self@.plan(), replies@) == Step::<()>::Ask(id),
                Step::Failed(error) => reading(self@.plan(), replies@) == Step::<()>::Failed(error),
                Step::Ready(document) => {
                    &&& reading(self@.plan(), replies@) == Step::<()>::Ready(())
                    &&& document@ == self@.document(self@.live(replies@), document.timestamp)
                    &&& is_read_now(document.timestamp)
                },
            },
    {
        PaneruQueryState::extract(
            &self.workspaces,
            &self.displays,
            &self.windows,
            &self.apps,
            replies,
            self.sliver_width,
        )
    }

    /// Reads the layout as the tree a script transforms, or says which space to
    /// ask the window server about next.
    ///
    /// # Errors
    ///
    /// Fails if the window server cannot enumerate a space.
    pub fn extract_window_set(&self, replies: &Vec<Reply>) -> (step: Step<WindowSet>)
        requires
            self@.can_build_tree(replies@),
        ensures
            match step {
                Step::Ask(id) => reading(self@.tree_plan(), replies@) == Step::<()>::Ask(id),
                Step::Failed(error) => reading(self@.tree_plan(), replies@) == Step::<()>::Failed(
                    error,
                ),
                Step::Ready(set) => {
                    &&& reading(self@.tree_plan(), replies@) == Step::<()>::Ready(())
                    &&& set@ == self@.window_set(replies@)
                },
            },
    {
        self.desktop().extract_window_set(replies)
    }

    /// Whether [`QueryStateParams::extract`] can be called with these answers:
    /// no number in the document is too large to be told.
    pub fn can_extract(&self, replies: &Vec<Reply>) -> (fit: bool)
        ensures
            fit == self@.can_describe(replies@),
    {
        self.desktop().check_document(replies)
    }

    /// Whether [`QueryStateParams::extract_window_set`] can be called with these
    /// answers: no number in the tree is too large to be told.
    pub fn can_extract_window_set(&self, replies: &Vec<Reply>) -> (fit: bool)
        ensures
            fit == self@.can_build_tree(replies@),
    {
        self.desktop().check_tree(replies)
    }

    /// Everything that a query looks at, borrowed.
    fn desktop(&self) -> (desktop: Desktop<'_>)
        ensures
            desktop@ == self@,
    {
        Desktop {
            rows: &self.workspaces,
            displays: &self.displays,
            windows: &self.windows,
            apps: &self.apps,
            sliver_width: self.sliver_width,
        }
    }
}

} // verus!
