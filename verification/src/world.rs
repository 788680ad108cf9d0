//! The desktop as it stands: displays, applications and windows.

use crate::geometry::Rect;
use crate::platform::{CGDirectDisplayID, Entity, Pid, ProcessSerialNumber, WinID};
use crate::seqs::{first_from, first_where};
use vstd::prelude::*;

verus! {

/// Why a window is kept out of the layout.
#[derive(Clone, Copy, Debug, PartialEq, Eq, Structural)]
pub enum Unmanaged {
    Floating,
    Minimized,
    Hidden,
}

/// A physical display.
#[derive(Clone, Copy, Debug, PartialEq, Eq)]
pub struct Display {
    pub entity: Entity,
    pub id: CGDirectDisplayID,
    pub bounds: Rect,
    /// Whether this is the display in use.
    pub active: bool,
}

/// A running application.
#[derive(Clone, Debug, PartialEq, Eq)]
pub struct Application {
    pub entity: Entity,
    pub psn: ProcessSerialNumber,
    pub bundle_id: Option<String>,
    pub name: String,
}

/// A window. What the window server would not tell is `None`.
#[derive(Clone, Debug, PartialEq, Eq)]
pub struct Window {
    pub entity: Entity,
    pub id: WinID,
    pub pid: Option<Pid>,
    pub title: Option<String>,
    pub identifier: Option<String>,
    pub role: Option<String>,
    pub subrole: Option<String>,
    /// The application that the window belongs to.
    pub parent: Option<Entity>,
    /// Why the window is kept out of the layout; `None` while it is managed.
    pub unmanaged: Option<Unmanaged>,
    pub frame: Option<Rect>,
    /// The share of the display's width that the window asks for, as the bits
    /// of a double.
    pub width_ratio: Option<u64>,
}

/// Every window, and which one has the focus.
#[derive(Clone, Debug, PartialEq, Eq)]
pub struct Windows {
    pub all: Vec<Window>,
    pub focused: Option<Entity>,
}

/// Text that may be missing: what is missing reads as empty.
pub open spec fn text_or_empty(text: Option<String>) -> Seq<char> {
    match text {
        Some(text) => text@,
        None => Seq::empty(),
    }
}

/// A copy of text that may be missing: what is missing reads as empty.
pub(crate) fn text_of(text: &Option<String>) -> (copy: String)
    ensures
        copy@ == text_or_empty(*text),
{
    match text {
        Some(text) => text.clone(),
        None => String::new(),
    }
}

/// Recognises a window by its entity.
pub open spec fn is_entity(entity: Entity) -> spec_fn(Window) -> bool {
    |window: Window| window.entity == entity
}

/// Recognises a window by its number.
pub open spec fn is_numbered(id: WinID) -> spec_fn(Window) -> bool {
    |window: Window| window.id == id
}

/// Recognises an application by its entity.
pub open spec fn is_application(entity: Entity) -> spec_fn(Application) -> bool {
    |app: Application| app.entity == entity
}

/// Recognises the display in use.
pub open spec fn is_in_use() -> spec_fn(Display) -> bool {
    |display: Display| display.active
}

/// Recognises a display by its entity.
pub open spec fn is_display(entity: Entity) -> spec_fn(Display) -> bool {
    |display: Display| display.entity == entity
}

/// The application of an entity.
pub open spec fn application_of(apps: Seq<Application>, entity: Entity) -> Option<Application> {
    first_where(apps, is_application(entity))
}

/// The number of the display in use.
pub open spec fn display_in_use(displays: Seq<Display>) -> Option<CGDirectDisplayID> {
    match first_where(displays, is_in_use()) {
        Some(display) => Some(display.id),
        None => None,
    }
}

/// The number of the display of an entity.
pub open spec fn display_of(displays: Seq<Display>, entity: Entity) -> Option<CGDirectDisplayID> {
    match first_where(displays, is_display(entity)) {
        Some(display) => Some(display.id),
        None => None,
    }
}

impl Windows {
    /// The window of an entity.
    pub open spec fn window_of(self, entity: Entity) -> Option<Window> {
        first_where(self.all@, is_entity(entity))
    }

    /// The window of a number.
    pub open spec fn window_numbered(self, id: WinID) -> Option<Window> {
        first_where(self.all@, is_numbered(id))
    }

    /// The application that owns the window of a number.
    pub open spec fn parent_of(self, id: WinID) -> Option<Entity> {
        match self.window_numbered(id) {
            Some(window) => window.parent,
            None => None,
        }
    }

    /// Whether an entity is a floating window.
    pub open spec fn floats(self, entity: Entity) -> bool {
        self.window_of(entity) matches Some(window) && window.unmanaged == Some(Unmanaged::Floating)
    }

    /// Whether no two windows share an entity.
    pub open spec fn entities_differ(self) -> bool {
        forall|i: int, j: int|
            0 <= i < j < self.all@.len() ==> (#[trigger] self.all@[i]).entity != (
            #[trigger] self.all@[j]).entity
    }

    /// Whether no two windows share a number.
    pub open spec fn numbers_differ(self) -> bool {
        forall|i: int, j: int|
            0 <= i < j < self.all@.len() ==> (#[trigger] self.all@[i]).id != (
            #[trigger] self.all@[j]).id
    }

    /// The window of an entity.
    pub fn get(&self, entity: Entity) -> (found: Option<&Window>)
        ensures
            match found {
                Some(window) => self.window_of(entity) == Some(*window),
                None => self.window_of(entity) is None,
            },
    {
        let mut i: usize = 0;
        while i < self.all.len()
            invariant
                i <= self.all.len(),
                self.window_of(entity) == first_from(self.all@, is_entity(entity), i as int),
            decreases self.all.len() - i,
        {
            if self.all[i].entity == entity {
                return Some(&self.all[i]);
            }
            i = i + 1;
        }
        None
    }

    /// The window of a number.
    pub fn find(&self, id: WinID) -> (found: Option<&Window>)
        ensures
            match found {
                Some(window) => self.window_numbered(id) == Some(*window),
                None => self.window_numbered(id) is None,
            },
    {
        let mut i: usize = 0;
        while i < self.all.len()
            invariant
                i <= self.all.len(),
                self.window_numbered(id) == first_from(self.all@, is_numbered(id), i as int),
            decreases self.all.len() - i,
        {
            if self.all[i].id == id {
                return Some(&self.all[i]);
            }
            i = i + 1;
        }
        None
    }

    /// The application that owns the window of a number.
    pub fn find_parent(&self, id: WinID) -> (parent: Option<Entity>)
        ensures
            parent == self.parent_of(id),
    {
        match self.find(id) {
            Some(window) => window.parent,
            None => None,
        }
    }

    /// Whether an entity is a floating window.
    pub fn is_floating(&self, entity: Entity) -> (floating: bool)
        ensures
            floating == self.floats(entity),
    {
        match self.get(entity) {
            Some(window) => match window.unmanaged {
                Some(Unmanaged::Floating) => true,
                _ => false,
            },
            None => false,
        }
    }
}

/// The application of an entity.
pub(crate) fn find_application(apps: &Vec<Application>, entity: Entity) -> (found: Option<
    &Application,
>)
    ensures
        match found {
            Some(app) => application_of(apps@, entity) == Some(*app),
            None => application_of(apps@, entity) is None,
        },
{
    let mut i: usize = 0;
    while i < apps.len()
        invariant
            i <= apps.len(),
            application_of(apps@, entity) == first_from(apps@, is_application(entity), i as int),
        decreases apps.len() - i,
    {
        if apps[i].entity == entity {
            return Some(&apps[i]);
        }
        i = i + 1;
    }
    None
}

/// The number of the display in use.
pub(crate) fn active_display(displays: &Vec<Display>) -> (found: Option<CGDirectDisplayID>)
    ensures
        found == display_in_use(displays@),
{
    let mut i: usize = 0;
    while i < displays.len()
        invariant
            i <= displays.len(),
            first_where(displays@, is_in_use()) == first_from(displays@, is_in_use(), i as int),
        decreases displays.len() - i,
    {
        if displays[i].active {
            return Some(displays[i].id);
        }
        i = i + 1;
    }
    None
}

/// The number of the display of an entity.
pub(crate) fn find_display(displays: &Vec<Display>, entity: Entity) -> (found: Option<
    CGDirectDisplayID,
>)
    ensures
        found == display_of(displays@, entity),
{
    let mut i: usize = 0;
    while i < displays.len()
        invariant
            i <= displays.len(),
            first_where(displays@, is_display(entity)) == first_from(
                displays@,
                is_display(entity),
                i as int,
            ),
        decreases displays.len() - i,
    {
        if displays[i].entity == entity {
            return Some(displays[i].id);
        }
        i = i + 1;
    }
    None
}

/// How much of a frame a display shows.
pub open spec fn slice_of(frame: Rect, display: Display) -> int {
    frame.common(display.bounds).across() * frame.common(display.bounds).down()
}

/// Whether a display shows any of a frame.
pub open spec fn shows(frame: Rect, display: Display) -> bool {
    frame.common(display.bounds).across() > 0 && frame.common(display.bounds).down() > 0
}

/// The display that shows the largest slice of a frame; of equal slices the one
/// listed last.
pub open spec fn best_display(frame: Rect, displays: Seq<Display>) -> Option<Display>
    decreases displays.len(),
{
    if displays.len() == 0 {
        None
    } else {
        let last = displays.last();
        match best_display(frame, displays.drop_last()) {
            Some(best) => if shows(frame, last) && slice_of(frame, last) >= slice_of(frame, best) {
                Some(last)
            } else {
                Some(best)
            },
            None => if shows(frame, last) {
                Some(last)
            } else {
                None
            },
        }
    }
}

/// Which display a frame is on, and whether more than a sliver of it shows
/// there; `None` where the frame misses every display.
pub open spec fn visibility(frame: Rect, displays: Seq<Display>, sliver_width: i32) -> Option<
    (CGDirectDisplayID, bool),
> {
    match best_display(frame, displays) {
        Some(display) => Some(
            (display.id, frame.common(display.bounds).across() > sliver_width),
        ),
        None => None,
    }
}

/// Whether the sides of what each display shows of a frame can be told in 32
/// bits.
pub open spec fn overlaps_fit(frame: Rect, displays: Seq<Display>) -> bool {
    forall|i: int|
        0 <= i < displays.len() ==> frame.common((#[trigger] displays[i]).bounds).sides_fit()
}

/// Resolves which display a window frame is on and whether more than a sliver
/// of it is showing there. Returns `None` when the frame misses every display.
pub fn window_visibility(frame: Rect, displays: &Vec<Display>, sliver_width: i32) -> (shown: Option<
    (CGDirectDisplayID, bool),
>)
    requires
        overlaps_fit(frame, displays@),
    ensures
        shown == visibility(frame, displays@, sliver_width),
{
    let mut best: Option<usize> = None;
    let mut best_width: i32 = 0;
    let mut best_area: i64 = 0;
    let mut i: usize = 0;
    assert(displays@.take(0) =~= Seq::<Display>::empty());
    while i < displays.len()
        invariant
            i <= displays.len(),
            overlaps_fit(frame, displays@),
            match best {
                Some(b) => {
                    &&& b < i
                    &&& best_display(frame, displays@.take(i as int)) == Some(displays@[b as int])
                    &&& best_width == frame.common(displays@[b as int].bounds).across()
                    &&& best_area == slice_of(frame, displays@[b as int])
                },
                None => best_display(frame, displays@.take(i as int)) is None,
            },
        decreases displays.len() - i,
    {
        assert(displays@.take(i + 1).drop_last() =~= displays@.take(i as int));
        let overlap = frame.intersect(&displays[i].bounds);
        let width: i32 = overlap.width();
        let height: i32 = overlap.height();
        if width > 0 && height > 0 {
            assert(0 < width * height <= 0x7fff_ffff * 0x7fff_ffff) by (nonlinear_arith)
                requires
                    0 < width <= 0x7fff_ffff,
                    0 < height <= 0x7fff_ffff,
            ;
            let area: i64 = (width as i64) * (height as i64);
            if best.is_none() || area >= best_area {
                best = Some(i);
                best_width = width;
                best_area = area;
            }
        }
        i = i + 1;
    }
    assert(displays@.take(i as int) =~= displays@);
    match best {
        Some(b) => Some((displays[b].id, best_width > sliver_width)),
        None => None,
    }
}

/// A frame whose own sides fit overlaps nothing larger.
pub proof fn lemma_overlaps_fit(frame: Rect, displays: Seq<Display>)
    requires
        frame.sides_fit(),
    ensures
        overlaps_fit(frame, displays),
{
}

/// A window is resolved to a display that shows some of it; no display shows a
/// larger slice, and none listed later shows as large a one. It is resolved to
/// none only where no display shows any of it.
pub proof fn lemma_best_display(frame: Rect, displays: Seq<Display>)
    ensures
        match best_display(frame, displays) {
            Some(best) => exists|i: int|
                {
                    &&& 0 <= i < displays.len()
                    &&& #[trigger] displays[i] == best
                    &&& shows(frame, best)
                    &&& forall|j: int|
                        0 <= j < displays.len() && shows(frame, #[trigger] displays[j]) ==> {
                            &&& slice_of(frame, displays[j]) <= slice_of(frame, best)
                            &&& j > i ==> slice_of(frame, displays[j]) < slice_of(frame, best)
                        }
                },
            None => forall|j: int|
                0 <= j < displays.len() ==> !shows(frame, #[trigger] displays[j]),
        },
    decreases displays.len(),
{
    if displays.len() > 0 {
        let rest = displays.drop_last();
        lemma_best_display(frame, rest);
        let n = displays.len() - 1;
        assert forall|j: int| 0 <= j < n implies rest[j] == #[trigger] displays[j] by {}
        match best_display(frame, rest) {
            Some(best) => {
                let i = choose|i: int|
                    {
                        &&& 0 <= i < rest.len()
                        &&& #[trigger] rest[i] == best
                        &&& shows(frame, best)
                        &&& forall|j: int|
                            0 <= j < rest.len() && shows(frame, #[trigger] rest[j]) ==> {
                                &&& slice_of(frame, rest[j]) <= slice_of(frame, best)
                                &&& j > i ==> slice_of(frame, rest[j]) < slice_of(frame, best)
                            }
                    };
                assert(displays[i] == best);
                assert(displays[n] == displays.last());
            },
            None => {
                assert(displays[n] == displays.last());
            },
        }
    }
}

} // verus!
