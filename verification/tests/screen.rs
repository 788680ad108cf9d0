use paneru::geometry::{Frame, Point, Rect};
use paneru::layout::{Column, LayoutStrip, StackItem};
use paneru::world::{window_visibility, Display};

fn rect(x0: i32, y0: i32, x1: i32, y1: i32) -> Rect {
    Rect { min: Point { x: x0, y: y0 }, max: Point { x: x1, y: y1 } }
}

fn display(id: u32, bounds: Rect) -> Display {
    Display { entity: id as u64, id, bounds, active: false }
}

fn side_by_side() -> Vec<Display> {
    vec![display(1, rect(0, 0, 1000, 800)), display(2, rect(1000, 0, 2000, 800))]
}

#[test]
fn frame_has_corner_and_size() {
    assert_eq!(
        rect(-20, 35, 400, 300).to_frame(),
        Frame { x: -20, y: 35, width: 420, height: 265 }
    );
    assert_eq!(rect(10, 10, 5, 4).to_frame(), Frame { x: 10, y: 10, width: -5, height: -6 });
}

#[test]
fn window_is_on_the_display_that_shows_most_of_it() {
    assert_eq!(window_visibility(rect(900, 0, 1300, 100), &side_by_side(), 5), Some((2, true)));
    assert_eq!(window_visibility(rect(700, 0, 1100, 100), &side_by_side(), 5), Some((1, true)));
}

#[test]
fn area_counts_not_width() {
    let displays = vec![display(1, rect(0, 0, 300, 10)), display(2, rect(0, 10, 100, 200))];
    assert_eq!(window_visibility(rect(0, 0, 300, 200), &displays, 5), Some((2, true)));
}

#[test]
fn later_display_wins_a_tie() {
    assert_eq!(window_visibility(rect(900, 0, 1100, 100), &side_by_side(), 5), Some((2, true)));
    let mut swapped = side_by_side();
    swapped.reverse();
    assert_eq!(window_visibility(rect(900, 0, 1100, 100), &swapped, 5), Some((1, true)));
}

#[test]
fn sliver_is_not_visible() {
    assert_eq!(window_visibility(rect(1995, 0, 2500, 100), &side_by_side(), 5), Some((2, false)));
    assert_eq!(window_visibility(rect(1994, 0, 2500, 100), &side_by_side(), 5), Some((2, true)));
}

#[test]
fn window_off_every_display_is_nowhere() {
    assert_eq!(window_visibility(rect(2000, 0, 2500, 100), &side_by_side(), 5), None);
    assert_eq!(window_visibility(rect(-50, -50, 0, 0), &side_by_side(), 5), None);
    assert_eq!(window_visibility(rect(10, 10, 10, 50), &side_by_side(), 5), None);
    assert_eq!(window_visibility(rect(0, 0, 10, 10), &vec![], 5), None);
}

#[test]
fn huge_window_is_measured_where_it_shows() {
    let all = rect(i32::MIN, i32::MIN, i32::MAX, i32::MAX);
    assert_eq!(window_visibility(all, &side_by_side(), 5), Some((2, true)));
}

#[test]
fn column_lists_its_windows_from_the_top() {
    assert_eq!(Column::Single(4).windows(), vec![4]);
    assert_eq!(Column::Fullscreen(5).windows(), vec![5]);
    assert_eq!(Column::Tabs(vec![6, 7]).windows(), vec![6, 7]);
    let stack = Column::Stack(vec![StackItem::Tabs(vec![8, 9]), StackItem::Single(3)]);
    assert_eq!(stack.windows(), vec![8, 9, 3]);
    assert_eq!(stack.top(), Some(8));
    assert_eq!(Column::Tabs(vec![]).top(), None);
}

#[test]
fn row_holds_what_it_lays_out_and_what_it_sets_aside() {
    let strip = LayoutStrip {
        id: 1,
        virtual_index: 0,
        columns: vec![Column::Single(4), Column::Tabs(vec![6, 7])],
        detached: vec![2],
    };
    assert_eq!(strip.all_windows(), vec![4, 6, 7]);
    assert_eq!(strip.held_windows(), vec![4, 6, 7, 2]);
}
