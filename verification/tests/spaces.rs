use paneru::layout::LayoutStrip;
use paneru::spaces::{
    active_workspace_id, live_space_windows, spaces_to_ask, still_on_space, strip_visibility,
    QueryRow, ReadError, Reply, Step,
};
use paneru::world::{Window, Windows};
use std::collections::HashSet;

fn row(id: u64, active: bool, selected: bool) -> QueryRow {
    QueryRow {
        parent: 1,
        strip: LayoutStrip { id, virtual_index: 0, columns: vec![], detached: vec![] },
        active,
        selected,
    }
}

fn error(message: &str) -> ReadError {
    ReadError { message: message.to_string() }
}

fn window(entity: u64, id: i32) -> Window {
    Window {
        entity,
        id,
        pid: None,
        title: None,
        identifier: None,
        role: None,
        subrole: None,
        parent: None,
        unmanaged: None,
        frame: None,
        width_ratio: None,
    }
}

fn ask(strips: &Vec<(u64, bool)>, replies: Vec<Reply>) -> Option<u64> {
    match live_space_windows(strips, &replies) {
        Step::Ask(id) => Some(id),
        _ => None,
    }
}

#[test]
fn rows_that_show() {
    let rows = vec![
        row(3, false, true),
        row(4, false, true),
        row(4, true, false),
        row(5, false, false),
        row(4, false, true),
    ];
    assert_eq!(active_workspace_id(&rows), Some(4));
    assert_eq!(
        strip_visibility(&rows),
        vec![(3, true), (4, false), (4, true), (5, false), (4, false)]
    );
}

#[test]
fn every_selected_row_shows_where_none_is_active() {
    let rows = vec![row(3, false, true), row(3, false, true), row(4, false, false)];
    assert_eq!(active_workspace_id(&rows), None);
    assert_eq!(strip_visibility(&rows), vec![(3, true), (3, true), (4, false)]);
}

#[test]
fn spaces_are_asked_about_once() {
    let strips = vec![(3, true), (4, false), (5, true), (3, true), (4, true)];
    assert_eq!(spaces_to_ask(&strips), vec![3, 5, 4]);
    assert_eq!(ask(&strips, vec![]), Some(3));
    assert_eq!(ask(&strips, vec![Ok(vec![1])]), Some(5));
    assert_eq!(ask(&strips, vec![Ok(vec![1]), Ok(vec![])]), Some(4));
    assert_eq!(ask(&strips, vec![Ok(vec![1]), Ok(vec![]), Ok(vec![])]), None);
}

#[test]
fn answers_are_kept_by_space() {
    let strips = vec![(3, true), (4, false), (5, true)];
    match live_space_windows(&strips, &vec![Ok(vec![9, 8, 9]), Ok(vec![7])]) {
        Step::Ready(live) => {
            assert_eq!(live.get(3), Some(&vec![9, 8]));
            assert_eq!(live.get(5), Some(&vec![7]));
            assert_eq!(live.get(4), None);
        }
        _ => panic!("all answers were given"),
    }
}

#[test]
fn nothing_is_asked_where_nothing_shows() {
    match live_space_windows(&vec![(3, false)], &vec![]) {
        Step::Ready(live) => assert_eq!(live.get(3), None),
        _ => panic!("nothing was to be asked"),
    }
}

#[test]
fn first_error_is_told() {
    let strips = vec![(3, true), (5, true), (6, true)];
    match live_space_windows(&strips, &vec![Ok(vec![]), Err(error("space 5"))]) {
        Step::Failed(failure) => assert_eq!(failure, error("space 5")),
        _ => panic!("a space could not be read"),
    }
    match live_space_windows(&strips, &vec![Err(error("space 3")), Err(error("space 5"))]) {
        Step::Failed(failure) => assert_eq!(failure.message, "space 3"),
        _ => panic!("a space could not be read"),
    }
}

#[test]
fn answers_beyond_the_last_question_are_ignored() {
    match live_space_windows(&vec![(3, true)], &vec![Ok(vec![1]), Err(error("late"))]) {
        Step::Ready(live) => assert_eq!(live.get(3), Some(&vec![1])),
        _ => panic!("all answers were given"),
    }
}

#[test]
fn claims_are_checked_against_the_space() {
    let windows = Windows { all: vec![window(10, 1), window(20, 2)], focused: None };
    assert!(still_on_space(None, 10, &windows));
    assert!(still_on_space(None, 99, &windows));
    let live = HashSet::from([5, 1]);
    assert!(still_on_space(Some(&live), 10, &windows));
    assert!(!still_on_space(Some(&live), 20, &windows));
    assert!(!still_on_space(Some(&live), 99, &windows));
}

#[test]
fn windows_of_a_space_are_listed_once_and_looked_up() {
    let strips = vec![(7, true), (8, false)];
    let live = match live_space_windows(&strips, &vec![Ok(vec![4, 2, 4, 9, 2])]) {
        Step::Ready(live) => live,
        _ => panic!("not ready"),
    };
    assert_eq!(live.get(7), Some(&vec![4, 2, 9]));
    assert_eq!(live.ids(7), Some(&HashSet::from([2, 4, 9])));
    assert_eq!(live.get(8), None);
    assert_eq!(live.ids(8), None);
}
