use paneru::clock::now_timestamp;
use paneru::geometry::{Frame, Point, Rect};
use paneru::layout::{Column, LayoutStrip, StackItem};
use paneru::params::QueryStateParams;
use paneru::platform::ProcessSerialNumber;
use paneru::query::{
    PaneruActiveState, PaneruQueryState, PaneruVirtualWorkspaceState, PaneruWindowState,
    QueryState,
};
use paneru::spaces::{QueryRow, ReadError, Reply, Step};
use paneru::windowset::{
    column_kind, ColumnKind, ColumnSet, DisplaySet, WindowRec, WindowSet, WorkspaceSet, FULL_WIDTH,
};
use paneru::world::{Application, Display, Unmanaged, Window, Windows};

fn rect(x0: i32, y0: i32, x1: i32, y1: i32) -> Rect {
    Rect { min: Point { x: x0, y: y0 }, max: Point { x: x1, y: y1 } }
}

/// A managed window in the upper left, whose entity is its number plus 100.
fn window(id: i32) -> Window {
    Window {
        entity: 100 + id as u64,
        id,
        pid: Some(4000),
        title: Some(format!("title {id}")),
        identifier: None,
        role: None,
        subrole: None,
        parent: Some(900),
        unmanaged: None,
        frame: Some(rect(0, 0, 400, 300)),
        width_ratio: None,
    }
}

fn unmanaged(id: i32, why: Unmanaged) -> Window {
    let mut window = window(id);
    window.unmanaged = Some(why);
    window
}

fn row(
    parent: u64,
    id: u64,
    virtual_index: u32,
    columns: Vec<Column>,
    detached: Vec<u64>,
    active: bool,
    selected: bool,
) -> QueryRow {
    QueryRow {
        parent,
        strip: LayoutStrip { id, virtual_index, columns, detached },
        active,
        selected,
    }
}

fn params(workspaces: Vec<QueryRow>, all: Vec<Window>, focused: Option<u64>) -> QueryStateParams {
    QueryStateParams {
        workspaces,
        displays: vec![
            Display { entity: 51, id: 11, bounds: rect(0, 0, 1000, 800), active: false },
            Display { entity: 52, id: 12, bounds: rect(1000, 0, 2500, 900), active: true },
        ],
        windows: Windows { all, focused },
        apps: vec![Application {
            entity: 900,
            psn: ProcessSerialNumber { high: 0, low: 1 },
            bundle_id: Some("com.example.editor".to_string()),
            name: "Editor".to_string(),
        }],
        sliver_width: 5,
    }
}

fn document(params: &QueryStateParams, replies: Vec<Reply>) -> PaneruQueryState {
    match PaneruQueryState::extract_at(
        &params.workspaces,
        &params.displays,
        &params.windows,
        &params.apps,
        &replies,
        params.sliver_width,
        33,
    ) {
        Step::Ready(document) => document,
        other => panic!("not ready: {other:?}"),
    }
}

fn tree(params: &QueryStateParams, replies: Vec<Reply>) -> WindowSet {
    match params.extract_window_set(&replies) {
        Step::Ready(set) => set,
        other => panic!("not ready: {other:?}"),
    }
}

fn state(id: i32) -> PaneruWindowState {
    PaneruWindowState {
        window_id: id,
        bundle_id: "com.example.editor".to_string(),
        app_name: "Editor".to_string(),
        title: format!("title {id}"),
        focused: false,
        floating: false,
        display_id: Some(11),
        frame: Some(Frame { x: 0, y: 0, width: 400, height: 300 }),
        visible: true,
    }
}

fn record(id: i32) -> WindowRec {
    WindowRec {
        id,
        app_name: "Editor".to_string(),
        bundle_id: "com.example.editor".to_string(),
        title: format!("title {id}"),
        frame: Some(Frame { x: 0, y: 0, width: 400, height: 300 }),
        floating: false,
        managed: true,
        visible: true,
        focused: false,
    }
}

fn floating_record(id: i32) -> WindowRec {
    let mut record = record(id);
    record.floating = true;
    record.managed = false;
    record
}

fn listed(document: &PaneruQueryState) -> Vec<(u64, u32, Vec<i32>)> {
    document
        .virtual_workspaces
        .iter()
        .map(|row| {
            let ids = row.windows.iter().map(|window| window.window_id).collect();
            (row.native_workspace_id, row.number, ids)
        })
        .collect()
}

#[test]
fn empty_desktop() {
    let params = params(vec![], vec![], None);
    assert_eq!(
        document(&params, vec![]),
        PaneruQueryState {
            version: 1,
            timestamp: 33,
            active: PaneruActiveState {
                display_id: Some(12),
                native_workspace_id: None,
                virtual_workspace_number: None,
                focused_window_id: None,
                focused_bundle_id: None,
                focused_app_name: None,
                focused_window_title: None,
            },
            virtual_workspaces: vec![],
        }
    );
}

#[test]
fn document_of_one_row() {
    let params = params(
        vec![row(51, 7, 0, vec![Column::Single(101), Column::Tabs(vec![102])], vec![], true, true)],
        vec![window(1), window(2)],
        Some(102),
    );
    let mut focused = state(2);
    focused.focused = true;
    assert_eq!(
        document(&params, vec![Ok(vec![1, 2])]),
        PaneruQueryState {
            version: 1,
            timestamp: 33,
            active: PaneruActiveState {
                display_id: Some(12),
                native_workspace_id: Some(7),
                virtual_workspace_number: Some(1),
                focused_window_id: Some(2),
                focused_bundle_id: Some("com.example.editor".to_string()),
                focused_app_name: Some("Editor".to_string()),
                focused_window_title: Some("title 2".to_string()),
            },
            virtual_workspaces: vec![PaneruVirtualWorkspaceState {
                number: 1,
                native_workspace_id: 7,
                active: true,
                windows: vec![state(1), focused],
            }],
        }
    );
}

#[test]
fn gaps_are_filled_and_rows_go_by_space_and_number() {
    let params = params(
        vec![
            row(51, 8, 3, vec![Column::Single(101)], vec![], false, false),
            row(51, 7, 1, vec![Column::Single(102)], vec![], false, false),
            row(51, 8, 0, vec![], vec![], false, false),
        ],
        vec![window(1), window(2)],
        None,
    );
    let document = document(&params, vec![]);
    assert_eq!(
        listed(&document),
        vec![
            (7, 1, vec![]),
            (7, 2, vec![2]),
            (8, 1, vec![]),
            (8, 2, vec![]),
            (8, 3, vec![]),
            (8, 4, vec![1]),
        ]
    );
    assert!(document.virtual_workspaces.iter().all(|row| !row.active));
}

#[test]
fn rows_of_one_number_keep_their_order() {
    let params = params(
        vec![
            row(51, 7, 0, vec![Column::Single(101)], vec![], false, false),
            row(51, 7, 0, vec![Column::Single(102)], vec![], false, false),
        ],
        vec![window(1), window(2)],
        None,
    );
    assert_eq!(
        listed(&document(&params, vec![])),
        vec![(7, 1, vec![1]), (7, 1, vec![2])]
    );
}

#[test]
fn windows_that_cannot_be_told_are_left_out() {
    let mut orphan = window(2);
    orphan.parent = None;
    let mut stranger = window(3);
    stranger.parent = Some(901);
    let params = params(
        vec![row(51, 7, 0, vec![Column::Tabs(vec![101, 102, 103, 104])], vec![], false, false)],
        vec![window(1), orphan, stranger],
        None,
    );
    assert_eq!(listed(&document(&params, vec![])), vec![(7, 1, vec![1])]);
}

#[test]
fn only_floats_among_the_windows_set_aside_are_listed() {
    let params = params(
        vec![row(51, 7, 0, vec![], vec![101, 102, 103, 104], false, false)],
        vec![
            unmanaged(1, Unmanaged::Floating),
            unmanaged(2, Unmanaged::Minimized),
            unmanaged(3, Unmanaged::Hidden),
            window(4),
        ],
        None,
    );
    assert_eq!(listed(&document(&params, vec![])), vec![(7, 1, vec![1])]);
}

#[test]
fn float_no_row_knows_is_listed_on_the_row_that_shows() {
    let params = params(
        vec![
            row(51, 7, 0, vec![], vec![], false, false),
            row(51, 7, 1, vec![Column::Single(101)], vec![], true, true),
        ],
        vec![window(1), unmanaged(2, Unmanaged::Floating), window(3)],
        None,
    );
    assert_eq!(
        listed(&document(&params, vec![Ok(vec![3, 2, 1, 2, 44])])),
        vec![(7, 1, vec![]), (7, 2, vec![1, 2])]
    );
}

#[test]
fn float_that_a_row_holds_is_not_handed_to_another() {
    let params = params(
        vec![
            row(51, 7, 0, vec![], vec![102], false, false),
            row(51, 7, 1, vec![], vec![], true, true),
        ],
        vec![unmanaged(2, Unmanaged::Floating)],
        None,
    );
    assert_eq!(
        listed(&document(&params, vec![Ok(vec![2])])),
        vec![(7, 1, vec![2]), (7, 2, vec![])]
    );
}

#[test]
fn float_dragged_away_leaves_its_row() {
    let params = params(
        vec![
            row(51, 7, 0, vec![], vec![102], true, true),
            row(52, 8, 0, vec![], vec![], false, true),
        ],
        vec![unmanaged(2, Unmanaged::Floating)],
        None,
    );
    assert_eq!(
        listed(&document(&params, vec![Ok(vec![]), Ok(vec![2])])),
        vec![(7, 1, vec![]), (8, 1, vec![2])]
    );
    assert_eq!(
        listed(&document(&params, vec![Ok(vec![2]), Ok(vec![])])),
        vec![(7, 1, vec![2]), (8, 1, vec![])]
    );
}

#[test]
fn float_dragged_away_leaves_its_column() {
    let column = Column::Stack(vec![StackItem::Single(101), StackItem::Single(102)]);
    let params = params(
        vec![
            row(51, 7, 0, vec![column, Column::Single(103)], vec![], true, true),
            row(52, 8, 0, vec![], vec![], false, true),
        ],
        vec![window(1), unmanaged(2, Unmanaged::Floating), unmanaged(3, Unmanaged::Hidden)],
        None,
    );
    // Dragged to the other space: only that one lists it. A window that does not
    // float stays where it is laid out, whatever the window server lists.
    let away: Vec<Reply> = vec![Ok(vec![1]), Ok(vec![2])];
    assert_eq!(
        listed(&document(&params, away.clone())),
        vec![(7, 1, vec![1, 3]), (8, 1, vec![2])]
    );
    let set = tree(&params, [away.clone(), away].concat());
    let left = &set.displays[0].workspaces[0];
    assert_eq!(left.columns.len(), 2);
    assert_eq!(left.columns[0].windows, vec![record(1)]);
    assert_eq!(left.floating, vec![]);
    assert_eq!(set.displays[1].workspaces[0].floating, vec![floating_record(2)]);
    // Still on the space of its row: its row lists it, and no other.
    let home: Vec<Reply> = vec![Ok(vec![1, 2]), Ok(vec![])];
    assert_eq!(
        listed(&document(&params, home.clone())),
        vec![(7, 1, vec![1, 2, 3]), (8, 1, vec![])]
    );
    let set = tree(&params, [home.clone(), home].concat());
    assert_eq!(set.displays[0].workspaces[0].floating, vec![floating_record(2)]);
    assert_eq!(set.displays[1].workspaces[0].floating, vec![]);
    // Nowhere: nobody lists it.
    let gone: Vec<Reply> = vec![Ok(vec![1]), Ok(vec![])];
    assert_eq!(
        listed(&document(&params, gone.clone())),
        vec![(7, 1, vec![1, 3]), (8, 1, vec![])]
    );
    let set = tree(&params, [gone.clone(), gone].concat());
    assert_eq!(set.displays[0].workspaces[0].floating, vec![]);
    assert_eq!(set.displays[1].workspaces[0].floating, vec![]);
}

#[test]
fn float_laid_out_on_a_space_nobody_asked_about_stays() {
    let params = params(
        vec![
            row(51, 7, 0, vec![Column::Single(102)], vec![], false, false),
            row(52, 8, 0, vec![], vec![], true, true),
        ],
        vec![unmanaged(2, Unmanaged::Floating)],
        None,
    );
    assert_eq!(
        listed(&document(&params, vec![Ok(vec![])])),
        vec![(7, 1, vec![2]), (8, 1, vec![])]
    );
    let set = tree(&params, vec![Ok(vec![]), Ok(vec![])]);
    assert_eq!(set.displays[0].workspaces[0].columns, vec![]);
    assert_eq!(set.displays[0].workspaces[0].floating, vec![floating_record(2)]);
}

#[test]
fn owned_float_is_on_one_row_of_its_space_in_the_tree() {
    let params = params(
        vec![
            row(51, 7, 0, vec![Column::Single(101)], vec![102], false, false),
            row(51, 7, 1, vec![], vec![], true, true),
        ],
        vec![
            unmanaged(1, Unmanaged::Floating),
            unmanaged(2, Unmanaged::Floating),
            unmanaged(3, Unmanaged::Floating),
        ],
        None,
    );
    let set = tree(&params, vec![Ok(vec![1, 2, 3]), Ok(vec![1, 2, 3])]);
    let rows = &set.displays[0].workspaces;
    assert_eq!(rows[0].floating, vec![floating_record(1), floating_record(2)]);
    assert_eq!(rows[1].floating, vec![floating_record(3)]);
}

#[test]
fn owned_float_is_on_one_row_of_its_space_in_the_document() {
    // Two rows of one space show: what one of them owns is not on the other.
    let params = params(
        vec![
            row(51, 7, 0, vec![Column::Single(101)], vec![102], false, true),
            row(51, 7, 1, vec![], vec![], false, true),
        ],
        vec![
            unmanaged(1, Unmanaged::Floating),
            unmanaged(2, Unmanaged::Floating),
            unmanaged(3, Unmanaged::Floating),
        ],
        None,
    );
    assert_eq!(
        listed(&document(&params, vec![Ok(vec![1, 2, 3])])),
        vec![(7, 1, vec![1, 2, 3]), (7, 2, vec![3])]
    );
}

#[test]
fn number_of_a_space_is_listed_once() {
    let params = params(
        vec![
            row(51, 7, 4, vec![], vec![], false, false),
            row(52, 8, 1, vec![], vec![], false, false),
            row(51, 7, 1, vec![], vec![], false, false),
        ],
        vec![],
        None,
    );
    let document = document(&params, vec![]);
    let numbers: Vec<(u64, u32)> = document
        .virtual_workspaces
        .iter()
        .map(|row| (row.native_workspace_id, row.number))
        .collect();
    assert_eq!(numbers, vec![(7, 1), (7, 2), (7, 3), (7, 4), (7, 5), (8, 1), (8, 2)]);
}

#[test]
fn document_and_tree_list_the_same_windows_row_by_row() {
    let params = params(
        vec![
            row(
                51,
                7,
                2,
                vec![Column::Tabs(vec![102, 101]), Column::Single(103), Column::Single(106)],
                vec![104],
                true,
                true,
            ),
            row(52, 8, 0, vec![Column::Single(105)], vec![], false, true),
        ],
        vec![
            window(1),
            unmanaged(2, Unmanaged::Floating),
            unmanaged(3, Unmanaged::Minimized),
            unmanaged(4, Unmanaged::Floating),
            window(5),
            unmanaged(6, Unmanaged::Floating),
            unmanaged(7, Unmanaged::Floating),
        ],
        Some(102),
    );
    let answers: Vec<Reply> = vec![Ok(vec![1, 2, 3, 4, 7]), Ok(vec![6, 5])];
    let document = document(&params, answers.clone());
    let set = tree(&params, [answers.clone(), answers].concat());
    assert_eq!(
        listed(&document),
        vec![
            (7, 1, vec![]),
            (7, 2, vec![]),
            (7, 3, vec![2, 1, 3, 4, 7]),
            (8, 1, vec![5, 6])
        ]
    );
    let mut rows = 0;
    for display in &set.displays {
        for row in &display.workspaces {
            let state = document
                .virtual_workspaces
                .iter()
                .find(|state| {
                    state.native_workspace_id == row.native_id && state.number == row.number
                })
                .unwrap();
            let mut told: Vec<_> = state
                .windows
                .iter()
                .map(|w| (w.window_id, &w.title, w.frame.unwrap().x, w.floating, w.focused, w.visible))
                .collect();
            let mut seen: Vec<_> = row
                .columns
                .iter()
                .flat_map(|column| column.windows.iter())
                .chain(row.floating.iter())
                .map(|w| (w.id, &w.title, w.frame.unwrap().x, w.floating, w.focused, w.visible))
                .collect();
            told.sort();
            seen.sort();
            assert_eq!(told, seen);
            rows += 1;
        }
    }
    assert_eq!(rows, 2);
}

#[test]
fn space_nobody_asked_about_keeps_its_floats() {
    let params = params(
        vec![
            row(51, 7, 0, vec![], vec![102], false, false),
            row(52, 8, 0, vec![], vec![], true, true),
        ],
        vec![unmanaged(2, Unmanaged::Floating)],
        None,
    );
    assert_eq!(
        listed(&document(&params, vec![Ok(vec![])])),
        vec![(7, 1, vec![2]), (8, 1, vec![])]
    );
}

#[test]
fn windows_out_of_sight_are_not_visible() {
    let mut sliver = window(4);
    sliver.frame = Some(rect(-396, 0, 4, 300));
    let mut away = window(5);
    away.frame = Some(rect(5000, 0, 5400, 300));
    let mut shapeless = window(6);
    shapeless.frame = None;
    let params = params(
        vec![row(
            51,
            7,
            0,
            vec![Column::Tabs(vec![101, 102, 103, 104, 105, 106])],
            vec![],
            false,
            false,
        )],
        vec![
            window(1),
            unmanaged(2, Unmanaged::Minimized),
            unmanaged(3, Unmanaged::Hidden),
            sliver,
            away,
            shapeless,
        ],
        None,
    );
    let document = document(&params, vec![]);
    let told: Vec<(i32, Option<u32>, bool)> = document.virtual_workspaces[0]
        .windows
        .iter()
        .map(|window| (window.window_id, window.display_id, window.visible))
        .collect();
    assert_eq!(
        told,
        vec![
            (1, Some(11), true),
            (2, Some(11), false),
            (3, Some(11), false),
            (4, Some(11), false),
            (5, None, false),
            (6, None, false),
        ]
    );
    assert_eq!(document.virtual_workspaces[0].windows[5].frame, None);
}

#[test]
fn focus_on_a_row_not_in_use_is_not_told_as_in_use() {
    let params = params(
        vec![
            row(51, 7, 0, vec![Column::Single(101)], vec![], false, false),
            row(51, 8, 2, vec![], vec![], true, true),
        ],
        vec![window(1)],
        Some(101),
    );
    let document = document(&params, vec![Ok(vec![])]);
    assert_eq!(document.active.native_workspace_id, Some(8));
    assert_eq!(document.active.virtual_workspace_number, Some(3));
    assert_eq!(document.active.focused_window_id, None);
    assert_eq!(document.active.focused_window_title, None);
    assert!(document.virtual_workspaces[0].windows[0].focused);
}

#[test]
fn extract_asks_then_answers_with_the_current_time() {
    let params = params(
        vec![
            row(51, 7, 0, vec![], vec![], true, true),
            row(52, 8, 0, vec![], vec![], false, true),
        ],
        vec![],
        None,
    );
    assert_eq!(params.extract(&vec![]), Step::Ask(7));
    assert_eq!(params.extract(&vec![Ok(vec![])]), Step::Ask(8));
    let earliest = now_timestamp();
    match params.extract(&vec![Ok(vec![]), Ok(vec![])]) {
        Step::Ready(document) => {
            assert!(earliest <= document.timestamp && document.timestamp <= now_timestamp());
            assert_eq!(listed(&document), vec![(7, 1, vec![]), (8, 1, vec![])]);
        }
        other => panic!("not ready: {other:?}"),
    }
}

#[test]
fn space_that_cannot_be_read_fails_the_document() {
    let params = params(
        vec![
            row(51, 7, 0, vec![], vec![], true, true),
            row(52, 8, 0, vec![], vec![], false, true),
        ],
        vec![],
        None,
    );
    let error = ReadError { message: "no such space".to_string() };
    assert_eq!(params.extract(&vec![Err(error.clone())]), Step::Failed(error.clone()));
    let step: Step<PaneruQueryState> = <PaneruQueryState as QueryState>::extract(
        &params.workspaces,
        &params.displays,
        &params.windows,
        &params.apps,
        &vec![Ok(vec![]), Err(error.clone())],
        5,
    );
    assert_eq!(step, Step::Failed(error));
}

#[test]
fn windows_are_at_hand() {
    let params = params(vec![], vec![window(1)], Some(101));
    assert_eq!(params.windows().get(101).map(|window| window.id), Some(1));
    assert_eq!(params.windows().find(1).map(|window| window.entity), Some(101));
    assert_eq!(params.windows().find_parent(1), Some(900));
    assert_eq!(params.windows().find_parent(2), None);
    assert!(!params.windows().is_floating(101));
}

#[test]
fn column_kinds() {
    assert_eq!(column_kind(&Column::Single(1)), ColumnKind::Single);
    assert_eq!(column_kind(&Column::Stack(vec![])), ColumnKind::Stack);
    assert_eq!(column_kind(&Column::Tabs(vec![])), ColumnKind::Tabs);
    assert_eq!(column_kind(&Column::Fullscreen(1)), ColumnKind::Fullscreen);
}

#[test]
fn full_width_is_one() {
    assert_eq!(f64::from_bits(FULL_WIDTH), 1.0);
}

#[test]
fn tree_of_the_desktop() {
    let mut narrow = window(3);
    narrow.width_ratio = Some(0.25_f64.to_bits());
    let params = params(
        vec![
            row(51, 7, 1, vec![Column::Single(101)], vec![], true, true),
            row(
                51,
                7,
                0,
                vec![
                    Column::Stack(vec![StackItem::Single(104), StackItem::Single(102)]),
                    Column::Tabs(vec![105]),
                    Column::Stack(vec![
                        StackItem::Single(104),
                        StackItem::Single(102),
                        StackItem::Single(103),
                    ]),
                ],
                vec![106, 107],
                false,
                false,
            ),
            row(99, 9, 0, vec![Column::Single(101)], vec![], false, false),
        ],
        vec![
            window(1),
            window(2),
            narrow,
            unmanaged(4, Unmanaged::Floating),
            unmanaged(5, Unmanaged::Floating),
            unmanaged(6, Unmanaged::Floating),
            unmanaged(7, Unmanaged::Hidden),
            unmanaged(8, Unmanaged::Floating),
        ],
        Some(101),
    );
    let mut focused = record(1);
    focused.focused = true;
    let answers = vec![Ok(vec![1, 2, 3, 4, 5, 6]), Ok(vec![6, 8, 1])];
    assert_eq!(
        tree(&params, answers),
        WindowSet {
            displays: vec![
                DisplaySet {
                    id: 11,
                    frame: Frame { x: 0, y: 0, width: 1000, height: 800 },
                    active: false,
                    workspaces: vec![
                        WorkspaceSet {
                            number: 1,
                            native_id: 7,
                            active: false,
                            columns: vec![
                                ColumnSet {
                                    kind: ColumnKind::Stack,
                                    width_ratio: FULL_WIDTH,
                                    selected: 0,
                                    windows: vec![record(2)],
                                },
                                ColumnSet {
                                    kind: ColumnKind::Stack,
                                    width_ratio: 0.25_f64.to_bits(),
                                    selected: 0,
                                    windows: vec![record(2), record(3)],
                                },
                            ],
                            floating: vec![
                                floating_record(4),
                                floating_record(5),
                                floating_record(4),
                                floating_record(6),
                            ],
                        },
                        WorkspaceSet {
                            number: 2,
                            native_id: 7,
                            active: true,
                            columns: vec![ColumnSet {
                                kind: ColumnKind::Single,
                                width_ratio: FULL_WIDTH,
                                selected: 0,
                                windows: vec![focused],
                            }],
                            floating: vec![floating_record(8)],
                        },
                    ],
                },
                DisplaySet {
                    id: 12,
                    frame: Frame { x: 1000, y: 0, width: 1500, height: 900 },
                    active: true,
                    workspaces: vec![],
                },
            ],
            focused: Some(1),
        }
    );
}

#[test]
fn top_of_a_column_is_found_by_its_number() {
    let mut params = params(
        vec![row(51, 7, 0, vec![Column::Tabs(vec![103, 101, 102])], vec![], false, false)],
        vec![window(1), window(2), window(3)],
        None,
    );
    assert_eq!(tree(&params, vec![]).displays[0].workspaces[0].columns[0].selected, 0);
    // Two entities for one window: the first that bears the number counts.
    params.windows.all[2].id = 2;
    params.windows.all[2].unmanaged = Some(Unmanaged::Floating);
    let set = tree(&params, vec![]);
    assert_eq!(set.displays[0].workspaces[0].columns[0].selected, 1);
    assert_eq!(set.displays[0].workspaces[0].columns[0].windows, vec![record(1), record(2)]);
}

#[test]
fn tree_reads_each_shown_row_again() {
    let params = params(
        vec![
            row(51, 7, 0, vec![], vec![], false, true),
            row(51, 7, 1, vec![], vec![], false, true),
            row(52, 8, 0, vec![], vec![], true, true),
        ],
        vec![unmanaged(1, Unmanaged::Floating), unmanaged(2, Unmanaged::Floating)],
        None,
    );
    let mut replies: Vec<Reply> = vec![];
    let mut asked = vec![];
    let set = loop {
        match params.extract_window_set(&replies) {
            Step::Ask(id) => {
                asked.push(id);
                replies.push(Ok(if asked.len() == 4 { vec![2] } else { vec![1, 1] }));
            }
            Step::Ready(set) => break set,
            Step::Failed(error) => panic!("{error:?}"),
        }
    };
    assert_eq!(asked, vec![7, 8, 7, 7, 8]);
    let rows = &set.displays[0].workspaces;
    assert_eq!(rows[0].floating, vec![floating_record(1), floating_record(1)]);
    assert_eq!(rows[1].floating, vec![floating_record(2)]);
    assert_eq!(set.displays[1].workspaces[0].floating.len(), 2);
}

#[test]
fn space_that_cannot_be_read_fails_the_tree() {
    let params = params(vec![row(51, 7, 0, vec![], vec![], true, true)], vec![], None);
    let error = ReadError { message: "gone".to_string() };
    assert_eq!(
        params.extract_window_set(&vec![Ok(vec![]), Err(error.clone())]),
        Step::Failed(error)
    );
}

#[test]
fn document_and_tree_tell_the_same() {
    let params = params(
        vec![row(51, 7, 0, vec![Column::Tabs(vec![101, 102])], vec![], false, false)],
        vec![window(1), unmanaged(2, Unmanaged::Floating)],
        Some(102),
    );
    let document = document(&params, vec![]);
    let set = tree(&params, vec![]);
    let told = &document.virtual_workspaces[0].windows;
    let row = &set.displays[0].workspaces[0];
    for (state, record) in
        told.iter().zip(row.columns[0].windows.iter().chain(row.floating.iter()))
    {
        assert_eq!(state.window_id, record.id);
        assert_eq!(state.title, record.title);
        assert_eq!(state.frame, record.frame);
        assert_eq!(state.floating, record.floating);
        assert_eq!(state.visible, record.visible);
        assert_eq!(state.focused, record.focused);
    }
    assert_eq!(told.len(), 2);
}

#[test]
fn numbers_too_large_to_be_told_are_found() {
    let wide = |id: i32| {
        let mut window = window(id);
        window.frame = Some(rect(i32::MIN, 0, 1, 300));
        window
    };
    let shown = |columns: Vec<Column>| vec![row(51, 1, 0, columns, vec![], true, true)];
    let answer: Vec<Reply> = vec![Ok(vec![1]), Ok(vec![1])];

    // A window that no row lists does not matter.
    let aside = params(shown(vec![Column::Single(101)]), vec![window(1), wide(2)], None);
    assert!(aside.can_extract(&answer));
    assert!(aside.can_extract_window_set(&answer));
    assert_eq!(listed(&document(&aside, vec![Ok(vec![1])])), vec![(1, 1, vec![1])]);
    assert_eq!(tree(&aside, answer.clone()).displays[0].workspaces[0].columns.len(), 1);

    // One that a row lays out does, once the answers are there.
    let laid_out = params(shown(vec![Column::Single(101)]), vec![wide(1)], None);
    assert!(laid_out.can_extract(&vec![]));
    assert!(matches!(laid_out.extract(&vec![]), Step::Ask(1)));
    assert!(!laid_out.can_extract(&answer));
    assert!(laid_out.can_extract_window_set(&vec![Ok(vec![1])]));
    assert!(!laid_out.can_extract_window_set(&answer));

    // So does a float that the window server lists.
    let mut float = wide(1);
    float.unmanaged = Some(Unmanaged::Floating);
    let float = params(shown(vec![]), vec![float], None);
    assert!(!float.can_extract(&answer));
    assert!(!float.can_extract_window_set(&answer));
    assert!(float.can_extract_window_set(&vec![Ok(vec![1]), Ok(vec![])]));

    // A window of an unknown application is not told at all.
    let mut stranger = wide(1);
    stranger.parent = None;
    let stranger = params(shown(vec![Column::Single(101)]), vec![stranger], None);
    assert!(stranger.can_extract(&answer));
    assert!(stranger.can_extract_window_set(&answer));

    // A row beyond the last number, and a display that is too wide.
    let last = params(vec![row(51, 1, u32::MAX, vec![], vec![], false, false)], vec![], None);
    assert!(!last.can_extract(&vec![]));
    assert!(!last.can_extract_window_set(&vec![]));
    let mut screen = params(vec![], vec![], None);
    screen.displays[0].bounds = rect(0, i32::MIN, 10, 0);
    assert!(screen.can_extract(&vec![]));
    assert!(!screen.can_extract_window_set(&vec![]));
}
