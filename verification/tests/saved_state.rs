use paneru::clock::{now_timestamp, timestamp_of};
use paneru::geometry::{Point, Rect};
use paneru::layout::{Column, LayoutStrip, StackItem};
use paneru::platform::ProcessSerialNumber;
use paneru::saved::{
    PaneruState, SavedColumn, SavedDisplay, SavedRect, SavedStackItem, SavedStrip, SavedWindow,
    SavedWorkspace,
};
use paneru::saving::{StripRow, SUPPORTED_STATE_VERSION};
use paneru::world::{Application, Display, Unmanaged, Window, Windows};

fn rect(x0: i32, y0: i32, x1: i32, y1: i32) -> Rect {
    Rect { min: Point { x: x0, y: y0 }, max: Point { x: x1, y: y1 } }
}

fn app() -> Application {
    Application {
        entity: 900,
        psn: ProcessSerialNumber { high: 1, low: 7 },
        bundle_id: Some("com.example.editor".to_string()),
        name: "Editor".to_string(),
    }
}

/// A window whose entity is its number plus 100.
fn window(id: i32) -> Window {
    Window {
        entity: 100 + id as u64,
        id,
        pid: Some(4000),
        title: Some(format!("title {id}")),
        identifier: None,
        role: Some("AXWindow".to_string()),
        subrole: None,
        parent: Some(900),
        unmanaged: None,
        frame: None,
        width_ratio: None,
    }
}

fn saved(id: i32) -> SavedWindow {
    SavedWindow {
        window_id: id,
        pid: 4000,
        psn: ProcessSerialNumber { high: 1, low: 7 },
        bundle_id: "com.example.editor".to_string(),
        title: format!("title {id}"),
        identifier: String::new(),
        role: "AXWindow".to_string(),
        subrole: String::new(),
    }
}

fn windows(all: Vec<Window>) -> Windows {
    Windows { all, focused: None }
}

fn row(
    parent: Option<u64>,
    id: u64,
    virtual_index: u32,
    columns: Vec<Column>,
    detached: Vec<u64>,
    active: bool,
) -> StripRow {
    StripRow { parent, strip: LayoutStrip { id, virtual_index, columns, detached }, active }
}

fn display(entity: u64, id: u32, active: bool) -> Display {
    Display { entity, id, bounds: rect(0, 0, 1920, 1080), active }
}

#[test]
fn rectangle_is_saved_corner_by_corner() {
    assert_eq!(
        SavedRect::from(rect(-5, 3, 1915, 1083)),
        SavedRect { min_x: -5, min_y: 3, max_x: 1915, max_y: 1083 }
    );
}

#[test]
fn hard_match_needs_all_three() {
    let window = saved(3);
    assert!(window.hard_match(3, 4000, "com.example.editor"));
    assert!(!window.hard_match(4, 4000, "com.example.editor"));
    assert!(!window.hard_match(3, 4001, "com.example.editor"));
    assert!(!window.hard_match(3, 4000, "com.example.mailer"));
    assert!(!window.hard_match(3, 4000, ""));
}

#[test]
fn window_is_saved_with_its_application() {
    assert_eq!(
        SavedWindow::from_entity(103, &windows(vec![window(1), window(3)]), &vec![app()]),
        Some(saved(3))
    );
}

#[test]
fn missing_texts_are_saved_empty() {
    let mut quiet = window(3);
    quiet.title = None;
    quiet.role = None;
    let mut nameless = app();
    nameless.bundle_id = None;
    let mut expected = saved(3);
    expected.title = String::new();
    expected.role = String::new();
    expected.bundle_id = String::new();
    assert_eq!(
        SavedWindow::from_entity(103, &windows(vec![quiet]), &vec![nameless]),
        Some(expected)
    );
}

#[test]
fn unknown_window_is_not_saved() {
    assert_eq!(SavedWindow::from_entity(104, &windows(vec![window(3)]), &vec![app()]), None);
}

#[test]
fn window_of_unknown_application_is_not_saved() {
    assert_eq!(SavedWindow::from_entity(103, &windows(vec![window(3)]), &vec![]), None);
    let mut orphan = window(3);
    orphan.parent = None;
    assert_eq!(SavedWindow::from_entity(103, &windows(vec![orphan]), &vec![app()]), None);
}

#[test]
fn window_of_unknown_process_is_not_saved() {
    let mut gone = window(3);
    gone.pid = None;
    assert_eq!(SavedWindow::from_entity(103, &windows(vec![gone]), &vec![app()]), None);
}

#[test]
fn empty_desktop_is_saved_empty() {
    let state = PaneruState::extract_at(&vec![], &vec![], &windows(vec![]), &vec![], 5);
    assert_eq!(
        state,
        PaneruState {
            version: 2,
            timestamp: 5,
            active_display_id: None,
            displays: vec![],
            workspaces: vec![],
        }
    );
}

fn sample_rows() -> Vec<StripRow> {
    vec![
        row(
            Some(51),
            7,
            2,
            vec![
                Column::Single(101),
                Column::Stack(vec![
                    StackItem::Single(102),
                    StackItem::Tabs(vec![103, 199]),
                    StackItem::Tabs(vec![199]),
                ]),
            ],
            vec![],
            false,
        ),
        row(None, 8, 0, vec![Column::Fullscreen(104)], vec![], true),
        row(
            Some(51),
            7,
            0,
            vec![
                Column::Tabs(vec![105, 106]),
                Column::Tabs(vec![199]),
                Column::Stack(vec![StackItem::Single(199)]),
                Column::Single(199),
            ],
            vec![107, 108, 109],
            true,
        ),
        row(Some(52), 8, 1, vec![], vec![], false),
        row(Some(52), 9, 0, vec![], vec![], false),
    ]
}

fn sample_windows() -> Windows {
    let mut all: Vec<Window> = (1..=9).map(window).collect();
    all[6].unmanaged = Some(Unmanaged::Floating);
    all[7].unmanaged = Some(Unmanaged::Minimized);
    all[8].unmanaged = Some(Unmanaged::Hidden);
    windows(all)
}

fn sample_state(timestamp: u64) -> PaneruState {
    PaneruState {
        version: 2,
        timestamp,
        active_display_id: Some(12),
        displays: vec![
            SavedDisplay {
                display_id: 11,
                bounds: SavedRect { min_x: 0, min_y: 0, max_x: 1920, max_y: 1080 },
                active: false,
                workspace_ids: vec![7],
            },
            SavedDisplay {
                display_id: 12,
                bounds: SavedRect { min_x: 0, min_y: 0, max_x: 1920, max_y: 1080 },
                active: true,
                workspace_ids: vec![8, 9],
            },
        ],
        workspaces: vec![
            SavedWorkspace {
                workspace_id: 7,
                display_id: Some(11),
                active_virtual_index: Some(0),
                strips: vec![
                    SavedStrip {
                        virtual_index: 0,
                        columns: vec![SavedColumn::Tabs(vec![saved(5), saved(6)])],
                        floating: vec![saved(7)],
                    },
                    SavedStrip {
                        virtual_index: 2,
                        columns: vec![
                            SavedColumn::Single(saved(1)),
                            SavedColumn::Stack(vec![
                                SavedStackItem::Single(saved(2)),
                                SavedStackItem::Tabs(vec![saved(3)]),
                            ]),
                        ],
                        floating: vec![],
                    },
                ],
            },
            SavedWorkspace {
                workspace_id: 8,
                display_id: Some(12),
                active_virtual_index: Some(0),
                strips: vec![
                    SavedStrip {
                        virtual_index: 0,
                        columns: vec![SavedColumn::Fullscreen(saved(4))],
                        floating: vec![],
                    },
                    SavedStrip { virtual_index: 1, columns: vec![], floating: vec![] },
                ],
            },
            SavedWorkspace {
                workspace_id: 9,
                display_id: Some(12),
                active_virtual_index: None,
                strips: vec![SavedStrip { virtual_index: 0, columns: vec![], floating: vec![] }],
            },
        ],
    }
}

fn sample_displays() -> Vec<Display> {
    vec![display(51, 11, false), display(52, 12, true)]
}

#[test]
fn desktop_is_saved_space_by_space() {
    let state = PaneruState::extract_at(
        &sample_rows(),
        &sample_displays(),
        &sample_windows(),
        &vec![app()],
        77,
    );
    assert_eq!(state, sample_state(77));
}

#[test]
fn extract_stamps_the_current_time() {
    let earliest = now_timestamp();
    let state =
        PaneruState::extract(&sample_rows(), &sample_displays(), &sample_windows(), &vec![app()]);
    let latest = now_timestamp();
    assert!(earliest <= state.timestamp && state.timestamp <= latest);
    assert!(state.timestamp > 1_600_000_000);
    let timestamp = state.timestamp;
    assert_eq!(state, sample_state(timestamp));
}

#[test]
fn clock_before_the_epoch_is_stamped_zero() {
    assert_eq!(timestamp_of(None), 0);
    assert_eq!(timestamp_of(Some(12)), 12);
}

#[test]
fn rows_of_one_index_keep_their_order() {
    let rows = vec![
        row(None, 7, 1, vec![Column::Single(101)], vec![], false),
        row(None, 7, 0, vec![Column::Single(102)], vec![], false),
        row(None, 7, 1, vec![Column::Single(103)], vec![], false),
        row(None, 7, 0, vec![Column::Single(104)], vec![], false),
    ];
    let state = PaneruState::extract_at(&rows, &vec![], &sample_windows(), &vec![app()], 0);
    let columns: Vec<&SavedColumn> =
        state.workspaces[0].strips.iter().map(|strip| &strip.columns[0]).collect();
    assert_eq!(
        columns,
        vec![
            &SavedColumn::Single(saved(2)),
            &SavedColumn::Single(saved(4)),
            &SavedColumn::Single(saved(1)),
            &SavedColumn::Single(saved(3)),
        ]
    );
}

#[test]
fn last_active_row_of_a_space_counts() {
    let rows = vec![
        row(None, 7, 3, vec![], vec![], true),
        row(None, 7, 1, vec![], vec![], true),
        row(None, 7, 2, vec![], vec![], false),
    ];
    let state = PaneruState::extract_at(&rows, &vec![], &sample_windows(), &vec![], 0);
    assert_eq!(state.workspaces[0].active_virtual_index, Some(1));
}

#[test]
fn first_known_display_of_a_space_counts() {
    let rows = vec![
        row(None, 7, 0, vec![], vec![], false),
        row(Some(99), 7, 1, vec![], vec![], false),
        row(Some(52), 7, 2, vec![], vec![], false),
        row(Some(51), 7, 3, vec![], vec![], false),
    ];
    let state =
        PaneruState::extract_at(&rows, &sample_displays(), &sample_windows(), &vec![], 0);
    assert_eq!(state.workspaces[0].display_id, Some(12));
}

#[test]
fn saved_windows_are_found_again() {
    let state = sample_state(0);
    let find = |id: i32| state.find_match(id, 4000, "com.example.editor");
    assert_eq!(find(1), Some((7, 2, 0, saved(1))));
    assert_eq!(find(2), Some((7, 2, 1, saved(2))));
    assert_eq!(find(3), Some((7, 2, 1, saved(3))));
    assert_eq!(find(4), Some((8, 0, 0, saved(4))));
    assert_eq!(find(5), Some((7, 0, 0, saved(5))));
    assert_eq!(find(6), Some((7, 0, 0, saved(6))));
}

#[test]
fn window_taken_down_is_found_under_its_own_space_and_row() {
    let rows = vec![
        row(Some(51), 8, 1, vec![Column::Tabs(vec![104])], vec![], false),
        row(
            Some(51),
            7,
            3,
            vec![
                Column::Single(199),
                Column::Stack(vec![StackItem::Single(101), StackItem::Tabs(vec![102, 103])]),
                Column::Fullscreen(105),
            ],
            vec![],
            true,
        ),
    ];
    let state = PaneruState::extract_at(
        &rows,
        &vec![display(51, 11, true)],
        &windows((1..=5).map(window).collect()),
        &vec![app()],
        12,
    );
    let find = |id: i32| state.find_match(id, 4000, "com.example.editor");
    assert_eq!(find(1), Some((7, 3, 0, saved(1))));
    assert_eq!(find(3), Some((7, 3, 0, saved(3))));
    assert_eq!(find(4), Some((8, 1, 0, saved(4))));
    assert_eq!(find(5), Some((7, 3, 1, saved(5))));
}

#[test]
fn what_does_not_match_is_not_found() {
    let state = sample_state(0);
    assert_eq!(state.find_match(10, 4000, "com.example.editor"), None);
    assert_eq!(state.find_match(1, 4001, "com.example.editor"), None);
    assert_eq!(state.find_match(1, 4000, "com.example.mailer"), None);
}

#[test]
fn floats_are_not_matched_to_a_column() {
    assert_eq!(sample_state(0).find_match(7, 4000, "com.example.editor"), None);
}

#[test]
fn first_of_several_matches_counts() {
    let mut state = sample_state(0);
    let mut twin = saved(1);
    twin.title = "twin".to_string();
    state.workspaces[1].strips[1].columns.push(SavedColumn::Single(twin.clone()));
    assert_eq!(
        state.find_match(1, 4000, "com.example.editor"),
        Some((7, 2, 0, saved(1)))
    );
    state.workspaces[0].strips[0].columns.push(SavedColumn::Single(twin.clone()));
    assert_eq!(state.find_match(1, 4000, "com.example.editor"), Some((7, 0, 1, twin)));
}

#[test]
fn only_the_written_layout_is_read_back() {
    assert_eq!(SUPPORTED_STATE_VERSION, 2);
    assert_eq!(sample_state(1).if_supported(), Some(sample_state(1)));
    let mut older = sample_state(1);
    older.version = 1;
    assert_eq!(older.if_supported(), None);
    let mut newer = sample_state(1);
    newer.version = 3;
    assert_eq!(newer.if_supported(), None);
}
