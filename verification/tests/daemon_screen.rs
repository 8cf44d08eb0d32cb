use cterm::daemon::screen::{
    DirtyRow, DirtyRows, FullScreen, Row, ScreenState, ScreenStream, UpdateType,
};

fn row(text: &str) -> Row {
    Row {
        cells: text.bytes().map(|byte| vec![byte]).collect(),
        wrapped: false,
        shell_prompt: false,
        command_start: false,
        command_end: false,
    }
}

fn state(lines: &[&str]) -> ScreenState {
    ScreenState {
        rows: lines.iter().map(|line| row(line)).collect(),
        cursor: vec![0],
        modes: vec![],
        images: vec![],
        extra_cursors: vec![],
    }
}

fn screen(state: ScreenState) -> FullScreen {
    FullScreen {
        cols: 3,
        rows: state.rows.len(),
        state,
        title: "title".to_string(),
        drcs_fonts: vec![vec![1]],
    }
}

fn is_full(update: &UpdateType) -> bool {
    matches!(update, UpdateType::FullScreen(_))
}

#[test]
fn an_incremental_client_gets_the_rows_that_changed() {
    let mut stream =
        ScreenStream::new("s".to_string(), true, &state(&["aaa", "bbb", "ccc", "ddd"]));
    let update = stream.content_changed(screen(state(&["aaa", "bxb", "ccc", "ddd"]))).unwrap();
    assert_eq!(update.session_id, "s");
    assert_eq!(update.sequence, 1);
    assert_eq!(
        update.update_type,
        UpdateType::DirtyRows(DirtyRows {
            rows: vec![DirtyRow { row_index: 1, row: row("bxb") }],
            cursor: None,
            modes: None,
            images: None,
            extra_cursors: None,
        })
    );
}

#[test]
fn parts_that_changed_beside_the_rows_are_sent() {
    let mut stream = ScreenStream::new("s".to_string(), true, &state(&["a", "b", "c"]));
    let mut moved = state(&["a", "b", "c"]);
    moved.cursor = vec![1];
    moved.images = vec![vec![9]];
    assert_eq!(
        stream.content_changed(screen(moved)).unwrap().update_type,
        UpdateType::DirtyRows(DirtyRows {
            rows: vec![],
            cursor: Some(vec![1]),
            modes: None,
            images: Some(vec![vec![9]]),
            extra_cursors: None,
        })
    );
}

#[test]
fn an_unchanged_screen_is_not_sent() {
    let mut stream = ScreenStream::new("s".to_string(), true, &state(&["a", "b"]));
    assert!(stream.content_changed(screen(state(&["a", "b"]))).is_none());
    let update = stream.title_changed("new".to_string());
    assert_eq!(update.sequence, 2);
    assert_eq!(update.update_type, UpdateType::Title("new".to_string()));
}

#[test]
fn a_mostly_changed_screen_is_sent_whole() {
    let mut stream = ScreenStream::new("s".to_string(), true, &state(&["a", "b", "c", "d"]));
    let update = stream.content_changed(screen(state(&["w", "x", "y", "d"]))).unwrap();
    assert!(!is_full(&update.update_type));
    let update = stream.content_changed(screen(state(&["1", "2", "3", "4"]))).unwrap();
    assert!(is_full(&update.update_type));
    assert!(stream.content_changed(screen(state(&["1", "2", "3", "4"]))).is_none());
}

#[test]
fn a_lagging_client_is_sent_everything_once() {
    let mut stream = ScreenStream::new("s".to_string(), true, &state(&["a", "b", "c"]));
    stream.lagged();
    let update = stream.content_changed(screen(state(&["a", "b", "c"]))).unwrap();
    assert_eq!(update.update_type, UpdateType::FullScreen(screen(state(&["a", "b", "c"]))));
    assert!(stream.content_changed(screen(state(&["a", "b", "c"]))).is_none());
}

#[test]
fn a_whole_screen_client_gets_whole_screens() {
    let mut stream = ScreenStream::new("s".to_string(), false, &state(&["a"]));
    for sequence in 1..3 {
        let update = stream.content_changed(screen(state(&["a"]))).unwrap();
        assert_eq!(update.sequence, sequence);
        assert!(is_full(&update.update_type));
    }
}
