use std::collections::VecDeque;

use cterm::daemon::service::CursorStyle;
use cterm::ui::frame::{paint_frame, CursorFacts, Frame, ImageFacts, Paint};
use cterm::ui::render::{
    cell_decorations, cell_paint, check_image, frontend_palette, parse_rgb, screen_background,
    sprite_runs, CellFacts, DecorationFacts, ImageCheck, Palette, Rgb, SpriteRun, UnderlineStyle,
};
use cterm::ui::stream::{
    drop_text, effects_of_output, event_step, focus_report, next_step, pane_visibility,
    paste_text, reader_step, rescaled, resized, streams_input, update_window_visibility,
    DaemonCommand, DaemonEvent, DaemonStep, Effect, EventStep, PreeditState, ReaderAction,
    ReaderPhase, TerminalEvent, TerminalSize, VisibilityUpdate, WindowVisibility,
};

#[test]
fn pastes_are_bracketed_on_request() {
    assert_eq!(paste_text("a", true), "\u{1b}[200~a\u{1b}[201~");
    assert_eq!(paste_text("a", false), "a");
    assert_eq!(drop_text("a", true, true), "\u{1b}[200~a\u{1b}[201~");
    assert_eq!(drop_text("a", false, true), "a");
    assert_eq!(focus_report(true, true), Some("\u{1b}[I"));
    assert_eq!(focus_report(true, false), Some("\u{1b}[O"));
    assert_eq!(focus_report(false, true), None);
}

#[test]
fn sizes_are_told_once_a_cell_fits() {
    assert_eq!(resized(0, 24, 640, 480), None);
    let (local, remote) = resized(80, 24, 70_000, 0).unwrap();
    assert_eq!(
        local,
        TerminalSize { cols: 80, rows: 24, pixel_width: 65_535, pixel_height: 1 }
    );
    assert_eq!(
        remote,
        TerminalSize { cols: 80, rows: 24, pixel_width: 70_000, pixel_height: 1 }
    );
    assert_eq!(
        rescaled(80, 24, 640, 480),
        Some(TerminalSize { cols: 80, rows: 24, pixel_width: 640, pixel_height: 480 })
    );
    assert_eq!(rescaled(80, 0, 640, 480), None);
}

#[test]
fn visibility_is_told_when_it_changes() {
    assert_eq!(pane_visibility(true, true), WindowVisibility::Visible);
    assert_eq!(pane_visibility(true, false), WindowVisibility::Hidden);
    assert_eq!(
        update_window_visibility(WindowVisibility::Visible, WindowVisibility::Visible, true),
        VisibilityUpdate::Unchanged
    );
    assert_eq!(
        update_window_visibility(WindowVisibility::Visible, WindowVisibility::Hidden, true),
        VisibilityUpdate::Daemon(WindowVisibility::Hidden)
    );
    assert_eq!(
        update_window_visibility(WindowVisibility::Visible, WindowVisibility::Hidden, false),
        VisibilityUpdate::Local(WindowVisibility::Hidden)
    );
}

fn waiting() -> VecDeque<DaemonCommand<()>> {
    VecDeque::from(vec![
        DaemonCommand::Write(b"a".to_vec()),
        DaemonCommand::Write(b"bc".to_vec()),
        DaemonCommand::ClearAlert,
        DaemonCommand::Write(b"d".to_vec()),
        DaemonCommand::Detach,
    ])
}

#[test]
fn input_goes_out_in_batches_and_in_order() {
    let mut commands = waiting();
    assert!(matches!(next_step(&mut commands, false), Some(DaemonStep::Batch(b)) if b == b"abc"));
    assert!(matches!(
        next_step(&mut commands, false),
        Some(DaemonStep::Call(DaemonCommand::ClearAlert))
    ));
    assert!(matches!(next_step(&mut commands, false), Some(DaemonStep::Batch(b)) if b == b"d"));
    assert!(matches!(
        next_step(&mut commands, false),
        Some(DaemonStep::Last(DaemonCommand::Detach))
    ));
    assert!(next_step(&mut commands, false).is_none());
    let mut commands = waiting();
    assert!(matches!(next_step(&mut commands, true), Some(DaemonStep::Stream(b)) if b == b"a"));
    assert_eq!(commands.len(), 4);
}

#[test]
fn events_of_a_session_lead_to_steps() {
    assert_eq!(event_step(DaemonEvent::ProcessExited), EventStep::Stop);
    assert_eq!(event_step(DaemonEvent::Bell), EventStep::RingBell);
    assert_eq!(event_step(DaemonEvent::SessionPrompt), EventStep::AskUser);
    assert_eq!(event_step(DaemonEvent::Other), EventStep::Nothing);
}

#[test]
fn output_has_its_effects_in_order() {
    let events = vec![
        TerminalEvent::ContentChanged,
        TerminalEvent::TitleChanged,
        TerminalEvent::ClipboardSet { text: true },
        TerminalEvent::ClipboardSet { text: false },
        TerminalEvent::ClipboardQuery,
        TerminalEvent::DesktopNotification,
        TerminalEvent::Bell,
        TerminalEvent::ProcessExited,
    ];
    assert_eq!(
        effects_of_output(&events, true, 2, true),
        vec![
            Effect::ChangeTitle(1),
            Effect::SetClipboard(2),
            Effect::AnswerClipboard(4),
            Effect::Notify(5),
            Effect::RingBell,
            Effect::RingBell,
            Effect::OfferFile(0),
            Effect::OfferFile(1),
            Effect::Redraw,
        ]
    );
    assert_eq!(
        effects_of_output(&vec![TerminalEvent::ClipboardQuery], false, 0, false),
        vec![]
    );
}

#[test]
fn composed_text_is_drawn_over_the_live_screen() {
    assert!(!PreeditState::idle().is_drawn(0));
    let state = PreeditState::changed("ka".to_string(), 2);
    assert!(state.active);
    assert!(state.is_drawn(0));
    assert!(!state.is_drawn(1));
    assert!(!PreeditState::changed(String::new(), 0).active);
}

const RED: Rgb = Rgb { r: 255, g: 0, b: 0 };

const BLUE: Rgb = Rgb { r: 0, g: 0, b: 255 };

const WHITE: Rgb = Rgb { r: 254, g: 254, b: 254 };

const BLACK: Rgb = Rgb { r: 0, g: 0, b: 0 };

const LINK: Rgb = Rgb { r: 100, g: 149, b: 237 };

const PALETTE: Palette = Palette { foreground: WHITE, background: BLACK, cursor: RED };

#[test]
fn colors_are_read_from_hexadecimal() {
    assert_eq!(parse_rgb("#0db7ed"), Some(Rgb::new(0x0d, 0xb7, 0xed)));
    assert_eq!(parse_rgb("FFffFF"), Some(Rgb::new(255, 255, 255)));
    assert_eq!(parse_rgb("##00ff00"), Some(Rgb::new(0, 255, 0)));
    assert_eq!(parse_rgb("#+1+2+3"), Some(Rgb::new(1, 2, 3)));
    assert_eq!(parse_rgb("#fff"), None);
    assert_eq!(parse_rgb("#gggggg"), None);
    assert_eq!(parse_rgb(""), None);
}

#[test]
fn palettes_take_the_theme_cursor_and_another_background() {
    assert_eq!(
        frontend_palette(PALETTE, BLUE, Some(RED)),
        Palette { foreground: WHITE, background: RED, cursor: BLUE }
    );
    assert_eq!(frontend_palette(PALETTE, RED, None), PALETTE);
    assert_eq!(screen_background(PALETTE, false), BLACK);
    assert_eq!(screen_background(PALETTE, true), WHITE);
}

fn cell() -> CellFacts {
    CellFacts {
        fg: None,
        bg: None,
        inverse: false,
        dim: false,
        hidden: false,
        wide: false,
        wide_spacer: false,
        blank: false,
        hyperlink: false,
        selected: false,
        visible: true,
    }
}

#[test]
fn selected_cells_exchange_their_colors() {
    let plain = cell_paint(&cell(), &PALETTE, false).unwrap();
    assert_eq!((plain.foreground, plain.background), (WHITE, None));
    assert!(plain.draws_text && plain.draws_decorations);
    let colored = CellFacts { fg: Some(RED), bg: Some(BLUE), ..cell() };
    let selected =
        cell_paint(&CellFacts { selected: true, ..colored }, &PALETTE, false).unwrap();
    assert_eq!((selected.foreground, selected.background), (BLUE, Some(RED)));
    let both = CellFacts { selected: true, inverse: true, ..colored };
    let twice = cell_paint(&both, &PALETTE, false).unwrap();
    assert_eq!((twice.foreground, twice.background), (RED, Some(BLUE)));
    let reversed = cell_paint(&cell(), &PALETTE, true).unwrap();
    assert_eq!((reversed.foreground, reversed.background), (BLACK, Some(WHITE)));
}

#[test]
fn cells_show_their_attributes() {
    assert_eq!(cell_paint(&CellFacts { wide_spacer: true, ..cell() }, &PALETTE, false), None);
    let wide = cell_paint(&CellFacts { wide: true, dim: true, ..cell() }, &PALETTE, false).unwrap();
    assert_eq!(wide.columns, 2);
    assert_eq!(wide.foreground, Rgb::new(127, 127, 127));
    let link = cell_paint(&CellFacts { hyperlink: true, ..cell() }, &PALETTE, false).unwrap();
    assert_eq!(link.foreground, LINK);
    let hidden = cell_paint(&CellFacts { hidden: true, ..cell() }, &PALETTE, false).unwrap();
    assert!(!hidden.draws_text && !hidden.draws_decorations);
    let blank = cell_paint(&CellFacts { blank: true, ..cell() }, &PALETTE, false).unwrap();
    assert!(!blank.draws_text && blank.draws_decorations);
}

fn frame() -> Frame {
    Frame {
        rows: vec![
            vec![
                Some(CellFacts { bg: Some(BLUE), wide: true, ..cell() }),
                Some(CellFacts { wide_spacer: true, ..cell() }),
                None,
            ],
            vec![Some(CellFacts { blank: true, ..cell() })],
        ],
        palette: PALETTE,
        reverse_video: false,
        images: vec![
            ImageFacts { row: Some(1), col: 2, width: 1, height: 1, length: 4 },
            ImageFacts { row: None, col: 2, width: 1, height: 1, length: 4 },
            ImageFacts { row: Some(0), col: 2, width: 1, height: 1, length: 3 },
        ],
        cursor: CursorFacts {
            row: 1,
            col: 0,
            style: CursorStyle::Block,
            visible: true,
            over_text: true,
        },
        preedit: PreeditState::changed("k\u{e9}".to_string(), 0),
        scrollback: 10,
        scroll_offset: 0,
    }
}

#[test]
fn a_frame_is_painted_from_the_bottom_up() {
    assert_eq!(
        paint_frame(&frame()),
        vec![
            Paint::Fill(BLACK),
            Paint::Background { row: 0, col: 0, columns: 2, color: BLUE },
            Paint::Text { row: 0, col: 0, color: WHITE },
            Paint::Decorations { row: 0, col: 0, columns: 2, color: WHITE },
            Paint::Decorations { row: 1, col: 0, columns: 1, color: WHITE },
            Paint::Image { index: 0, row: 1, col: 2 },
            Paint::Cursor { row: 1, col: 0, style: CursorStyle::Block, color: RED },
            Paint::CursorText { row: 1, col: 0 },
            Paint::Preedit { row: 1, col: 0, columns: 2 },
            Paint::Scrollbar { strong: false },
        ]
    );
    let mut scrolled = frame();
    scrolled.rows = vec![];
    scrolled.images = vec![];
    scrolled.cursor.visible = false;
    scrolled.scroll_offset = 3;
    scrolled.reverse_video = true;
    assert_eq!(
        paint_frame(&scrolled),
        vec![Paint::Fill(WHITE), Paint::Scrollbar { strong: true }]
    );
}

#[test]
fn underlines_take_their_style_and_color() {
    let facts = DecorationFacts {
        underline: true,
        curly: true,
        dotted: true,
        dashed: false,
        double: true,
        strikethrough: true,
        overline: false,
        hyperlink: false,
        underline_color: Some(BLUE),
    };
    let decorations = cell_decorations(&facts, RED);
    assert_eq!(decorations.underline, Some((UnderlineStyle::Curly, BLUE, true)));
    assert!(decorations.strikethrough && !decorations.overline);
    let link = DecorationFacts { underline: false, curly: false, hyperlink: true, ..facts };
    assert_eq!(
        cell_decorations(&link, RED).underline,
        Some((UnderlineStyle::Dotted, LINK, true))
    );
    let none = DecorationFacts { underline: false, ..facts };
    assert_eq!(cell_decorations(&none, RED).underline, None);
}

#[test]
fn sprites_are_drawn_run_by_run() {
    let bytes = vec![0, 5, 5, 0, 7, 7, 7, 9, 1];
    let run = |row, start, length, alpha| SpriteRun { row, start, length, alpha };
    assert_eq!(
        sprite_runs(&bytes, 4),
        vec![run(0, 1, 2, 5), run(1, 0, 3, 7), run(1, 3, 1, 9)]
    );
    assert_eq!(sprite_runs(&vec![], 3), vec![]);
}

#[test]
fn images_must_have_all_their_bytes() {
    assert_eq!(check_image(2, 3, 24), ImageCheck::Fits);
    assert_eq!(check_image(2, 3, 23), ImageCheck::InvalidData);
    assert_eq!(check_image(1 << 31, 1, 0), ImageCheck::TooWide);
    assert_eq!(check_image(1, 1 << 31, 0), ImageCheck::TooTall);
}

fn reader_actions(outcomes: &[bool], snapshot: bool) -> Vec<ReaderAction> {
    let mut phase = ReaderPhase::Connecting;
    let mut actions = Vec::new();
    for succeeded in outcomes {
        let (next, action) = reader_step(phase, *succeeded, snapshot);
        phase = next;
        actions.push(action);
    }
    actions
}

#[test]
fn a_reader_attaches_before_it_gives_up_the_snapshot() {
    assert_eq!(
        reader_actions(&[true, true, false, false, true, true, true], true),
        vec![
            ReaderAction::Attach,
            ReaderAction::Detach,
            ReaderAction::SetPalette,
            ReaderAction::SetFrontendState,
            ReaderAction::Read,
            ReaderAction::ReportEnd,
            ReaderAction::Nothing,
        ]
    );
    assert_eq!(
        reader_actions(&[true, true], false),
        vec![ReaderAction::Attach, ReaderAction::SetPalette]
    );
}

#[test]
fn a_reader_without_a_session_reports_its_end() {
    assert_eq!(reader_actions(&[false], true), vec![ReaderAction::ReportEnd]);
    assert_eq!(
        reader_actions(&[true, false, true], true),
        vec![ReaderAction::Attach, ReaderAction::ReportEnd, ReaderAction::Nothing]
    );
    assert!(streams_input(true, true));
    assert!(!streams_input(true, false));
    assert!(!streams_input(false, true));
}
