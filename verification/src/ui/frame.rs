//! One frame of a terminal: what is drawn, and in which order.
//!
//! Places are counted in cells; how large a cell is only the drawing surface
//! knows.

use crate::daemon::service::CursorStyle;
use crate::text::chars_of;
use crate::ui::render::{
    cell_look, cell_paint, check_image, filling, image_verdict, screen_background, CellFacts,
    ImageCheck, Palette, Rgb,
};
use crate::ui::stream::PreeditState;
use vstd::prelude::*;

verus! {

/// An image that may stand on the screen.
#[derive(Clone, Copy, Debug, PartialEq, Eq, Structural)]
pub struct ImageFacts {
    /// The visible row at which it starts, where there is one.
    pub row: Option<usize>,
    pub col: usize,
    pub width: usize,
    pub height: usize,
    /// How many bytes its data has.
    pub length: usize,
}

/// The cursor.
#[derive(Clone, Copy, Debug, PartialEq, Eq, Structural)]
pub struct CursorFacts {
    pub row: usize,
    pub col: usize,
    pub style: CursorStyle,
    pub visible: bool,
    /// It stands on a cell whose text is shown.
    pub over_text: bool,
}

/// What a frame shows.
#[derive(Debug)]
pub struct Frame {
    /// The visible cells, row by row. A cell may be missing.
    pub rows: Vec<Vec<Option<CellFacts>>>,
    pub palette: Palette,
    pub reverse_video: bool,
    pub images: Vec<ImageFacts>,
    pub cursor: CursorFacts,
    pub preedit: PreeditState,
    /// How many lines are kept above the screen.
    pub scrollback: usize,
    /// How many of them the view is scrolled up.
    pub scroll_offset: usize,
}

/// One thing that is drawn.
#[derive(Clone, Copy, Debug, PartialEq, Eq, Structural)]
pub enum Paint {
    /// Fill everything.
    Fill(Rgb),
    Background { row: usize, col: usize, columns: u8, color: Rgb },
    /// The text of a cell.
    Text { row: usize, col: usize, color: Rgb },
    /// The lines of a cell.
    Decorations { row: usize, col: usize, columns: u8, color: Rgb },
    /// An image, by its place among the images.
    Image { index: usize, row: usize, col: usize },
    Cursor { row: usize, col: usize, style: CursorStyle, color: Rgb },
    /// The text under a block cursor, in the cursor's text colour.
    CursorText { row: usize, col: usize },
    /// The text that is being composed.
    Preedit { row: usize, col: usize, columns: usize },
    /// The scrollbar, stronger while the view is scrolled up.
    Scrollbar { strong: bool },
}

/// What is drawn for a cell: its background where it has one, its text and its
/// lines.
pub open spec fn cell_paints(
    row: int,
    col: int,
    cell: Option<CellFacts>,
    palette: Palette,
    reverse_video: bool,
) -> Seq<Paint> {
    match cell {
        None => Seq::empty(),
        Some(cell) => match cell_look(cell, palette, reverse_video) {
            None => Seq::empty(),
            Some(look) => (match look.background {
                Some(color) => seq![
                    Paint::Background {
                        row: row as usize,
                        col: col as usize,
                        columns: look.columns,
                        color,
                    },
                ],
                None => Seq::<Paint>::empty(),
            }) + (if look.draws_text {
                seq![Paint::Text { row: row as usize, col: col as usize, color: look.foreground }]
            } else {
                Seq::<Paint>::empty()
            }) + (if look.draws_decorations {
                seq![
                    Paint::Decorations {
                        row: row as usize,
                        col: col as usize,
                        columns: look.columns,
                        color: look.foreground,
                    },
                ]
            } else {
                Seq::<Paint>::empty()
            }),
        },
    }
}

/// What is drawn for the first cells of a row.
pub open spec fn row_paints(
    cells: Seq<Option<CellFacts>>,
    row: int,
    count: int,
    palette: Palette,
    reverse_video: bool,
) -> Seq<Paint>
    decreases count,
{
    if count <= 0 {
        Seq::empty()
    } else {
        row_paints(cells, row, count - 1, palette, reverse_video) + cell_paints(
            row,
            count - 1,
            cells[count - 1],
            palette,
            reverse_video,
        )
    }
}

/// What is drawn for the cells of the first rows.
pub open spec fn grid_paints(
    rows: Seq<Vec<Option<CellFacts>>>,
    count: int,
    palette: Palette,
    reverse_video: bool,
) -> Seq<Paint>
    decreases count,
{
    if count <= 0 {
        Seq::empty()
    } else {
        grid_paints(rows, count - 1, palette, reverse_video) + row_paints(
            rows[count - 1]@,
            count - 1,
            rows[count - 1]@.len() as int,
            palette,
            reverse_video,
        )
    }
}

/// The images among the first ones that are drawn: those that stand on a visible
/// row and can be drawn.
pub open spec fn image_paints(images: Seq<ImageFacts>, count: int) -> Seq<Paint>
    decreases count,
{
    if count <= 0 {
        Seq::empty()
    } else {
        let image = images[count - 1];
        let before = image_paints(images, count - 1);
        match image.row {
            Some(row) => if image_verdict(image.width, image.height, image.length)
                == ImageCheck::Fits {
                before.push(Paint::Image { index: (count - 1) as usize, row, col: image.col })
            } else {
                before
            },
            None => before,
        }
    }
}

/// What is drawn for the cursor.
pub open spec fn cursor_paints(cursor: CursorFacts, palette: Palette) -> Seq<Paint> {
    let shape = Paint::Cursor {
        row: cursor.row,
        col: cursor.col,
        style: cursor.style,
        color: palette.cursor,
    };
    if !cursor.visible {
        Seq::empty()
    } else if cursor.style == CursorStyle::Block && cursor.over_text {
        seq![shape, Paint::CursorText { row: cursor.row, col: cursor.col }]
    } else {
        seq![shape]
    }
}

/// What is drawn over everything else: the text that is being composed, and the
/// scrollbar where there is something to scroll to.
pub open spec fn overlay_paints(frame: Frame) -> Seq<Paint> {
    (if frame.preedit.active && frame.preedit.text@.len() > 0 && frame.scroll_offset == 0 {
        seq![
            Paint::Preedit {
                row: frame.cursor.row,
                col: frame.cursor.col,
                columns: frame.preedit.text@.len() as usize,
            },
        ]
    } else {
        Seq::<Paint>::empty()
    }) + (if frame.scrollback > 0 {
        seq![Paint::Scrollbar { strong: frame.scroll_offset > 0 }]
    } else {
        Seq::<Paint>::empty()
    })
}

/// A whole frame. Images cover the cells beneath them, and the cursor, composed
/// text and the scrollbar cover the images.
pub open spec fn frame_paints(frame: Frame) -> Seq<Paint> {
    seq![Paint::Fill(filling(frame.palette, frame.reverse_video))] + grid_paints(
        frame.rows@,
        frame.rows@.len() as int,
        frame.palette,
        frame.reverse_video,
    ) + image_paints(frame.images@, frame.images@.len() as int) + cursor_paints(
        frame.cursor,
        frame.palette,
    ) + overlay_paints(frame)
}

fn push_cell(
    paints: &mut Vec<Paint>,
    row: usize,
    col: usize,
    cell: Option<CellFacts>,
    palette: &Palette,
    reverse_video: bool,
)
    ensures
        final(paints)@ == old(paints)@ + cell_paints(
            row as int,
            col as int,
            cell,
            *palette,
            reverse_video,
        ),
{
    if let Some(cell) = cell {
        if let Some(look) = cell_paint(&cell, palette, reverse_video) {
            if let Some(color) = look.background {
                paints.push(Paint::Background { row, col, columns: look.columns, color });
            }
            if look.draws_text {
                paints.push(Paint::Text { row, col, color: look.foreground });
            }
            if look.draws_decorations {
                paints.push(
                    Paint::Decorations {
                        row,
                        col,
                        columns: look.columns,
                        color: look.foreground,
                    },
                );
            }
        }
    }
    proof {
        assert(paints@ =~= old(paints)@ + cell_paints(
            row as int,
            col as int,
            cell,
            *palette,
            reverse_video,
        ));
    }
}

fn push_row(
    paints: &mut Vec<Paint>,
    row: usize,
    cells: &Vec<Option<CellFacts>>,
    palette: &Palette,
    reverse_video: bool,
)
    ensures
        final(paints)@ == old(paints)@ + row_paints(
            cells@,
            row as int,
            cells@.len() as int,
            *palette,
            reverse_video,
        ),
{
    let mut col: usize = 0;
    let ghost before = paints@;
    proof {
        assert(before + Seq::<Paint>::empty() =~= before);
    }
    while col < cells.len()
        invariant
            col <= cells@.len(),
            paints@ == before + row_paints(cells@, row as int, col as int, *palette, reverse_video),
        decreases cells@.len() - col,
    {
        push_cell(paints, row, col, cells[col], palette, reverse_video);
        proof {
            let drawn = row_paints(cells@, row as int, col as int, *palette, reverse_video);
            let added = cell_paints(
                row as int,
                col as int,
                cells@[col as int],
                *palette,
                reverse_video,
            );
            assert((before + drawn) + added =~= before + (drawn + added));
        }
        col += 1;
    }
}

/// Plan the drawing of a frame.
pub fn paint_frame(frame: &Frame) -> (paints: Vec<Paint>)
    ensures
        paints@ == frame_paints(*frame),
{
    let mut paints: Vec<Paint> = Vec::new();
    paints.push(Paint::Fill(screen_background(frame.palette, frame.reverse_video)));
    let ghost filled = paints@;
    let mut row: usize = 0;
    proof {
        assert(filled =~= seq![Paint::Fill(filling(frame.palette, frame.reverse_video))]);
        assert(filled + Seq::<Paint>::empty() =~= filled);
    }
    while row < frame.rows.len()
        invariant
            row <= frame.rows@.len(),
            paints@ == filled + grid_paints(
                frame.rows@,
                row as int,
                frame.palette,
                frame.reverse_video,
            ),
        decreases frame.rows@.len() - row,
    {
        push_row(&mut paints, row, &frame.rows[row], &frame.palette, frame.reverse_video);
        proof {
            let drawn = grid_paints(frame.rows@, row as int, frame.palette, frame.reverse_video);
            let added = row_paints(
                frame.rows@[row as int]@,
                row as int,
                frame.rows@[row as int]@.len() as int,
                frame.palette,
                frame.reverse_video,
            );
            assert((filled + drawn) + added =~= filled + (drawn + added));
        }
        row += 1;
    }
    let ghost grid = paints@;
    let mut index: usize = 0;
    proof {
        assert(grid + Seq::<Paint>::empty() =~= grid);
    }
    while index < frame.images.len()
        invariant
            index <= frame.images@.len(),
            paints@ == grid + image_paints(frame.images@, index as int),
        decreases frame.images@.len() - index,
    {
        let image = frame.images[index];
        let ghost drawn = image_paints(frame.images@, index as int);
        if let Some(row) = image.row {
            if check_image(image.width, image.height, image.length) == ImageCheck::Fits {
                let paint = Paint::Image { index, row, col: image.col };
                paints.push(paint);
                proof {
                    assert((grid + drawn).push(paint) =~= grid + drawn.push(paint));
                }
            }
        }
        index += 1;
    }
    let ghost covered = paints@;
    let cursor = frame.cursor;
    if cursor.visible {
        paints.push(
            Paint::Cursor {
                row: cursor.row,
                col: cursor.col,
                style: cursor.style,
                color: frame.palette.cursor,
            },
        );
        if cursor.style == CursorStyle::Block && cursor.over_text {
            paints.push(Paint::CursorText { row: cursor.row, col: cursor.col });
        }
    }
    proof {
        assert(paints@ =~= covered + cursor_paints(cursor, frame.palette));
    }
    let ghost pointed = paints@;
    if frame.preedit.is_drawn(frame.scroll_offset) {
        let characters = chars_of(frame.preedit.text.as_str());
        paints.push(
            Paint::Preedit { row: cursor.row, col: cursor.col, columns: characters.len() },
        );
    }
    if frame.scrollback > 0 {
        paints.push(Paint::Scrollbar { strong: frame.scroll_offset > 0 });
    }
    proof {
        assert(paints@ =~= pointed + overlay_paints(*frame));
    }
    paints
}

/// How far up something is drawn: what is drawn later covers it.
pub open spec fn layer(paint: Paint) -> int {
    match paint {
        Paint::Fill(_) => 0,
        Paint::Background { .. } => 1,
        Paint::Text { .. } => 1,
        Paint::Decorations { .. } => 1,
        Paint::Image { .. } => 2,
        Paint::Cursor { .. } => 3,
        Paint::CursorText { .. } => 3,
        Paint::Preedit { .. } => 4,
        Paint::Scrollbar { .. } => 5,
    }
}

/// Everything is drawn on one layer.
pub open spec fn on_layer(paints: Seq<Paint>, height: int) -> bool {
    forall|i: int| 0 <= i < paints.len() ==> layer(#[trigger] paints[i]) == height
}

proof fn lemma_grid_layer(
    rows: Seq<Vec<Option<CellFacts>>>,
    count: int,
    palette: Palette,
    reverse_video: bool,
)
    ensures
        on_layer(grid_paints(rows, count, palette, reverse_video), 1),
    decreases count,
{
    if count > 0 {
        lemma_grid_layer(rows, count - 1, palette, reverse_video);
        lemma_row_layer(
            rows[count - 1]@,
            count - 1,
            rows[count - 1]@.len() as int,
            palette,
            reverse_video,
        );
    }
}

proof fn lemma_row_layer(
    cells: Seq<Option<CellFacts>>,
    row: int,
    count: int,
    palette: Palette,
    reverse_video: bool,
)
    ensures
        on_layer(row_paints(cells, row, count, palette, reverse_video), 1),
    decreases count,
{
    if count > 0 {
        lemma_row_layer(cells, row, count - 1, palette, reverse_video);
        assert(on_layer(
            cell_paints(row, count - 1, cells[count - 1], palette, reverse_video),
            1,
        ));
    }
}

proof fn lemma_image_layer(images: Seq<ImageFacts>, count: int)
    ensures
        on_layer(image_paints(images, count), 2),
    decreases count,
{
    if count > 0 {
        lemma_image_layer(images, count - 1);
    }
}

/// A frame is filled first. Then come the cells, the images over them, the cursor over
/// the images, composed text over the cursor and the scrollbar over everything.
pub proof fn law_frames_are_drawn_from_the_bottom_up(frame: Frame, below: int, above: int)
    requires
        0 <= below <= above < frame_paints(frame).len(),
    ensures
        frame_paints(frame)[0] == Paint::Fill(
            if frame.reverse_video {
                frame.palette.foreground
            } else {
                frame.palette.background
            },
        ),
        layer(frame_paints(frame)[below]) <= layer(frame_paints(frame)[above]),
{
    let grid = grid_paints(
        frame.rows@,
        frame.rows@.len() as int,
        frame.palette,
        frame.reverse_video,
    );
    let images = image_paints(frame.images@, frame.images@.len() as int);
    lemma_grid_layer(
        frame.rows@,
        frame.rows@.len() as int,
        frame.palette,
        frame.reverse_video,
    );
    lemma_image_layer(frame.images@, frame.images@.len() as int);
    assert(on_layer(cursor_paints(frame.cursor, frame.palette), 3));
}

/// What is drawn for a cell is drawn at its place: a background over its columns where it
/// has one, under its text, under its lines, all in the colours of its look; and nothing
/// for a cell that is not there.
pub proof fn law_cells_are_drawn_at_their_place(
    row: usize,
    col: usize,
    cell: CellFacts,
    palette: Palette,
    reverse_video: bool,
)
    ensures
        ({
            let paints = cell_paints(row as int, col as int, Some(cell), palette, reverse_video);
            let look = cell_look(cell, palette, reverse_video);
            &&& cell_paints(row as int, col as int, None, palette, reverse_video).len() == 0
            &&& look is None ==> paints.len() == 0
            &&& look matches Some(look) ==> {
                &&& look.background matches Some(color) ==> paints.len() > 0 && paints[0]
                    == (Paint::Background { row, col, columns: look.columns, color })
                &&& look.draws_text <==> paints.contains(
                    (Paint::Text { row, col, color: look.foreground }),
                )
                &&& look.draws_decorations <==> paints.contains(
                    (Paint::Decorations {
                        row,
                        col,
                        columns: look.columns,
                        color: look.foreground,
                    }),
                )
                &&& look.draws_decorations ==> paints.last() == (Paint::Decorations {
                    row,
                    col,
                    columns: look.columns,
                    color: look.foreground,
                })
            }
        }),
{
    let paints = cell_paints(row as int, col as int, Some(cell), palette, reverse_video);
    if let Some(look) = cell_look(cell, palette, reverse_video) {
        let ground: int = if look.background is Some {
            1
        } else {
            0
        };
        let lines = Paint::Decorations { row, col, columns: look.columns, color: look.foreground };
        if look.draws_text {
            assert(paints[ground] == (Paint::Text { row, col, color: look.foreground }));
        }
        if look.draws_decorations {
            assert(paints[paints.len() - 1] == lines);
        }
    }
}

/// Every cell of every row is drawn, at its own row and column.
pub proof fn law_every_cell_is_drawn(
    rows: Seq<Vec<Option<CellFacts>>>,
    count: int,
    palette: Palette,
    reverse_video: bool,
    row: int,
    col: int,
    paint: Paint,
)
    requires
        0 <= row < count <= rows.len(),
        0 <= col < rows[row]@.len(),
        cell_paints(row, col, rows[row]@[col], palette, reverse_video).contains(paint),
    ensures
        grid_paints(rows, count, palette, reverse_video).contains(paint),
    decreases count,
{
    let all = grid_paints(rows, count, palette, reverse_video);
    let before = grid_paints(rows, count - 1, palette, reverse_video);
    if row < count - 1 {
        law_every_cell_is_drawn(rows, count - 1, palette, reverse_video, row, col, paint);
        let i = choose|i: int| 0 <= i < before.len() && before[i] == paint;
        assert(all[i] == paint);
    } else {
        let cells = rows[row]@;
        lemma_row_holds_cell(cells, row, cells.len() as int, palette, reverse_video, col, paint);
        let own = row_paints(cells, row, cells.len() as int, palette, reverse_video);
        let i = choose|i: int| 0 <= i < own.len() && own[i] == paint;
        assert(all[before.len() + i] == paint);
    }
}

proof fn lemma_row_holds_cell(
    cells: Seq<Option<CellFacts>>,
    row: int,
    count: int,
    palette: Palette,
    reverse_video: bool,
    col: int,
    paint: Paint,
)
    requires
        0 <= col < count <= cells.len(),
        cell_paints(row, col, cells[col], palette, reverse_video).contains(paint),
    ensures
        row_paints(cells, row, count, palette, reverse_video).contains(paint),
    decreases count,
{
    let all = row_paints(cells, row, count, palette, reverse_video);
    let before = row_paints(cells, row, count - 1, palette, reverse_video);
    if col < count - 1 {
        lemma_row_holds_cell(cells, row, count - 1, palette, reverse_video, col, paint);
        let i = choose|i: int| 0 <= i < before.len() && before[i] == paint;
        assert(all[i] == paint);
    } else {
        let own = cell_paints(row, col, cells[col], palette, reverse_video);
        let i = choose|i: int| 0 <= i < own.len() && own[i] == paint;
        assert(all[before.len() + i] == paint);
    }
}

/// An image is drawn exactly if it stands on a visible row and its data fits, at that row
/// and its own column.
pub proof fn law_images_stand_where_they_are_put(
    images: Seq<ImageFacts>,
    count: int,
    index: usize,
    row: usize,
    col: usize,
)
    requires
        0 <= count <= images.len() <= usize::MAX,
    ensures
        image_paints(images, count).contains((Paint::Image { index, row, col })) <==> index < count
            && images[index as int].row == Some(row) && images[index as int].col == col
            && image_verdict(
            images[index as int].width,
            images[index as int].height,
            images[index as int].length,
        ) == ImageCheck::Fits,
    decreases count,
{
    let paint = Paint::Image { index, row, col };
    if count > 0 {
        law_images_stand_where_they_are_put(images, count - 1, index, row, col);
        let all = image_paints(images, count);
        let before = image_paints(images, count - 1);
        let image = images[count - 1];
        if image.row is Some && image_verdict(image.width, image.height, image.length)
            == ImageCheck::Fits {
            let own = Paint::Image {
                index: (count - 1) as usize,
                row: image.row->0,
                col: image.col,
            };
            assert(all =~= before.push(own));
            if all.contains(paint) {
                let i = choose|i: int| 0 <= i < all.len() && all[i] == paint;
                if i < before.len() {
                    assert(before[i] == paint);
                }
            }
            if before.contains(paint) {
                let i = choose|i: int| 0 <= i < before.len() && before[i] == paint;
                assert(all[i] == paint);
            }
            if own == paint {
                assert(all[before.len() as int] == paint);
            }
        }
    }
}

/// A visible cursor is drawn at its row and column, in its shape and in the colour that
/// the palette has for it; over a block the text is drawn again. An invisible one is not
/// drawn.
pub proof fn law_cursor_is_drawn_where_it_stands(cursor: CursorFacts, palette: Palette)
    ensures
        !cursor.visible ==> cursor_paints(cursor, palette).len() == 0,
        cursor.visible ==> cursor_paints(cursor, palette)[0] == (Paint::Cursor {
            row: cursor.row,
            col: cursor.col,
            style: cursor.style,
            color: palette.cursor,
        }),
        cursor.visible && cursor.style == CursorStyle::Block && cursor.over_text ==> cursor_paints(
            cursor,
            palette,
        ).len() == 2 && cursor_paints(cursor, palette)[1] == (Paint::CursorText {
            row: cursor.row,
            col: cursor.col,
        }),
        cursor.visible && !(cursor.style == CursorStyle::Block && cursor.over_text)
            ==> cursor_paints(cursor, palette).len() == 1,
{
}

/// Composed text is drawn at the cursor, as wide as it is long, while the live screen is
/// shown; and a scrollbar wherever there is a history, stronger while it is shown.
pub proof fn law_overlays_follow_the_view(frame: Frame)
    requires
        frame.preedit.text@.len() <= usize::MAX,
    ensures
        ({
            let paints = overlay_paints(frame);
            let composing = frame.preedit.active && frame.preedit.text@.len() > 0
                && frame.scroll_offset == 0;
            &&& composing ==> paints.len() > 0 && (paints[0] matches Paint::Preedit {
                row,
                col,
                columns,
            } && row == frame.cursor.row && col == frame.cursor.col && columns
                == frame.preedit.text@.len())
            &&& !composing ==> forall|i: int|
                0 <= i < paints.len() ==> !(#[trigger] paints[i] is Preedit)
            &&& frame.scrollback > 0 ==> paints.len() > 0 && paints.last() == (Paint::Scrollbar {
                strong: frame.scroll_offset > 0,
            })
            &&& frame.scrollback == 0 ==> forall|i: int|
                0 <= i < paints.len() ==> !(#[trigger] paints[i] is Scrollbar)
        }),
{
}

} // verus!
