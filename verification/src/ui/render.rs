//! What is drawn for a cell, its decorations, a sprite and an image.

use vstd::prelude::*;
use vstd::utf8::*;

verus! {

/// A colour.
#[derive(Clone, Copy, Debug, PartialEq, Eq, Structural)]
pub struct Rgb {
    pub r: u8,
    pub g: u8,
    pub b: u8,
}

impl Rgb {
    pub fn new(r: u8, g: u8, b: u8) -> (color: Self)
        ensures
            color == (Rgb { r, g, b }),
    {
        Rgb { r, g, b }
    }
}

/// The colour of links.
pub open spec fn link_color() -> Rgb {
    Rgb { r: 100, g: 149, b: 237 }
}

/// The colours that a front end gives a terminal, as far as it changes them.
#[derive(Clone, Copy, Debug, PartialEq, Eq, Structural)]
pub struct Palette {
    pub foreground: Rgb,
    pub background: Rgb,
    pub cursor: Rgb,
}

/// The colours of a theme with a cursor, and with a background.
pub open spec fn themed(colors: Palette, cursor: Rgb, background: Option<Rgb>) -> Palette {
    Palette {
        foreground: colors.foreground,
        background: match background {
            Some(color) => color,
            None => colors.background,
        },
        cursor,
    }
}

/// The text keeps the colour of the theme, the cursor gets its own, and the background
/// is the one that was asked for, or that of the theme.
pub proof fn law_themes_keep_their_colors(colors: Palette, cursor: Rgb, asked: Rgb, background: Option<Rgb>)
    ensures
        themed(colors, cursor, background).foreground == colors.foreground,
        themed(colors, cursor, background).cursor == cursor,
        themed(colors, cursor, Some(asked)).background == asked,
        themed(colors, cursor, None).background == colors.background,
        themed(colors, colors.cursor, None) == colors,
{
}

/// The colours of a theme with the theme's cursor, and with another background
/// where one is asked for.
pub fn frontend_palette(colors: Palette, cursor: Rgb, background: Option<Rgb>) -> (palette: Palette)
    ensures
        palette == themed(colors, cursor, background),
{
    let background = match background {
        Some(color) => color,
        None => colors.background,
    };
    Palette { foreground: colors.foreground, background, cursor }
}

/// The value of a hexadecimal digit.
pub open spec fn hex_value(byte: u8) -> Option<int> {
    if '0' as u8 <= byte <= '9' as u8 {
        Some(byte - '0' as u8)
    } else if 'a' as u8 <= byte <= 'f' as u8 {
        Some(byte - 'a' as u8 + 10)
    } else if 'A' as u8 <= byte <= 'F' as u8 {
        Some(byte - 'A' as u8 + 10)
    } else {
        None
    }
}

/// The number that two characters stand for: two hexadecimal digits, or a plus
/// sign and one digit.
pub open spec fn color_part(first: u8, second: u8) -> Option<int> {
    match (hex_value(first), hex_value(second)) {
        (Some(high), Some(low)) => Some(16 * high + low),
        (None, Some(low)) => if first == '+' as u8 {
            Some(low)
        } else {
            None
        },
        _ => None,
    }
}

/// A text without the `#` in front of it, however many there are.
pub open spec fn without_hashes(bytes: Seq<u8>) -> Seq<u8>
    decreases bytes.len(),
{
    if bytes.len() > 0 && bytes[0] == '#' as u8 {
        without_hashes(bytes.drop_first())
    } else {
        bytes
    }
}

/// The colour that a text stands for: six bytes, two for each part.
pub open spec fn color_of(bytes: Seq<u8>) -> Option<Rgb> {
    let digits = without_hashes(bytes);
    if digits.len() != 6 {
        None
    } else {
        match (
            color_part(digits[0], digits[1]),
            color_part(digits[2], digits[3]),
            color_part(digits[4], digits[5]),
        ) {
            (Some(r), Some(g), Some(b)) => Some(Rgb { r: r as u8, g: g as u8, b: b as u8 }),
            _ => None,
        }
    }
}

/// The parts of a colour are whole characters, as far as they are looked at.
pub open spec fn has_whole_parts(bytes: Seq<u8>) -> bool {
    let digits = without_hashes(bytes);
    digits.len() == 6 ==> {
        &&& is_char_boundary(digits, 2)
        &&& color_part(digits[0], digits[1]) is Some ==> is_char_boundary(digits, 4)
    }
}

fn hex_digit(byte: u8) -> (value: Option<u8>)
    ensures
        match hex_value(byte) {
            Some(number) => value == Some(number as u8) && 0 <= number < 16,
            None => value is None,
        },
{
    if 48 <= byte && byte <= 57 {
        Some(byte - 48)
    } else if 97 <= byte && byte <= 102 {
        Some(byte - 87)
    } else if 65 <= byte && byte <= 70 {
        Some(byte - 55)
    } else {
        None
    }
}

fn part_of_color(first: u8, second: u8) -> (part: Option<u8>)
    ensures
        match color_part(first, second) {
            Some(number) => part == Some(number as u8) && 0 <= number < 256,
            None => part is None,
        },
{
    let low: u8 = match hex_digit(second) {
        Some(low) => low,
        None => {
            return None;
        },
    };
    match hex_digit(first) {
        Some(high) => Some(16 * high + low),
        None => if first == 43 {
            Some(low)
        } else {
            None
        },
    }
}

/// Read a colour.
pub fn parse_rgb(hex: &str) -> (color: Option<Rgb>)
    requires
        has_whole_parts(encode_utf8(hex@)),
    ensures
        color == color_of(encode_utf8(hex@)),
{
    let bytes = hex.as_bytes();
    let mut start: usize = 0;
    proof {
        assert(bytes@.skip(0) =~= bytes@);
    }
    while start < bytes.len() && bytes[start] == 35
        invariant
            start <= bytes@.len(),
            without_hashes(bytes@) == without_hashes(bytes@.skip(start as int)),
        decreases bytes@.len() - start,
    {
        proof {
            assert(bytes@.skip(start as int).drop_first() =~= bytes@.skip(start + 1));
        }
        start += 1;
    }
    let ghost digits = without_hashes(bytes@);
    proof {
        assert(digits == bytes@.skip(start as int));
    }
    if bytes.len() - start != 6 {
        return None;
    }
    let red: u8 = match part_of_color(bytes[start], bytes[start + 1]) {
        Some(part) => part,
        None => {
            return None;
        },
    };
    let green: u8 = match part_of_color(bytes[start + 2], bytes[start + 3]) {
        Some(part) => part,
        None => {
            return None;
        },
    };
    let blue: u8 = match part_of_color(bytes[start + 4], bytes[start + 5]) {
        Some(part) => part,
        None => {
            return None;
        },
    };
    Some(Rgb::new(red, green, blue))
}

/// A cell, with its colours resolved. No colour stands for the default one.
#[derive(Clone, Copy, Debug, PartialEq, Eq, Structural)]
pub struct CellFacts {
    pub fg: Option<Rgb>,
    pub bg: Option<Rgb>,
    pub inverse: bool,
    pub dim: bool,
    pub hidden: bool,
    /// It takes two columns.
    pub wide: bool,
    /// It is the second column of a wide cell.
    pub wide_spacer: bool,
    /// It holds a blank.
    pub blank: bool,
    pub hyperlink: bool,
    pub selected: bool,
    /// It does not blink, or is in the visible phase.
    pub visible: bool,
}

/// What is drawn for a cell.
#[derive(Clone, Copy, Debug, PartialEq, Eq, Structural)]
pub struct CellPaint {
    pub columns: u8,
    pub foreground: Rgb,
    /// A background of its own, where it has one.
    pub background: Option<Rgb>,
    pub draws_text: bool,
    pub draws_decorations: bool,
}

/// The colour that fills a terminal before its cells are drawn.
pub open spec fn filling(palette: Palette, reverse_video: bool) -> Rgb {
    if reverse_video {
        palette.foreground
    } else {
        palette.background
    }
}

pub fn screen_background(palette: Palette, reverse_video: bool) -> (color: Rgb)
    ensures
        color == filling(palette, reverse_video),
{
    if reverse_video {
        palette.foreground
    } else {
        palette.background
    }
}

/// Foreground and background change places an odd number of times: for the
/// cell's own attribute, for the selection, and for the whole screen.
pub open spec fn is_inverted(cell: CellFacts, reverse_video: bool) -> bool {
    (cell.inverse != cell.selected) != reverse_video
}

pub open spec fn color_or(color: Option<Rgb>, default_color: Rgb) -> Rgb {
    match color {
        Some(color) => color,
        None => default_color,
    }
}

pub open spec fn dimmed(color: Rgb) -> Rgb {
    Rgb { r: color.r / 2, g: color.g / 2, b: color.b / 2 }
}

/// The colour of a cell's text.
pub open spec fn text_color(cell: CellFacts, palette: Palette, reverse_video: bool) -> Rgb {
    let color = if is_inverted(cell, reverse_video) {
        color_or(cell.bg, palette.background)
    } else if cell.hyperlink && cell.fg is None {
        link_color()
    } else {
        color_or(cell.fg, palette.foreground)
    };
    if cell.dim {
        dimmed(color)
    } else {
        color
    }
}

/// The background of a cell, where it is not that of the screen.
pub open spec fn own_background(cell: CellFacts, palette: Palette, reverse_video: bool) -> Option<
    Rgb,
> {
    if is_inverted(cell, reverse_video) {
        Some(color_or(cell.fg, palette.foreground))
    } else if cell.bg is Some || cell.selected || reverse_video {
        Some(color_or(cell.bg, palette.background))
    } else {
        None
    }
}

fn or_color(color: Option<Rgb>, default_color: Rgb) -> (chosen: Rgb)
    ensures
        chosen == color_or(color, default_color),
{
    match color {
        Some(color) => color,
        None => default_color,
    }
}

/// What a cell looks like. The second column of a wide one has no look of its
/// own.
pub open spec fn cell_look(cell: CellFacts, palette: Palette, reverse_video: bool) -> Option<
    CellPaint,
> {
    if cell.wide_spacer {
        None
    } else {
        Some(
            CellPaint {
                columns: if cell.wide {
                    2
                } else {
                    1
                },
                foreground: text_color(cell, palette, reverse_video),
                background: own_background(cell, palette, reverse_video),
                draws_text: cell.visible && !cell.blank && !cell.hidden,
                draws_decorations: cell.visible && !cell.hidden,
            },
        )
    }
}

/// What is drawn for a cell. Nothing is for the second column of a wide one.
pub fn cell_paint(cell: &CellFacts, palette: &Palette, reverse_video: bool) -> (paint: Option<
    CellPaint,
>)
    ensures
        paint == cell_look(*cell, *palette, reverse_video),
{
    if cell.wide_spacer {
        return None;
    }
    let inverted = (cell.inverse != cell.selected) != reverse_video;
    let color = if inverted {
        or_color(cell.bg, palette.background)
    } else if cell.hyperlink && cell.fg.is_none() {
        Rgb::new(100, 149, 237)
    } else {
        or_color(cell.fg, palette.foreground)
    };
    let foreground = if cell.dim {
        Rgb::new(color.r / 2, color.g / 2, color.b / 2)
    } else {
        color
    };
    let background = if inverted {
        Some(or_color(cell.fg, palette.foreground))
    } else if cell.bg.is_some() || cell.selected || reverse_video {
        Some(or_color(cell.bg, palette.background))
    } else {
        None
    };
    let columns: u8 = if cell.wide {
        2
    } else {
        1
    };
    Some(
        CellPaint {
            columns,
            foreground,
            background,
            draws_text: cell.visible && !cell.blank && !cell.hidden,
            draws_decorations: cell.visible && !cell.hidden,
        },
    )
}

/// Selecting a cell shows it with its colours exchanged: what was the text's
/// colour fills it, and its text gets what filled it. Dimmed cells and links
/// without a colour of their own are the exception.
pub proof fn law_selection_exchanges_the_colors(cell: CellFacts, palette: Palette, reverse_video: bool)
    requires
        !cell.selected,
        !cell.dim,
        cell.hyperlink ==> cell.fg is Some,
    ensures
        ({
            let selected = CellFacts { selected: true, ..cell };
            &&& own_background(selected, palette, reverse_video) == Some(
                text_color(cell, palette, reverse_video),
            )
            &&& text_color(selected, palette, reverse_video) == color_or(
                own_background(cell, palette, reverse_video),
                palette.background,
            )
        }),
{
}

/// How an underline is drawn.
#[derive(Clone, Copy, Debug, PartialEq, Eq, Structural)]
pub enum UnderlineStyle {
    Solid,
    Curly,
    Dotted,
    Dashed,
}

/// The decorations that a cell asks for.
#[derive(Clone, Copy, Debug, PartialEq, Eq, Structural)]
pub struct DecorationFacts {
    pub underline: bool,
    pub curly: bool,
    pub dotted: bool,
    pub dashed: bool,
    pub double: bool,
    pub strikethrough: bool,
    pub overline: bool,
    pub hyperlink: bool,
    /// A colour for the underline alone.
    pub underline_color: Option<Rgb>,
}

/// The lines that are drawn for a cell.
#[derive(Clone, Copy, Debug, PartialEq, Eq)]
pub struct Decorations {
    /// The underline, with its colour, and whether a second one is above it.
    pub underline: Option<(UnderlineStyle, Rgb, bool)>,
    pub strikethrough: bool,
    pub overline: bool,
}

/// How an underline of a cell is drawn.
pub open spec fn underline_style(facts: DecorationFacts) -> UnderlineStyle {
    if facts.curly {
        UnderlineStyle::Curly
    } else if facts.dotted {
        UnderlineStyle::Dotted
    } else if facts.dashed {
        UnderlineStyle::Dashed
    } else {
        UnderlineStyle::Solid
    }
}

/// The lines that are drawn for a cell.
pub open spec fn lines_of(facts: DecorationFacts, foreground: Rgb) -> Decorations {
    Decorations {
        underline: if facts.underline || facts.hyperlink {
            Some(
                (
                    underline_style(facts),
                    if facts.hyperlink {
                        link_color()
                    } else {
                        color_or(facts.underline_color, foreground)
                    },
                    facts.double,
                ),
            )
        } else {
            None
        },
        strikethrough: facts.strikethrough,
        overline: facts.overline,
    }
}

/// A cell has the lines that it asks for and no others, each independent of the others.
/// The underline is as it is asked for, the curly one before the dotted and the dashed
/// one, in its own colour or that of the text; that of a link is there without asking,
/// and cornflower blue.
pub proof fn law_cells_have_the_lines_they_ask_for(facts: DecorationFacts, foreground: Rgb)
    ensures
        ({
            let lines = lines_of(facts, foreground);
            &&& lines.strikethrough == facts.strikethrough
            &&& lines.overline == facts.overline
            &&& lines.underline is Some <==> facts.underline || facts.hyperlink
            &&& lines.underline matches Some((style, color, double)) ==> {
                &&& double == facts.double
                &&& facts.hyperlink ==> color.r == 100 && color.g == 149 && color.b == 237
                &&& !facts.hyperlink && facts.underline_color is None ==> color == foreground
                &&& !facts.hyperlink && facts.underline_color is Some ==> facts.underline_color
                    == Some(color)
                &&& style == UnderlineStyle::Curly <==> facts.curly
                &&& style == UnderlineStyle::Dotted <==> facts.dotted && !facts.curly
                &&& style == UnderlineStyle::Dashed <==> facts.dashed && !facts.dotted
                    && !facts.curly
                &&& style == UnderlineStyle::Solid <==> !facts.dashed && !facts.dotted
                    && !facts.curly
            }
        }),
{
}

/// The lines that are drawn for a cell. A link is always underlined, in the
/// colour of links.
pub fn cell_decorations(facts: &DecorationFacts, foreground: Rgb) -> (decorations: Decorations)
    ensures
        decorations == lines_of(*facts, foreground),
{
    let underline = if facts.underline || facts.hyperlink {
        let style = if facts.curly {
            UnderlineStyle::Curly
        } else if facts.dotted {
            UnderlineStyle::Dotted
        } else if facts.dashed {
            UnderlineStyle::Dashed
        } else {
            UnderlineStyle::Solid
        };
        let color = if facts.hyperlink {
            Rgb::new(100, 149, 237)
        } else {
            or_color(facts.underline_color, foreground)
        };
        Some((style, color, facts.double))
    } else {
        None
    };
    Decorations { underline, strikethrough: facts.strikethrough, overline: facts.overline }
}

/// Neighbouring pixels of a sprite's row that are equally opaque.
#[derive(Clone, Copy, Debug, PartialEq, Eq, Structural)]
pub struct SpriteRun {
    pub row: usize,
    pub start: usize,
    pub length: usize,
    pub alpha: u8,
}

/// Where the pixels that are as opaque as that at `column` end.
pub open spec fn run_end(row: Seq<u8>, column: int, alpha: u8) -> int
    decreases row.len() - column,
{
    if 0 <= column < row.len() && row[column] == alpha {
        run_end(row, column + 1, alpha)
    } else {
        column
    }
}

/// The runs of a row from `column` on. Transparent pixels are left out.
pub open spec fn row_runs(row: Seq<u8>, index: int, column: int) -> Seq<SpriteRun>
    decreases row.len() - column,
{
    if 0 <= column < row.len() {
        let alpha = row[column];
        let end = run_end(row, column + 1, alpha);
        if end <= column || end > row.len() {
            Seq::empty()
        } else if alpha == 0 {
            row_runs(row, index, end)
        } else {
            seq![
                SpriteRun {
                    row: index as usize,
                    start: column as usize,
                    length: (end - column) as usize,
                    alpha,
                },
            ] + row_runs(row, index, end)
        }
    } else {
        Seq::empty()
    }
}

/// One row of a sprite.
pub open spec fn sprite_row(bytes: Seq<u8>, width: int, row: int) -> Seq<u8> {
    bytes.subrange(row * width, row * width + width)
}

/// The runs of the first rows of a sprite.
pub open spec fn runs_of_rows(bytes: Seq<u8>, width: int, rows: int) -> Seq<SpriteRun>
    decreases rows,
{
    if rows <= 0 {
        Seq::empty()
    } else {
        runs_of_rows(bytes, width, rows - 1) + row_runs(
            sprite_row(bytes, width, rows - 1),
            rows - 1,
            0,
        )
    }
}

proof fn lemma_run_end(row: Seq<u8>, column: int, alpha: u8)
    requires
        0 <= column <= row.len(),
    ensures
        column <= run_end(row, column, alpha) <= row.len(),
        forall|i: int| column <= i < run_end(row, column, alpha) ==> row[i] == alpha,
        run_end(row, column, alpha) < row.len() ==> row[run_end(row, column, alpha)] != alpha,
    decreases row.len() - column,
{
    if column < row.len() && row[column] == alpha {
        lemma_run_end(row, column + 1, alpha);
    }
}

/// A pixel is drawn by a run.
pub open spec fn drawn_by(run: SpriteRun, column: int) -> bool {
    run.start <= column < run.start + run.length
}

/// Every pixel of a row that is not transparent is drawn by exactly one run, as
/// opaque as it is; and no transparent pixel is drawn.
pub proof fn law_runs_draw_every_pixel_once(row: Seq<u8>, index: int, from: int, column: int)
    requires
        0 <= from <= column < row.len(),
        row.len() <= usize::MAX,
    ensures
        row[column] == 0 ==> forall|i: int|
            0 <= i < row_runs(row, index, from).len() ==> !drawn_by(
                #[trigger] row_runs(row, index, from)[i],
                column,
            ),
        row[column] != 0 ==> exists|i: int| #[trigger]
            draws_alone(row_runs(row, index, from), i, column, row[column]),
    decreases row.len() - from,
{
    let alpha = row[from];
    lemma_run_end(row, from + 1, alpha);
    let end = run_end(row, from + 1, alpha);
    let rest = row_runs(row, index, end);
    lemma_runs_start_later(row, index, end);
    if column < end {
        assert(row[column] == alpha) by {
            if column > from {
                assert(row[column] == alpha);
            }
        }
        if alpha != 0 {
            let runs = row_runs(row, index, from);
            assert(runs[0].start == from);
            assert forall|j: int| 0 <= j < runs.len() && j != 0 implies !drawn_by(
                #[trigger] runs[j],
                column,
            ) by {
                assert(runs[j] == rest[j - 1]);
            }
            assert(draws_alone(runs, 0, column, row[column]));
        } else {
            assert(row_runs(row, index, from) == rest);
        }
    } else {
        law_runs_draw_every_pixel_once(row, index, end, column);
        if alpha != 0 {
            let runs = row_runs(row, index, from);
            assert(!drawn_by(runs[0], column));
            if row[column] == 0 {
                assert forall|i: int| 0 <= i < runs.len() implies !drawn_by(
                    #[trigger] runs[i],
                    column,
                ) by {
                    if i > 0 {
                        assert(runs[i] == rest[i - 1]);
                    }
                }
            } else {
                let i = choose|i: int| #[trigger] draws_alone(rest, i, column, row[column]);
                assert(runs[i + 1] == rest[i]);
                assert forall|j: int| 0 <= j < runs.len() && j != i + 1 implies !drawn_by(
                    #[trigger] runs[j],
                    column,
                ) by {
                    if j > 0 {
                        assert(runs[j] == rest[j - 1]);
                    }
                }
                assert(draws_alone(runs, i + 1, column, row[column]));
            }
        } else {
            assert(row_runs(row, index, from) == rest);
        }
    }
}

/// One run draws a pixel with an opacity, and no other run draws it.
pub open spec fn draws_alone(runs: Seq<SpriteRun>, i: int, column: int, alpha: u8) -> bool {
    &&& 0 <= i < runs.len()
    &&& drawn_by(runs[i], column)
    &&& runs[i].alpha == alpha
    &&& forall|j: int| 0 <= j < runs.len() && j != i ==> !drawn_by(#[trigger] runs[j], column)
}

proof fn lemma_runs_start_later(row: Seq<u8>, index: int, from: int)
    requires
        0 <= from <= row.len(),
        row.len() <= usize::MAX,
    ensures
        forall|i: int|
            0 <= i < row_runs(row, index, from).len() ==> (#[trigger] row_runs(
                row,
                index,
                from,
            )[i]).start >= from,
    decreases row.len() - from,
{
    if from < row.len() {
        let alpha = row[from];
        lemma_run_end(row, from + 1, alpha);
        let end = run_end(row, from + 1, alpha);
        lemma_runs_start_later(row, index, end);
        let runs = row_runs(row, index, from);
        let rest = row_runs(row, index, end);
        assert forall|i: int| 0 <= i < runs.len() implies (#[trigger] runs[i]).start >= from by {
            if alpha != 0 && i > 0 {
                assert(runs[i] == rest[i - 1]);
            } else if alpha == 0 {
                assert(runs[i] == rest[i]);
            }
        }
    }
}

/// The runs of a sprite, row by row. Bytes behind the last whole row are left
/// out.
pub fn sprite_runs(bytes: &Vec<u8>, width: usize) -> (runs: Vec<SpriteRun>)
    requires
        width > 0,
    ensures
        runs@ == runs_of_rows(bytes@, width as int, bytes@.len() as int / width as int),
{
    let rows: usize = bytes.len() / width;
    let mut runs: Vec<SpriteRun> = Vec::new();
    let mut row: usize = 0;
    proof {
        assert(rows * width <= bytes@.len()) by (nonlinear_arith)
            requires
                rows == bytes@.len() as int / width as int,
                width > 0,
        ;
    }
    let length: usize = bytes.len();
    while row < rows
        invariant
            row <= rows,
            width > 0,
            length == bytes@.len(),
            rows * width <= bytes@.len(),
            runs@ == runs_of_rows(bytes@, width as int, row as int),
        decreases rows - row,
    {
        let ghost pixels = sprite_row(bytes@, width as int, row as int);
        let ghost before = runs@;
        proof {
            assert(0 <= row * width && row * width + width <= rows * width) by (nonlinear_arith)
                requires
                    0 <= row < rows,
                    width > 0,
            ;
        }
        let base: usize = row * width;
        let mut column: usize = 0;
        proof {
            assert(before + row_runs(pixels, row as int, 0) =~= runs@ + row_runs(
                pixels,
                row as int,
                0,
            ));
        }
        while column < width
            invariant
                column <= width,
                base == row * width,
                base + width <= bytes@.len(),
                length == bytes@.len(),
                pixels == bytes@.subrange(base as int, base + width),
                runs@ + row_runs(pixels, row as int, column as int) == before + row_runs(
                    pixels,
                    row as int,
                    0,
                ),
            decreases width - column,
        {
            let alpha: u8 = bytes[base + column];
            let start: usize = column;
            let ghost end = run_end(pixels, start + 1, alpha);
            proof {
                assert(pixels[start as int] == alpha);
                lemma_run_end(pixels, start + 1, alpha);
            }
            column += 1;
            while column < width && bytes[base + column] == alpha
                invariant
                    start < column <= width,
                    base + width <= bytes@.len(),
                    length == bytes@.len(),
                    pixels == bytes@.subrange(base as int, base + width),
                    end == run_end(pixels, start + 1, alpha),
                    end == run_end(pixels, column as int, alpha),
                decreases width - column,
            {
                proof {
                    assert(pixels[column as int] == alpha);
                }
                column += 1;
            }
            proof {
                if column < width {
                    assert(pixels[column as int] == bytes@[base + column]);
                }
                assert(column == end);
            }
            if alpha != 0 {
                let ghost held = runs@;
                let run = SpriteRun { row, start, length: column - start, alpha };
                runs.push(run);
                proof {
                    assert(held + (seq![run] + row_runs(pixels, row as int, end)) =~= runs@
                        + row_runs(pixels, row as int, end));
                }
            }
        }
        proof {
            assert(row_runs(pixels, row as int, width as int) =~= Seq::<SpriteRun>::empty());
            assert(runs@ =~= runs@ + Seq::<SpriteRun>::empty());
        }
        row += 1;
    }
    runs
}

/// Whether an image can be drawn.
#[derive(Clone, Copy, Debug, PartialEq, Eq, Structural)]
pub enum ImageCheck {
    Fits,
    TooWide,
    TooTall,
    /// Its data is not four bytes for each pixel.
    InvalidData,
}

/// Whether an image can be drawn: its sides fit into a surface, and it has four
/// bytes for each pixel.
pub open spec fn image_verdict(width: usize, height: usize, length: usize) -> ImageCheck {
    if width > i32::MAX {
        ImageCheck::TooWide
    } else if height > i32::MAX {
        ImageCheck::TooTall
    } else if width * height * 4 == length {
        ImageCheck::Fits
    } else {
        ImageCheck::InvalidData
    }
}

pub fn check_image(width: usize, height: usize, length: usize) -> (check: ImageCheck)
    ensures
        check == image_verdict(width, height, length),
{
    if width > 0x7fff_ffff {
        return ImageCheck::TooWide;
    }
    if height > 0x7fff_ffff {
        return ImageCheck::TooTall;
    }
    proof {
        assert(0 <= width * height <= 0x7fff_ffff * 0x7fff_ffff) by (nonlinear_arith)
            requires
                0 <= width <= 0x7fff_ffff,
                0 <= height <= 0x7fff_ffff,
        ;
    }
    let pixels: u64 = width as u64 * height as u64;
    if length as u64 % 4 == 0 && pixels == length as u64 / 4 {
        ImageCheck::Fits
    } else {
        ImageCheck::InvalidData
    }
}

/// A hexadecimal digit has its value, whether its letter is small or large; nothing else
/// has one.
pub proof fn law_hexadecimal_digits_have_their_values(byte: u8, value: int)
    ensures
        hex_value(byte) == Some(value) <==> (0 <= value < 10 && byte == 0x30 + value || 10 <= value
            < 16 && byte == 0x61 + (value - 10) || 10 <= value < 16 && byte == 0x41 + (value - 10)),
{
}

/// Six digits, behind any number of hashes, stand for the colour whose red, green and
/// blue they count, in this order and the higher digit first.
pub proof fn law_colors_are_read_back(color: Rgb, digits: Seq<u8>)
    requires
        digits.len() == 6,
        hex_value(digits[0]) == Some(color.r as int / 16),
        hex_value(digits[1]) == Some(color.r as int % 16),
        hex_value(digits[2]) == Some(color.g as int / 16),
        hex_value(digits[3]) == Some(color.g as int % 16),
        hex_value(digits[4]) == Some(color.b as int / 16),
        hex_value(digits[5]) == Some(color.b as int % 16),
    ensures
        color_of(digits) == Some(color),
        color_of(seq!['#' as u8] + digits) == Some(color),
{
    let hashed = seq!['#' as u8] + digits;
    assert(hashed.drop_first() =~= digits);
    assert(without_hashes(digits) == digits);
    assert(without_hashes(hashed) == digits);
}

/// Hashes in front do not count, however many there are; any other text must have
/// exactly six digits.
pub proof fn law_hashes_do_not_count(bytes: Seq<u8>)
    ensures
        color_of(seq!['#' as u8] + bytes) == color_of(bytes),
        without_hashes(bytes).len() > 0 ==> without_hashes(bytes)[0] != '#' as u8,
        without_hashes(bytes).len() <= bytes.len(),
        without_hashes(bytes) == bytes.skip(bytes.len() - without_hashes(bytes).len()),
        bytes.len() > 0 && bytes[0] != '#' as u8 && bytes.len() != 6 ==> color_of(bytes) is None,
    decreases bytes.len(),
{
    let hashed = seq!['#' as u8] + bytes;
    assert(hashed.drop_first() =~= bytes);
    assert(without_hashes(hashed) == without_hashes(bytes));
    if bytes.len() > 0 && bytes[0] == '#' as u8 {
        let rest = bytes.drop_first();
        law_hashes_do_not_count(rest);
        assert(without_hashes(bytes) == without_hashes(rest));
        assert(rest.skip(rest.len() - without_hashes(rest).len()) =~= bytes.skip(
            bytes.len() - without_hashes(rest).len(),
        ));
    } else {
        assert(bytes.skip(0) =~= bytes);
    }
}

/// A part of a colour is two digits, the higher one first, or a plus sign before one
/// digit, and nothing else.
pub proof fn law_color_parts_are_two_digits(first: u8, second: u8)
    ensures
        color_part(first, second) matches Some(part) ==> 0 <= part < 256 && hex_value(second)
            == Some(part % 16),
        color_part(first, second) is Some <==> hex_value(second) is Some && (hex_value(first) is Some
            || first == 0x2b),
        hex_value(first) is Some && hex_value(second) is Some ==> color_part(first, second)->0 / 16
            == hex_value(first)->0,
        hex_value(second) is Some ==> color_part(0x2b, second) == hex_value(second),
{
    let high = hex_value(first);
    let low = hex_value(second);
    if high is Some && low is Some {
        assert((16 * high->0 + low->0) / 16 == high->0);
        assert((16 * high->0 + low->0) % 16 == low->0);
    }
}

/// A screen is filled with the background of its palette, and in reverse with the colour
/// of its text.
pub proof fn law_reverse_video_fills_with_the_text_color(palette: Palette)
    ensures
        filling(palette, false) == palette.background,
        filling(palette, true) == palette.foreground,
{
}

/// Each of the attribute, the selection and the reversed screen exchanges the colours of
/// a cell, and two of them undo each other.
pub proof fn law_two_inversions_undo_each_other(cell: CellFacts, reverse_video: bool)
    ensures
        !cell.inverse && !cell.selected && !reverse_video ==> !is_inverted(cell, reverse_video),
        is_inverted(cell, !reverse_video) == !is_inverted(cell, reverse_video),
        is_inverted((CellFacts { selected: !cell.selected, ..cell }), reverse_video)
            == !is_inverted(cell, reverse_video),
        is_inverted((CellFacts { inverse: !cell.inverse, ..cell }), reverse_video) == !is_inverted(
            cell,
            reverse_video,
        ),
{
}

/// An ordinary cell is drawn in its own colours, and in those of the palette where it has
/// none; an inverted one in the exchanged ones. A link without a colour is cornflower
/// blue, and dim text has half of each part of its colour.
pub proof fn law_cells_have_their_colors(
    cell: CellFacts,
    palette: Palette,
    reverse_video: bool,
    fg: Rgb,
    bg: Rgb,
)
    ensures
        ({
            let inverted = is_inverted(cell, reverse_video);
            let text = text_color(cell, palette, reverse_video);
            let bright = text_color((CellFacts { dim: false, ..cell }), palette, reverse_video);
            let own = own_background(cell, palette, reverse_video);
            &&& !inverted && cell.fg == Some(fg) ==> bright == fg
            &&& !inverted && cell.fg is None && !cell.hyperlink ==> bright == palette.foreground
            &&& !inverted && cell.fg is None && cell.hyperlink ==> bright == (Rgb {
                r: 100,
                g: 149,
                b: 237,
            })
            &&& inverted && cell.bg == Some(bg) ==> bright == bg
            &&& inverted && cell.bg is None ==> bright == palette.background
            &&& !cell.dim ==> text == bright
            &&& cell.dim ==> 2 * text.r <= bright.r < 2 * text.r + 2
            &&& cell.dim ==> 2 * text.g <= bright.g < 2 * text.g + 2
            &&& cell.dim ==> 2 * text.b <= bright.b < 2 * text.b + 2
            &&& inverted && cell.fg == Some(fg) ==> own == Some(fg)
            &&& inverted && cell.fg is None ==> own == Some(palette.foreground)
            &&& !inverted && cell.bg == Some(bg) ==> own == Some(bg)
            &&& !inverted && cell.bg is None && (cell.selected || reverse_video) ==> own == Some(
                palette.background,
            )
            &&& !inverted && cell.bg is None && !cell.selected && !reverse_video ==> own is None
        }),
{
}

/// A cell is drawn over one column, or two where it is wide, and the second column of a
/// wide one not at all. Hidden text and the dark phase of blinking text are not drawn,
/// with their lines; a blank has lines without text.
pub proof fn law_cells_are_drawn_once(cell: CellFacts, palette: Palette, reverse_video: bool)
    ensures
        cell_look(cell, palette, reverse_video) is None <==> cell.wide_spacer,
        cell_look(cell, palette, reverse_video) matches Some(look) ==> {
            &&& look.columns == 2 <==> cell.wide
            &&& look.columns == 1 <==> !cell.wide
            &&& look.draws_decorations <==> cell.visible && !cell.hidden
            &&& look.draws_text <==> look.draws_decorations && !cell.blank
            &&& look.foreground == text_color(cell, palette, reverse_video)
            &&& look.background == own_background(cell, palette, reverse_video)
        },
{
}

/// The runs of a row lie in that row, within it, and none is empty or transparent.
pub proof fn law_runs_lie_in_their_row(row: Seq<u8>, index: int, from: int, i: int)
    requires
        0 <= from <= row.len() <= usize::MAX,
        0 <= index <= usize::MAX,
        0 <= i < row_runs(row, index, from).len(),
    ensures
        ({
            let run = row_runs(row, index, from)[i];
            &&& run.row == index
            &&& from <= run.start
            &&& run.length > 0
            &&& run.start + run.length <= row.len()
            &&& run.alpha != 0
            &&& run.alpha == row[run.start as int]
        }),
    decreases row.len() - from,
{
    if from < row.len() {
        let alpha = row[from];
        let end = run_end(row, from + 1, alpha);
        if from < end <= row.len() {
            let rest = row_runs(row, index, end);
            if alpha == 0 {
                law_runs_lie_in_their_row(row, index, end, i);
            } else if i > 0 {
                assert(row_runs(row, index, from)[i] == rest[i - 1]);
                law_runs_lie_in_their_row(row, index, end, i - 1);
            }
        }
    }
}

/// Every pixel of a sprite that is not transparent is drawn, in its own row and column
/// and as opaque as it is.
pub proof fn law_sprites_are_drawn_row_by_row(
    bytes: Seq<u8>,
    width: int,
    rows: int,
    row: int,
    column: int,
)
    requires
        0 < width,
        0 <= row < rows,
        rows * width <= bytes.len() <= usize::MAX,
        0 <= column < width,
        0 <= row * width,
        row * width + width <= bytes.len(),
        row <= usize::MAX,
        bytes[row * width + column] != 0,
    ensures
        exists|i: int|
            0 <= i < runs_of_rows(bytes, width, rows).len() && drawn_by(
                #[trigger] runs_of_rows(bytes, width, rows)[i],
                column,
            ) && runs_of_rows(bytes, width, rows)[i].row == row && runs_of_rows(
                bytes,
                width,
                rows,
            )[i].alpha == bytes[row * width + column],
    decreases rows,
{
    let all = runs_of_rows(bytes, width, rows);
    let before = runs_of_rows(bytes, width, rows - 1);
    if row == rows - 1 {
        let pixels = sprite_row(bytes, width, row);
        assert(pixels[column] == bytes[row * width + column]);
        law_runs_draw_every_pixel_once(pixels, row, 0, column);
        let runs = row_runs(pixels, row, 0);
        let i = choose|i: int| #[trigger] draws_alone(runs, i, column, pixels[column]);
        law_runs_lie_in_their_row(pixels, row, 0, i);
        assert(all[before.len() + i] == runs[i]);
    } else {
        assert((rows - 1) * width <= bytes.len()) by (nonlinear_arith)
            requires
                rows * width <= bytes.len(),
                width > 0,
        ;
        law_sprites_are_drawn_row_by_row(bytes, width, rows - 1, row, column);
        let i = choose|i: int|
            0 <= i < before.len() && drawn_by(#[trigger] before[i], column) && before[i].row == row
                && before[i].alpha == bytes[row * width + column];
        assert(all[i] == before[i]);
    }
}

/// An image is drawn exactly if both sides can be counted and its data has four bytes for
/// each pixel; what is wrong first is told, the width before the height.
pub proof fn law_images_have_four_bytes_for_each_pixel(width: usize, height: usize, length: usize)
    ensures
        image_verdict(width, height, length) == ImageCheck::Fits <==> width <= 0x7fff_ffff && height
            <= 0x7fff_ffff && length == 4 * (width * height),
        image_verdict(width, height, length) == ImageCheck::TooWide <==> width > 0x7fff_ffff,
        image_verdict(width, height, length) == ImageCheck::TooTall <==> width <= 0x7fff_ffff
            && height > 0x7fff_ffff,
        image_verdict(width, height, length) == ImageCheck::InvalidData <==> width <= 0x7fff_ffff
            && height <= 0x7fff_ffff && length != 4 * (width * height),
{
}

} // verus!
