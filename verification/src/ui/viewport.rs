//! How the part of the history that a terminal shows is moved, searched and
//! copied from.

use crate::ui::window::TerminalRequest;
use vstd::prelude::*;

verus! {

/// What a terminal is told to show.
#[derive(Clone, Copy, Debug, PartialEq, Eq, Structural)]
pub enum ViewportMove {
    /// So many lines further up, as far as the history goes.
    Up(usize),
    /// So many lines further down, as far as the live screen.
    Down(usize),
    /// The live screen.
    Bottom,
    PreviousPrompt,
    NextPrompt,
}

/// Where a request moves the view of a terminal with so many rows. A page is what
/// the terminal shows at once, and at least one line.
pub open spec fn moved(request: TerminalRequest, rows: usize) -> Option<ViewportMove> {
    let page = if rows == 0 {
        1
    } else {
        rows
    };
    match request {
        TerminalRequest::ScrollLines { lines, up } => Some(
            if up {
                ViewportMove::Up(lines as usize)
            } else {
                ViewportMove::Down(lines as usize)
            },
        ),
        TerminalRequest::ScrollPage { up } => Some(
            if up {
                ViewportMove::Up(page)
            } else {
                ViewportMove::Down(page)
            },
        ),
        TerminalRequest::ScrollToEdge { top } => Some(
            if top {
                ViewportMove::Up(usize::MAX)
            } else {
                ViewportMove::Bottom
            },
        ),
        TerminalRequest::ScrollToPrompt { previous } => Some(
            if previous {
                ViewportMove::PreviousPrompt
            } else {
                ViewportMove::NextPrompt
            },
        ),
        _ => None,
    }
}

/// Where a request moves the view; none where it asks for something else.
pub fn viewport_move(request: TerminalRequest, rows: usize) -> (step: Option<ViewportMove>)
    ensures
        step == moved(request, rows),
{
    let page: usize = if rows == 0 {
        1
    } else {
        rows
    };
    match request {
        TerminalRequest::ScrollLines { lines, up } => if up {
            Some(ViewportMove::Up(lines as usize))
        } else {
            Some(ViewportMove::Down(lines as usize))
        },
        TerminalRequest::ScrollPage { up } => if up {
            Some(ViewportMove::Up(page))
        } else {
            Some(ViewportMove::Down(page))
        },
        TerminalRequest::ScrollToEdge { top } => if top {
            Some(ViewportMove::Up(usize::MAX))
        } else {
            Some(ViewportMove::Bottom)
        },
        TerminalRequest::ScrollToPrompt { previous } => if previous {
            Some(ViewportMove::PreviousPrompt)
        } else {
            Some(ViewportMove::NextPrompt)
        },
        _ => None,
    }
}

/// How many matches there are, and the line of the first.
pub open spec fn search_result(lines: Seq<usize>) -> (nat, Option<usize>) {
    (
        lines.len(),
        if lines.len() > 0 {
            Some(lines[0])
        } else {
            None
        },
    )
}

/// What a search found, given the line of each match in their order: how many
/// matches there are, and the line of the first, which is then shown.
pub fn find(lines: &Vec<usize>) -> (found: (usize, Option<usize>))
    ensures
        found.0 == search_result(lines@).0,
        found.1 == search_result(lines@).1,
{
    if lines.len() > 0 {
        (lines.len(), Some(lines[0]))
    } else {
        (0, None)
    }
}

/// What goes to the clipboard of a selection with its looks.
pub open spec fn copied_looks(html: Option<String>, selected: bool) -> Option<String> {
    if selected {
        html
    } else {
        None
    }
}

/// A selection is copied with its own looks, and nothing is copied where nothing is
/// selected.
pub proof fn law_only_selections_are_copied(html: Option<String>)
    ensures
        copied_looks(html, true) == html,
        copied_looks(html, false) is None,
{
}

/// What goes to the clipboard when a selection is copied with its looks: nothing,
/// unless something is selected.
pub fn copied_html(html: Option<String>, text: Option<String>) -> (copied: Option<String>)
    ensures
        copied == copied_looks(html, text is Some),
{
    if text.is_some() {
        html
    } else {
        None
    }
}

/// The view moves the way that was asked for and as far: by lines, by what the terminal
/// shows at once, to either end, or to a prompt. Nothing else moves it, and it moves up
/// exactly for requests towards the history.
pub proof fn law_view_moves_as_asked(request: TerminalRequest, rows: usize, lines: u32)
    ensures
        moved((TerminalRequest::ScrollLines { lines, up: true }), rows) == Some(
            ViewportMove::Up(lines as usize),
        ),
        moved((TerminalRequest::ScrollLines { lines, up: false }), rows) == Some(
            ViewportMove::Down(lines as usize),
        ),
        rows > 0 ==> moved((TerminalRequest::ScrollPage { up: true }), rows) == Some(
            ViewportMove::Up(rows),
        ),
        rows > 0 ==> moved((TerminalRequest::ScrollPage { up: false }), rows) == Some(
            ViewportMove::Down(rows),
        ),
        moved((TerminalRequest::ScrollPage { up: true }), 0) == Some(ViewportMove::Up(1)),
        moved((TerminalRequest::ScrollPage { up: false }), 0) == Some(ViewportMove::Down(1)),
        moved((TerminalRequest::ScrollToEdge { top: true }), rows) == Some(
            ViewportMove::Up(usize::MAX),
        ),
        moved(request, rows) == Some(ViewportMove::Bottom) <==> request
            == (TerminalRequest::ScrollToEdge { top: false }),
        moved(request, rows) == Some(ViewportMove::PreviousPrompt) <==> request
            == (TerminalRequest::ScrollToPrompt { previous: true }),
        moved(request, rows) == Some(ViewportMove::NextPrompt) <==> request
            == (TerminalRequest::ScrollToPrompt { previous: false }),
        moved(request, rows) is None <==> !(request is ScrollLines) && !(request is ScrollPage)
            && !(request is ScrollToEdge) && !(request is ScrollToPrompt),
{
}

/// A search shows the line of its first match, and counts every match.
pub proof fn law_first_match_is_shown(lines: Seq<usize>, line: usize)
    ensures
        search_result(seq![line] + lines) == ((lines.len() + 1) as nat, Some(line)),
        search_result(Seq::empty()) == (0nat, None::<usize>),
{
}

} // verus!
