//! What the mouse does in a terminal: reports to an application that tracks it,
//! selections, links, pasting and scrolling.

use crate::ui::keyboard::held;
use crate::ui::keys::{ALT_MASK, CONTROL_MASK, SHIFT_MASK};
use vstd::prelude::*;

verus! {

/// Lines of movement for one notch of the wheel.
pub const SCROLL_LINES: usize = 3;

/// What an application wants to know of the mouse.
#[derive(Clone, Copy, Debug, PartialEq, Eq, Structural)]
pub enum MouseMode {
    Off,
    Normal,
    ButtonEvent,
    AnyEvent,
    Other,
}

/// How a position is reported.
#[derive(Clone, Copy, Debug, PartialEq, Eq, Structural)]
pub enum MouseEncoding {
    /// By the pixel.
    SgrPixels,
    /// By the cell, in whichever form.
    Cells,
}

#[derive(Clone, Copy, Debug, PartialEq, Eq, Structural)]
pub enum MouseButton {
    Left,
    Middle,
    Right,
    WheelUp,
    WheelDown,
}

/// The modifiers that a mouse report carries.
#[derive(Clone, Copy, Debug, PartialEq, Eq, Structural)]
pub struct MouseModifiers {
    pub shift: bool,
    pub alt: bool,
    pub ctrl: bool,
}

/// The modifiers in the bits of an event, as a mouse report carries them.
pub open spec fn mouse_modifiers(state: u32) -> MouseModifiers {
    MouseModifiers {
        shift: held(state, SHIFT_MASK),
        alt: held(state, ALT_MASK),
        ctrl: held(state, CONTROL_MASK),
    }
}

/// A mouse report carries Shift by the first bit of an event, Ctrl by the third and Alt
/// by the fourth, each whatever the others are.
pub proof fn law_mouse_modifiers_are_their_bits(state: u32)
    ensures
        mouse_modifiers(state).shift == (state & 1 == 1),
        mouse_modifiers(state).ctrl == (state & 4 == 4),
        mouse_modifiers(state).alt == (state & 8 == 8),
{
}

/// The modifiers that a mouse report carries, from the bits of an event.
pub fn gtk_state_to_mouse_mods(state: u32) -> (modifiers: MouseModifiers)
    ensures
        modifiers == mouse_modifiers(state),
{
    MouseModifiers {
        shift: state & SHIFT_MASK == SHIFT_MASK,
        alt: state & ALT_MASK == ALT_MASK,
        ctrl: state & CONTROL_MASK == CONTROL_MASK,
    }
}

#[derive(Clone, Copy, Debug, PartialEq, Eq, Structural)]
pub struct MousePosition {
    pub col: usize,
    pub row: usize,
    pub pixel_x: i32,
    pub pixel_y: i32,
}

impl MousePosition {
    /// The upper left corner.
    pub fn origin() -> (position: Self)
        ensures
            position == (MousePosition { col: 0, row: 0, pixel_x: 0, pixel_y: 0 }),
    {
        MousePosition { col: 0, row: 0, pixel_x: 0, pixel_y: 0 }
    }
}

/// Whether two positions differ in what is reported of them.
pub open spec fn moved(encoding: MouseEncoding, from: MousePosition, to: MousePosition) -> bool {
    if encoding == MouseEncoding::SgrPixels {
        from.pixel_x != to.pixel_x || from.pixel_y != to.pixel_y
    } else {
        from.col != to.col || from.row != to.row
    }
}

pub fn mouse_position_changed(
    encoding: MouseEncoding,
    previous: MousePosition,
    current: MousePosition,
) -> (changed: bool)
    ensures
        changed == moved(encoding, previous, current),
{
    if encoding == MouseEncoding::SgrPixels {
        previous.pixel_x != current.pixel_x || previous.pixel_y != current.pixel_y
    } else {
        previous.col != current.col || previous.row != current.row
    }
}

/// What is reported to an application.
#[derive(Clone, Copy, Debug, PartialEq, Eq, Structural)]
pub enum MouseEvent {
    Press(MouseButton),
    Release(MouseButton),
    /// The mouse moved, with this button held.
    Motion(Option<MouseButton>),
}

/// What a selection grows by.
#[derive(Clone, Copy, Debug, PartialEq, Eq, Structural)]
pub enum SelectionMode {
    Char,
    Word,
    Line,
    Block,
}

/// The mode of the selection that a number of clicks starts.
pub open spec fn clicked_mode(clicks: i32) -> SelectionMode {
    if clicks == 2 {
        SelectionMode::Word
    } else if clicks == 3 {
        SelectionMode::Line
    } else {
        SelectionMode::Char
    }
}

fn mode_of_clicks(clicks: i32) -> (mode: SelectionMode)
    ensures
        mode == clicked_mode(clicks),
{
    if clicks == 2 {
        SelectionMode::Word
    } else if clicks == 3 {
        SelectionMode::Line
    } else {
        SelectionMode::Char
    }
}

/// What a mouse event leads to.
#[derive(Clone, Copy, Debug, PartialEq, Eq, Structural)]
pub enum MouseStep {
    Nothing,
    /// Open the link under the pointer.
    OpenLink,
    /// Report a press, and say whether the application takes it.
    TryReport(MouseButton),
    /// Report an event, whatever becomes of it.
    Report(MouseEvent),
    StartSelection(SelectionMode),
    ExtendSelection,
    ClearSelection,
    /// Copy the selection to where a middle click pastes from.
    CopyToPrimary,
    /// Offer to open or copy the link under the pointer.
    ShowLinkMenu,
    /// Paste what was selected last.
    PastePrimary,
    /// Show that the pointer is, or is not, over a link.
    Hover { link: bool },
    /// Type an arrow key this many times.
    TypeArrow { up: bool, times: usize },
    /// Move through the history.
    ScrollViewport { up: bool, lines: usize },
}

/// A selection that was just finished.
#[derive(Clone, Copy, Debug, PartialEq, Eq, Structural)]
pub struct FinishedSelection {
    /// It starts and ends at the same place.
    pub empty: bool,
    pub mode: SelectionMode,
}

/// What becomes of a finished selection. A word or a line is never empty.
pub open spec fn finish(selection: Option<FinishedSelection>) -> MouseStep {
    match selection {
        None => MouseStep::Nothing,
        Some(selection) => if selection.empty && (selection.mode == SelectionMode::Char
            || selection.mode == SelectionMode::Block) {
            MouseStep::ClearSelection
        } else {
            MouseStep::CopyToPrimary
        },
    }
}

/// What the mouse is doing in a terminal.
#[derive(Clone, Copy, Debug, PartialEq, Eq, Structural)]
pub struct MouseState {
    /// A selection is being dragged.
    pub selecting: bool,
    /// Where the pointer was last seen.
    pub last_position: MousePosition,
    /// The button whose press an application took.
    pub pressed: Option<MouseButton>,
}

/// An application took the press of a button.
pub open spec fn after_taken(state: MouseState, button: MouseButton) -> MouseState {
    MouseState { pressed: Some(button), ..state }
}

/// The primary button goes up: where an application took a press, it gets the
/// release; otherwise the selection is finished.
pub open spec fn primary_release(state: MouseState, selection: Option<FinishedSelection>) -> (
    MouseState,
    MouseStep,
) {
    match state.pressed {
        Some(button) => (
            MouseState { pressed: None, ..state },
            MouseStep::Report(MouseEvent::Release(button)),
        ),
        None => (MouseState { selecting: false, ..state }, finish(selection)),
    }
}

/// Another button goes up: its release is reported where its press was.
pub open spec fn other_release(state: MouseState, button: MouseButton) -> (MouseState, MouseStep) {
    if state.pressed == Some(button) {
        (MouseState { pressed: None, ..state }, MouseStep::Report(MouseEvent::Release(button)))
    } else {
        (state, MouseStep::Nothing)
    }
}

/// The primary button goes down.
pub open spec fn primary_press(
    state: MouseState,
    clicks: i32,
    ctrl: bool,
    shift: bool,
    link: bool,
    mode: MouseMode,
) -> (MouseState, MouseStep) {
    if ctrl && link {
        (state, MouseStep::OpenLink)
    } else if !shift && mode != MouseMode::Off {
        (state, MouseStep::TryReport(MouseButton::Left))
    } else {
        (
            MouseState { selecting: true, ..state },
            MouseStep::StartSelection(clicked_mode(clicks)),
        )
    }
}

/// The secondary button goes down.
pub open spec fn secondary_press(shift: bool, link: bool, mode: MouseMode) -> MouseStep {
    if !shift && mode != MouseMode::Off {
        MouseStep::TryReport(MouseButton::Right)
    } else if link {
        MouseStep::ShowLinkMenu
    } else {
        MouseStep::Nothing
    }
}

/// The middle button goes down.
pub open spec fn middle_press(shift: bool, mode: MouseMode) -> MouseStep {
    if !shift && mode != MouseMode::Off {
        MouseStep::TryReport(MouseButton::Middle)
    } else {
        MouseStep::PastePrimary
    }
}

/// An application did not take the press that it was asked about.
pub open spec fn declined_press(state: MouseState, button: MouseButton, clicks: i32, link: bool) -> (
    MouseState,
    MouseStep,
) {
    match button {
        MouseButton::Left => (
            MouseState { selecting: true, ..state },
            MouseStep::StartSelection(clicked_mode(clicks)),
        ),
        MouseButton::Right => (
            state,
            if link {
                MouseStep::ShowLinkMenu
            } else {
                MouseStep::Nothing
            },
        ),
        MouseButton::Middle => (state, MouseStep::PastePrimary),
        _ => (state, MouseStep::Nothing),
    }
}

/// The pointer moves.
pub open spec fn pointer_move(
    state: MouseState,
    position: MousePosition,
    shift: bool,
    link: bool,
    mode: MouseMode,
    encoding: MouseEncoding,
) -> (MouseState, MouseStep) {
    (
        MouseState { last_position: position, ..state },
        if !shift && (state.pressed is Some || mode == MouseMode::AnyEvent) {
            if moved(encoding, state.last_position, position) {
                MouseStep::Report(MouseEvent::Motion(state.pressed))
            } else {
                MouseStep::Nothing
            }
        } else if state.selecting {
            MouseStep::ExtendSelection
        } else {
            MouseStep::Hover { link }
        },
    )
}

/// The wheel turns.
pub open spec fn wheel_turn(
    up: bool,
    shift: bool,
    mode: MouseMode,
    alternate_screen: bool,
    alternate_scroll: bool,
) -> MouseStep {
    if !shift && mode != MouseMode::Off {
        MouseStep::Report(
            MouseEvent::Press(
                if up {
                    MouseButton::WheelUp
                } else {
                    MouseButton::WheelDown
                },
            ),
        )
    } else if !shift && alternate_screen && alternate_scroll {
        MouseStep::TypeArrow { up, times: SCROLL_LINES }
    } else {
        MouseStep::ScrollViewport { up, lines: SCROLL_LINES }
    }
}

/// When no application took the press, letting go of the primary button throws the
/// selection away only where it starts and ends at the same place; a selection that is
/// not empty is copied to where a middle click pastes from, whatever it grew by. Only
/// words and lines are copied from a single place.
pub proof fn law_what_was_selected_is_copied(state: MouseState, selection: FinishedSelection)
    requires
        state.pressed is None,
    ensures
        ({
            let (up, step) = primary_release(state, Some(selection));
            &&& !selection.empty ==> step == MouseStep::CopyToPrimary
            &&& step == MouseStep::ClearSelection ==> selection.empty
            &&& step == MouseStep::ClearSelection || step == MouseStep::CopyToPrimary
            &&& selection.empty && selection.mode == SelectionMode::Char ==> step
                == MouseStep::ClearSelection
            &&& selection.empty && selection.mode == SelectionMode::Block ==> step
                == MouseStep::ClearSelection
            &&& selection.mode == SelectionMode::Word ==> step == MouseStep::CopyToPrimary
            &&& selection.mode == SelectionMode::Line ==> step == MouseStep::CopyToPrimary
            &&& !up.selecting
            &&& up.pressed is None
            &&& up.last_position == state.last_position
        }),
        primary_release(state, None).1 == MouseStep::Nothing,
        !primary_release(state, None).0.selecting,
{
}

/// Dragging where no application tracks the mouse: the press starts a selection, every
/// movement extends it, and letting go copies what was selected and leaves nothing
/// behind that a later movement would extend.
pub proof fn law_dragging_selects_text(
    state: MouseState,
    clicks: i32,
    ctrl: bool,
    shift: bool,
    position: MousePosition,
    link: bool,
    encoding: MouseEncoding,
    selection: FinishedSelection,
)
    requires
        state.pressed is None,
        !selection.empty,
    ensures
        ({
            let (down, start) = primary_press(state, clicks, ctrl, shift, false, MouseMode::Off);
            let (dragged, extend) = pointer_move(
                down,
                position,
                shift,
                link,
                MouseMode::Off,
                encoding,
            );
            let (up, finish) = primary_release(dragged, Some(selection));
            let (_, later) = pointer_move(up, position, shift, link, MouseMode::Off, encoding);
            &&& start is StartSelection
            &&& extend == MouseStep::ExtendSelection
            &&& finish == MouseStep::CopyToPrimary
            &&& later == (MouseStep::Hover { link })
            &&& dragged.last_position == position
        }),
{
}

/// One click selects by the character, two by the word and three by the line; further
/// clicks start over.
pub proof fn law_clicks_choose_what_is_selected(state: MouseState, clicks: i32, mode: SelectionMode)
    ensures
        ({
            let started = MouseStep::StartSelection(mode);
            &&& primary_press(state, clicks, false, true, false, MouseMode::Off).1 == started <==> (
            mode == SelectionMode::Word && clicks == 2 || mode == SelectionMode::Line && clicks == 3
                || mode == SelectionMode::Char && clicks != 2 && clicks != 3)
            &&& declined_press(state, MouseButton::Left, clicks, false).1 == started
                <==> primary_press(state, clicks, false, true, false, MouseMode::Off).1 == started
        }),
{
}

/// Holding Shift keeps the mouse from an application: no press, turn of the wheel or
/// movement is reported, and each does what it does where no application tracks the
/// mouse.
pub proof fn law_shift_bypasses_the_application(
    state: MouseState,
    clicks: i32,
    ctrl: bool,
    link: bool,
    mode: MouseMode,
    position: MousePosition,
    encoding: MouseEncoding,
    up: bool,
    alternate: bool,
)
    ensures
        primary_press(state, clicks, ctrl, true, link, mode) == primary_press(
            state,
            clicks,
            ctrl,
            false,
            link,
            MouseMode::Off,
        ),
        secondary_press(true, link, mode) == secondary_press(false, link, MouseMode::Off),
        middle_press(true, mode) == middle_press(false, MouseMode::Off),
        middle_press(true, mode) == MouseStep::PastePrimary,
        secondary_press(true, true, mode) == MouseStep::ShowLinkMenu,
        secondary_press(true, false, mode) == MouseStep::Nothing,
        !(pointer_move(state, position, true, link, mode, encoding).1 is Report),
        !(primary_press(state, clicks, ctrl, true, link, mode).1 is TryReport),
        wheel_turn(up, true, mode, alternate, alternate) == (MouseStep::ScrollViewport {
            up,
            lines: 3,
        }),
{
}

/// An application that tracks the mouse is asked about the button that went down, and
/// gets the wheel the way it turned; where it declines, the button does what it does
/// without an application.
pub proof fn law_applications_get_the_button_that_was_used(
    state: MouseState,
    clicks: i32,
    link: bool,
    mode: MouseMode,
    alternate: bool,
)
    requires
        mode != MouseMode::Off,
    ensures
        primary_press(state, clicks, false, false, link, mode) == (
            state,
            MouseStep::TryReport(MouseButton::Left),
        ),
        secondary_press(false, link, mode) == MouseStep::TryReport(MouseButton::Right),
        middle_press(false, mode) == MouseStep::TryReport(MouseButton::Middle),
        wheel_turn(true, false, mode, alternate, alternate) == MouseStep::Report(
            MouseEvent::Press(MouseButton::WheelUp),
        ),
        wheel_turn(false, false, mode, alternate, alternate) == MouseStep::Report(
            MouseEvent::Press(MouseButton::WheelDown),
        ),
        declined_press(state, MouseButton::Left, clicks, link) == primary_press(
            state,
            clicks,
            false,
            true,
            link,
            mode,
        ),
        declined_press(state, MouseButton::Right, clicks, link).1 == secondary_press(
            true,
            link,
            mode,
        ),
        declined_press(state, MouseButton::Middle, clicks, link).1 == middle_press(true, mode),
        declined_press(state, MouseButton::Right, clicks, link).0 == state,
        declined_press(state, MouseButton::Middle, clicks, link).0 == state,
{
}

/// Ctrl opens the link that the pointer is over, and only then; every other press of the
/// primary button goes on as if there were none.
pub proof fn law_ctrl_opens_the_link(
    state: MouseState,
    clicks: i32,
    ctrl: bool,
    shift: bool,
    link: bool,
    mode: MouseMode,
)
    ensures
        primary_press(state, clicks, ctrl, shift, link, mode).1 == MouseStep::OpenLink <==> ctrl
            && link,
        primary_press(state, clicks, true, shift, true, mode).0 == state,
        primary_press(state, clicks, ctrl, shift, false, mode) == primary_press(
            state,
            clicks,
            false,
            shift,
            link,
            mode,
        ),
{
}

/// The wheel moves three lines the way it turns: through the history, or with arrow keys
/// on the alternate screen of a program that wants them and does not track the mouse.
pub proof fn law_wheel_moves_the_way_it_turns(
    up: bool,
    shift: bool,
    alternate_screen: bool,
    alternate_scroll: bool,
)
    ensures
        wheel_turn(up, shift, MouseMode::Off, alternate_screen, alternate_scroll)
            == (MouseStep::TypeArrow { up, times: 3 }) <==> !shift && alternate_screen
            && alternate_scroll,
        wheel_turn(up, shift, MouseMode::Off, alternate_screen, alternate_scroll)
            == (MouseStep::ScrollViewport { up, lines: 3 }) <==> shift || !alternate_screen
            || !alternate_scroll,
{
}

/// A movement is reported with the button whose press the application took, and without
/// one only to an application that asked for every movement; never where nothing of the
/// reported position changed, and always where it did.
pub proof fn law_movements_are_reported_once(
    state: MouseState,
    position: MousePosition,
    link: bool,
    mode: MouseMode,
    encoding: MouseEncoding,
)
    ensures
        ({
            let (after, step) = pointer_move(state, position, false, link, mode, encoding);
            let (_, again) = pointer_move(after, position, false, link, mode, encoding);
            let wanted = state.pressed is Some || mode == MouseMode::AnyEvent;
            &&& after.last_position == position
            &&& after.pressed == state.pressed
            &&& after.selecting == state.selecting
            &&& step is Report ==> step == MouseStep::Report(MouseEvent::Motion(state.pressed))
            &&& !(again is Report)
            &&& step is Report ==> wanted && position != state.last_position
            &&& wanted && encoding == MouseEncoding::SgrPixels && (position.pixel_x
                != state.last_position.pixel_x || position.pixel_y != state.last_position.pixel_y)
                ==> step is Report
            &&& wanted && encoding == MouseEncoding::Cells && (position.col
                != state.last_position.col || position.row != state.last_position.row)
                ==> step is Report
            &&& encoding == MouseEncoding::Cells && position.col == state.last_position.col
                && position.row == state.last_position.row ==> !(step is Report)
            &&& encoding == MouseEncoding::SgrPixels && position.pixel_x
                == state.last_position.pixel_x && position.pixel_y == state.last_position.pixel_y
                ==> !(step is Report)
            &&& !wanted && state.selecting ==> step == MouseStep::ExtendSelection
            &&& !wanted && !state.selecting ==> step == (MouseStep::Hover { link })
        }),
{
}

/// A press that an application took is followed by the report of one release, and
/// of no second one, whichever button it was.
pub proof fn law_taken_press_is_released_once(
    state: MouseState,
    button: MouseButton,
    selection: Option<FinishedSelection>,
)
    ensures
        ({
            let (up, step) = primary_release(after_taken(state, button), selection);
            &&& step == MouseStep::Report(MouseEvent::Release(button))
            &&& !(primary_release(up, selection).1 is Report)
            &&& !(other_release(up, button).1 is Report)
        }),
        ({
            let (up, step) = other_release(after_taken(state, button), button);
            &&& step == MouseStep::Report(MouseEvent::Release(button))
            &&& !(primary_release(up, selection).1 is Report)
            &&& !(other_release(up, button).1 is Report)
        }),
{
}

impl MouseState {
    /// A mouse that has done nothing yet.
    pub fn new() -> (state: Self)
        ensures
            state == (MouseState {
                selecting: false,
                last_position: MousePosition { col: 0, row: 0, pixel_x: 0, pixel_y: 0 },
                pressed: None,
            }),
    {
        MouseState { selecting: false, last_position: MousePosition::origin(), pressed: None }
    }

    /// The primary button went down. With Ctrl it opens a link; otherwise an
    /// application that tracks the mouse is asked first, except with Shift; and
    /// then a selection starts.
    pub fn primary_pressed(
        &mut self,
        clicks: i32,
        ctrl: bool,
        shift: bool,
        link: bool,
        mode: MouseMode,
    ) -> (step: MouseStep)
        ensures
            (*final(self), step) == primary_press(*old(self), clicks, ctrl, shift, link, mode),
    {
        if ctrl && link {
            return MouseStep::OpenLink;
        }
        if !shift && mode != MouseMode::Off {
            return MouseStep::TryReport(MouseButton::Left);
        }
        self.selecting = true;
        MouseStep::StartSelection(mode_of_clicks(clicks))
    }

    /// The secondary button went down: an application that tracks the mouse is
    /// asked first, except with Shift; and then a link offers its menu.
    pub fn secondary_pressed(&self, shift: bool, link: bool, mode: MouseMode) -> (step: MouseStep)
        ensures
            step == secondary_press(shift, link, mode),
    {
        if !shift && mode != MouseMode::Off {
            MouseStep::TryReport(MouseButton::Right)
        } else if link {
            MouseStep::ShowLinkMenu
        } else {
            MouseStep::Nothing
        }
    }

    /// The middle button went down: an application that tracks the mouse is
    /// asked first, except with Shift; and then the last selection is pasted.
    pub fn middle_pressed(&self, shift: bool, mode: MouseMode) -> (step: MouseStep)
        ensures
            step == middle_press(shift, mode),
    {
        if !shift && mode != MouseMode::Off {
            MouseStep::TryReport(MouseButton::Middle)
        } else {
            MouseStep::PastePrimary
        }
    }

    /// An application took the press that it was asked about, or it did not and
    /// the press is handled here.
    pub fn press_answered(
        &mut self,
        button: MouseButton,
        taken: bool,
        clicks: i32,
        link: bool,
    ) -> (step: MouseStep)
        ensures
            if taken {
                &&& step == MouseStep::Nothing
                &&& *final(self) == after_taken(*old(self), button)
            } else {
                (*final(self), step) == declined_press(*old(self), button, clicks, link)
            },
    {
        if taken {
            self.pressed = Some(button);
            return MouseStep::Nothing;
        }
        match button {
            MouseButton::Left => {
                self.selecting = true;
                MouseStep::StartSelection(mode_of_clicks(clicks))
            },
            MouseButton::Right => if link {
                MouseStep::ShowLinkMenu
            } else {
                MouseStep::Nothing
            },
            MouseButton::Middle => MouseStep::PastePrimary,
            _ => MouseStep::Nothing,
        }
    }

    /// The primary button went up: where an application took a press, it gets
    /// the release; otherwise the selection is finished.
    pub fn primary_released(&mut self, selection: Option<FinishedSelection>) -> (step: MouseStep)
        ensures
            (*final(self), step) == primary_release(*old(self), selection),
    {
        if let Some(button) = self.pressed {
            self.pressed = None;
            return MouseStep::Report(MouseEvent::Release(button));
        }
        self.selecting = false;
        match selection {
            None => MouseStep::Nothing,
            Some(selection) => if selection.empty && (selection.mode == SelectionMode::Char
                || selection.mode == SelectionMode::Block) {
                MouseStep::ClearSelection
            } else {
                MouseStep::CopyToPrimary
            },
        }
    }

    /// Another button went up: its release is reported where its press was.
    pub fn other_released(&mut self, button: MouseButton) -> (step: MouseStep)
        ensures
            (*final(self), step) == other_release(*old(self), button),
    {
        if self.pressed == Some(button) {
            self.pressed = None;
            MouseStep::Report(MouseEvent::Release(button))
        } else {
            MouseStep::Nothing
        }
    }

    /// The pointer moved. Except with Shift, a drag whose press an application
    /// took and the motion that an application asked for are reported, but only
    /// from one position to another; then a selection is extended; and otherwise
    /// the pointer shows whether it is over a link.
    pub fn pointer_moved(
        &mut self,
        position: MousePosition,
        shift: bool,
        link: bool,
        mode: MouseMode,
        encoding: MouseEncoding,
    ) -> (step: MouseStep)
        ensures
            (*final(self), step) == pointer_move(
                *old(self),
                position,
                shift,
                link,
                mode,
                encoding,
            ),
    {
        let previous = self.last_position;
        self.last_position = position;
        if !shift && (self.pressed.is_some() || mode == MouseMode::AnyEvent) {
            if mouse_position_changed(encoding, previous, position) {
                return MouseStep::Report(MouseEvent::Motion(self.pressed));
            }
            return MouseStep::Nothing;
        }
        if self.selecting {
            return MouseStep::ExtendSelection;
        }
        MouseStep::Hover { link }
    }

    /// The wheel turned. With Shift it always moves through the history;
    /// otherwise an application that tracks the mouse gets it, and on the
    /// alternate screen it may type arrow keys.
    pub fn wheel_turned(
        &self,
        up: bool,
        shift: bool,
        mode: MouseMode,
        alternate_screen: bool,
        alternate_scroll: bool,
    ) -> (step: MouseStep)
        ensures
            step == wheel_turn(up, shift, mode, alternate_screen, alternate_scroll),
    {
        if !shift {
            if mode != MouseMode::Off {
                let button = if up {
                    MouseButton::WheelUp
                } else {
                    MouseButton::WheelDown
                };
                return MouseStep::Report(MouseEvent::Press(button));
            }
            if alternate_screen && alternate_scroll {
                return MouseStep::TypeArrow { up, times: SCROLL_LINES };
            }
        }
        MouseStep::ScrollViewport { up, lines: SCROLL_LINES }
    }
}

/// The corners that select everything, by line and column.
pub open spec fn all_corners(total_lines: usize, width: usize) -> ((usize, usize), (usize, usize)) {
    (
        (0, 0),
        (
            if total_lines == 0 {
                0
            } else {
                (total_lines - 1) as usize
            },
            if width == 0 {
                0
            } else {
                (width - 1) as usize
            },
        ),
    )
}

/// Every cell of every line, and no other, lies between the corners that select
/// everything.
pub proof fn law_everything_is_selected(total_lines: usize, width: usize, line: usize, column: usize)
    requires
        total_lines > 0,
        width > 0,
    ensures
        ({
            let (first, last) = all_corners(total_lines, width);
            first.0 <= line <= last.0 && first.1 <= column <= last.1 <==> line < total_lines
                && column < width
        }),
{
}

/// The corners that select everything: the first cell, and the last cell of the
/// last line.
pub fn select_all(total_lines: usize, width: usize) -> (corners: ((usize, usize), (usize, usize)))
    ensures
        corners == all_corners(total_lines, width),
{
    let last_line: usize = if total_lines == 0 {
        0
    } else {
        total_lines - 1
    };
    let last_column: usize = if width == 0 {
        0
    } else {
        width - 1
    };
    ((0, 0), (last_line, last_column))
}

} // verus!
