//! The stream between a terminal widget and the daemon that runs its session:
//! what is sent, and what is done with what arrives.

use crate::bytes::append_bytes;
use std::collections::VecDeque;
use vstd::prelude::*;

verus! {

/// The text that switches a paste on and off for an application that asked to
/// tell pasted text from typed text.
pub const PASTE_START: &'static str = "\u{1b}[200~";

pub const PASTE_END: &'static str = "\u{1b}[201~";

/// What is written for a paste.
pub open spec fn pasted(text: Seq<char>, bracketed: bool) -> Seq<char> {
    if bracketed {
        PASTE_START@ + text + PASTE_END@
    } else {
        text
    }
}

/// A paste is the text itself; for an application that asked, it stands whole between
/// an escape sequence that opens it and one that closes it.
pub proof fn law_pastes_hold_their_text(text: Seq<char>)
    ensures
        pasted(text, false) == text,
        pasted(text, true) == seq!['\u{1b}', '[', '2', '0', '0', '~'] + text + seq![
            '\u{1b}',
            '[',
            '2',
            '0',
            '1',
            '~',
        ],
        pasted(text, true).subrange(6, 6int + text.len()) == text,
{
    reveal_strlit("\u{1b}[200~");
    reveal_strlit("\u{1b}[201~");
    assert(PASTE_START@ =~= seq!['\u{1b}', '[', '2', '0', '0', '~']);
    assert(PASTE_END@ =~= seq!['\u{1b}', '[', '2', '0', '1', '~']);
    assert(pasted(text, true).subrange(6, 6int + text.len()) =~= text);
}

/// What is written for a paste.
pub fn paste_text(text: &str, bracketed: bool) -> (written: String)
    ensures
        written@ == pasted(text@, bracketed),
{
    if bracketed {
        let mut written = PASTE_START.to_owned();
        written.append(text);
        written.append(PASTE_END);
        written
    } else {
        text.to_owned()
    }
}

/// What is written for a dropped file: only its contents count as a paste.
pub fn drop_text(text: &str, contents: bool, bracketed: bool) -> (written: String)
    ensures
        written@ == pasted(text@, contents && bracketed),
{
    paste_text(text, contents && bracketed)
}

/// The report that a terminal has the input, or has lost it.
pub open spec fn focus_text(focused: bool) -> Seq<char> {
    if focused {
        "\u{1b}[I"@
    } else {
        "\u{1b}[O"@
    }
}

/// Getting the input is reported by an `I`, for in, and losing it by an `O`, for out.
pub proof fn law_focus_is_reported_in_and_out()
    ensures
        focus_text(true) == seq!['\u{1b}', '[', 'I'],
        focus_text(false) == seq!['\u{1b}', '[', 'O'],
{
    reveal_strlit("\u{1b}[I");
    reveal_strlit("\u{1b}[O");
    assert(focus_text(true) =~= seq!['\u{1b}', '[', 'I']);
    assert(focus_text(false) =~= seq!['\u{1b}', '[', 'O']);
}

/// What is written when the terminal gets or loses the input, for an application
/// that asked to know.
pub fn focus_report(asked: bool, focused: bool) -> (report: Option<&'static str>)
    ensures
        match report {
            Some(text) => asked && text@ == focus_text(focused),
            None => !asked,
        },
{
    if !asked {
        None
    } else if focused {
        Some("\u{1b}[I")
    } else {
        Some("\u{1b}[O")
    }
}

/// The size of a terminal in cells and in pixels.
#[derive(Clone, Copy, Debug, PartialEq, Eq, Structural)]
pub struct TerminalSize {
    pub cols: u32,
    pub rows: u32,
    pub pixel_width: u32,
    pub pixel_height: u32,
}

pub open spec fn at_least_one(pixels: i32) -> int {
    if pixels < 1 {
        1
    } else {
        pixels as int
    }
}

pub open spec fn pixel_clamp(pixels: i32) -> int {
    if pixels > u16::MAX {
        u16::MAX as int
    } else {
        at_least_one(pixels)
    }
}

/// The size that a terminal is told.
pub open spec fn local_size(cols: u32, rows: u32, width: i32, height: i32) -> TerminalSize {
    TerminalSize {
        cols,
        rows,
        pixel_width: pixel_clamp(width) as u32,
        pixel_height: pixel_clamp(height) as u32,
    }
}

/// The size that its daemon is told.
pub open spec fn remote_size(cols: u32, rows: u32, width: i32, height: i32) -> TerminalSize {
    TerminalSize {
        cols,
        rows,
        pixel_width: at_least_one(width) as u32,
        pixel_height: at_least_one(height) as u32,
    }
}

/// Both sides are told the same columns and rows, and the width and height of the widget
/// as they are; a widget that is not laid out yet counts one pixel, and only the
/// terminal's own count stops at sixteen bits.
pub proof fn law_both_sides_are_told_the_size(cols: u32, rows: u32, width: i32, height: i32)
    ensures
        ({
            let local = local_size(cols, rows, width, height);
            let remote = remote_size(cols, rows, width, height);
            &&& local.cols == cols
            &&& local.rows == rows
            &&& remote.cols == cols
            &&& remote.rows == rows
            &&& 1 <= width <= 65535 ==> local.pixel_width == width
            &&& 1 <= height <= 65535 ==> local.pixel_height == height
            &&& 1 <= width ==> remote.pixel_width == width
            &&& 1 <= height ==> remote.pixel_height == height
            &&& width < 1 ==> local.pixel_width == 1 && remote.pixel_width == 1
            &&& height < 1 ==> local.pixel_height == 1 && remote.pixel_height == 1
            &&& width > 65535 ==> local.pixel_width == 65535
            &&& height > 65535 ==> local.pixel_height == 65535
        }),
{
}

fn clamped_pixels(pixels: i32) -> (clamped: u16)
    ensures
        clamped == pixel_clamp(pixels),
{
    if pixels < 1 {
        1
    } else if pixels > 0xffff {
        0xffff
    } else {
        pixels as u16
    }
}

/// What a terminal and its daemon are told when the widget gets another size:
/// nothing while no cell fits. The terminal counts pixels in 16 bits, the daemon
/// in 32.
pub fn resized(cols: u32, rows: u32, width: i32, height: i32) -> (sizes: Option<
    (TerminalSize, TerminalSize),
>)
    ensures
        match sizes {
            Some((local, remote)) => {
                &&& cols > 0 && rows > 0
                &&& local == local_size(cols, rows, width, height)
                &&& remote == remote_size(cols, rows, width, height)
            },
            None => cols == 0 || rows == 0,
        },
{
    if cols == 0 || rows == 0 {
        return None;
    }
    let local = TerminalSize {
        cols,
        rows,
        pixel_width: clamped_pixels(width) as u32,
        pixel_height: clamped_pixels(height) as u32,
    };
    let remote_width: u32 = if width < 1 {
        1
    } else {
        width as u32
    };
    let remote_height: u32 = if height < 1 {
        1
    } else {
        height as u32
    };
    Some(
        (
            local,
            TerminalSize { cols, rows, pixel_width: remote_width, pixel_height: remote_height },
        ),
    )
}

/// What both sides are told when the font changed: the same size, in 16 bits.
pub fn rescaled(cols: u32, rows: u32, width: i32, height: i32) -> (size: Option<TerminalSize>)
    ensures
        size == (if cols > 0 && rows > 0 {
            Some(local_size(cols, rows, width, height))
        } else {
            None
        }),
{
    if cols == 0 || rows == 0 {
        return None;
    }
    Some(
        TerminalSize {
            cols,
            rows,
            pixel_width: clamped_pixels(width) as u32,
            pixel_height: clamped_pixels(height) as u32,
        },
    )
}

/// Whether a window can be seen.
#[derive(Clone, Copy, Debug, PartialEq, Eq, Structural)]
pub enum WindowVisibility {
    Visible,
    Hidden,
}

/// Whether a pane can be seen.
pub open spec fn seen(window_visible: bool, widget_mapped: bool) -> WindowVisibility {
    if window_visible && widget_mapped {
        WindowVisibility::Visible
    } else {
        WindowVisibility::Hidden
    }
}

/// A pane can be seen exactly where its window can and its own widget is shown.
pub proof fn law_panes_are_seen_in_visible_windows(window_visible: bool, widget_mapped: bool)
    ensures
        seen(window_visible, widget_mapped) == WindowVisibility::Visible <==> window_visible
            && widget_mapped,
        seen(window_visible, widget_mapped) == WindowVisibility::Hidden <==> !window_visible
            || !widget_mapped,
{
}

/// What a pane's application is told: that it can be seen while its window is
/// and its own widget is shown.
pub fn pane_visibility(window_visible: bool, widget_mapped: bool) -> (visibility: WindowVisibility)
    ensures
        visibility == seen(window_visible, widget_mapped),
{
    if window_visible && widget_mapped {
        WindowVisibility::Visible
    } else {
        WindowVisibility::Hidden
    }
}

/// What a change of visibility leads to.
#[derive(Clone, Copy, Debug, PartialEq, Eq, Structural)]
pub enum VisibilityUpdate {
    /// It is known already.
    Unchanged,
    /// The terminal answers for itself.
    Local(WindowVisibility),
    /// The terminal only notes it, and the daemon is told.
    Daemon(WindowVisibility),
}

/// What a change of visibility leads to.
pub open spec fn visibility_update(
    known: WindowVisibility,
    visibility: WindowVisibility,
    has_daemon: bool,
) -> VisibilityUpdate {
    if known == visibility {
        VisibilityUpdate::Unchanged
    } else if has_daemon {
        VisibilityUpdate::Daemon(visibility)
    } else {
        VisibilityUpdate::Local(visibility)
    }
}

/// Every change of visibility, and only a change, is told on as what it changed to: to
/// the daemon where there is one, and to the terminal itself where there is none.
pub proof fn law_changes_of_visibility_are_told(
    known: WindowVisibility,
    visibility: WindowVisibility,
    has_daemon: bool,
)
    ensures
        visibility_update(known, visibility, has_daemon) == VisibilityUpdate::Unchanged <==> known
            == visibility,
        visibility_update(known, visibility, has_daemon) == VisibilityUpdate::Daemon(visibility)
            <==> known != visibility && has_daemon,
        visibility_update(known, visibility, has_daemon) == VisibilityUpdate::Local(visibility)
            <==> known != visibility && !has_daemon,
{
}

/// What a change of visibility leads to, for a terminal with or without a
/// daemon.
pub fn update_window_visibility(
    known: WindowVisibility,
    visibility: WindowVisibility,
    has_daemon: bool,
) -> (update: VisibilityUpdate)
    ensures
        update == visibility_update(known, visibility, has_daemon),
{
    if known == visibility {
        VisibilityUpdate::Unchanged
    } else if has_daemon {
        VisibilityUpdate::Daemon(visibility)
    } else {
        VisibilityUpdate::Local(visibility)
    }
}

/// How far the reader of a session's output has come.
#[derive(Clone, Copy, Debug, PartialEq, Eq, Structural)]
pub enum ReaderPhase {
    /// It connects to the daemon of the session.
    Connecting,
    /// It attaches to the session, without the screen that is there already.
    Attaching,
    /// It gives up the attachment that the screen was fetched with.
    Releasing,
    SettingPalette,
    SettingFrontendState,
    /// It reads events and output.
    Reading,
    Ended,
}

/// What the reader does next.
#[derive(Clone, Copy, Debug, PartialEq, Eq, Structural)]
pub enum ReaderAction {
    Attach,
    Detach,
    SetPalette,
    SetFrontendState,
    /// Start to carry out commands, and to read events and output.
    Read,
    /// Tell the widget that the session ended.
    ReportEnd,
    Nothing,
}

/// The phase after one whose work succeeded or failed. Without a connection or an
/// attachment there is nothing to read; what else fails is only logged. `snapshot`
/// says that an attachment is left from fetching the screen. Reading ends when the
/// output ends, fails, or the process exits.
pub open spec fn phase_after(phase: ReaderPhase, succeeded: bool, snapshot: bool) -> ReaderPhase {
    match phase {
        ReaderPhase::Connecting => if succeeded {
            ReaderPhase::Attaching
        } else {
            ReaderPhase::Ended
        },
        ReaderPhase::Attaching => if !succeeded {
            ReaderPhase::Ended
        } else if snapshot {
            ReaderPhase::Releasing
        } else {
            ReaderPhase::SettingPalette
        },
        ReaderPhase::Releasing => ReaderPhase::SettingPalette,
        ReaderPhase::SettingPalette => ReaderPhase::SettingFrontendState,
        ReaderPhase::SettingFrontendState => ReaderPhase::Reading,
        ReaderPhase::Reading => ReaderPhase::Ended,
        ReaderPhase::Ended => ReaderPhase::Ended,
    }
}

/// What is done on entering a phase from another one.
pub open spec fn action_between(from: ReaderPhase, to: ReaderPhase) -> ReaderAction {
    if from == ReaderPhase::Ended {
        ReaderAction::Nothing
    } else {
        match to {
            ReaderPhase::Connecting => ReaderAction::Nothing,
            ReaderPhase::Attaching => ReaderAction::Attach,
            ReaderPhase::Releasing => ReaderAction::Detach,
            ReaderPhase::SettingPalette => ReaderAction::SetPalette,
            ReaderPhase::SettingFrontendState => ReaderAction::SetFrontendState,
            ReaderPhase::Reading => ReaderAction::Read,
            ReaderPhase::Ended => ReaderAction::ReportEnd,
        }
    }
}

/// The work of a phase is over: the next phase, and what is done for it.
pub fn reader_step(phase: ReaderPhase, succeeded: bool, snapshot: bool) -> (next: (
    ReaderPhase,
    ReaderAction,
))
    ensures
        next.0 == phase_after(phase, succeeded, snapshot),
        next.1 == action_between(phase, next.0),
{
    match phase {
        ReaderPhase::Connecting => if succeeded {
            (ReaderPhase::Attaching, ReaderAction::Attach)
        } else {
            (ReaderPhase::Ended, ReaderAction::ReportEnd)
        },
        ReaderPhase::Attaching => if !succeeded {
            (ReaderPhase::Ended, ReaderAction::ReportEnd)
        } else if snapshot {
            (ReaderPhase::Releasing, ReaderAction::Detach)
        } else {
            (ReaderPhase::SettingPalette, ReaderAction::SetPalette)
        },
        ReaderPhase::Releasing => (ReaderPhase::SettingPalette, ReaderAction::SetPalette),
        ReaderPhase::SettingPalette => (
            ReaderPhase::SettingFrontendState,
            ReaderAction::SetFrontendState,
        ),
        ReaderPhase::SettingFrontendState => (ReaderPhase::Reading, ReaderAction::Read),
        ReaderPhase::Reading => (ReaderPhase::Ended, ReaderAction::ReportEnd),
        ReaderPhase::Ended => (ReaderPhase::Ended, ReaderAction::Nothing),
    }
}

/// How many phases are left at most.
pub open spec fn phases_left(phase: ReaderPhase) -> nat {
    match phase {
        ReaderPhase::Connecting => 6,
        ReaderPhase::Attaching => 5,
        ReaderPhase::Releasing => 4,
        ReaderPhase::SettingPalette => 3,
        ReaderPhase::SettingFrontendState => 2,
        ReaderPhase::Reading => 1,
        ReaderPhase::Ended => 0,
    }
}

/// A reader only moves on, and whatever succeeds or fails it reports the end of the
/// session once: on entering its last phase, and at no other time.
pub proof fn law_reader_reports_the_end_once(phase: ReaderPhase, succeeded: bool, snapshot: bool)
    ensures
        ({
            let next = phase_after(phase, succeeded, snapshot);
            &&& phase != ReaderPhase::Ended ==> phases_left(next) < phases_left(phase)
            &&& phase == ReaderPhase::Ended ==> next == ReaderPhase::Ended
            &&& action_between(phase, next) == ReaderAction::ReportEnd <==> phase
                != ReaderPhase::Ended && next == ReaderPhase::Ended
        }),
{
}

/// The attachment that the screen was fetched with is given up only once the
/// reader's own attachment is there, so that the session never goes without one.
pub proof fn law_snapshot_is_released_behind_the_attachment(
    phase: ReaderPhase,
    succeeded: bool,
    snapshot: bool,
)
    ensures
        action_between(phase, phase_after(phase, succeeded, snapshot)) == ReaderAction::Detach
            <==> phase == ReaderPhase::Attaching && succeeded && snapshot,
{
}

/// The reader does one thing after the other: it attaches once it is connected, gives up
/// the attachment that the screen came with, hands over the colours and then the state of
/// the front end, and reads after that whatever became of these. A failed connection or
/// attachment ends it, as the end of the output does.
pub proof fn law_reader_does_one_thing_after_the_other(
    phase: ReaderPhase,
    succeeded: bool,
    snapshot: bool,
)
    ensures
        ({
            let action = action_between(phase, phase_after(phase, succeeded, snapshot));
            &&& action == ReaderAction::Attach <==> phase == ReaderPhase::Connecting && succeeded
            &&& action == ReaderAction::Detach <==> phase == ReaderPhase::Attaching && succeeded
                && snapshot
            &&& action == ReaderAction::SetPalette <==> phase == ReaderPhase::Releasing || phase
                == ReaderPhase::Attaching && succeeded && !snapshot
            &&& action == ReaderAction::SetFrontendState <==> phase == ReaderPhase::SettingPalette
            &&& action == ReaderAction::Read <==> phase == ReaderPhase::SettingFrontendState
            &&& action == ReaderAction::ReportEnd <==> phase == ReaderPhase::Reading || !succeeded
                && (phase == ReaderPhase::Connecting || phase == ReaderPhase::Attaching)
            &&& action == ReaderAction::Nothing <==> phase == ReaderPhase::Ended
        }),
{
}

/// Input goes down a stream.
pub open spec fn input_streams(supported: bool, opened: bool) -> bool {
    supported && opened
}

/// Composed text of some length is drawn.
pub open spec fn composing(active: bool, length: nat, scroll_offset: nat) -> bool {
    active && length > 0 && scroll_offset == 0
}

/// Input is streamed only where the daemon can and the stream is open; composed text is
/// drawn only while it is composed, only if there is any, and only over the live screen.
pub proof fn law_streams_and_composed_text_need_everything(
    supported: bool,
    opened: bool,
    active: bool,
    length: nat,
    offset: nat,
)
    ensures
        input_streams(true, true),
        !input_streams(false, opened),
        !input_streams(supported, false),
        length > 0 ==> composing(true, length, 0),
        !composing(false, length, offset),
        !composing(active, 0, offset),
        offset > 0 ==> !composing(active, length, offset),
{
}

/// Whether input goes down a stream: where the daemon offers one and it could be
/// opened.
pub fn streams_input(supported: bool, opened: bool) -> (streams: bool)
    ensures
        streams == input_streams(supported, opened),
{
    supported && opened
}

/// What the widget asks of the daemon. `T` stands for the colours and the
/// frontend state, which are passed on as they are.
#[derive(Debug)]
pub enum DaemonCommand<T> {
    Write(Vec<u8>),
    Resize(TerminalSize),
    /// End the session.
    Destroy,
    /// Leave the session running.
    Detach,
    SetTitle(String),
    SetTabColor(String),
    SetTemplateName(String),
    ClearAlert,
    SetPalette(T),
    SetFrontendState(WindowVisibility),
}

/// What is done about the next commands.
#[derive(Debug)]
pub enum DaemonStep<T> {
    /// Send the bytes down the open input stream.
    Stream(Vec<u8>),
    /// Send the bytes with a call of their own.
    Batch(Vec<u8>),
    /// Carry out a command that is no input.
    Call(DaemonCommand<T>),
    /// Carry out a command after which no other is.
    Last(DaemonCommand<T>),
}

/// The bytes that commands write up to the first one that is no input.
pub open spec fn leading_writes<T>(commands: Seq<DaemonCommand<T>>) -> Seq<u8>
    decreases commands.len(),
{
    if commands.len() == 0 {
        Seq::empty()
    } else {
        match commands[0] {
            DaemonCommand::Write(data) => data@ + leading_writes(commands.drop_first()),
            _ => Seq::empty(),
        }
    }
}

/// How many commands that is.
pub open spec fn count_writes<T>(commands: Seq<DaemonCommand<T>>) -> nat
    decreases commands.len(),
{
    if commands.len() == 0 {
        0
    } else {
        match commands[0] {
            DaemonCommand::Write(_) => 1 + count_writes(commands.drop_first()),
            _ => 0,
        }
    }
}

/// How a command that is no input is carried out.
pub open spec fn call_step<T>(command: DaemonCommand<T>) -> DaemonStep<T> {
    match command {
        DaemonCommand::Destroy | DaemonCommand::Detach => DaemonStep::Last(command),
        _ => DaemonStep::Call(command),
    }
}

/// Commands that are no input are carried out as they are. Ending the session and
/// leaving it running are the last ones, and no other is.
pub proof fn law_leaving_the_session_comes_last<T>(command: DaemonCommand<T>)
    ensures
        call_step(command) == DaemonStep::Last(command) <==> command is Destroy
            || command is Detach,
        call_step(command) == DaemonStep::Call(command) <==> !(command is Destroy)
            && !(command is Detach),
{
}

/// What goes out together is all the input in front, and nothing behind it: the first
/// command that is no input ends it.
pub proof fn law_batches_end_before_other_commands<T>(commands: Seq<DaemonCommand<T>>)
    ensures
        count_writes(commands) <= commands.len(),
        forall|i: int| 0 <= i < count_writes(commands) ==> (#[trigger] commands[i]) is Write,
        count_writes(commands) < commands.len() ==> !(commands[count_writes(commands) as int] is Write),
        commands.len() > 0 && commands[0] is Write ==> commands[0]->Write_0@.is_prefix_of(
            leading_writes(commands),
        ),
        commands.len() > 0 && !(commands[0] is Write) ==> leading_writes(commands).len() == 0,
    decreases commands.len(),
{
    if commands.len() > 0 && commands[0] is Write {
        let rest = commands.drop_first();
        law_batches_end_before_other_commands(rest);
        assert forall|i: int| 0 <= i < count_writes(commands) implies (
        #[trigger] commands[i]) is Write by {
            if i > 0 {
                assert(rest[i - 1] is Write);
            }
        }
        if count_writes(commands) < commands.len() {
            assert(rest[count_writes(rest) as int] == commands[count_writes(commands) as int]);
        }
    }
}

/// Take what is to be done next from the commands that are waiting. Without an
/// input stream, input that waits behind input goes out together with it. What
/// is not input stays behind, in its order.
pub fn next_step<T>(waiting: &mut VecDeque<DaemonCommand<T>>, streaming: bool) -> (step: Option<
    DaemonStep<T>,
>)
    ensures
        old(waiting)@.len() == 0 ==> step is None && final(waiting)@ == old(waiting)@,
        old(waiting)@.len() > 0 ==> match old(waiting)@[0] {
            DaemonCommand::Write(data) => if streaming {
                &&& step matches Some(DaemonStep::Stream(sent)) && sent@ == data@
                &&& final(waiting)@ == old(waiting)@.drop_first()
            } else {
                &&& step matches Some(DaemonStep::Batch(sent)) && sent@ == leading_writes(
                    old(waiting)@,
                )
                &&& final(waiting)@ == old(waiting)@.skip(count_writes(old(waiting)@) as int)
            },
            _ => {
                &&& step == Some(call_step(old(waiting)@[0]))
                &&& final(waiting)@ == old(waiting)@.drop_first()
            },
        },
{
    let ghost all = waiting@;
    match waiting.pop_front() {
        None => None,
        Some(command) => {
            proof {
                assert(waiting@ =~= all.drop_first());
                assert(command == all[0]);
            }
            match command {
                DaemonCommand::Write(data) => {
                    if streaming {
                        return Some(DaemonStep::Stream(data));
                    }
                    let mut batch = data;
                    proof {
                        assert(waiting@ =~= all.skip(1));
                    }
                    let ghost mut taken: int = 1;
                    while waiting.len() > 0
                        invariant
                            1 <= taken <= all.len(),
                            waiting@ == all.skip(taken),
                            batch@ + leading_writes(all.skip(taken)) == leading_writes(all),
                            taken + count_writes(all.skip(taken)) == count_writes(all),
                        ensures
                            waiting@ == all.skip(count_writes(all) as int),
                            batch@ == leading_writes(all),
                        decreases waiting@.len(),
                    {
                        let is_write = match &waiting[0] {
                            DaemonCommand::Write(_) => true,
                            _ => false,
                        };
                        if !is_write {
                            proof {
                                assert(batch@ + Seq::<u8>::empty() =~= batch@);
                            }
                            break;
                        }
                        let ghost rest = all.skip(taken);
                        let next = waiting.pop_front();
                        if let Some(DaemonCommand::Write(more)) = next {
                            let ghost before = batch@;
                            append_bytes(&mut batch, more.as_slice());
                            proof {
                                assert(rest.drop_first() =~= all.skip(taken + 1));
                                assert(before + (more@ + leading_writes(rest.drop_first()))
                                    =~= (before + more@) + leading_writes(rest.drop_first()));
                                taken = taken + 1;
                                assert(waiting@ =~= all.skip(taken));
                            }
                        }
                        proof {
                            if waiting@.len() == 0 {
                                assert(batch@ + Seq::<u8>::empty() =~= batch@);
                            }
                        }
                    }
                    Some(DaemonStep::Batch(batch))
                },
                DaemonCommand::Destroy => Some(DaemonStep::Last(DaemonCommand::Destroy)),
                DaemonCommand::Detach => Some(DaemonStep::Last(DaemonCommand::Detach)),
                other => Some(DaemonStep::Call(other)),
            }
        },
    }
}

/// The bytes that commands write until the session is left, in order.
pub open spec fn all_input<T>(commands: Seq<DaemonCommand<T>>) -> Seq<u8>
    decreases commands.len(),
{
    if commands.len() == 0 {
        Seq::empty()
    } else {
        match commands[0] {
            DaemonCommand::Write(data) => data@ + all_input(commands.drop_first()),
            DaemonCommand::Destroy | DaemonCommand::Detach => Seq::empty(),
            _ => all_input(commands.drop_first()),
        }
    }
}

/// Sending input in batches loses, repeats and reorders nothing: what goes out
/// now and what is sent of the rest is what was to be sent.
pub proof fn law_batches_keep_the_input<T>(commands: Seq<DaemonCommand<T>>)
    ensures
        count_writes(commands) <= commands.len(),
        all_input(commands) == leading_writes(commands) + all_input(
            commands.skip(count_writes(commands) as int),
        ),
    decreases commands.len(),
{
    if commands.len() == 0 {
        assert(commands.skip(0) =~= commands);
        assert(all_input(commands) =~= leading_writes(commands) + all_input(commands));
    } else {
        let rest = commands.drop_first();
        law_batches_keep_the_input(rest);
        match commands[0] {
            DaemonCommand::Write(data) => {
                let count = count_writes(rest) as int;
                assert(commands.skip(count + 1) =~= rest.skip(count));
                assert(data@ + (leading_writes(rest) + all_input(rest.skip(count))) =~= (data@
                    + leading_writes(rest)) + all_input(rest.skip(count)));
            },
            _ => {
                assert(commands.skip(0) =~= commands);
                assert(all_input(commands) =~= leading_writes(commands) + all_input(commands));
            },
        }
    }
}

/// What the daemon tells of a session.
#[derive(Clone, Copy, Debug, PartialEq, Eq, Structural)]
pub enum DaemonEvent {
    ProcessExited,
    Bell,
    /// A question that the user has to answer.
    SessionPrompt,
    Other,
}

/// What the reader does about it.
#[derive(Clone, Copy, Debug, PartialEq, Eq, Structural)]
pub enum EventStep {
    /// Stop reading, and tell the widget that the session ended.
    Stop,
    RingBell,
    /// Ask the user, and send the answer back.
    AskUser,
    Nothing,
}

/// What the reader does about an event.
pub open spec fn reaction(event: DaemonEvent) -> EventStep {
    match event {
        DaemonEvent::ProcessExited => EventStep::Stop,
        DaemonEvent::Bell => EventStep::RingBell,
        DaemonEvent::SessionPrompt => EventStep::AskUser,
        DaemonEvent::Other => EventStep::Nothing,
    }
}

/// Reading stops exactly when the process exited, a bell rings only for a bell, and the
/// user is asked only what the session asks.
pub proof fn law_events_have_their_reactions(event: DaemonEvent)
    ensures
        reaction(event) == EventStep::Stop <==> event == DaemonEvent::ProcessExited,
        reaction(event) == EventStep::RingBell <==> event == DaemonEvent::Bell,
        reaction(event) == EventStep::AskUser <==> event == DaemonEvent::SessionPrompt,
        reaction(event) == EventStep::Nothing <==> event == DaemonEvent::Other,
{
}

pub fn event_step(event: DaemonEvent) -> (step: EventStep)
    ensures
        step == reaction(event),
{
    match event {
        DaemonEvent::ProcessExited => EventStep::Stop,
        DaemonEvent::Bell => EventStep::RingBell,
        DaemonEvent::SessionPrompt => EventStep::AskUser,
        DaemonEvent::Other => EventStep::Nothing,
    }
}

/// What the terminal reports while it takes in output.
#[derive(Clone, Copy, Debug, PartialEq, Eq, Structural)]
pub enum TerminalEvent {
    /// The application sets the clipboard. `text` says whether it is valid text.
    ClipboardSet { text: bool },
    ClipboardQuery,
    Bell,
    TitleChanged,
    DesktopNotification,
    ContentChanged,
    ProcessExited,
}

/// What the widget does about it. A number says which of the events, or which of
/// the received files, is meant.
#[derive(Clone, Copy, Debug, PartialEq, Eq, Structural)]
pub enum Effect {
    SetClipboard(usize),
    AnswerClipboard(usize),
    RingBell,
    ChangeTitle(usize),
    Notify(usize),
    OfferFile(usize),
    Redraw,
}

/// What one event leads to at once. The clipboard needs a display; a changed
/// content waits for the end.
pub open spec fn event_effect(event: TerminalEvent, index: int, display: bool) -> Option<Effect> {
    match event {
        TerminalEvent::ClipboardSet { text } => if display && text {
            Some(Effect::SetClipboard(index as usize))
        } else {
            None
        },
        TerminalEvent::ClipboardQuery => if display {
            Some(Effect::AnswerClipboard(index as usize))
        } else {
            None
        },
        TerminalEvent::Bell => Some(Effect::RingBell),
        TerminalEvent::TitleChanged => Some(Effect::ChangeTitle(index as usize)),
        TerminalEvent::DesktopNotification => Some(Effect::Notify(index as usize)),
        TerminalEvent::ContentChanged => None,
        TerminalEvent::ProcessExited => None,
    }
}

/// What the first `count` events lead to at once, in their order.
pub open spec fn event_effects(events: Seq<TerminalEvent>, count: int, display: bool) -> Seq<Effect>
    decreases count,
{
    if count <= 0 {
        Seq::empty()
    } else {
        match event_effect(events[count - 1], count - 1, display) {
            Some(effect) => event_effects(events, count - 1, display).push(effect),
            None => event_effects(events, count - 1, display),
        }
    }
}

/// What a chunk of output leads to: its events in their order, then a bell that
/// the screen noted, then the files that were received, and at the end a redraw
/// where the content changed.
pub open spec fn output_effects(
    events: Seq<TerminalEvent>,
    bell: bool,
    files: int,
    display: bool,
) -> Seq<Effect> {
    event_effects(events, events.len() as int, display) + (if bell {
        seq![Effect::RingBell]
    } else {
        Seq::<Effect>::empty()
    }) + Seq::new(files as nat, |i: int| Effect::OfferFile(i as usize)) + (if events.contains(
        TerminalEvent::ContentChanged,
    ) {
        seq![Effect::Redraw]
    } else {
        Seq::<Effect>::empty()
    })
}

/// Each event of the terminal leads to its own effect, on its own content: setting and
/// asking for the clipboard only with a display, and setting it only to valid text.
pub proof fn law_events_have_their_effects(event: TerminalEvent, index: usize, display: bool)
    ensures
        event_effect(event, index as int, display) == Some(Effect::SetClipboard(index)) <==> display
            && event == (TerminalEvent::ClipboardSet { text: true }),
        event_effect(event, index as int, display) == Some(Effect::AnswerClipboard(index))
            <==> display && event == TerminalEvent::ClipboardQuery,
        event_effect(event, index as int, display) == Some(Effect::RingBell) <==> event
            == TerminalEvent::Bell,
        event_effect(event, index as int, display) == Some(Effect::ChangeTitle(index)) <==> event
            == TerminalEvent::TitleChanged,
        event_effect(event, index as int, display) == Some(Effect::Notify(index)) <==> event
            == TerminalEvent::DesktopNotification,
        event == TerminalEvent::ContentChanged || event == TerminalEvent::ProcessExited
            ==> event_effect(event, index as int, display) is None,
{
}

/// Effects come in the order of their events: what follows an event adds to the effects
/// of those before it and changes none of them.
pub proof fn law_effects_keep_the_order_of_events(
    events: Seq<TerminalEvent>,
    count: int,
    display: bool,
)
    requires
        0 <= count <= events.len(),
    ensures
        event_effects(events, 0, display).len() == 0,
        event_effects(events, count, display).len() <= count,
        forall|i: int|
            0 <= i < count && (#[trigger] event_effect(events[i], i, display)) is Some
                ==> event_effects(events, count, display).contains(
                event_effect(events[i], i, display)->0,
            ),
        count < events.len() ==> event_effects(events, count, display).is_prefix_of(
            event_effects(events, count + 1, display),
        ),
    decreases count,
{
    if count > 0 {
        law_effects_keep_the_order_of_events(events, count - 1, display);
        let before = event_effects(events, count - 1, display);
        let now = event_effects(events, count, display);
        assert forall|i: int|
            0 <= i < count && (#[trigger] event_effect(events[i], i, display)) is Some implies now.contains(
            event_effect(events[i], i, display)->0,
        ) by {
            let effect = event_effect(events[i], i, display)->0;
            if i < count - 1 {
                let at = choose|at: int| 0 <= at < before.len() && before[at] == effect;
                assert(now[at] == effect);
            } else {
                assert(now[now.len() - 1] == effect);
            }
        }
    }
}

/// A chunk of output has the effects of its events first, then one bell that the screen
/// noted, then every received file in order, and last a redraw where the content changed
/// and only there.
pub proof fn law_output_effects_are_in_order(
    events: Seq<TerminalEvent>,
    bell: bool,
    files: nat,
    display: bool,
    file: int,
)
    requires
        0 <= file < files <= usize::MAX,
    ensures
        ({
            let first = event_effects(events, events.len() as int, display);
            let all = output_effects(events, bell, files as int, display);
            let rung = if bell {
                1int
            } else {
                0
            };
            &&& first.is_prefix_of(all)
            &&& bell ==> all[first.len() as int] == Effect::RingBell
            &&& all[first.len() + rung + file] == Effect::OfferFile(file as usize)
            &&& events.contains(TerminalEvent::ContentChanged) ==> all.last() == Effect::Redraw
                && all.len() == first.len() + rung + files + 1
            &&& !events.contains(TerminalEvent::ContentChanged) ==> all.len() == first.len() + rung
                + files
        }),
{
}

/// What a chunk of output leads to.
pub fn effects_of_output(
    events: &Vec<TerminalEvent>,
    bell: bool,
    files: usize,
    display: bool,
) -> (effects: Vec<Effect>)
    ensures
        effects@ == output_effects(events@, bell, files as int, display),
{
    let mut effects: Vec<Effect> = Vec::new();
    let mut changed = false;
    let mut index: usize = 0;
    while index < events.len()
        invariant
            index <= events@.len(),
            effects@ == event_effects(events@, index as int, display),
            changed == (exists|i: int|
                0 <= i < index && #[trigger] events@[i] == TerminalEvent::ContentChanged),
        decreases events@.len() - index,
    {
        match events[index] {
            TerminalEvent::ClipboardSet { text } => {
                if display && text {
                    effects.push(Effect::SetClipboard(index));
                }
            },
            TerminalEvent::ClipboardQuery => {
                if display {
                    effects.push(Effect::AnswerClipboard(index));
                }
            },
            TerminalEvent::Bell => {
                effects.push(Effect::RingBell);
            },
            TerminalEvent::TitleChanged => {
                effects.push(Effect::ChangeTitle(index));
            },
            TerminalEvent::DesktopNotification => {
                effects.push(Effect::Notify(index));
            },
            TerminalEvent::ContentChanged => {
                changed = true;
            },
            TerminalEvent::ProcessExited => {},
        }
        index += 1;
    }
    let ghost first = effects@;
    if bell {
        effects.push(Effect::RingBell);
    }
    let ghost second = if bell {
        seq![Effect::RingBell]
    } else {
        Seq::<Effect>::empty()
    };
    proof {
        assert(effects@ =~= first + second);
    }
    let mut file: usize = 0;
    while file < files
        invariant
            file <= files,
            effects@ == first + second + Seq::new(
                file as nat,
                |i: int| Effect::OfferFile(i as usize),
            ),
        decreases files - file,
    {
        effects.push(Effect::OfferFile(file));
        file += 1;
        proof {
            assert(effects@ =~= first + second + Seq::new(
                file as nat,
                |i: int| Effect::OfferFile(i as usize),
            ));
        }
    }
    let ghost third = effects@;
    if changed {
        effects.push(Effect::Redraw);
        proof {
            assert(effects@ =~= third + seq![Effect::Redraw]);
        }
    } else {
        proof {
            assert(effects@ =~= third + Seq::<Effect>::empty());
        }
    }
    effects
}

/// Text that an input method is composing.
#[derive(Debug)]
pub struct PreeditState {
    pub text: String,
    pub cursor_pos: i32,
    pub active: bool,
}

impl PreeditState {
    /// Nothing is being composed.
    pub fn idle() -> (state: Self)
        ensures
            state.text@ == Seq::<char>::empty(),
            state.cursor_pos == 0,
            !state.active,
    {
        PreeditState { text: String::new(), cursor_pos: 0, active: false }
    }

    /// The composed text changed.
    pub fn changed(text: String, cursor_pos: i32) -> (state: Self)
        ensures
            state.text@ == text@,
            state.cursor_pos == cursor_pos,
            state.active == (text@.len() > 0),
    {
        let active = !text.as_str().is_empty();
        PreeditState { text, cursor_pos, active }
    }

    /// Composed text is drawn only over the live screen.
    pub fn is_drawn(&self, scroll_offset: usize) -> (drawn: bool)
        ensures
            drawn == composing(self.active, self.text@.len(), scroll_offset as nat),
    {
        self.active && !self.text.as_str().is_empty() && scroll_offset == 0
    }
}

} // verus!
