//! What a window does when one of its actions is activated.

use crate::text::{
    decimal, law_decimal_is_read_back, parse_i32, parse_unsigned, same_text, signed_number,
    unsigned_number,
};
use crate::ui::action::{
    action_name, action_parameter, is_managed_restricted_action, is_pane_action, is_view_action,
    managed_restricted, Action, PaneDirection, SplitDirection,
};
use vstd::prelude::*;

verus! {

/// The actions of a window: those that the whole front end shares, and those
/// that only menus reach.
#[derive(Clone, Copy, Debug, PartialEq, Eq, Structural)]
pub enum WindowAction {
    Shared(Action),
    SelectTabIndex,
    CloseOtherTabs,
    Quit,
    DockerPicker,
    AttachSession,
    SshConnect,
    ManageRemotes,
    OpenUrl,
    CopyUrl,
    CopyHtml,
    SetTitle,
    SetColor,
    SetEncoding,
    SendSignal,
    ClearReset,
    SwitchTab,
    RunToolShortcut,
    CheckUpdates,
    ExecuteUpgrade,
    About,
    TabTemplates,
    ViewLogs,
    DebugRelaunch,
    DebugRelaunchDaemon,
    DebugKillDaemon,
    DebugDumpState,
}

/// Selecting a tab by its number is one window action, whatever the number.
pub open spec fn is_window_action(action: WindowAction) -> bool {
    match action {
        WindowAction::Shared(Action::Tab(_)) => false,
        _ => true,
    }
}

/// The name under which a window action is registered.
pub open spec fn window_action_name(action: WindowAction) -> Seq<char> {
    match action {
        WindowAction::Shared(shared) => action_name(shared),
        WindowAction::SelectTabIndex => "select-tab-index"@,
        WindowAction::CloseOtherTabs => "close-other-tabs"@,
        WindowAction::Quit => "quit"@,
        WindowAction::DockerPicker => "docker-picker"@,
        WindowAction::AttachSession => "attach-session"@,
        WindowAction::SshConnect => "ssh-connect"@,
        WindowAction::ManageRemotes => "manage-remotes"@,
        WindowAction::OpenUrl => "open-url"@,
        WindowAction::CopyUrl => "copy-url"@,
        WindowAction::CopyHtml => "copy-html"@,
        WindowAction::SetTitle => "set-title"@,
        WindowAction::SetColor => "set-color"@,
        WindowAction::SetEncoding => "set-encoding"@,
        WindowAction::SendSignal => "send-signal"@,
        WindowAction::ClearReset => "clear-reset"@,
        WindowAction::SwitchTab => "switch-tab"@,
        WindowAction::RunToolShortcut => "run-tool-shortcut"@,
        WindowAction::CheckUpdates => "check-updates"@,
        WindowAction::ExecuteUpgrade => "execute-upgrade"@,
        WindowAction::About => "about"@,
        WindowAction::TabTemplates => "tab-templates"@,
        WindowAction::ViewLogs => "view-logs"@,
        WindowAction::DebugRelaunch => "debug-relaunch"@,
        WindowAction::DebugRelaunchDaemon => "debug-relaunch-daemon"@,
        WindowAction::DebugKillDaemon => "debug-kill-daemon"@,
        WindowAction::DebugDumpState => "debug-dump-state"@,
    }
}

/// The updater's two actions exist only where updates are enabled.
pub open spec fn is_registered(action: WindowAction, updater_enabled: bool) -> bool {
    &&& is_window_action(action)
    &&& action == WindowAction::CheckUpdates || action == WindowAction::ExecuteUpgrade
        ==> updater_enabled
}

/// The window action with a name.
pub fn window_action(name: &str, updater_enabled: bool) -> (action: Option<WindowAction>)
    ensures
        match action {
            Some(found) => is_registered(found, updater_enabled) && window_action_name(found)
                == name@,
            None => forall|other: WindowAction| #[trigger]
                is_registered(other, updater_enabled) ==> window_action_name(other) != name@,
        },
{
    if let Some(shared) = shared_action(name) {
        return Some(WindowAction::Shared(shared));
    }
    if same_text(name, "select-tab-index") {
        return Some(WindowAction::SelectTabIndex);
    }
    if same_text(name, "close-other-tabs") {
        return Some(WindowAction::CloseOtherTabs);
    }
    if same_text(name, "quit") {
        return Some(WindowAction::Quit);
    }
    if same_text(name, "docker-picker") {
        return Some(WindowAction::DockerPicker);
    }
    if same_text(name, "attach-session") {
        return Some(WindowAction::AttachSession);
    }
    if same_text(name, "ssh-connect") {
        return Some(WindowAction::SshConnect);
    }
    if same_text(name, "manage-remotes") {
        return Some(WindowAction::ManageRemotes);
    }
    if same_text(name, "open-url") {
        return Some(WindowAction::OpenUrl);
    }
    if same_text(name, "copy-url") {
        return Some(WindowAction::CopyUrl);
    }
    if same_text(name, "copy-html") {
        return Some(WindowAction::CopyHtml);
    }
    if same_text(name, "set-title") {
        return Some(WindowAction::SetTitle);
    }
    if same_text(name, "set-color") {
        return Some(WindowAction::SetColor);
    }
    if same_text(name, "set-encoding") {
        return Some(WindowAction::SetEncoding);
    }
    if same_text(name, "send-signal") {
        return Some(WindowAction::SendSignal);
    }
    if same_text(name, "clear-reset") {
        return Some(WindowAction::ClearReset);
    }
    if same_text(name, "switch-tab") {
        return Some(WindowAction::SwitchTab);
    }
    if same_text(name, "run-tool-shortcut") {
        return Some(WindowAction::RunToolShortcut);
    }
    if same_text(name, "check-updates") && updater_enabled {
        return Some(WindowAction::CheckUpdates);
    }
    if same_text(name, "execute-upgrade") && updater_enabled {
        return Some(WindowAction::ExecuteUpgrade);
    }
    if same_text(name, "about") {
        return Some(WindowAction::About);
    }
    if same_text(name, "tab-templates") {
        return Some(WindowAction::TabTemplates);
    }
    if same_text(name, "view-logs") {
        return Some(WindowAction::ViewLogs);
    }
    if same_text(name, "debug-relaunch") {
        return Some(WindowAction::DebugRelaunch);
    }
    if same_text(name, "debug-relaunch-daemon") {
        return Some(WindowAction::DebugRelaunchDaemon);
    }
    if same_text(name, "debug-kill-daemon") {
        return Some(WindowAction::DebugKillDaemon);
    }
    if same_text(name, "debug-dump-state") {
        return Some(WindowAction::DebugDumpState);
    }
    None
}

/// The shared action whose window action has a name, where it takes no
/// parameter.
fn shared_action(name: &str) -> (action: Option<Action>)
    ensures
        match action {
            Some(found) => found !is Tab && action_name(found) == name@,
            None => forall|other: Action|
                #![trigger action_name(other)]
                other !is Tab ==> action_name(other) != name@,
        },
{
    if same_text(name, "new-tab") {
        return Some(Action::NewTab);
    }
    if same_text(name, "close-tab") {
        return Some(Action::CloseTab);
    }
    if same_text(name, "next-tab") {
        return Some(Action::NextTab);
    }
    if same_text(name, "prev-tab") {
        return Some(Action::PrevTab);
    }
    if same_text(name, "next-alerted-tab") {
        return Some(Action::NextAlertedTab);
    }
    if same_text(name, "split-pane-horizontal") {
        return Some(Action::SplitPane(SplitDirection::Horizontal));
    }
    if same_text(name, "split-pane-vertical") {
        return Some(Action::SplitPane(SplitDirection::Vertical));
    }
    if same_text(name, "close-pane") {
        return Some(Action::ClosePane);
    }
    if same_text(name, "focus-pane-left") {
        return Some(Action::FocusPane(PaneDirection::Left));
    }
    if same_text(name, "focus-pane-right") {
        return Some(Action::FocusPane(PaneDirection::Right));
    }
    if same_text(name, "focus-pane-up") {
        return Some(Action::FocusPane(PaneDirection::Up));
    }
    if same_text(name, "focus-pane-down") {
        return Some(Action::FocusPane(PaneDirection::Down));
    }
    if same_text(name, "resize-pane-left") {
        return Some(Action::ResizePane(PaneDirection::Left));
    }
    if same_text(name, "resize-pane-right") {
        return Some(Action::ResizePane(PaneDirection::Right));
    }
    if same_text(name, "resize-pane-up") {
        return Some(Action::ResizePane(PaneDirection::Up));
    }
    if same_text(name, "resize-pane-down") {
        return Some(Action::ResizePane(PaneDirection::Down));
    }
    if same_text(name, "toggle-pane-zoom") {
        return Some(Action::TogglePaneZoom);
    }
    if same_text(name, "new-window") {
        return Some(Action::NewWindow);
    }
    if same_text(name, "close-window") {
        return Some(Action::CloseWindow);
    }
    if same_text(name, "copy") {
        return Some(Action::Copy);
    }
    if same_text(name, "paste") {
        return Some(Action::Paste);
    }
    if same_text(name, "select-all") {
        return Some(Action::SelectAll);
    }
    if same_text(name, "zoom-in") {
        return Some(Action::ZoomIn);
    }
    if same_text(name, "zoom-out") {
        return Some(Action::ZoomOut);
    }
    if same_text(name, "zoom-reset") {
        return Some(Action::ZoomReset);
    }
    if same_text(name, "toggle-fullscreen") {
        return Some(Action::ToggleFullscreen);
    }
    if same_text(name, "scroll-up") {
        return Some(Action::ScrollUp);
    }
    if same_text(name, "scroll-down") {
        return Some(Action::ScrollDown);
    }
    if same_text(name, "scroll-page-up") {
        return Some(Action::ScrollPageUp);
    }
    if same_text(name, "scroll-page-down") {
        return Some(Action::ScrollPageDown);
    }
    if same_text(name, "scroll-to-top") {
        return Some(Action::ScrollToTop);
    }
    if same_text(name, "scroll-to-bottom") {
        return Some(Action::ScrollToBottom);
    }
    if same_text(name, "prompt-previous") {
        return Some(Action::PromptPrevious);
    }
    if same_text(name, "prompt-next") {
        return Some(Action::PromptNext);
    }
    if same_text(name, "preferences") {
        return Some(Action::OpenPreferences);
    }
    if same_text(name, "find") {
        return Some(Action::FindText);
    }
    if same_text(name, "reset") {
        return Some(Action::ResetTerminal);
    }
    if same_text(name, "quick-open") {
        return Some(Action::QuickOpenTemplate);
    }
    None
}

/// What tells the names of window actions apart: their length and three of their
/// characters.
spec fn name_marks(action: WindowAction) -> (int, char, char, char) {
    match action {
        WindowAction::Shared(Action::NewTab) => (7, 'n', 'a', ' '),
        WindowAction::Shared(Action::CloseTab) => (9, 'c', '-', ' '),
        WindowAction::Shared(Action::NextTab) => (8, 'n', 't', ' '),
        WindowAction::Shared(Action::PrevTab) => (8, 'p', 't', ' '),
        WindowAction::Shared(Action::NextAlertedTab) => (16, 'n', 'a', '-'),
        WindowAction::Shared(Action::SplitPane(SplitDirection::Horizontal)) => (21, 's', '-', 'o'),
        WindowAction::Shared(Action::SplitPane(SplitDirection::Vertical)) => (19, 's', '-', 'e'),
        WindowAction::Shared(Action::ClosePane) => (10, 'c', '-', ' '),
        WindowAction::Shared(Action::FocusPane(PaneDirection::Left)) => (15, 'f', '-', 'e'),
        WindowAction::Shared(Action::FocusPane(PaneDirection::Right)) => (16, 'f', '-', 'i'),
        WindowAction::Shared(Action::FocusPane(PaneDirection::Up)) => (13, 'f', '-', 'p'),
        WindowAction::Shared(Action::FocusPane(PaneDirection::Down)) => (15, 'f', '-', 'o'),
        WindowAction::Shared(Action::ResizePane(PaneDirection::Left)) => (16, 'r', 'e', 'l'),
        WindowAction::Shared(Action::ResizePane(PaneDirection::Right)) => (17, 'r', 'e', 'r'),
        WindowAction::Shared(Action::ResizePane(PaneDirection::Up)) => (14, 'r', 'e', 'u'),
        WindowAction::Shared(Action::ResizePane(PaneDirection::Down)) => (16, 'r', 'e', 'd'),
        WindowAction::Shared(Action::TogglePaneZoom) => (16, 't', 'e', 'z'),
        WindowAction::Shared(Action::NewWindow) => (10, 'n', 'i', ' '),
        WindowAction::Shared(Action::CloseWindow) => (12, 'c', '-', ' '),
        WindowAction::Shared(Action::Copy) => (4, 'c', ' ', ' '),
        WindowAction::Shared(Action::Paste) => (5, 'p', ' ', ' '),
        WindowAction::Shared(Action::SelectAll) => (10, 's', 't', ' '),
        WindowAction::Shared(Action::ZoomIn) => (7, 'z', 'i', ' '),
        WindowAction::Shared(Action::ZoomOut) => (8, 'z', 'o', ' '),
        WindowAction::Shared(Action::ZoomReset) => (10, 'z', 'r', ' '),
        WindowAction::Shared(Action::ToggleFullscreen) => (17, 't', 'e', 'c'),
        WindowAction::Shared(Action::ScrollUp) => (9, 's', 'l', ' '),
        WindowAction::Shared(Action::ScrollDown) => (11, 's', 'l', ' '),
        WindowAction::Shared(Action::ScrollPageUp) => (14, 's', 'l', 'u'),
        WindowAction::Shared(Action::ScrollPageDown) => (16, 's', 'l', 'd'),
        WindowAction::Shared(Action::ScrollToTop) => (13, 's', 'l', 'p'),
        WindowAction::Shared(Action::ScrollToBottom) => (16, 's', 'l', 't'),
        WindowAction::Shared(Action::PromptPrevious) => (15, 'p', 't', 'o'),
        WindowAction::Shared(Action::PromptNext) => (11, 'p', 't', ' '),
        WindowAction::Shared(Action::OpenPreferences) => (11, 'p', 'r', ' '),
        WindowAction::Shared(Action::FindText) => (4, 'f', ' ', ' '),
        WindowAction::Shared(Action::ResetTerminal) => (5, 'r', ' ', ' '),
        WindowAction::Shared(Action::QuickOpenTemplate) => (10, 'q', '-', ' '),
        WindowAction::SelectTabIndex => (16, 's', 't', 'n'),
        WindowAction::CloseOtherTabs => (16, 'c', '-', 't'),
        WindowAction::Quit => (4, 'q', ' ', ' '),
        WindowAction::DockerPicker => (13, 'd', 'r', 'r'),
        WindowAction::AttachSession => (14, 'a', 'h', 'o'),
        WindowAction::SshConnect => (11, 's', 'o', ' '),
        WindowAction::ManageRemotes => (14, 'm', 'e', 'e'),
        WindowAction::OpenUrl => (8, 'o', 'u', ' '),
        WindowAction::CopyUrl => (8, 'c', 'u', ' '),
        WindowAction::CopyHtml => (9, 'c', 'h', ' '),
        WindowAction::SetTitle => (9, 's', 'i', ' '),
        WindowAction::SetColor => (9, 's', 'o', ' '),
        WindowAction::SetEncoding => (12, 's', 'n', ' '),
        WindowAction::SendSignal => (11, 's', 's', ' '),
        WindowAction::ClearReset => (11, 'c', '-', ' '),
        WindowAction::SwitchTab => (10, 's', 'h', ' '),
        WindowAction::RunToolShortcut => (17, 'r', 'o', 'r'),
        WindowAction::CheckUpdates => (13, 'c', '-', 's'),
        WindowAction::ExecuteUpgrade => (15, 'e', 't', 'a'),
        WindowAction::About => (5, 'a', ' ', ' '),
        WindowAction::TabTemplates => (13, 't', 'e', 's'),
        WindowAction::ViewLogs => (9, 'v', 'l', ' '),
        WindowAction::DebugRelaunch => (14, 'd', '-', 'c'),
        WindowAction::DebugRelaunchDaemon => (21, 'd', '-', 'c'),
        WindowAction::DebugKillDaemon => (17, 'd', '-', 'a'),
        WindowAction::DebugDumpState => (16, 'd', '-', 't'),
        WindowAction::Shared(Action::Tab(_)) => (0, ' ', ' ', ' '),
    }
}

/// The character at a place of a name, or a blank behind its end.
spec fn mark_at(name: Seq<char>, place: int) -> char {
    if place < name.len() {
        name[place]
    } else {
        ' '
    }
}

proof fn lemma_name_marks(action: WindowAction)
    requires
        is_window_action(action),
    ensures
        name_marks(action) == (
            window_action_name(action).len() as int,
            mark_at(window_action_name(action), 0),
            mark_at(window_action_name(action), 5),
            mark_at(window_action_name(action), 12),
        ),
{
    match action {
        WindowAction::Shared(Action::NewTab) => {
            reveal_strlit("new-tab");
        },
        WindowAction::Shared(Action::CloseTab) => {
            reveal_strlit("close-tab");
        },
        WindowAction::Shared(Action::NextTab) => {
            reveal_strlit("next-tab");
        },
        WindowAction::Shared(Action::PrevTab) => {
            reveal_strlit("prev-tab");
        },
        WindowAction::Shared(Action::NextAlertedTab) => {
            reveal_strlit("next-alerted-tab");
        },
        WindowAction::Shared(Action::SplitPane(SplitDirection::Horizontal)) => {
            reveal_strlit("split-pane-horizontal");
        },
        WindowAction::Shared(Action::SplitPane(SplitDirection::Vertical)) => {
            reveal_strlit("split-pane-vertical");
        },
        WindowAction::Shared(Action::ClosePane) => {
            reveal_strlit("close-pane");
        },
        WindowAction::Shared(Action::FocusPane(PaneDirection::Left)) => {
            reveal_strlit("focus-pane-left");
        },
        WindowAction::Shared(Action::FocusPane(PaneDirection::Right)) => {
            reveal_strlit("focus-pane-right");
        },
        WindowAction::Shared(Action::FocusPane(PaneDirection::Up)) => {
            reveal_strlit("focus-pane-up");
        },
        WindowAction::Shared(Action::FocusPane(PaneDirection::Down)) => {
            reveal_strlit("focus-pane-down");
        },
        WindowAction::Shared(Action::ResizePane(PaneDirection::Left)) => {
            reveal_strlit("resize-pane-left");
        },
        WindowAction::Shared(Action::ResizePane(PaneDirection::Right)) => {
            reveal_strlit("resize-pane-right");
        },
        WindowAction::Shared(Action::ResizePane(PaneDirection::Up)) => {
            reveal_strlit("resize-pane-up");
        },
        WindowAction::Shared(Action::ResizePane(PaneDirection::Down)) => {
            reveal_strlit("resize-pane-down");
        },
        WindowAction::Shared(Action::TogglePaneZoom) => {
            reveal_strlit("toggle-pane-zoom");
        },
        WindowAction::Shared(Action::NewWindow) => {
            reveal_strlit("new-window");
        },
        WindowAction::Shared(Action::CloseWindow) => {
            reveal_strlit("close-window");
        },
        WindowAction::Shared(Action::Copy) => {
            reveal_strlit("copy");
        },
        WindowAction::Shared(Action::Paste) => {
            reveal_strlit("paste");
        },
        WindowAction::Shared(Action::SelectAll) => {
            reveal_strlit("select-all");
        },
        WindowAction::Shared(Action::ZoomIn) => {
            reveal_strlit("zoom-in");
        },
        WindowAction::Shared(Action::ZoomOut) => {
            reveal_strlit("zoom-out");
        },
        WindowAction::Shared(Action::ZoomReset) => {
            reveal_strlit("zoom-reset");
        },
        WindowAction::Shared(Action::ToggleFullscreen) => {
            reveal_strlit("toggle-fullscreen");
        },
        WindowAction::Shared(Action::ScrollUp) => {
            reveal_strlit("scroll-up");
        },
        WindowAction::Shared(Action::ScrollDown) => {
            reveal_strlit("scroll-down");
        },
        WindowAction::Shared(Action::ScrollPageUp) => {
            reveal_strlit("scroll-page-up");
        },
        WindowAction::Shared(Action::ScrollPageDown) => {
            reveal_strlit("scroll-page-down");
        },
        WindowAction::Shared(Action::ScrollToTop) => {
            reveal_strlit("scroll-to-top");
        },
        WindowAction::Shared(Action::ScrollToBottom) => {
            reveal_strlit("scroll-to-bottom");
        },
        WindowAction::Shared(Action::PromptPrevious) => {
            reveal_strlit("prompt-previous");
        },
        WindowAction::Shared(Action::PromptNext) => {
            reveal_strlit("prompt-next");
        },
        WindowAction::Shared(Action::OpenPreferences) => {
            reveal_strlit("preferences");
        },
        WindowAction::Shared(Action::FindText) => {
            reveal_strlit("find");
        },
        WindowAction::Shared(Action::ResetTerminal) => {
            reveal_strlit("reset");
        },
        WindowAction::Shared(Action::QuickOpenTemplate) => {
            reveal_strlit("quick-open");
        },
        WindowAction::SelectTabIndex => {
            reveal_strlit("select-tab-index");
        },
        WindowAction::CloseOtherTabs => {
            reveal_strlit("close-other-tabs");
        },
        WindowAction::Quit => {
            reveal_strlit("quit");
        },
        WindowAction::DockerPicker => {
            reveal_strlit("docker-picker");
        },
        WindowAction::AttachSession => {
            reveal_strlit("attach-session");
        },
        WindowAction::SshConnect => {
            reveal_strlit("ssh-connect");
        },
        WindowAction::ManageRemotes => {
            reveal_strlit("manage-remotes");
        },
        WindowAction::OpenUrl => {
            reveal_strlit("open-url");
        },
        WindowAction::CopyUrl => {
            reveal_strlit("copy-url");
        },
        WindowAction::CopyHtml => {
            reveal_strlit("copy-html");
        },
        WindowAction::SetTitle => {
            reveal_strlit("set-title");
        },
        WindowAction::SetColor => {
            reveal_strlit("set-color");
        },
        WindowAction::SetEncoding => {
            reveal_strlit("set-encoding");
        },
        WindowAction::SendSignal => {
            reveal_strlit("send-signal");
        },
        WindowAction::ClearReset => {
            reveal_strlit("clear-reset");
        },
        WindowAction::SwitchTab => {
            reveal_strlit("switch-tab");
        },
        WindowAction::RunToolShortcut => {
            reveal_strlit("run-tool-shortcut");
        },
        WindowAction::CheckUpdates => {
            reveal_strlit("check-updates");
        },
        WindowAction::ExecuteUpgrade => {
            reveal_strlit("execute-upgrade");
        },
        WindowAction::About => {
            reveal_strlit("about");
        },
        WindowAction::TabTemplates => {
            reveal_strlit("tab-templates");
        },
        WindowAction::ViewLogs => {
            reveal_strlit("view-logs");
        },
        WindowAction::DebugRelaunch => {
            reveal_strlit("debug-relaunch");
        },
        WindowAction::DebugRelaunchDaemon => {
            reveal_strlit("debug-relaunch-daemon");
        },
        WindowAction::DebugKillDaemon => {
            reveal_strlit("debug-kill-daemon");
        },
        WindowAction::DebugDumpState => {
            reveal_strlit("debug-dump-state");
        },
        WindowAction::Shared(Action::Tab(_)) => {},
    }
}

/// No two window actions have the same name.
pub proof fn law_window_action_names_are_distinct(left: WindowAction, right: WindowAction)
    requires
        is_window_action(left),
        is_window_action(right),
        window_action_name(left) == window_action_name(right),
    ensures
        left == right,
{
    lemma_name_marks(left);
    lemma_name_marks(right);
}

/// Every shared action has a registered window action, with or without the
/// updater.
pub proof fn law_every_shared_action_is_registered(action: Action, updater_enabled: bool) -> (own:
    WindowAction)
    ensures
        is_registered(own, updater_enabled),
        window_action_name(own) == action_name(action),
{
    match action {
        Action::Tab(_) => WindowAction::SelectTabIndex,
        _ => WindowAction::Shared(action),
    }
}

/// One tab of a window, as far as its actions look at it.
#[derive(Clone, Copy, Debug, PartialEq, Eq, Structural)]
pub struct TabFacts {
    pub id: u64,
    /// Whether the tab bar shows a bell on it.
    pub has_bell: bool,
}

/// A window, as far as its actions look at it.
#[derive(Debug)]
pub struct WindowFacts {
    /// The tabs in the order of the tab bar.
    pub tabs: Vec<TabFacts>,
    /// How many pages the notebook has.
    pub pages: u32,
    /// The page that is shown.
    pub current: Option<u32>,
    pub fullscreen: bool,
    /// Whether an outside product manages this window.
    pub managed: bool,
    pub updater_enabled: bool,
}

impl WindowFacts {
    /// A notebook counts its pages in 32 bits, so the last of them has a place below
    /// the largest number.
    pub open spec fn valid(&self) -> bool {
        &&& self.tabs@.len() <= u32::MAX
        &&& match self.current {
            Some(page) => page < u32::MAX,
            None => true,
        }
    }

    /// The tab that is shown: that of the page, where the page has one.
    pub open spec fn shown(&self) -> Option<u32> {
        match self.current {
            Some(page) => if page < self.tabs@.len() {
                Some(page)
            } else {
                None
            },
            None => None,
        }
    }

    /// The page that the tabs are stepped through from.
    pub open spec fn start(&self) -> int {
        match self.current {
            Some(page) => page as int,
            None => 0,
        }
    }

    fn shown_tab(&self) -> (tab: Option<u32>)
        ensures
            tab == self.shown(),
    {
        match self.current {
            Some(page) => if (page as usize) < self.tabs.len() {
                Some(page)
            } else {
                None
            },
            None => None,
        }
    }
}

/// What a terminal is asked to do.
#[derive(Clone, Copy, Debug, PartialEq, Eq, Structural)]
pub enum TerminalRequest {
    CopySelection,
    CopySelectionHtml,
    SelectAll,
    SendSignal(i32),
    Reset,
    ClearScrollbackAndReset,
    ZoomIn,
    ZoomOut,
    ZoomReset,
    /// Scroll by lines, towards the history or away from it.
    ScrollLines { lines: u32, up: bool },
    ScrollPage { up: bool },
    ScrollToEdge { top: bool },
    ScrollToPrompt { previous: bool },
}

/// What the window does.
#[derive(Clone, Copy, Debug, PartialEq, Eq, Structural)]
pub enum Command {
    /// Nothing, either because nothing fits or because the window is managed.
    Ignore,
    /// Open a tab in the directory and on the daemon of the given one.
    NewTab { like: Option<u32> },
    NewWindow,
    /// Ask to close a tab.
    CloseTab(u64),
    /// Ask to close every tab but one.
    CloseOtherTabs(u64),
    CloseWindow,
    ShowQuickOpen,
    PickDockerTarget,
    PickSession,
    ConnectSsh,
    ManageRemotes,
    /// Open the address that the action carries.
    OpenUrl,
    /// Copy the address that the action carries.
    CopyUrl,
    /// Read the clipboard, for the tab that is then shown.
    Paste,
    Terminal { tab: u32, request: TerminalRequest },
    EnterFullscreen,
    LeaveFullscreen,
    RenameTab(u64),
    /// Pick a colour, for the tab that is then shown.
    PickColor,
    /// Ask what to find, in the tab that is then shown.
    Find,
    EncodingKept,
    EncodingUnsupported,
    /// Show a tab, and give its terminal the input.
    SelectTab { tab: u32, focus: bool },
    /// Run a configured tool in the directory of the given tab.
    RunTool { index: u64, like: Option<u32> },
    ShowPreferences,
    CheckForUpdates,
    /// Hand every session over to the program that the action names.
    Upgrade,
    ShowAbout,
    EditTabTemplates,
    ShowLogs,
    Relaunch,
    RelaunchDaemon,
    ShutDownDaemon,
    DumpState,
    /// An action on the panes of the tab that is shown.
    Pane(Action),
}

/// The page before or after the one that is shown, around the ends.
pub open spec fn neighbour(count: int, current: int, forward: bool) -> int {
    if forward {
        (current + 1) % count
    } else if current == 0 {
        count - 1
    } else {
        current - 1
    }
}

/// The first tab with a bell at `offset` or more tabs after the one that is
/// shown, around the end, and before that one again.
pub open spec fn alerted_from(tabs: Seq<TabFacts>, current: int, offset: int) -> Option<int>
    decreases tabs.len() - offset,
{
    if offset < 1 || offset >= tabs.len() {
        None
    } else if tabs[(current + offset) % (tabs.len() as int)].has_bell {
        Some((current + offset) % (tabs.len() as int))
    } else {
        alerted_from(tabs, current, offset + 1)
    }
}

/// The place of the first tab with an identity, from `from` on.
pub open spec fn place_from(tabs: Seq<TabFacts>, id: u64, from: int) -> Option<int>
    decreases tabs.len() - from,
{
    if from < 0 || from >= tabs.len() {
        None
    } else if tabs[from].id == id {
        Some(from)
    } else {
        place_from(tabs, id, from + 1)
    }
}

/// What a view action asks of a terminal.
pub open spec fn view_request(action: Action) -> TerminalRequest {
    match action {
        Action::ZoomIn => TerminalRequest::ZoomIn,
        Action::ZoomOut => TerminalRequest::ZoomOut,
        Action::ZoomReset => TerminalRequest::ZoomReset,
        Action::ScrollUp => TerminalRequest::ScrollLines { lines: 1, up: true },
        Action::ScrollDown => TerminalRequest::ScrollLines { lines: 1, up: false },
        Action::ScrollPageUp => TerminalRequest::ScrollPage { up: true },
        Action::ScrollPageDown => TerminalRequest::ScrollPage { up: false },
        Action::ScrollToTop => TerminalRequest::ScrollToEdge { top: true },
        Action::ScrollToBottom => TerminalRequest::ScrollToEdge { top: false },
        Action::PromptPrevious => TerminalRequest::ScrollToPrompt { previous: true },
        _ => TerminalRequest::ScrollToPrompt { previous: false },
    }
}

/// Ask something of the terminal that is shown, where one is.
pub open spec fn ask_terminal(window: WindowFacts, request: TerminalRequest) -> Command {
    match window.shown() {
        Some(tab) => Command::Terminal { tab, request },
        None => Command::Ignore,
    }
}

/// A command that a managed window refuses.
pub open spec fn unless_managed(window: WindowFacts, command: Command) -> Command {
    if window.managed {
        Command::Ignore
    } else {
        command
    }
}

/// A command that needs the updater.
pub open spec fn with_updater(window: WindowFacts, command: Command) -> Command {
    if window.updater_enabled {
        command
    } else {
        Command::Ignore
    }
}

/// Show a tab where there is one to show.
pub open spec fn show_tab(tab: Option<int>, focus: bool) -> Command {
    match tab {
        Some(place) => Command::SelectTab { tab: place as u32, focus },
        None => Command::Ignore,
    }
}

/// The number in an action's parameter, where it does not exceed `limit`.
pub open spec fn number_in(parameter: Option<Seq<char>>, limit: int) -> Option<int> {
    match parameter {
        Some(text) => match unsigned_number(text) {
            Some(number) => if number <= limit {
                Some(number as int)
            } else {
                None
            },
            None => None,
        },
        None => None,
    }
}

/// The place of the tab that a number, counted from one, selects. Zero selects
/// the first tab too.
pub open spec fn numbered_tab(number: Option<int>, count: int) -> Option<int> {
    match number {
        Some(number) => {
            let place = if number == 0 {
                0
            } else {
                number - 1
            };
            if place < count {
                Some(place)
            } else {
                None
            }
        },
        None => None,
    }
}

/// What a window does when one of the shared actions is activated.
pub open spec fn shared_response(action: Action, window: WindowFacts) -> Command {
    let pages = window.pages as int;
    if window.managed && managed_restricted(action) {
        Command::Ignore
    } else if is_pane_action(action) {
        if window.shown() is Some {
            Command::Pane(action)
        } else {
            Command::Ignore
        }
    } else if is_view_action(action) {
        ask_terminal(window, view_request(action))
    } else {
        match action {
            Action::NewTab => Command::NewTab { like: window.shown() },
            Action::NewWindow => Command::NewWindow,
            Action::CloseTab => match window.shown() {
                Some(tab) => Command::CloseTab(window.tabs@[tab as int].id),
                None => Command::Ignore,
            },
            Action::CloseWindow => Command::CloseWindow,
            Action::QuickOpenTemplate => Command::ShowQuickOpen,
            Action::Copy => ask_terminal(window, TerminalRequest::CopySelection),
            Action::Paste => Command::Paste,
            Action::SelectAll => ask_terminal(window, TerminalRequest::SelectAll),
            Action::ToggleFullscreen => if window.fullscreen {
                Command::LeaveFullscreen
            } else {
                Command::EnterFullscreen
            },
            Action::FindText => Command::Find,
            Action::ResetTerminal => ask_terminal(window, TerminalRequest::Reset),
            Action::OpenPreferences => Command::ShowPreferences,
            Action::NextTab => show_tab(
                if pages > 0 {
                    Some(neighbour(pages, window.start(), true))
                } else {
                    None
                },
                true,
            ),
            Action::PrevTab => show_tab(
                if pages > 0 {
                    Some(neighbour(pages, window.start(), false))
                } else {
                    None
                },
                true,
            ),
            Action::NextAlertedTab => show_tab(
                if pages > 0 {
                    alerted_from(window.tabs@, window.start(), 1)
                } else {
                    None
                },
                true,
            ),
            _ => Command::Ignore,
        }
    }
}

/// What a window does when one of its actions is activated with a parameter.
pub open spec fn response(
    action: WindowAction,
    parameter: Option<Seq<char>>,
    window: WindowFacts,
) -> Command {
    match action {
        WindowAction::Shared(shared) => shared_response(shared, window),
        WindowAction::SelectTabIndex => show_tab(
            numbered_tab(number_in(parameter, u32::MAX as int), window.pages as int),
            true,
        ),
        WindowAction::CloseOtherTabs => match window.shown() {
            Some(tab) => Command::CloseOtherTabs(window.tabs@[tab as int].id),
            None => Command::Ignore,
        },
        WindowAction::Quit => Command::CloseWindow,
        WindowAction::DockerPicker => unless_managed(window, Command::PickDockerTarget),
        WindowAction::AttachSession => unless_managed(window, Command::PickSession),
        WindowAction::SshConnect => unless_managed(window, Command::ConnectSsh),
        WindowAction::ManageRemotes => unless_managed(window, Command::ManageRemotes),
        WindowAction::OpenUrl => if parameter is Some {
            Command::OpenUrl
        } else {
            Command::Ignore
        },
        WindowAction::CopyUrl => if parameter is Some {
            Command::CopyUrl
        } else {
            Command::Ignore
        },
        WindowAction::CopyHtml => ask_terminal(window, TerminalRequest::CopySelectionHtml),
        WindowAction::SetTitle => match window.shown() {
            Some(tab) => Command::RenameTab(window.tabs@[tab as int].id),
            None => Command::Ignore,
        },
        WindowAction::SetColor => Command::PickColor,
        WindowAction::SetEncoding => match parameter {
            Some(encoding) => if encoding == "utf8"@ {
                Command::EncodingKept
            } else {
                Command::EncodingUnsupported
            },
            None => Command::Ignore,
        },
        WindowAction::SendSignal => match parameter {
            Some(text) => match signed_number(text) {
                Some(signal) => if i32::MIN <= signal <= i32::MAX {
                    ask_terminal(window, TerminalRequest::SendSignal(signal as i32))
                } else {
                    Command::Ignore
                },
                None => Command::Ignore,
            },
            None => Command::Ignore,
        },
        WindowAction::ClearReset => ask_terminal(window, TerminalRequest::ClearScrollbackAndReset),
        WindowAction::SwitchTab => match number_in(parameter, u64::MAX as int) {
            Some(id) => show_tab(place_from(window.tabs@, id as u64, 0), false),
            None => Command::Ignore,
        },
        WindowAction::RunToolShortcut => unless_managed(
            window,
            match number_in(parameter, usize::MAX as int) {
                Some(index) => Command::RunTool { index: index as u64, like: window.shown() },
                None => Command::Ignore,
            },
        ),
        WindowAction::CheckUpdates => with_updater(window, Command::CheckForUpdates),
        WindowAction::ExecuteUpgrade => with_updater(
            window,
            if parameter is Some {
                Command::Upgrade
            } else {
                Command::Ignore
            },
        ),
        WindowAction::About => Command::ShowAbout,
        WindowAction::TabTemplates => unless_managed(window, Command::EditTabTemplates),
        WindowAction::ViewLogs => Command::ShowLogs,
        WindowAction::DebugRelaunch => with_updater(window, Command::Relaunch),
        WindowAction::DebugRelaunchDaemon => with_updater(window, Command::RelaunchDaemon),
        WindowAction::DebugKillDaemon => with_updater(window, Command::ShutDownDaemon),
        WindowAction::DebugDumpState => Command::DumpState,
    }
}

/// An action's parameter as a value.
pub open spec fn parameter_view(parameter: Option<&str>) -> Option<Seq<char>> {
    match parameter {
        Some(text) => Some(text@),
        None => None,
    }
}

fn terminal_command(window: &WindowFacts, request: TerminalRequest) -> (command: Command)
    ensures
        command == ask_terminal(*window, request),
{
    match window.shown_tab() {
        Some(tab) => Command::Terminal { tab, request },
        None => Command::Ignore,
    }
}

fn refused_when_managed(window: &WindowFacts, command: Command) -> (answer: Command)
    ensures
        answer == unless_managed(*window, command),
{
    if window.managed {
        Command::Ignore
    } else {
        command
    }
}

fn refused_without_updater(window: &WindowFacts, command: Command) -> (answer: Command)
    ensures
        answer == with_updater(*window, command),
{
    if window.updater_enabled {
        command
    } else {
        Command::Ignore
    }
}

fn number_of(parameter: Option<&str>, limit: u64) -> (number: Option<u64>)
    ensures
        match number_in(parameter_view(parameter), limit as int) {
            Some(value) => number == Some(value as u64) && 0 <= value <= limit,
            None => number is None,
        },
{
    match parameter {
        Some(text) => parse_unsigned(text, limit),
        None => None,
    }
}

/// What a view action asks of a terminal.
fn request_of_view(action: Action) -> (request: TerminalRequest)
    ensures
        request == view_request(action),
{
    match action {
        Action::ZoomIn => TerminalRequest::ZoomIn,
        Action::ZoomOut => TerminalRequest::ZoomOut,
        Action::ZoomReset => TerminalRequest::ZoomReset,
        Action::ScrollUp => TerminalRequest::ScrollLines { lines: 1, up: true },
        Action::ScrollDown => TerminalRequest::ScrollLines { lines: 1, up: false },
        Action::ScrollPageUp => TerminalRequest::ScrollPage { up: true },
        Action::ScrollPageDown => TerminalRequest::ScrollPage { up: false },
        Action::ScrollToTop => TerminalRequest::ScrollToEdge { top: true },
        Action::ScrollToBottom => TerminalRequest::ScrollToEdge { top: false },
        Action::PromptPrevious => TerminalRequest::ScrollToPrompt { previous: true },
        _ => TerminalRequest::ScrollToPrompt { previous: false },
    }
}

/// The next tab with a bell after the one that is shown, around the end.
fn next_alerted(window: &WindowFacts, current: u32) -> (tab: Option<u32>)
    requires
        window.valid(),
    ensures
        match alerted_from(window.tabs@, current as int, 1) {
            Some(place) => tab == Some(place as u32) && 0 <= place < window.tabs@.len(),
            None => tab is None,
        },
{
    let count: u64 = window.tabs.len() as u64;
    let mut offset: u64 = 1;
    while offset < count
        invariant
            window.valid(),
            count == window.tabs@.len(),
            1 <= offset,
            offset <= count || count == 0,
            alerted_from(window.tabs@, current as int, 1) == alerted_from(
                window.tabs@,
                current as int,
                offset as int,
            ),
        decreases count - offset,
    {
        let place: u64 = (current as u64 + offset) % count;
        if window.tabs[place as usize].has_bell {
            return Some(place as u32);
        }
        offset += 1;
    }
    None
}

/// The place of the tab with an identity.
fn place_of_tab(window: &WindowFacts, id: u64) -> (tab: Option<u32>)
    requires
        window.valid(),
    ensures
        match place_from(window.tabs@, id, 0) {
            Some(place) => tab == Some(place as u32) && 0 <= place < window.tabs@.len(),
            None => tab is None,
        },
{
    let mut place: usize = 0;
    while place < window.tabs.len()
        invariant
            window.valid(),
            place <= window.tabs@.len(),
            place_from(window.tabs@, id, 0) == place_from(window.tabs@, id, place as int),
        decreases window.tabs@.len() - place,
    {
        if window.tabs[place].id == id {
            return Some(place as u32);
        }
        place += 1;
    }
    None
}

fn selected(tab: Option<u32>, focus: bool) -> (command: Command)
    ensures
        command == (match tab {
            Some(tab) => Command::SelectTab { tab, focus },
            None => Command::Ignore,
        }),
{
    match tab {
        Some(tab) => Command::SelectTab { tab, focus },
        None => Command::Ignore,
    }
}

/// What a window does when one of the shared actions is activated.
pub fn respond_to_shared(action: Action, window: &WindowFacts) -> (command: Command)
    requires
        window.valid(),
    ensures
        command == shared_response(action, *window),
{
    if window.managed && is_managed_restricted_action(&action) {
        return Command::Ignore;
    }
    let pages: u32 = window.pages;
    let current: u32 = match window.current {
        Some(page) => page,
        None => 0,
    };
    match action {
        Action::SplitPane(_) | Action::ClosePane | Action::FocusPane(_) | Action::ResizePane(_)
        | Action::TogglePaneZoom => if window.shown_tab().is_some() {
            Command::Pane(action)
        } else {
            Command::Ignore
        },
        Action::ZoomIn | Action::ZoomOut | Action::ZoomReset | Action::ScrollUp
        | Action::ScrollDown | Action::ScrollPageUp | Action::ScrollPageDown | Action::ScrollToTop
        | Action::ScrollToBottom | Action::PromptPrevious | Action::PromptNext => terminal_command(
            window,
            request_of_view(action),
        ),
        Action::NewTab => Command::NewTab { like: window.shown_tab() },
        Action::NewWindow => Command::NewWindow,
        Action::CloseTab => match window.shown_tab() {
            Some(tab) => Command::CloseTab(window.tabs[tab as usize].id),
            None => Command::Ignore,
        },
        Action::CloseWindow => Command::CloseWindow,
        Action::QuickOpenTemplate => Command::ShowQuickOpen,
        Action::Copy => terminal_command(window, TerminalRequest::CopySelection),
        Action::Paste => Command::Paste,
        Action::SelectAll => terminal_command(window, TerminalRequest::SelectAll),
        Action::ToggleFullscreen => if window.fullscreen {
            Command::LeaveFullscreen
        } else {
            Command::EnterFullscreen
        },
        Action::FindText => Command::Find,
        Action::ResetTerminal => terminal_command(window, TerminalRequest::Reset),
        Action::OpenPreferences => Command::ShowPreferences,
        Action::NextTab => if pages > 0 {
            let next: u32 = (current + 1) % pages;
            selected(Some(next), true)
        } else {
            Command::Ignore
        },
        Action::PrevTab => if pages > 0 {
            let previous: u32 = if current == 0 {
                pages - 1
            } else {
                current - 1
            };
            selected(Some(previous), true)
        } else {
            Command::Ignore
        },
        Action::NextAlertedTab => if pages > 0 {
            selected(next_alerted(window, current), true)
        } else {
            Command::Ignore
        },
        Action::Tab(_) => Command::Ignore,
    }
}

/// What a window does when one of its actions is activated with a parameter.
pub fn respond(action: WindowAction, parameter: Option<&str>, window: &WindowFacts) -> (command:
    Command)
    requires
        window.valid(),
    ensures
        command == response(action, parameter_view(parameter), *window),
{
    match action {
        WindowAction::Shared(shared) => respond_to_shared(shared, window),
        WindowAction::SelectTabIndex => match number_of(parameter, 0xffff_ffff) {
            Some(number) => {
                let place: u64 = if number == 0 {
                    0
                } else {
                    number - 1
                };
                if place < window.pages as u64 {
                    selected(Some(place as u32), true)
                } else {
                    Command::Ignore
                }
            },
            None => Command::Ignore,
        },
        WindowAction::CloseOtherTabs => match window.shown_tab() {
            Some(tab) => Command::CloseOtherTabs(window.tabs[tab as usize].id),
            None => Command::Ignore,
        },
        WindowAction::Quit => Command::CloseWindow,
        WindowAction::DockerPicker => refused_when_managed(window, Command::PickDockerTarget),
        WindowAction::AttachSession => refused_when_managed(window, Command::PickSession),
        WindowAction::SshConnect => refused_when_managed(window, Command::ConnectSsh),
        WindowAction::ManageRemotes => refused_when_managed(window, Command::ManageRemotes),
        WindowAction::OpenUrl => if parameter.is_some() {
            Command::OpenUrl
        } else {
            Command::Ignore
        },
        WindowAction::CopyUrl => if parameter.is_some() {
            Command::CopyUrl
        } else {
            Command::Ignore
        },
        WindowAction::CopyHtml => terminal_command(window, TerminalRequest::CopySelectionHtml),
        WindowAction::SetTitle => match window.shown_tab() {
            Some(tab) => Command::RenameTab(window.tabs[tab as usize].id),
            None => Command::Ignore,
        },
        WindowAction::SetColor => Command::PickColor,
        WindowAction::SetEncoding => match parameter {
            Some(encoding) => if same_text(encoding, "utf8") {
                Command::EncodingKept
            } else {
                Command::EncodingUnsupported
            },
            None => Command::Ignore,
        },
        WindowAction::SendSignal => match parameter {
            Some(text) => match parse_i32(text) {
                Some(signal) => terminal_command(window, TerminalRequest::SendSignal(signal)),
                None => Command::Ignore,
            },
            None => Command::Ignore,
        },
        WindowAction::ClearReset => terminal_command(
            window,
            TerminalRequest::ClearScrollbackAndReset,
        ),
        WindowAction::SwitchTab => match number_of(parameter, u64::MAX) {
            Some(id) => selected(place_of_tab(window, id), false),
            None => Command::Ignore,
        },
        WindowAction::RunToolShortcut => {
            let command = match number_of(parameter, usize::MAX as u64) {
                Some(index) => Command::RunTool { index, like: window.shown_tab() },
                None => Command::Ignore,
            };
            refused_when_managed(window, command)
        },
        WindowAction::CheckUpdates => refused_without_updater(window, Command::CheckForUpdates),
        WindowAction::ExecuteUpgrade => {
            let command = if parameter.is_some() {
                Command::Upgrade
            } else {
                Command::Ignore
            };
            refused_without_updater(window, command)
        },
        WindowAction::About => Command::ShowAbout,
        WindowAction::TabTemplates => refused_when_managed(window, Command::EditTabTemplates),
        WindowAction::ViewLogs => Command::ShowLogs,
        WindowAction::DebugRelaunch => refused_without_updater(window, Command::Relaunch),
        WindowAction::DebugRelaunchDaemon => refused_without_updater(
            window,
            Command::RelaunchDaemon,
        ),
        WindowAction::DebugKillDaemon => refused_without_updater(window, Command::ShutDownDaemon),
        WindowAction::DebugDumpState => Command::DumpState,
    }
}

/// How far one action moves a divider.
pub const RESIZE_AMOUNT: u32 = 400;

/// What an action on panes does in the tab that is shown.
#[derive(Clone, Copy, Debug, PartialEq, Eq, Structural)]
pub enum PaneStep {
    Nothing,
    Split(SplitDirection),
    /// Ask to close the tab.
    CloseTab,
    /// Ask to close the active pane.
    ClosePane,
    Focus(PaneDirection),
    Resize { direction: PaneDirection, amount: u32 },
    ToggleZoom,
}

/// What an action on panes does in a tab with so many panes.
pub open spec fn pane_response(action: Action, panes: usize) -> PaneStep {
    match action {
        Action::SplitPane(direction) => PaneStep::Split(direction),
        Action::ClosePane => if panes == 1 {
            PaneStep::CloseTab
        } else {
            PaneStep::ClosePane
        },
        Action::FocusPane(direction) => PaneStep::Focus(direction),
        Action::ResizePane(direction) => PaneStep::Resize { direction, amount: RESIZE_AMOUNT },
        Action::TogglePaneZoom => PaneStep::ToggleZoom,
        _ => PaneStep::Nothing,
    }
}

/// Each action on panes does what it says, the way it says: a split divides as asked,
/// the focus and the divider move in the direction that was named. Closing the only
/// pane closes the tab, closing one of several only the pane, and every other action
/// leaves the panes alone.
pub proof fn law_pane_actions_keep_their_direction(
    action: Action,
    panes: usize,
    split: SplitDirection,
    direction: PaneDirection,
)
    ensures
        pane_response(action, panes) == PaneStep::Split(split) <==> action == Action::SplitPane(
            split,
        ),
        pane_response(action, panes) == PaneStep::Focus(direction) <==> action
            == Action::FocusPane(direction),
        pane_response(action, panes) == (PaneStep::Resize { direction, amount: 400 }) <==> action
            == Action::ResizePane(direction),
        pane_response(action, panes) == PaneStep::ToggleZoom <==> action == Action::TogglePaneZoom,
        pane_response(action, panes) == PaneStep::CloseTab <==> action == Action::ClosePane && panes
            == 1,
        pane_response(action, panes) == PaneStep::ClosePane <==> action == Action::ClosePane
            && panes != 1,
        pane_response(action, panes) == PaneStep::Nothing <==> !is_pane_action(action),
{
}

/// What an action on panes does in a tab with so many panes. Closing the only
/// pane closes the tab.
pub fn pane_step(action: Action, panes: usize) -> (step: PaneStep)
    ensures
        step == pane_response(action, panes),
{
    match action {
        Action::SplitPane(direction) => PaneStep::Split(direction),
        Action::ClosePane => if panes == 1 {
            PaneStep::CloseTab
        } else {
            PaneStep::ClosePane
        },
        Action::FocusPane(direction) => PaneStep::Focus(direction),
        Action::ResizePane(direction) => PaneStep::Resize { direction, amount: RESIZE_AMOUNT },
        Action::TogglePaneZoom => PaneStep::ToggleZoom,
        _ => PaneStep::Nothing,
    }
}

/// What the menu of a link activates.
pub open spec fn link_target(address: Seq<char>, copies: bool) -> Seq<char> {
    (if copies {
        "win.copy-url::"@
    } else {
        "win.open-url::"@
    }) + address
}

/// The menu of a link activates the window action that copies or opens an address, with
/// that very address.
pub proof fn law_link_menu_activates_its_action(address: Seq<char>, copies: bool)
    ensures
        link_target(address, copies) == "win."@ + window_action_name(
            if copies {
                WindowAction::CopyUrl
            } else {
                WindowAction::OpenUrl
            },
        ) + "::"@ + address,
{
    reveal_strlit("win.");
    reveal_strlit("::");
    reveal_strlit("copy-url");
    reveal_strlit("open-url");
    reveal_strlit("win.copy-url::");
    reveal_strlit("win.open-url::");
    assert(link_target(address, copies) =~= "win."@ + window_action_name(
        if copies {
            WindowAction::CopyUrl
        } else {
            WindowAction::OpenUrl
        },
    ) + "::"@ + address);
}

/// What the menu of a link activates: opening it, or copying it.
pub fn link_menu_target(address: &str, copies: bool) -> (target: String)
    ensures
        target@ == link_target(address@, copies),
{
    let mut target = if copies {
        "win.copy-url::".to_owned()
    } else {
        "win.open-url::".to_owned()
    };
    target.append(address);
    target
}

/// What is said when a tool could not be started.
pub open spec fn tool_failure(name: Seq<char>, command: Seq<char>, error: Seq<char>) -> Seq<char> {
    "Failed to launch \""@ + name + "\"\n\nCommand '"@ + command + "' failed: "@ + error
}

/// The failure of a tool tells its name, then its command, then the error.
pub proof fn law_tool_failures_tell_what_failed(name: Seq<char>, command: Seq<char>, error: Seq<char>)
    ensures
        ({
            let text = tool_failure(name, command, error);
            let second = 30 + name.len() as int;
            &&& text.subrange(18, 18 + name.len() as int) == name
            &&& text.subrange(second, second + command.len() as int) == command
            &&& text.skip(second + command.len() as int + 10) == error
        }),
{
    reveal_strlit("Failed to launch \"");
    reveal_strlit("\"\n\nCommand '");
    reveal_strlit("' failed: ");
    let text = tool_failure(name, command, error);
    let second = 30 + name.len() as int;
    assert(text.subrange(18, 18 + name.len() as int) =~= name);
    assert(text.subrange(second, second + command.len() as int) =~= command);
    assert(text.skip(second + command.len() as int + 10) =~= error);
}

/// What is said when a tool could not be started.
pub fn tool_failure_text(name: &str, command: &str, error: &str) -> (text: String)
    ensures
        text@ == tool_failure(name@, command@, error@),
{
    let mut text = "Failed to launch \"".to_owned();
    text.append(name);
    text.append("\"\n\nCommand '");
    text.append(command);
    text.append("' failed: ");
    text.append(error);
    text
}

/// What is said when the hand-over to another program failed.
pub fn upgrade_failure_text(error: &str) -> (text: String)
    ensures
        text@ == "Upgrade failed: "@ + error@,
{
    let mut text = "Upgrade failed: ".to_owned();
    text.append(error);
    text
}

/// Whether a command opens a session beside those of the window, or edits what
/// later sessions start from.
pub open spec fn opens_or_configures(command: Command) -> bool {
    match command {
        Command::NewTab { .. } => true,
        Command::NewWindow => true,
        Command::ShowQuickOpen => true,
        Command::PickDockerTarget => true,
        Command::PickSession => true,
        Command::ConnectSsh => true,
        Command::ManageRemotes => true,
        Command::RunTool { .. } => true,
        Command::ShowPreferences => true,
        Command::EditTabTemplates => true,
        Command::Pane(_) => true,
        _ => false,
    }
}

/// No action, whatever its parameter, makes a managed window open a second
/// session, rearrange its panes or edit the configuration.
pub proof fn law_managed_window_stays_single(
    action: WindowAction,
    parameter: Option<Seq<char>>,
    window: WindowFacts,
)
    requires
        window.managed,
    ensures
        !opens_or_configures(response(action, parameter, window)),
{
}

/// Without the updater no action replaces the program or its daemon.
pub proof fn law_no_replacement_without_updater(
    action: WindowAction,
    parameter: Option<Seq<char>>,
    window: WindowFacts,
)
    requires
        !window.updater_enabled,
    ensures
        !(response(action, parameter, window) is Upgrade),
        !(response(action, parameter, window) is CheckForUpdates),
        !(response(action, parameter, window) is Relaunch),
        !(response(action, parameter, window) is RelaunchDaemon),
        !(response(action, parameter, window) is ShutDownDaemon),
{
}

/// The tab before the tab after the one that is shown is the one that is shown,
/// and the other way round.
pub proof fn law_neighbours_undo_each_other(count: int, current: int)
    requires
        0 <= current < count,
    ensures
        0 <= neighbour(count, current, true) < count,
        0 <= neighbour(count, current, false) < count,
        neighbour(count, neighbour(count, current, true), false) == current,
        neighbour(count, neighbour(count, current, false), true) == current,
{
    if current + 1 == count {
        assert((current + 1) % count == 0) by (nonlinear_arith)
            requires
                current + 1 == count,
                count > 0,
        ;
    } else {
        assert((current + 1) % count == current + 1) by (nonlinear_arith)
            requires
                0 <= current + 1 < count,
        ;
    }
    if current == 0 {
        assert(count % count == 0) by (nonlinear_arith)
            requires
                count > 0,
        ;
    } else {
        assert(current % count == current) by (nonlinear_arith)
            requires
                0 <= current < count,
        ;
    }
}

/// The shared action for a tab's number selects that tab, counted from one,
/// where the window has so many.
pub proof fn law_tab_number_selects_its_tab(tab: u8, window: WindowFacts)
    requires
        1 <= tab <= window.pages,
    ensures
        response(WindowAction::SelectTabIndex, action_parameter(Action::Tab(tab)), window)
            == (Command::SelectTab { tab: (tab - 1) as u32, focus: true }),
{
    law_decimal_is_read_back(tab as nat);
}

/// The next tab with a bell has a bell and is another tab; and where none is
/// found, no other tab has one.
pub proof fn law_next_alerted_finds_a_bell(tabs: Seq<TabFacts>, current: int, offset: int)
    requires
        0 <= current,
        1 <= offset,
    ensures
        match alerted_from(tabs, current, offset) {
            Some(place) => 0 <= place < tabs.len() && tabs[place].has_bell && place != current,
            None => forall|later: int|
                offset <= later < tabs.len() ==> !tabs[#[trigger] ((current + later) % (
                tabs.len() as int))].has_bell,
        },
    decreases tabs.len() - offset,
{
    if offset < tabs.len() {
        let count = tabs.len() as int;
        let place = (current + offset) % count;
        assert(0 <= place < count) by (nonlinear_arith)
            requires
                place == (current + offset) % count,
                count > 0,
        ;
        if current >= count {
        } else if current + offset < count {
            assert(place == current + offset) by (nonlinear_arith)
                requires
                    place == (current + offset) % count,
                    0 <= current + offset < count,
            ;
        } else {
            assert(place == current + offset - count) by (nonlinear_arith)
                requires
                    place == (current + offset) % count,
                    count <= current + offset < 2 * count,
            ;
        }
        law_next_alerted_finds_a_bell(tabs, current, offset + 1);
    }
}

/// In a window that shows a tab, each action on a terminal asks exactly that tab's
/// terminal for what the action is named after, and no other action does: selecting
/// everything selects everything, copying copies, and every zoom and scroll goes the way
/// it says.
pub proof fn law_terminal_actions_ask_the_shown_terminal(
    action: Action,
    window: WindowFacts,
    tab: u32,
)
    requires
        window.current == Some(tab),
        tab < window.tabs@.len(),
    ensures
        shared_response(action, window) == (Command::Terminal {
            tab,
            request: TerminalRequest::CopySelection,
        }) <==> action == Action::Copy,
        shared_response(action, window) == (Command::Terminal {
            tab,
            request: TerminalRequest::SelectAll,
        }) <==> action == Action::SelectAll,
        shared_response(action, window) == (Command::Terminal {
            tab,
            request: TerminalRequest::Reset,
        }) <==> action == Action::ResetTerminal,
        shared_response(action, window) == (Command::Terminal {
            tab,
            request: TerminalRequest::ZoomIn,
        }) <==> action == Action::ZoomIn,
        shared_response(action, window) == (Command::Terminal {
            tab,
            request: TerminalRequest::ZoomOut,
        }) <==> action == Action::ZoomOut,
        shared_response(action, window) == (Command::Terminal {
            tab,
            request: TerminalRequest::ZoomReset,
        }) <==> action == Action::ZoomReset,
        shared_response(action, window) == (Command::Terminal {
            tab,
            request: TerminalRequest::ScrollLines { lines: 1, up: true },
        }) <==> action == Action::ScrollUp,
        shared_response(action, window) == (Command::Terminal {
            tab,
            request: TerminalRequest::ScrollLines { lines: 1, up: false },
        }) <==> action == Action::ScrollDown,
        shared_response(action, window) == (Command::Terminal {
            tab,
            request: TerminalRequest::ScrollPage { up: true },
        }) <==> action == Action::ScrollPageUp,
        shared_response(action, window) == (Command::Terminal {
            tab,
            request: TerminalRequest::ScrollPage { up: false },
        }) <==> action == Action::ScrollPageDown,
        shared_response(action, window) == (Command::Terminal {
            tab,
            request: TerminalRequest::ScrollToEdge { top: true },
        }) <==> action == Action::ScrollToTop,
        shared_response(action, window) == (Command::Terminal {
            tab,
            request: TerminalRequest::ScrollToEdge { top: false },
        }) <==> action == Action::ScrollToBottom,
        shared_response(action, window) == (Command::Terminal {
            tab,
            request: TerminalRequest::ScrollToPrompt { previous: true },
        }) <==> action == Action::PromptPrevious,
        shared_response(action, window) == (Command::Terminal {
            tab,
            request: TerminalRequest::ScrollToPrompt { previous: false },
        }) <==> action == Action::PromptNext,
        shared_response(action, window) matches Command::Terminal { tab: asked, .. } ==> asked
            == tab,
{
}

/// The menus ask the terminal that is shown for a copy with its looks, for a fresh start
/// without history, and to signal its program with the number that they carry.
pub proof fn law_menus_ask_the_shown_terminal(
    action: WindowAction,
    parameter: Option<Seq<char>>,
    window: WindowFacts,
    tab: u32,
    signal: i32,
)
    requires
        window.current == Some(tab),
        tab < window.tabs@.len(),
    ensures
        response(action, parameter, window) == (Command::Terminal {
            tab,
            request: TerminalRequest::CopySelectionHtml,
        }) <==> action == WindowAction::CopyHtml,
        response(action, parameter, window) == (Command::Terminal {
            tab,
            request: TerminalRequest::ClearScrollbackAndReset,
        }) <==> action == WindowAction::ClearReset,
        response(action, parameter, window) == (Command::Terminal {
            tab,
            request: TerminalRequest::SendSignal(signal),
        }) <==> action == WindowAction::SendSignal && parameter is Some && signed_number(
            parameter->0,
        ) == Some(signal as int),
        response(action, parameter, window) matches Command::Terminal { tab: asked, .. } ==> asked
            == tab,
{
}

/// A window that shows no tab asks no terminal, closes and renames no tab, and leaves
/// panes alone.
pub proof fn law_nothing_is_asked_without_a_tab(
    action: WindowAction,
    parameter: Option<Seq<char>>,
    window: WindowFacts,
)
    requires
        window.current is None || window.current->0 >= window.tabs@.len(),
    ensures
        !(response(action, parameter, window) is Terminal),
        !(response(action, parameter, window) is CloseTab),
        !(response(action, parameter, window) is CloseOtherTabs),
        !(response(action, parameter, window) is RenameTab),
        !(response(action, parameter, window) is Pane),
        response(action, parameter, window) matches Command::NewTab { like } ==> like is None,
        response(action, parameter, window) matches Command::RunTool { like, .. } ==> like is None,
{
}

/// Closing, closing the others and renaming name the tab that is shown, by its identity,
/// and only the actions of those names do any of it.
pub proof fn law_tab_actions_name_the_shown_tab(
    action: WindowAction,
    parameter: Option<Seq<char>>,
    window: WindowFacts,
    tab: u32,
)
    requires
        window.current == Some(tab),
        tab < window.tabs@.len(),
    ensures
        ({
            let id = window.tabs@[tab as int].id;
            let command = response(action, parameter, window);
            &&& command == Command::CloseTab(id) <==> action == WindowAction::Shared(
                Action::CloseTab,
            )
            &&& command == Command::CloseOtherTabs(id) <==> action == WindowAction::CloseOtherTabs
            &&& command == Command::RenameTab(id) <==> action == WindowAction::SetTitle
            &&& command is CloseTab ==> command == Command::CloseTab(id)
            &&& command is CloseOtherTabs ==> command == Command::CloseOtherTabs(id)
            &&& command is RenameTab ==> command == Command::RenameTab(id)
            &&& command matches Command::NewTab { like } ==> like == Some(tab)
            &&& command matches Command::RunTool { like, .. } ==> like == Some(tab)
        }),
{
}

/// What a window does is what the action is named after, and comes from no other
/// action. A managed window leaves out what opens or configures.
pub proof fn law_actions_do_what_they_are_named_after(
    action: WindowAction,
    parameter: Option<Seq<char>>,
    window: WindowFacts,
)
    ensures
        ({
            let command = response(action, parameter, window);
            &&& command is NewTab <==> !window.managed && action == WindowAction::Shared(
                Action::NewTab,
            )
            &&& command is NewWindow <==> !window.managed && action == WindowAction::Shared(
                Action::NewWindow,
            )
            &&& command is ShowQuickOpen <==> !window.managed && action == WindowAction::Shared(
                Action::QuickOpenTemplate,
            )
            &&& command is ShowPreferences <==> !window.managed && action == WindowAction::Shared(
                Action::OpenPreferences,
            )
            &&& command is PickDockerTarget <==> !window.managed && action
                == WindowAction::DockerPicker
            &&& command is PickSession <==> !window.managed && action == WindowAction::AttachSession
            &&& command is ConnectSsh <==> !window.managed && action == WindowAction::SshConnect
            &&& command is ManageRemotes <==> !window.managed && action
                == WindowAction::ManageRemotes
            &&& command is EditTabTemplates <==> !window.managed && action
                == WindowAction::TabTemplates
            &&& command is CloseWindow <==> action == WindowAction::Quit || action
                == WindowAction::Shared(Action::CloseWindow)
            &&& command is Paste <==> action == WindowAction::Shared(Action::Paste)
            &&& command is Find <==> action == WindowAction::Shared(Action::FindText)
            &&& command is PickColor <==> action == WindowAction::SetColor
            &&& command is ShowAbout <==> action == WindowAction::About
            &&& command is ShowLogs <==> action == WindowAction::ViewLogs
            &&& command is DumpState <==> action == WindowAction::DebugDumpState
            &&& command is OpenUrl <==> action == WindowAction::OpenUrl && parameter is Some
            &&& command is CopyUrl <==> action == WindowAction::CopyUrl && parameter is Some
            &&& command is CheckForUpdates <==> window.updater_enabled && action
                == WindowAction::CheckUpdates
            &&& command is Upgrade <==> window.updater_enabled && action
                == WindowAction::ExecuteUpgrade && parameter is Some
            &&& command is Relaunch <==> window.updater_enabled && action
                == WindowAction::DebugRelaunch
            &&& command is RelaunchDaemon <==> window.updater_enabled && action
                == WindowAction::DebugRelaunchDaemon
            &&& command is ShutDownDaemon <==> window.updater_enabled && action
                == WindowAction::DebugKillDaemon
            &&& command is EncodingKept <==> action == WindowAction::SetEncoding && parameter
                == Some("utf8"@)
            &&& command is EncodingUnsupported <==> action == WindowAction::SetEncoding && parameter
                is Some && parameter != Some("utf8"@)
        }),
{
}

/// Toggling fullscreen leaves it where it is on and enters it where it is off, and
/// nothing else does either.
pub proof fn law_fullscreen_is_toggled(
    action: WindowAction,
    parameter: Option<Seq<char>>,
    window: WindowFacts,
)
    ensures
        response(action, parameter, window) is EnterFullscreen <==> action == WindowAction::Shared(
            Action::ToggleFullscreen,
        ) && !window.fullscreen,
        response(action, parameter, window) is LeaveFullscreen <==> action == WindowAction::Shared(
            Action::ToggleFullscreen,
        ) && window.fullscreen,
{
}

/// An action on panes reaches the panes as itself, in an unmanaged window that shows a
/// tab; and what a managed window refuses of the shared actions is exactly what opens or
/// configures something in any other.
pub proof fn law_pane_actions_reach_the_panes(action: Action, window: WindowFacts)
    requires
        window.shown() is Some,
        !window.managed,
    ensures
        is_pane_action(action) ==> shared_response(action, window) == Command::Pane(action),
        shared_response(action, window) is Pane ==> is_pane_action(action),
        managed_restricted(action) <==> opens_or_configures(shared_response(action, window)),
{
}

/// The tab that is shown is that of the page, where the page has a tab.
pub proof fn law_page_shows_its_tab(window: WindowFacts, page: u32)
    ensures
        window.shown() == Some(page) <==> window.current == Some(page) && page
            < window.tabs@.len(),
        window.current == Some(page) ==> window.start() == page,
        window.current is None ==> window.start() == 0 && window.shown() is None,
{
}

/// Stepping to the next or the previous tab shows the neighbour that was asked for, with
/// the input given to it, where there are pages; and going through all pages one by one
/// comes back to the start.
pub proof fn law_stepping_shows_the_neighbour(window: WindowFacts, page: u32)
    requires
        window.current == Some(page),
        page < window.pages,
    ensures
        page + 1 < window.pages ==> shared_response(Action::NextTab, window)
            == (Command::SelectTab { tab: (page + 1) as u32, focus: true }),
        page + 1 == window.pages ==> shared_response(Action::NextTab, window)
            == (Command::SelectTab { tab: 0, focus: true }),
        page > 0 ==> shared_response(Action::PrevTab, window) == (Command::SelectTab {
            tab: (page - 1) as u32,
            focus: true,
        }),
        page == 0 ==> shared_response(Action::PrevTab, window) == (Command::SelectTab {
            tab: (window.pages - 1) as u32,
            focus: true,
        }),
{
    if page + 1 < window.pages {
        assert((page + 1) % (window.pages as int) == page + 1) by (nonlinear_arith)
            requires
                0 <= page + 1 < window.pages,
        ;
    } else {
        assert((page + 1) % (window.pages as int) == 0) by (nonlinear_arith)
            requires
                page + 1 == window.pages,
                window.pages > 0,
        ;
    }
}

/// A tab is selected by its number, counted from one, or by its identity, which finds
/// the first tab that has it; only selecting by identity leaves the input where it is.
pub proof fn law_tabs_are_selected_by_number_or_identity(
    parameter: Seq<char>,
    window: WindowFacts,
    place: u32,
)
    ensures
        unsigned_number(parameter) == Some((place + 1) as nat) && place + 1 <= u32::MAX && place
            < window.pages ==> response(WindowAction::SelectTabIndex, Some(parameter), window)
            == (Command::SelectTab { tab: place, focus: true }),
        unsigned_number(parameter) == Some((place + 1) as nat) && place >= window.pages
            ==> response(WindowAction::SelectTabIndex, Some(parameter), window) == Command::Ignore,
        place < window.tabs@.len() && unsigned_number(parameter) == Some(
            window.tabs@[place as int].id as nat,
        ) && (forall|earlier: int|
            0 <= earlier < place ==> (#[trigger] window.tabs@[earlier]).id
                != window.tabs@[place as int].id) ==> response(
            WindowAction::SwitchTab,
            Some(parameter),
            window,
        ) == (Command::SelectTab { tab: place, focus: false }),
        unsigned_number(parameter) is None ==> response(
            WindowAction::SelectTabIndex,
            Some(parameter),
            window,
        ) == Command::Ignore && response(WindowAction::SwitchTab, Some(parameter), window)
            == Command::Ignore && response(WindowAction::RunToolShortcut, Some(parameter), window)
            == Command::Ignore,
{
    if place < window.tabs@.len() && (forall|earlier: int|
        0 <= earlier < place ==> (#[trigger] window.tabs@[earlier]).id
            != window.tabs@[place as int].id) {
        lemma_first_place(window.tabs@, window.tabs@[place as int].id, place as int, 0);
    }
}

proof fn lemma_first_place(tabs: Seq<TabFacts>, id: u64, place: int, from: int)
    requires
        0 <= from <= place < tabs.len(),
        tabs[place].id == id,
        forall|earlier: int| 0 <= earlier < place ==> (#[trigger] tabs[earlier]).id != id,
    ensures
        place_from(tabs, id, from) == Some(place),
    decreases place - from,
{
    if from < place {
        lemma_first_place(tabs, id, place, from + 1);
    }
}

/// A tool shortcut runs the tool of the number that it carries, in an unmanaged window.
pub proof fn law_tool_shortcut_runs_its_tool(
    action: WindowAction,
    parameter: Option<Seq<char>>,
    window: WindowFacts,
    index: usize,
)
    ensures
        response(action, parameter, window) == (Command::RunTool {
            index: index as u64,
            like: window.shown(),
        }) <==> !window.managed && action == WindowAction::RunToolShortcut && parameter is Some
            && unsigned_number(parameter->0) == Some(index as nat),
{
}

/// Each window action is registered under its own name; the two of the updater only
/// where updates are enabled, and every other in any window.
pub proof fn law_window_actions_have_their_names(action: WindowAction, updater_enabled: bool)
    requires
        is_window_action(action),
    ensures
        is_registered(action, true),
        is_registered(action, false) <==> action != WindowAction::CheckUpdates && action
            != WindowAction::ExecuteUpgrade,
        action matches WindowAction::Shared(shared) ==> window_action_name(action) == action_name(
            shared,
        ),
        window_action_name(WindowAction::SelectTabIndex) == "select-tab-index"@,
        window_action_name(WindowAction::CloseOtherTabs) == "close-other-tabs"@,
        window_action_name(WindowAction::Quit) == "quit"@,
        window_action_name(WindowAction::DockerPicker) == "docker-picker"@,
        window_action_name(WindowAction::AttachSession) == "attach-session"@,
        window_action_name(WindowAction::SshConnect) == "ssh-connect"@,
        window_action_name(WindowAction::ManageRemotes) == "manage-remotes"@,
        window_action_name(WindowAction::OpenUrl) == "open-url"@,
        window_action_name(WindowAction::CopyUrl) == "copy-url"@,
        window_action_name(WindowAction::CopyHtml) == "copy-html"@,
        window_action_name(WindowAction::SetTitle) == "set-title"@,
        window_action_name(WindowAction::SetColor) == "set-color"@,
        window_action_name(WindowAction::SetEncoding) == "set-encoding"@,
        window_action_name(WindowAction::SendSignal) == "send-signal"@,
        window_action_name(WindowAction::ClearReset) == "clear-reset"@,
        window_action_name(WindowAction::SwitchTab) == "switch-tab"@,
        window_action_name(WindowAction::RunToolShortcut) == "run-tool-shortcut"@,
        window_action_name(WindowAction::CheckUpdates) == "check-updates"@,
        window_action_name(WindowAction::ExecuteUpgrade) == "execute-upgrade"@,
        window_action_name(WindowAction::About) == "about"@,
        window_action_name(WindowAction::TabTemplates) == "tab-templates"@,
        window_action_name(WindowAction::ViewLogs) == "view-logs"@,
        window_action_name(WindowAction::DebugRelaunch) == "debug-relaunch"@,
        window_action_name(WindowAction::DebugRelaunchDaemon) == "debug-relaunch-daemon"@,
        window_action_name(WindowAction::DebugKillDaemon) == "debug-kill-daemon"@,
        window_action_name(WindowAction::DebugDumpState) == "debug-dump-state"@,
{
}

/// Of the tabs with a bell, the nearest one after the tab that is shown is next: none
/// of those between has a bell.
pub proof fn law_next_alerted_is_the_nearest(tabs: Seq<TabFacts>, current: int, offset: int, found: int)
    requires
        0 <= current < tabs.len(),
        1 <= offset <= found < tabs.len(),
        tabs[(current + found) % (tabs.len() as int)].has_bell,
        forall|between: int|
            offset <= between < found ==> !tabs[#[trigger] ((current + between) % (
            tabs.len() as int))].has_bell,
    ensures
        alerted_from(tabs, current, offset) == Some((current + found) % (tabs.len() as int)),
    decreases found - offset,
{
    if offset < found {
        assert(!tabs[((current + offset) % (tabs.len() as int))].has_bell);
        law_next_alerted_is_the_nearest(tabs, current, offset + 1, found);
    }
}

} // verus!
