//! The actions that shortcuts, menus and plugins share, and the window actions
//! that carry them out.

use crate::text::{decimal, decimal_text, law_decimal_is_read_back, unsigned_number};
use vstd::prelude::*;

verus! {

/// How a split divides a pane.
#[derive(Clone, Copy, Debug, PartialEq, Eq, Structural)]
pub enum SplitDirection {
    /// Side by side.
    Horizontal,
    /// One above the other.
    Vertical,
}

/// Where to look for a neighbouring pane.
#[derive(Clone, Copy, Debug, PartialEq, Eq, Structural)]
pub enum PaneDirection {
    Left,
    Right,
    Up,
    Down,
}

/// What a user can ask of the front end, however it was asked.
#[derive(Clone, Copy, Debug, PartialEq, Eq, Structural)]
pub enum Action {
    NewTab,
    CloseTab,
    NextTab,
    PrevTab,
    NextAlertedTab,
    /// Select a tab by its number, counted from one.
    Tab(u8),
    SplitPane(SplitDirection),
    ClosePane,
    FocusPane(PaneDirection),
    ResizePane(PaneDirection),
    TogglePaneZoom,
    NewWindow,
    CloseWindow,
    Copy,
    Paste,
    SelectAll,
    ZoomIn,
    ZoomOut,
    ZoomReset,
    ToggleFullscreen,
    ScrollUp,
    ScrollDown,
    ScrollPageUp,
    ScrollPageDown,
    ScrollToTop,
    ScrollToBottom,
    PromptPrevious,
    PromptNext,
    OpenPreferences,
    FindText,
    ResetTerminal,
    QuickOpenTemplate,
}

/// The window action that carries out an action.
pub open spec fn action_name(action: Action) -> Seq<char> {
    match action {
        Action::NewTab => "new-tab"@,
        Action::CloseTab => "close-tab"@,
        Action::NextTab => "next-tab"@,
        Action::PrevTab => "prev-tab"@,
        Action::NextAlertedTab => "next-alerted-tab"@,
        Action::Tab(_) => "select-tab-index"@,
        Action::SplitPane(SplitDirection::Horizontal) => "split-pane-horizontal"@,
        Action::SplitPane(SplitDirection::Vertical) => "split-pane-vertical"@,
        Action::ClosePane => "close-pane"@,
        Action::FocusPane(PaneDirection::Left) => "focus-pane-left"@,
        Action::FocusPane(PaneDirection::Right) => "focus-pane-right"@,
        Action::FocusPane(PaneDirection::Up) => "focus-pane-up"@,
        Action::FocusPane(PaneDirection::Down) => "focus-pane-down"@,
        Action::ResizePane(PaneDirection::Left) => "resize-pane-left"@,
        Action::ResizePane(PaneDirection::Right) => "resize-pane-right"@,
        Action::ResizePane(PaneDirection::Up) => "resize-pane-up"@,
        Action::ResizePane(PaneDirection::Down) => "resize-pane-down"@,
        Action::TogglePaneZoom => "toggle-pane-zoom"@,
        Action::NewWindow => "new-window"@,
        Action::CloseWindow => "close-window"@,
        Action::Copy => "copy"@,
        Action::Paste => "paste"@,
        Action::SelectAll => "select-all"@,
        Action::ZoomIn => "zoom-in"@,
        Action::ZoomOut => "zoom-out"@,
        Action::ZoomReset => "zoom-reset"@,
        Action::ToggleFullscreen => "toggle-fullscreen"@,
        Action::ScrollUp => "scroll-up"@,
        Action::ScrollDown => "scroll-down"@,
        Action::ScrollPageUp => "scroll-page-up"@,
        Action::ScrollPageDown => "scroll-page-down"@,
        Action::ScrollToTop => "scroll-to-top"@,
        Action::ScrollToBottom => "scroll-to-bottom"@,
        Action::PromptPrevious => "prompt-previous"@,
        Action::PromptNext => "prompt-next"@,
        Action::OpenPreferences => "preferences"@,
        Action::FindText => "find"@,
        Action::ResetTerminal => "reset"@,
        Action::QuickOpenTemplate => "quick-open"@,
    }
}

/// The parameter that the window action takes: a tab's number in decimal.
pub open spec fn action_parameter(action: Action) -> Option<Seq<char>> {
    match action {
        Action::Tab(tab) => Some(decimal(tab as nat)),
        _ => None,
    }
}

/// A window action to activate, with its parameter.
#[derive(Clone, Debug, PartialEq, Eq)]
pub struct GtkActionActivation {
    pub name: &'static str,
    pub parameter: Option<String>,
}

impl GtkActionActivation {
    pub open spec fn parameter_text(&self) -> Option<Seq<char>> {
        match self.parameter {
            Some(parameter) => Some(parameter@),
            None => None,
        }
    }

    /// An action without a parameter.
    pub fn simple(name: &'static str) -> (activation: Self)
        ensures
            activation.name@ == name@,
            activation.parameter_text() == None::<Seq<char>>,
    {
        GtkActionActivation { name, parameter: None }
    }

    /// An action with a text parameter.
    pub fn with_string(name: &'static str, parameter: &str) -> (activation: Self)
        ensures
            activation.name@ == name@,
            activation.parameter_text() == Some(parameter@),
    {
        GtkActionActivation { name, parameter: Some(parameter.to_owned()) }
    }
}

/// Map an action onto the window action that carries it out. Every action has
/// one.
pub fn gtk_action_activation(action: &Action) -> (activation: GtkActionActivation)
    ensures
        activation.name@ == action_name(*action),
        activation.parameter_text() == action_parameter(*action),
{
    match *action {
        Action::NewTab => GtkActionActivation::simple("new-tab"),
        Action::CloseTab => GtkActionActivation::simple("close-tab"),
        Action::NextTab => GtkActionActivation::simple("next-tab"),
        Action::PrevTab => GtkActionActivation::simple("prev-tab"),
        Action::NextAlertedTab => GtkActionActivation::simple("next-alerted-tab"),
        Action::Tab(tab) => {
            let number = decimal_text(tab as u64);
            GtkActionActivation::with_string("select-tab-index", number.as_str())
        },
        Action::SplitPane(SplitDirection::Horizontal) => GtkActionActivation::simple("split-pane-horizontal"),
        Action::SplitPane(SplitDirection::Vertical) => GtkActionActivation::simple("split-pane-vertical"),
        Action::ClosePane => GtkActionActivation::simple("close-pane"),
        Action::FocusPane(PaneDirection::Left) => GtkActionActivation::simple("focus-pane-left"),
        Action::FocusPane(PaneDirection::Right) => GtkActionActivation::simple("focus-pane-right"),
        Action::FocusPane(PaneDirection::Up) => GtkActionActivation::simple("focus-pane-up"),
        Action::FocusPane(PaneDirection::Down) => GtkActionActivation::simple("focus-pane-down"),
        Action::ResizePane(PaneDirection::Left) => GtkActionActivation::simple("resize-pane-left"),
        Action::ResizePane(PaneDirection::Right) => GtkActionActivation::simple("resize-pane-right"),
        Action::ResizePane(PaneDirection::Up) => GtkActionActivation::simple("resize-pane-up"),
        Action::ResizePane(PaneDirection::Down) => GtkActionActivation::simple("resize-pane-down"),
        Action::TogglePaneZoom => GtkActionActivation::simple("toggle-pane-zoom"),
        Action::NewWindow => GtkActionActivation::simple("new-window"),
        Action::CloseWindow => GtkActionActivation::simple("close-window"),
        Action::Copy => GtkActionActivation::simple("copy"),
        Action::Paste => GtkActionActivation::simple("paste"),
        Action::SelectAll => GtkActionActivation::simple("select-all"),
        Action::ZoomIn => GtkActionActivation::simple("zoom-in"),
        Action::ZoomOut => GtkActionActivation::simple("zoom-out"),
        Action::ZoomReset => GtkActionActivation::simple("zoom-reset"),
        Action::ToggleFullscreen => GtkActionActivation::simple("toggle-fullscreen"),
        Action::ScrollUp => GtkActionActivation::simple("scroll-up"),
        Action::ScrollDown => GtkActionActivation::simple("scroll-down"),
        Action::ScrollPageUp => GtkActionActivation::simple("scroll-page-up"),
        Action::ScrollPageDown => GtkActionActivation::simple("scroll-page-down"),
        Action::ScrollToTop => GtkActionActivation::simple("scroll-to-top"),
        Action::ScrollToBottom => GtkActionActivation::simple("scroll-to-bottom"),
        Action::PromptPrevious => GtkActionActivation::simple("prompt-previous"),
        Action::PromptNext => GtkActionActivation::simple("prompt-next"),
        Action::OpenPreferences => GtkActionActivation::simple("preferences"),
        Action::FindText => GtkActionActivation::simple("find"),
        Action::ResetTerminal => GtkActionActivation::simple("reset"),
        Action::QuickOpenTemplate => GtkActionActivation::simple("quick-open"),
    }
}

/// What a managed window does not offer: everything that opens a second
/// session, rearranges panes, or edits the configuration.
pub open spec fn managed_restricted(action: Action) -> bool {
    match action {
        Action::NewTab => true,
        Action::SplitPane(_) => true,
        Action::ClosePane => true,
        Action::FocusPane(_) => true,
        Action::ResizePane(_) => true,
        Action::TogglePaneZoom => true,
        Action::NewWindow => true,
        Action::OpenPreferences => true,
        Action::QuickOpenTemplate => true,
        _ => false,
    }
}

pub fn is_managed_restricted_action(action: &Action) -> (restricted: bool)
    ensures
        restricted == managed_restricted(*action),
{
    match *action {
        Action::NewTab | Action::SplitPane(_) | Action::ClosePane | Action::FocusPane(_)
        | Action::ResizePane(_) | Action::TogglePaneZoom | Action::NewWindow
        | Action::OpenPreferences | Action::QuickOpenTemplate => true,
        _ => false,
    }
}

/// Whether a window refuses an action: a managed one refuses what it does not
/// offer, any other refuses nothing.
pub fn reject_managed_action(managed: bool, action: &Action) -> (rejected: bool)
    ensures
        rejected == (managed && managed_restricted(*action)),
{
    managed && is_managed_restricted_action(action)
}

/// The actions on the panes of the current tab.
pub open spec fn is_pane_action(action: Action) -> bool {
    match action {
        Action::SplitPane(_) => true,
        Action::ClosePane => true,
        Action::FocusPane(_) => true,
        Action::ResizePane(_) => true,
        Action::TogglePaneZoom => true,
        _ => false,
    }
}

/// The actions on the view of the current terminal.
pub open spec fn is_view_action(action: Action) -> bool {
    match action {
        Action::ZoomIn => true,
        Action::ZoomOut => true,
        Action::ZoomReset => true,
        Action::ScrollUp => true,
        Action::ScrollDown => true,
        Action::ScrollPageUp => true,
        Action::ScrollPageDown => true,
        Action::ScrollToTop => true,
        Action::ScrollToBottom => true,
        Action::PromptPrevious => true,
        Action::PromptNext => true,
        _ => false,
    }
}

/// A managed window refuses every action on panes and none on the view.
pub proof fn law_managed_mode_freezes_the_panes(action: Action)
    ensures
        is_pane_action(action) ==> managed_restricted(action),
        is_view_action(action) ==> !managed_restricted(action),
{
}

/// Each action is carried out by the window action of the same name, by which menus and
/// shortcuts reach it too.
pub proof fn law_actions_have_their_names(tab: u8)
    ensures
        action_name(Action::Tab(tab)) == "select-tab-index"@,
        action_name(Action::NewTab) == "new-tab"@,
        action_name(Action::CloseTab) == "close-tab"@,
        action_name(Action::NextTab) == "next-tab"@,
        action_name(Action::PrevTab) == "prev-tab"@,
        action_name(Action::NextAlertedTab) == "next-alerted-tab"@,
        action_name(Action::SplitPane(SplitDirection::Horizontal)) == "split-pane-horizontal"@,
        action_name(Action::SplitPane(SplitDirection::Vertical)) == "split-pane-vertical"@,
        action_name(Action::ClosePane) == "close-pane"@,
        action_name(Action::FocusPane(PaneDirection::Left)) == "focus-pane-left"@,
        action_name(Action::FocusPane(PaneDirection::Right)) == "focus-pane-right"@,
        action_name(Action::FocusPane(PaneDirection::Up)) == "focus-pane-up"@,
        action_name(Action::FocusPane(PaneDirection::Down)) == "focus-pane-down"@,
        action_name(Action::ResizePane(PaneDirection::Left)) == "resize-pane-left"@,
        action_name(Action::ResizePane(PaneDirection::Right)) == "resize-pane-right"@,
        action_name(Action::ResizePane(PaneDirection::Up)) == "resize-pane-up"@,
        action_name(Action::ResizePane(PaneDirection::Down)) == "resize-pane-down"@,
        action_name(Action::TogglePaneZoom) == "toggle-pane-zoom"@,
        action_name(Action::NewWindow) == "new-window"@,
        action_name(Action::CloseWindow) == "close-window"@,
        action_name(Action::Copy) == "copy"@,
        action_name(Action::Paste) == "paste"@,
        action_name(Action::SelectAll) == "select-all"@,
        action_name(Action::ZoomIn) == "zoom-in"@,
        action_name(Action::ZoomOut) == "zoom-out"@,
        action_name(Action::ZoomReset) == "zoom-reset"@,
        action_name(Action::ToggleFullscreen) == "toggle-fullscreen"@,
        action_name(Action::ScrollUp) == "scroll-up"@,
        action_name(Action::ScrollDown) == "scroll-down"@,
        action_name(Action::ScrollPageUp) == "scroll-page-up"@,
        action_name(Action::ScrollPageDown) == "scroll-page-down"@,
        action_name(Action::ScrollToTop) == "scroll-to-top"@,
        action_name(Action::ScrollToBottom) == "scroll-to-bottom"@,
        action_name(Action::PromptPrevious) == "prompt-previous"@,
        action_name(Action::PromptNext) == "prompt-next"@,
        action_name(Action::OpenPreferences) == "preferences"@,
        action_name(Action::FindText) == "find"@,
        action_name(Action::ResetTerminal) == "reset"@,
        action_name(Action::QuickOpenTemplate) == "quick-open"@,
{
}

/// Only the action that selects a tab takes a parameter, and its number can be read
/// back from it.
pub proof fn law_only_tab_numbers_are_passed(action: Action)
    ensures
        action_parameter(action) is Some <==> action is Tab,
        action matches Action::Tab(tab) ==> unsigned_number(action_parameter(action)->0) == Some(
            tab as nat,
        ),
{
    if let Action::Tab(tab) = action {
        law_decimal_is_read_back(tab as nat);
    }
}

/// A managed window offers no new session, no change of panes and no configuration, and
/// offers everything else.
pub proof fn law_managed_window_offers_the_rest(action: Action)
    ensures
        managed_restricted(action) <==> action == Action::NewTab || action == Action::NewWindow
            || action == Action::OpenPreferences || action == Action::QuickOpenTemplate
            || is_pane_action(action),
        is_pane_action(action) <==> action is SplitPane || action is ClosePane
            || action is FocusPane || action is ResizePane || action is TogglePaneZoom,
        is_view_action(action) <==> action is ZoomIn || action is ZoomOut || action is ZoomReset
            || action is ScrollUp || action is ScrollDown || action is ScrollPageUp
            || action is ScrollPageDown || action is ScrollToTop || action is ScrollToBottom
            || action is PromptPrevious || action is PromptNext,
        !(is_pane_action(action) && is_view_action(action)),
{
}

} // verus!
