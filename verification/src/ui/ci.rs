//! The scripted run of the pane and template actions that the Linux build runs
//! under a Wayland compositor.

use crate::text::{
    chars_of, copy_optional, decimal, decimal_text, is_optional_text, optional_text,
    same_optional_text,
};
use crate::ui::action::{Action, PaneDirection, SplitDirection};
use crate::ui::pane::PaneTree;
use crate::ui::tree::same_tree;
use vstd::prelude::*;

verus! {

/// The run is given up after this time, in nanoseconds.
pub const RUN_LIMIT: u64 = 40_000_000_000;

/// How long an exited template is watched before it is judged.
pub const COMPLETION_WAIT: u64 = 750_000_000;

/// How long a second tab would have to appear.
pub const REUSE_WAIT: u64 = 1_000_000_000;

/// The colour that the template under test gives its tab.
pub const TEMPLATE_COLOR: &'static str = "#2a7fff";

/// Where the run stands.
#[derive(Clone, Copy, Debug, PartialEq, Eq, Structural)]
pub enum PaneCiStep {
    WaitInitial,
    WaitHorizontalSplit,
    WaitVerticalSplit,
    Focus,
    Resize,
    Zoom,
    Unzoom,
    WaitClose,
    WaitTemplate,
    WaitUniqueReuse,
}

/// The place of a step in the run.
pub open spec fn step_number(step: PaneCiStep) -> int {
    match step {
        PaneCiStep::WaitInitial => 0,
        PaneCiStep::WaitHorizontalSplit => 1,
        PaneCiStep::WaitVerticalSplit => 2,
        PaneCiStep::Focus => 3,
        PaneCiStep::Resize => 4,
        PaneCiStep::Zoom => 5,
        PaneCiStep::Unzoom => 6,
        PaneCiStep::WaitClose => 7,
        PaneCiStep::WaitTemplate => 8,
        PaneCiStep::WaitUniqueReuse => 9,
    }
}

impl PaneCiStep {
    pub open spec fn label(self) -> Seq<char> {
        match self {
            PaneCiStep::WaitInitial => "WaitInitial"@,
            PaneCiStep::WaitHorizontalSplit => "WaitHorizontalSplit"@,
            PaneCiStep::WaitVerticalSplit => "WaitVerticalSplit"@,
            PaneCiStep::Focus => "Focus"@,
            PaneCiStep::Resize => "Resize"@,
            PaneCiStep::Zoom => "Zoom"@,
            PaneCiStep::Unzoom => "Unzoom"@,
            PaneCiStep::WaitClose => "WaitClose"@,
            PaneCiStep::WaitTemplate => "WaitTemplate"@,
            PaneCiStep::WaitUniqueReuse => "WaitUniqueReuse"@,
        }
    }

    /// The step as a failure names it.
    pub fn name(self) -> (name: &'static str)
        ensures
            name@ == self.label(),
    {
        match self {
            PaneCiStep::WaitInitial => "WaitInitial",
            PaneCiStep::WaitHorizontalSplit => "WaitHorizontalSplit",
            PaneCiStep::WaitVerticalSplit => "WaitVerticalSplit",
            PaneCiStep::Focus => "Focus",
            PaneCiStep::Resize => "Resize",
            PaneCiStep::Zoom => "Zoom",
            PaneCiStep::Unzoom => "Unzoom",
            PaneCiStep::WaitClose => "WaitClose",
            PaneCiStep::WaitTemplate => "WaitTemplate",
            PaneCiStep::WaitUniqueReuse => "WaitUniqueReuse",
        }
    }
}

/// The line that reports a failure.
pub fn failure_line(step: PaneCiStep, reason: &str) -> (line: String)
    ensures
        line@ == "CTERM_PANE_CI FAIL step="@ + step.label() + " reason="@ + reason@,
{
    let mut line = "CTERM_PANE_CI FAIL step=".to_owned();
    line.append(step.name());
    line.append(" reason=");
    line.append(reason);
    line
}

/// What is said of an action that cannot be activated.
pub open spec fn activation_text(name: Seq<char>, registered: bool) -> Seq<char> {
    "window action '"@ + name + (if registered {
        "' is disabled"@
    } else {
        "' is not registered"@
    })
}

/// An action that cannot be activated is named, and said to be disabled exactly where it
/// is registered.
pub proof fn law_inactive_actions_are_named(name: Seq<char>)
    ensures
        activation_text(name, true) == "window action '"@ + name + "' is disabled"@,
        activation_text(name, false) == "window action '"@ + name + "' is not registered"@,
{
}

/// Why an action cannot be activated.
pub fn activation_error(name: &str, registered: bool, enabled: bool) -> (error: Option<String>)
    ensures
        match error {
            Some(text) => !(registered && enabled) && text@ == activation_text(name@, registered),
            None => registered && enabled,
        },
{
    if registered && enabled {
        return None;
    }
    let mut text = "window action '".to_owned();
    text.append(name);
    if registered {
        text.append("' is disabled");
    } else {
        text.append("' is not registered");
    }
    Some(text)
}

/// A line that the run reports.
#[derive(Clone, Copy, Debug, PartialEq, Eq, Structural)]
pub enum CiMarker {
    Start,
    Ready,
    SplitHorizontal,
    SplitVertical,
    Focus,
    Resize,
    Zoom,
    Unzoom,
    Close,
    Ingress,
    Launch,
    Unique,
    Complete,
}

impl CiMarker {
    pub open spec fn line(self) -> Seq<char> {
        match self {
            CiMarker::Start => "CTERM_PANE_CI START backend=wayland"@,
            CiMarker::Ready => "CTERM_PANE_CI READY panes=1"@,
            CiMarker::SplitHorizontal => "CTERM_PANE_CI SPLIT_HORIZONTAL_OK panes=2"@,
            CiMarker::SplitVertical => "CTERM_PANE_CI SPLIT_VERTICAL_OK panes=3"@,
            CiMarker::Focus => "CTERM_PANE_CI FOCUS_OK direction=up"@,
            CiMarker::Resize => "CTERM_PANE_CI RESIZE_OK direction=left"@,
            CiMarker::Zoom => "CTERM_PANE_CI ZOOM_OK"@,
            CiMarker::Unzoom => "CTERM_PANE_CI UNZOOM_OK"@,
            CiMarker::Close => "CTERM_PANE_CI CLOSE_OK panes=2"@,
            CiMarker::Ingress => "CTERM_TEMPLATE_CI INGRESS_OK source=quick-open"@,
            CiMarker::Launch => "CTERM_TEMPLATE_CI LAUNCH_OK argv=visible cwd=prepared keep_open=true color=#2a7fff"@,
            CiMarker::Unique => "CTERM_TEMPLATE_CI UNIQUE_OK tabs=2 session=reused"@,
            CiMarker::Complete => "CTERM_PANE_CI COMPLETE"@,
        }
    }

    pub fn text(self) -> (text: &'static str)
        ensures
            text@ == self.line(),
    {
        match self {
            CiMarker::Start => "CTERM_PANE_CI START backend=wayland",
            CiMarker::Ready => "CTERM_PANE_CI READY panes=1",
            CiMarker::SplitHorizontal => "CTERM_PANE_CI SPLIT_HORIZONTAL_OK panes=2",
            CiMarker::SplitVertical => "CTERM_PANE_CI SPLIT_VERTICAL_OK panes=3",
            CiMarker::Focus => "CTERM_PANE_CI FOCUS_OK direction=up",
            CiMarker::Resize => "CTERM_PANE_CI RESIZE_OK direction=left",
            CiMarker::Zoom => "CTERM_PANE_CI ZOOM_OK",
            CiMarker::Unzoom => "CTERM_PANE_CI UNZOOM_OK",
            CiMarker::Close => "CTERM_PANE_CI CLOSE_OK panes=2",
            CiMarker::Ingress => "CTERM_TEMPLATE_CI INGRESS_OK source=quick-open",
            CiMarker::Launch => "CTERM_TEMPLATE_CI LAUNCH_OK argv=visible cwd=prepared keep_open=true color=#2a7fff",
            CiMarker::Unique => "CTERM_TEMPLATE_CI UNIQUE_OK tabs=2 session=reused",
            CiMarker::Complete => "CTERM_PANE_CI COMPLETE",
        }
    }
}

/// Why the run failed.
#[derive(Clone, Copy, Debug, PartialEq, Eq, Structural)]
pub enum CiFailure {
    NoDisplay,
    NotWayland,
    DisplaySet,
    NoApplication,
    NameUnset,
    MarkerUnset,
    ReadyUnset,
    VisibleUnset,
    DoneUnset,
    WorkspaceUnset,
    TimedOut,
    HorizontalTopology,
    VerticalTopology,
    TabDisappeared,
    FocusUnchanged,
    RatiosUnchanged,
    NotZoomed,
    NotRestored,
    PaneCount,
    OverlayHidden,
    NoSelection,
    IdentityLost,
    NotKeptOpen,
    ColorLost,
    TemplateStays,
    SecondSelection,
    NotReused,
    /// The template launch left this many tabs.
    TabCount(u64),
    /// The second launch left this many tabs.
    Duplicate(u64),
    /// The template ran in another directory than the prepared one.
    WrongDirectory,
}

impl CiFailure {
    /// The reason as it is reported. That of a wrong directory names both
    /// directories, which only the caller knows.
    pub open spec fn reason_text(self) -> Option<Seq<char>> {
        match self {
            CiFailure::NoDisplay => Some("no GDK display"@),
            CiFailure::NotWayland => Some("GDK backend is not Wayland"@),
            CiFailure::DisplaySet => Some("DISPLAY is set"@),
            CiFailure::NoApplication => Some("window has no GTK application"@),
            CiFailure::NameUnset => Some("template name is unset"@),
            CiFailure::MarkerUnset => Some("template marker is unset"@),
            CiFailure::ReadyUnset => Some("template ready path is unset"@),
            CiFailure::VisibleUnset => Some("template visible path is unset"@),
            CiFailure::DoneUnset => Some("template completion path is unset"@),
            CiFailure::WorkspaceUnset => Some("template workspace is unset"@),
            CiFailure::TimedOut => Some("timed out after 40 seconds"@),
            CiFailure::HorizontalTopology => Some("horizontal split topology mismatch"@),
            CiFailure::VerticalTopology => Some("vertical split topology mismatch"@),
            CiFailure::TabDisappeared => Some("active tab disappeared"@),
            CiFailure::FocusUnchanged => Some("focus action did not change the active pane"@),
            CiFailure::RatiosUnchanged => Some("resize action did not change pane ratios"@),
            CiFailure::NotZoomed => Some("zoom action did not zoom the active pane"@),
            CiFailure::NotRestored => Some("second zoom action did not restore the tree"@),
            CiFailure::PaneCount => Some("close action produced an unexpected pane count"@),
            CiFailure::OverlayHidden => Some("Quick Open overlay did not become visible"@),
            CiFailure::NoSelection => Some("Quick Open had no template selection"@),
            CiFailure::IdentityLost => Some("new tab lost its template identity"@),
            CiFailure::NotKeptOpen => Some("exited template tab was not marked keep_open"@),
            CiFailure::ColorLost => Some("template tab color was not applied"@),
            CiFailure::TemplateStays => Some("could not leave the unique template tab"@),
            CiFailure::SecondSelection => Some("second Quick Open selection failed"@),
            CiFailure::NotReused => Some("unique template did not focus the existing tab/session"@),
            CiFailure::TabCount(count) => Some(
                "template launch produced "@ + decimal(count as nat) + " tabs instead of 2"@,
            ),
            CiFailure::Duplicate(count) => Some(
                "unique template created a duplicate; tab count is "@ + decimal(count as nat),
            ),
            CiFailure::WrongDirectory => None,
        }
    }

    pub fn reason(self) -> (reason: Option<String>)
        ensures
            match self.reason_text() {
                Some(text) => reason matches Some(own) && own@ == text,
                None => reason is None,
            },
    {
        match self {
            CiFailure::NoDisplay => Some("no GDK display".to_owned()),
            CiFailure::NotWayland => Some("GDK backend is not Wayland".to_owned()),
            CiFailure::DisplaySet => Some("DISPLAY is set".to_owned()),
            CiFailure::NoApplication => Some("window has no GTK application".to_owned()),
            CiFailure::NameUnset => Some("template name is unset".to_owned()),
            CiFailure::MarkerUnset => Some("template marker is unset".to_owned()),
            CiFailure::ReadyUnset => Some("template ready path is unset".to_owned()),
            CiFailure::VisibleUnset => Some("template visible path is unset".to_owned()),
            CiFailure::DoneUnset => Some("template completion path is unset".to_owned()),
            CiFailure::WorkspaceUnset => Some("template workspace is unset".to_owned()),
            CiFailure::TimedOut => Some("timed out after 40 seconds".to_owned()),
            CiFailure::HorizontalTopology => Some("horizontal split topology mismatch".to_owned()),
            CiFailure::VerticalTopology => Some("vertical split topology mismatch".to_owned()),
            CiFailure::TabDisappeared => Some("active tab disappeared".to_owned()),
            CiFailure::FocusUnchanged => Some("focus action did not change the active pane".to_owned()),
            CiFailure::RatiosUnchanged => Some("resize action did not change pane ratios".to_owned()),
            CiFailure::NotZoomed => Some("zoom action did not zoom the active pane".to_owned()),
            CiFailure::NotRestored => Some("second zoom action did not restore the tree".to_owned()),
            CiFailure::PaneCount => Some("close action produced an unexpected pane count".to_owned()),
            CiFailure::OverlayHidden => Some("Quick Open overlay did not become visible".to_owned()),
            CiFailure::NoSelection => Some("Quick Open had no template selection".to_owned()),
            CiFailure::IdentityLost => Some("new tab lost its template identity".to_owned()),
            CiFailure::NotKeptOpen => Some("exited template tab was not marked keep_open".to_owned()),
            CiFailure::ColorLost => Some("template tab color was not applied".to_owned()),
            CiFailure::TemplateStays => Some("could not leave the unique template tab".to_owned()),
            CiFailure::SecondSelection => Some("second Quick Open selection failed".to_owned()),
            CiFailure::NotReused => Some("unique template did not focus the existing tab/session".to_owned()),
            CiFailure::TabCount(count) => {
                let mut text = "template launch produced ".to_owned();
                let number = decimal_text(count);
                text.append(number.as_str());
                text.append(" tabs instead of 2");
                Some(text)
            },
            CiFailure::Duplicate(count) => {
                let mut text = "unique template created a duplicate; tab count is ".to_owned();
                let number = decimal_text(count);
                text.append(number.as_str());
                Some(text)
            },
            CiFailure::WrongDirectory => None,
        }
    }
}

/// What the driver asks for next.
#[derive(Clone, Copy, Debug, PartialEq, Eq, Structural)]
pub enum CiCommand {
    /// Wait for the next tick.
    Wait,
    /// Report a line and wait for the next tick.
    Report(CiMarker),
    /// Report a line, activate an action, and say how it went.
    Activate { marker: Option<CiMarker>, action: Action },
    /// Confirm the selection of the quick-open overlay, and say how it went.
    ConfirmSelection,
    /// Look at the template's tab.
    InspectTemplate,
    /// Leave the sign that the template's session is attached.
    SignalAttached,
    /// Leave the sign that the template's output is visible, and read how it
    /// completed.
    SignalVisible,
    /// Look at the template's tab after the second launch.
    InspectReuse,
    /// Report the last two lines, destroy every session and quit.
    Finish,
    Fail(CiFailure),
}

/// The panes of the tab that is shown.
#[derive(Debug)]
pub struct PaneSnapshot {
    pub pane_count: usize,
    pub active: u64,
    pub zoomed: Option<u64>,
    pub tree: PaneTree,
}

/// The root is a split side by side.
pub open spec fn splits_horizontally(tree: PaneTree) -> bool {
    tree matches PaneTree::Split { direction, .. } && direction == SplitDirection::Horizontal
}

/// The root is a split side by side whose second side is split one above the
/// other.
pub open spec fn nests_vertically(tree: PaneTree) -> bool {
    tree matches PaneTree::Split { direction, second, .. } && direction
        == SplitDirection::Horizontal && (*second matches PaneTree::Split { direction: inner, .. }
        && inner == SplitDirection::Vertical)
}

/// The tab that is shown, as the template checks look at it.
#[derive(Debug)]
pub struct TemplateSnapshot {
    pub tab_count: usize,
    pub tab_id: u64,
    pub session_id: Option<String>,
    pub template_name: Option<String>,
    pub keep_open: bool,
    pub color: Option<String>,
    pub screen_text: String,
}

/// `part` occurs in `text` at a place.
pub open spec fn occurs_at(text: Seq<char>, part: Seq<char>, at: int) -> bool {
    0 <= at && at + part.len() <= text.len() && text.subrange(at, at + part.len()) == part
}

/// `part` occurs in `text`.
pub open spec fn occurs(text: Seq<char>, part: Seq<char>) -> bool {
    exists|at: int| occurs_at(text, part, at)
}

/// Whether `wanted` stands in `whole` at a place.
fn stands_at(whole: &Vec<char>, wanted: &Vec<char>, at: usize) -> (stands: bool)
    requires
        at + wanted@.len() <= whole@.len(),
    ensures
        stands == occurs_at(whole@, wanted@, at as int),
{
    let length: usize = whole.len();
    let mut matched: usize = 0;
    while matched < wanted.len()
        invariant
            length == whole@.len(),
            at + wanted@.len() <= whole@.len(),
            matched <= wanted@.len(),
            forall|i: int| 0 <= i < matched ==> whole@[at + i] == wanted@[i],
        decreases wanted@.len() - matched,
    {
        if whole[at + matched] != wanted[matched] {
            proof {
                if occurs_at(whole@, wanted@, at as int) {
                    assert(whole@.subrange(at as int, at + wanted@.len())[matched as int]
                        == wanted@[matched as int]);
                }
            }
            return false;
        }
        matched += 1;
    }
    proof {
        assert(whole@.subrange(at as int, at + wanted@.len()) =~= wanted@);
    }
    true
}

/// Whether `part` occurs in `text`.
pub fn contains_text(text: &str, part: &str) -> (found: bool)
    ensures
        found == occurs(text@, part@),
{
    let whole = chars_of(text);
    let wanted = chars_of(part);
    if wanted.len() > whole.len() {
        return false;
    }
    if wanted.len() == 0 {
        proof {
            assert(text@.subrange(0, 0) =~= part@);
            assert(occurs_at(text@, part@, 0));
        }
        return true;
    }
    let places: usize = whole.len() - wanted.len() + 1;
    let mut at: usize = 0;
    while at < places
        invariant
            whole@ == text@,
            wanted@ == part@,
            places == whole@.len() - wanted@.len() + 1,
            at <= places,
            forall|earlier: int| 0 <= earlier < at ==> !occurs_at(text@, part@, earlier),
        decreases places - at,
    {
        if stands_at(&whole, &wanted, at) {
            return true;
        }
        at += 1;
    }
    false
}

/// What the surroundings of the run look like when it starts.
#[derive(Clone, Copy, Debug, PartialEq, Eq, Structural)]
pub struct StartFacts {
    /// The run was asked for.
    pub requested: bool,
    pub has_display: bool,
    pub on_wayland: bool,
    /// An X11 display is set too.
    pub x11_display_set: bool,
    pub has_application: bool,
    pub name_set: bool,
    pub marker_set: bool,
    pub ready_set: bool,
    pub visible_set: bool,
    pub done_set: bool,
    pub workspace_set: bool,
}

/// Whether the run starts.
#[derive(Clone, Copy, Debug, PartialEq, Eq, Structural)]
pub enum StartDecision {
    /// It was not asked for.
    Off,
    Start,
    Fail(PaneCiStep, CiFailure),
}

/// Whether the run starts.
pub open spec fn decision_of(facts: StartFacts) -> StartDecision {
    if !facts.requested {
        StartDecision::Off
    } else if !facts.has_display {
        StartDecision::Fail(PaneCiStep::WaitInitial, CiFailure::NoDisplay)
    } else if !facts.on_wayland {
        StartDecision::Fail(PaneCiStep::WaitInitial, CiFailure::NotWayland)
    } else if facts.x11_display_set {
        StartDecision::Fail(PaneCiStep::WaitInitial, CiFailure::DisplaySet)
    } else if !facts.has_application {
        StartDecision::Fail(PaneCiStep::WaitInitial, CiFailure::NoApplication)
    } else if !facts.name_set {
        StartDecision::Fail(PaneCiStep::WaitTemplate, CiFailure::NameUnset)
    } else if !facts.marker_set {
        StartDecision::Fail(PaneCiStep::WaitTemplate, CiFailure::MarkerUnset)
    } else if !facts.ready_set {
        StartDecision::Fail(PaneCiStep::WaitTemplate, CiFailure::ReadyUnset)
    } else if !facts.visible_set {
        StartDecision::Fail(PaneCiStep::WaitTemplate, CiFailure::VisibleUnset)
    } else if !facts.done_set {
        StartDecision::Fail(PaneCiStep::WaitTemplate, CiFailure::DoneUnset)
    } else if !facts.workspace_set {
        StartDecision::Fail(PaneCiStep::WaitTemplate, CiFailure::WorkspaceUnset)
    } else {
        StartDecision::Start
    }
}

/// The run does not start, for a reason that a step needs.
pub open spec fn tells(facts: StartFacts, step: PaneCiStep, failure: CiFailure) -> bool {
    decision_of(facts) == StartDecision::Fail(step, failure)
}

/// The run starts exactly if it was asked for and every requirement is met; otherwise the
/// first one that is not met is told, with the step that needs it.
pub proof fn law_first_missing_requirement_is_told(facts: StartFacts)
    ensures
        decision_of(facts) == StartDecision::Off <==> !facts.requested,
        ({
            let asked = facts.requested;
            let with_display = asked && facts.has_display;
            let with_wayland = with_display && facts.on_wayland;
            let with_it_alone = with_wayland && !facts.x11_display_set;
            let with_application = with_it_alone && facts.has_application;
            let with_name = with_application && facts.name_set;
            let with_marker = with_name && facts.marker_set;
            let with_ready = with_marker && facts.ready_set;
            let with_visible = with_ready && facts.visible_set;
            let with_done = with_visible && facts.done_set;
            let with_workspace = with_done && facts.workspace_set;
            &&& tells(facts, PaneCiStep::WaitInitial, CiFailure::NoDisplay)
                <==> asked && !with_display
            &&& tells(facts, PaneCiStep::WaitInitial, CiFailure::NotWayland)
                <==> with_display && !with_wayland
            &&& tells(facts, PaneCiStep::WaitInitial, CiFailure::DisplaySet)
                <==> with_wayland && !with_it_alone
            &&& tells(facts, PaneCiStep::WaitInitial, CiFailure::NoApplication)
                <==> with_it_alone && !with_application
            &&& tells(facts, PaneCiStep::WaitTemplate, CiFailure::NameUnset)
                <==> with_application && !with_name
            &&& tells(facts, PaneCiStep::WaitTemplate, CiFailure::MarkerUnset)
                <==> with_name && !with_marker
            &&& tells(facts, PaneCiStep::WaitTemplate, CiFailure::ReadyUnset)
                <==> with_marker && !with_ready
            &&& tells(facts, PaneCiStep::WaitTemplate, CiFailure::VisibleUnset)
                <==> with_ready && !with_visible
            &&& tells(facts, PaneCiStep::WaitTemplate, CiFailure::DoneUnset)
                <==> with_visible && !with_done
            &&& tells(facts, PaneCiStep::WaitTemplate, CiFailure::WorkspaceUnset)
                <==> with_done && !with_workspace
            &&& decision_of(facts) == StartDecision::Start <==> with_workspace
        }),
{
}

/// Decide whether the run starts: only when asked for, and only where every
/// requirement is met, the first that is not being reported.
pub fn start_decision(facts: &StartFacts) -> (decision: StartDecision)
    ensures
        decision == decision_of(*facts),
{
    if !facts.requested {
        return StartDecision::Off;
    }
    if !facts.has_display {
        return StartDecision::Fail(PaneCiStep::WaitInitial, CiFailure::NoDisplay);
    }
    if !facts.on_wayland {
        return StartDecision::Fail(PaneCiStep::WaitInitial, CiFailure::NotWayland);
    }
    if facts.x11_display_set {
        return StartDecision::Fail(PaneCiStep::WaitInitial, CiFailure::DisplaySet);
    }
    if !facts.has_application {
        return StartDecision::Fail(PaneCiStep::WaitInitial, CiFailure::NoApplication);
    }
    if !facts.name_set {
        return StartDecision::Fail(PaneCiStep::WaitTemplate, CiFailure::NameUnset);
    }
    if !facts.marker_set {
        return StartDecision::Fail(PaneCiStep::WaitTemplate, CiFailure::MarkerUnset);
    }
    if !facts.ready_set {
        return StartDecision::Fail(PaneCiStep::WaitTemplate, CiFailure::ReadyUnset);
    }
    if !facts.visible_set {
        return StartDecision::Fail(PaneCiStep::WaitTemplate, CiFailure::VisibleUnset);
    }
    if !facts.done_set {
        return StartDecision::Fail(PaneCiStep::WaitTemplate, CiFailure::DoneUnset);
    }
    if !facts.workspace_set {
        return StartDecision::Fail(PaneCiStep::WaitTemplate, CiFailure::WorkspaceUnset);
    }
    StartDecision::Start
}

/// What the template left about where it ran.
#[derive(Clone, Copy, Debug, PartialEq, Eq, Structural)]
pub enum Completion {
    /// Nothing yet.
    Missing,
    /// It ran in the prepared directory.
    Prepared,
    /// It ran in another directory.
    Elsewhere,
}

/// The state of the run. Times are nanoseconds since it started.
#[derive(Debug)]
pub struct PaneCiDriver {
    step: PaneCiStep,
    template_name: String,
    template_marker: String,
    completed_at: Option<u64>,
    template_tab: Option<u64>,
    template_session: Option<String>,
    unique_requested_at: Option<u64>,
}

/// The state of the run as a value.
#[verifier::ext_equal]
pub ghost struct CiState {
    pub step: PaneCiStep,
    pub template_name: Seq<char>,
    pub template_marker: Seq<char>,
    pub completed_at: Option<u64>,
    pub template_tab: Option<u64>,
    pub template_session: Option<Seq<char>>,
    pub unique_requested_at: Option<u64>,
}

impl View for PaneCiDriver {
    type V = CiState;

    closed spec fn view(&self) -> CiState {
        CiState {
            step: self.step,
            template_name: self.template_name@,
            template_marker: self.template_marker@,
            completed_at: self.completed_at,
            template_tab: self.template_tab,
            template_session: optional_text(self.template_session),
            unique_requested_at: self.unique_requested_at,
        }
    }
}

/// What a tick leads to, and the step that the run then stands at.
pub open spec fn on_tick(
    state: CiState,
    elapsed: u64,
    mapped: bool,
    panes: Option<PaneSnapshot>,
) -> (PaneCiStep, CiCommand) {
    let step = state.step;
    if elapsed > RUN_LIMIT {
        (step, CiCommand::Fail(CiFailure::TimedOut))
    } else {
        match panes {
            None => (step, CiCommand::Wait),
            Some(panes) => match step {
                PaneCiStep::WaitInitial => if panes.pane_count != 1 || !mapped {
                    (step, CiCommand::Wait)
                } else {
                    (
                        step,
                        CiCommand::Activate {
                            marker: Some(CiMarker::Ready),
                            action: Action::SplitPane(SplitDirection::Horizontal),
                        },
                    )
                },
                PaneCiStep::WaitHorizontalSplit => if panes.pane_count == 1 {
                    (step, CiCommand::Wait)
                } else if panes.pane_count != 2 || !splits_horizontally(panes.tree) {
                    (step, CiCommand::Fail(CiFailure::HorizontalTopology))
                } else {
                    (
                        step,
                        CiCommand::Activate {
                            marker: Some(CiMarker::SplitHorizontal),
                            action: Action::SplitPane(SplitDirection::Vertical),
                        },
                    )
                },
                PaneCiStep::WaitVerticalSplit => if panes.pane_count == 2 {
                    (step, CiCommand::Wait)
                } else if panes.pane_count != 3 || !nests_vertically(panes.tree) {
                    (step, CiCommand::Fail(CiFailure::VerticalTopology))
                } else {
                    (PaneCiStep::Focus, CiCommand::Report(CiMarker::SplitVertical))
                },
                PaneCiStep::Focus => (
                    step,
                    CiCommand::Activate {
                        marker: None,
                        action: Action::FocusPane(PaneDirection::Up),
                    },
                ),
                PaneCiStep::Resize => (
                    step,
                    CiCommand::Activate {
                        marker: None,
                        action: Action::ResizePane(PaneDirection::Left),
                    },
                ),
                PaneCiStep::Zoom | PaneCiStep::Unzoom => (
                    step,
                    CiCommand::Activate { marker: None, action: Action::TogglePaneZoom },
                ),
                PaneCiStep::WaitClose => if panes.pane_count == 3 {
                    (step, CiCommand::Wait)
                } else if panes.pane_count != 2 {
                    (step, CiCommand::Fail(CiFailure::PaneCount))
                } else {
                    (
                        step,
                        CiCommand::Activate {
                            marker: Some(CiMarker::Close),
                            action: Action::QuickOpenTemplate,
                        },
                    )
                },
                PaneCiStep::WaitTemplate => (step, CiCommand::InspectTemplate),
                PaneCiStep::WaitUniqueReuse => (
                    step,
                    match state.unique_requested_at {
                        Some(requested) => if elapsed - requested < REUSE_WAIT {
                            CiCommand::Wait
                        } else {
                            CiCommand::InspectReuse
                        },
                        None => CiCommand::Wait,
                    },
                ),
            },
        }
    }
}

/// What a carried-out action leads to. `before` and `after` are the panes around
/// it, `shown` the tab that is shown after it.
pub open spec fn on_activated(
    state: CiState,
    action: Action,
    before: PaneSnapshot,
    after: Option<PaneSnapshot>,
    shown: Option<u64>,
) -> (PaneCiStep, CiCommand) {
    let step = state.step;
    match (step, action) {
        (PaneCiStep::WaitInitial, _) => (PaneCiStep::WaitHorizontalSplit, CiCommand::Wait),
        (PaneCiStep::WaitHorizontalSplit, _) => (PaneCiStep::WaitVerticalSplit, CiCommand::Wait),
        (PaneCiStep::Focus, _) => match after {
            None => (step, CiCommand::Fail(CiFailure::TabDisappeared)),
            Some(after) => if after.active == before.active {
                (step, CiCommand::Fail(CiFailure::FocusUnchanged))
            } else {
                (PaneCiStep::Resize, CiCommand::Report(CiMarker::Focus))
            },
        },
        (PaneCiStep::Resize, _) => match after {
            None => (step, CiCommand::Fail(CiFailure::TabDisappeared)),
            Some(after) => if after.tree == before.tree && after.active == before.active
                && after.zoomed == before.zoomed {
                (step, CiCommand::Fail(CiFailure::RatiosUnchanged))
            } else {
                (PaneCiStep::Zoom, CiCommand::Report(CiMarker::Resize))
            },
        },
        (PaneCiStep::Zoom, _) => match after {
            None => (step, CiCommand::Fail(CiFailure::TabDisappeared)),
            Some(after) => if after.zoomed != Some(after.active) {
                (step, CiCommand::Fail(CiFailure::NotZoomed))
            } else {
                (PaneCiStep::Unzoom, CiCommand::Report(CiMarker::Zoom))
            },
        },
        (PaneCiStep::Unzoom, Action::ClosePane) => (PaneCiStep::WaitClose, CiCommand::Wait),
        (PaneCiStep::Unzoom, _) => match after {
            None => (step, CiCommand::Fail(CiFailure::TabDisappeared)),
            Some(after) => if after.zoomed is Some {
                (step, CiCommand::Fail(CiFailure::NotRestored))
            } else {
                (
                    step,
                    CiCommand::Activate {
                        marker: Some(CiMarker::Unzoom),
                        action: Action::ClosePane,
                    },
                )
            },
        },
        (PaneCiStep::WaitClose, _) => (step, CiCommand::ConfirmSelection),
        (PaneCiStep::WaitTemplate, Action::PrevTab) => if shown is None || shown
            == state.template_tab {
            (step, CiCommand::Fail(CiFailure::TemplateStays))
        } else {
            (step, CiCommand::Activate { marker: None, action: Action::QuickOpenTemplate })
        },
        (PaneCiStep::WaitTemplate, _) => (step, CiCommand::ConfirmSelection),
        _ => (step, CiCommand::Wait),
    }
}

/// What the look at the template's tab leads to.
pub open spec fn on_template(state: CiState, template: Option<TemplateSnapshot>) -> CiCommand {
    match template {
        None => CiCommand::Wait,
        Some(template) => if template.tab_count == 1 {
            CiCommand::Wait
        } else if template.tab_count != 2 {
            CiCommand::Fail(CiFailure::TabCount(template.tab_count as u64))
        } else if optional_text(template.template_name) != Some(state.template_name) {
            CiCommand::Fail(CiFailure::IdentityLost)
        } else if template.session_id is None {
            CiCommand::Wait
        } else {
            CiCommand::SignalAttached
        },
    }
}

/// What the completion of the template leads to, and the state after it.
pub open spec fn on_completed(
    state: CiState,
    template: TemplateSnapshot,
    completion: Completion,
    now: u64,
) -> (CiState, CiCommand) {
    match completion {
        Completion::Missing => (state, CiCommand::Wait),
        Completion::Elsewhere => (state, CiCommand::Fail(CiFailure::WrongDirectory)),
        Completion::Prepared => {
            let completed_at = match state.completed_at {
                Some(at) => at,
                None => now,
            };
            let noted = CiState { completed_at: Some(completed_at), ..state };
            if now - completed_at < COMPLETION_WAIT {
                (noted, CiCommand::Wait)
            } else if !template.keep_open {
                (noted, CiCommand::Fail(CiFailure::NotKeptOpen))
            } else if optional_text(template.color) != Some(TEMPLATE_COLOR@) {
                (noted, CiCommand::Fail(CiFailure::ColorLost))
            } else {
                (
                    CiState {
                        template_tab: Some(template.tab_id),
                        template_session: optional_text(template.session_id),
                        ..noted
                    },
                    CiCommand::Activate {
                        marker: Some(CiMarker::Launch),
                        action: Action::PrevTab,
                    },
                )
            }
        },
    }
}

/// What the look at the tabs after the second launch leads to.
pub open spec fn on_reuse(state: CiState, template: Option<TemplateSnapshot>) -> CiCommand {
    match template {
        None => CiCommand::Fail(CiFailure::TabDisappeared),
        Some(template) => if template.tab_count != 2 {
            CiCommand::Fail(CiFailure::Duplicate(template.tab_count as u64))
        } else if Some(template.tab_id) != state.template_tab || optional_text(template.session_id)
            != state.template_session || optional_text(template.template_name) != Some(
            state.template_name,
        ) {
            CiCommand::Fail(CiFailure::NotReused)
        } else {
            CiCommand::Finish
        },
    }
}

/// What a confirmed or missing selection leads to, and the state after it.
pub open spec fn on_selection(state: CiState, visible: bool, confirmed: bool, now: u64) -> (
    CiState,
    CiCommand,
) {
    match state.step {
        PaneCiStep::WaitClose => if visible && confirmed {
            (
                CiState { step: PaneCiStep::WaitTemplate, ..state },
                CiCommand::Report(CiMarker::Ingress),
            )
        } else {
            (
                state,
                CiCommand::Fail(
                    if visible {
                        CiFailure::NoSelection
                    } else {
                        CiFailure::OverlayHidden
                    },
                ),
            )
        },
        PaneCiStep::WaitTemplate => if visible && confirmed {
            (
                CiState {
                    step: PaneCiStep::WaitUniqueReuse,
                    unique_requested_at: Some(now),
                    ..state
                },
                CiCommand::Wait,
            )
        } else {
            (state, CiCommand::Fail(CiFailure::SecondSelection))
        },
        _ => (state, CiCommand::Wait),
    }
}

impl PaneCiDriver {
    /// A run that has just started.
    pub fn new(template_name: String, template_marker: String) -> (driver: Self)
        ensures
            driver@ == (CiState {
                step: PaneCiStep::WaitInitial,
                template_name: template_name@,
                template_marker: template_marker@,
                completed_at: None,
                template_tab: None,
                template_session: None,
                unique_requested_at: None,
            }),
    {
        PaneCiDriver {
            step: PaneCiStep::WaitInitial,
            template_name,
            template_marker,
            completed_at: None,
            template_tab: None,
            template_session: None,
            unique_requested_at: None,
        }
    }

    /// The step that a failure is reported with.
    pub fn step(&self) -> (step: PaneCiStep)
        ensures
            step == self@.step,
    {
        self.step
    }

    /// A tick of the timer.
    pub fn tick(&mut self, elapsed: u64, mapped: bool, panes: Option<&PaneSnapshot>) -> (command:
        CiCommand)
        ensures
            ({
                let seen = match panes {
                    Some(panes) => Some(*panes),
                    None => None,
                };
                let (step, answer) = on_tick(old(self)@, elapsed, mapped, seen);
                &&& command == answer
                &&& final(self)@ == (CiState { step, ..old(self)@ })
            }),
    {
        if elapsed > RUN_LIMIT {
            return CiCommand::Fail(CiFailure::TimedOut);
        }
        let panes = match panes {
            Some(panes) => panes,
            None => {
                return CiCommand::Wait;
            },
        };
        match self.step {
            PaneCiStep::WaitInitial => if panes.pane_count != 1 || !mapped {
                CiCommand::Wait
            } else {
                CiCommand::Activate {
                    marker: Some(CiMarker::Ready),
                    action: Action::SplitPane(SplitDirection::Horizontal),
                }
            },
            PaneCiStep::WaitHorizontalSplit => {
                let horizontal = match &panes.tree {
                    PaneTree::Split { direction, .. } => *direction == SplitDirection::Horizontal,
                    PaneTree::Pane(_) => false,
                };
                if panes.pane_count == 1 {
                    CiCommand::Wait
                } else if panes.pane_count != 2 || !horizontal {
                    CiCommand::Fail(CiFailure::HorizontalTopology)
                } else {
                    CiCommand::Activate {
                        marker: Some(CiMarker::SplitHorizontal),
                        action: Action::SplitPane(SplitDirection::Vertical),
                    }
                }
            },
            PaneCiStep::WaitVerticalSplit => {
                let nested = match &panes.tree {
                    PaneTree::Split { direction, second, .. } => *direction
                        == SplitDirection::Horizontal && (match &**second {
                        PaneTree::Split { direction: inner, .. } => *inner
                            == SplitDirection::Vertical,
                        PaneTree::Pane(_) => false,
                    }),
                    PaneTree::Pane(_) => false,
                };
                if panes.pane_count == 2 {
                    CiCommand::Wait
                } else if panes.pane_count != 3 || !nested {
                    CiCommand::Fail(CiFailure::VerticalTopology)
                } else {
                    self.step = PaneCiStep::Focus;
                    CiCommand::Report(CiMarker::SplitVertical)
                }
            },
            PaneCiStep::Focus => CiCommand::Activate {
                marker: None,
                action: Action::FocusPane(PaneDirection::Up),
            },
            PaneCiStep::Resize => CiCommand::Activate {
                marker: None,
                action: Action::ResizePane(PaneDirection::Left),
            },
            PaneCiStep::Zoom | PaneCiStep::Unzoom => CiCommand::Activate {
                marker: None,
                action: Action::TogglePaneZoom,
            },
            PaneCiStep::WaitClose => if panes.pane_count == 3 {
                CiCommand::Wait
            } else if panes.pane_count != 2 {
                CiCommand::Fail(CiFailure::PaneCount)
            } else {
                CiCommand::Activate {
                    marker: Some(CiMarker::Close),
                    action: Action::QuickOpenTemplate,
                }
            },
            PaneCiStep::WaitTemplate => CiCommand::InspectTemplate,
            PaneCiStep::WaitUniqueReuse => match self.unique_requested_at {
                Some(requested) => if elapsed < requested || elapsed - requested < REUSE_WAIT {
                    CiCommand::Wait
                } else {
                    CiCommand::InspectReuse
                },
                None => CiCommand::Wait,
            },
        }
    }

    /// An action that the driver asked for was carried out.
    pub fn activated(
        &mut self,
        action: Action,
        before: &PaneSnapshot,
        after: Option<&PaneSnapshot>,
        shown: Option<u64>,
    ) -> (command: CiCommand)
        ensures
            ({
                let seen = match after {
                    Some(after) => Some(*after),
                    None => None,
                };
                let (step, answer) = on_activated(old(self)@, action, *before, seen, shown);
                &&& command == answer
                &&& final(self)@ == (CiState { step, ..old(self)@ })
            }),
    {
        match self.step {
            PaneCiStep::WaitInitial => {
                self.step = PaneCiStep::WaitHorizontalSplit;
                CiCommand::Wait
            },
            PaneCiStep::WaitHorizontalSplit => {
                self.step = PaneCiStep::WaitVerticalSplit;
                CiCommand::Wait
            },
            PaneCiStep::Focus => match after {
                None => CiCommand::Fail(CiFailure::TabDisappeared),
                Some(after) => if after.active == before.active {
                    CiCommand::Fail(CiFailure::FocusUnchanged)
                } else {
                    self.step = PaneCiStep::Resize;
                    CiCommand::Report(CiMarker::Focus)
                },
            },
            PaneCiStep::Resize => match after {
                None => CiCommand::Fail(CiFailure::TabDisappeared),
                Some(after) => if same_tree(&after.tree, &before.tree) && after.active
                    == before.active && after.zoomed == before.zoomed {
                    CiCommand::Fail(CiFailure::RatiosUnchanged)
                } else {
                    self.step = PaneCiStep::Zoom;
                    CiCommand::Report(CiMarker::Resize)
                },
            },
            PaneCiStep::Zoom => match after {
                None => CiCommand::Fail(CiFailure::TabDisappeared),
                Some(after) => if after.zoomed != Some(after.active) {
                    CiCommand::Fail(CiFailure::NotZoomed)
                } else {
                    self.step = PaneCiStep::Unzoom;
                    CiCommand::Report(CiMarker::Zoom)
                },
            },
            PaneCiStep::Unzoom => if matches!(action, Action::ClosePane) {
                self.step = PaneCiStep::WaitClose;
                CiCommand::Wait
            } else {
                match after {
                    None => CiCommand::Fail(CiFailure::TabDisappeared),
                    Some(after) => if after.zoomed.is_some() {
                        CiCommand::Fail(CiFailure::NotRestored)
                    } else {
                        CiCommand::Activate {
                            marker: Some(CiMarker::Unzoom),
                            action: Action::ClosePane,
                        }
                    },
                }
            },
            PaneCiStep::WaitClose => CiCommand::ConfirmSelection,
            PaneCiStep::WaitTemplate => if matches!(action, Action::PrevTab) {
                if shown.is_none() || shown == self.template_tab {
                    CiCommand::Fail(CiFailure::TemplateStays)
                } else {
                    CiCommand::Activate { marker: None, action: Action::QuickOpenTemplate }
                }
            } else {
                CiCommand::ConfirmSelection
            },
            PaneCiStep::WaitVerticalSplit | PaneCiStep::WaitUniqueReuse => CiCommand::Wait,
        }
    }

    /// The quick-open overlay was or was not visible, and did or did not have a
    /// selection to confirm.
    pub fn selection_confirmed(&mut self, visible: bool, confirmed: bool, now: u64) -> (command:
        CiCommand)
        ensures
            (final(self)@, command) == on_selection(old(self)@, visible, confirmed, now),
    {
        match self.step {
            PaneCiStep::WaitClose => if !visible {
                CiCommand::Fail(CiFailure::OverlayHidden)
            } else if !confirmed {
                CiCommand::Fail(CiFailure::NoSelection)
            } else {
                self.step = PaneCiStep::WaitTemplate;
                CiCommand::Report(CiMarker::Ingress)
            },
            PaneCiStep::WaitTemplate => if !visible || !confirmed {
                CiCommand::Fail(CiFailure::SecondSelection)
            } else {
                self.unique_requested_at = Some(now);
                self.step = PaneCiStep::WaitUniqueReuse;
                CiCommand::Wait
            },
            _ => CiCommand::Wait,
        }
    }

    /// The tab that is shown while the template is awaited.
    pub fn template_seen(&self, template: Option<&TemplateSnapshot>) -> (command: CiCommand)
        ensures
            command == on_template(
                self@,
                match template {
                    Some(template) => Some(*template),
                    None => None,
                },
            ),
    {
        match template {
            None => CiCommand::Wait,
            Some(template) => if template.tab_count == 1 {
                CiCommand::Wait
            } else if template.tab_count != 2 {
                CiCommand::Fail(CiFailure::TabCount(template.tab_count as u64))
            } else if !is_optional_text(&template.template_name, self.template_name.as_str()) {
                CiCommand::Fail(CiFailure::IdentityLost)
            } else if template.session_id.is_none() {
                CiCommand::Wait
            } else {
                CiCommand::SignalAttached
            },
        }
    }

    /// The template's session is attached: its output is awaited.
    pub fn template_attached(&self, template: &TemplateSnapshot) -> (command: CiCommand)
        ensures
            command == (if occurs(template.screen_text@, self@.template_marker) {
                CiCommand::SignalVisible
            } else {
                CiCommand::Wait
            }),
    {
        if contains_text(template.screen_text.as_str(), self.template_marker.as_str()) {
            CiCommand::SignalVisible
        } else {
            CiCommand::Wait
        }
    }

    /// The template's output is visible: its completion is awaited and judged.
    pub fn template_completed(
        &mut self,
        template: &TemplateSnapshot,
        completion: Completion,
        now: u64,
    ) -> (command: CiCommand)
        ensures
            ({
                let (state, answer) = on_completed(old(self)@, *template, completion, now);
                &&& command == answer
                &&& final(self)@ == state
            }),
    {
        match completion {
            Completion::Missing => CiCommand::Wait,
            Completion::Elsewhere => CiCommand::Fail(CiFailure::WrongDirectory),
            Completion::Prepared => {
                let completed_at: u64 = match self.completed_at {
                    Some(at) => at,
                    None => now,
                };
                self.completed_at = Some(completed_at);
                if now < completed_at || now - completed_at < COMPLETION_WAIT {
                    CiCommand::Wait
                } else if !template.keep_open {
                    CiCommand::Fail(CiFailure::NotKeptOpen)
                } else if !is_optional_text(&template.color, TEMPLATE_COLOR) {
                    CiCommand::Fail(CiFailure::ColorLost)
                } else {
                    self.template_tab = Some(template.tab_id);
                    self.template_session = copy_optional(&template.session_id);
                    CiCommand::Activate {
                        marker: Some(CiMarker::Launch),
                        action: Action::PrevTab,
                    }
                }
            },
        }
    }

    /// The tab that is shown some time after the second launch.
    pub fn reuse_seen(&self, template: Option<&TemplateSnapshot>) -> (command: CiCommand)
        ensures
            command == on_reuse(
                self@,
                match template {
                    Some(template) => Some(*template),
                    None => None,
                },
            ),
    {
        match template {
            None => CiCommand::Fail(CiFailure::TabDisappeared),
            Some(template) => if template.tab_count != 2 {
                CiCommand::Fail(CiFailure::Duplicate(template.tab_count as u64))
            } else if Some(template.tab_id) != self.template_tab || !same_optional_text(
                &template.session_id,
                &self.template_session,
            ) || !is_optional_text(&template.template_name, self.template_name.as_str()) {
                CiCommand::Fail(CiFailure::NotReused)
            } else {
                CiCommand::Finish
            },
        }
    }
}

/// The run takes its steps one at a time and never goes back.
pub proof fn law_steps_are_taken_in_order(
    state: CiState,
    elapsed: u64,
    mapped: bool,
    action: Action,
    before: PaneSnapshot,
    after: Option<PaneSnapshot>,
    shown: Option<u64>,
)
    ensures
        step_number(state.step) <= step_number(on_tick(state, elapsed, mapped, after).0)
            <= step_number(state.step) + 1,
        step_number(state.step) <= step_number(on_activated(state, action, before, after, shown).0)
            <= step_number(state.step) + 1,
{
}

/// The run finishes only when the second launch showed the tab and the session
/// of the first.
pub proof fn law_finished_run_reused_the_session(state: CiState, template: Option<TemplateSnapshot>)
    requires
        on_reuse(state, template) == CiCommand::Finish,
    ensures
        template matches Some(seen) && {
            &&& seen.tab_count == 2
            &&& state.template_tab == Some(seen.tab_id)
            &&& optional_text(seen.session_id) == state.template_session
        },
{
}

/// Every step, every line and every reason of the run is reported in its own words.
pub proof fn law_run_reports_in_its_own_words(count: u64)
    ensures
        PaneCiStep::WaitInitial.label() == "WaitInitial"@,
        PaneCiStep::WaitHorizontalSplit.label() == "WaitHorizontalSplit"@,
        PaneCiStep::WaitVerticalSplit.label() == "WaitVerticalSplit"@,
        PaneCiStep::Focus.label() == "Focus"@,
        PaneCiStep::Resize.label() == "Resize"@,
        PaneCiStep::Zoom.label() == "Zoom"@,
        PaneCiStep::Unzoom.label() == "Unzoom"@,
        PaneCiStep::WaitClose.label() == "WaitClose"@,
        PaneCiStep::WaitTemplate.label() == "WaitTemplate"@,
        PaneCiStep::WaitUniqueReuse.label() == "WaitUniqueReuse"@,
        CiMarker::Start.line() == "CTERM_PANE_CI START backend=wayland"@,
        CiMarker::Ready.line() == "CTERM_PANE_CI READY panes=1"@,
        CiMarker::SplitHorizontal.line() == "CTERM_PANE_CI SPLIT_HORIZONTAL_OK panes=2"@,
        CiMarker::SplitVertical.line() == "CTERM_PANE_CI SPLIT_VERTICAL_OK panes=3"@,
        CiMarker::Focus.line() == "CTERM_PANE_CI FOCUS_OK direction=up"@,
        CiMarker::Resize.line() == "CTERM_PANE_CI RESIZE_OK direction=left"@,
        CiMarker::Zoom.line() == "CTERM_PANE_CI ZOOM_OK"@,
        CiMarker::Unzoom.line() == "CTERM_PANE_CI UNZOOM_OK"@,
        CiMarker::Close.line() == "CTERM_PANE_CI CLOSE_OK panes=2"@,
        CiMarker::Ingress.line() == "CTERM_TEMPLATE_CI INGRESS_OK source=quick-open"@,
        CiMarker::Launch.line() == "CTERM_TEMPLATE_CI LAUNCH_OK argv=visible cwd=prepared keep_open=true color=#2a7fff"@,
        CiMarker::Unique.line() == "CTERM_TEMPLATE_CI UNIQUE_OK tabs=2 session=reused"@,
        CiMarker::Complete.line() == "CTERM_PANE_CI COMPLETE"@,
        CiFailure::NoDisplay.reason_text() == Some("no GDK display"@),
        CiFailure::NotWayland.reason_text() == Some("GDK backend is not Wayland"@),
        CiFailure::DisplaySet.reason_text() == Some("DISPLAY is set"@),
        CiFailure::NoApplication.reason_text() == Some("window has no GTK application"@),
        CiFailure::NameUnset.reason_text() == Some("template name is unset"@),
        CiFailure::MarkerUnset.reason_text() == Some("template marker is unset"@),
        CiFailure::ReadyUnset.reason_text() == Some("template ready path is unset"@),
        CiFailure::VisibleUnset.reason_text() == Some("template visible path is unset"@),
        CiFailure::DoneUnset.reason_text() == Some("template completion path is unset"@),
        CiFailure::WorkspaceUnset.reason_text() == Some("template workspace is unset"@),
        CiFailure::TimedOut.reason_text() == Some("timed out after 40 seconds"@),
        CiFailure::HorizontalTopology.reason_text() == Some("horizontal split topology mismatch"@),
        CiFailure::VerticalTopology.reason_text() == Some("vertical split topology mismatch"@),
        CiFailure::TabDisappeared.reason_text() == Some("active tab disappeared"@),
        CiFailure::FocusUnchanged.reason_text() == Some("focus action did not change the active pane"@),
        CiFailure::RatiosUnchanged.reason_text() == Some("resize action did not change pane ratios"@),
        CiFailure::NotZoomed.reason_text() == Some("zoom action did not zoom the active pane"@),
        CiFailure::NotRestored.reason_text() == Some("second zoom action did not restore the tree"@),
        CiFailure::PaneCount.reason_text() == Some("close action produced an unexpected pane count"@),
        CiFailure::OverlayHidden.reason_text() == Some("Quick Open overlay did not become visible"@),
        CiFailure::NoSelection.reason_text() == Some("Quick Open had no template selection"@),
        CiFailure::IdentityLost.reason_text() == Some("new tab lost its template identity"@),
        CiFailure::NotKeptOpen.reason_text() == Some("exited template tab was not marked keep_open"@),
        CiFailure::ColorLost.reason_text() == Some("template tab color was not applied"@),
        CiFailure::TemplateStays.reason_text() == Some("could not leave the unique template tab"@),
        CiFailure::SecondSelection.reason_text() == Some("second Quick Open selection failed"@),
        CiFailure::NotReused.reason_text() == Some("unique template did not focus the existing tab/session"@),
        CiFailure::TabCount(count).reason_text() == Some(
            "template launch produced "@ + decimal(count as nat) + " tabs instead of 2"@,
        ),
        CiFailure::Duplicate(count).reason_text() == Some(
            "unique template created a duplicate; tab count is "@ + decimal(count as nat),
        ),
        CiFailure::WrongDirectory.reason_text() is None,
{
}

/// The steps of a run follow each other: the splits, the focus, the divider, the zoom and
/// its end, the closing of a pane, the template and its second launch.
pub proof fn law_steps_have_their_places(step: PaneCiStep)
    ensures
        0 <= step_number(step) <= 9,
        step_number(PaneCiStep::WaitInitial) < step_number(PaneCiStep::WaitHorizontalSplit)
            < step_number(PaneCiStep::WaitVerticalSplit) < step_number(PaneCiStep::Focus)
            < step_number(PaneCiStep::Resize) < step_number(PaneCiStep::Zoom) < step_number(
            PaneCiStep::Unzoom,
        ) < step_number(PaneCiStep::WaitClose) < step_number(PaneCiStep::WaitTemplate)
            < step_number(PaneCiStep::WaitUniqueReuse),
{
}

/// A tick after forty seconds ends the run. Until then, with panes to look at, each step
/// asks for its own action when its condition is met: the splits side by side and one
/// above the other, the focus up, the divider left, the zoom twice, and the quick-open
/// overlay once a pane was closed.
pub proof fn law_ticks_ask_for_the_action_of_their_step(
    state: CiState,
    elapsed: u64,
    mapped: bool,
    panes: PaneSnapshot,
    seen: Option<PaneSnapshot>,
)
    ensures
        elapsed > 40_000_000_000 ==> on_tick(state, elapsed, mapped, seen) == (
            state.step,
            CiCommand::Fail(CiFailure::TimedOut),
        ),
        elapsed <= 40_000_000_000 ==> on_tick(state, elapsed, mapped, None) == (
            state.step,
            CiCommand::Wait,
        ),
        elapsed <= 40_000_000_000 ==> {
            let (step, command) = on_tick(state, elapsed, mapped, Some(panes));
            let split_horizontal = CiCommand::Activate {
                marker: Some(CiMarker::Ready),
                action: Action::SplitPane(SplitDirection::Horizontal),
            };
            let split_vertical = CiCommand::Activate {
                marker: Some(CiMarker::SplitHorizontal),
                action: Action::SplitPane(SplitDirection::Vertical),
            };
            let focus = CiCommand::Activate {
                marker: None,
                action: Action::FocusPane(PaneDirection::Up),
            };
            let resize = CiCommand::Activate {
                marker: None,
                action: Action::ResizePane(PaneDirection::Left),
            };
            let zoom = CiCommand::Activate { marker: None, action: Action::TogglePaneZoom };
            let open = CiCommand::Activate {
                marker: Some(CiMarker::Close),
                action: Action::QuickOpenTemplate,
            };
            &&& command == split_horizontal <==> state.step == PaneCiStep::WaitInitial && mapped
                && panes.pane_count == 1
            &&& command == split_vertical <==> state.step == PaneCiStep::WaitHorizontalSplit
                && panes.pane_count == 2 && splits_horizontally(panes.tree)
            &&& command == CiCommand::Report(CiMarker::SplitVertical) <==> state.step
                == PaneCiStep::WaitVerticalSplit && panes.pane_count == 3 && nests_vertically(
                panes.tree,
            )
            &&& command == focus <==> state.step == PaneCiStep::Focus
            &&& command == resize <==> state.step == PaneCiStep::Resize
            &&& command == zoom <==> state.step == PaneCiStep::Zoom || state.step
                == PaneCiStep::Unzoom
            &&& command == open <==> state.step == PaneCiStep::WaitClose && panes.pane_count == 2
            &&& command == CiCommand::InspectTemplate <==> state.step == PaneCiStep::WaitTemplate
            &&& command == CiCommand::InspectReuse <==> state.step == PaneCiStep::WaitUniqueReuse
                && (state.unique_requested_at matches Some(requested) && elapsed - requested
                >= 1_000_000_000)
            &&& command == CiCommand::Fail(CiFailure::HorizontalTopology) <==> state.step
                == PaneCiStep::WaitHorizontalSplit && panes.pane_count != 1 && !(panes.pane_count
                == 2 && splits_horizontally(panes.tree))
            &&& command == CiCommand::Fail(CiFailure::VerticalTopology) <==> state.step
                == PaneCiStep::WaitVerticalSplit && panes.pane_count != 2 && !(panes.pane_count == 3
                && nests_vertically(panes.tree))
            &&& command == CiCommand::Fail(CiFailure::PaneCount) <==> state.step
                == PaneCiStep::WaitClose && panes.pane_count != 3 && panes.pane_count != 2
            &&& step != state.step <==> command == CiCommand::Report(CiMarker::SplitVertical)
        },
{
}

/// An action counts only if it did something: the focus moved, the ratios changed, the
/// active pane is zoomed, and is not any more; and the step after it follows.
pub proof fn law_actions_count_if_they_did_something(
    state: CiState,
    action: Action,
    before: PaneSnapshot,
    after: PaneSnapshot,
    shown: Option<u64>,
)
    ensures
        ({
            let (step, command) = on_activated(state, action, before, Some(after), shown);
            let close = CiCommand::Activate {
                marker: Some(CiMarker::Unzoom),
                action: Action::ClosePane,
            };
            &&& command == CiCommand::Report(CiMarker::Focus) <==> state.step == PaneCiStep::Focus
                && after.active != before.active
            &&& command == CiCommand::Fail(CiFailure::FocusUnchanged) <==> state.step
                == PaneCiStep::Focus && after.active == before.active
            &&& command == CiCommand::Report(CiMarker::Resize) <==> state.step == PaneCiStep::Resize
                && !(after.tree == before.tree && after.active == before.active && after.zoomed
                == before.zoomed)
            &&& command == CiCommand::Report(CiMarker::Zoom) <==> state.step == PaneCiStep::Zoom
                && after.zoomed == Some(after.active)
            &&& command == CiCommand::Fail(CiFailure::NotZoomed) <==> state.step == PaneCiStep::Zoom
                && after.zoomed != Some(after.active)
            &&& command == close <==> state.step == PaneCiStep::Unzoom && action
                != Action::ClosePane && after.zoomed is None
            &&& command == CiCommand::Fail(CiFailure::NotRestored) <==> state.step
                == PaneCiStep::Unzoom && action != Action::ClosePane && after.zoomed is Some
            &&& command == CiCommand::ConfirmSelection <==> state.step == PaneCiStep::WaitClose
                || state.step == PaneCiStep::WaitTemplate && action != Action::PrevTab
            &&& command == CiCommand::Fail(CiFailure::TemplateStays) <==> state.step
                == PaneCiStep::WaitTemplate && action == Action::PrevTab && (shown is None || shown
                == state.template_tab)
            &&& command is Report ==> step_number(step) == step_number(state.step) + 1
            &&& command is Fail ==> step == state.step
        }),
        on_activated(state, action, before, None, shown).1 == CiCommand::Fail(
            CiFailure::TabDisappeared,
        ) <==> state.step == PaneCiStep::Focus || state.step == PaneCiStep::Resize || state.step
            == PaneCiStep::Zoom || state.step == PaneCiStep::Unzoom && action != Action::ClosePane,
{
}

/// The template's tab is the second one and carries the template's name, and is attached
/// to once it has a session.
pub proof fn law_template_is_attached_once_it_is_there(state: CiState, template: TemplateSnapshot)
    ensures
        on_template(state, None) == CiCommand::Wait,
        on_template(state, Some(template)) == CiCommand::SignalAttached <==> template.tab_count == 2
            && optional_text(template.template_name) == Some(state.template_name)
            && template.session_id is Some,
        on_template(state, Some(template)) == CiCommand::Fail(CiFailure::IdentityLost)
            <==> template.tab_count == 2 && optional_text(template.template_name) != Some(
            state.template_name,
        ),
        on_template(state, Some(template)) is Fail && template.tab_count != 2
            ==> template.tab_count != 1 && on_template(state, Some(template)) == CiCommand::Fail(
            CiFailure::TabCount(template.tab_count as u64),
        ),
{
}

/// A template that ran where it was to run is judged three quarters of a second after it
/// was first seen complete: its tab must stay open and have its colour. Then its tab and
/// its session are noted, and only then.
pub proof fn law_completed_template_is_judged_later(
    state: CiState,
    template: TemplateSnapshot,
    completion: Completion,
    now: u64,
)
    ensures
        ({
            let (after, command) = on_completed(state, template, completion, now);
            let first = match state.completed_at {
                Some(at) => at,
                None => now,
            };
            let launched = CiCommand::Activate {
                marker: Some(CiMarker::Launch),
                action: Action::PrevTab,
            };
            &&& command == launched <==> completion == Completion::Prepared && now - first
                >= 750_000_000 && template.keep_open && optional_text(template.color) == Some(
                "#2a7fff"@,
            )
            &&& command == launched ==> after.template_tab == Some(template.tab_id)
                && after.template_session == optional_text(template.session_id)
            &&& command != launched ==> after.template_tab == state.template_tab
                && after.template_session == state.template_session
            &&& command == CiCommand::Fail(CiFailure::WrongDirectory) <==> completion
                == Completion::Elsewhere
            &&& command == CiCommand::Fail(CiFailure::NotKeptOpen) <==> completion
                == Completion::Prepared && now - first >= 750_000_000 && !template.keep_open
            &&& completion == Completion::Prepared ==> after.completed_at == Some(first)
            &&& completion != Completion::Prepared ==> after == state
            &&& after.step == state.step
        }),
{
}

/// The second launch must leave two tabs and show the first launch's tab, session and
/// template; anything else fails the run.
pub proof fn law_second_launch_shows_the_first(state: CiState, template: TemplateSnapshot)
    ensures
        on_reuse(state, None) == CiCommand::Fail(CiFailure::TabDisappeared),
        on_reuse(state, Some(template)) == CiCommand::Finish <==> template.tab_count == 2 && Some(
            template.tab_id,
        ) == state.template_tab && optional_text(template.session_id) == state.template_session
            && optional_text(template.template_name) == Some(state.template_name),
        template.tab_count != 2 ==> on_reuse(state, Some(template)) == CiCommand::Fail(
            CiFailure::Duplicate(template.tab_count as u64),
        ),
        template.tab_count == 2 && on_reuse(state, Some(template)) != CiCommand::Finish ==> on_reuse(
            state,
            Some(template),
        ) == CiCommand::Fail(CiFailure::NotReused),
{
}

/// A selection counts if the overlay was visible and had one. The first leads to the
/// template, the second to the look at its reuse, whose time is noted.
pub proof fn law_selections_lead_to_the_template(
    state: CiState,
    visible: bool,
    confirmed: bool,
    now: u64,
)
    ensures
        ({
            let (after, command) = on_selection(state, visible, confirmed, now);
            &&& command == CiCommand::Report(CiMarker::Ingress) <==> state.step
                == PaneCiStep::WaitClose && visible && confirmed
            &&& command == CiCommand::Report(CiMarker::Ingress) ==> after.step
                == PaneCiStep::WaitTemplate
            &&& command == CiCommand::Fail(CiFailure::OverlayHidden) <==> state.step
                == PaneCiStep::WaitClose && !visible
            &&& command == CiCommand::Fail(CiFailure::NoSelection) <==> state.step
                == PaneCiStep::WaitClose && visible && !confirmed
            &&& command == CiCommand::Fail(CiFailure::SecondSelection) <==> state.step
                == PaneCiStep::WaitTemplate && !(visible && confirmed)
            &&& state.step == PaneCiStep::WaitTemplate && visible && confirmed ==> after.step
                == PaneCiStep::WaitUniqueReuse && after.unique_requested_at == Some(now)
            &&& command is Fail ==> after == state
        }),
{
}

/// A text that stands anywhere in another occurs in it, and an occurrence is one.
pub proof fn law_parts_occur_where_they_stand(front: Seq<char>, part: Seq<char>, back: Seq<char>)
    ensures
        occurs(front + part + back, part),
        occurs(part, part),
        part.len() > front.len() ==> !occurs(front, part),
        occurs(front, part) ==> exists|before: Seq<char>, after: Seq<char>|
            front == #[trigger] (before + part + after),
{
    let whole = front + part + back;
    assert(whole.subrange(front.len() as int, (front.len() + part.len()) as int) =~= part);
    assert(occurs_at(whole, part, front.len() as int));
    assert(part.subrange(0, part.len() as int) =~= part);
    assert(occurs_at(part, part, 0));
    if occurs(front, part) {
        let at = choose|at: int| occurs_at(front, part, at);
        let before = front.take(at);
        let after = front.skip((at + part.len()) as int);
        assert(front =~= before + part + after);
    }
}

/// The checks of the splits look at the root, and at its second side: side by side, and
/// one above the other within.
pub proof fn law_splits_are_told_by_their_direction(
    outer: SplitDirection,
    inner: SplitDirection,
    ratio: u16,
    first: Box<PaneTree>,
    upper: Box<PaneTree>,
    lower: Box<PaneTree>,
    pane: u64,
)
    ensures
        ({
            let nested = PaneTree::Split {
                direction: inner,
                first_ratio: ratio,
                first: upper,
                second: lower,
            };
            let tree = PaneTree::Split {
                direction: outer,
                first_ratio: ratio,
                first,
                second: Box::new(nested),
            };
            &&& splits_horizontally(tree) <==> outer == SplitDirection::Horizontal
            &&& nests_vertically(tree) <==> outer == SplitDirection::Horizontal && inner
                == SplitDirection::Vertical
            &&& !splits_horizontally(PaneTree::Pane(pane))
            &&& !nests_vertically(PaneTree::Pane(pane))
        }),
{
}

} // verus!
