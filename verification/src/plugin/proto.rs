//! The messages that cross the boundary between the terminal and a plugin.
//!
//! Their numbering is the stable ABI: it does not depend on the terminal's own
//! enums.

use vstd::prelude::*;

verus! {

/// What the terminal asks of a plugin.
#[derive(Debug, PartialEq, Eq)]
pub struct PluginRequest {
    pub abi_major: u32,
    pub abi_minor: u32,
    pub command_id: String,
}

/// What a plugin answers.
#[derive(Debug, PartialEq, Eq)]
pub struct PluginResponse {
    pub abi_major: u32,
    pub abi_minor: u32,
    pub actions: Vec<ActionInvocation>,
    pub diagnostics: Vec<String>,
}

/// One native action that a plugin wants invoked.
#[derive(Debug, PartialEq, Eq)]
pub struct ActionInvocation {
    pub id: String,
    pub parameter: Option<Parameter>,
}

/// The parameter of an action. Directions are carried by number, so that unknown
/// ones survive decoding and are refused by name.
#[derive(Debug, Clone, Copy, PartialEq, Eq, Structural)]
pub enum Parameter {
    Tab(u32),
    SplitDirection(i32),
    PaneDirection(i32),
}

#[derive(Debug, Clone, Copy, PartialEq, Eq, Structural)]
pub enum SplitDirection {
    Unspecified,
    Horizontal,
    Vertical,
}

#[derive(Debug, Clone, Copy, PartialEq, Eq, Structural)]
pub enum PaneDirection {
    Unspecified,
    Left,
    Right,
    Up,
    Down,
}

impl SplitDirection {
    pub open spec fn spec_number(self) -> i32 {
        match self {
            SplitDirection::Unspecified => 0,
            SplitDirection::Horizontal => 1,
            SplitDirection::Vertical => 2,
        }
    }

    /// The number that stands for the direction.
    pub fn number(self) -> (number: i32)
        ensures
            number == self.spec_number(),
    {
        match self {
            SplitDirection::Unspecified => 0,
            SplitDirection::Horizontal => 1,
            SplitDirection::Vertical => 2,
        }
    }

    /// The direction with this number, if there is one.
    pub fn from_number(number: i32) -> (direction: Option<SplitDirection>)
        ensures
            match direction {
                Some(direction) => direction.spec_number() == number,
                None => forall|direction: SplitDirection| #[trigger]
                    direction.spec_number() != number,
            },
    {
        if number == 0 {
            Some(SplitDirection::Unspecified)
        } else if number == 1 {
            Some(SplitDirection::Horizontal)
        } else if number == 2 {
            Some(SplitDirection::Vertical)
        } else {
            None
        }
    }
}

impl PaneDirection {
    pub open spec fn spec_number(self) -> i32 {
        match self {
            PaneDirection::Unspecified => 0,
            PaneDirection::Left => 1,
            PaneDirection::Right => 2,
            PaneDirection::Up => 3,
            PaneDirection::Down => 4,
        }
    }

    /// The number that stands for the direction.
    pub fn number(self) -> (number: i32)
        ensures
            number == self.spec_number(),
    {
        match self {
            PaneDirection::Unspecified => 0,
            PaneDirection::Left => 1,
            PaneDirection::Right => 2,
            PaneDirection::Up => 3,
            PaneDirection::Down => 4,
        }
    }

    /// The direction with this number, if there is one.
    pub fn from_number(number: i32) -> (direction: Option<PaneDirection>)
        ensures
            match direction {
                Some(direction) => direction.spec_number() == number,
                None => forall|direction: PaneDirection| #[trigger]
                    direction.spec_number() != number,
            },
    {
        if number == 0 {
            Some(PaneDirection::Unspecified)
        } else if number == 1 {
            Some(PaneDirection::Left)
        } else if number == 2 {
            Some(PaneDirection::Right)
        } else if number == 3 {
            Some(PaneDirection::Up)
        } else if number == 4 {
            Some(PaneDirection::Down)
        } else {
            None
        }
    }
}

/// The model of a request.
pub ghost struct RequestView {
    pub abi_major: u32,
    pub abi_minor: u32,
    pub command_id: Seq<char>,
}

/// The model of an action.
pub ghost struct ActionView {
    pub id: Seq<char>,
    pub parameter: Option<Parameter>,
}

/// The model of a response.
pub ghost struct ResponseView {
    pub abi_major: u32,
    pub abi_minor: u32,
    pub actions: Seq<ActionView>,
    pub diagnostics: Seq<Seq<char>>,
}

impl View for PluginRequest {
    type V = RequestView;

    open spec fn view(&self) -> RequestView {
        RequestView {
            abi_major: self.abi_major,
            abi_minor: self.abi_minor,
            command_id: self.command_id@,
        }
    }
}

impl View for ActionInvocation {
    type V = ActionView;

    open spec fn view(&self) -> ActionView {
        ActionView { id: self.id@, parameter: self.parameter }
    }
}

pub open spec fn action_views(actions: Seq<ActionInvocation>) -> Seq<ActionView> {
    actions.map_values(|action: ActionInvocation| action@)
}

pub open spec fn string_views(strings: Seq<String>) -> Seq<Seq<char>> {
    strings.map_values(|string: String| string@)
}

impl View for PluginResponse {
    type V = ResponseView;

    open spec fn view(&self) -> ResponseView {
        ResponseView {
            abi_major: self.abi_major,
            abi_minor: self.abi_minor,
            actions: action_views(self.actions@),
            diagnostics: string_views(self.diagnostics@),
        }
    }
}

/// Directions have the numbers of the protocol, which start at one; zero says that none
/// was given.
pub proof fn law_directions_have_their_numbers(split: SplitDirection, pane: PaneDirection)
    ensures
        split.spec_number() == 0 <==> split == SplitDirection::Unspecified,
        split.spec_number() == 1 <==> split == SplitDirection::Horizontal,
        split.spec_number() == 2 <==> split == SplitDirection::Vertical,
        pane.spec_number() == 0 <==> pane == PaneDirection::Unspecified,
        pane.spec_number() == 1 <==> pane == PaneDirection::Left,
        pane.spec_number() == 2 <==> pane == PaneDirection::Right,
        pane.spec_number() == 3 <==> pane == PaneDirection::Up,
        pane.spec_number() == 4 <==> pane == PaneDirection::Down,
{
}

} // verus!
