//! Frames between the terminal and a plugin: size limits, validation, and the
//! length prefix.

use vstd::prelude::*;
use vstd::utf8::*;

use crate::plugin::codec::{
    action_payload, actions_payload, decode_request, decode_response, diagnostics_payload,
    encode_request, encode_response, law_request_payload_round_trip, law_response_payload_round_trip,
    payload_field, read_request, read_response, request_payload, response_fits, response_payload,
};
use crate::plugin::field::{
    delimited, law_payload_round_trip, lemma_varint_is_short, payload_prefix, put_varint,
    signed_number, take_payload,
};
use crate::plugin::ident::{
    is_action_scope, is_command_id, is_segment, ActionScope, CommandId, COMMAND_ID_LIMIT,
};
use crate::plugin::manifest::{ABI_MAJOR, ABI_MINOR};
use crate::plugin::proto::{
    ActionInvocation, ActionView, PaneDirection, Parameter, PluginRequest, PluginResponse,
    RequestView, ResponseView, SplitDirection,
};
use crate::text::{chars_of, is_control, is_control_char};

verus! {

/// Maximum complete length-delimited frame accepted from a guest.
pub const MAX_FRAME_BYTES: usize = 1048576;

pub const MAX_ACTIONS: usize = 32;

pub const MAX_DIAGNOSTICS: usize = 32;

pub const MAX_DIAGNOSTIC_BYTES: usize = 4096;

/// Which part of a frame could not be decoded.
#[derive(Debug, Clone, Copy, PartialEq, Eq, Structural)]
pub enum FramePart {
    /// The length prefix, or a payload shorter than it says.
    Length,
    /// The fields of the payload.
    Fields,
}

#[derive(Debug, PartialEq, Eq)]
#[allow(inconsistent_fields)]
pub enum WireError {
    UnsupportedAbi {
        found_major: u32,
        found_minor: u32,
        supported_major: u32,
        supported_minor: u32,
    },
    InvalidCommandId(String),
    InvalidActionId(String),
    TooManyActions { found: usize, limit: usize },
    TooManyDiagnostics { found: usize, limit: usize },
    DiagnosticTooLarge { found: usize, limit: usize },
    /// A diagnostic holds a control character other than a line break or a tab.
    InvalidDiagnostic,
    /// The tab parameter is outside the supported byte range.
    TabOutOfRange(u32),
    UnspecifiedEnum(&'static str),
    InvalidEnum(&'static str, i32),
    FrameTooLarge { found: usize, limit: usize },
    TrailingBytes(usize),
    Decode(FramePart),
}

pub open spec fn abi_supported(major: u32, minor: u32) -> bool {
    major == ABI_MAJOR && minor == ABI_MINOR
}

/// The error that names an ABI which is not supported.
pub open spec fn abi_refused(major: u32, minor: u32, error: WireError) -> bool {
    &&& !abi_supported(major, minor)
    &&& error == WireError::UnsupportedAbi {
        found_major: major,
        found_minor: minor,
        supported_major: ABI_MAJOR,
        supported_minor: ABI_MINOR,
    }
}

pub fn validate_abi(major: u32, minor: u32) -> (result: Result<(), WireError>)
    ensures
        match result {
            Ok(()) => abi_supported(major, minor),
            Err(error) => abi_refused(major, minor, error),
        },
{
    if major == ABI_MAJOR && minor == ABI_MINOR {
        Ok(())
    } else {
        Err(
            WireError::UnsupportedAbi {
                found_major: major,
                found_minor: minor,
                supported_major: ABI_MAJOR,
                supported_minor: ABI_MINOR,
            },
        )
    }
}

/// A request is valid if its ABI is supported and its command could exist.
pub open spec fn request_valid(request: RequestView) -> bool {
    abi_supported(request.abi_major, request.abi_minor) && is_command_id(request.command_id)
}

pub open spec fn request_refused(request: RequestView, error: WireError) -> bool {
    ||| abi_refused(request.abi_major, request.abi_minor, error)
    ||| {
        &&& abi_supported(request.abi_major, request.abi_minor)
        &&& !is_command_id(request.command_id)
        &&& error matches WireError::InvalidCommandId(id) && id@ == request.command_id
    }
}

pub fn validate_request(request: &PluginRequest) -> (result: Result<(), WireError>)
    ensures
        match result {
            Ok(()) => request_valid(request@),
            Err(error) => !request_valid(request@) && request_refused(request@, error),
        },
{
    match validate_abi(request.abi_major, request.abi_minor) {
        Ok(()) => {},
        Err(error) => return Err(error),
    }
    match CommandId::parse(request.command_id.as_str()) {
        Ok(_) => Ok(()),
        Err(_) => Err(WireError::InvalidCommandId(request.command_id.clone())),
    }
}

pub open spec fn is_split_direction(number: i32) -> bool {
    0 <= number <= 2
}

pub open spec fn is_pane_direction(number: i32) -> bool {
    0 <= number <= 4
}

/// A parameter is valid if its tab fits a byte, or its direction is known and
/// specified.
pub open spec fn parameter_valid(parameter: Option<Parameter>) -> bool {
    match parameter {
        None => true,
        Some(Parameter::Tab(tab)) => tab <= 255,
        Some(Parameter::SplitDirection(number)) => is_split_direction(number) && number != 0,
        Some(Parameter::PaneDirection(number)) => is_pane_direction(number) && number != 0,
    }
}

pub open spec fn parameter_refused(parameter: Option<Parameter>, error: WireError) -> bool {
    match parameter {
        None => false,
        Some(Parameter::Tab(tab)) => tab > 255 && error == WireError::TabOutOfRange(tab),
        Some(Parameter::SplitDirection(number)) => {
            ||| {
                &&& !is_split_direction(number)
                &&& error matches WireError::InvalidEnum(kind, n) && kind@ == "split direction"@
                    && n == number
            }
            ||| {
                &&& number == 0
                &&& error matches WireError::UnspecifiedEnum(kind) && kind@ == "split direction"@
            }
        },
        Some(Parameter::PaneDirection(number)) => {
            ||| {
                &&& !is_pane_direction(number)
                &&& error matches WireError::InvalidEnum(kind, n) && kind@ == "pane direction"@ && n
                    == number
            }
            ||| {
                &&& number == 0
                &&& error matches WireError::UnspecifiedEnum(kind) && kind@ == "pane direction"@
            }
        },
    }
}

pub fn validate_parameter(action: &ActionInvocation) -> (result: Result<(), WireError>)
    ensures
        match result {
            Ok(()) => parameter_valid(action@.parameter),
            Err(error) => !parameter_valid(action@.parameter) && parameter_refused(
                action@.parameter,
                error,
            ),
        },
{
    match action.parameter {
        None => Ok(()),
        Some(Parameter::Tab(tab)) => {
            if tab <= 255 {
                Ok(())
            } else {
                Err(WireError::TabOutOfRange(tab))
            }
        },
        Some(Parameter::SplitDirection(number)) => match SplitDirection::from_number(number) {
            None => {
                proof {
                    assert(SplitDirection::Unspecified.spec_number() != number);
                    assert(SplitDirection::Horizontal.spec_number() != number);
                    assert(SplitDirection::Vertical.spec_number() != number);
                }
                Err(WireError::InvalidEnum("split direction", number))
            },
            Some(SplitDirection::Unspecified) => Err(WireError::UnspecifiedEnum("split direction")),
            Some(_) => Ok(()),
        },
        Some(Parameter::PaneDirection(number)) => match PaneDirection::from_number(number) {
            None => {
                proof {
                    assert(PaneDirection::Unspecified.spec_number() != number);
                    assert(PaneDirection::Left.spec_number() != number);
                    assert(PaneDirection::Right.spec_number() != number);
                    assert(PaneDirection::Up.spec_number() != number);
                    assert(PaneDirection::Down.spec_number() != number);
                }
                Err(WireError::InvalidEnum("pane direction", number))
            },
            Some(PaneDirection::Unspecified) => Err(WireError::UnspecifiedEnum("pane direction")),
            Some(_) => Ok(()),
        },
    }
}

pub open spec fn action_valid(action: ActionView) -> bool {
    is_action_scope(action.id) && parameter_valid(action.parameter)
}

pub open spec fn action_refused(action: ActionView, error: WireError) -> bool {
    ||| {
        &&& !is_action_scope(action.id)
        &&& error matches WireError::InvalidActionId(id) && id@ == action.id
    }
    ||| is_action_scope(action.id) && parameter_refused(action.parameter, error)
}

/// The only control characters that a diagnostic may hold.
pub open spec fn is_layout(character: char) -> bool {
    character == '\n' || character == '\r' || character == '\t'
}

pub open spec fn diagnostic_printable(text: Seq<char>) -> bool {
    forall|i: int| 0 <= i < text.len() ==> !is_control(#[trigger] text[i]) || is_layout(text[i])
}

pub open spec fn diagnostic_valid(text: Seq<char>) -> bool {
    encode_utf8(text).len() <= MAX_DIAGNOSTIC_BYTES && diagnostic_printable(text)
}

pub open spec fn diagnostic_refused(text: Seq<char>, error: WireError) -> bool {
    ||| {
        &&& encode_utf8(text).len() > MAX_DIAGNOSTIC_BYTES
        &&& error matches WireError::DiagnosticTooLarge { found, limit } && found == encode_utf8(
            text,
        ).len() && limit == MAX_DIAGNOSTIC_BYTES
    }
    ||| {
        &&& encode_utf8(text).len() <= MAX_DIAGNOSTIC_BYTES
        &&& !diagnostic_printable(text)
        &&& error == WireError::InvalidDiagnostic
    }
}

fn validate_diagnostic(text: &str) -> (result: Result<(), WireError>)
    ensures
        match result {
            Ok(()) => diagnostic_valid(text@),
            Err(error) => !diagnostic_valid(text@) && diagnostic_refused(text@, error),
        },
{
    let size: usize = text.as_bytes().len();
    if size > MAX_DIAGNOSTIC_BYTES {
        return Err(WireError::DiagnosticTooLarge { found: size, limit: MAX_DIAGNOSTIC_BYTES });
    }
    let chars = chars_of(text);
    let mut index: usize = 0;
    while index < chars.len()
        invariant
            chars@ == text@,
            encode_utf8(text@).len() <= MAX_DIAGNOSTIC_BYTES,
            index <= chars@.len(),
            forall|i: int|
                0 <= i < index ==> !is_control(#[trigger] chars@[i]) || is_layout(chars@[i]),
        decreases chars@.len() - index,
    {
        let character = chars[index];
        if is_control_char(character) && character != '\n' && character != '\r' && character
            != '\t' {
            return Err(WireError::InvalidDiagnostic);
        }
        index += 1;
    }
    Ok(())
}

pub open spec fn counts_valid(response: ResponseView) -> bool {
    &&& abi_supported(response.abi_major, response.abi_minor)
    &&& response.actions.len() <= MAX_ACTIONS
    &&& response.diagnostics.len() <= MAX_DIAGNOSTICS
}

pub open spec fn actions_valid(actions: Seq<ActionView>, count: int) -> bool {
    forall|i: int| 0 <= i < count ==> action_valid(#[trigger] actions[i])
}

pub open spec fn diagnostics_valid(diagnostics: Seq<Seq<char>>, count: int) -> bool {
    forall|i: int| 0 <= i < count ==> diagnostic_valid(#[trigger] diagnostics[i])
}

/// A response is valid if its ABI is supported, and its actions and diagnostics
/// are few enough and each valid.
pub open spec fn response_valid(response: ResponseView) -> bool {
    &&& counts_valid(response)
    &&& actions_valid(response.actions, response.actions.len() as int)
    &&& diagnostics_valid(response.diagnostics, response.diagnostics.len() as int)
}

/// A response is refused for the first thing that is wrong with it.
pub open spec fn response_refused(response: ResponseView, error: WireError) -> bool {
    let actions = response.actions;
    let diagnostics = response.diagnostics;
    ||| abi_refused(response.abi_major, response.abi_minor, error)
    ||| {
        &&& abi_supported(response.abi_major, response.abi_minor)
        &&& actions.len() > MAX_ACTIONS
        &&& error matches WireError::TooManyActions { found, limit } && found == actions.len()
            && limit == MAX_ACTIONS
    }
    ||| {
        &&& abi_supported(response.abi_major, response.abi_minor)
        &&& actions.len() <= MAX_ACTIONS
        &&& diagnostics.len() > MAX_DIAGNOSTICS
        &&& error matches WireError::TooManyDiagnostics { found, limit } && found
            == diagnostics.len() && limit == MAX_DIAGNOSTICS
    }
    ||| {
        &&& counts_valid(response)
        &&& exists|i: int|
            0 <= i < actions.len() && actions_valid(actions, i) && action_refused(
                #[trigger] actions[i],
                error,
            )
    }
    ||| {
        &&& counts_valid(response)
        &&& actions_valid(actions, actions.len() as int)
        &&& exists|i: int|
            0 <= i < diagnostics.len() && diagnostics_valid(diagnostics, i) && diagnostic_refused(
                #[trigger] diagnostics[i],
                error,
            )
    }
}

pub fn validate_response(response: &PluginResponse) -> (result: Result<(), WireError>)
    ensures
        match result {
            Ok(()) => response_valid(response@),
            Err(error) => !response_valid(response@) && response_refused(response@, error),
        },
{
    match validate_abi(response.abi_major, response.abi_minor) {
        Ok(()) => {},
        Err(error) => return Err(error),
    }
    if response.actions.len() > MAX_ACTIONS {
        return Err(
            WireError::TooManyActions { found: response.actions.len(), limit: MAX_ACTIONS },
        );
    }
    if response.diagnostics.len() > MAX_DIAGNOSTICS {
        return Err(
            WireError::TooManyDiagnostics {
                found: response.diagnostics.len(),
                limit: MAX_DIAGNOSTICS,
            },
        );
    }
    let ghost actions = response@.actions;
    let ghost diagnostics = response@.diagnostics;
    let mut index: usize = 0;
    while index < response.actions.len()
        invariant
            index <= response.actions@.len(),
            actions == response@.actions,
            counts_valid(response@),
            actions_valid(actions, index as int),
        decreases response.actions@.len() - index,
    {
        let action = &response.actions[index];
        proof {
            assert(actions[index as int] == action@);
        }
        match ActionScope::parse(action.id.as_str()) {
            Ok(_) => {},
            Err(_) => return Err(WireError::InvalidActionId(action.id.clone())),
        }
        match validate_parameter(action) {
            Ok(()) => {},
            Err(error) => return Err(error),
        }
        index += 1;
    }
    let mut next: usize = 0;
    while next < response.diagnostics.len()
        invariant
            next <= response.diagnostics@.len(),
            actions == response@.actions,
            diagnostics == response@.diagnostics,
            counts_valid(response@),
            actions_valid(actions, actions.len() as int),
            diagnostics_valid(diagnostics, next as int),
        decreases response.diagnostics@.len() - next,
    {
        proof {
            assert(diagnostics[next as int] == response.diagnostics@[next as int]@);
        }
        match validate_diagnostic(response.diagnostics[next].as_str()) {
            Ok(()) => {},
            Err(error) => return Err(error),
        }
        next += 1;
    }
    Ok(())
}

/// A payload behind its length, if the whole is not too large.
fn encode_frame(payload: &[u8]) -> (result: Result<Vec<u8>, WireError>)
    ensures
        match result {
            Ok(frame) => frame@ == delimited(payload@) && frame@.len() <= MAX_FRAME_BYTES,
            Err(error) => {
                &&& delimited(payload@).len() > MAX_FRAME_BYTES
                &&& error matches WireError::FrameTooLarge { found, limit } && found == delimited(
                    payload@,
                ).len() && limit == MAX_FRAME_BYTES
            },
        },
{
    let mut frame: Vec<u8> = Vec::new();
    put_varint(payload.len() as u64, &mut frame);
    frame.extend_from_slice(payload);
    proof {
        assert(frame@ =~= delimited(payload@));
    }
    if frame.len() > MAX_FRAME_BYTES {
        return Err(WireError::FrameTooLarge { found: frame.len(), limit: MAX_FRAME_BYTES });
    }
    Ok(frame)
}

/// A frame is too large, or its length prefix cannot be read.
pub open spec fn frame_unreadable(bytes: Seq<u8>, error: WireError) -> bool {
    ||| {
        &&& bytes.len() > MAX_FRAME_BYTES
        &&& error matches WireError::FrameTooLarge { found, limit } && found == bytes.len()
            && limit == MAX_FRAME_BYTES
    }
    ||| {
        &&& bytes.len() <= MAX_FRAME_BYTES
        &&& payload_prefix(bytes) is None
        &&& error == WireError::Decode(FramePart::Length)
    }
}

/// Opens a frame: its payload and how many bytes follow.
fn open_frame(bytes: &[u8]) -> (result: Result<(&[u8], usize), WireError>)
    ensures
        match result {
            Ok((payload, trailing)) => {
                &&& bytes@.len() <= MAX_FRAME_BYTES
                &&& payload_prefix(bytes@) matches Some((p, length))
                &&& p == payload@
                &&& length + trailing == bytes@.len()
            },
            Err(error) => frame_unreadable(bytes@, error),
        },
{
    if bytes.len() > MAX_FRAME_BYTES {
        return Err(WireError::FrameTooLarge { found: bytes.len(), limit: MAX_FRAME_BYTES });
    }
    match take_payload(bytes) {
        Some((payload, rest)) => Ok((payload, rest.len())),
        None => Err(WireError::Decode(FramePart::Length)),
    }
}

/// The frame of a request, if the request is valid.
pub fn encode_request_frame(request: &PluginRequest) -> (result: Result<Vec<u8>, WireError>)
    ensures
        match result {
            Ok(frame) => {
                &&& request_valid(request@)
                &&& frame@ == delimited(request_payload(request@))
                &&& frame@.len() <= MAX_FRAME_BYTES
            },
            Err(error) => !request_valid(request@) && request_refused(request@, error),
        },
{
    match validate_request(request) {
        Ok(()) => {},
        Err(error) => return Err(error),
    }
    let payload = encode_request(request);
    proof {
        law_valid_request_fits_a_frame(request@);
    }
    encode_frame(payload.as_slice())
}

/// The request in a frame, if it is alone there, well formed and valid.
pub fn decode_request_frame(bytes: &[u8]) -> (result: Result<PluginRequest, WireError>)
    ensures
        match result {
            Ok(request) => {
                &&& bytes@.len() <= MAX_FRAME_BYTES
                &&& payload_prefix(bytes@) matches Some((payload, length))
                &&& length == bytes@.len()
                &&& read_request(payload) == Some(request@)
                &&& request_valid(request@)
            },
            Err(error) => frame_unreadable(bytes@, error) || {
                &&& bytes@.len() <= MAX_FRAME_BYTES
                &&& payload_prefix(bytes@) matches Some((payload, length))
                &&& match read_request(payload) {
                    None => error == WireError::Decode(FramePart::Fields),
                    Some(request) => if length < bytes@.len() {
                        error == WireError::TrailingBytes((bytes@.len() - length) as usize)
                    } else {
                        !request_valid(request) && request_refused(request, error)
                    },
                }
            },
        },
{
    let (payload, trailing) = match open_frame(bytes) {
        Ok(opened) => opened,
        Err(error) => return Err(error),
    };
    let request = match decode_request(payload) {
        Some(request) => request,
        None => return Err(WireError::Decode(FramePart::Fields)),
    };
    if trailing > 0 {
        return Err(WireError::TrailingBytes(trailing));
    }
    match validate_request(&request) {
        Ok(()) => Ok(request),
        Err(error) => Err(error),
    }
}

/// The frame of a response, if the response is valid.
pub fn encode_response_frame(response: &PluginResponse) -> (result: Result<Vec<u8>, WireError>)
    ensures
        match result {
            Ok(frame) => {
                &&& response_valid(response@)
                &&& frame@ == delimited(response_payload(response@))
                &&& frame@.len() <= MAX_FRAME_BYTES
            },
            Err(error) => !response_valid(response@) && response_refused(response@, error),
        },
{
    match validate_response(response) {
        Ok(()) => {},
        Err(error) => return Err(error),
    }
    let payload = encode_response(response);
    proof {
        law_valid_response_fits_a_frame(response@);
    }
    encode_frame(payload.as_slice())
}

/// The response in a frame, if it is alone there, well formed and valid.
pub fn decode_response_frame(bytes: &[u8]) -> (result: Result<PluginResponse, WireError>)
    ensures
        match result {
            Ok(response) => {
                &&& bytes@.len() <= MAX_FRAME_BYTES
                &&& payload_prefix(bytes@) matches Some((payload, length))
                &&& length == bytes@.len()
                &&& read_response(payload) == Some(response@)
                &&& response_valid(response@)
            },
            Err(error) => frame_unreadable(bytes@, error) || {
                &&& bytes@.len() <= MAX_FRAME_BYTES
                &&& payload_prefix(bytes@) matches Some((payload, length))
                &&& match read_response(payload) {
                    None => error == WireError::Decode(FramePart::Fields),
                    Some(response) => if length < bytes@.len() {
                        error == WireError::TrailingBytes((bytes@.len() - length) as usize)
                    } else {
                        !response_valid(response) && response_refused(response, error)
                    },
                }
            },
        },
{
    let (payload, trailing) = match open_frame(bytes) {
        Ok(opened) => opened,
        Err(error) => return Err(error),
    };
    let response = match decode_response(payload) {
        Some(response) => response,
        None => return Err(WireError::Decode(FramePart::Fields)),
    };
    if trailing > 0 {
        return Err(WireError::TrailingBytes(trailing));
    }
    match validate_response(&response) {
        Ok(()) => Ok(response),
        Err(error) => Err(error),
    }
}

/// A segment takes as many bytes as it has characters.
proof fn lemma_segment_bytes(text: Seq<char>, limit: nat)
    requires
        is_segment(text, limit),
    ensures
        encode_utf8(text).len() == text.len() <= limit,
{
    assert forall|i: int| 0 <= i < text.len() implies '\0' <= #[trigger] text[i] <= '\u{7f}' by {}
    is_ascii_chars_encode_utf8(text);
}

/// A valid request is never too large for a frame.
pub proof fn law_valid_request_fits_a_frame(request: RequestView)
    requires
        request_valid(request),
    ensures
        delimited(request_payload(request)).len() <= MAX_FRAME_BYTES,
{
    lemma_segment_bytes(request.command_id, COMMAND_ID_LIMIT as nat);
    lemma_varint_is_short(8);
    lemma_varint_is_short(16);
    lemma_varint_is_short(26);
    lemma_varint_is_short(request.abi_major as nat);
    lemma_varint_is_short(request.abi_minor as nat);
    lemma_varint_is_short(request.command_id.len());
    lemma_varint_is_short(request_payload(request).len());
}

proof fn lemma_action_is_short(action: ActionView)
    requires
        action_valid(action),
    ensures
        payload_field(3, action_payload(action)).len() <= 128,
{
    reveal_strlit("cterm:");
    let slug = action.id.skip("cterm:"@.len() as int);
    assert forall|i: int| 0 <= i < action.id.len() implies '\0' <= #[trigger] action.id[i]
        <= '\u{7f}' by {
        if i < 6 {
            assert(action.id[i] == "cterm:"@[i]);
        } else {
            assert(action.id[i] == slug[i - 6]);
        }
    }
    is_ascii_chars_encode_utf8(action.id);
    lemma_varint_is_short(10);
    lemma_varint_is_short(16);
    lemma_varint_is_short(24);
    lemma_varint_is_short(26);
    lemma_varint_is_short(32);
    lemma_varint_is_short(action.id.len());
    match action.parameter {
        Some(Parameter::Tab(tab)) => lemma_varint_is_short(tab as nat),
        Some(Parameter::SplitDirection(number)) => lemma_varint_is_short(signed_number(number)),
        Some(Parameter::PaneDirection(number)) => lemma_varint_is_short(signed_number(number)),
        None => {},
    }
    lemma_varint_is_short(action_payload(action).len());
}

proof fn lemma_actions_are_short(actions: Seq<ActionView>)
    requires
        actions_valid(actions, actions.len() as int),
    ensures
        actions_payload(actions).len() <= 128 * actions.len(),
    decreases actions.len(),
{
    if actions.len() > 0 {
        let rest = actions.drop_last();
        assert forall|i: int| 0 <= i < rest.len() implies action_valid(#[trigger] rest[i]) by {
            assert(rest[i] == actions[i]);
        }
        lemma_actions_are_short(rest);
        assert(action_valid(actions[actions.len() - 1]));
        lemma_action_is_short(actions.last());
    }
}

proof fn lemma_diagnostics_are_short(diagnostics: Seq<Seq<char>>)
    requires
        diagnostics_valid(diagnostics, diagnostics.len() as int),
    ensures
        diagnostics_payload(diagnostics).len() <= 4099 * diagnostics.len(),
    decreases diagnostics.len(),
{
    if diagnostics.len() > 0 {
        let rest = diagnostics.drop_last();
        assert forall|i: int| 0 <= i < rest.len() implies diagnostic_valid(#[trigger] rest[i]) by {
            assert(rest[i] == diagnostics[i]);
        }
        lemma_diagnostics_are_short(rest);
        assert(diagnostic_valid(diagnostics[diagnostics.len() - 1]));
        lemma_varint_is_short(34);
        lemma_varint_is_short(encode_utf8(diagnostics.last()).len());
    }
}

/// A valid response is never too large for a frame.
pub proof fn law_valid_response_fits_a_frame(response: ResponseView)
    requires
        response_valid(response),
    ensures
        delimited(response_payload(response)).len() <= MAX_FRAME_BYTES,
{
    lemma_actions_are_short(response.actions);
    lemma_diagnostics_are_short(response.diagnostics);
    lemma_varint_is_short(8);
    lemma_varint_is_short(16);
    lemma_varint_is_short(response.abi_major as nat);
    lemma_varint_is_short(response.abi_minor as nat);
    lemma_varint_is_short(response_payload(response).len());
}

/// A valid request reads back from its frame: the frame opens, nothing trails,
/// and its fields mean the request.
pub proof fn law_request_frame_round_trip(request: RequestView)
    requires
        request_valid(request),
    ensures
        payload_prefix(delimited(request_payload(request))) == Some(
            (request_payload(request), delimited(request_payload(request)).len()),
        ),
        read_request(request_payload(request)) == Some(request),
{
    let frame = delimited(request_payload(request));
    law_valid_request_fits_a_frame(request);
    law_payload_round_trip(request_payload(request), Seq::empty());
    assert(frame + Seq::<u8>::empty() =~= frame);
    lemma_segment_bytes(request.command_id, COMMAND_ID_LIMIT as nat);
    law_request_payload_round_trip(request);
}

/// A valid response reads back from its frame: the frame opens, nothing trails,
/// and its fields mean the response.
pub proof fn law_response_frame_round_trip(response: ResponseView)
    requires
        response_valid(response),
    ensures
        payload_prefix(delimited(response_payload(response))) == Some(
            (response_payload(response), delimited(response_payload(response)).len()),
        ),
        read_response(response_payload(response)) == Some(response),
{
    let frame = delimited(response_payload(response));
    law_valid_response_fits_a_frame(response);
    law_payload_round_trip(response_payload(response), Seq::empty());
    assert(frame + Seq::<u8>::empty() =~= frame);
    assert(response_fits(response)) by {
        assert forall|i: int| 0 <= i < response.actions.len() implies encode_utf8(
            (#[trigger] response.actions[i]).id,
        ).len() <= u64::MAX && action_payload(response.actions[i]).len() <= u64::MAX by {
            lemma_action_is_part(response.actions, i);
        }
        assert forall|i: int| 0 <= i < response.diagnostics.len() implies encode_utf8(
            #[trigger] response.diagnostics[i],
        ).len() <= u64::MAX by {
            assert(diagnostic_valid(response.diagnostics[i]));
        }
    }
    law_response_payload_round_trip(response);
}

proof fn lemma_action_is_part(actions: Seq<ActionView>, index: int)
    requires
        0 <= index < actions.len(),
    ensures
        encode_utf8(actions[index].id).len() <= action_payload(actions[index]).len(),
        action_payload(actions[index]).len() <= actions_payload(actions).len(),
    decreases actions.len(),
{
    if actions[index].id.len() == 0 {
        assert(encode_utf8(actions[index].id).len() == 0);
    }
    if index < actions.len() - 1 {
        lemma_action_is_part(actions.drop_last(), index);
    }
}

/// Only the first version of the interface is spoken, and a refusal names both the version
/// that was found and that one.
pub proof fn law_first_interface_is_spoken(major: u32, minor: u32, error: WireError)
    ensures
        abi_supported(major, minor) <==> major == 1 && minor == 0,
        abi_refused(major, minor, error) ==> (error matches WireError::UnsupportedAbi {
            found_major,
            found_minor,
            supported_major,
            supported_minor,
        } && found_major == major && found_minor == minor && supported_major == 1
            && supported_minor == 0),
        abi_refused(major, minor, error) ==> !(major == 1 && minor == 0),
{
}

/// A tab fits a byte, a split has one of two directions and a pane one of four; a
/// direction that was not given is refused as such, and an unknown one by its number.
pub proof fn law_parameters_are_within_their_range(tab: u32, number: i32, error: WireError)
    ensures
        parameter_valid(None),
        parameter_valid(Some(Parameter::Tab(tab))) <==> tab < 256,
        parameter_valid(Some(Parameter::SplitDirection(number))) <==> number == 1 || number == 2,
        parameter_valid(Some(Parameter::PaneDirection(number))) <==> 1 <= number <= 4,
        parameter_refused(Some(Parameter::Tab(tab)), error) ==> error == WireError::TabOutOfRange(
            tab,
        ) && tab > 255,
        parameter_refused(Some(Parameter::SplitDirection(number)), error) ==> (match error {
            WireError::UnspecifiedEnum(kind) => number == 0 && kind@ == "split direction"@,
            WireError::InvalidEnum(kind, found) => (number < 0 || number > 2) && found == number
                && kind@ == "split direction"@,
            _ => false,
        }),
        parameter_refused(Some(Parameter::PaneDirection(number)), error) ==> (match error {
            WireError::UnspecifiedEnum(kind) => number == 0 && kind@ == "pane direction"@,
            WireError::InvalidEnum(kind, found) => (number < 0 || number > 4) && found == number
                && kind@ == "pane direction"@,
            _ => false,
        }),
{
}

/// The directions that the protocol numbers are exactly those that a parameter may carry.
pub proof fn law_numbered_directions_are_valid(split: SplitDirection, pane: PaneDirection)
    ensures
        parameter_valid(Some(Parameter::SplitDirection(split.spec_number()))) <==> split
            != SplitDirection::Unspecified,
        parameter_valid(Some(Parameter::PaneDirection(pane.spec_number()))) <==> pane
            != PaneDirection::Unspecified,
{
}

/// A diagnostic may break its lines and set tabs; any other control character spoils it,
/// and so does more than four kilobytes. What is too long is told before what it holds.
pub proof fn law_diagnostics_are_plain_text(
    front: Seq<char>,
    character: char,
    back: Seq<char>,
    error: WireError,
)
    ensures
        is_layout(character) <==> character as u32 == 9 || character as u32 == 10 || character as u32
            == 13,
        is_control(character) && !is_layout(character) ==> !diagnostic_printable(
            front + seq![character] + back,
        ),
        diagnostic_printable(front + seq![character] + back) <==> diagnostic_printable(front)
            && diagnostic_printable(back) && (!is_control(character) || is_layout(character)),
        encode_utf8(front).len() > 4096 ==> !diagnostic_valid(front),
        diagnostic_valid(front) ==> encode_utf8(front).len() <= 4096 && diagnostic_printable(front),
        diagnostic_refused(front, error) && error == WireError::InvalidDiagnostic ==> encode_utf8(
            front,
        ).len() <= 4096,
        diagnostic_refused(front, error) ==> !diagnostic_valid(front),
{
    let text = front + seq![character] + back;
    assert(text[front.len() as int] == character);
    if diagnostic_printable(text) {
        assert forall|i: int| 0 <= i < front.len() implies !is_control(#[trigger] front[i])
            || is_layout(front[i]) by {
            assert(text[i] == front[i]);
        }
        assert forall|i: int| 0 <= i < back.len() implies !is_control(#[trigger] back[i])
            || is_layout(back[i]) by {
            assert(text[front.len() + 1 + i] == back[i]);
        }
    }
}

/// A valid response speaks the first interface, asks for at most thirty-two actions and
/// gives at most thirty-two diagnostics, every one of them valid; a valid request names a
/// command.
pub proof fn law_valid_messages_are_in_order(response: ResponseView, request: RequestView, i: int)
    ensures
        response_valid(response) ==> response.abi_major == 1 && response.abi_minor == 0
            && response.actions.len() <= 32 && response.diagnostics.len() <= 32,
        response_valid(response) && 0 <= i < response.actions.len() ==> is_action_scope(
            response.actions[i].id,
        ) && parameter_valid(response.actions[i].parameter),
        response_valid(response) && 0 <= i < response.diagnostics.len() ==> encode_utf8(
            response.diagnostics[i],
        ).len() <= 4096,
        request_valid(request) <==> request.abi_major == 1 && request.abi_minor == 0
            && is_command_id(request.command_id),
        request_valid(request) ==> request.command_id.len() <= 64,
{
    if response_valid(response) && 0 <= i < response.actions.len() {
        assert(action_valid(response.actions[i]));
    }
    if response_valid(response) && 0 <= i < response.diagnostics.len() {
        assert(diagnostic_valid(response.diagnostics[i]));
    }
}

/// A message that is refused is not valid, and one that is refused for its command or its
/// name is told that very name.
pub proof fn law_refused_messages_are_not_valid(
    request: RequestView,
    action: ActionView,
    error: WireError,
)
    ensures
        request_refused(request, error) ==> !request_valid(request),
        request_refused(request, error) ==> (error matches WireError::InvalidCommandId(id) ==> id@
            == request.command_id),
        action_refused(action, error) ==> !action_valid(action),
        action_refused(action, error) ==> (error matches WireError::InvalidActionId(id) ==> id@
            == action.id && !is_action_scope(action.id)),
{
}

/// A frame of more than a megabyte is not opened, and is told by its size.
pub proof fn law_frames_are_a_megabyte_at_most(bytes: Seq<u8>, error: WireError)
    ensures
        frame_unreadable(bytes, error) && bytes.len() > 1024 * 1024 ==> (error matches WireError::FrameTooLarge {
            found,
            limit,
        } && found == bytes.len() && limit == 1024 * 1024),
        frame_unreadable(bytes, error) && bytes.len() <= 1024 * 1024 ==> error
            == WireError::Decode(FramePart::Length) && payload_prefix(bytes) is None,
{
}

/// A response that is refused is not valid, and is refused for too much only where there
/// is more than it may hold.
pub proof fn law_refused_responses_are_not_valid(response: ResponseView, error: WireError)
    requires
        response_refused(response, error),
    ensures
        !response_valid(response),
        error matches WireError::TooManyActions { found, limit } ==> found
            == response.actions.len() && limit == 32 && found > 32,
        error matches WireError::TooManyDiagnostics { found, limit } ==> found
            == response.diagnostics.len() && limit == 32 && found > 32,
        error matches WireError::UnsupportedAbi { found_major, found_minor, .. } ==> found_major
            == response.abi_major && found_minor == response.abi_minor,
{
    let actions = response.actions;
    let diagnostics = response.diagnostics;
    if response_valid(response) {
        if exists|i: int|
            0 <= i < actions.len() && actions_valid(actions, i) && action_refused(
                #[trigger] actions[i],
                error,
            ) {
            let i = choose|i: int|
                0 <= i < actions.len() && actions_valid(actions, i) && action_refused(
                    #[trigger] actions[i],
                    error,
                );
            assert(action_valid(actions[i]));
        }
        if exists|i: int|
            0 <= i < diagnostics.len() && diagnostics_valid(diagnostics, i) && diagnostic_refused(
                #[trigger] diagnostics[i],
                error,
            ) {
            let i = choose|i: int|
                0 <= i < diagnostics.len() && diagnostics_valid(diagnostics, i)
                    && diagnostic_refused(#[trigger] diagnostics[i], error);
            assert(diagnostic_valid(diagnostics[i]));
        }
    }
}

} // verus!
