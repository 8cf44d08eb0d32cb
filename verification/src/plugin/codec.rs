//! Encoding and decoding of the plugin messages.

use vstd::prelude::*;
use vstd::utf8::*;

use crate::plugin::field::{
    delimited, group_length, key, key_prefix, law_payload_round_trip, law_varint_round_trip,
    lemma_key_length, lemma_key_round_trip, lemma_signed_round_trip, lemma_value_agrees,
    lemma_value_length, lemma_varint_nonempty, low_signed, low_signed_of, low_unsigned,
    low_unsigned_of, payload_prefix, put_varint, signed_number, signed_number_of, skip_value,
    take_key, take_payload, take_varint, value_length, varint, varint_prefix, GROUP_DEPTH,
    WIRE_BYTES, WIRE_GROUP, WIRE_GROUP_END, WIRE_VARINT,
};
use crate::plugin::manifest::utf8_text;
use crate::plugin::proto::{
    action_views, string_views, ActionInvocation, ActionView, Parameter, PluginRequest,
    PluginResponse, RequestView, ResponseView,
};

verus! {

/// A number that is left out where it is zero.
pub open spec fn number_field(field: nat, number: nat) -> Seq<u8> {
    if number == 0 {
        Seq::empty()
    } else {
        set_number_field(field, number)
    }
}

/// A number that is always written.
pub open spec fn set_number_field(field: nat, number: nat) -> Seq<u8> {
    key(field, WIRE_VARINT as nat) + varint(number)
}

/// A payload that is always written.
pub open spec fn payload_field(field: nat, payload: Seq<u8>) -> Seq<u8> {
    key(field, WIRE_BYTES as nat) + delimited(payload)
}

/// A text that is left out where it is empty.
pub open spec fn text_field(field: nat, text: Seq<char>) -> Seq<u8> {
    if text.len() == 0 {
        Seq::empty()
    } else {
        payload_field(field, encode_utf8(text))
    }
}

pub open spec fn request_payload(request: RequestView) -> Seq<u8> {
    number_field(1, request.abi_major as nat) + number_field(2, request.abi_minor as nat)
        + text_field(3, request.command_id)
}

pub open spec fn parameter_payload(parameter: Option<Parameter>) -> Seq<u8> {
    match parameter {
        None => Seq::empty(),
        Some(Parameter::Tab(tab)) => set_number_field(2, tab as nat),
        Some(Parameter::SplitDirection(direction)) => set_number_field(
            3,
            signed_number(direction),
        ),
        Some(Parameter::PaneDirection(direction)) => set_number_field(4, signed_number(direction)),
    }
}

pub open spec fn action_payload(action: ActionView) -> Seq<u8> {
    text_field(1, action.id) + parameter_payload(action.parameter)
}

pub open spec fn actions_payload(actions: Seq<ActionView>) -> Seq<u8>
    decreases actions.len(),
{
    if actions.len() == 0 {
        Seq::empty()
    } else {
        actions_payload(actions.drop_last()) + payload_field(3, action_payload(actions.last()))
    }
}

pub open spec fn diagnostics_payload(diagnostics: Seq<Seq<char>>) -> Seq<u8>
    decreases diagnostics.len(),
{
    if diagnostics.len() == 0 {
        Seq::empty()
    } else {
        diagnostics_payload(diagnostics.drop_last()) + payload_field(
            4,
            encode_utf8(diagnostics.last()),
        )
    }
}

pub open spec fn response_payload(response: ResponseView) -> Seq<u8> {
    number_field(1, response.abi_major as nat) + number_field(2, response.abi_minor as nat)
        + actions_payload(response.actions) + diagnostics_payload(response.diagnostics)
}

/// Reads a text: the text and how many bytes it takes.
pub open spec fn text_prefix(bytes: Seq<u8>) -> Option<(Seq<char>, nat)> {
    match payload_prefix(bytes) {
        Some((payload, length)) => if valid_utf8(payload) {
            Some((decode_utf8(payload), length))
        } else {
            None
        },
        None => None,
    }
}

/// How many bytes the value of an unknown field takes in a message that is nested
/// `levels` deep. The nesting of the message counts against the depth that its
/// groups may have.
pub open spec fn unknown_length(field: nat, wire: nat, bytes: Seq<u8>, levels: nat) -> Option<nat> {
    value_length(field, wire, bytes, (GROUP_DEPTH - levels) as nat)
}

/// The request after one field, and how many bytes the value of the field takes.
pub open spec fn request_field(request: RequestView, field: nat, wire: nat, bytes: Seq<u8>) -> Option<
    (RequestView, nat),
> {
    if field == 1 || field == 2 {
        match varint_prefix(bytes) {
            Some((number, length)) => if wire != WIRE_VARINT {
                None
            } else if field == 1 {
                Some((RequestView { abi_major: low_unsigned(number), ..request }, length))
            } else {
                Some((RequestView { abi_minor: low_unsigned(number), ..request }, length))
            },
            None => None,
        }
    } else if field == 3 {
        match text_prefix(bytes) {
            Some((text, length)) => if wire != WIRE_BYTES {
                None
            } else {
                Some((RequestView { command_id: text, ..request }, length))
            },
            None => None,
        }
    } else {
        match unknown_length(field, wire, bytes, 1) {
            Some(length) => Some((request, length)),
            None => None,
        }
    }
}

/// The request after all fields; later values replace earlier ones, and unknown
/// fields are passed over.
pub open spec fn merge_request(bytes: Seq<u8>, request: RequestView) -> Option<RequestView>
    decreases bytes.len(),
{
    if bytes.len() == 0 {
        Some(request)
    } else {
        match key_prefix(bytes) {
            Some((field, wire, length)) => match request_field(
                request,
                field,
                wire,
                bytes.skip(length as int),
            ) {
                Some((next, used)) => if 1 <= length && length + used <= bytes.len() {
                    merge_request(bytes.skip((length + used) as int), next)
                } else {
                    None
                },
                None => None,
            },
            None => None,
        }
    }
}

pub open spec fn action_field(action: ActionView, field: nat, wire: nat, bytes: Seq<u8>) -> Option<
    (ActionView, nat),
> {
    if field == 1 {
        match text_prefix(bytes) {
            Some((text, length)) => if wire != WIRE_BYTES {
                None
            } else {
                Some((ActionView { id: text, ..action }, length))
            },
            None => None,
        }
    } else if 2 <= field <= 4 {
        match varint_prefix(bytes) {
            Some((number, length)) => if wire != WIRE_VARINT {
                None
            } else {
                let parameter = if field == 2 {
                    Parameter::Tab(low_unsigned(number))
                } else if field == 3 {
                    Parameter::SplitDirection(low_signed(number))
                } else {
                    Parameter::PaneDirection(low_signed(number))
                };
                Some((ActionView { parameter: Some(parameter), ..action }, length))
            },
            None => None,
        }
    } else {
        match unknown_length(field, wire, bytes, 2) {
            Some(length) => Some((action, length)),
            None => None,
        }
    }
}

pub open spec fn merge_action(bytes: Seq<u8>, action: ActionView) -> Option<ActionView>
    decreases bytes.len(),
{
    if bytes.len() == 0 {
        Some(action)
    } else {
        match key_prefix(bytes) {
            Some((field, wire, length)) => match action_field(
                action,
                field,
                wire,
                bytes.skip(length as int),
            ) {
                Some((next, used)) => if 1 <= length && length + used <= bytes.len() {
                    merge_action(bytes.skip((length + used) as int), next)
                } else {
                    None
                },
                None => None,
            },
            None => None,
        }
    }
}

pub open spec fn empty_action() -> ActionView {
    ActionView { id: Seq::empty(), parameter: None }
}

pub open spec fn response_field(
    response: ResponseView,
    field: nat,
    wire: nat,
    bytes: Seq<u8>,
) -> Option<(ResponseView, nat)> {
    if field == 1 || field == 2 {
        match varint_prefix(bytes) {
            Some((number, length)) => if wire != WIRE_VARINT {
                None
            } else if field == 1 {
                Some((ResponseView { abi_major: low_unsigned(number), ..response }, length))
            } else {
                Some((ResponseView { abi_minor: low_unsigned(number), ..response }, length))
            },
            None => None,
        }
    } else if field == 3 {
        match payload_prefix(bytes) {
            Some((payload, length)) => match merge_action(payload, empty_action()) {
                Some(action) => if wire != WIRE_BYTES {
                    None
                } else {
                    Some(
                        (
                            ResponseView { actions: response.actions.push(action), ..response },
                            length,
                        ),
                    )
                },
                None => None,
            },
            None => None,
        }
    } else if field == 4 {
        match text_prefix(bytes) {
            Some((text, length)) => if wire != WIRE_BYTES {
                None
            } else {
                Some(
                    (
                        ResponseView { diagnostics: response.diagnostics.push(text), ..response },
                        length,
                    ),
                )
            },
            None => None,
        }
    } else {
        match unknown_length(field, wire, bytes, 1) {
            Some(length) => Some((response, length)),
            None => None,
        }
    }
}

pub open spec fn merge_response(bytes: Seq<u8>, response: ResponseView) -> Option<ResponseView>
    decreases bytes.len(),
{
    if bytes.len() == 0 {
        Some(response)
    } else {
        match key_prefix(bytes) {
            Some((field, wire, length)) => match response_field(
                response,
                field,
                wire,
                bytes.skip(length as int),
            ) {
                Some((next, used)) => if 1 <= length && length + used <= bytes.len() {
                    merge_response(bytes.skip((length + used) as int), next)
                } else {
                    None
                },
                None => None,
            },
            None => None,
        }
    }
}

pub open spec fn empty_request() -> RequestView {
    RequestView { abi_major: 0, abi_minor: 0, command_id: Seq::empty() }
}

pub open spec fn empty_response() -> ResponseView {
    ResponseView {
        abi_major: 0,
        abi_minor: 0,
        actions: Seq::empty(),
        diagnostics: Seq::empty(),
    }
}

/// What the fields of a payload mean as a request.
pub open spec fn read_request(payload: Seq<u8>) -> Option<RequestView> {
    merge_request(payload, empty_request())
}

/// What the fields of a payload mean as a response.
pub open spec fn read_response(payload: Seq<u8>) -> Option<ResponseView> {
    merge_response(payload, empty_response())
}

proof fn lemma_field_at_front(field: nat, wire: nat, value: Seq<u8>, rest: Seq<u8>)
    requires
        1 <= field < 0x20000000,
        wire <= 5,
    ensures
        ({
            let head = key(field, wire);
            let bytes = head + value + rest;
            &&& key_prefix(bytes) == Some((field, wire, head.len()))
            &&& 1 <= head.len()
            &&& bytes.skip(head.len() as int) == value + rest
            &&& bytes.skip((head.len() + value.len()) as int) == rest
            &&& bytes.len() > 0
        }),
{
    let head = key(field, wire);
    let bytes = head + value + rest;
    lemma_key_round_trip(field, wire, value + rest);
    assert(bytes =~= head + (value + rest));
    assert(bytes.skip(head.len() as int) =~= value + rest);
    assert(bytes.skip((head.len() + value.len()) as int) =~= rest);
}

proof fn lemma_text_round_trip(text: Seq<char>, rest: Seq<u8>)
    requires
        encode_utf8(text).len() <= u64::MAX,
    ensures
        text_prefix(delimited(encode_utf8(text)) + rest) == Some(
            (text, delimited(encode_utf8(text)).len()),
        ),
{
    law_payload_round_trip(encode_utf8(text), rest);
    encode_utf8_valid_utf8(text);
    encode_utf8_decode_utf8(text);
}

proof fn lemma_request_number(request: RequestView, field: nat, number: u32, rest: Seq<u8>)
    requires
        field == 1 || field == 2,
        field == 1 ==> request.abi_major == 0,
        field == 2 ==> request.abi_minor == 0,
    ensures
        merge_request(number_field(field, number as nat) + rest, request) == merge_request(
            rest,
            if field == 1 {
                RequestView { abi_major: number, ..request }
            } else {
                RequestView { abi_minor: number, ..request }
            },
        ),
{
    if number == 0 {
        assert(number_field(field, 0) + rest =~= rest);
    } else {
        law_varint_round_trip(number as nat, rest);
        lemma_field_at_front(field, WIRE_VARINT as nat, varint(number as nat), rest);
    }
}

proof fn lemma_empty_text(text: Seq<char>)
    ensures
        text.len() == 0 ==> text == Seq::<char>::empty(),
{
    if text.len() == 0 {
        assert(text =~= Seq::<char>::empty());
    }
}

/// A request reads back from its payload.
pub proof fn law_request_payload_round_trip(request: RequestView)
    requires
        encode_utf8(request.command_id).len() <= u64::MAX,
    ensures
        read_request(request_payload(request)) == Some(request),
{
    let text = text_field(3, request.command_id);
    let minor = number_field(2, request.abi_minor as nat);
    let major = number_field(1, request.abi_major as nat);
    let first = RequestView { abi_major: request.abi_major, ..empty_request() };
    let second = RequestView { abi_minor: request.abi_minor, ..first };
    assert(request_payload(request) =~= major + (minor + text));
    lemma_request_number(empty_request(), 1, request.abi_major, minor + text);
    lemma_request_number(first, 2, request.abi_minor, text);
    lemma_empty_text(request.command_id);
    if request.command_id.len() > 0 {
        let payload = encode_utf8(request.command_id);
        let none = Seq::<u8>::empty();
        lemma_text_round_trip(request.command_id, none);
        lemma_field_at_front(3, WIRE_BYTES as nat, delimited(payload), none);
        assert(text + none =~= text);
        assert(merge_request(none, RequestView { command_id: request.command_id, ..second })
            == Some(request));
    }
}

proof fn lemma_action_payload_round_trip(action: ActionView)
    requires
        encode_utf8(action.id).len() <= u64::MAX,
    ensures
        merge_action(action_payload(action), empty_action()) == Some(action),
{
    let tail = parameter_payload(action.parameter);
    let named = ActionView { id: action.id, parameter: None };
    let none = Seq::<u8>::empty();
    lemma_empty_text(action.id);
    assert(merge_action(action_payload(action), empty_action()) == merge_action(tail, named)) by {
        if action.id.len() > 0 {
            lemma_text_round_trip(action.id, tail);
            lemma_field_at_front(1, WIRE_BYTES as nat, delimited(encode_utf8(action.id)), tail);
        } else {
            assert(action_payload(action) =~= tail);
        }
    }
    assert(tail + none =~= tail);
    match action.parameter {
        None => {},
        Some(Parameter::Tab(tab)) => {
            law_varint_round_trip(tab as nat, none);
            lemma_field_at_front(2, WIRE_VARINT as nat, varint(tab as nat), none);
            assert(merge_action(none, action) == Some(action));
        },
        Some(Parameter::SplitDirection(direction)) => {
            lemma_signed_round_trip(direction);
            law_varint_round_trip(signed_number(direction), none);
            lemma_field_at_front(3, WIRE_VARINT as nat, varint(signed_number(direction)), none);
            assert(merge_action(none, action) == Some(action));
        },
        Some(Parameter::PaneDirection(direction)) => {
            lemma_signed_round_trip(direction);
            law_varint_round_trip(signed_number(direction), none);
            lemma_field_at_front(4, WIRE_VARINT as nat, varint(signed_number(direction)), none);
            assert(merge_action(none, action) == Some(action));
        },
    }
}

proof fn lemma_response_number(response: ResponseView, field: nat, number: u32, rest: Seq<u8>)
    requires
        field == 1 || field == 2,
        field == 1 ==> response.abi_major == 0,
        field == 2 ==> response.abi_minor == 0,
    ensures
        merge_response(number_field(field, number as nat) + rest, response) == merge_response(
            rest,
            if field == 1 {
                ResponseView { abi_major: number, ..response }
            } else {
                ResponseView { abi_minor: number, ..response }
            },
        ),
{
    if number == 0 {
        assert(number_field(field, 0) + rest =~= rest);
    } else {
        law_varint_round_trip(number as nat, rest);
        lemma_field_at_front(field, WIRE_VARINT as nat, varint(number as nat), rest);
    }
}

/// Every text and every action of a response is short enough to carry a length.
pub open spec fn response_fits(response: ResponseView) -> bool {
    &&& forall|i: int|
        0 <= i < response.actions.len() ==> encode_utf8((#[trigger] response.actions[i]).id).len()
            <= u64::MAX && action_payload(response.actions[i]).len() <= u64::MAX
    &&& forall|i: int|
        0 <= i < response.diagnostics.len() ==> encode_utf8(
            #[trigger] response.diagnostics[i],
        ).len() <= u64::MAX
}

proof fn lemma_actions_round_trip(
    response: ResponseView,
    actions: Seq<ActionView>,
    rest: Seq<u8>,
)
    requires
        forall|i: int|
            0 <= i < actions.len() ==> encode_utf8((#[trigger] actions[i]).id).len() <= u64::MAX
                && action_payload(actions[i]).len() <= u64::MAX,
    ensures
        merge_response(actions_payload(actions) + rest, response) == merge_response(
            rest,
            ResponseView { actions: response.actions + actions, ..response },
        ),
    decreases actions.len(),
{
    if actions.len() == 0 {
        assert(actions_payload(actions) + rest =~= rest);
        assert(response.actions + actions =~= response.actions);
    } else {
        let head = actions.drop_last();
        let last = actions.last();
        let payload = action_payload(last);
        let tail = payload_field(3, payload) + rest;
        assert forall|i: int| 0 <= i < head.len() implies encode_utf8((#[trigger] head[i]).id).len()
            <= u64::MAX && action_payload(head[i]).len() <= u64::MAX by {
            assert(head[i] == actions[i]);
        }
        assert(actions[actions.len() - 1] == last);
        lemma_actions_round_trip(response, head, tail);
        assert(actions_payload(actions) + rest =~= actions_payload(head) + tail);
        lemma_action_payload_round_trip(last);
        law_payload_round_trip(payload, rest);
        lemma_field_at_front(3, WIRE_BYTES as nat, delimited(payload), rest);
        assert((response.actions + head).push(last) =~= response.actions + actions);
    }
}

proof fn lemma_diagnostics_round_trip(
    response: ResponseView,
    diagnostics: Seq<Seq<char>>,
    rest: Seq<u8>,
)
    requires
        forall|i: int|
            0 <= i < diagnostics.len() ==> encode_utf8(#[trigger] diagnostics[i]).len()
                <= u64::MAX,
    ensures
        merge_response(diagnostics_payload(diagnostics) + rest, response) == merge_response(
            rest,
            ResponseView { diagnostics: response.diagnostics + diagnostics, ..response },
        ),
    decreases diagnostics.len(),
{
    if diagnostics.len() == 0 {
        assert(diagnostics_payload(diagnostics) + rest =~= rest);
        assert(response.diagnostics + diagnostics =~= response.diagnostics);
    } else {
        let head = diagnostics.drop_last();
        let last = diagnostics.last();
        let payload = encode_utf8(last);
        let tail = payload_field(4, payload) + rest;
        assert forall|i: int| 0 <= i < head.len() implies encode_utf8(#[trigger] head[i]).len()
            <= u64::MAX by {
            assert(head[i] == diagnostics[i]);
        }
        assert(diagnostics[diagnostics.len() - 1] == last);
        lemma_diagnostics_round_trip(response, head, tail);
        assert(diagnostics_payload(diagnostics) + rest =~= diagnostics_payload(head) + tail);
        lemma_text_round_trip(last, rest);
        lemma_field_at_front(4, WIRE_BYTES as nat, delimited(payload), rest);
        assert((response.diagnostics + head).push(last) =~= response.diagnostics + diagnostics);
    }
}

/// A response reads back from its payload.
pub proof fn law_response_payload_round_trip(response: ResponseView)
    requires
        response_fits(response),
    ensures
        read_response(response_payload(response)) == Some(response),
{
    let none = Seq::<u8>::empty();
    let diagnostics = diagnostics_payload(response.diagnostics);
    let actions = actions_payload(response.actions);
    let minor = number_field(2, response.abi_minor as nat);
    let major = number_field(1, response.abi_major as nat);
    let first = ResponseView { abi_major: response.abi_major, ..empty_response() };
    let second = ResponseView { abi_minor: response.abi_minor, ..first };
    let third = ResponseView { actions: response.actions, ..second };
    assert(response_payload(response) =~= major + (minor + (actions + diagnostics)));
    lemma_response_number(
        empty_response(),
        1,
        response.abi_major,
        minor + (actions + diagnostics),
    );
    lemma_response_number(first, 2, response.abi_minor, actions + diagnostics);
    lemma_actions_round_trip(second, response.actions, diagnostics);
    assert(second.actions + response.actions =~= response.actions);
    lemma_diagnostics_round_trip(third, response.diagnostics, none);
    assert(diagnostics + none =~= diagnostics);
    assert(third.diagnostics + response.diagnostics =~= response.diagnostics);
}

/// A number under an unknown field is passed over wherever it stands, so that
/// later versions may add fields.
pub proof fn law_unknown_number_is_ignored(
    request: RequestView,
    response: ResponseView,
    field: nat,
    number: nat,
    rest: Seq<u8>,
)
    requires
        field < 0x20000000,
        number <= u64::MAX,
    ensures
        field >= 4 ==> merge_request(set_number_field(field, number) + rest, request)
            == merge_request(rest, request),
        field >= 5 ==> merge_response(set_number_field(field, number) + rest, response)
            == merge_response(rest, response),
{
    if field >= 4 {
        law_varint_round_trip(number, rest);
        lemma_field_at_front(field, WIRE_VARINT as nat, varint(number), rest);
    }
}

fn put_key(target: &mut Vec<u8>, field: u32, wire: u8)
    requires
        field <= 4,
        wire <= 5,
    ensures
        final(target)@ == old(target)@ + key(field as nat, wire as nat),
{
    put_varint((field * 8 + wire as u32) as u64, target);
}

fn put_set_number(target: &mut Vec<u8>, field: u32, number: u64)
    requires
        field <= 4,
    ensures
        final(target)@ == old(target)@ + set_number_field(field as nat, number as nat),
{
    let ghost before = target@;
    put_key(target, field, WIRE_VARINT);
    put_varint(number, target);
    proof {
        assert(target@ =~= before + set_number_field(field as nat, number as nat));
    }
}

fn put_number(target: &mut Vec<u8>, field: u32, number: u32)
    requires
        field <= 4,
    ensures
        final(target)@ == old(target)@ + number_field(field as nat, number as nat),
{
    if number != 0 {
        put_set_number(target, field, number as u64);
    } else {
        proof {
            assert(target@ =~= old(target)@ + number_field(field as nat, 0));
        }
    }
}

fn put_payload(target: &mut Vec<u8>, field: u32, payload: &[u8])
    requires
        field <= 4,
    ensures
        final(target)@ == old(target)@ + payload_field(field as nat, payload@),
{
    let ghost before = target@;
    put_key(target, field, WIRE_BYTES);
    put_varint(payload.len() as u64, target);
    target.extend_from_slice(payload);
    proof {
        assert(target@ =~= before + payload_field(field as nat, payload@));
    }
}

fn put_text(target: &mut Vec<u8>, field: u32, text: &str)
    requires
        field <= 4,
    ensures
        final(target)@ == old(target)@ + text_field(field as nat, text@),
{
    if !text.is_empty() {
        put_payload(target, field, text.as_bytes());
    } else {
        proof {
            assert(target@ =~= old(target)@ + text_field(field as nat, text@));
        }
    }
}

/// The fields of a request.
pub fn encode_request(request: &PluginRequest) -> (payload: Vec<u8>)
    ensures
        payload@ == request_payload(request@),
{
    let mut payload: Vec<u8> = Vec::new();
    put_number(&mut payload, 1, request.abi_major);
    put_number(&mut payload, 2, request.abi_minor);
    put_text(&mut payload, 3, request.command_id.as_str());
    proof {
        assert(payload@ =~= request_payload(request@));
    }
    payload
}

fn encode_action(action: &ActionInvocation) -> (payload: Vec<u8>)
    ensures
        payload@ == action_payload(action@),
{
    let mut payload: Vec<u8> = Vec::new();
    put_text(&mut payload, 1, action.id.as_str());
    match action.parameter {
        None => {},
        Some(Parameter::Tab(tab)) => put_set_number(&mut payload, 2, tab as u64),
        Some(Parameter::SplitDirection(direction)) => put_set_number(
            &mut payload,
            3,
            signed_number_of(direction),
        ),
        Some(Parameter::PaneDirection(direction)) => put_set_number(
            &mut payload,
            4,
            signed_number_of(direction),
        ),
    }
    proof {
        assert(payload@ =~= action_payload(action@));
    }
    payload
}

/// The fields of a response.
pub fn encode_response(response: &PluginResponse) -> (payload: Vec<u8>)
    ensures
        payload@ == response_payload(response@),
{
    let mut payload: Vec<u8> = Vec::new();
    put_number(&mut payload, 1, response.abi_major);
    put_number(&mut payload, 2, response.abi_minor);
    let ghost head = payload@;
    let ghost actions = response@.actions;
    let mut index: usize = 0;
    proof {
        assert(head + actions_payload(actions.take(0)) =~= head);
    }
    while index < response.actions.len()
        invariant
            index <= response.actions@.len(),
            actions == response@.actions,
            payload@ == head + actions_payload(actions.take(index as int)),
        decreases response.actions@.len() - index,
    {
        let nested = encode_action(&response.actions[index]);
        let ghost before = payload@;
        put_payload(&mut payload, 3, nested.as_slice());
        proof {
            assert(actions.take(index + 1).drop_last() =~= actions.take(index as int));
            assert(actions.take(index + 1).last() == response.actions@[index as int]@);
            assert(payload@ =~= head + actions_payload(actions.take(index + 1)));
        }
        index += 1;
    }
    let ghost middle = payload@;
    let ghost diagnostics = response@.diagnostics;
    let mut next: usize = 0;
    proof {
        assert(actions.take(actions.len() as int) =~= actions);
        assert(middle + diagnostics_payload(diagnostics.take(0)) =~= middle);
    }
    while next < response.diagnostics.len()
        invariant
            next <= response.diagnostics@.len(),
            diagnostics == response@.diagnostics,
            payload@ == middle + diagnostics_payload(diagnostics.take(next as int)),
        decreases response.diagnostics@.len() - next,
    {
        put_payload(&mut payload, 4, response.diagnostics[next].as_str().as_bytes());
        proof {
            assert(diagnostics.take(next + 1).drop_last() =~= diagnostics.take(next as int));
            assert(diagnostics.take(next + 1).last() == response.diagnostics@[next as int]@);
            assert(payload@ =~= middle + diagnostics_payload(diagnostics.take(next + 1)));
        }
        next += 1;
    }
    proof {
        assert(diagnostics.take(diagnostics.len() as int) =~= diagnostics);
        assert(payload@ =~= response_payload(response@));
    }
    payload
}

fn take_text(bytes: &[u8]) -> (result: Option<(String, &[u8])>)
    ensures
        match result {
            Some((text, rest)) => {
                &&& text_prefix(bytes@) matches Some((t, length))
                &&& t == text@
                &&& 1 <= length <= bytes@.len()
                &&& rest@ == bytes@.skip(length as int)
            },
            None => text_prefix(bytes@) is None,
        },
{
    match take_payload(bytes) {
        Some((payload, rest)) => match utf8_text(payload) {
            Some(text) => {
                proof {
                    encode_utf8_decode_utf8(text@);
                }
                Some((text.to_owned(), rest))
            },
            None => None,
        },
        None => None,
    }
}

/// A group inside another one is read exactly where it may be nested one less deep.
proof fn lemma_nested_group(field: nat, bytes: Seq<u8>, length: nat, tail: Seq<u8>, depth: nat)
    requires
        1 <= field < 0x20000000,
        1 <= depth < GROUP_DEPTH,
        value_length(field, WIRE_GROUP as nat, bytes, GROUP_DEPTH as nat) == Some(length),
    ensures
        ({
            let head = key(field, WIRE_GROUP as nat);
            let end = key(1, WIRE_GROUP_END as nat);
            let nested = head + bytes.take(length as int) + end + tail;
            group_length(1, nested, depth + 1) == (if value_length(
                field,
                WIRE_GROUP as nat,
                bytes,
                depth,
            ) is Some {
                Some(head.len() + length + end.len())
            } else {
                None
            })
        }),
        value_length(field, WIRE_GROUP as nat, bytes, depth) matches Some(own) ==> own == length,
{
    let wire = WIRE_GROUP as nat;
    let head = key(field, wire);
    let end = key(1, WIRE_GROUP_END as nat);
    let value = bytes.take(length as int);
    let body = value + end + tail;
    let nested = head + value + end + tail;
    lemma_value_length(field, wire, bytes, GROUP_DEPTH as nat);
    assert(nested =~= head + body);
    lemma_key_round_trip(field, wire, body);
    assert(nested.skip(head.len() as int) =~= body);
    assert(nested.skip((head.len() + length) as int) =~= end + tail);
    lemma_key_round_trip(1, WIRE_GROUP_END as nat, tail);
    assert(group_length(1, end + tail, depth + 1) == Some(end.len()));
    lemma_value_agrees(field, wire, bytes, body, GROUP_DEPTH as nat, GROUP_DEPTH as nat);
    if let Some(own) = value_length(field, wire, body, depth) {
        lemma_value_length(field, wire, body, depth);
        lemma_value_agrees(field, wire, body, body, depth, GROUP_DEPTH as nat);
        lemma_value_agrees(field, wire, body, bytes, depth, depth);
    } else if let Some(own) = value_length(field, wire, bytes, depth) {
        lemma_value_length(field, wire, bytes, depth);
        lemma_value_agrees(field, wire, bytes, bytes, depth, GROUP_DEPTH as nat);
        lemma_value_agrees(field, wire, bytes, body, depth, depth);
    }
    assert(key_prefix(nested) == Some((field, wire, head.len())));
    assert(value_length(field, wire, body, depth) == value_length(field, wire, bytes, depth));
}

/// Passes over the value of an unknown field. A group is read once more inside as many
/// groups as the message is nested deep, which is refused where it is nested too deeply.
fn skip_unknown(field: u32, wire: u8, bytes: &[u8], levels: u8) -> (result: Option<&[u8]>)
    requires
        1 <= field < 0x20000000,
        wire <= 5,
        levels == 1 || levels == 2,
    ensures
        match result {
            Some(rest) => {
                &&& unknown_length(field as nat, wire as nat, bytes@, levels as nat) matches Some(
                    length,
                )
                &&& length <= bytes@.len()
                &&& rest@ == bytes@.skip(length as int)
            },
            None => unknown_length(field as nat, wire as nat, bytes@, levels as nat) is None,
        },
{
    let ghost depth = (GROUP_DEPTH - levels) as nat;
    let rest = match skip_value(field, wire, bytes) {
        Some(rest) => rest,
        None => {
            proof {
                if unknown_length(field as nat, wire as nat, bytes@, levels as nat) is Some {
                    lemma_value_length(field as nat, wire as nat, bytes@, depth);
                    lemma_value_agrees(
                        field as nat,
                        wire as nat,
                        bytes@,
                        bytes@,
                        depth,
                        GROUP_DEPTH as nat,
                    );
                }
            }
            return None;
        },
    };
    if wire != WIRE_GROUP {
        return Some(rest);
    }
    let ghost length = value_length(
        field as nat,
        wire as nat,
        bytes@,
        GROUP_DEPTH as nat,
    )->Some_0;
    let taken: usize = bytes.len() - rest.len();
    let (value, _) = bytes.split_at(taken);
    let ghost end = key(1, WIRE_GROUP_END as nat);
    let ghost head = key(field as nat, WIRE_GROUP as nat);
    proof {
        assert(value@ =~= bytes@.take(length as int));
    }
    let mut nested: Vec<u8> = Vec::new();
    if levels == 2 {
        put_key(&mut nested, 1, WIRE_GROUP);
    }
    put_varint(field as u64 * 8 + wire as u64, &mut nested);
    nested.extend_from_slice(value);
    put_key(&mut nested, 1, WIRE_GROUP_END);
    if levels == 2 {
        put_key(&mut nested, 1, WIRE_GROUP_END);
    }
    proof {
        if levels == 1 {
            let tail = Seq::<u8>::empty();
            lemma_nested_group(field as nat, bytes@, length, tail, depth);
            assert(nested@ =~= head + bytes@.take(length as int) + end + tail);
            assert(value_length(1, WIRE_GROUP as nat, nested@, GROUP_DEPTH as nat) == group_length(
                1,
                nested@,
                depth + 1,
            ));
        } else {
            let inner = head + bytes@.take(length as int) + end + end;
            let opening = key(1, WIRE_GROUP as nat);
            lemma_nested_group(field as nat, bytes@, length, end, depth);
            assert(nested@ =~= opening + inner);
            lemma_key_round_trip(1, WIRE_GROUP as nat, inner);
            assert(nested@.skip(opening.len() as int) =~= inner);
            assert(value_length(1, WIRE_GROUP as nat, inner, depth + 1) == group_length(
                1,
                inner,
                depth + 1,
            ));
            assert(value_length(1, WIRE_GROUP as nat, nested@, GROUP_DEPTH as nat) == group_length(
                1,
                nested@,
                depth + 2,
            ));
            if value_length(field as nat, wire as nat, bytes@, depth) is Some {
                let used = head.len() + length + end.len();
                assert(nested@.skip((opening.len() + used) as int) =~= end + Seq::<u8>::empty());
                lemma_key_round_trip(1, WIRE_GROUP_END as nat, Seq::empty());
                assert(group_length(1, end + Seq::<u8>::empty(), depth + 2) == Some(end.len()));
            }
        }
    }
    match skip_value(1, WIRE_GROUP, nested.as_slice()) {
        Some(_) => Some(rest),
        None => None,
    }
}

/// The request that a payload holds, if its fields are well formed.
pub fn decode_request(payload: &[u8]) -> (result: Option<PluginRequest>)
    ensures
        match result {
            Some(request) => read_request(payload@) == Some(request@),
            None => read_request(payload@) is None,
        },
{
    let mut request = PluginRequest { abi_major: 0, abi_minor: 0, command_id: String::new() };
    let mut rest: &[u8] = payload;
    while rest.len() > 0
        invariant
            read_request(payload@) == merge_request(rest@, request@),
        decreases rest@.len(),
    {
        let (field, wire, body) = match take_key(rest) {
            Some(key) => key,
            None => return None,
        };
        let ghost before = rest@;
        if field == 1 || field == 2 {
            match take_varint(body) {
                Some((number, after)) => {
                    if wire != WIRE_VARINT {
                        return None;
                    }
                    if field == 1 {
                        request.abi_major = low_unsigned_of(number);
                    } else {
                        request.abi_minor = low_unsigned_of(number);
                    }
                    rest = after;
                },
                None => return None,
            }
        } else if field == 3 {
            match take_text(body) {
                Some((text, after)) => {
                    if wire != WIRE_BYTES {
                        return None;
                    }
                    request.command_id = text;
                    rest = after;
                },
                None => return None,
            }
        } else {
            match skip_unknown(field, wire, body, 1) {
                Some(after) => {
                    rest = after;
                },
                None => return None,
            }
        }
        proof {
            let length = key_prefix(before)->Some_0.2;
            let used = (before.len() - length - rest@.len()) as nat;
            assert(before.skip((length + used) as int) =~= rest@);
        }
    }
    Some(request)
}

fn decode_action(payload: &[u8]) -> (result: Option<ActionInvocation>)
    ensures
        match result {
            Some(action) => merge_action(payload@, empty_action()) == Some(action@),
            None => merge_action(payload@, empty_action()) is None,
        },
{
    let mut action = ActionInvocation { id: String::new(), parameter: None };
    let mut rest: &[u8] = payload;
    while rest.len() > 0
        invariant
            merge_action(payload@, empty_action()) == merge_action(rest@, action@),
        decreases rest@.len(),
    {
        let (field, wire, body) = match take_key(rest) {
            Some(key) => key,
            None => return None,
        };
        let ghost before = rest@;
        if field == 1 {
            match take_text(body) {
                Some((text, after)) => {
                    if wire != WIRE_BYTES {
                        return None;
                    }
                    action.id = text;
                    rest = after;
                },
                None => return None,
            }
        } else if field == 2 || field == 3 || field == 4 {
            match take_varint(body) {
                Some((number, after)) => {
                    if wire != WIRE_VARINT {
                        return None;
                    }
                    let parameter = if field == 2 {
                        Parameter::Tab(low_unsigned_of(number))
                    } else if field == 3 {
                        Parameter::SplitDirection(low_signed_of(number))
                    } else {
                        Parameter::PaneDirection(low_signed_of(number))
                    };
                    action.parameter = Some(parameter);
                    rest = after;
                },
                None => return None,
            }
        } else {
            match skip_unknown(field, wire, body, 2) {
                Some(after) => {
                    rest = after;
                },
                None => return None,
            }
        }
        proof {
            let length = key_prefix(before)->Some_0.2;
            let used = (before.len() - length - rest@.len()) as nat;
            assert(before.skip((length + used) as int) =~= rest@);
        }
    }
    Some(action)
}

/// The response that a payload holds, if its fields are well formed.
pub fn decode_response(payload: &[u8]) -> (result: Option<PluginResponse>)
    ensures
        match result {
            Some(response) => read_response(payload@) == Some(response@),
            None => read_response(payload@) is None,
        },
{
    let mut response = PluginResponse {
        abi_major: 0,
        abi_minor: 0,
        actions: Vec::new(),
        diagnostics: Vec::new(),
    };
    let mut rest: &[u8] = payload;
    proof {
        assert(response@.actions =~= empty_response().actions);
        assert(response@.diagnostics =~= empty_response().diagnostics);
    }
    while rest.len() > 0
        invariant
            read_response(payload@) == merge_response(rest@, response@),
        decreases rest@.len(),
    {
        let (field, wire, body) = match take_key(rest) {
            Some(key) => key,
            None => return None,
        };
        let ghost before = rest@;
        let ghost old_response = response@;
        if field == 1 || field == 2 {
            match take_varint(body) {
                Some((number, after)) => {
                    if wire != WIRE_VARINT {
                        return None;
                    }
                    if field == 1 {
                        response.abi_major = low_unsigned_of(number);
                    } else {
                        response.abi_minor = low_unsigned_of(number);
                    }
                    rest = after;
                },
                None => return None,
            }
        } else if field == 3 {
            match take_payload(body) {
                Some((nested, after)) => match decode_action(nested) {
                    Some(action) => {
                        if wire != WIRE_BYTES {
                            return None;
                        }
                        response.actions.push(action);
                        proof {
                            assert(response@.actions =~= old_response.actions.push(action@));
                        }
                        rest = after;
                    },
                    None => return None,
                },
                None => return None,
            }
        } else if field == 4 {
            match take_text(body) {
                Some((text, after)) => {
                    if wire != WIRE_BYTES {
                        return None;
                    }
                    response.diagnostics.push(text);
                    proof {
                        assert(response@.diagnostics =~= old_response.diagnostics.push(text@));
                    }
                    rest = after;
                },
                None => return None,
            }
        } else {
            match skip_unknown(field, wire, body, 1) {
                Some(after) => {
                    rest = after;
                },
                None => return None,
            }
        }
        proof {
            let length = key_prefix(before)->Some_0.2;
            let used = (before.len() - length - rest@.len()) as nat;
            assert(before.skip((length + used) as int) =~= rest@);
        }
    }
    Some(response)
}

/// A field is written behind its number and its kind in one byte: eight times the number,
/// and two where its length follows.
pub proof fn law_fields_have_their_keys(field: nat, number: nat, payload: Seq<u8>)
    requires
        1 <= field <= 4,
    ensures
        set_number_field(field, number) == seq![(8 * field) as u8] + varint(number),
        payload_field(field, payload) == seq![(8 * field + 2) as u8] + delimited(payload),
{
    assert(field * 8 + WIRE_VARINT as nat == 8 * field);
    assert(field * 8 + WIRE_BYTES as nat == 8 * field + 2);
    assert(key(field, WIRE_VARINT as nat) =~= seq![(8 * field) as u8]);
    assert(key(field, WIRE_BYTES as nat) =~= seq![(8 * field + 2) as u8]);
}

/// A request is written as the protocol has it: the major version in the first field, the
/// minor one in the second and the command in the third, each left out where it is empty.
pub proof fn law_requests_are_written_field_by_field(request: RequestView)
    ensures
        ({
            let major = if request.abi_major == 0 {
                Seq::<u8>::empty()
            } else {
                seq![0x08u8] + varint(request.abi_major as nat)
            };
            let minor = if request.abi_minor == 0 {
                Seq::<u8>::empty()
            } else {
                seq![0x10u8] + varint(request.abi_minor as nat)
            };
            let command = if request.command_id.len() == 0 {
                Seq::<u8>::empty()
            } else {
                seq![0x1au8] + delimited(encode_utf8(request.command_id))
            };
            request_payload(request) == major + minor + command
        }),
{
    law_fields_have_their_keys(1, request.abi_major as nat, Seq::empty());
    law_fields_have_their_keys(2, request.abi_minor as nat, Seq::empty());
    law_fields_have_their_keys(3, 0, encode_utf8(request.command_id));
}

/// An action is written as the protocol has it: its name in the first field, and its
/// parameter in the second for a tab, the third for a split and the fourth for a pane; a
/// parameter is written even where it is zero.
pub proof fn law_actions_are_written_field_by_field(id: Seq<char>, tab: u32, direction: i32)
    ensures
        ({
            let name = if id.len() == 0 {
                Seq::<u8>::empty()
            } else {
                seq![0x0au8] + delimited(encode_utf8(id))
            };
            &&& action_payload(ActionView { id, parameter: None }) == name
            &&& action_payload(ActionView { id, parameter: Some(Parameter::Tab(tab)) }) == name
                + seq![0x10u8] + varint(tab as nat)
            &&& action_payload(
                ActionView { id, parameter: Some(Parameter::SplitDirection(direction)) },
            ) == name + seq![0x18u8] + varint(signed_number(direction))
            &&& action_payload(
                ActionView { id, parameter: Some(Parameter::PaneDirection(direction)) },
            ) == name + seq![0x20u8] + varint(signed_number(direction))
        }),
{
    law_fields_have_their_keys(1, 0, encode_utf8(id));
    law_fields_have_their_keys(2, tab as nat, Seq::empty());
    law_fields_have_their_keys(3, signed_number(direction), Seq::empty());
    law_fields_have_their_keys(4, signed_number(direction), Seq::empty());
    let name = text_field(1, id);
    assert(name + Seq::<u8>::empty() =~= name);
    assert(name + (seq![0x10u8] + varint(tab as nat)) =~= name + seq![0x10u8] + varint(tab as nat));
    assert(name + (seq![0x18u8] + varint(signed_number(direction))) =~= name + seq![0x18u8]
        + varint(signed_number(direction)));
    assert(name + (seq![0x20u8] + varint(signed_number(direction))) =~= name + seq![0x20u8]
        + varint(signed_number(direction)));
}

/// A response is written as the protocol has it: the versions as in a request, then each
/// action in the third field and each diagnostic in the fourth, in their order.
pub proof fn law_responses_are_written_field_by_field(
    response: ResponseView,
    action: ActionView,
    diagnostic: Seq<char>,
)
    ensures
        ({
            let major = if response.abi_major == 0 {
                Seq::<u8>::empty()
            } else {
                seq![0x08u8] + varint(response.abi_major as nat)
            };
            let minor = if response.abi_minor == 0 {
                Seq::<u8>::empty()
            } else {
                seq![0x10u8] + varint(response.abi_minor as nat)
            };
            response_payload(response) == major + minor + actions_payload(response.actions)
                + diagnostics_payload(response.diagnostics)
        }),
        actions_payload(Seq::empty()).len() == 0,
        diagnostics_payload(Seq::empty()).len() == 0,
        actions_payload(response.actions.push(action)) == actions_payload(response.actions)
            + seq![0x1au8] + delimited(action_payload(action)),
        diagnostics_payload(response.diagnostics.push(diagnostic)) == diagnostics_payload(
            response.diagnostics,
        ) + seq![0x22u8] + delimited(encode_utf8(diagnostic)),
{
    law_fields_have_their_keys(1, response.abi_major as nat, Seq::empty());
    law_fields_have_their_keys(2, response.abi_minor as nat, Seq::empty());
    law_fields_have_their_keys(3, 0, action_payload(action));
    law_fields_have_their_keys(4, 0, encode_utf8(diagnostic));
    assert(response.actions.push(action).drop_last() =~= response.actions);
    assert(response.diagnostics.push(diagnostic).drop_last() =~= response.diagnostics);
    assert(actions_payload(response.actions.push(action)) =~= actions_payload(response.actions)
        + seq![0x1au8] + delimited(action_payload(action)));
    assert(diagnostics_payload(response.diagnostics.push(diagnostic)) =~= diagnostics_payload(
        response.diagnostics,
    ) + seq![0x22u8] + delimited(encode_utf8(diagnostic)));
}

/// A field that comes again replaces what it said before, and leaves the others.
pub proof fn law_later_fields_replace_earlier_ones(request: RequestView, number: u32, rest: Seq<u8>)
    requires
        number > 0,
    ensures
        merge_request(seq![0x08u8] + varint(number as nat) + rest, request) == merge_request(
            rest,
            RequestView { abi_major: number, ..request },
        ),
        merge_request(seq![0x10u8] + varint(number as nat) + rest, request) == merge_request(
            rest,
            RequestView { abi_minor: number, ..request },
        ),
        merge_request(Seq::empty(), request) == Some(request),
{
    law_fields_have_their_keys(1, number as nat, Seq::empty());
    law_fields_have_their_keys(2, number as nat, Seq::empty());
    law_varint_round_trip(number as nat, rest);
    lemma_field_at_front(1, WIRE_VARINT as nat, varint(number as nat), rest);
    lemma_field_at_front(2, WIRE_VARINT as nat, varint(number as nat), rest);
}

} // verus!
