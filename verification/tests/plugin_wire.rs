use cterm::plugin::codec::encode_request;
use cterm::plugin::manifest::{ABI_MAJOR, ABI_MINOR};
use cterm::plugin::proto::{
    ActionInvocation, PaneDirection, Parameter, PluginRequest, PluginResponse, SplitDirection,
};
use cterm::plugin::wire::{
    decode_request_frame, decode_response_frame, encode_request_frame, encode_response_frame,
    validate_request, validate_response, FramePart, WireError, MAX_ACTIONS, MAX_DIAGNOSTICS,
    MAX_DIAGNOSTIC_BYTES, MAX_FRAME_BYTES,
};

fn request() -> PluginRequest {
    PluginRequest {
        abi_major: ABI_MAJOR,
        abi_minor: ABI_MINOR,
        command_id: "run".to_string(),
    }
}

fn response() -> PluginResponse {
    PluginResponse {
        abi_major: ABI_MAJOR,
        abi_minor: ABI_MINOR,
        actions: vec![
            ActionInvocation {
                id: "cterm:new-tab".to_string(),
                parameter: Some(Parameter::Tab(7)),
            },
            ActionInvocation {
                id: "cterm:split-pane".to_string(),
                parameter: Some(Parameter::SplitDirection(SplitDirection::Vertical.number())),
            },
            ActionInvocation {
                id: "cterm:focus-pane".to_string(),
                parameter: Some(Parameter::PaneDirection(PaneDirection::Left.number())),
            },
        ],
        diagnostics: vec!["done".to_string()],
    }
}

#[test]
fn request_has_stable_golden_bytes() {
    let bytes = encode_request_frame(&request()).unwrap();
    assert_eq!(bytes, [7, 8, 1, 26, 3, b'r', b'u', b'n']);
    assert_eq!(decode_request_frame(&bytes).unwrap(), request());
}

#[test]
fn action_parameters_round_trip_without_rust_enum_layout() {
    let expected = response();
    let bytes = encode_response_frame(&expected).unwrap();
    assert_eq!(decode_response_frame(&bytes).unwrap(), expected);
}

#[test]
fn unsupported_versions_and_invalid_identifiers_fail_closed() {
    let mut invalid_request = request();
    invalid_request.abi_minor = ABI_MINOR + 1;
    assert!(matches!(
        validate_request(&invalid_request),
        Err(WireError::UnsupportedAbi { .. })
    ));
    invalid_request = request();
    invalid_request.command_id = "../run".to_string();
    assert!(matches!(
        validate_request(&invalid_request),
        Err(WireError::InvalidCommandId(_))
    ));

    let mut invalid_response = response();
    invalid_response.actions[0].id = "plugin:other/run".to_string();
    assert!(matches!(
        validate_response(&invalid_response),
        Err(WireError::InvalidActionId(_))
    ));
}

#[test]
fn invalid_action_parameters_never_truncate_or_default() {
    let mut invalid = response();
    invalid.actions[0].parameter = Some(Parameter::Tab(u32::from(u8::MAX) + 1));
    assert!(matches!(
        validate_response(&invalid),
        Err(WireError::TabOutOfRange(256))
    ));

    invalid = response();
    invalid.actions[1].parameter = Some(Parameter::SplitDirection(
        SplitDirection::Unspecified.number(),
    ));
    assert!(matches!(
        validate_response(&invalid),
        Err(WireError::UnspecifiedEnum("split direction"))
    ));

    invalid = response();
    invalid.actions[2].parameter = Some(Parameter::PaneDirection(99));
    assert!(matches!(
        validate_response(&invalid),
        Err(WireError::InvalidEnum("pane direction", 99))
    ));
}

#[test]
fn output_counts_sizes_and_controls_are_bounded() {
    let mut invalid = response();
    invalid.actions = Vec::new();
    for _ in 0..MAX_ACTIONS + 1 {
        invalid.actions.push(ActionInvocation {
            id: "cterm:new-tab".to_string(),
            parameter: Some(Parameter::Tab(7)),
        });
    }
    assert!(matches!(
        validate_response(&invalid),
        Err(WireError::TooManyActions { .. })
    ));

    invalid = response();
    invalid.diagnostics = vec![String::new(); MAX_DIAGNOSTICS + 1];
    assert!(matches!(
        validate_response(&invalid),
        Err(WireError::TooManyDiagnostics { .. })
    ));

    invalid = response();
    invalid.diagnostics = vec!["x".repeat(MAX_DIAGNOSTIC_BYTES + 1)];
    assert!(matches!(
        validate_response(&invalid),
        Err(WireError::DiagnosticTooLarge { .. })
    ));

    invalid = response();
    invalid.diagnostics = vec!["bad\0text".to_string()];
    assert!(matches!(
        validate_response(&invalid),
        Err(WireError::InvalidDiagnostic)
    ));
}

#[test]
fn malformed_oversized_and_multi_frame_input_is_rejected() {
    assert!(matches!(
        decode_request_frame(&vec![0; MAX_FRAME_BYTES + 1]),
        Err(WireError::FrameTooLarge { .. })
    ));
    assert!(matches!(
        decode_request_frame(&[0x80]),
        Err(WireError::Decode(_))
    ));

    let mut two_frames = encode_request_frame(&request()).unwrap();
    two_frames.extend_from_slice(&encode_request_frame(&request()).unwrap());
    assert!(matches!(
        decode_request_frame(&two_frames),
        Err(WireError::TrailingBytes(_))
    ));
}

#[test]
fn protobuf_unknown_fields_remain_forward_compatible() {
    let mut payload = encode_request(&request());
    // Unknown field 99 with varint value 7.
    payload.extend_from_slice(&[0x98, 0x06, 0x07]);
    let mut frame = vec![u8::try_from(payload.len()).unwrap()];
    frame.extend_from_slice(&payload);

    let decoded = decode_request_frame(&frame).unwrap();
    assert_eq!(decoded, request());
}

#[test]
fn response_bytes_carry_every_field() {
    let bytes = encode_response_frame(&response()).unwrap();
    let mut expected: Vec<u8> = vec![8, 1];
    expected.extend_from_slice(&[26, 17, 10, 13]);
    expected.extend_from_slice(b"cterm:new-tab");
    expected.extend_from_slice(&[16, 7]);
    expected.extend_from_slice(&[26, 20, 10, 16]);
    expected.extend_from_slice(b"cterm:split-pane");
    expected.extend_from_slice(&[24, 2]);
    expected.extend_from_slice(&[26, 20, 10, 16]);
    expected.extend_from_slice(b"cterm:focus-pane");
    expected.extend_from_slice(&[32, 1]);
    expected.extend_from_slice(&[34, 4]);
    expected.extend_from_slice(b"done");
    let mut frame = vec![u8::try_from(expected.len()).unwrap()];
    frame.extend_from_slice(&expected);
    assert_eq!(bytes, frame);
}

fn framed(payload: &[u8]) -> Vec<u8> {
    let mut frame = vec![u8::try_from(payload.len()).unwrap()];
    frame.extend_from_slice(payload);
    frame
}

#[test]
fn unknown_groups_and_fixed_fields_are_passed_over() {
    let mut payload = encode_request(&request());
    // Field 5, four raw bytes; field 6, eight raw bytes.
    payload.extend_from_slice(&[45, 1, 2, 3, 4]);
    payload.extend_from_slice(&[49, 1, 2, 3, 4, 5, 6, 7, 8]);
    // Field 7, a group that holds field 1 as a number.
    payload.extend_from_slice(&[59, 8, 9, 60]);
    assert_eq!(decode_request_frame(&framed(&payload)).unwrap(), request());

    let mut unclosed = encode_request(&request());
    unclosed.extend_from_slice(&[59, 8, 9]);
    assert_eq!(
        decode_request_frame(&framed(&unclosed)),
        Err(WireError::Decode(FramePart::Fields))
    );
    let mut only_closed = encode_request(&request());
    only_closed.extend_from_slice(&[60]);
    assert_eq!(
        decode_request_frame(&framed(&only_closed)),
        Err(WireError::Decode(FramePart::Fields))
    );
}

#[test]
fn groups_may_nest_as_deep_as_the_message_leaves_room() {
    let nested = |depth: usize| {
        let mut payload = vec![8, 1, 26, 1, b'x'];
        payload.extend_from_slice(&vec![59; depth]);
        payload.extend_from_slice(&vec![60; depth]);
        let length = payload.len();
        let mut frame = if length < 128 {
            vec![u8::try_from(length).unwrap()]
        } else {
            vec![u8::try_from(length % 128 + 128).unwrap(), u8::try_from(length / 128).unwrap()]
        };
        frame.extend_from_slice(&payload);
        decode_request_frame(&frame)
    };
    assert!(nested(99).is_ok());
    assert_eq!(nested(100), Err(WireError::Decode(FramePart::Fields)));
}

#[test]
fn wrong_wire_types_bad_text_and_short_payloads_are_malformed() {
    for payload in [
        vec![10u8, 1, 1],
        vec![24, 1],
        vec![26, 1, 0xff],
        vec![26, 5, b'r'],
        vec![7, 1],
        vec![0, 1],
        vec![0x80],
    ] {
        assert_eq!(
            decode_request_frame(&framed(&payload)),
            Err(WireError::Decode(FramePart::Fields))
        );
    }
    assert_eq!(
        decode_request_frame(&[5, 8]),
        Err(WireError::Decode(FramePart::Length))
    );
    assert_eq!(
        decode_request_frame(&[]),
        Err(WireError::Decode(FramePart::Length))
    );
    assert_eq!(
        decode_request_frame(&[0xff, 0xff, 0xff, 0xff, 0xff, 0xff, 0xff, 0xff, 0xff, 2]),
        Err(WireError::Decode(FramePart::Length))
    );
}

#[test]
fn later_values_replace_earlier_ones() {
    let payload = [8u8, 9, 8, 1, 16, 3, 16, 0, 26, 1, b'x', 26, 3, b'r', b'u', b'n'];
    assert_eq!(decode_request_frame(&framed(&payload)).unwrap(), request());
}

#[test]
fn negative_directions_survive_the_wire_and_are_refused_by_number() {
    let mut payload = vec![8u8, 1];
    let mut action = vec![10u8, 9];
    action.extend_from_slice(b"cterm:tab");
    action.push(24);
    action.extend_from_slice(&[0xff, 0xff, 0xff, 0xff, 0xff, 0xff, 0xff, 0xff, 0xff, 1]);
    payload.push(26);
    payload.push(u8::try_from(action.len()).unwrap());
    payload.extend_from_slice(&action);
    assert_eq!(
        decode_response_frame(&framed(&payload)),
        Err(WireError::InvalidEnum("split direction", -1))
    );
}

#[test]
fn trailing_bytes_are_counted() {
    let mut frame = encode_request_frame(&request()).unwrap();
    frame.extend_from_slice(&[1, 2, 3]);
    assert_eq!(
        decode_request_frame(&frame),
        Err(WireError::TrailingBytes(3))
    );
}

#[test]
fn the_largest_valid_response_fits_a_frame() {
    let mut large = response();
    large.actions = Vec::new();
    for _ in 0..MAX_ACTIONS {
        large.actions.push(ActionInvocation {
            id: format!("cterm:{}", "x".repeat(96)),
            parameter: Some(Parameter::Tab(255)),
        });
    }
    large.diagnostics = vec!["x".repeat(MAX_DIAGNOSTIC_BYTES); MAX_DIAGNOSTICS];
    let frame = encode_response_frame(&large).unwrap();
    assert!(frame.len() <= MAX_FRAME_BYTES);
    assert_eq!(decode_response_frame(&frame).unwrap(), large);
    large.diagnostics.push(String::new());
    assert_eq!(
        encode_response_frame(&large),
        Err(WireError::TooManyDiagnostics {
            found: MAX_DIAGNOSTICS + 1,
            limit: MAX_DIAGNOSTICS,
        })
    );
}
