//! The activation of a connection, with PDUs as they come over the wire.
use std::borrow::Cow;

use ironrdp_core::{decode, encode_vec};
use ironrdp_pdu::gcc::{KeyboardType, Monitor, MonitorFlags};
use ironrdp_pdu::mcs::{McsMessage, SendDataIndication};
use ironrdp_pdu::rdp::autodetect::{
    AutoDetectReqPdu, AutoDetectRequest, AutoDetectResponse, AutoDetectRspPdu,
    RTT_REQUEST_CONTINUOUS,
};
use ironrdp_pdu::rdp::capability_sets as wire;
use ironrdp_pdu::rdp::client_info::CompressionType;
use ironrdp_pdu::rdp::finalization_messages::{MonitorLayoutPdu, SynchronizePdu};
use ironrdp_pdu::rdp::headers::{
    CompressionFlags, ServerDeactivateAll, ShareControlHeader, ShareControlPdu, ShareDataHeader,
    ShareDataPdu, StreamPriority,
};
use ironrdp_pdu::rdp::server_error_info::{
    ErrorInfo, ProtocolIndependentCode, ServerSetErrorInfoPdu,
};
use ironrdp_pdu::x224::X224;
use rdp_client_core::connector::capabilities::{
    create_client_confirm_active, negotiated_window_support_level, remote_app_rail_capability,
    requested_bitmap_color_depth, server_window_list, static_channel_chunk_size, BitmapConfig,
    CapabilitySet, Config, Rail, WindowList, WindowSupportLevel, ALLOW_LOSSY_COLOR,
    ALLOW_SKIP_ALPHA, ALL_INPUT_FLAGS, CHANNEL_CHUNK_LENGTH, CLIENT_EXTRA_FLAGS,
    CLIENT_ORDER_FLAGS, LARGE_POINTER_FLAGS, MAX_CHANNEL_CHUNK_LENGTH, RAIL_SUPPORTED,
    SERVER_CHANNEL_ID, SURFACE_COMMAND_FLAGS,
};
use rdp_client_core::connector::connection_activation::{
    probes_need_warning, ConnectionActivationFactory, ConnectionActivationSequence,
    ConnectionActivationState, DeclinedDefer, FinalizationStep, StepOutcome, DEFERRED_PDU_BUDGET,
};
use rdp_client_core::connector::{
    ConnectorError, ConnectorErrorKind, DesktopSize, NextPdu, Written,
};

const USER_CHANNEL_ID: u16 = 1002;
const IO_CHANNEL_ID: u16 = 1003;
const CLIPRDR_CHANNEL_ID: u16 = 1004;
const MESSAGE_CHANNEL_ID: u16 = 1005;
const SHARE_ID: u32 = 0x0001_03ea;

fn sample_config() -> Config {
    Config {
        desktop_size: DesktopSize { width: 1024, height: 768 },
        keyboard_type: KeyboardType::IBM_ENHANCED.0,
        keyboard_subtype: 0,
        keyboard_functional_keys_count: 12,
        ime_file_name: String::new(),
        bitmap: None,
        platform: wire::MajorPlatformType::UNIX,
        enable_server_pointer: false,
        pointer_software_rendering: false,
        remote_application_mode: false,
        rail_support_level: RAIL_SUPPORTED,
    }
}

fn sequence_with(config: Config) -> ConnectionActivationSequence {
    ConnectionActivationSequence::new(config, IO_CHANNEL_ID, USER_CHANNEL_ID, Some(MESSAGE_CHANNEL_ID))
}

fn sequence() -> ConnectionActivationSequence {
    sequence_with(sample_config())
}

fn indication(channel_id: u16, user_data: &[u8]) -> Vec<u8> {
    let indication = McsMessage::SendDataIndication(SendDataIndication {
        initiator_id: USER_CHANNEL_ID,
        channel_id,
        user_data: Cow::Borrowed(user_data),
    });
    encode_vec(&X224(indication)).unwrap()
}

fn share_control(pdu: ShareControlPdu) -> Vec<u8> {
    let header = ShareControlHeader { share_control_pdu: pdu, pdu_source: 1002, share_id: SHARE_ID };
    indication(IO_CHANNEL_ID, &encode_vec(&header).unwrap())
}

fn share_data(pdu: ShareDataPdu) -> Vec<u8> {
    share_control(ShareControlPdu::Data(ShareDataHeader {
        share_data_pdu: pdu,
        stream_priority: StreamPriority::Medium,
        compression_flags: CompressionFlags::empty(),
        compression_type: CompressionType::K8,
    }))
}

fn demand_active(capability_sets: Vec<wire::CapabilitySet>) -> Vec<u8> {
    share_control(ShareControlPdu::ServerDemandActive(wire::ServerDemandActive {
        pdu: wire::DemandActive { source_descriptor: "RDP".to_owned(), capability_sets },
    }))
}

fn server_general(refresh_rect_support: bool, suppress_output_support: bool) -> wire::CapabilitySet {
    wire::CapabilitySet::General(wire::General {
        refresh_rect_support,
        suppress_output_support,
        ..Default::default()
    })
}

fn server_bitmap(desktop_width: u16, desktop_height: u16) -> wire::CapabilitySet {
    wire::CapabilitySet::Bitmap(wire::Bitmap {
        pref_bits_per_pix: 32,
        desktop_width,
        desktop_height,
        desktop_resize_flag: true,
        drawing_flags: wire::BitmapDrawingFlags::empty(),
    })
}

fn server_input(input_flags: wire::InputFlags) -> wire::CapabilitySet {
    wire::CapabilitySet::Input(wire::Input {
        input_flags,
        keyboard_layout: 0,
        keyboard_type: None,
        keyboard_subtype: 0,
        keyboard_function_key: 0,
        keyboard_ime_filename: String::new(),
    })
}

fn server_chunk(chunk_size: Option<u32>) -> wire::CapabilitySet {
    wire::CapabilitySet::VirtualChannel(wire::VirtualChannel {
        flags: wire::VirtualChannelFlags::NO_COMPRESSION,
        chunk_size,
    })
}

/// What the client sent, taken out of its MCS envelope.
fn sent(output: &[u8]) -> (u16, u16, Vec<u8>) {
    match decode::<X224<McsMessage<'_>>>(output).unwrap().0 {
        McsMessage::SendDataRequest(request) => {
            (request.initiator_id, request.channel_id, request.user_data.to_vec())
        }
        other => panic!("unexpected message {other:?}"),
    }
}

fn sent_confirmation(output: &[u8]) -> wire::ClientConfirmActive {
    let (initiator_id, channel_id, user_data) = sent(output);
    assert_eq!((initiator_id, channel_id), (USER_CHANNEL_ID, IO_CHANNEL_ID));
    let header = decode::<ShareControlHeader>(&user_data).unwrap();
    assert_eq!(header.share_id, SHARE_ID);
    assert_eq!(header.pdu_source, USER_CHANNEL_ID);
    match header.share_control_pdu {
        ShareControlPdu::ClientConfirmActive(confirm) => confirm,
        other => panic!("unexpected PDU {other:?}"),
    }
}

fn reason(error: &ConnectorError) -> &str {
    match &error.kind {
        ConnectorErrorKind::Reason(text) => text,
        other => panic!("unexpected kind {other:?}"),
    }
}

#[test]
fn bitmap_capability_uses_requested_color_depth() {
    assert_eq!(requested_bitmap_color_depth(None).unwrap(), 32);
    for expected_color_depth in [15, 16, 24, 32] {
        let bitmap = BitmapConfig {
            color_depth: u32::from(expected_color_depth),
            lossy_compression: false,
            codecs: wire::BitmapCodecs(Vec::new()),
        };

        assert_eq!(requested_bitmap_color_depth(Some(&bitmap)).unwrap(), expected_color_depth);
    }
}

#[test]
fn other_color_depths_are_refused_by_number() {
    for (color_depth, text) in [
        (0, "unsupported bitmap color depth: 0"),
        (8, "unsupported bitmap color depth: 8"),
        (u32::MAX, "unsupported bitmap color depth: 4294967295"),
    ] {
        let bitmap = BitmapConfig {
            color_depth,
            lossy_compression: false,
            codecs: wire::BitmapCodecs(Vec::new()),
        };
        let error = requested_bitmap_color_depth(Some(&bitmap)).unwrap_err();
        assert_eq!(error.context, "create client confirm active");
        assert_eq!(reason(&error), text);
    }
}

#[test]
fn window_list_capability_preserves_supported_level() {
    let window_list = WindowList {
        support_level: WindowSupportLevel::SupportedEx,
        num_icon_caches: 3,
        num_icon_cache_entries: 12,
    };
    let capabilities = vec![CapabilitySet::WindowList(window_list.clone())];

    assert_eq!(server_window_list(&capabilities), Some(window_list));
    assert_eq!(
        negotiated_window_support_level(server_window_list(&capabilities).as_ref()),
        Some(WindowSupportLevel::SupportedEx)
    );
    assert_eq!(negotiated_window_support_level(None), None);
    assert_eq!(
        negotiated_window_support_level(Some(&WindowList {
            support_level: WindowSupportLevel::NotSupported,
            num_icon_caches: 0,
            num_icon_cache_entries: 0,
        })),
        None
    );
}

#[test]
fn remote_app_capabilities_require_server_rail_and_window_list() {
    let rail_support_level = RAIL_SUPPORTED;
    let window_list = WindowList {
        support_level: WindowSupportLevel::SupportedEx,
        num_icon_caches: 3,
        num_icon_cache_entries: 12,
    };
    let rail = CapabilitySet::Rail(Rail { support_level: RAIL_SUPPORTED });

    assert_eq!(
        remote_app_rail_capability(
            true,
            rail_support_level,
            core::slice::from_ref(&rail),
            Some(&window_list)
        )
        .unwrap(),
        Some(Rail { support_level: rail_support_level })
    );
    assert!(remote_app_rail_capability(true, rail_support_level, &[], Some(&window_list)).is_err());
    assert!(remote_app_rail_capability(true, rail_support_level, core::slice::from_ref(&rail), None).is_err());
}

#[test]
fn remote_app_capabilities_require_client_rail_support() {
    let window_list = WindowList {
        support_level: WindowSupportLevel::Supported,
        num_icon_caches: 0,
        num_icon_cache_entries: 0,
    };
    let rail = CapabilitySet::Rail(Rail { support_level: RAIL_SUPPORTED });

    assert!(remote_app_rail_capability(true, 0, core::slice::from_ref(&rail), Some(&window_list)).is_err());
}

#[test]
fn remote_app_errors_say_which_side_lacks_support() {
    let error = remote_app_rail_capability(true, 0, &[], None).unwrap_err();
    assert_eq!(error.context, "Capabilities Exchange");
    assert_eq!(reason(&error), "client RemoteApp configuration does not support remote programs");

    let unsupporting = CapabilitySet::Rail(Rail { support_level: 2 });
    let error = remote_app_rail_capability(true, 3, &[unsupporting], None).unwrap_err();
    assert_eq!(error.context, "Capabilities Exchange");
    assert_eq!(reason(&error), "server does not support required RemoteApp capabilities");

    assert_eq!(remote_app_rail_capability(false, 0, &[], None).unwrap(), None);
}

/// A PDU on a static virtual channel is not a Share Control PDU. Decoding it as one
/// would end the activation; setting it aside does not.
#[test]
fn a_virtual_channel_pdu_during_capabilities_exchange_is_deferred() {
    let mut sequence =
        ConnectionActivationSequence::new(sample_config(), IO_CHANNEL_ID, USER_CHANNEL_ID, Some(1005));

    let indication = McsMessage::SendDataIndication(SendDataIndication {
        initiator_id: USER_CHANNEL_ID,
        channel_id: CLIPRDR_CHANNEL_ID,
        user_data: Cow::Borrowed(&[0u8; 16]),
    });
    let input = encode_vec(&X224(indication)).unwrap();

    let mut output = Vec::new();
    let written = sequence.step(&input, &mut output).unwrap();

    assert!(
        matches!(written, StepOutcome::Done(Written::Nothing)),
        "a deferred PDU writes nothing"
    );
    assert!(
        matches!(
            sequence.connection_activation_state(),
            ConnectionActivationState::CapabilitiesExchange { .. }
        ),
        "the sequence stays in CapabilitiesExchange rather than advancing or erroring"
    );
    assert!(output.is_empty());
    assert_eq!(sequence.take_deferred_virtual_channel_pdus(), vec![input]);
    assert!(sequence.take_deferred_virtual_channel_pdus().is_empty());
}

#[test]
fn constants_are_those_of_the_protocol_crates() {
    assert_eq!(CHANNEL_CHUNK_LENGTH, ironrdp_svc::CHANNEL_CHUNK_LENGTH);
    assert_eq!(MAX_CHANNEL_CHUNK_LENGTH, ironrdp_svc::MAX_CHANNEL_CHUNK_LENGTH);
    assert_eq!(SERVER_CHANNEL_ID, wire::SERVER_CHANNEL_ID);
    assert_eq!(RAIL_SUPPORTED, wire::RailSupportLevel::SUPPORTED.bits());
    assert_eq!(ALL_INPUT_FLAGS, wire::InputFlags::all().bits());
    assert_eq!(
        CLIENT_EXTRA_FLAGS,
        (wire::GeneralExtraFlags::FASTPATH_OUTPUT_SUPPORTED
            | wire::GeneralExtraFlags::NO_BITMAP_COMPRESSION_HDR)
            .bits()
    );
    assert_eq!(ALLOW_SKIP_ALPHA, wire::BitmapDrawingFlags::ALLOW_SKIP_ALPHA.bits());
    assert_eq!(
        ALLOW_LOSSY_COLOR,
        (wire::BitmapDrawingFlags::ALLOW_SKIP_ALPHA
            | wire::BitmapDrawingFlags::ALLOW_DYNAMIC_COLOR_FIDELITY
            | wire::BitmapDrawingFlags::ALLOW_COLOR_SUBSAMPLING)
            .bits()
    );
    assert_eq!(
        CLIENT_ORDER_FLAGS,
        (wire::OrderFlags::NEGOTIATE_ORDER_SUPPORT | wire::OrderFlags::ZERO_BOUNDS_DELTAS_SUPPORT).bits()
    );
    assert_eq!(
        LARGE_POINTER_FLAGS,
        (wire::LargePointerSupportFlags::UP_TO_96X96_PIXELS
            | wire::LargePointerSupportFlags::UP_TO_384X384_PIXELS)
            .bits()
    );
    assert_eq!(
        SURFACE_COMMAND_FLAGS,
        (wire::CmdFlags::SET_SURFACE_BITS
            | wire::CmdFlags::STREAM_SURFACE_BITS
            | wire::CmdFlags::FRAME_MARKER)
            .bits()
    );
    assert_eq!(
        rdp_client_core::connector::license_exchange::RANDOM_NUMBER_SIZE,
        ironrdp_pdu::rdp::server_license::RANDOM_NUMBER_SIZE
    );
    assert_eq!(
        rdp_client_core::connector::license_exchange::PREMASTER_SECRET_SIZE,
        ironrdp_pdu::rdp::server_license::PREMASTER_SECRET_SIZE
    );
}

#[test]
fn only_a_valid_chunk_size_is_taken() {
    let given = |chunk_size| static_channel_chunk_size(&[CapabilitySet::VirtualChannel { chunk_size }]);
    assert_eq!(given(None), 1600);
    assert_eq!(given(Some(1599)), 1600);
    assert_eq!(given(Some(1600)), 1600);
    assert_eq!(given(Some(1601)), 1601);
    assert_eq!(given(Some(16_256)), 16_256);
    assert_eq!(given(Some(16_257)), 1600);
    assert_eq!(static_channel_chunk_size(&[]), 1600);
    // A set without a size is passed over; the first with one decides.
    assert_eq!(
        static_channel_chunk_size(&[
            CapabilitySet::VirtualChannel { chunk_size: None },
            CapabilitySet::VirtualChannel { chunk_size: Some(5) },
            CapabilitySet::VirtualChannel { chunk_size: Some(2000) },
        ]),
        1600
    );
}

/// The server's sets settle the session, and the answer carries every set of the client's.
#[test]
fn a_demand_is_confirmed_and_settles_the_session() {
    let mut sequence = sequence();
    let mut output = vec![0xEE];
    let input = demand_active(vec![
        server_general(true, false),
        server_bitmap(1280, 720),
        server_input(wire::InputFlags::SCANCODES | wire::InputFlags::FASTPATH_INPUT_2),
        server_chunk(Some(4096)),
        wire::CapabilitySet::WindowList(wire::WindowList {
            support_level: wire::WindowSupportLevel::Supported,
            num_icon_caches: 3,
            num_icon_cache_entries: 12,
        }),
    ]);
    let outcome = sequence.step(&input, &mut output).unwrap();

    assert_eq!(output[0], 0xEE, "what was in the output stays there");
    assert_eq!(outcome, StepOutcome::Done(Written::Size(output.len() - 1)));
    assert_eq!(sequence.next_pdu_hint(), Some(NextPdu::Finalization));
    match sequence.connection_activation_state() {
        ConnectionActivationState::ConnectionFinalization {
            desktop_size,
            share_id,
            input_flags,
            static_channel_chunk_size,
            refresh_rect_support,
            suppress_output_support,
            window_support_level,
        } => {
            assert_eq!(desktop_size, DesktopSize { width: 1280, height: 720 });
            assert_eq!(share_id, SHARE_ID);
            assert_eq!(input_flags, 0x0021);
            assert_eq!(static_channel_chunk_size, 4096);
            assert!(refresh_rect_support);
            assert!(!suppress_output_support);
            assert_eq!(window_support_level, Some(WindowSupportLevel::Supported));
        }
        other => panic!("unexpected state {other:?}"),
    }

    let confirm = sent_confirmation(&output[1..]);
    assert_eq!(confirm.originator_id, wire::SERVER_CHANNEL_ID);
    assert_eq!(confirm.pdu.source_descriptor.trim_end_matches('\0'), "IRONRDP");
    assert_eq!(
        confirm.pdu.capability_sets,
        vec![
            wire::CapabilitySet::General(wire::General {
                major_platform_type: wire::MajorPlatformType::UNIX,
                extra_flags: wire::GeneralExtraFlags::FASTPATH_OUTPUT_SUPPORTED
                    | wire::GeneralExtraFlags::NO_BITMAP_COMPRESSION_HDR,
                ..Default::default()
            }),
            wire::CapabilitySet::Bitmap(wire::Bitmap {
                pref_bits_per_pix: 32,
                desktop_width: 1280,
                desktop_height: 720,
                desktop_resize_flag: true,
                drawing_flags: wire::BitmapDrawingFlags::ALLOW_SKIP_ALPHA,
            }),
            wire::CapabilitySet::Order(wire::Order::new(
                wire::OrderFlags::NEGOTIATE_ORDER_SUPPORT | wire::OrderFlags::ZERO_BOUNDS_DELTAS_SUPPORT,
                wire::OrderSupportExFlags::empty(),
                0,
                0,
            )),
            wire::CapabilitySet::BitmapCache(wire::BitmapCache {
                caches: [wire::CacheEntry { entries: 0, max_cell_size: 0 }; wire::BITMAP_CACHE_ENTRIES_NUM],
            }),
            wire::CapabilitySet::Input(wire::Input {
                input_flags: wire::InputFlags::all(),
                keyboard_layout: 0,
                keyboard_type: Some(KeyboardType::IBM_ENHANCED),
                keyboard_subtype: 0,
                keyboard_function_key: 12,
                keyboard_ime_filename: String::new(),
            }),
            wire::CapabilitySet::Pointer(wire::Pointer {
                color_pointer_cache_size: 32,
                pointer_cache_size: 32,
            }),
            wire::CapabilitySet::Brush(wire::Brush { support_level: wire::SupportLevel::Default }),
            wire::CapabilitySet::GlyphCache(wire::GlyphCache {
                glyph_cache: [wire::CacheDefinition { entries: 0, max_cell_size: 0 }; wire::GLYPH_CACHE_NUM],
                frag_cache: wire::CacheDefinition { entries: 0, max_cell_size: 0 },
                glyph_support_level: wire::GlyphSupportLevel::None,
            }),
            wire::CapabilitySet::OffscreenBitmapCache(wire::OffscreenBitmapCache {
                is_supported: false,
                cache_size: 0,
                cache_entries: 0,
            }),
            wire::CapabilitySet::VirtualChannel(wire::VirtualChannel {
                flags: wire::VirtualChannelFlags::NO_COMPRESSION,
                chunk_size: Some(0),
            }),
            wire::CapabilitySet::Sound(wire::Sound { flags: wire::SoundFlags::empty() }),
            wire::CapabilitySet::LargePointer(wire::LargePointer {
                flags: wire::LargePointerSupportFlags::UP_TO_96X96_PIXELS
                    | wire::LargePointerSupportFlags::UP_TO_384X384_PIXELS,
            }),
            wire::CapabilitySet::SurfaceCommands(wire::SurfaceCommands {
                flags: wire::CmdFlags::SET_SURFACE_BITS
                    | wire::CmdFlags::STREAM_SURFACE_BITS
                    | wire::CmdFlags::FRAME_MARKER,
            }),
            wire::CapabilitySet::BitmapCodecs(wire::client_codecs_capabilities(&[]).unwrap()),
            wire::CapabilitySet::FrameAcknowledge(wire::FrameAcknowledge {
                max_unacknowledged_frame_count: 20,
            }),
            wire::CapabilitySet::MultiFragmentUpdate(wire::MultifragmentUpdate {
                max_request_size: 8 * 1024 * 1024,
            }),
            wire::CapabilitySet::WindowList(wire::WindowList {
                support_level: wire::WindowSupportLevel::Supported,
                num_icon_caches: 3,
                num_icon_cache_entries: 12,
            }),
        ]
    );
}

/// A demand with nothing in it is answered too, from the configuration.
#[test]
fn an_empty_demand_falls_back_to_the_configuration() {
    let mut sequence = sequence();
    let mut output = Vec::new();
    sequence.step(&demand_active(Vec::new()), &mut output).unwrap();
    match sequence.connection_activation_state() {
        ConnectionActivationState::ConnectionFinalization {
            desktop_size,
            input_flags,
            static_channel_chunk_size,
            refresh_rect_support,
            suppress_output_support,
            window_support_level,
            ..
        } => {
            assert_eq!(desktop_size, DesktopSize { width: 1024, height: 768 });
            assert_eq!(input_flags, 0);
            assert_eq!(static_channel_chunk_size, 1600);
            assert!(!refresh_rect_support && !suppress_output_support);
            assert_eq!(window_support_level, None);
        }
        other => panic!("unexpected state {other:?}"),
    }
}

/// What the configuration says of bitmaps, keyboards and remote programs reaches the
/// wire, and the server's own fragmented-update sets come back first.
#[test]
fn the_configuration_reaches_the_confirmation() {
    let mut config = sample_config();
    config.keyboard_type = 7;
    config.keyboard_subtype = 3;
    config.ime_file_name = "ime".to_owned();
    config.bitmap = Some(BitmapConfig {
        lossy_compression: true,
        color_depth: 16,
        codecs: wire::BitmapCodecs(Vec::new()),
    });
    config.remote_application_mode = true;
    config.rail_support_level = 0x81;
    let mut sequence = sequence_with(config);
    let mut output = Vec::new();
    let server_sets = vec![
        wire::CapabilitySet::MultiFragmentUpdate(wire::MultifragmentUpdate { max_request_size: 77 }),
        wire::CapabilitySet::Rail(wire::Rail { support_level: wire::RailSupportLevel::SUPPORTED }),
        wire::CapabilitySet::WindowList(wire::WindowList {
            support_level: wire::WindowSupportLevel::SupportedEx,
            num_icon_caches: 1,
            num_icon_cache_entries: 2,
        }),
        wire::CapabilitySet::Sound(wire::Sound { flags: wire::SoundFlags::BEEPS }),
    ];
    sequence.step(&demand_active(server_sets), &mut output).unwrap();

    let sets = sent_confirmation(&output).pdu.capability_sets;
    assert_eq!(
        sets[0],
        wire::CapabilitySet::MultiFragmentUpdate(wire::MultifragmentUpdate { max_request_size: 77 })
    );
    assert_eq!(sets.len(), 1 + 15 + 2);
    assert_eq!(
        sets[2],
        wire::CapabilitySet::Bitmap(wire::Bitmap {
            pref_bits_per_pix: 16,
            desktop_width: 1024,
            desktop_height: 768,
            desktop_resize_flag: true,
            drawing_flags: wire::BitmapDrawingFlags::ALLOW_SKIP_ALPHA
                | wire::BitmapDrawingFlags::ALLOW_DYNAMIC_COLOR_FIDELITY
                | wire::BitmapDrawingFlags::ALLOW_COLOR_SUBSAMPLING,
        })
    );
    match &sets[5] {
        wire::CapabilitySet::Input(input) => {
            assert_eq!(input.keyboard_type, Some(KeyboardType(7)));
            assert_eq!(input.keyboard_subtype, 3);
            assert_eq!(input.keyboard_ime_filename.trim_end_matches('\0'), "ime");
        }
        other => panic!("unexpected set {other:?}"),
    }
    assert_eq!(sets[14], wire::CapabilitySet::BitmapCodecs(wire::BitmapCodecs(Vec::new())));
    assert_eq!(
        sets[16],
        wire::CapabilitySet::Rail(wire::Rail {
            support_level: wire::RailSupportLevel::SUPPORTED | wire::RailSupportLevel::HANDSHAKE_EX_SUPPORTED,
        })
    );
    assert_eq!(
        sets[17],
        wire::CapabilitySet::WindowList(wire::WindowList {
            support_level: wire::WindowSupportLevel::SupportedEx,
            num_icon_caches: 1,
            num_icon_cache_entries: 2,
        })
    );
}

/// The check of remote programs comes before the one of the colour depth, and both end
/// the sequence.
#[test]
fn a_demand_that_cannot_be_confirmed_ends_the_sequence() {
    let mut config = sample_config();
    config.bitmap = Some(BitmapConfig {
        lossy_compression: false,
        color_depth: 8,
        codecs: wire::BitmapCodecs(Vec::new()),
    });
    let mut output = Vec::new();
    let mut plain = sequence_with(config.clone());
    let error = plain.step(&demand_active(Vec::new()), &mut output).unwrap_err();
    assert_eq!(error.context, "create client confirm active");
    assert!(matches!(plain.connection_activation_state(), ConnectionActivationState::Consumed));
    assert!(output.is_empty());

    config.remote_application_mode = true;
    let error = create_client_confirm_active(&config, &[], config.desktop_size, None).unwrap_err();
    assert_eq!(error.context, "Capabilities Exchange");
}

/// A round-trip-time request is answered in place, any number of times.
#[test]
fn a_probe_is_answered_and_the_sequence_goes_on_waiting() {
    let mut sequence = sequence();
    for expected in 1..=5 {
        let request = AutoDetectReqPdu::new(AutoDetectRequest::RttRequest {
            sequence_number: 40 + expected,
            request_type: RTT_REQUEST_CONTINUOUS,
        });
        let input = indication(MESSAGE_CHANNEL_ID, &encode_vec(&request).unwrap());
        let mut output = Vec::new();
        let outcome = sequence.step(&input, &mut output).unwrap();
        assert_eq!(outcome, StepOutcome::Done(Written::Size(output.len())));
        let (initiator_id, channel_id, user_data) = sent(&output);
        assert_eq!((initiator_id, channel_id), (USER_CHANNEL_ID, MESSAGE_CHANNEL_ID));
        assert_eq!(
            decode::<AutoDetectRspPdu>(&user_data).unwrap().response,
            AutoDetectResponse::RttResponse { sequence_number: 40 + expected }
        );
        match sequence.connection_activation_state() {
            ConnectionActivationState::CapabilitiesExchange { probe_count } => {
                assert_eq!(probe_count, u32::from(expected));
            }
            other => panic!("unexpected state {other:?}"),
        }
    }
    assert_eq!(sequence.next_pdu_hint(), Some(NextPdu::X224));
    assert!(!probes_need_warning(3) && probes_need_warning(4));
}

#[test]
fn other_packets_on_the_message_channel_are_passed_over() {
    let mut sequence = sequence();
    let mut output = Vec::new();
    for user_data in [&[][..], &[0xFF; 3][..], &[0; 12][..]] {
        let outcome = sequence.step(&indication(MESSAGE_CHANNEL_ID, user_data), &mut output).unwrap();
        assert_eq!(outcome, StepOutcome::Done(Written::Nothing));
    }
    assert!(output.is_empty());
    assert!(matches!(
        sequence.connection_activation_state(),
        ConnectionActivationState::CapabilitiesExchange { probe_count: 0 }
    ));
}

/// No answer can be encoded for a client below the lowest user channel.
#[test]
fn a_probe_that_cannot_be_answered_ends_the_sequence() {
    let mut sequence =
        ConnectionActivationSequence::new(sample_config(), IO_CHANNEL_ID, 1000, Some(MESSAGE_CHANNEL_ID));
    let request = AutoDetectReqPdu::new(AutoDetectRequest::RttRequest {
        sequence_number: 1,
        request_type: RTT_REQUEST_CONTINUOUS,
    });
    let input = indication(MESSAGE_CHANNEL_ID, &encode_vec(&request).unwrap());
    let mut output = Vec::new();
    let error = sequence.step(&input, &mut output).unwrap_err();
    assert!(matches!(error.kind, ConnectorErrorKind::Encode(_)));
    assert!(matches!(sequence.connection_activation_state(), ConnectionActivationState::Consumed));
    assert!(output.is_empty());

    // Nor can the server's sets be confirmed.
    let mut sequence = ConnectionActivationSequence::new(sample_config(), IO_CHANNEL_ID, 1000, None);
    let error = sequence.step(&demand_active(Vec::new()), &mut output).unwrap_err();
    assert!(matches!(error.kind, ConnectorErrorKind::Encode(_)));
    assert!(output.is_empty());
}

#[test]
fn deactivation_and_cleared_errors_are_skipped() {
    let mut sequence = sequence();
    let mut output = Vec::new();
    for input in [
        share_control(ShareControlPdu::ServerDeactivateAll(ServerDeactivateAll)),
        share_data(ShareDataPdu::ServerSetErrorInfo(ServerSetErrorInfoPdu(
            ErrorInfo::ProtocolIndependentCode(ProtocolIndependentCode::None),
        ))),
    ] {
        let outcome = sequence.step(&input, &mut output).unwrap();
        assert_eq!(outcome, StepOutcome::Done(Written::Nothing));
        assert!(matches!(
            sequence.connection_activation_state(),
            ConnectionActivationState::CapabilitiesExchange { probe_count: 0 }
        ));
    }
    assert!(output.is_empty());
}

#[test]
fn a_reported_error_is_passed_on_in_words() {
    let info = ErrorInfo::ProtocolIndependentCode(ProtocolIndependentCode::IdleTimeout);
    let expected = format!("server ended the session with error info: {}", info.description());
    let input = share_data(ShareDataPdu::ServerSetErrorInfo(ServerSetErrorInfoPdu(info)));
    let mut sequence = sequence();
    let error = sequence.step(&input, &mut Vec::new()).unwrap_err();
    assert_eq!(error.context, "ConnectionActivation::CapabilitiesExchange");
    assert_eq!(reason(&error), expected);
    assert!(matches!(sequence.connection_activation_state(), ConnectionActivationState::Consumed));
}

#[test]
fn an_unexpected_pdu_is_named() {
    let input = share_data(ShareDataPdu::Synchronize(SynchronizePdu { target_user_id: 1002 }));
    let mut sequence = sequence();
    let error = sequence.step(&input, &mut Vec::new()).unwrap_err();
    assert_eq!(error.context, "ConnectionActivation::CapabilitiesExchange");
    assert_eq!(
        reason(&error),
        "unexpected Share Control PDU during capabilities exchange: got Data PDU wrapping Synchronize PDU \
         (expected Server Demand Active PDU)"
    );
}

/// The channel decides what is set aside, so garbage on the I/O channel stays an error.
#[test]
fn garbage_is_a_decode_error_and_never_deferred() {
    for input in [
        indication(IO_CHANNEL_ID, &[0xFF; 16]),
        indication(IO_CHANNEL_ID, &[]),
        vec![0u8; 16],
        Vec::new(),
    ] {
        let mut sequence = sequence();
        let error = sequence.step(&input, &mut Vec::new()).unwrap_err();
        assert!(matches!(error.kind, ConnectorErrorKind::Decode(_)));
        assert!(matches!(sequence.connection_activation_state(), ConnectionActivationState::Consumed));
        assert!(sequence.take_deferred_virtual_channel_pdus().is_empty());
        assert_eq!(sequence.dropped_virtual_channel_pdus(), 0);
    }
}

#[test]
fn deferral_and_the_reason_against_it_agree() {
    let mut sequence = sequence();
    let cases = [
        (indication(CLIPRDR_CHANNEL_ID, &[1, 2]), Some(CLIPRDR_CHANNEL_ID), None),
        (indication(IO_CHANNEL_ID, &[1, 2]), None, Some(DeclinedDefer::IoChannel)),
        (indication(MESSAGE_CHANNEL_ID, &[1, 2]), None, Some(DeclinedDefer::MessageChannel)),
        (vec![1, 2, 3], None, Some(DeclinedDefer::NotSendDataIndication)),
    ];
    for (input, channel_id, reason) in &cases {
        assert_eq!(sequence.virtual_channel_id_to_defer(input), *channel_id);
        assert_eq!(sequence.declined_defer_reason(input), *reason);
    }
    sequence.step(&demand_active(Vec::new()), &mut Vec::new()).unwrap();
    for (input, channel_id, reason) in &cases {
        assert_eq!(sequence.virtual_channel_id_to_defer(input), *channel_id);
        assert_eq!(sequence.declined_defer_reason(input), *reason);
    }
    sequence
        .finalization_stepped(Ok(FinalizationStep {
            written: Written::Nothing,
            terminal: true,
            monitor_layout: None,
        }))
        .unwrap();
    for (input, _, _) in &cases {
        assert_eq!(sequence.virtual_channel_id_to_defer(input), None);
        assert_eq!(sequence.declined_defer_reason(input), None);
    }
}

/// The first PDU that does not fit is dropped and so is everything after it, even what
/// would fit, also after the others were taken.
#[test]
fn the_first_drop_latches_so_that_the_replay_has_no_gap() {
    let mut sequence = sequence();
    let first = vec![1u8; DEFERRED_PDU_BUDGET - 10];
    let fitting = vec![2u8; 10];
    let too_large = vec![3u8; 1];
    sequence.defer_virtual_channel_pdu(&first);
    sequence.defer_virtual_channel_pdu(&fitting);
    assert_eq!(sequence.dropped_virtual_channel_pdus(), 0);
    sequence.defer_virtual_channel_pdu(&too_large);
    assert_eq!(sequence.dropped_virtual_channel_pdus(), 1);
    sequence.defer_virtual_channel_pdu(&[]);
    assert_eq!(sequence.dropped_virtual_channel_pdus(), 2);

    let taken = sequence.take_deferred_virtual_channel_pdus();
    assert_eq!(taken, vec![first, fitting]);
    sequence.defer_virtual_channel_pdu(&too_large);
    assert_eq!(sequence.dropped_virtual_channel_pdus(), 3);
    assert!(sequence.take_deferred_virtual_channel_pdus().is_empty());
}

/// Taking what was set aside makes room again as long as nothing was dropped.
#[test]
fn taking_the_replay_frees_the_budget() {
    let mut sequence = sequence();
    let large = vec![7u8; DEFERRED_PDU_BUDGET];
    sequence.defer_virtual_channel_pdu(&large);
    assert_eq!(sequence.take_deferred_virtual_channel_pdus().len(), 1);
    sequence.defer_virtual_channel_pdu(&large);
    assert_eq!(sequence.dropped_virtual_channel_pdus(), 0);
    assert_eq!(sequence.clone().take_deferred_virtual_channel_pdus(), vec![large]);
}

#[test]
fn finalization_reports_what_was_settled() {
    let mut config = sample_config();
    config.enable_server_pointer = true;
    let mut sequence = sequence_with(config);
    let mut output = Vec::new();
    sequence.step(&demand_active(vec![server_general(false, true)]), &mut output).unwrap();

    // The caller runs the finalization; a virtual-channel PDU meanwhile is set aside.
    let io_pdu = indication(IO_CHANNEL_ID, &[0; 4]);
    assert_eq!(sequence.step(&io_pdu, &mut Vec::new()).unwrap(), StepOutcome::Finalize);
    let channel_pdu = indication(CLIPRDR_CHANNEL_ID, &[9; 4]);
    assert_eq!(
        sequence.step(&channel_pdu, &mut Vec::new()).unwrap(),
        StepOutcome::Done(Written::Nothing)
    );

    let written = sequence
        .finalization_stepped(Ok(FinalizationStep {
            written: Written::Size(9),
            terminal: false,
            monitor_layout: None,
        }))
        .unwrap();
    assert_eq!(written, Written::Size(9));
    assert_eq!(sequence.connection_activation_state().name(), "ConnectionFinalization");

    let layout = MonitorLayoutPdu {
        monitors: vec![Monitor {
            left: 0,
            top: 0,
            right: 1023,
            bottom: 767,
            flags: MonitorFlags::PRIMARY,
        }],
    };
    sequence
        .finalization_stepped(Ok(FinalizationStep {
            written: Written::Nothing,
            terminal: true,
            monitor_layout: Some(layout.clone()),
        }))
        .unwrap();
    assert_eq!(sequence.monitor_layout(), Some(layout));
    assert!(sequence.connection_activation_state().is_terminal());
    assert_eq!(sequence.next_pdu_hint(), None);
    match sequence.connection_activation_state() {
        ConnectionActivationState::Finalized {
            desktop_size,
            share_id,
            enable_server_pointer,
            pointer_software_rendering,
            suppress_output_support,
            ..
        } => {
            assert_eq!(desktop_size, DesktopSize { width: 1024, height: 768 });
            assert_eq!(share_id, SHARE_ID);
            assert!(enable_server_pointer && !pointer_software_rendering && suppress_output_support);
        }
        other => panic!("unexpected state {other:?}"),
    }
    assert_eq!(sequence.take_deferred_virtual_channel_pdus(), vec![channel_pdu.clone()]);

    // Nothing follows.
    let error = sequence.step(&channel_pdu, &mut Vec::new()).unwrap_err();
    assert_eq!(error.context, "connector sequence state is finalized or consumed (this is a bug)");
    assert!(matches!(error.kind, ConnectorErrorKind::General));
    assert_eq!(sequence.connection_activation_state().name(), "Consumed");
    assert!(sequence.step(&channel_pdu, &mut Vec::new()).is_err());
}

#[test]
fn a_failed_finalization_ends_the_sequence() {
    let mut sequence = sequence();
    sequence.step(&demand_active(Vec::new()), &mut Vec::new()).unwrap();
    let error = sequence
        .finalization_stepped(Err(ConnectorError::general("finalization")))
        .unwrap_err();
    assert_eq!(error.context, "finalization");
    assert_eq!(sequence.connection_activation_state().name(), "Consumed");
}

#[test]
fn the_factory_makes_fresh_sequences() {
    let factory = ConnectionActivationFactory::new(
        sample_config(),
        IO_CHANNEL_ID,
        USER_CHANNEL_ID,
        Some(MESSAGE_CHANNEL_ID),
    )
    .clone();
    assert_eq!((factory.io_channel_id(), factory.user_channel_id()), (IO_CHANNEL_ID, USER_CHANNEL_ID));
    let mut used = factory.create();
    used.defer_virtual_channel_pdu(&[1]);
    let mut fresh = factory.create();
    assert_eq!((fresh.io_channel_id(), fresh.user_channel_id()), (IO_CHANNEL_ID, USER_CHANNEL_ID));
    assert_eq!(fresh.connection_activation_state().name(), "CapabilitiesExchange");
    assert!(fresh.take_deferred_virtual_channel_pdus().is_empty());
    assert_eq!(fresh.monitor_layout(), None);
    let probe = indication(MESSAGE_CHANNEL_ID, &[]);
    assert_eq!(fresh.declined_defer_reason(&probe), Some(DeclinedDefer::MessageChannel));
}
