//! The exchange of licenses, with PDUs as they come over the wire.
use std::borrow::Cow;
use std::sync::{Arc, Mutex};

use ironrdp_core::{
    decode, encode_vec, other_err, DecodeErrorKind, EncodeError, EncodeErrorKind,
};
use ironrdp_pdu::mcs::{McsMessage, SendDataIndication};
use ironrdp_pdu::rdp::headers::{BasicSecurityHeader, BasicSecurityHeaderFlags};
use ironrdp_pdu::rdp::server_license::cert::{CertificateType, ProprietaryCertificate, RsaPublicKey};
use ironrdp_pdu::rdp::server_license::{
    LicenseErrorCode, LicenseHeader, LicensePdu, LicensingErrorMessage, LicensingStateTransition,
    PreambleFlags, PreambleType, PreambleVersion, ProductInfo, Scope, ServerCertificate,
    ServerLicenseError, ServerLicenseRequest, ServerPlatformChallenge, ServerUpgradeLicense,
};
use ironrdp_pdu::x224::X224;
use rdp_client_core::connector::cipher::cipher;
use rdp_client_core::connector::license_exchange::plaintext::license_holds_lengths;
use rdp_client_core::connector::license_exchange::{
    is_license_packet, machine_name, security_header_flags, skips_need_warning, LicenseCache,
    LicenseEncryptionData, LicenseExchangeSequence, LicenseExchangeState, LicenseInformation,
    NoopLicenseCache, SKIP_WARN_THRESHOLD,
};
use rdp_client_core::connector::wire::license::AnswerError;
use rdp_client_core::connector::{
    ConnectorError, ConnectorErrorKind, ConnectorResult, NextPdu, Written,
};

/// An auto-detect request as a server sends it between license packets: the security
/// header has flags `0x1000`, so it is no license packet at all.
const CAPTURED_AUTODETECT_PROBE: [u8; 10] = [0, 16, 0, 0, 6, 0, 0, 0, 20, 0];

const MAC_SALT_KEY: [u8; 16] = [
    0x01, 0x5b, 0x9e, 0x5f, 0x06, 0x97, 0x71, 0x58, 0xc3, 0xb8, 0x8b, 0x8c, 0x6e, 0x77, 0x21, 0x37,
];
const LICENSE_KEY: [u8; 16] = [
    0xe1, 0x78, 0xe4, 0xa0, 0x2a, 0xc5, 0xca, 0xb8, 0xa2, 0xd1, 0x53, 0xb8, 0x07, 0x23, 0xf3, 0xd2,
];
const CHALLENGE: [u8; 10] = [0x26, 0x38, 0x88, 0x77, 0xcb, 0xe8, 0xbf, 0xce, 0x2c, 0x51];
const CHALLENGE_MAC: [u8; 16] = [
    0x51, 0x4a, 0x27, 0x2c, 0x74, 0x18, 0xec, 0x88, 0x95, 0xdd, 0xac, 0x10, 0x3e, 0x3f, 0x0a, 0x72,
];
/// A license of four bytes for `A02` of `Acme` in the scope `microsoft.com`.
const GRANTED_LICENSE: [u8; 56] = [
    0x72, 0x38, 0xcb, 0x77, 0x96, 0xe8, 0xeb, 0xce, 0x41, 0x38, 0xdd, 0x76, 0x90, 0x6a, 0x1f, 0xd3, 0x5c, 0x38,
    0x41, 0x99, 0x53, 0x28, 0x98, 0x47, 0x0c, 0x03, 0x7e, 0x19, 0x37, 0xb0, 0x3f, 0x46, 0xfd, 0x74, 0x38, 0xd0,
    0x93, 0x3e, 0x5f, 0x4c, 0xfa, 0x93, 0x24, 0x13, 0x80, 0x60, 0x9f, 0x54, 0x59, 0x15, 0xb7, 0x7e, 0x53, 0x9b,
    0xcf, 0xef,
];
const GRANTED_LICENSE_MAC: [u8; 16] = [
    0xfc, 0xc7, 0xc2, 0x50, 0x85, 0xb1, 0xe6, 0x26, 0x9f, 0xbe, 0xd8, 0x60, 0x60, 0x79, 0x80, 0x19,
];
/// Matches its checksum, and is too short to be a license.
const SHORT_LICENSE: [u8; 12] = [0x7b, 0x31, 0xc4, 0x7e, 0x91, 0xe1, 0xe2, 0xc7, 0x25, 0x58, 0xb7, 0x0d];
const SHORT_LICENSE_MAC: [u8; 16] = [
    0x2c, 0xa8, 0xc4, 0x6f, 0x1d, 0x38, 0x8f, 0x91, 0xc0, 0xca, 0xb4, 0x50, 0x2e, 0x18, 0x43, 0x26,
];

/// Builds a Send Data Indication that carries `user_data` as it is.
fn encode_send_data_indication(initiator_id: u16, channel_id: u16, user_data: &[u8]) -> Vec<u8> {
    let pdu = SendDataIndication { initiator_id, channel_id, user_data: Cow::Borrowed(user_data) };
    encode_vec(&X224(pdu)).expect("encoding a Send Data Indication must not fail")
}

fn license_packet(pdu: LicensePdu) -> Vec<u8> {
    encode_send_data_indication(1002, 1003, &encode_vec(&pdu).unwrap())
}

fn header(preamble_message_type: PreambleType) -> LicenseHeader {
    LicenseHeader {
        security_header: BasicSecurityHeader { flags: BasicSecurityHeaderFlags::LICENSE_PKT },
        preamble_message_type,
        preamble_flags: PreambleFlags::empty(),
        preamble_version: PreambleVersion::V3,
        preamble_message_size: 0,
    }
}

fn certificate() -> ServerCertificate {
    ServerCertificate {
        issued_permanently: true,
        certificate: CertificateType::Proprietary(ProprietaryCertificate {
            public_key: RsaPublicKey { public_exponent: 0x0001_0001, modulus: vec![0x5A; 72] },
            signature: vec![7; 8],
        }),
    }
}

fn license_request(server_certificate: Option<ServerCertificate>, scopes: &[&str]) -> Vec<u8> {
    license_packet(LicensePdu::ServerLicenseRequest(ServerLicenseRequest {
        license_header: header(PreambleType::LicenseRequest),
        server_random: vec![0x11; 32],
        product_info: ProductInfo {
            version: 0x0006_0000,
            company_name: "Acme".to_owned(),
            product_id: "A02".to_owned(),
        },
        server_certificate,
        scope_list: scopes.iter().map(|scope| Scope((*scope).to_owned())).collect(),
    }))
}

fn licensing_error(error_code: LicenseErrorCode) -> Vec<u8> {
    license_packet(LicensePdu::LicensingErrorMessage(LicensingErrorMessage {
        license_header: header(PreambleType::ErrorAlert),
        error_code,
        state_transition: LicensingStateTransition::NoTransition,
        error_info: Vec::new(),
    }))
}

fn platform_challenge(mac_data: &[u8]) -> Vec<u8> {
    license_packet(LicensePdu::ServerPlatformChallenge(ServerPlatformChallenge {
        license_header: header(PreambleType::PlatformChallenge),
        encrypted_platform_challenge: CHALLENGE.to_vec(),
        mac_data: mac_data.to_vec(),
    }))
}

fn upgrade_license(license: &[u8], mac_data: &[u8]) -> Vec<u8> {
    license_packet(LicensePdu::ServerUpgradeLicense(ServerUpgradeLicense {
        license_header: header(PreambleType::UpgradeLicense),
        encrypted_license_info: license.to_vec(),
        mac_data: mac_data.to_vec(),
    }))
}

fn keys() -> LicenseEncryptionData {
    LicenseEncryptionData {
        premaster_secret: Vec::new(),
        mac_salt_key: MAC_SALT_KEY.to_vec(),
        license_key: LICENSE_KEY.to_vec(),
    }
}

/// Keeps what it was asked for and what it was handed, and has a license for one scope.
#[derive(Debug, Default)]
struct Shelf {
    has: Option<(&'static str, Vec<u8>)>,
    fails: bool,
    asked: Mutex<Vec<LicenseInformation>>,
    stored: Mutex<Vec<LicenseInformation>>,
}

impl LicenseCache for Shelf {
    fn get_license(&self, license_info: LicenseInformation) -> ConnectorResult<Option<Vec<u8>>> {
        let scope = license_info.scope.clone();
        self.asked.lock().unwrap().push(license_info);
        match &self.has {
            _ if self.fails => Err(ConnectorError::general("the shelf is locked")),
            Some((has, license)) if *has == scope => Ok(Some(license.clone())),
            _ => Ok(None),
        }
    }

    fn store_license(&self, license_info: LicenseInformation) -> ConnectorResult<()> {
        self.stored.lock().unwrap().push(license_info);
        if self.fails {
            Err(ConnectorError::general("the shelf is full"))
        } else {
            Ok(())
        }
    }
}

fn sequence_with(cache: Arc<Shelf>) -> LicenseExchangeSequence<Shelf> {
    LicenseExchangeSequence::new(
        1003,
        "tessera".to_owned(),
        None,
        [0x0000_00AB, 0xDEAD_BEEF, 0, 1],
        cache,
    )
}

fn sequence() -> LicenseExchangeSequence<Shelf> {
    sequence_with(Arc::new(Shelf::default()))
}

fn sent(output: &[u8]) -> (u16, u16, Vec<u8>) {
    match decode::<X224<McsMessage<'_>>>(output).unwrap().0 {
        McsMessage::SendDataRequest(request) => {
            (request.initiator_id, request.channel_id, request.user_data.to_vec())
        }
        other => panic!("unexpected message {other:?}"),
    }
}

#[test]
fn captured_autodetect_probe_is_rejected() {
    assert!(!is_license_packet(&CAPTURED_AUTODETECT_PROBE));
}

#[test]
fn sec_license_pkt_alone_is_accepted() {
    // flags = 0x0080, little-endian.
    let payload = [0x80, 0x00];
    assert!(is_license_packet(&payload));
}

#[test]
fn sec_license_pkt_with_other_bits_is_accepted() {
    // flags = 0x1080, little-endian.
    let payload = [0x80, 0x10];
    assert!(is_license_packet(&payload));
}

#[test]
fn empty_payload_is_rejected_without_panicking() {
    assert!(!is_license_packet(&[]));
}

#[test]
fn one_byte_payload_is_rejected_without_panicking() {
    assert!(!is_license_packet(&[0x80]));
}

/// The flag sits in the first byte: the same bit of the second says nothing.
#[test]
fn the_second_byte_does_not_make_a_license_packet() {
    assert!(!is_license_packet(&[0x00, 0x80]));
    assert!(!is_license_packet(&[0x7F, 0xFF]));
    assert!(is_license_packet(&[0xFF, 0xFF]));
}

/// Repeated probes are counted and never advance the exchange.
#[test]
fn skip_counter_climbs_and_state_stays_put_across_repeated_probes() {
    let mut sequence =
        LicenseExchangeSequence::new(1001, "tessera".to_owned(), None, [0; 4], Arc::new(NoopLicenseCache));

    // An initiator below the lowest user channel could not be encoded.
    let probe_pdu = encode_send_data_indication(1001, 1001, &CAPTURED_AUTODETECT_PROBE);
    let mut output = Vec::new();

    for expected_skip_count in 1..=(SKIP_WARN_THRESHOLD + 2) {
        let written = sequence.step(&probe_pdu, &mut output).expect("skip-and-stay must not error");
        assert!(matches!(written, Written::Nothing));

        assert!(
            matches!(&sequence.state, LicenseExchangeState::NewLicenseRequest { .. }),
            "expected to stay in NewLicenseRequest, got {:?}",
            sequence.state
        );
        if let LicenseExchangeState::NewLicenseRequest { skip_count } = &sequence.state {
            assert_eq!(*skip_count, expected_skip_count);
        }
    }
    assert!(output.is_empty());
}

/// The other states skip in the same way and keep their keys.
#[test]
fn probes_are_skipped_in_every_waiting_state() {
    let probe_pdu = encode_send_data_indication(1002, 1003, &CAPTURED_AUTODETECT_PROBE);
    let mut sequence = sequence();
    sequence.state = LicenseExchangeState::PlatformChallenge { encryption_data: keys(), skip_count: 4 };
    sequence.step(&probe_pdu, &mut Vec::new()).unwrap();
    match &sequence.state {
        LicenseExchangeState::PlatformChallenge { encryption_data, skip_count } => {
            assert_eq!(*skip_count, 5);
            assert_eq!(encryption_data.license_key, LICENSE_KEY);
        }
        other => panic!("unexpected state {other:?}"),
    }
    sequence.state = LicenseExchangeState::UpgradeLicense { encryption_data: keys(), skip_count: 0 };
    sequence.step(&probe_pdu, &mut Vec::new()).unwrap();
    match &sequence.state {
        LicenseExchangeState::UpgradeLicense { encryption_data, skip_count } => {
            assert_eq!(*skip_count, 1);
            assert_eq!(encryption_data.mac_salt_key, MAC_SALT_KEY);
        }
        other => panic!("unexpected state {other:?}"),
    }
}

#[test]
fn machine_names_are_capital_hexadecimal_without_leading_zeros() {
    assert_eq!(machine_name([0, 0, 0, 0]), "0-0-0-0");
    assert_eq!(machine_name([0xAB, 0xDEAD_BEEF, 0x10, u32::MAX]), "AB-DEADBEEF-10-FFFFFFFF");
}

/// Without a license of its own the client asks for a new one, under its user's and its
/// machine's name and with random numbers of its own.
#[test]
fn a_new_license_is_asked_for() {
    let shelf = Arc::new(Shelf::default());
    let mut sequence = sequence_with(Arc::clone(&shelf));
    assert_eq!(sequence.next_pdu_hint(), Some(NextPdu::X224));
    let mut output = vec![0xEE];
    let input = license_request(Some(certificate()), &["first", "second"]);
    let written = sequence.step(&input, &mut output).unwrap();
    assert_eq!(written, Written::Size(output.len() - 1));
    assert_eq!(sequence.state.name(), "PlatformChallenge");

    let (initiator_id, channel_id, user_data) = sent(&output[1..]);
    assert_eq!((initiator_id, channel_id), (1002, 1003));
    let request = match decode::<LicensePdu>(&user_data).unwrap() {
        LicensePdu::ClientNewLicenseRequest(request) => request,
        other => panic!("unexpected PDU {other:?}"),
    };
    assert_eq!(request.client_username.trim_end_matches('\0'), "tessera");
    assert_eq!(request.client_machine_name.trim_end_matches('\0'), "AB-DEADBEEF-0-1");
    assert_eq!(request.client_random.len(), 32);
    match &sequence.state {
        LicenseExchangeState::PlatformChallenge { encryption_data, skip_count } => {
            assert_eq!(*skip_count, 0);
            assert_eq!(encryption_data.premaster_secret.len(), 48);
            assert_eq!(encryption_data.mac_salt_key.len(), 16);
            assert_eq!(encryption_data.license_key.len(), 16);
        }
        other => panic!("unexpected state {other:?}"),
    }

    let asked = shelf.asked.lock().unwrap();
    assert_eq!(
        *asked,
        ["first", "second"]
            .iter()
            .map(|scope| LicenseInformation {
                version: 0x0006_0000,
                scope: (*scope).to_owned(),
                company_name: "Acme".to_owned(),
                product_id: "A02".to_owned(),
                license_info: Vec::new(),
            })
            .collect::<Vec<_>>()
    );

    // Another run draws other random numbers.
    let mut again = sequence_with(Arc::new(Shelf::default()));
    let mut other = Vec::new();
    again.step(&input, &mut other).unwrap();
    match decode::<LicensePdu>(&sent(&other).2).unwrap() {
        LicensePdu::ClientNewLicenseRequest(second) => {
            assert_ne!(second.client_random, request.client_random);
        }
        other => panic!("unexpected PDU {other:?}"),
    }
}

/// The first scope with a license decides: it is presented, and no other scope is asked
/// for.
#[test]
fn a_kept_license_is_presented() {
    let license = vec![0xC5; 21];
    let shelf = Arc::new(Shelf { has: Some(("second", license.clone())), ..Shelf::default() });
    let mut sequence = sequence_with(Arc::clone(&shelf));
    let mut output = Vec::new();
    sequence
        .step(&license_request(Some(certificate()), &["first", "second", "third"]), &mut output)
        .unwrap();
    assert_eq!(sequence.state.name(), "PlatformChallenge");
    let user_data = sent(&output).2;
    assert_eq!(user_data[4], 0x12, "the message is a Client License Info");
    assert!(user_data.windows(license.len()).any(|window| window == license));
    let scopes: Vec<String> = shelf.asked.lock().unwrap().iter().map(|asked| asked.scope.clone()).collect();
    assert_eq!(scopes, ["first", "second"]);
}

#[test]
fn a_failing_shelf_ends_the_exchange() {
    let mut sequence = sequence_with(Arc::new(Shelf { fails: true, ..Shelf::default() }));
    let mut output = Vec::new();
    let error = sequence
        .step(&license_request(Some(certificate()), &["first", "second"]), &mut output)
        .unwrap_err();
    assert_eq!(error.context, "the shelf is locked");
    assert!(output.is_empty());
    assert_eq!(sequence.state.name(), "Consumed");
    assert_eq!(sequence.license_cache.asked.lock().unwrap().len(), 1);
}

/// Nothing can be agreed on with a server that has no certificate.
#[test]
fn a_request_without_a_certificate_cannot_be_answered() {
    for has in [None, Some(("first", vec![1]))] {
        let mut sequence = sequence_with(Arc::new(Shelf { has, ..Shelf::default() }));
        let error = sequence.step(&license_request(None, &["first"]), &mut Vec::new()).unwrap_err();
        assert_eq!(error.context, "ClientNewLicenseRequest");
        assert!(matches!(error.kind, ConnectorErrorKind::License(_)));
        assert_eq!(sequence.state.name(), "Consumed");
    }
}

/// The challenge is answered with the keys that were agreed on.
#[test]
fn a_challenge_is_answered() {
    let mut sequence = sequence();
    sequence.state = LicenseExchangeState::PlatformChallenge { encryption_data: keys(), skip_count: 2 };
    let mut output = Vec::new();
    let written = sequence.step(&platform_challenge(&CHALLENGE_MAC), &mut output).unwrap();
    assert_eq!(written, Written::Size(output.len()));
    let (initiator_id, channel_id, user_data) = sent(&output);
    assert_eq!((initiator_id, channel_id), (1002, 1003));
    let response = match decode::<LicensePdu>(&user_data).unwrap() {
        LicensePdu::ClientPlatformChallengeResponse(response) => response,
        other => panic!("unexpected PDU {other:?}"),
    };
    assert_eq!(response.encrypted_challenge_response_data.len(), 26);
    assert_eq!(response.encrypted_hwid.len(), 20);
    match &sequence.state {
        LicenseExchangeState::UpgradeLicense { encryption_data, skip_count } => {
            assert_eq!(*skip_count, 0);
            assert_eq!(encryption_data.license_key, LICENSE_KEY);
            assert_eq!(encryption_data.mac_salt_key, MAC_SALT_KEY);
        }
        other => panic!("unexpected state {other:?}"),
    }
}

#[test]
fn a_challenge_with_a_wrong_checksum_is_refused() {
    let mut sequence = sequence();
    sequence.state = LicenseExchangeState::PlatformChallenge { encryption_data: keys(), skip_count: 0 };
    let error = sequence.step(&platform_challenge(&[0; 16]), &mut Vec::new()).unwrap_err();
    assert_eq!(error.context, "ClientPlatformChallengeResponse");
    assert!(matches!(error.kind, ConnectorErrorKind::License(_)));
    assert_eq!(sequence.state.name(), "Consumed");
}

/// A granted license is decrypted and stored.
#[test]
fn a_granted_license_is_stored() {
    let shelf = Arc::new(Shelf::default());
    let mut sequence = sequence_with(Arc::clone(&shelf));
    sequence.state = LicenseExchangeState::UpgradeLicense { encryption_data: keys(), skip_count: 0 };
    let mut output = Vec::new();
    let written = sequence.step(&upgrade_license(&GRANTED_LICENSE, &GRANTED_LICENSE_MAC), &mut output).unwrap();
    assert_eq!(written, Written::Nothing);
    assert!(output.is_empty());
    assert!(sequence.state.is_terminal());
    assert_eq!(sequence.next_pdu_hint(), None);
    let stored = shelf.stored.lock().unwrap();
    assert_eq!(stored.len(), 1);
    assert_eq!(stored[0].version, 0x0006_0000);
    assert_eq!(stored[0].scope.trim_end_matches('\0'), "microsoft.com");
    assert_eq!(stored[0].company_name.trim_end_matches('\0'), "Acme");
    assert_eq!(stored[0].product_id.trim_end_matches('\0'), "A02");
    assert_eq!(stored[0].license_info, [1, 2, 3, 4]);
}

#[test]
fn a_license_that_is_not_in_order_is_refused() {
    for (license, mac_data, context) in [
        (&GRANTED_LICENSE[..], &SHORT_LICENSE_MAC, "license verification"),
        (&SHORT_LICENSE[..], &SHORT_LICENSE_MAC, "decode error"),
    ] {
        let shelf = Arc::new(Shelf::default());
        let mut sequence = sequence_with(Arc::clone(&shelf));
        sequence.state = LicenseExchangeState::UpgradeLicense { encryption_data: keys(), skip_count: 0 };
        let error = sequence.step(&upgrade_license(license, mac_data), &mut Vec::new()).unwrap_err();
        assert_eq!(error.context, context);
        assert_eq!(sequence.state.name(), "Consumed");
        assert!(shelf.stored.lock().unwrap().is_empty());
    }

    let mut sequence = sequence_with(Arc::new(Shelf { fails: true, ..Shelf::default() }));
    sequence.state = LicenseExchangeState::UpgradeLicense { encryption_data: keys(), skip_count: 0 };
    let error = sequence
        .step(&upgrade_license(&GRANTED_LICENSE, &GRANTED_LICENSE_MAC), &mut Vec::new())
        .unwrap_err();
    assert_eq!(error.context, "the shelf is full");
    assert_eq!(sequence.state.name(), "Consumed");
}

/// The stream of known keys, and that a message comes back under its own key.
#[test]
fn the_cipher_undoes_itself() {
    assert_eq!(cipher(b"key", b"message"), [0x66, 0x09, 0x47, 0x9E, 0x45, 0xE8, 0x1E]);
    assert_eq!(cipher(b"0", b"message"), [0xE5, 0x1A, 0xD5, 0xF3, 0xA2, 0x1C, 0xB1]);
    assert_eq!(cipher(b"0", b"a"), [0xE9]);
    assert!(cipher(b"key", b"").is_empty());
    let message: Vec<u8> = (0..=255).chain(0..=255).collect();
    assert_ne!(cipher(&LICENSE_KEY, &message), message);
    assert_eq!(cipher(&LICENSE_KEY, &cipher(&LICENSE_KEY, &message)), message);
}

fn field(bytes: &[u8]) -> Vec<u8> {
    let mut field = u32::try_from(bytes.len()).unwrap().to_le_bytes().to_vec();
    field.extend_from_slice(bytes);
    field
}

/// Licenses that match their checksum and end where the length of the next field should
/// stand.
#[test]
fn a_license_that_ends_between_fields_is_refused() {
    let version = 0x0006_0000u32.to_le_bytes().to_vec();
    let cases: [(Vec<u8>, [u8; 16]); 3] = [
        (
            [version.clone(), field(b"example.com\0")].concat(),
            [
                0xde, 0xb6, 0xc2, 0x7c, 0x65, 0x1b, 0xe9, 0x1b, 0x93, 0x5d, 0xf8, 0xbf, 0xdc, 0xa0, 0x6c, 0x81,
            ],
        ),
        (
            [version.clone(), field(b"abc\0"), field(b"A\0\0\0")].concat(),
            [
                0x5d, 0xe7, 0x47, 0x7e, 0x75, 0x25, 0xe2, 0x5f, 0xf9, 0xa0, 0xa7, 0x75, 0xce, 0x7c, 0x91, 0x37,
            ],
        ),
        (
            [version.clone(), field(b""), field(b""), field(b"A\0\0\0")].concat(),
            [
                0xb9, 0x2d, 0xf7, 0xed, 0xd2, 0xc3, 0x4d, 0x03, 0xa6, 0x27, 0xf7, 0xaf, 0xbe, 0xb0, 0x68, 0x71,
            ],
        ),
    ];
    for (plain, mac_data) in cases {
        assert_eq!(plain.len(), 20);
        assert!(!license_holds_lengths(&plain));
        let shelf = Arc::new(Shelf::default());
        let mut sequence = sequence_with(Arc::clone(&shelf));
        sequence.state = LicenseExchangeState::UpgradeLicense { encryption_data: keys(), skip_count: 0 };
        let license = cipher(&LICENSE_KEY, &plain);
        let error = sequence.step(&upgrade_license(&license, &mac_data), &mut Vec::new()).unwrap_err();
        assert_eq!(error.context, "decode error");
        assert!(matches!(error.kind, ConnectorErrorKind::Decode(_)));
        assert_eq!(sequence.state.name(), "Consumed");
        assert!(shelf.stored.lock().unwrap().is_empty());
    }
}

/// Licenses that match their checksum and that the protocol crate refuses by itself: what
/// it says of them comes back.
#[test]
fn a_license_that_the_decoder_refuses_keeps_the_decoders_error() {
    let refused = |plain: &[u8], mac_data: &[u8]| {
        assert!(license_holds_lengths(plain));
        let mut sequence = sequence();
        sequence.state = LicenseExchangeState::UpgradeLicense { encryption_data: keys(), skip_count: 0 };
        let license = cipher(&LICENSE_KEY, plain);
        let error = sequence.step(&upgrade_license(&license, mac_data), &mut Vec::new()).unwrap_err();
        assert_eq!(error.context, "decode error");
        match error.kind {
            ConnectorErrorKind::Decode(error) => error.kind().clone(),
            other => panic!("unexpected error {other:?}"),
        }
    };
    let version = 0x0006_0000u32.to_le_bytes();

    // Shorter than the version and the four lengths.
    assert!(matches!(
        refused(&cipher(&LICENSE_KEY, &SHORT_LICENSE), &SHORT_LICENSE_MAC),
        DecodeErrorKind::NotEnoughBytes { received: 12, expected: 20, .. }
    ));

    // A scope of a hundred bytes, of which twelve are there.
    let past_the_end = [&version[..], &100u32.to_le_bytes(), b"example.com\0"].concat();
    let mac_data = [
        0xeb, 0xfd, 0x43, 0x69, 0x3c, 0x64, 0x34, 0xb7, 0x90, 0x6e, 0x98, 0xb7, 0x85, 0x4b, 0xaa, 0xf5,
    ];
    assert!(matches!(
        refused(&past_the_end, &mac_data),
        DecodeErrorKind::NotEnoughBytes { received: 12, expected: 100, .. }
    ));

    // A scope that is no text, with nothing behind it.
    let no_text = [&version[..], &field(&[0xFF; 12])].concat();
    let mac_data = [
        0x29, 0xec, 0x19, 0xb1, 0x61, 0x72, 0xb1, 0x96, 0x59, 0x91, 0x29, 0x7b, 0xb0, 0xbf, 0xe6, 0x34,
    ];
    assert!(matches!(
        refused(&no_text, &mac_data),
        DecodeErrorKind::InvalidField { field: "buffer", .. }
    ));
}

/// What the protocol crate says of an answer that it cannot make comes back inside the
/// error.
#[test]
fn an_answer_that_cannot_be_made_keeps_its_error() {
    let mut asked = sequence();
    let error = asked
        .request_answered(Err(AnswerError::License(ServerLicenseError::BlobTooSmall)), &mut Vec::new())
        .unwrap_err();
    assert_eq!(error.context, "ClientNewLicenseRequest");
    assert!(matches!(error.kind, ConnectorErrorKind::License(ServerLicenseError::BlobTooSmall)));

    let mut challenged = sequence();
    let unencoded: EncodeError = other_err("challenge", "no room");
    let error = challenged
        .challenge_answered(keys(), Err(AnswerError::Encode(unencoded)), &mut Vec::new())
        .unwrap_err();
    match error.kind {
        ConnectorErrorKind::Encode(error) => {
            assert!(matches!(error.kind(), EncodeErrorKind::Other { description } if *description == "no room"));
        }
        other => panic!("unexpected error {other:?}"),
    }
}

/// The shortest license there is: four fields with nothing in them.
#[test]
fn a_license_of_empty_fields_is_stored() {
    let plain = [0x0006_0000u32.to_le_bytes().to_vec(), field(b""), field(b""), field(b""), field(b"")].concat();
    let mac_data = [
        0xa3, 0x77, 0x63, 0x76, 0x8d, 0x66, 0xbd, 0x6a, 0x51, 0xcf, 0x0a, 0x62, 0x97, 0x68, 0x3d, 0x5f,
    ];
    assert!(license_holds_lengths(&plain));
    let shelf = Arc::new(Shelf::default());
    let mut sequence = sequence_with(Arc::clone(&shelf));
    sequence.state = LicenseExchangeState::UpgradeLicense { encryption_data: keys(), skip_count: 0 };
    let license = cipher(&LICENSE_KEY, &plain);
    let written = sequence.step(&upgrade_license(&license, &mac_data), &mut Vec::new()).unwrap();
    assert_eq!(written, Written::Nothing);
    assert!(sequence.state.is_terminal());
    let stored = shelf.stored.lock().unwrap();
    assert_eq!(stored.len(), 1);
    assert_eq!(stored[0].version, 0x0006_0000);
    assert!(stored[0].scope.is_empty() && stored[0].license_info.is_empty());
}

fn waiting_states() -> Vec<LicenseExchangeState> {
    vec![
        LicenseExchangeState::NewLicenseRequest { skip_count: 0 },
        LicenseExchangeState::PlatformChallenge { encryption_data: keys(), skip_count: 0 },
        LicenseExchangeState::UpgradeLicense { encryption_data: keys(), skip_count: 0 },
    ]
}

/// The server may accept the client or turn it away in every state.
#[test]
fn the_servers_verdict_ends_the_exchange() {
    for state in waiting_states() {
        let mut sequence = sequence();
        sequence.state = state;
        let written = sequence
            .step(&licensing_error(LicenseErrorCode::StatusValidClient), &mut Vec::new())
            .unwrap();
        assert_eq!(written, Written::Nothing);
        assert_eq!(sequence.state.name(), "LicenseExchanged");
    }
    for state in waiting_states() {
        let mut sequence = sequence();
        sequence.state = state;
        let error = sequence
            .step(&licensing_error(LicenseErrorCode::NoLicenseServer), &mut Vec::new())
            .unwrap_err();
        assert_eq!(error.context, "LicensingErrorMessage");
        assert!(matches!(error.kind, ConnectorErrorKind::License(_)));
        assert_eq!(sequence.state.name(), "Consumed");
    }
}

#[test]
fn messages_out_of_order_are_refused() {
    let messages = [
        license_request(None, &[]),
        platform_challenge(&CHALLENGE_MAC),
        upgrade_license(&GRANTED_LICENSE, &GRANTED_LICENSE_MAC),
    ];
    let contexts = [
        "unexpected PDU received during LicenseExchangeState::NewLicenseRequest",
        "unexpected PDU received during LicenseExchangeState::PlatformChallenge",
        "unexpected PDU received during LicenseExchangeState::UpgradeLicense",
    ];
    for (expected, context) in contexts.iter().enumerate() {
        for (index, message) in messages.iter().enumerate() {
            if index != expected {
                let mut sequence = sequence();
                sequence.state = waiting_states().remove(expected);
                let error = sequence.step(message, &mut Vec::new()).unwrap_err();
                assert_eq!(error.context, *context);
                assert!(matches!(error.kind, ConnectorErrorKind::General));
            }
        }
    }
}

#[test]
fn what_cannot_be_decoded_says_where() {
    let contexts = [
        "decode during LicenseExchangeState::NewLicenseRequest",
        "decode during LicenseExchangeState::PlatformChallenge",
        "decode during SERVER_NEW_LICENSE/LicenseExchangeState::UpgradeLicense",
    ];
    for (index, context) in contexts.iter().enumerate() {
        let mut broken = sequence();
        broken.state = waiting_states().remove(index);
        let packet = encode_send_data_indication(1002, 1003, &[0x80, 0x00, 0x00]);
        let error = broken.step(&packet, &mut Vec::new()).unwrap_err();
        assert_eq!(error.context, *context);
        assert!(matches!(error.kind, ConnectorErrorKind::Decode(_)));

        let mut garbled = sequence();
        garbled.state = waiting_states().remove(index);
        let error = garbled.step(&[1, 2, 3], &mut Vec::new()).unwrap_err();
        assert_eq!(error.context, "decode error");
        assert_eq!(garbled.state.name(), "Consumed");
    }
}

/// The place where licenses are kept may also be chosen at run time.
#[test]
fn the_cache_may_be_a_trait_object() {
    let cache: Arc<dyn LicenseCache> = Arc::new(NoopLicenseCache);
    let mut sequence = LicenseExchangeSequence::new(1003, "tessera".to_owned(), None, [0; 4], cache);
    let mut output = Vec::new();
    sequence.step(&license_request(Some(certificate()), &["first"]), &mut output).unwrap();
    assert_eq!(sequence.state.name(), "PlatformChallenge");
    match decode::<LicensePdu>(&sent(&output).2).unwrap() {
        LicensePdu::ClientNewLicenseRequest(request) => {
            assert_eq!(request.client_machine_name.trim_end_matches('\0'), "0-0-0-0");
        }
        other => panic!("unexpected PDU {other:?}"),
    }
}

#[test]
fn warnings_start_past_the_threshold() {
    assert!(!skips_need_warning(SKIP_WARN_THRESHOLD));
    assert!(skips_need_warning(SKIP_WARN_THRESHOLD + 1));
    assert_eq!(security_header_flags(&CAPTURED_AUTODETECT_PROBE), 0x1000);
    assert_eq!(security_header_flags(&[0x80]), 0);
}

#[test]
fn nothing_follows_the_end() {
    let probe_pdu = encode_send_data_indication(1002, 1003, &CAPTURED_AUTODETECT_PROBE);
    let mut sequence = sequence();
    sequence.state = LicenseExchangeState::LicenseExchanged;
    let error = sequence.step(&probe_pdu, &mut Vec::new()).unwrap_err();
    assert_eq!(error.context, "license already exchanged");
    let error = sequence.step(&probe_pdu, &mut Vec::new()).unwrap_err();
    assert_eq!(error.context, "license exchange sequence state is consumed (this is a bug)");
    assert!(matches!(LicenseExchangeState::default(), LicenseExchangeState::Consumed));
}
