//! License messages: what the protocol crate makes of the server's, and what it
//! answers them with.
//!
//! Each message is taken by its bytes, so that what comes of it is a function of plain
//! values.
use vstd::prelude::*;

use ironrdp_core::{DecodeError, EncodeError, WriteBuf};
use ironrdp_pdu::mcs::{encode_send_data_request, SendDataIndicationCtx};
use ironrdp_pdu::rdp::server_license::{
    self, ClientLicenseInfo, ClientNewLicenseRequest, ClientPlatformChallengeResponse,
    LicenseErrorCode, LicensePdu, LicensingErrorMessage, ServerLicenseError,
};
use ironrdp_pdu::utils;

use super::super::license_exchange::{
    EncryptionState, InformationState, LicenseEncryptionData, LicenseInformation,
    PREMASTER_SECRET_SIZE, RANDOM_NUMBER_SIZE,
};
use super::Indication;

verus! {

/// What the client reads of a license message.
#[derive(Debug)]
pub enum LicenseMessage {
    /// The server asks for a license.
    Request(LicenseRequest),
    PlatformChallenge,
    /// The server grants a license, which is enciphered.
    UpgradeLicense(Vec<u8>),
    /// The server accepts the client without more ado.
    ValidClient,
    /// The server reports an error.
    Error(ServerLicenseError),
    /// A message that a server does not send.
    Other,
}

/// The product that a license is asked for, and the scopes in which it may be found.
#[derive(Debug)]
pub struct LicenseRequest {
    pub version: u32,
    pub company_name: String,
    pub product_id: String,
    pub scopes: Vec<String>,
}

#[verifier::ext_equal]
pub enum MessageState {
    Request(RequestState),
    PlatformChallenge,
    UpgradeLicense(Seq<u8>),
    ValidClient,
    Error,
    Other,
}

#[verifier::ext_equal]
pub struct RequestState {
    pub version: u32,
    pub company_name: Seq<char>,
    pub product_id: Seq<char>,
    pub scopes: Seq<Seq<char>>,
}

impl View for LicenseRequest {
    type V = RequestState;

    open spec fn view(&self) -> RequestState {
        RequestState {
            version: self.version,
            company_name: self.company_name@,
            product_id: self.product_id@,
            scopes: self.scopes@.map_values(|scope: String| scope@),
        }
    }
}

impl View for LicenseMessage {
    type V = MessageState;

    open spec fn view(&self) -> MessageState {
        match *self {
            LicenseMessage::Request(request) => MessageState::Request(request@),
            LicenseMessage::PlatformChallenge => MessageState::PlatformChallenge,
            LicenseMessage::UpgradeLicense(license) => MessageState::UpgradeLicense(license@),
            LicenseMessage::ValidClient => MessageState::ValidClient,
            LicenseMessage::Error(_) => MessageState::Error,
            LicenseMessage::Other => MessageState::Other,
        }
    }
}

/// What user data decodes to as a license message, if it does.
pub uninterp spec fn license_message_of(user_data: Seq<u8>) -> Option<MessageState>;

/// Calls `SendDataIndicationCtx::decode_user_data` for a `LicensePdu`: what it gives
/// depends on the user data alone. Nothing is said of its error, nor of the error that
/// `ServerLicenseError::from` makes of one that the server reports.
#[verifier::external_body]
pub(crate) fn decode_license_message(indication: &Indication) -> (result: Result<
    LicenseMessage,
    DecodeError,
>)
    ensures
        match result {
            Ok(message) => license_message_of(indication@.user_data) == Some(message@),
            Err(_) => license_message_of(indication@.user_data) is None,
        },
{
    let Indication { initiator_id, channel_id, user_data } = indication;
    let ctx = SendDataIndicationCtx { initiator_id: *initiator_id, channel_id: *channel_id, user_data };
    Ok(match ctx.decode_user_data::<LicensePdu>()? {
        LicensePdu::ServerLicenseRequest(request) => LicenseMessage::Request(LicenseRequest {
            version: request.product_info.version,
            company_name: request.product_info.company_name,
            product_id: request.product_info.product_id,
            scopes: request.scope_list.into_iter().map(|scope| scope.0).collect(),
        }),
        LicensePdu::ServerPlatformChallenge(_) => LicenseMessage::PlatformChallenge,
        LicensePdu::ServerUpgradeLicense(license) => LicenseMessage::UpgradeLicense(license.encrypted_license_info),
        LicensePdu::LicensingErrorMessage(LicensingErrorMessage { error_code: LicenseErrorCode::StatusValidClient, .. }) => LicenseMessage::ValidClient,
        LicensePdu::LicensingErrorMessage(message) => LicenseMessage::Error(ServerLicenseError::from(message)),
        _ => LicenseMessage::Other,
    })
}

/// A message to the server, and the keys that were agreed on with it.
#[derive(Debug)]
pub struct LicenseAnswer {
    pub message: Vec<u8>,
    pub encryption_data: LicenseEncryptionData,
}

/// Why there is no message to the server.
#[derive(Debug)]
pub enum AnswerError {
    /// It could not be made.
    License(ServerLicenseError),
    /// It was made and could not be encoded.
    Encode(EncodeError),
}

pub enum AnswerFault {
    License,
    Encode,
}

impl View for AnswerError {
    type V = AnswerFault;

    open spec fn view(&self) -> AnswerFault {
        match *self {
            AnswerError::License(_) => AnswerFault::License,
            AnswerError::Encode(_) => AnswerFault::Encode,
        }
    }
}

/// What an answer holds: its bytes and the keys.
pub open spec fn answer_state(result: Result<LicenseAnswer, AnswerError>) -> Result<
    (Seq<u8>, EncryptionState),
    AnswerFault,
> {
    match result {
        Ok(answer) => Ok((answer.message@, answer.encryption_data@)),
        Err(error) => Err(error@),
    }
}

/// The answer to a license request with a license that the client has.
pub uninterp spec fn license_info_of(
    initiator_id: u16,
    channel_id: u16,
    request: Seq<u8>,
    client_random: Seq<u8>,
    premaster_secret: Seq<u8>,
    hardware_id: Seq<u32>,
    license: Seq<u8>,
) -> Result<(Seq<u8>, EncryptionState), AnswerFault>;

/// Calls `ClientLicenseInfo::from_server_license_request`, and encodes what it gives
/// with `ironrdp_pdu::mcs::encode_send_data_request`: the message and the keys depend on
/// the arguments alone. The license key is an MD5 digest. The two random numbers must
/// have the sizes that the message has room for.
#[verifier::external_body]
pub(crate) fn client_license_info(
    indication: &Indication,
    client_random: &[u8],
    premaster_secret: &[u8],
    hardware_id: [u32; 4],
    license: Vec<u8>,
) -> (result: Result<LicenseAnswer, AnswerError>)
    requires
        license_message_of(indication@.user_data) matches Some(MessageState::Request(_)),
        client_random@.len() == RANDOM_NUMBER_SIZE,
        premaster_secret@.len() == PREMASTER_SECRET_SIZE,
    ensures
        answer_state(result) == license_info_of(
            indication@.initiator_id,
            indication@.channel_id,
            indication@.user_data,
            client_random@,
            premaster_secret@,
            hardware_id@,
            license@,
        ),
        result matches Ok(answer) ==> answer.encryption_data@.license_key.len() == 16,
{
    let Ok(LicensePdu::ServerLicenseRequest(request)) = ironrdp_core::decode(&indication.user_data) else {
        return Err(AnswerError::License(ServerLicenseError::UnexpectedLicenseMessage));
    };
    let (message, keys) = ClientLicenseInfo::from_server_license_request(
        &request, client_random, premaster_secret, hardware_id, license,
    ).map_err(AnswerError::License)?;
    let mut buf = WriteBuf::new();
    encode_send_data_request::<LicensePdu>(indication.initiator_id, indication.channel_id, &message.into(), &mut buf).map_err(AnswerError::Encode)?;
    let server_license::LicenseEncryptionData { premaster_secret, mac_salt_key, license_key } = keys;
    Ok(LicenseAnswer {
        message: buf.filled().to_vec(),
        encryption_data: LicenseEncryptionData { premaster_secret, mac_salt_key, license_key },
    })
}

/// The answer to a license request that asks for a new license.
pub uninterp spec fn new_license_request_of(
    initiator_id: u16,
    channel_id: u16,
    request: Seq<u8>,
    client_random: Seq<u8>,
    premaster_secret: Seq<u8>,
    username: Seq<char>,
    machine_name: Seq<char>,
) -> Result<(Seq<u8>, EncryptionState), AnswerFault>;

/// Calls `ClientNewLicenseRequest::from_server_license_request`, and encodes what it
/// gives with `ironrdp_pdu::mcs::encode_send_data_request`: the message and the keys
/// depend on the arguments alone. The license key is an MD5 digest. The two random
/// numbers must have the sizes that the message has room for.
#[verifier::external_body]
pub(crate) fn client_new_license_request(
    indication: &Indication,
    client_random: &[u8],
    premaster_secret: &[u8],
    username: &str,
    machine_name: &str,
) -> (result: Result<LicenseAnswer, AnswerError>)
    requires
        license_message_of(indication@.user_data) matches Some(MessageState::Request(_)),
        client_random@.len() == RANDOM_NUMBER_SIZE,
        premaster_secret@.len() == PREMASTER_SECRET_SIZE,
    ensures
        answer_state(result) == new_license_request_of(
            indication@.initiator_id,
            indication@.channel_id,
            indication@.user_data,
            client_random@,
            premaster_secret@,
            username@,
            machine_name@,
        ),
        result matches Ok(answer) ==> answer.encryption_data@.license_key.len() == 16,
{
    let Ok(LicensePdu::ServerLicenseRequest(request)) = ironrdp_core::decode(&indication.user_data) else {
        return Err(AnswerError::License(ServerLicenseError::UnexpectedLicenseMessage));
    };
    let (message, keys) = ClientNewLicenseRequest::from_server_license_request(
        &request, client_random, premaster_secret, username, machine_name,
    ).map_err(AnswerError::License)?;
    let mut buf = WriteBuf::new();
    encode_send_data_request::<LicensePdu>(indication.initiator_id, indication.channel_id, &message.into(), &mut buf).map_err(AnswerError::Encode)?;
    let server_license::LicenseEncryptionData { premaster_secret, mac_salt_key, license_key } = keys;
    Ok(LicenseAnswer {
        message: buf.filled().to_vec(),
        encryption_data: LicenseEncryptionData { premaster_secret, mac_salt_key, license_key },
    })
}

/// What a message to the server holds.
pub open spec fn message_state(result: Result<Vec<u8>, AnswerError>) -> Result<
    Seq<u8>,
    AnswerFault,
> {
    match result {
        Ok(message) => Ok(message@),
        Err(error) => Err(error@),
    }
}

/// The answer to a platform challenge.
pub uninterp spec fn challenge_response_of(
    initiator_id: u16,
    channel_id: u16,
    challenge: Seq<u8>,
    hardware_id: Seq<u32>,
    keys: EncryptionState,
) -> Result<Seq<u8>, AnswerFault>;

/// Calls `ClientPlatformChallengeResponse::from_server_platform_challenge`, and encodes
/// what it gives with `ironrdp_pdu::mcs::encode_send_data_request`: the message depends
/// on the arguments alone. The license key must hold something: the cipher has no
/// schedule for an empty key.
#[verifier::external_body]
pub(crate) fn client_challenge_response(
    indication: &Indication,
    hardware_id: [u32; 4],
    keys: &LicenseEncryptionData,
) -> (result: Result<Vec<u8>, AnswerError>)
    requires
        license_message_of(indication@.user_data) == Some(MessageState::PlatformChallenge),
        keys@.license_key.len() > 0,
    ensures
        message_state(result) == challenge_response_of(
            indication@.initiator_id,
            indication@.channel_id,
            indication@.user_data,
            hardware_id@,
            keys@,
        ),
{
    let Ok(LicensePdu::ServerPlatformChallenge(challenge)) = ironrdp_core::decode(&indication.user_data) else {
        return Err(AnswerError::License(ServerLicenseError::UnexpectedLicenseMessage));
    };
    let LicenseEncryptionData { premaster_secret, mac_salt_key, license_key } = keys;
    let keys = server_license::LicenseEncryptionData {
        premaster_secret: premaster_secret.clone(),
        mac_salt_key: mac_salt_key.clone(),
        license_key: license_key.clone(),
    };
    let message = ClientPlatformChallengeResponse::from_server_platform_challenge(&challenge, hardware_id, &keys).map_err(AnswerError::License)?;
    let mut buf = WriteBuf::new();
    encode_send_data_request::<LicensePdu>(indication.initiator_id, indication.channel_id, &message.into(), &mut buf).map_err(AnswerError::Encode)?;
    Ok(buf.filled().to_vec())
}

/// A granted license matches its checksum under the given keys.
pub uninterp spec fn license_verifies(license: Seq<u8>, keys: EncryptionState) -> bool;

/// Calls `ServerUpgradeLicense::verify_server_license`: whether a license is accepted
/// depends on its bytes and the keys alone. The license key must hold something: the
/// cipher has no schedule for an empty key.
#[verifier::external_body]
pub(crate) fn verify_server_license(
    indication: &Indication,
    keys: &LicenseEncryptionData,
) -> (result: Result<(), ServerLicenseError>)
    requires
        license_message_of(indication@.user_data) matches Some(MessageState::UpgradeLicense(_)),
        keys@.license_key.len() > 0,
    ensures
        result is Ok <==> license_verifies(indication@.user_data, keys@),
{
    let Ok(LicensePdu::ServerUpgradeLicense(license)) = ironrdp_core::decode(&indication.user_data) else {
        return Err(ServerLicenseError::UnexpectedLicenseMessage);
    };
    license.verify_server_license(&server_license::LicenseEncryptionData {
        premaster_secret: keys.premaster_secret.clone(),
        mac_salt_key: keys.mac_salt_key.clone(),
        license_key: keys.license_key.clone(),
    })
}

/// The two character sets of the texts in a license.
#[derive(Debug, Clone, Copy, PartialEq, Eq, Structural)]
pub enum CharacterSet {
    Ansi,
    Unicode,
}

/// What bytes decode to as a text that a zero ends, if they do.
pub uninterp spec fn text_of(bytes: Seq<u8>, character_set: CharacterSet) -> Option<Seq<char>>;

/// Calls `ironrdp_pdu::utils::decode_string`, which is to stop at a zero: what it gives
/// depends on the bytes and the character set alone. Nothing is said of its error.
#[verifier::external_body]
pub(crate) fn decode_text(bytes: &[u8], character_set: CharacterSet) -> (result: Result<
    String,
    DecodeError,
>)
    ensures
        match result {
            Ok(text) => text_of(bytes@, character_set) == Some(text@),
            Err(_) => text_of(bytes@, character_set) is None,
        },
{
    let character_set = match character_set {
        CharacterSet::Ansi => utils::CharacterSet::Ansi,
        CharacterSet::Unicode => utils::CharacterSet::Unicode,
    };
    utils::decode_string(bytes, character_set, true)
}

/// What a granted license holds under the given keys, if it can be decoded.
pub uninterp spec fn granted_license_of(license: Seq<u8>, keys: EncryptionState) -> Option<
    InformationState,
>;

/// Calls `ServerUpgradeLicense::new_license_info`: what it gives depends on the bytes of
/// the license and the keys alone. Nothing is said of its error. The lengths that it comes
/// to in the deciphered license must lie inside: it reads the later ones unchecked.
#[verifier::external_body]
pub(crate) fn new_license_info(
    indication: &Indication,
    keys: &LicenseEncryptionData,
) -> (result: Result<LicenseInformation, DecodeError>)
    requires
        license_message_of(indication@.user_data) matches Some(
            MessageState::UpgradeLicense(enciphered),
        ) && super::super::license_exchange::is_readable(enciphered, keys@),
        keys@.license_key.len() > 0,
    ensures
        match result {
            Ok(information) => granted_license_of(indication@.user_data, keys@) == Some(
                information@,
            ),
            Err(_) => granted_license_of(indication@.user_data, keys@) is None,
        },
{
    let LicenseEncryptionData { premaster_secret, mac_salt_key, license_key } = keys;
    let keys = server_license::LicenseEncryptionData {
        premaster_secret: premaster_secret.clone(),
        mac_salt_key: mac_salt_key.clone(),
        license_key: license_key.clone(),
    };
    let LicensePdu::ServerUpgradeLicense(license) = ironrdp_core::decode(&indication.user_data)? else {
        return Err(ironrdp_core::other_err("license", "not a granted license"));
    };
    let server_license::LicenseInformation { version, scope, company_name, product_id, license_info } = license.new_license_info(&keys)?;
    Ok(LicenseInformation { version, scope, company_name, product_id, license_info })
}

/// Calls `ironrdp_core::invalid_field_err`: the error that the protocol crate has for a
/// field that is out of order. Nothing is said of it.
#[verifier::external_body]
pub(crate) fn incomplete_license() -> (error: DecodeError) {
    ironrdp_core::invalid_field_err("LicenseInformation", "length", "past the end", None)
}

/// Calls `rand::RngCore::fill_bytes` on the generator of the thread: the number of bytes
/// that was asked for, and any bytes.
#[verifier::external_body]
pub(crate) fn random_bytes(len: usize) -> (bytes: Vec<u8>)
    ensures
        bytes@.len() == len,
{
    let mut bytes = vec![0u8; len];
    rand::RngCore::fill_bytes(&mut rand::rng(), &mut bytes);
    bytes
}

} // verus!
