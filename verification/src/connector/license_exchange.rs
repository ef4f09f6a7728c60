//! The exchange of licenses, as the client sees it.
//!
//! The server asks for a license. The client answers with one that it has or asks for a
//! new one, proves on which machine it runs, and stores what it is granted.
use std::sync::Arc;

use vstd::prelude::*;
use vstd::string::*;

use ironrdp_core::DecodeError;
use ironrdp_pdu::rdp::server_license::ServerLicenseError;

use super::cipher::cipher;
use super::wire::license::{
    client_challenge_response, client_license_info, client_new_license_request,
    decode_license_message, incomplete_license, new_license_info, random_bytes,
    verify_server_license, AnswerError, AnswerFault, LicenseAnswer, LicenseMessage,
    LicenseRequest, MessageState, RequestState,
};
use super::wire::{decode_send_data_indication, Indication, IndicationState};
use super::{
    ConnectorError, ConnectorErrorKind, ConnectorResult, ErrorReport, NextPdu, Written,
};

pub mod laws;
pub mod plaintext;

verus! {

/// Flag of a security header: the packet belongs to the exchange of licenses.
pub const SEC_LICENSE_PKT: u16 = 0x0080;

/// Bytes of the client's random number.
pub const RANDOM_NUMBER_SIZE: usize = 32;

/// Bytes of the premaster secret.
pub const PREMASTER_SECRET_SIZE: usize = 48;

/// Packets that may be skipped in one state before it is worth a warning.
pub const SKIP_WARN_THRESHOLD: u32 = 3;

/// The flags of the security header at the front of user data; none where there is no
/// header.
pub open spec fn security_flags(user_data: Seq<u8>) -> u16 {
    if user_data.len() >= 2 {
        (user_data[0] + 256 * user_data[1]) as u16
    } else {
        0
    }
}

/// User data is a license packet, as its security header says.
pub open spec fn is_license(user_data: Seq<u8>) -> bool {
    user_data.len() >= 2 && security_flags(user_data) & SEC_LICENSE_PKT != 0
}

/// The flags of the security header at the front of user data: the first two bytes, the
/// low one first.
pub fn security_header_flags(user_data: &[u8]) -> (flags: u16)
    ensures
        flags == security_flags(user_data@),
{
    if user_data.len() >= 2 {
        user_data[0] as u16 + 256 * (user_data[1] as u16)
    } else {
        0
    }
}

/// Whether user data is a license packet at all, judged by its security header.
pub fn is_license_packet(user_data: &[u8]) -> (license: bool)
    ensures
        license == is_license(user_data@),
{
    user_data.len() >= 2 && security_header_flags(user_data) & SEC_LICENSE_PKT != 0
}

/// Whether so many packets were skipped in one state that it is worth a warning.
pub fn skips_need_warning(skip_count: u32) -> (yes: bool)
    ensures
        yes == (skip_count > SKIP_WARN_THRESHOLD),
{
    skip_count > SKIP_WARN_THRESHOLD
}

/// The keys that client and server have agreed on.
#[derive(Debug)]
pub struct LicenseEncryptionData {
    pub premaster_secret: Vec<u8>,
    pub mac_salt_key: Vec<u8>,
    pub license_key: Vec<u8>,
}

#[verifier::ext_equal]
pub struct EncryptionState {
    pub premaster_secret: Seq<u8>,
    pub mac_salt_key: Seq<u8>,
    pub license_key: Seq<u8>,
}

impl View for LicenseEncryptionData {
    type V = EncryptionState;

    open spec fn view(&self) -> EncryptionState {
        EncryptionState {
            premaster_secret: self.premaster_secret@,
            mac_salt_key: self.mac_salt_key@,
            license_key: self.license_key@,
        }
    }
}

/// A license, or what one is looked up by.
#[derive(Debug, Clone, PartialEq, Eq, Hash)]
pub struct LicenseInformation {
    pub version: u32,
    pub scope: String,
    pub company_name: String,
    pub product_id: String,
    pub license_info: Vec<u8>,
}

#[verifier::ext_equal]
pub struct InformationState {
    pub version: u32,
    pub scope: Seq<char>,
    pub company_name: Seq<char>,
    pub product_id: Seq<char>,
    pub license_info: Seq<u8>,
}

impl View for LicenseInformation {
    type V = InformationState;

    open spec fn view(&self) -> InformationState {
        InformationState {
            version: self.version,
            scope: self.scope@,
            company_name: self.company_name@,
            product_id: self.product_id@,
            license_info: self.license_info@,
        }
    }
}

impl RequestState {
    /// What a license for one of the scopes is looked up by.
    pub open spec fn wanted(self, scope: int) -> InformationState {
        InformationState {
            version: self.version,
            scope: self.scopes[scope],
            company_name: self.company_name,
            product_id: self.product_id,
            license_info: Seq::empty(),
        }
    }
}

/// Where the user keeps licenses.
pub trait LicenseCache: Sync + Send + core::fmt::Debug {
    fn get_license(&self, license_info: LicenseInformation) -> ConnectorResult<Option<Vec<u8>>>;

    fn store_license(&self, license_info: LicenseInformation) -> ConnectorResult<()>;
}

/// Keeps no license.
#[derive(Debug)]
pub struct NoopLicenseCache;

impl LicenseCache for NoopLicenseCache {
    fn get_license(&self, license_info: LicenseInformation) -> (result: ConnectorResult<
        Option<Vec<u8>>,
    >)
        ensures
            result == Ok::<Option<Vec<u8>>, ConnectorError>(None),
    {
        Ok(None)
    }

    fn store_license(&self, license_info: LicenseInformation) -> (result: ConnectorResult<()>)
        ensures
            result == Ok::<(), ConnectorError>(()),
    {
        Ok(())
    }
}

/// A cache may give this answer when it is asked for a license.
pub open spec fn may_answer<C: LicenseCache + ?Sized>(
    cache: &C,
    wanted: InformationState,
    answer: ConnectorResult<Option<Vec<u8>>>,
) -> bool {
    exists|license_info: LicenseInformation|
        license_info@ == wanted && #[trigger] call_ensures(
            C::get_license,
            (cache, license_info),
            answer,
        )
}

/// A cache may give this answer when it is handed a license.
pub open spec fn may_store<C: LicenseCache + ?Sized>(
    cache: &C,
    granted: InformationState,
    answer: ConnectorResult<()>,
) -> bool {
    exists|license_info: LicenseInformation|
        license_info@ == granted && #[trigger] call_ensures(
            C::store_license,
            (cache, license_info),
            answer,
        )
}

/// What looking for a license may come to, from one of the scopes on: the scopes are
/// asked for in order, and the first answer that is not that there is none is taken.
pub open spec fn may_find<C: LicenseCache + ?Sized>(
    cache: &C,
    request: RequestState,
    scope: int,
    found: ConnectorResult<Option<Seq<u8>>>,
) -> bool
    decreases request.scopes.len() - scope,
{
    if scope < 0 || scope >= request.scopes.len() {
        found == Ok::<Option<Seq<u8>>, ConnectorError>(None)
    } else {
        exists|answer: ConnectorResult<Option<Vec<u8>>>| #[trigger]
            may_answer(cache, request.wanted(scope), answer) && match answer {
                Ok(None) => may_find(cache, request, scope + 1, found),
                Ok(Some(license)) => found == Ok::<Option<Seq<u8>>, ConnectorError>(Some(license@)),
                Err(error) => found == Err::<Option<Seq<u8>>, ConnectorError>(error),
            }
    }
}

/// How far the exchange has come.
#[derive(Debug)]
#[non_exhaustive]
pub enum LicenseExchangeState {
    Consumed,
    NewLicenseRequest {
        /// Packets that were skipped while waiting in this state.
        skip_count: u32,
    },
    PlatformChallenge { encryption_data: LicenseEncryptionData, skip_count: u32 },
    UpgradeLicense { encryption_data: LicenseEncryptionData, skip_count: u32 },
    LicenseExchanged,
}

#[verifier::ext_equal]
pub enum ExchangeState {
    Consumed,
    NewLicenseRequest { skip_count: u32 },
    PlatformChallenge { keys: EncryptionState, skip_count: u32 },
    UpgradeLicense { keys: EncryptionState, skip_count: u32 },
    LicenseExchanged,
}

impl ExchangeState {
    /// The state waits for a license packet.
    pub open spec fn waits(self) -> bool {
        !(self is Consumed) && !(self is LicenseExchanged)
    }

    /// The keys that are held can be used.
    pub open spec fn well_formed(self) -> bool {
        match self {
            ExchangeState::PlatformChallenge { keys, .. } => keys.license_key.len() > 0,
            ExchangeState::UpgradeLicense { keys, .. } => keys.license_key.len() > 0,
            _ => true,
        }
    }

    /// Another skipped packet can be counted.
    pub open spec fn can_count(self) -> bool {
        match self {
            ExchangeState::NewLicenseRequest { skip_count } => skip_count < u32::MAX,
            ExchangeState::PlatformChallenge { skip_count, .. } => skip_count < u32::MAX,
            ExchangeState::UpgradeLicense { skip_count, .. } => skip_count < u32::MAX,
            _ => true,
        }
    }

    /// The same state with one more packet skipped.
    pub open spec fn skipped(self) -> Self {
        match self {
            ExchangeState::NewLicenseRequest { skip_count } => ExchangeState::NewLicenseRequest {
                skip_count: (skip_count + 1) as u32,
            },
            ExchangeState::PlatformChallenge { keys, skip_count } =>
                ExchangeState::PlatformChallenge { keys, skip_count: (skip_count + 1) as u32 },
            ExchangeState::UpgradeLicense { keys, skip_count } => ExchangeState::UpgradeLicense {
                keys,
                skip_count: (skip_count + 1) as u32,
            },
            state => state,
        }
    }

    /// What user data that cannot be decoded is said to have come up in.
    pub open spec fn decode_context(self) -> Seq<char> {
        match self {
            ExchangeState::NewLicenseRequest { .. } =>
                "decode during LicenseExchangeState::NewLicenseRequest"@,
            ExchangeState::PlatformChallenge { .. } =>
                "decode during LicenseExchangeState::PlatformChallenge"@,
            _ => "decode during SERVER_NEW_LICENSE/LicenseExchangeState::UpgradeLicense"@,
        }
    }

    /// What is said of a message that the state does not expect.
    pub open spec fn unexpected_context(self) -> Seq<char> {
        match self {
            ExchangeState::NewLicenseRequest { .. } =>
                "unexpected PDU received during LicenseExchangeState::NewLicenseRequest"@,
            ExchangeState::PlatformChallenge { .. } =>
                "unexpected PDU received during LicenseExchangeState::PlatformChallenge"@,
            _ => "unexpected PDU received during LicenseExchangeState::UpgradeLicense"@,
        }
    }
}

impl View for LicenseExchangeState {
    type V = ExchangeState;

    open spec fn view(&self) -> ExchangeState {
        match *self {
            LicenseExchangeState::Consumed => ExchangeState::Consumed,
            LicenseExchangeState::NewLicenseRequest { skip_count } =>
                ExchangeState::NewLicenseRequest { skip_count },
            LicenseExchangeState::PlatformChallenge { encryption_data, skip_count } =>
                ExchangeState::PlatformChallenge { keys: encryption_data@, skip_count },
            LicenseExchangeState::UpgradeLicense { encryption_data, skip_count } =>
                ExchangeState::UpgradeLicense { keys: encryption_data@, skip_count },
            LicenseExchangeState::LicenseExchanged => ExchangeState::LicenseExchanged,
        }
    }
}

impl Default for LicenseExchangeState {
    fn default() -> (state: Self)
        ensures
            state is Consumed,
    {
        LicenseExchangeState::Consumed
    }
}

impl LicenseExchangeState {
    pub open spec fn name_text(self) -> Seq<char> {
        match self {
            LicenseExchangeState::Consumed => "Consumed"@,
            LicenseExchangeState::NewLicenseRequest { .. } => "NewLicenseRequest"@,
            LicenseExchangeState::PlatformChallenge { .. } => "PlatformChallenge"@,
            LicenseExchangeState::UpgradeLicense { .. } => "UpgradeLicense"@,
            LicenseExchangeState::LicenseExchanged => "LicenseExchanged"@,
        }
    }

    pub fn name(&self) -> (name: &'static str)
        ensures
            name@ == self.name_text(),
    {
        match self {
            LicenseExchangeState::Consumed => "Consumed",
            LicenseExchangeState::NewLicenseRequest { .. } => "NewLicenseRequest",
            LicenseExchangeState::PlatformChallenge { .. } => "PlatformChallenge",
            LicenseExchangeState::UpgradeLicense { .. } => "UpgradeLicense",
            LicenseExchangeState::LicenseExchanged => "LicenseExchanged",
        }
    }

    pub fn is_terminal(&self) -> (terminal: bool)
        ensures
            terminal == (*self is LicenseExchanged),
    {
        match self {
            LicenseExchangeState::LicenseExchanged => true,
            _ => false,
        }
    }
}

impl LicenseExchangeState {
    /// The same state with one more packet skipped.
    fn skipped(self) -> (state: Self)
        requires
            self@.can_count(),
        ensures
            state@ == self@.skipped(),
    {
        match self {
            LicenseExchangeState::NewLicenseRequest { skip_count } =>
                LicenseExchangeState::NewLicenseRequest { skip_count: skip_count + 1 },
            LicenseExchangeState::PlatformChallenge { encryption_data, skip_count } =>
                LicenseExchangeState::PlatformChallenge {
                encryption_data,
                skip_count: skip_count + 1,
            },
            LicenseExchangeState::UpgradeLicense { encryption_data, skip_count } =>
                LicenseExchangeState::UpgradeLicense {
                encryption_data,
                skip_count: skip_count + 1,
            },
            state => state,
        }
    }

    fn decode_context(&self) -> (context: &'static str)
        ensures
            context@ == self@.decode_context(),
    {
        match self {
            LicenseExchangeState::NewLicenseRequest { .. } =>
                "decode during LicenseExchangeState::NewLicenseRequest",
            LicenseExchangeState::PlatformChallenge { .. } =>
                "decode during LicenseExchangeState::PlatformChallenge",
            _ => "decode during SERVER_NEW_LICENSE/LicenseExchangeState::UpgradeLicense",
        }
    }

    fn unexpected_context(&self) -> (context: &'static str)
        ensures
            context@ == self@.unexpected_context(),
    {
        match self {
            LicenseExchangeState::NewLicenseRequest { .. } =>
                "unexpected PDU received during LicenseExchangeState::NewLicenseRequest",
            LicenseExchangeState::PlatformChallenge { .. } =>
                "unexpected PDU received during LicenseExchangeState::PlatformChallenge",
            _ => "unexpected PDU received during LicenseExchangeState::UpgradeLicense",
        }
    }
}

/// The license exchange of a client.
#[derive(Debug)]
pub struct LicenseExchangeSequence<C: ?Sized> {
    pub state: LicenseExchangeState,
    pub io_channel_id: u16,
    pub username: String,
    pub domain: Option<String>,
    pub hardware_id: [u32; 4],
    pub license_cache: Arc<C>,
}

/// What a license exchange holds, apart from the licenses that the user keeps.
#[verifier::ext_equal]
pub struct Exchange {
    pub state: ExchangeState,
    pub io_channel_id: u16,
    pub username: Seq<char>,
    pub domain: Option<Seq<char>>,
    pub hardware_id: Seq<u32>,
}

impl<C: ?Sized> View for LicenseExchangeSequence<C> {
    type V = Exchange;

    open spec fn view(&self) -> Exchange {
        Exchange {
            state: self.state@,
            io_channel_id: self.io_channel_id,
            username: self.username@,
            domain: match self.domain {
                Some(domain) => Some(domain@),
                None => None,
            },
            hardware_id: self.hardware_id@,
        }
    }
}

/// What a step makes of an exchange: what it is afterwards, what the step returns, and
/// what it appends to the output.
#[verifier::ext_equal]
pub struct Exchanged {
    pub after: Exchange,
    pub result: Result<Written, ErrorReport>,
    pub output: Seq<u8>,
}

/// What a step gets from elsewhere: two random numbers, and what the user's licenses
/// come to.
pub struct Supplied {
    pub client_random: Seq<u8>,
    pub premaster_secret: Seq<u8>,
    pub found: ConnectorResult<Option<Seq<u8>>>,
    pub stored: ConnectorResult<()>,
}

impl Supplied {
    /// What is supplied where nothing is used.
    pub open spec fn nothing() -> Self {
        Supplied {
            client_random: Seq::new(RANDOM_NUMBER_SIZE as nat, |i: int| 0u8),
            premaster_secret: Seq::new(PREMASTER_SECRET_SIZE as nat, |i: int| 0u8),
            found: Ok(None),
            stored: Ok(()),
        }
    }
}

/// The name of the machine: the four numbers of its hardware, in capital hexadecimal
/// digits.
pub open spec fn machine_name_of(hardware_id: Seq<u32>) -> Seq<char> {
    crate::text::hex_text(hardware_id[0] as nat) + "-"@ + crate::text::hex_text(
        hardware_id[1] as nat,
    ) + "-"@ + crate::text::hex_text(hardware_id[2] as nat) + "-"@ + crate::text::hex_text(
        hardware_id[3] as nat,
    )
}

/// The name of the machine.
pub fn machine_name(hardware_id: [u32; 4]) -> (name: String)
    ensures
        name@ == machine_name_of(hardware_id@),
{
    let mut name: String = crate::text::hex(hardware_id[0]);
    name.append("-");
    name.append(crate::text::hex(hardware_id[1]).as_str());
    name.append("-");
    name.append(crate::text::hex(hardware_id[2]).as_str());
    name.append("-");
    name.append(crate::text::hex(hardware_id[3]).as_str());
    name
}

impl Exchange {
    pub open spec fn in_state(self, state: ExchangeState) -> Self {
        Exchange { state, ..self }
    }

    /// A step that fails: nothing follows it.
    pub open spec fn fails(self, error: ErrorReport) -> Exchanged {
        Exchanged {
            after: self.in_state(ExchangeState::Consumed),
            result: Err(error),
            output: Seq::empty(),
        }
    }

    /// A step that writes nothing.
    pub open spec fn quietly(self, state: ExchangeState) -> Exchanged {
        Exchanged {
            after: self.in_state(state),
            result: Ok(Written::Nothing),
            output: Seq::empty(),
        }
    }

    /// A step that writes a message.
    pub open spec fn sends(self, message: Seq<u8>, state: ExchangeState) -> Exchanged {
        match super::written_size(message.len()) {
            Ok(written) => Exchanged {
                after: self.in_state(state),
                result: Ok(written),
                output: message,
            },
            Err(error) => Exchanged {
                after: self.in_state(ExchangeState::Consumed),
                result: Err(error),
                output: message,
            },
        }
    }

    /// The answer to a license request is sent, if there is one.
    pub open spec fn request_answered(
        self,
        answer: Result<(Seq<u8>, EncryptionState), AnswerFault>,
    ) -> Exchanged {
        match answer {
            Ok((message, keys)) => self.sends(
                message,
                ExchangeState::PlatformChallenge { keys, skip_count: 0 },
            ),
            Err(AnswerFault::License) => self.fails(
                ErrorReport::license("ClientNewLicenseRequest"@),
            ),
            Err(AnswerFault::Encode) => self.fails(ErrorReport::encode()),
        }
    }

    /// The answer to a license request: with a license of the user's, if there is one,
    /// and a request for a new one otherwise.
    pub open spec fn answer_to_request(
        self,
        indication: IndicationState,
        found: Option<Seq<u8>>,
        client_random: Seq<u8>,
        premaster_secret: Seq<u8>,
    ) -> Result<(Seq<u8>, EncryptionState), AnswerFault> {
        match found {
            Some(license) => super::wire::license::license_info_of(
                indication.initiator_id,
                indication.channel_id,
                indication.user_data,
                client_random,
                premaster_secret,
                self.hardware_id,
                license,
            ),
            None => super::wire::license::new_license_request_of(
                indication.initiator_id,
                indication.channel_id,
                indication.user_data,
                client_random,
                premaster_secret,
                self.username,
                machine_name_of(self.hardware_id),
            ),
        }
    }

    /// The answer to a platform challenge is sent, if there is one.
    pub open spec fn challenge_answered(
        self,
        keys: EncryptionState,
        answer: Result<Seq<u8>, AnswerFault>,
    ) -> Exchanged {
        match answer {
            Ok(message) => self.sends(
                message,
                ExchangeState::UpgradeLicense { keys, skip_count: 0 },
            ),
            Err(AnswerFault::License) => self.fails(
                ErrorReport::license("ClientPlatformChallengeResponse"@),
            ),
            Err(AnswerFault::Encode) => self.fails(ErrorReport::encode()),
        }
    }

    /// A license is granted: it is checked and stored.
    pub open spec fn granted(
        self,
        license: Seq<u8>,
        enciphered: Seq<u8>,
        keys: EncryptionState,
        stored: ConnectorResult<()>,
    ) -> Exchanged {
        if !super::wire::license::license_verifies(license, keys) {
            self.fails(ErrorReport::license("license verification"@))
        } else if !is_readable(enciphered, keys) {
            self.fails(ErrorReport::decode())
        } else if super::wire::license::granted_license_of(license, keys) is None {
            self.fails(ErrorReport::decode())
        } else {
            match stored {
                Ok(_) => self.quietly(ExchangeState::LicenseExchanged),
                Err(error) => self.fails(error@),
            }
        }
    }

    /// A license message arrived in a state that waits for one.
    pub open spec fn told(
        self,
        indication: IndicationState,
        message: MessageState,
        supplied: Supplied,
    ) -> Exchanged {
        match (message, self.state) {
            (MessageState::ValidClient, _) => self.quietly(ExchangeState::LicenseExchanged),
            (MessageState::Error, _) => self.fails(ErrorReport::license("LicensingErrorMessage"@)),
            (MessageState::Request(_), ExchangeState::NewLicenseRequest { .. }) =>
                match supplied.found {
                Err(error) => self.fails(error@),
                Ok(found) => self.request_answered(
                    self.answer_to_request(
                        indication,
                        found,
                        supplied.client_random,
                        supplied.premaster_secret,
                    ),
                ),
            },
            (MessageState::PlatformChallenge, ExchangeState::PlatformChallenge { keys, .. }) =>
                self.challenge_answered(
                keys,
                super::wire::license::challenge_response_of(
                    indication.initiator_id,
                    indication.channel_id,
                    indication.user_data,
                    self.hardware_id,
                    keys,
                ),
            ),
            (
                MessageState::UpgradeLicense(enciphered),
                ExchangeState::UpgradeLicense { keys, .. },
            ) => self.granted(indication.user_data, enciphered, keys, supplied.stored),
            _ => self.fails(ErrorReport::general(self.state.unexpected_context())),
        }
    }

    /// A Send Data Indication arrived in a state that waits for one.
    pub open spec fn indicated(self, indication: IndicationState, supplied: Supplied) -> Exchanged {
        if !is_license(indication.user_data) {
            self.quietly(self.state.skipped())
        } else {
            match super::wire::license::license_message_of(indication.user_data) {
                None => self.fails(ErrorReport::decode_during(self.state.decode_context())),
                Some(message) => self.told(indication, message, supplied),
            }
        }
    }

    /// A PDU arrived.
    pub open spec fn stepped(self, input: Seq<u8>, supplied: Supplied) -> Exchanged {
        match self.state {
            ExchangeState::Consumed => self.fails(
                ErrorReport::general(
                    "license exchange sequence state is consumed (this is a bug)"@,
                ),
            ),
            ExchangeState::LicenseExchanged => self.fails(
                ErrorReport::general("license already exchanged"@),
            ),
            _ => match super::wire::indication_of(input) {
                None => self.fails(ErrorReport::decode()),
                Some(indication) => self.indicated(indication, supplied),
            },
        }
    }

    /// What a step may get from elsewhere on a Send Data Indication, with the given
    /// licenses of the user's: they are asked only where the server asks for a license,
    /// and handed one only where it grants one that is in order.
    pub open spec fn may_get<C: LicenseCache + ?Sized>(
        self,
        cache: &C,
        indication: Option<IndicationState>,
        supplied: Supplied,
    ) -> bool {
        &&& supplied.client_random.len() == RANDOM_NUMBER_SIZE
        &&& supplied.premaster_secret.len() == PREMASTER_SECRET_SIZE
        &&& match (self.state, message_in(indication)) {
            (
                ExchangeState::NewLicenseRequest { .. },
                Some(MessageState::Request(request)),
            ) => {
                &&& may_find(cache, request, 0, supplied.found)
                &&& may_be_drawn(RANDOM_NUMBER_SIZE, supplied.client_random)
                &&& may_be_drawn(PREMASTER_SECRET_SIZE, supplied.premaster_secret)
            },
            (
                ExchangeState::UpgradeLicense { keys, .. },
                Some(MessageState::UpgradeLicense(enciphered)),
            ) => may_keep(cache, indication->0.user_data, enciphered, keys, supplied.stored),
            _ => true,
        }
    }
}

/// Reading a granted license, once it is deciphered, comes to no length that lies outside.
pub open spec fn is_readable(enciphered: Seq<u8>, keys: EncryptionState) -> bool {
    plaintext::holds_lengths(super::cipher::ciphered(keys.license_key, enciphered))
}

/// What handing a granted license to the user may come to: it is handed over if it
/// matches its checksum and can be decoded.
pub open spec fn may_keep<C: LicenseCache + ?Sized>(
    cache: &C,
    license: Seq<u8>,
    enciphered: Seq<u8>,
    keys: EncryptionState,
    stored: ConnectorResult<()>,
) -> bool {
    super::wire::license::license_verifies(license, keys) && is_readable(enciphered, keys) ==>
        match super::wire::license::granted_license_of(license, keys) {
        Some(granted) => may_store(cache, granted, stored),
        None => true,
    }
}

/// Drawing so many random bytes may give these.
pub closed spec fn may_be_drawn(len: usize, bytes: Seq<u8>) -> bool {
    exists|drawn: Vec<u8>| drawn@ == bytes && #[trigger] call_ensures(random_bytes, (len,), drawn)
}

/// Decoding user data as a license message may give this error.
pub closed spec fn message_fault(indication: IndicationState, error: DecodeError) -> bool {
    exists|received: Indication|
        received@ == indication && #[trigger] call_ensures(
            decode_license_message,
            (&received,),
            Err(error),
        )
}

/// A license message may report this error of the server's.
pub closed spec fn reported(indication: IndicationState, error: ServerLicenseError) -> bool {
    exists|received: Indication|
        received@ == indication && #[trigger] call_ensures(
            decode_license_message,
            (&received,),
            Ok(LicenseMessage::Error(error)),
        )
}

/// Answering a license request with a license may give this error.
pub closed spec fn license_info_fault(
    indication: IndicationState,
    client_random: Seq<u8>,
    premaster_secret: Seq<u8>,
    hardware_id: Seq<u32>,
    license: Seq<u8>,
    error: AnswerError,
) -> bool {
    exists|
        received: Indication,
        random: &[u8],
        secret: &[u8],
        hardware: [u32; 4],
        kept: Vec<u8>,
    |
        received@ == indication && random@ == client_random && secret@ == premaster_secret
            && hardware@ == hardware_id && kept@ == license && #[trigger] call_ensures(
            client_license_info,
            (&received, random, secret, hardware, kept),
            Err(error),
        )
}

/// Answering a license request with one for a new license may give this error.
pub closed spec fn new_license_fault(
    indication: IndicationState,
    client_random: Seq<u8>,
    premaster_secret: Seq<u8>,
    username: Seq<char>,
    machine_name: Seq<char>,
    error: AnswerError,
) -> bool {
    exists|received: Indication, random: &[u8], secret: &[u8], user: &str, machine: &str|
        received@ == indication && random@ == client_random && secret@ == premaster_secret
            && user@ == username && machine@ == machine_name && #[trigger] call_ensures(
            client_new_license_request,
            (&received, random, secret, user, machine),
            Err(error),
        )
}

/// Answering a platform challenge may give this error.
pub closed spec fn challenge_fault(
    indication: IndicationState,
    hardware_id: Seq<u32>,
    keys: EncryptionState,
    error: AnswerError,
) -> bool {
    exists|received: Indication, hardware: [u32; 4], encryption_data: LicenseEncryptionData|
        received@ == indication && hardware@ == hardware_id && encryption_data@ == keys
            && #[trigger] call_ensures(
            client_challenge_response,
            (&received, hardware, &encryption_data),
            Err(error),
        )
}

/// Verifying a granted license may give this error.
pub closed spec fn verification_fault(
    indication: IndicationState,
    keys: EncryptionState,
    error: ServerLicenseError,
) -> bool {
    exists|received: Indication, encryption_data: LicenseEncryptionData|
        received@ == indication && encryption_data@ == keys && #[trigger] call_ensures(
            verify_server_license,
            (&received, &encryption_data),
            Err(error),
        )
}

/// Decoding a granted license may give this error.
pub closed spec fn license_fault(
    indication: IndicationState,
    keys: EncryptionState,
    error: DecodeError,
) -> bool {
    exists|received: Indication, encryption_data: LicenseEncryptionData|
        received@ == indication && encryption_data@ == keys && #[trigger] call_ensures(
            new_license_info,
            (&received, &encryption_data),
            Err(error),
        )
}

/// Why there is no message to the server, where that is what an error is about.
pub open spec fn answer_error(kind: ConnectorErrorKind) -> Option<AnswerError> {
    match kind {
        ConnectorErrorKind::License(error) => Some(AnswerError::License(error)),
        ConnectorErrorKind::Encode(error) => Some(AnswerError::Encode(error)),
        _ => None,
    }
}

impl Exchange {
    /// Answering a license request may give this error.
    pub open spec fn request_fault(
        self,
        indication: IndicationState,
        found: Option<Seq<u8>>,
        client_random: Seq<u8>,
        premaster_secret: Seq<u8>,
        error: AnswerError,
    ) -> bool {
        match found {
            Some(license) => license_info_fault(
                indication,
                client_random,
                premaster_secret,
                self.hardware_id,
                license,
                error,
            ),
            None => new_license_fault(
                indication,
                client_random,
                premaster_secret,
                self.username,
                machine_name_of(self.hardware_id),
                error,
            ),
        }
    }

    /// Whose error comes back where a granted license cannot be kept: the one that
    /// verifying or decoding it gave, or the user's own, as it is.
    pub open spec fn may_say_of_license(
        self,
        indication: IndicationState,
        enciphered: Seq<u8>,
        keys: EncryptionState,
        stored: ConnectorResult<()>,
        error: ConnectorError,
    ) -> bool {
        let license = indication.user_data;
        if !super::wire::license::license_verifies(license, keys) {
            error.kind matches ConnectorErrorKind::License(invalid) && verification_fault(
                indication,
                keys,
                invalid,
            )
        } else if !is_readable(enciphered, keys) {
            true
        } else if super::wire::license::granted_license_of(license, keys) is None {
            error.kind matches ConnectorErrorKind::Decode(undecoded) && license_fault(
                indication,
                keys,
                undecoded,
            )
        } else {
            stored == Err::<(), ConnectorError>(error)
        }
    }

    /// Whose error comes back where a license message ends the exchange: what the
    /// protocol crate said of it, or the user's own, as it is.
    pub open spec fn may_say_of(
        self,
        indication: IndicationState,
        message: MessageState,
        supplied: Supplied,
        error: ConnectorError,
    ) -> bool {
        match (message, self.state) {
            (MessageState::Error, _) => error.kind matches ConnectorErrorKind::License(told)
                && reported(indication, told),
            (MessageState::Request(_), ExchangeState::NewLicenseRequest { .. }) =>
                match supplied.found {
                Err(own) => error == own,
                Ok(found) => answer_error(error.kind) matches Some(fault) ==> self.request_fault(
                    indication,
                    found,
                    supplied.client_random,
                    supplied.premaster_secret,
                    fault,
                ),
            },
            (MessageState::PlatformChallenge, ExchangeState::PlatformChallenge { keys, .. }) =>
                answer_error(error.kind) matches Some(fault) ==> challenge_fault(
                indication,
                self.hardware_id,
                keys,
                fault,
            ),
            (
                MessageState::UpgradeLicense(enciphered),
                ExchangeState::UpgradeLicense { keys, .. },
            ) => self.may_say_of_license(indication, enciphered, keys, supplied.stored, error),
            _ => true,
        }
    }

    /// Whose error comes back where a Send Data Indication ends the exchange.
    pub open spec fn may_say_on(
        self,
        indication: IndicationState,
        supplied: Supplied,
        error: ConnectorError,
    ) -> bool {
        match message_in(Some(indication)) {
            Some(message) => self.may_say_of(indication, message, supplied, error),
            None => error.kind matches ConnectorErrorKind::Decode(undecoded) && message_fault(
                indication,
                undecoded,
            ),
        }
    }

    /// Whose error comes back where a PDU ends the exchange.
    pub open spec fn may_say(
        self,
        input: Seq<u8>,
        supplied: Supplied,
        error: ConnectorError,
    ) -> bool {
        self.state.waits() ==> match super::wire::indication_of(input) {
            Some(indication) => self.may_say_on(indication, supplied, error),
            None => error.kind matches ConnectorErrorKind::Decode(undecoded)
                && super::wire::indication_fault(input, undecoded),
        }
    }
}

/// The license message in a Send Data Indication.
pub open spec fn message_in(indication: Option<IndicationState>) -> Option<MessageState> {
    match indication {
        Some(indication) => if is_license(indication.user_data) {
            super::wire::license::license_message_of(indication.user_data)
        } else {
            None
        },
        None => None,
    }
}

/// The bytes of a license.
pub open spec fn license_state(license: Option<Vec<u8>>) -> Option<Seq<u8>> {
    match license {
        Some(license) => Some(license@),
        None => None,
    }
}

impl<C: LicenseCache + ?Sized> LicenseExchangeSequence<C> {
    pub fn new(
        io_channel_id: u16,
        username: String,
        domain: Option<String>,
        hardware_id: [u32; 4],
        license_cache: Arc<C>,
    ) -> (sequence: Self)
        ensures
            sequence == (LicenseExchangeSequence {
                state: LicenseExchangeState::NewLicenseRequest { skip_count: 0 },
                io_channel_id,
                username,
                domain,
                hardware_id,
                license_cache,
            }),
            sequence@.state.well_formed(),
    {
        Self {
            state: LicenseExchangeState::NewLicenseRequest { skip_count: 0 },
            io_channel_id,
            username,
            domain,
            hardware_id,
            license_cache,
        }
    }

    /// What the next PDU is to be read as, if the sequence waits for one.
    pub fn next_pdu_hint(&self) -> (hint: Option<NextPdu>)
        ensures
            hint == if self@.state.waits() {
                Some(NextPdu::X224)
            } else {
                None
            },
    {
        match self.state {
            LicenseExchangeState::Consumed => None,
            LicenseExchangeState::LicenseExchanged => None,
            _ => Some(NextPdu::X224),
        }
    }

    /// Looks for a license of the user's, scope by scope.
    pub fn find_license(&self, request: &LicenseRequest) -> (found: ConnectorResult<
        Option<Vec<u8>>,
    >)
        ensures
            may_find(&*self.license_cache, request@, 0, found_state(found)),
    {
        let mut i: usize = 0;
        while i < request.scopes.len()
            invariant
                i <= request.scopes@.len(),
                forall|found: ConnectorResult<Option<Seq<u8>>>| #[trigger]
                    may_find(&*self.license_cache, request@, i as int, found) ==> may_find(
                        &*self.license_cache,
                        request@,
                        0,
                        found,
                    ),
            decreases request.scopes@.len() - i,
        {
            let license_info: LicenseInformation = LicenseInformation {
                version: request.version,
                scope: request.scopes[i].clone(),
                company_name: request.company_name.clone(),
                product_id: request.product_id.clone(),
                license_info: Vec::new(),
            };
            assert(license_info@ =~= request@.wanted(i as int));
            let answer: ConnectorResult<Option<Vec<u8>>> = self.license_cache.get_license(
                license_info,
            );
            assert(may_answer(&*self.license_cache, request@.wanted(i as int), answer));
            match answer {
                Ok(None) => {},
                Ok(Some(license)) => {
                    assert(may_find(
                        &*self.license_cache,
                        request@,
                        i as int,
                        Ok::<Option<Seq<u8>>, ConnectorError>(Some(license@)),
                    ));
                    return Ok(Some(license));
                },
                Err(error) => {
                    assert(may_find(
                        &*self.license_cache,
                        request@,
                        i as int,
                        Err::<Option<Seq<u8>>, ConnectorError>(error),
                    ));
                    return Err(error);
                },
            }
            assert forall|found: ConnectorResult<Option<Seq<u8>>>| #[trigger]
                may_find(&*self.license_cache, request@, i + 1, found) implies may_find(
                &*self.license_cache,
                request@,
                0,
                found,
            ) by {
                assert(may_find(&*self.license_cache, request@, i as int, found));
            }
            i += 1;
        }
        assert(may_find(
            &*self.license_cache,
            request@,
            i as int,
            Ok::<Option<Seq<u8>>, ConnectorError>(None),
        ));
        Ok(None)
    }

    /// Fails: nothing follows.
    fn fail(&mut self, error: ConnectorError) -> (result: ConnectorResult<Written>)
        ensures
            final(self)@ == old(self)@.fails(error@).after,
            super::report(result) == old(self)@.fails(error@).result,
            result == Err::<Written, ConnectorError>(error),
            final(self).license_cache == old(self).license_cache,
    {
        self.state = LicenseExchangeState::Consumed;
        assert(self@ =~= old(self)@.in_state(ExchangeState::Consumed));
        Err(error)
    }

    /// Goes on without writing anything.
    fn go_on(&mut self, state: LicenseExchangeState) -> (result: ConnectorResult<Written>)
        ensures
            final(self)@ == old(self)@.quietly(state@).after,
            super::report(result) == old(self)@.quietly(state@).result,
            final(self).license_cache == old(self).license_cache,
    {
        self.state = state;
        assert(self@ =~= old(self)@.in_state(state@));
        Ok(Written::Nothing)
    }

    /// Writes a message and goes on.
    fn send(&mut self, message: Vec<u8>, state: LicenseExchangeState, output: &mut Vec<u8>) -> (result:
        ConnectorResult<Written>)
        ensures
            final(self)@ == old(self)@.sends(message@, state@).after,
            super::report(result) == old(self)@.sends(message@, state@).result,
            final(output)@ == old(output)@ + message@,
            final(self).license_cache == old(self).license_cache,
    {
        output.extend_from_slice(message.as_slice());
        match Written::from_size(message.len()) {
            Ok(written) => {
                self.state = state;
                assert(self@ =~= old(self)@.in_state(state@));
                Ok(written)
            },
            Err(error) => self.fail(error),
        }
    }

    /// Sends the answer to a license request, if there is one.
    pub fn request_answered(
        &mut self,
        answer: Result<LicenseAnswer, AnswerError>,
        output: &mut Vec<u8>,
    ) -> (result: ConnectorResult<Written>)
        ensures
            final(self)@ == old(self)@.request_answered(
                super::wire::license::answer_state(answer),
            ).after,
            super::report(result) == old(self)@.request_answered(
                super::wire::license::answer_state(answer),
            ).result,
            final(output)@ == old(output)@ + old(self)@.request_answered(
                super::wire::license::answer_state(answer),
            ).output,
            answer matches Err(fault) ==> result matches Err(error) && answer_error(error.kind)
                == Some(fault),
            final(self).license_cache == old(self).license_cache,
    {
        assert(output@ =~= output@ + Seq::<u8>::empty());
        match answer {
            Ok(LicenseAnswer { message, encryption_data }) => {
                let next: LicenseExchangeState = LicenseExchangeState::PlatformChallenge {
                    encryption_data,
                    skip_count: 0,
                };
                self.send(message, next, output)
            },
            Err(AnswerError::License(error)) => self.fail(
                ConnectorError::license("ClientNewLicenseRequest", error),
            ),
            Err(AnswerError::Encode(error)) => self.fail(ConnectorError::encode(error)),
        }
    }

    /// Answers a license request, given the license that was found for it and the
    /// client's two random numbers.
    pub fn answer_request(
        &mut self,
        indication: &Indication,
        found: Option<Vec<u8>>,
        client_random: &[u8],
        premaster_secret: &[u8],
        output: &mut Vec<u8>,
    ) -> (result: ConnectorResult<Written>)
        requires
            super::wire::license::license_message_of(indication@.user_data) matches Some(
                MessageState::Request(_),
            ),
            client_random@.len() == RANDOM_NUMBER_SIZE,
            premaster_secret@.len() == PREMASTER_SECRET_SIZE,
        ensures
            ({
                let answer = old(self)@.answer_to_request(
                    indication@,
                    license_state(found),
                    client_random@,
                    premaster_secret@,
                );
                &&& final(self)@ == old(self)@.request_answered(answer).after
                &&& super::report(result) == old(self)@.request_answered(answer).result
                &&& final(output)@ == old(output)@ + old(self)@.request_answered(answer).output
            }),
            result matches Err(error) ==> (answer_error(error.kind) matches Some(fault)
                ==> old(self)@.request_fault(
                indication@,
                license_state(found),
                client_random@,
                premaster_secret@,
                fault,
            )),
            final(self)@.state.well_formed(),
            final(self).license_cache == old(self).license_cache,
    {
        let answer: Result<LicenseAnswer, AnswerError> = match found {
            Some(license) => client_license_info(
                indication,
                client_random,
                premaster_secret,
                self.hardware_id,
                license,
            ),
            None => {
                let name: String = machine_name(self.hardware_id);
                client_new_license_request(
                    indication,
                    client_random,
                    premaster_secret,
                    self.username.as_str(),
                    name.as_str(),
                )
            },
        };
        self.request_answered(answer, output)
    }

    /// Sends the answer to a platform challenge, if there is one.
    pub fn challenge_answered(
        &mut self,
        encryption_data: LicenseEncryptionData,
        answer: Result<Vec<u8>, AnswerError>,
        output: &mut Vec<u8>,
    ) -> (result: ConnectorResult<Written>)
        ensures
            final(self)@ == old(self)@.challenge_answered(
                encryption_data@,
                super::wire::license::message_state(answer),
            ).after,
            super::report(result) == old(self)@.challenge_answered(
                encryption_data@,
                super::wire::license::message_state(answer),
            ).result,
            final(output)@ == old(output)@ + old(self)@.challenge_answered(
                encryption_data@,
                super::wire::license::message_state(answer),
            ).output,
            answer matches Err(fault) ==> result matches Err(error) && answer_error(error.kind)
                == Some(fault),
            final(self).license_cache == old(self).license_cache,
    {
        assert(output@ =~= output@ + Seq::<u8>::empty());
        match answer {
            Ok(message) => {
                let next: LicenseExchangeState = LicenseExchangeState::UpgradeLicense {
                    encryption_data,
                    skip_count: 0,
                };
                self.send(message, next, output)
            },
            Err(AnswerError::License(error)) => self.fail(
                ConnectorError::license("ClientPlatformChallengeResponse", error),
            ),
            Err(AnswerError::Encode(error)) => self.fail(ConnectorError::encode(error)),
        }
    }

    /// Checks a license that was granted and hands it to the user.
    fn grant(
        &mut self,
        indication: &Indication,
        enciphered: &[u8],
        encryption_data: &LicenseEncryptionData,
    ) -> (result: ConnectorResult<Written>)
        requires
            super::wire::license::license_message_of(indication@.user_data) == Some(
                MessageState::UpgradeLicense(enciphered@),
            ),
            encryption_data@.license_key.len() > 0,
        ensures
            exists|stored: ConnectorResult<()>|
                {
                    let granted = #[trigger] old(self)@.granted(
                        indication@.user_data,
                        enciphered@,
                        encryption_data@,
                        stored,
                    );
                    &&& final(self)@ == granted.after
                    &&& super::report(result) == granted.result
                    &&& may_keep(
                        &*old(self).license_cache,
                        indication@.user_data,
                        enciphered@,
                        encryption_data@,
                        stored,
                    )
                    &&& result matches Err(error) ==> old(self)@.may_say_of_license(
                        indication@,
                        enciphered@,
                        encryption_data@,
                        stored,
                        error,
                    )
                },
            final(self).license_cache == old(self).license_cache,
    {
        let ghost license = indication@.user_data;
        let ghost keys = encryption_data@;
        let ghost nothing = Ok::<(), ConnectorError>(());
        match verify_server_license(indication, encryption_data) {
            Err(error) => {
                let result: ConnectorResult<Written> = self.fail(
                    ConnectorError::license("license verification", error),
                );
                assert(self@ == old(self)@.granted(license, enciphered@, keys, nothing).after);
                return result;
            },
            Ok(()) => {},
        }
        let plain: Vec<u8> = cipher(encryption_data.license_key.as_slice(), enciphered);
        if !plaintext::license_holds_lengths(plain.as_slice()) {
            let result: ConnectorResult<Written> = self.fail(
                ConnectorError::decode(incomplete_license()),
            );
            assert(self@ == old(self)@.granted(license, enciphered@, keys, nothing).after);
            return result;
        }
        match new_license_info(indication, encryption_data) {
            Err(error) => {
                let result: ConnectorResult<Written> = self.fail(ConnectorError::decode(error));
                assert(self@ == old(self)@.granted(license, enciphered@, keys, nothing).after);
                result
            },
            Ok(license_info) => {
                let ghost information = license_info@;
                let stored: ConnectorResult<()> = self.license_cache.store_license(license_info);
                assert(may_store(&*old(self).license_cache, information, stored));
                let ghost answer = stored;
                let result: ConnectorResult<Written> = match stored {
                    Ok(_) => self.go_on(LicenseExchangeState::LicenseExchanged),
                    Err(error) => self.fail(error),
                };
                assert(self@ == old(self)@.granted(license, enciphered@, keys, answer).after);
                result
            },
        }
    }

    /// Deals with a license message in a state that waits for one. The state is taken
    /// out of the sequence already.
    fn handle_message(
        &mut self,
        state: LicenseExchangeState,
        indication: &Indication,
        message: LicenseMessage,
        output: &mut Vec<u8>,
    ) -> (result: ConnectorResult<Written>)
        requires
            is_license(indication@.user_data),
            super::wire::license::license_message_of(indication@.user_data) == Some(message@),
            message matches LicenseMessage::Error(error) ==> reported(indication@, error),
            state@.well_formed(),
        ensures
            exists|supplied: Supplied|
                {
                    let done = #[trigger] old(self)@.in_state(state@).told(
                        indication@,
                        message@,
                        supplied,
                    );
                    &&& old(self)@.in_state(state@).may_get(
                        &*old(self).license_cache,
                        Some(indication@),
                        supplied,
                    )
                    &&& final(self)@ == done.after
                    &&& super::report(result) == done.result
                    &&& final(output)@ == old(output)@ + done.output
                    &&& result matches Err(error) ==> old(self)@.in_state(state@).may_say_of(
                        indication@,
                        message@,
                        supplied,
                        error,
                    )
                },
            final(self)@.state.well_formed(),
            final(self).license_cache == old(self).license_cache,
    {
        let ghost before = old(self)@.in_state(state@);
        let ghost mut supplied = Supplied::nothing();
        let ghost told = message@;
        assert(output@ =~= output@ + Seq::<u8>::empty());
        let result: ConnectorResult<Written> = match message {
            LicenseMessage::ValidClient => self.go_on(LicenseExchangeState::LicenseExchanged),
            LicenseMessage::Error(error) => self.fail(
                ConnectorError::license("LicensingErrorMessage", error),
            ),
            LicenseMessage::Request(request) => match state {
                LicenseExchangeState::NewLicenseRequest { .. } => {
                    let client_random: Vec<u8> = random_bytes(RANDOM_NUMBER_SIZE);
                    let premaster_secret: Vec<u8> = random_bytes(PREMASTER_SECRET_SIZE);
                    let found: ConnectorResult<Option<Vec<u8>>> = self.find_license(&request);
                    proof {
                        supplied = Supplied {
                            client_random: client_random@,
                            premaster_secret: premaster_secret@,
                            found: found_state(found),
                            stored: Ok(()),
                        };
                    }
                    match found {
                        Err(error) => self.fail(error),
                        Ok(found) => self.answer_request(
                            indication,
                            found,
                            client_random.as_slice(),
                            premaster_secret.as_slice(),
                            output,
                        ),
                    }
                },
                state => self.fail(ConnectorError::general(state.unexpected_context())),
            },
            LicenseMessage::PlatformChallenge => match state {
                LicenseExchangeState::PlatformChallenge { encryption_data, .. } => {
                    let answer: Result<Vec<u8>, AnswerError> = client_challenge_response(
                        indication,
                        self.hardware_id,
                        &encryption_data,
                    );
                    self.challenge_answered(encryption_data, answer, output)
                },
                state => self.fail(ConnectorError::general(state.unexpected_context())),
            },
            LicenseMessage::UpgradeLicense(enciphered) => match state {
                LicenseExchangeState::UpgradeLicense { encryption_data, .. } => {
                    let result: ConnectorResult<Written> = self.grant(
                        indication,
                        enciphered.as_slice(),
                        &encryption_data,
                    );
                    proof {
                        let stored = choose|stored: ConnectorResult<()>|
                            {
                                let granted = #[trigger] old(self)@.granted(
                                    indication@.user_data,
                                    enciphered@,
                                    encryption_data@,
                                    stored,
                                );
                                &&& self@ == granted.after
                                &&& super::report(result) == granted.result
                                &&& may_keep(
                                    &*old(self).license_cache,
                                    indication@.user_data,
                                    enciphered@,
                                    encryption_data@,
                                    stored,
                                )
                                &&& result matches Err(error) ==> old(self)@.may_say_of_license(
                                    indication@,
                                    enciphered@,
                                    encryption_data@,
                                    stored,
                                    error,
                                )
                            };
                        supplied = Supplied { stored, ..Supplied::nothing() };
                    }
                    result
                },
                state => self.fail(ConnectorError::general(state.unexpected_context())),
            },
            LicenseMessage::Other => self.fail(
                ConnectorError::general(state.unexpected_context()),
            ),
        };
        assert(self@ =~= before.told(indication@, told, supplied).after);
        result
    }

    /// Deals with a Send Data Indication in a state that waits for one. The state is
    /// taken out of the sequence already.
    fn handle_indication(
        &mut self,
        state: LicenseExchangeState,
        indication: &Indication,
        output: &mut Vec<u8>,
    ) -> (result: ConnectorResult<Written>)
        requires
            state@.well_formed(),
            state@.can_count(),
        ensures
            exists|supplied: Supplied|
                {
                    let done = #[trigger] old(self)@.in_state(state@).indicated(indication@, supplied);
                    &&& old(self)@.in_state(state@).may_get(
                        &*old(self).license_cache,
                        Some(indication@),
                        supplied,
                    )
                    &&& final(self)@ == done.after
                    &&& super::report(result) == done.result
                    &&& final(output)@ == old(output)@ + done.output
                    &&& result matches Err(error) ==> old(self)@.in_state(state@).may_say_on(
                        indication@,
                        supplied,
                        error,
                    )
                },
            final(self)@.state.well_formed(),
            final(self).license_cache == old(self).license_cache,
    {
        let ghost before = old(self)@.in_state(state@);
        assert(output@ =~= output@ + Seq::<u8>::empty());
        if !is_license_packet(indication.user_data.as_slice()) {
            let result: ConnectorResult<Written> = self.go_on(state.skipped());
            assert(self@ =~= before.indicated(indication@, Supplied::nothing()).after);
            return result;
        }
        match decode_license_message(indication) {
            Err(error) => {
                let result: ConnectorResult<Written> = self.fail(
                    ConnectorError::decode(error).with_context(state.decode_context()),
                );
                assert(self@ =~= before.indicated(indication@, Supplied::nothing()).after);
                result
            },
            Ok(message) => {
                let ghost told = message@;
                let result: ConnectorResult<Written> = self.handle_message(
                    state,
                    indication,
                    message,
                    output,
                );
                assert forall|supplied: Supplied| #[trigger]
                    before.told(indication@, told, supplied) == before.indicated(
                        indication@,
                        supplied,
                    ) by {}
                result
            },
        }
    }

    /// Deals with one PDU.
    ///
    /// What is written goes to the end of the output. What is no license packet is
    /// skipped without leaving the state: the packet that the state waits for is still
    /// to come.
    pub fn step(&mut self, input: &[u8], output: &mut Vec<u8>) -> (result: ConnectorResult<Written>)
        requires
            old(self)@.state.well_formed(),
            old(self)@.state.can_count(),
        ensures
            exists|supplied: Supplied|
                {
                    let done = #[trigger] old(self)@.stepped(input@, supplied);
                    &&& old(self)@.may_get(
                        &*old(self).license_cache,
                        super::wire::indication_of(input@),
                        supplied,
                    )
                    &&& final(self)@ == done.after
                    &&& super::report(result) == done.result
                    &&& final(output)@ == old(output)@ + done.output
                    &&& result matches Err(error) ==> old(self)@.may_say(input@, supplied, error)
                },
            final(self)@.state.well_formed(),
            final(self).license_cache == old(self).license_cache,
    {
        let ghost before = self@;
        assert(output@ =~= output@ + Seq::<u8>::empty());
        let mut state: LicenseExchangeState = LicenseExchangeState::Consumed;
        core::mem::swap(&mut state, &mut self.state);
        assert(self@.in_state(state@) =~= before);
        match state {
            LicenseExchangeState::Consumed => {
                let result: ConnectorResult<Written> = self.fail(
                    ConnectorError::general(
                        "license exchange sequence state is consumed (this is a bug)",
                    ),
                );
                assert(self@ =~= before.stepped(input@, Supplied::nothing()).after);
                result
            },
            LicenseExchangeState::LicenseExchanged => {
                let result: ConnectorResult<Written> = self.fail(
                    ConnectorError::general("license already exchanged"),
                );
                assert(self@ =~= before.stepped(input@, Supplied::nothing()).after);
                result
            },
            state => match decode_send_data_indication(input) {
                Err(error) => {
                    proof {
                        super::wire::lemma_indication_fault(input, error);
                    }
                    let result: ConnectorResult<Written> = self.fail(ConnectorError::decode(error));
                    assert(self@ =~= before.stepped(input@, Supplied::nothing()).after);
                    result
                },
                Ok(indication) => {
                    let ghost told = indication@;
                    let result: ConnectorResult<Written> = self.handle_indication(
                        state,
                        &indication,
                        output,
                    );
                    assert forall|supplied: Supplied| #[trigger]
                        before.indicated(told, supplied) == before.stepped(input@, supplied) by {}
                    result
                },
            },
        }
    }
}

/// What looking for a license came to.
pub open spec fn found_state(found: ConnectorResult<Option<Vec<u8>>>) -> ConnectorResult<
    Option<Seq<u8>>,
> {
    match found {
        Ok(license) => Ok(license_state(license)),
        Err(error) => Err(error),
    }
}

} // verus!
