//! What holds of a license exchange over several steps.
use vstd::prelude::*;
use vstd::string::*;

use super::super::wire::license::{AnswerError, AnswerFault, MessageState, RequestState};
use super::super::wire::IndicationState;
use super::super::{ConnectorError, ConnectorResult, ErrorReport, Written};
use super::{
    EncryptionState, Exchange, ExchangeState, InformationState, LicenseCache,
    LicenseExchangeSequence, LicenseExchangeState, NoopLicenseCache, Supplied,
};

verus! {

/// One bit of the first byte decides whether user data is a license packet, whatever
/// the other flags are.
pub proof fn law_one_bit_decides(user_data: Seq<u8>)
    requires
        user_data.len() >= 2,
    ensures
        super::is_license(user_data) <==> user_data[0] & 0x80 != 0,
{
    let low = user_data[0];
    let high = user_data[1];
    let flags = super::security_flags(user_data);
    assert(flags == low as u16 + 256 * (high as u16));
    assert((flags & 0x0080 != 0) <==> (low & 0x80 != 0)) by (bit_vector)
        requires
            flags == low as u16 + 256 * (high as u16),
    ;
}

/// What is no license packet changes nothing but the count of what was skipped: the
/// state stays, with its keys, and nothing is written, whatever the user's licenses are.
pub proof fn law_other_packets_are_skipped(
    exchange: Exchange,
    input: Seq<u8>,
    indication: IndicationState,
    supplied: Supplied,
)
    requires
        exchange.state.waits(),
        super::super::wire::indication_of(input) == Some(indication),
        !super::is_license(indication.user_data),
    ensures
        exchange.stepped(input, supplied).after == exchange.in_state(exchange.state.skipped()),
        exchange.stepped(input, supplied).result == Ok::<Written, ErrorReport>(Written::Nothing),
        exchange.stepped(input, supplied).output.len() == 0,
{
}

impl ExchangeState {
    /// After a number of skipped packets.
    pub open spec fn skipped_times(self, times: nat) -> Self
        decreases times,
    {
        if times == 0 {
            self
        } else {
            self.skipped_times((times - 1) as nat).skipped()
        }
    }
}

/// The count climbs by one with each packet that is skipped, and the state never
/// advances for them.
pub proof fn law_skips_are_counted(skip_count: u32, keys: EncryptionState, times: nat)
    requires
        skip_count + times <= u32::MAX,
    ensures
        (ExchangeState::NewLicenseRequest { skip_count }).skipped_times(times) == (
        ExchangeState::NewLicenseRequest { skip_count: (skip_count + times) as u32 }),
        (ExchangeState::PlatformChallenge { keys, skip_count }).skipped_times(times) == (
        ExchangeState::PlatformChallenge { keys, skip_count: (skip_count + times) as u32 }),
        (ExchangeState::UpgradeLicense { keys, skip_count }).skipped_times(times) == (
        ExchangeState::UpgradeLicense { keys, skip_count: (skip_count + times) as u32 }),
    decreases times,
{
    if times > 0 {
        law_skips_are_counted(skip_count, keys, (times - 1) as nat);
    }
}

/// A server that accepts the client ends the exchange in every state that waits, and an
/// error that it reports fails it.
pub proof fn law_verdict_ends_the_exchange(
    exchange: Exchange,
    indication: IndicationState,
    supplied: Supplied,
)
    ensures
        exchange.told(indication, MessageState::ValidClient, supplied).after == exchange.in_state(
            ExchangeState::LicenseExchanged,
        ),
        exchange.told(indication, MessageState::ValidClient, supplied).result == Ok::<
            Written,
            ErrorReport,
        >(Written::Nothing),
        exchange.told(indication, MessageState::Error, supplied).result == Err::<
            Written,
            ErrorReport,
        >(ErrorReport::license("LicensingErrorMessage"@)),
{
}

/// A message that belongs to another state fails the exchange.
pub proof fn law_messages_come_in_order(
    exchange: Exchange,
    indication: IndicationState,
    request: RequestState,
    license: Seq<u8>,
    supplied: Supplied,
)
    requires
        exchange.state.waits(),
    ensures
        !(exchange.state is NewLicenseRequest) ==> exchange.told(
            indication,
            MessageState::Request(request),
            supplied,
        ).result is Err,
        !(exchange.state is PlatformChallenge) ==> exchange.told(
            indication,
            MessageState::PlatformChallenge,
            supplied,
        ).result is Err,
        !(exchange.state is UpgradeLicense) ==> exchange.told(
            indication,
            MessageState::UpgradeLicense(license),
            supplied,
        ).result is Err,
        exchange.told(indication, MessageState::Other, supplied).result is Err,
{
}

/// A step that fails leaves nothing to go on with, and neither a finished nor a consumed
/// exchange takes another step.
pub proof fn law_failure_is_final(
    exchange: Exchange,
    input: Seq<u8>,
    supplied: Supplied,
    later: Seq<u8>,
    later_supplied: Supplied,
)
    requires
        exchange.stepped(input, supplied).result is Err,
    ensures
        exchange.stepped(input, supplied).after == exchange.in_state(ExchangeState::Consumed),
        exchange.stepped(input, supplied).after.stepped(later, later_supplied).result is Err,
        !exchange.state.waits() ==> exchange.stepped(later, later_supplied).result is Err,
{
}

impl ExchangeState {
    /// How far the exchange has come.
    pub open spec fn rank(self) -> int {
        match self {
            ExchangeState::NewLicenseRequest { .. } => 0,
            ExchangeState::PlatformChallenge { .. } => 1,
            ExchangeState::UpgradeLicense { .. } => 2,
            ExchangeState::LicenseExchanged => 3,
            ExchangeState::Consumed => 4,
        }
    }
}

/// An error that ends the search for a license is the user's own: it comes back as it is,
/// and nothing is sent.
pub proof fn law_users_error_comes_back(
    exchange: Exchange,
    input: Seq<u8>,
    indication: IndicationState,
    request: RequestState,
    supplied: Supplied,
    own: ConnectorError,
    error: ConnectorError,
)
    requires
        exchange.state is NewLicenseRequest,
        super::super::wire::indication_of(input) == Some(indication),
        super::message_in(Some(indication)) == Some(MessageState::Request(request)),
        supplied.found == Err::<Option<Seq<u8>>, ConnectorError>(own),
    ensures
        exchange.stepped(input, supplied).result == Err::<Written, ErrorReport>(own@),
        exchange.stepped(input, supplied).output.len() == 0,
        exchange.may_say(input, supplied, error) ==> error == own,
{
}

/// The exchange never goes back, and the user's name, the hardware and the channel never
/// change.
pub proof fn law_exchange_moves_forward(exchange: Exchange, input: Seq<u8>, supplied: Supplied)
    ensures
        exchange.stepped(input, supplied).after.state.rank() >= exchange.state.rank()
            || exchange.state is Consumed,
        exchange.stepped(input, supplied).after.username == exchange.username,
        exchange.stepped(input, supplied).after.domain == exchange.domain,
        exchange.stepped(input, supplied).after.hardware_id == exchange.hardware_id,
        exchange.stepped(input, supplied).after.io_channel_id == exchange.io_channel_id,
{
}

/// The keys that were agreed on with the answer to the license request are those that
/// the challenge and the granted license are taken with.
pub proof fn law_keys_are_kept(
    exchange: Exchange,
    message: Seq<u8>,
    keys: EncryptionState,
    response: Seq<u8>,
)
    requires
        0 < message.len() <= usize::MAX,
        0 < response.len() <= usize::MAX,
    ensures
        ({
            let asked = exchange.request_answered(Ok((message, keys))).after;
            &&& asked.state == (ExchangeState::PlatformChallenge { keys, skip_count: 0 })
            &&& asked.challenge_answered(keys, Ok(response)).after.state == (
            ExchangeState::UpgradeLicense { keys, skip_count: 0 })
        }),
{
}

/// What looking for a license comes to from one scope on, where the user keeps none.
proof fn lemma_nothing_is_found(
    cache: &NoopLicenseCache,
    request: RequestState,
    scope: int,
    found: ConnectorResult<Option<Seq<u8>>>,
)
    requires
        super::may_find(cache, request, scope, found),
    ensures
        found == Ok::<Option<Seq<u8>>, ConnectorError>(None),
    decreases request.scopes.len() - scope,
{
    if 0 <= scope < request.scopes.len() {
        let answer = choose|answer: super::super::ConnectorResult<Option<Vec<u8>>>| #[trigger]
            super::may_answer(cache, request.wanted(scope), answer) && match answer {
                Ok(None) => super::may_find(cache, request, scope + 1, found),
                Ok(Some(license)) => found == Ok::<Option<Seq<u8>>, ConnectorError>(Some(license@)),
                Err(error) => found == Err::<Option<Seq<u8>>, ConnectorError>(error),
            };
        assert(answer is Ok && answer->Ok_0 is None);
        lemma_nothing_is_found(cache, request, scope + 1, found);
    }
}

/// A user who keeps no licenses always asks for a new one.
pub proof fn law_without_licenses_a_new_one_is_asked_for(
    exchange: Exchange,
    cache: &NoopLicenseCache,
    indication: IndicationState,
    request: RequestState,
    supplied: Supplied,
)
    requires
        exchange.state is NewLicenseRequest,
        super::message_in(Some(indication)) == Some(MessageState::Request(request)),
        exchange.may_get(cache, Some(indication), supplied),
    ensures
        exchange.indicated(indication, supplied) == exchange.request_answered(
            super::super::wire::license::new_license_request_of(
                indication.initiator_id,
                indication.channel_id,
                indication.user_data,
                supplied.client_random,
                supplied.premaster_secret,
                exchange.username,
                super::machine_name_of(exchange.hardware_id),
            ),
        ),
{
    lemma_nothing_is_found(cache, request, 0, supplied.found);
}

/// Looking for a license goes scope by scope: where the user has none for the first, it
/// comes to what the others come to, and where there is one for the first, to that one.
pub proof fn law_scopes_are_tried_in_order<C: LicenseCache + ?Sized>(
    cache: &C,
    request: RequestState,
    scope: int,
    found: ConnectorResult<Option<Seq<u8>>>,
)
    requires
        0 <= scope < request.scopes.len(),
        super::may_find(cache, request, scope, found),
        forall|answer: super::super::ConnectorResult<Option<Vec<u8>>>| #[trigger]
            super::may_answer(cache, request.wanted(scope), answer) ==> answer == Ok::<
                Option<Vec<u8>>,
                super::super::ConnectorError,
            >(None),
    ensures
        super::may_find(cache, request, scope + 1, found),
{
}

/// What a sequence is taken by is what it was made with: its channel, the user's name and
/// domain, and all four numbers of its hardware.
pub proof fn law_sequence_is_taken_as_it_is<C: ?Sized>(sequence: LicenseExchangeSequence<C>, i: int)
    requires
        0 <= i < 4,
    ensures
        sequence@.hardware_id.len() == 4,
        sequence@.hardware_id[i] == sequence.hardware_id[i],
        sequence@.username == sequence.username@,
        sequence@.io_channel_id == sequence.io_channel_id,
        sequence@.domain is Some <==> sequence.domain is Some,
        sequence.domain matches Some(domain) ==> sequence@.domain == Some(domain@),
{
}

/// A platform challenge is answered for the exchange's own hardware, whatever that is,
/// under the keys that were agreed on, and where it came from. What is written is that
/// answer, byte for byte, and the exchange goes on with the same keys.
pub proof fn law_challenge_is_answered_for_the_hardware(
    exchange: Exchange,
    indication: IndicationState,
    supplied: Supplied,
    keys: EncryptionState,
    skip_count: u32,
)
    requires
        exchange.state == (ExchangeState::PlatformChallenge { keys, skip_count }),
    ensures
        ({
            let done = exchange.told(indication, MessageState::PlatformChallenge, supplied);
            let answer = super::super::wire::license::challenge_response_of(
                indication.initiator_id,
                indication.channel_id,
                indication.user_data,
                exchange.hardware_id,
                keys,
            );
            &&& answer matches Ok(message) ==> done.output == message
            &&& answer matches Ok(message) ==> (0 < message.len() <= usize::MAX ==> {
                &&& done.result matches Ok(Written::Size(size)) && size == message.len()
                &&& done.after.state == (ExchangeState::UpgradeLicense { keys, skip_count: 0 })
            })
            &&& answer is Err ==> done.result is Err && done.output.len() == 0
                && done.after.state is Consumed
            &&& answer == Err::<Seq<u8>, AnswerFault>(AnswerFault::License) ==> done.result
                == Err::<Written, ErrorReport>(
                ErrorReport::license("ClientPlatformChallengeResponse"@),
            )
            &&& answer == Err::<Seq<u8>, AnswerFault>(AnswerFault::Encode) ==> done.result == Err::<
                Written,
                ErrorReport,
            >(ErrorReport::encode())
            &&& done.after.hardware_id == exchange.hardware_id
        }),
{
}

/// The same holds of a step that reads the challenge from the wire.
pub proof fn law_challenge_on_the_wire_is_answered(
    exchange: Exchange,
    input: Seq<u8>,
    indication: IndicationState,
    supplied: Supplied,
    keys: EncryptionState,
    skip_count: u32,
    message: Seq<u8>,
)
    requires
        exchange.state == (ExchangeState::PlatformChallenge { keys, skip_count }),
        super::super::wire::indication_of(input) == Some(indication),
        indication.user_data.len() >= 2,
        indication.user_data[0] & 0x80 != 0,
        super::super::wire::license::license_message_of(indication.user_data) == Some(
            MessageState::PlatformChallenge,
        ),
        super::super::wire::license::challenge_response_of(
            indication.initiator_id,
            indication.channel_id,
            indication.user_data,
            exchange.hardware_id,
            keys,
        ) == Ok::<Seq<u8>, AnswerFault>(message),
        0 < message.len() <= usize::MAX,
    ensures
        exchange.stepped(input, supplied).output == message,
        exchange.stepped(input, supplied).result is Ok,
        exchange.stepped(input, supplied).after.state == (ExchangeState::UpgradeLicense {
            keys,
            skip_count: 0,
        }),
{
    law_one_bit_decides(indication.user_data);
}

/// An error that answering a challenge gives is one that it gives for the exchange's own
/// hardware and keys.
pub proof fn law_challenge_fault_is_of_the_hardware(
    exchange: Exchange,
    indication: IndicationState,
    supplied: Supplied,
    keys: EncryptionState,
    skip_count: u32,
    error: ConnectorError,
    fault: AnswerError,
)
    requires
        exchange.state == (ExchangeState::PlatformChallenge { keys, skip_count }),
        exchange.may_say_of(indication, MessageState::PlatformChallenge, supplied, error),
        super::answer_error(error.kind) == Some(fault),
    ensures
        super::challenge_fault(indication, exchange.hardware_id, keys, fault),
{
}

/// A license request is answered with the license that was found, for the exchange's own
/// hardware, or with a request for a new one in the user's name and the machine's; each
/// with the random numbers that were drawn. What is written is that answer, and the
/// exchange goes on with the keys that came with it.
pub proof fn law_request_is_answered(
    exchange: Exchange,
    indication: IndicationState,
    request: RequestState,
    supplied: Supplied,
    found: Option<Seq<u8>>,
    message: Seq<u8>,
    keys: EncryptionState,
)
    requires
        exchange.state is NewLicenseRequest,
        supplied.found == Ok::<Option<Seq<u8>>, ConnectorError>(found),
        found matches Some(license) ==> super::super::wire::license::license_info_of(
            indication.initiator_id,
            indication.channel_id,
            indication.user_data,
            supplied.client_random,
            supplied.premaster_secret,
            exchange.hardware_id,
            license,
        ) == Ok::<(Seq<u8>, EncryptionState), AnswerFault>((message, keys)),
        found is None ==> super::super::wire::license::new_license_request_of(
            indication.initiator_id,
            indication.channel_id,
            indication.user_data,
            supplied.client_random,
            supplied.premaster_secret,
            exchange.username,
            super::machine_name_of(exchange.hardware_id),
        ) == Ok::<(Seq<u8>, EncryptionState), AnswerFault>((message, keys)),
        0 < message.len() <= usize::MAX,
    ensures
        ({
            let done = exchange.told(indication, MessageState::Request(request), supplied);
            &&& done.output == message
            &&& done.result matches Ok(Written::Size(size)) && size == message.len()
            &&& done.after.state == (ExchangeState::PlatformChallenge { keys, skip_count: 0 })
        }),
{
}

/// A request whose answer cannot be made or encoded ends the exchange, says which, and
/// writes nothing.
pub proof fn law_unanswered_request_fails(exchange: Exchange)
    ensures
        ({
            let unmade = exchange.request_answered(Err(AnswerFault::License));
            let unencoded = exchange.request_answered(Err(AnswerFault::Encode));
            &&& unmade.result == Err::<Written, ErrorReport>(
                ErrorReport::license("ClientNewLicenseRequest"@),
            )
            &&& unencoded.result == Err::<Written, ErrorReport>(ErrorReport::encode())
            &&& unmade.output.len() == 0 && unencoded.output.len() == 0
            &&& unmade.after.state is Consumed && unencoded.after.state is Consumed
        }),
{
}

/// A granted license ends the exchange if and only if it verifies, can be read and decoded
/// under the exchange's keys, and the user takes it. Whatever fails first is what is
/// reported; nothing is ever written.
pub proof fn law_granted_license_is_kept(
    exchange: Exchange,
    indication: IndicationState,
    supplied: Supplied,
    keys: EncryptionState,
    skip_count: u32,
    enciphered: Seq<u8>,
)
    requires
        exchange.state == (ExchangeState::UpgradeLicense { keys, skip_count }),
    ensures
        ({
            let license = indication.user_data;
            let done = exchange.told(
                indication,
                MessageState::UpgradeLicense(enciphered),
                supplied,
            );
            let verified = super::super::wire::license::license_verifies(license, keys);
            let readable = super::plaintext::holds_lengths(
                super::super::cipher::ciphered(keys.license_key, enciphered),
            );
            let decoded = super::super::wire::license::granted_license_of(license, keys) is Some;
            let kept = verified && readable && decoded && supplied.stored is Ok;
            &&& done.output.len() == 0
            &&& kept ==> done.result == Ok::<Written, ErrorReport>(Written::Nothing)
                && done.after.state is LicenseExchanged
            &&& !kept ==> done.result is Err && done.after.state is Consumed
            &&& !verified ==> done.result == Err::<Written, ErrorReport>(
                ErrorReport::license("license verification"@),
            )
            &&& verified && !(readable && decoded) ==> done.result == Err::<Written, ErrorReport>(
                ErrorReport::decode(),
            )
            &&& verified && readable && decoded ==> (supplied.stored matches Err(own) ==> done.result
                == Err::<Written, ErrorReport>(own@))
        }),
{
}

/// The user is handed exactly the license that the server granted, where it is in order.
pub proof fn law_user_is_handed_the_granted_license<C: LicenseCache + ?Sized>(
    exchange: Exchange,
    cache: &C,
    indication: IndicationState,
    supplied: Supplied,
    keys: EncryptionState,
    skip_count: u32,
    enciphered: Seq<u8>,
    granted: InformationState,
)
    requires
        exchange.state == (ExchangeState::UpgradeLicense { keys, skip_count }),
        super::message_in(Some(indication)) == Some(MessageState::UpgradeLicense(enciphered)),
        super::super::wire::license::license_verifies(indication.user_data, keys),
        super::is_readable(enciphered, keys),
        super::super::wire::license::granted_license_of(indication.user_data, keys) == Some(granted),
        exchange.may_get(cache, Some(indication), supplied),
    ensures
        super::may_store(cache, granted, supplied.stored),
{
}

/// What a license is looked up by for one of the request's scopes: the request's version,
/// company and product, that scope, and no license.
pub proof fn law_license_is_looked_up_by_the_request(request: RequestState, scope: int)
    ensures
        request.wanted(scope).version == request.version,
        request.wanted(scope).scope == request.scopes[scope],
        request.wanted(scope).company_name == request.company_name,
        request.wanted(scope).product_id == request.product_id,
        request.wanted(scope).license_info.len() == 0,
{
}

/// Looking for a license asks the user for each scope in turn: what is found is the answer
/// for one of them, `at`, after the user had none for every scope before it. Nothing is
/// found only after the user had none for any.
pub proof fn law_first_license_is_taken<C: LicenseCache + ?Sized>(
    cache: &C,
    request: RequestState,
    scope: int,
    found: ConnectorResult<Option<Seq<u8>>>,
) -> (at: int)
    requires
        0 <= scope <= request.scopes.len(),
        super::may_find(cache, request, scope, found),
    ensures
        scope <= at <= request.scopes.len(),
        forall|e: int|
            #![trigger request.scopes[e]]
            scope <= e < at ==> super::may_answer(
                cache,
                InformationState {
                    version: request.version,
                    scope: request.scopes[e],
                    company_name: request.company_name,
                    product_id: request.product_id,
                    license_info: Seq::empty(),
                },
                Ok(None),
            ),
        at == request.scopes.len() <==> found == Ok::<Option<Seq<u8>>, ConnectorError>(None),
        at < request.scopes.len() ==> exists|answer: ConnectorResult<Option<Vec<u8>>>| #[trigger]
            super::may_answer(
                cache,
                InformationState {
                    version: request.version,
                    scope: request.scopes[at],
                    company_name: request.company_name,
                    product_id: request.product_id,
                    license_info: Seq::empty(),
                },
                answer,
            ) && match answer {
                Ok(None) => false,
                Ok(Some(license)) => found == Ok::<Option<Seq<u8>>, ConnectorError>(Some(license@)),
                Err(error) => found == Err::<Option<Seq<u8>>, ConnectorError>(error),
            },
    decreases request.scopes.len() - scope,
{
    if scope == request.scopes.len() {
        scope
    } else {
        let answer = choose|answer: ConnectorResult<Option<Vec<u8>>>| #[trigger]
            super::may_answer(cache, request.wanted(scope), answer) && match answer {
                Ok(None) => super::may_find(cache, request, scope + 1, found),
                Ok(Some(license)) => found == Ok::<Option<Seq<u8>>, ConnectorError>(Some(license@)),
                Err(error) => found == Err::<Option<Seq<u8>>, ConnectorError>(error),
            };
        if answer == Ok::<Option<Vec<u8>>, ConnectorError>(None) {
            law_first_license_is_taken(cache, request, scope + 1, found)
        } else {
            scope
        }
    }
}

/// What a request is answered with comes from the user's licenses, from the first scope on,
/// and from 32 and 48 random bytes.
pub proof fn law_request_draws_and_asks<C: LicenseCache + ?Sized>(
    exchange: Exchange,
    cache: &C,
    indication: IndicationState,
    request: RequestState,
    supplied: Supplied,
)
    requires
        exchange.state is NewLicenseRequest,
        super::message_in(Some(indication)) == Some(MessageState::Request(request)),
        exchange.may_get(cache, Some(indication), supplied),
    ensures
        super::may_find(cache, request, 0, supplied.found),
        supplied.client_random.len() == 32,
        supplied.premaster_secret.len() == 48,
        super::may_be_drawn(32, supplied.client_random),
        super::may_be_drawn(48, supplied.premaster_secret),
{
}

/// The machine's name is its four numbers in order, in capital hexadecimal digits, with a
/// hyphen between each two.
pub proof fn law_machine_name_joins_the_numbers(hardware_id: Seq<u32>)
    ensures
        ({
            let a = crate::text::hex_text(hardware_id[0] as nat);
            let b = crate::text::hex_text(hardware_id[1] as nat);
            let c = crate::text::hex_text(hardware_id[2] as nat);
            let d = crate::text::hex_text(hardware_id[3] as nat);
            let name = super::machine_name_of(hardware_id);
            let second = (a.len() + 1) as int;
            let third = second + b.len() + 1;
            let fourth = third + c.len() + 1;
            &&& name.len() == fourth + d.len()
            &&& name.subrange(0, second - 1) == a
            &&& name[second - 1] == '-'
            &&& name.subrange(second, third - 1) == b
            &&& name[third - 1] == '-'
            &&& name.subrange(third, fourth - 1) == c
            &&& name[fourth - 1] == '-'
            &&& name.subrange(fourth, name.len() as int) == d
        }),
{
    reveal_strlit("-");
    let a = crate::text::hex_text(hardware_id[0] as nat);
    let b = crate::text::hex_text(hardware_id[1] as nat);
    let c = crate::text::hex_text(hardware_id[2] as nat);
    let d = crate::text::hex_text(hardware_id[3] as nat);
    let name = super::machine_name_of(hardware_id);
    let second = (a.len() + 1) as int;
    let third = second + b.len() + 1;
    let fourth = third + c.len() + 1;
    assert(name.subrange(0, second - 1) =~= a);
    assert(name.subrange(second, third - 1) =~= b);
    assert(name.subrange(third, fourth - 1) =~= c);
    assert(name.subrange(fourth, name.len() as int) =~= d);
}

/// The flags of a security header are its first two bytes, the low one first; data that is
/// shorter has none and is no license packet.
pub proof fn law_security_flags_are_little_endian(user_data: Seq<u8>)
    ensures
        user_data.len() >= 2 ==> super::security_flags(user_data) % 256 == user_data[0]
            && super::security_flags(user_data) / 256 == user_data[1],
        user_data.len() < 2 ==> super::security_flags(user_data) == 0 && !super::is_license(
            user_data,
        ),
{
}

/// What cannot be decoded ends the exchange with an error that says in which state it came.
pub proof fn law_undecodable_message_fails(
    exchange: Exchange,
    indication: IndicationState,
    supplied: Supplied,
)
    requires
        super::is_license(indication.user_data),
        super::super::wire::license::license_message_of(indication.user_data) is None,
    ensures
        ({
            let done = exchange.indicated(indication, supplied);
            &&& done.after.state is Consumed
            &&& done.output.len() == 0
            &&& exchange.state is NewLicenseRequest ==> done.result == Err::<Written, ErrorReport>(
                ErrorReport::decode_during(
                    "decode during LicenseExchangeState::NewLicenseRequest"@,
                ),
            )
            &&& exchange.state is PlatformChallenge ==> done.result == Err::<Written, ErrorReport>(
                ErrorReport::decode_during(
                    "decode during LicenseExchangeState::PlatformChallenge"@,
                ),
            )
            &&& exchange.state is UpgradeLicense ==> done.result == Err::<Written, ErrorReport>(
                ErrorReport::decode_during(
                    "decode during SERVER_NEW_LICENSE/LicenseExchangeState::UpgradeLicense"@,
                ),
            )
        }),
{
}

/// A message that no state expects, or that belongs to another, is reported with the state
/// that it came in, and ends the exchange without a word to the server.
pub proof fn law_unexpected_message_names_the_state(
    exchange: Exchange,
    indication: IndicationState,
    message: MessageState,
    supplied: Supplied,
)
    requires
        message is Other || message is Request && !(exchange.state is NewLicenseRequest)
            || message is PlatformChallenge && !(exchange.state is PlatformChallenge)
            || message is UpgradeLicense && !(exchange.state is UpgradeLicense),
    ensures
        ({
            let done = exchange.told(indication, message, supplied);
            &&& done.after.state is Consumed
            &&& done.output.len() == 0
            &&& exchange.state is NewLicenseRequest ==> done.result == Err::<Written, ErrorReport>(
                ErrorReport::general(
                    "unexpected PDU received during LicenseExchangeState::NewLicenseRequest"@,
                ),
            )
            &&& exchange.state is PlatformChallenge ==> done.result == Err::<Written, ErrorReport>(
                ErrorReport::general(
                    "unexpected PDU received during LicenseExchangeState::PlatformChallenge"@,
                ),
            )
            &&& exchange.state is UpgradeLicense ==> done.result == Err::<Written, ErrorReport>(
                ErrorReport::general(
                    "unexpected PDU received during LicenseExchangeState::UpgradeLicense"@,
                ),
            )
        }),
{
}

/// A state's name is its own, and a sequence is taken as being in its own state, with its
/// own keys and count.
pub proof fn law_states_are_named(state: LicenseExchangeState)
    ensures
        state is Consumed ==> state.name_text() == "Consumed"@ && state@ is Consumed,
        state matches LicenseExchangeState::NewLicenseRequest { skip_count } ==> state.name_text()
            == "NewLicenseRequest"@ && state@ == (ExchangeState::NewLicenseRequest { skip_count }),
        state matches LicenseExchangeState::PlatformChallenge { encryption_data, skip_count }
            ==> state.name_text() == "PlatformChallenge"@ && state@ is PlatformChallenge
            && state@->PlatformChallenge_skip_count == skip_count
            && state@->PlatformChallenge_keys.license_key == encryption_data.license_key@
            && state@->PlatformChallenge_keys.mac_salt_key == encryption_data.mac_salt_key@
            && state@->PlatformChallenge_keys.premaster_secret == encryption_data.premaster_secret@,
        state matches LicenseExchangeState::UpgradeLicense { encryption_data, skip_count }
            ==> state.name_text() == "UpgradeLicense"@ && state@ is UpgradeLicense
            && state@->UpgradeLicense_skip_count == skip_count
            && state@->UpgradeLicense_keys.license_key == encryption_data.license_key@
            && state@->UpgradeLicense_keys.mac_salt_key == encryption_data.mac_salt_key@
            && state@->UpgradeLicense_keys.premaster_secret == encryption_data.premaster_secret@,
        state is LicenseExchanged ==> state.name_text() == "LicenseExchanged"@
            && state@ is LicenseExchanged,
{
}

/// Only an exchange that waits takes a step; the others say why not, and write nothing.
pub proof fn law_step_after_the_end_says_why(
    exchange: Exchange,
    input: Seq<u8>,
    supplied: Supplied,
)
    ensures
        exchange.state is Consumed ==> exchange.stepped(input, supplied).result == Err::<
            Written,
            ErrorReport,
        >(ErrorReport::general("license exchange sequence state is consumed (this is a bug)"@)),
        exchange.state is LicenseExchanged ==> exchange.stepped(input, supplied).result == Err::<
            Written,
            ErrorReport,
        >(ErrorReport::general("license already exchanged"@)),
        exchange.state.waits() && super::super::wire::indication_of(input) is None
            ==> exchange.stepped(input, supplied).result == Err::<Written, ErrorReport>(
            ErrorReport::decode(),
        ),
        exchange.state is Consumed || exchange.state is LicenseExchanged
            || super::super::wire::indication_of(input) is None ==> exchange.stepped(
            input,
            supplied,
        ).output.len() == 0,
{
}

} // verus!
