//! The wire: what the protocol crates encode and decode.
//!
//! Everything trusted of `ironrdp_core` and `ironrdp_pdu` stands here: their types
//! that this crate carries, and one function for each of theirs that it calls. What
//! a decoder makes of given bytes takes their whole format to say, so the results
//! have names (the functions without a body), and the contracts of this crate speak
//! of those names.
use vstd::prelude::*;

use ironrdp_core::{DecodeError, EncodeError, WriteBuf};
use ironrdp_pdu::mcs::SendDataIndicationCtx;
use ironrdp_pdu::rdp::autodetect::{
    AutoDetectReqPdu, AutoDetectRequest, AutoDetectResponse, AutoDetectRspPdu,
};
use ironrdp_pdu::rdp::capability_sets as sets;
use ironrdp_pdu::rdp::headers::{ShareControlPdu, ShareDataHeader, ShareDataPdu};
use ironrdp_pdu::rdp::server_error_info::{
    ErrorInfo, ProtocolIndependentCode, ServerSetErrorInfoPdu,
};

use super::capabilities::{CapabilitySet, Rail, WindowList, WindowSupportLevel};

pub mod announce;
pub mod license;

verus! {

/// `ironrdp_error::Error`: an error of the protocol crates, with its kind.
#[verifier::external_type_specification]
#[verifier::external_body]
#[verifier::reject_recursive_types(Kind)]
pub struct ExError<Kind>(ironrdp_error::Error<Kind>);

/// `ironrdp_core::DecodeErrorKind`: why bytes could not be decoded.
#[verifier::external_type_specification]
#[verifier::external_body]
pub struct ExDecodeErrorKind(ironrdp_core::DecodeErrorKind);

/// `ironrdp_core::EncodeErrorKind`: why a PDU could not be encoded.
#[verifier::external_type_specification]
#[verifier::external_body]
pub struct ExEncodeErrorKind(ironrdp_core::EncodeErrorKind);

/// `ironrdp_pdu`'s license error: why a license message could not be made or was
/// not accepted.
#[verifier::external_type_specification]
#[verifier::external_body]
pub struct ExServerLicenseError(ironrdp_pdu::rdp::server_license::ServerLicenseError);

/// `ironrdp_pdu`'s platform type, which the client announces as configured.
#[verifier::external_type_specification]
#[verifier::external_body]
pub struct ExMajorPlatformType(ironrdp_pdu::rdp::capability_sets::MajorPlatformType);

/// `ironrdp_pdu`'s list of bitmap codecs, which the client announces as configured.
#[verifier::external_type_specification]
#[verifier::external_body]
pub struct ExBitmapCodecs(ironrdp_pdu::rdp::capability_sets::BitmapCodecs);

/// `ironrdp_pdu`'s list of capability sets, with the descriptor of who sent it.
#[verifier::external_type_specification]
#[verifier::external_body]
pub struct ExDemandActive(ironrdp_pdu::rdp::capability_sets::DemandActive);

/// `ironrdp_pdu`'s list of the server's monitors, which the client hands on.
#[verifier::external_type_specification]
#[verifier::external_body]
pub struct ExMonitorLayoutPdu(ironrdp_pdu::rdp::finalization_messages::MonitorLayoutPdu);

/// Calls `MonitorLayoutPdu::clone`, which `derive` wrote: a copy equal to what it was
/// made from.
#[verifier::external_body]
pub(crate) fn clone_layout(
    layout: &ironrdp_pdu::rdp::finalization_messages::MonitorLayoutPdu,
) -> (copy: ironrdp_pdu::rdp::finalization_messages::MonitorLayoutPdu)
    ensures
        copy == *layout,
{
    layout.clone()
}

/// The user data of an MCS Send Data Indication and where it belongs.
#[derive(Debug, Clone)]
pub struct Indication {
    pub initiator_id: u16,
    pub channel_id: u16,
    pub user_data: Vec<u8>,
}

#[verifier::ext_equal]
pub struct IndicationState {
    pub initiator_id: u16,
    pub channel_id: u16,
    pub user_data: Seq<u8>,
}

impl View for Indication {
    type V = IndicationState;

    open spec fn view(&self) -> IndicationState {
        IndicationState {
            initiator_id: self.initiator_id,
            channel_id: self.channel_id,
            user_data: self.user_data@,
        }
    }
}

/// What bytes decode to as an X.224-wrapped MCS Send Data Indication, if they do.
pub uninterp spec fn indication_of(input: Seq<u8>) -> Option<IndicationState>;

/// Calls `ironrdp_pdu::mcs::decode_send_data_indication`: it decodes exactly the
/// bytes that are a Send Data Indication, and what it gives depends on them alone.
/// Nothing is said of the error that it gives for others.
#[verifier::external_body]
pub(crate) fn decode_send_data_indication(input: &[u8]) -> (result: Result<
    Indication,
    ironrdp_core::DecodeError,
>)
    ensures
        match result {
            Ok(indication) => indication_of(input@) == Some(indication@),
            Err(_) => indication_of(input@) is None,
        },
{
    let ctx = ironrdp_pdu::mcs::decode_send_data_indication(input)?;
    Ok(Indication {
        initiator_id: ctx.initiator_id,
        channel_id: ctx.channel_id,
        user_data: ctx.user_data.to_vec(),
    })
}

/// Decoding bytes as a Send Data Indication may give this error.
pub closed spec fn indication_fault(input: Seq<u8>, error: DecodeError) -> bool {
    exists|bytes: &[u8]|
        bytes@ == input && #[trigger] call_ensures(
            decode_send_data_indication,
            (bytes,),
            Err(error),
        )
}

/// An error that decoding has given is one that it may give.
pub(crate) proof fn lemma_indication_fault(input: &[u8], error: DecodeError)
    requires
        call_ensures(decode_send_data_indication, (input,), Err(error)),
    ensures
        indication_fault(input@, error),
{
}

/// What user data decodes to as an Auto-Detect Request, if it does: the sequence
/// number of a round-trip-time request, or nothing for another kind of request.
pub uninterp spec fn probe_of(user_data: Seq<u8>) -> Option<Option<u16>>;

/// Calls `SendDataIndicationCtx::decode_user_data` for an `AutoDetectReqPdu`: what it
/// gives depends on the user data alone. Nothing is said of its error.
#[verifier::external_body]
pub(crate) fn decode_probe(indication: &Indication) -> (result: Result<Option<u16>, DecodeError>)
    ensures
        match result {
            Ok(probe) => probe_of(indication@.user_data) == Some(probe),
            Err(_) => probe_of(indication@.user_data) is None,
        },
{
    let ctx = SendDataIndicationCtx {
        initiator_id: indication.initiator_id,
        channel_id: indication.channel_id,
        user_data: &indication.user_data,
    };
    Ok(match ctx.decode_user_data::<AutoDetectReqPdu>()?.request {
        AutoDetectRequest::RttRequest { sequence_number, .. } => Some(sequence_number),
        _ => None,
    })
}

/// Lowest MCS user channel: the encoders take no lower one for an initiator.
pub const BASE_CHANNEL_ID: u16 = 1001;

/// The MCS Send Data Request that answers a round-trip-time request, if it can be
/// encoded.
pub uninterp spec fn rtt_response_of(
    initiator_id: u16,
    channel_id: u16,
    sequence_number: u16,
) -> Option<Seq<u8>>;

/// Calls `ironrdp_pdu::mcs::encode_send_data_request` with an `AutoDetectRspPdu`: what
/// it writes depends on the three numbers alone. It fails for an initiator below the
/// lowest user channel only, and never writes nothing.
#[verifier::external_body]
pub(crate) fn encode_rtt_response(
    initiator_id: u16,
    channel_id: u16,
    sequence_number: u16,
) -> (result: Result<Vec<u8>, EncodeError>)
    ensures
        match result {
            Ok(message) => rtt_response_of(initiator_id, channel_id, sequence_number) == Some(
                message@,
            ) && message@.len() > 0,
            Err(_) => rtt_response_of(initiator_id, channel_id, sequence_number) is None,
        },
        result is Ok <==> initiator_id >= BASE_CHANNEL_ID,
{
    let response = AutoDetectRspPdu::new(AutoDetectResponse::RttResponse { sequence_number });
    let mut buf = WriteBuf::new();
    ironrdp_pdu::mcs::encode_send_data_request(initiator_id, channel_id, &response, &mut buf)?;
    Ok(buf.filled().to_vec())
}

/// What the client reads of a Share Control PDU.
#[derive(Debug)]
pub enum ShareControl {
    /// The server demands the activation of a share, with its capability sets.
    DemandActive { share_id: u32, demand: sets::DemandActive },
    DeactivateAll,
    /// The server takes back an error that it reported before.
    ErrorInfoCleared,
    /// The server reports an error, in words.
    ErrorInfo { description: String },
    /// Anything else, in words.
    Unexpected { description: String },
}

#[verifier::ext_equal]
pub enum ShareControlState {
    DemandActive { share_id: u32, capability_sets: Seq<CapabilitySet> },
    DeactivateAll,
    ErrorInfoCleared,
    ErrorInfo { description: Seq<char> },
    Unexpected { description: Seq<char> },
}

impl View for ShareControl {
    type V = ShareControlState;

    open spec fn view(&self) -> ShareControlState {
        match *self {
            ShareControl::DemandActive { share_id, demand } => ShareControlState::DemandActive {
                share_id,
                capability_sets: demanded_sets(demand),
            },
            ShareControl::DeactivateAll => ShareControlState::DeactivateAll,
            ShareControl::ErrorInfoCleared => ShareControlState::ErrorInfoCleared,
            ShareControl::ErrorInfo { description } => ShareControlState::ErrorInfo {
                description: description@,
            },
            ShareControl::Unexpected { description } => ShareControlState::Unexpected {
                description: description@,
            },
        }
    }
}

/// What user data decodes to as a Share Control PDU, if it does.
pub uninterp spec fn share_control_of(user_data: Seq<u8>) -> Option<ShareControlState>;

/// Calls `ironrdp_pdu::rdp::headers::decode_share_control`: what it gives depends on
/// the user data alone. The words for an error and for a PDU that is not expected are
/// those of `ErrorInfo::description` and `describe_unexpected_share_control_pdu`.
/// Nothing is said of the error.
#[verifier::external_body]
pub(crate) fn decode_share_control(indication: &Indication) -> (result: Result<
    ShareControl,
    DecodeError,
>)
    ensures
        match result {
            Ok(share_control) => share_control_of(indication@.user_data) == Some(share_control@),
            Err(_) => share_control_of(indication@.user_data) is None,
        },
{
    let Indication { initiator_id, channel_id, user_data } = indication;
    let ctx = SendDataIndicationCtx { initiator_id: *initiator_id, channel_id: *channel_id, user_data };
    let ctx = ironrdp_pdu::rdp::headers::decode_share_control(ctx)?;
    let share_id = ctx.share_id;
    Ok(match ctx.pdu {
        ShareControlPdu::ServerDemandActive(active) => ShareControl::DemandActive { share_id, demand: active.pdu },
        ShareControlPdu::ServerDeactivateAll(_) => ShareControl::DeactivateAll,
        ShareControlPdu::Data(ShareDataHeader { share_data_pdu: ShareDataPdu::ServerSetErrorInfo(ServerSetErrorInfoPdu(info)), .. }) => match info {
            ErrorInfo::ProtocolIndependentCode(ProtocolIndependentCode::None) => ShareControl::ErrorInfoCleared,
            info => ShareControl::ErrorInfo { description: info.description() },
        },
        pdu => ShareControl::Unexpected { description: ironrdp_pdu::rdp::headers::describe_unexpected_share_control_pdu(&pdu) },
    })
}

/// The capability sets that a Demand Active PDU holds, in order, as far as the client
/// reads them.
pub uninterp spec fn demanded_sets(demand: sets::DemandActive) -> Seq<CapabilitySet>;

/// Reads the length of `DemandActive::capability_sets`: how many sets there are.
#[verifier::external_body]
pub(crate) fn demanded_len(demand: &sets::DemandActive) -> (len: usize)
    ensures
        len == demanded_sets(*demand).len(),
{
    demand.capability_sets.len()
}

/// Reads one set of `DemandActive::capability_sets`: the fields that the client reads
/// of it, with flags as their bits. Window List sets are read by
/// [`demanded_window_list`].
#[verifier::external_body]
fn demanded_other_set(demand: &sets::DemandActive, index: usize) -> (set: CapabilitySet)
    requires
        index < demanded_sets(*demand).len(),
        !(demanded_sets(*demand)[index as int] is WindowList),
    ensures
        set == demanded_sets(*demand)[index as int],
{
    match &demand.capability_sets[index] {
        sets::CapabilitySet::General(set) => CapabilitySet::General {
            refresh_rect_support: set.refresh_rect_support,
            suppress_output_support: set.suppress_output_support,
        },
        sets::CapabilitySet::Bitmap(set) => {
            CapabilitySet::Bitmap { desktop_width: set.desktop_width, desktop_height: set.desktop_height }
        }
        sets::CapabilitySet::Input(set) => CapabilitySet::Input { input_flags: set.input_flags.bits() },
        sets::CapabilitySet::VirtualChannel(set) => CapabilitySet::VirtualChannel { chunk_size: set.chunk_size },
        sets::CapabilitySet::MultiFragmentUpdate(set) => CapabilitySet::MultiFragmentUpdate { max_request_size: set.max_request_size },
        sets::CapabilitySet::Rail(set) => CapabilitySet::Rail(Rail { support_level: set.support_level.bits() }),
        _ => CapabilitySet::Other,
    }
}

/// Reads one set of `DemandActive::capability_sets` if it is a Window List set.
#[verifier::external_body]
fn demanded_window_list(demand: &sets::DemandActive, index: usize) -> (set: Option<WindowList>)
    requires
        index < demanded_sets(*demand).len(),
    ensures
        match set {
            Some(set) => demanded_sets(*demand)[index as int] == CapabilitySet::WindowList(set),
            None => !(demanded_sets(*demand)[index as int] is WindowList),
        },
{
    let sets::CapabilitySet::WindowList(set) = &demand.capability_sets[index] else {
        return None;
    };
    let support_level = match set.support_level {
        sets::WindowSupportLevel::NotSupported => WindowSupportLevel::NotSupported,
        sets::WindowSupportLevel::Supported => WindowSupportLevel::Supported,
        sets::WindowSupportLevel::SupportedEx => WindowSupportLevel::SupportedEx,
    };
    Some(WindowList {
        support_level,
        num_icon_caches: set.num_icon_caches,
        num_icon_cache_entries: set.num_icon_cache_entries,
    })
}

/// The capability sets of a Demand Active PDU, in order.
pub(crate) fn read_demanded_sets(demand: &sets::DemandActive) -> (capability_sets: Vec<
    CapabilitySet,
>)
    ensures
        capability_sets@ == demanded_sets(*demand),
{
    let mut capability_sets: Vec<CapabilitySet> = Vec::new();
    let len: usize = demanded_len(demand);
    let mut i: usize = 0;
    while i < len
        invariant
            i <= len,
            len == demanded_sets(*demand).len(),
            capability_sets@ =~= demanded_sets(*demand).take(i as int),
        decreases len - i,
    {
        let set: CapabilitySet = match demanded_window_list(demand, i) {
            Some(window_list) => CapabilitySet::WindowList(window_list),
            None => demanded_other_set(demand, i),
        };
        capability_sets.push(set);
        i += 1;
    }
    capability_sets
}

} // verus!
