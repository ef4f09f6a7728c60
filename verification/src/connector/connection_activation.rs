//! The activation of a connection: the exchange of capability sets and the
//! finalization of the connection.
//!
//! Every connection goes through it once, and again each time that the server
//! deactivates and reactivates it. The server does not stop serving the static virtual
//! channels meanwhile, so their PDUs are set aside and handed back afterwards.
use vstd::prelude::*;
use vstd::string::*;

use ironrdp_core::{DecodeError, EncodeError};
use ironrdp_pdu::rdp::finalization_messages::MonitorLayoutPdu;

use super::capabilities::{
    create_client_confirm_active, negotiated_window_support_level, server_desktop_size,
    server_input_flags, server_recovery_support, server_window_list, static_channel_chunk_size,
    CapabilitySet, Config, WindowList, WindowSupportLevel,
};
use super::wire::announce::encode_confirm_active;
use super::wire::{
    clone_layout, decode_probe, decode_send_data_indication, decode_share_control,
    encode_rtt_response, read_demanded_sets, Indication, IndicationState, ShareControl,
    ShareControlState,
};
use super::{
    ConnectorError, ConnectorErrorKind, ConnectorResult, DesktopSize, ErrorReport, NextPdu, Written,
};

pub mod laws;

verus! {

/// Ceiling on the virtual-channel data that is set aside while a connection is
/// activated: 16 MiB. Past it the data is dropped.
pub const DEFERRED_PDU_BUDGET: usize = 16_777_216;

/// Round-trip-time requests that may be answered while capability sets are exchanged
/// before it is worth a warning.
pub const CAPABILITIES_PROBE_WARN_THRESHOLD: u32 = 3;

/// Whether so many probes were answered that it is worth a warning.
pub fn probes_need_warning(probe_count: u32) -> (yes: bool)
    ensures
        yes == (probe_count > CAPABILITIES_PROBE_WARN_THRESHOLD),
{
    probe_count > CAPABILITIES_PROBE_WARN_THRESHOLD
}

/// How far the activation has come.
#[derive(Debug, Clone, Copy)]
pub enum ConnectionActivationState {
    Consumed,
    CapabilitiesExchange {
        /// Round-trip-time requests that were answered while waiting in this state.
        probe_count: u32,
    },
    ConnectionFinalization {
        desktop_size: DesktopSize,
        share_id: u32,
        /// The flags of the server's Input Capability Set.
        input_flags: u16,
        /// The chunk size of the server's Virtual Channel Capability Set, if valid.
        static_channel_chunk_size: usize,
        refresh_rect_support: bool,
        suppress_output_support: bool,
        /// The support level of the server's Window List Capability Set.
        window_support_level: Option<WindowSupportLevel>,
    },
    Finalized {
        desktop_size: DesktopSize,
        share_id: u32,
        /// The flags of the server's Input Capability Set. Fast-path input events may
        /// be sent only if they say so.
        input_flags: u16,
        /// The chunk size of the server's Virtual Channel Capability Set, if valid.
        static_channel_chunk_size: usize,
        enable_server_pointer: bool,
        pointer_software_rendering: bool,
        /// Whether the server permits Refresh Rect PDUs.
        refresh_rect_support: bool,
        /// Whether the server permits Suppress Output PDUs.
        suppress_output_support: bool,
        /// The support level of the server's Window List Capability Set.
        window_support_level: Option<WindowSupportLevel>,
    },
}

impl Default for ConnectionActivationState {
    fn default() -> (state: Self)
        ensures
            state is Consumed,
    {
        ConnectionActivationState::Consumed
    }
}

impl ConnectionActivationState {
    /// The phase reads from the wire.
    pub open spec fn reads_wire(self) -> bool {
        self is CapabilitiesExchange || self is ConnectionFinalization
    }

    /// Another round-trip-time request can be counted.
    pub open spec fn can_count(self) -> bool {
        self is CapabilitiesExchange ==> self->probe_count < u32::MAX
    }

    pub open spec fn name_text(self) -> Seq<char> {
        match self {
            ConnectionActivationState::Consumed => "Consumed"@,
            ConnectionActivationState::CapabilitiesExchange { .. } => "CapabilitiesExchange"@,
            ConnectionActivationState::ConnectionFinalization { .. } => "ConnectionFinalization"@,
            ConnectionActivationState::Finalized { .. } => "Finalized"@,
        }
    }

    pub fn name(&self) -> (name: &'static str)
        ensures
            name@ == self.name_text(),
    {
        match self {
            ConnectionActivationState::Consumed => "Consumed",
            ConnectionActivationState::CapabilitiesExchange { .. } => "CapabilitiesExchange",
            ConnectionActivationState::ConnectionFinalization { .. } => "ConnectionFinalization",
            ConnectionActivationState::Finalized { .. } => "Finalized",
        }
    }

    pub fn is_terminal(&self) -> (terminal: bool)
        ensures
            terminal == (*self is Finalized),
    {
        match self {
            ConnectionActivationState::Finalized { .. } => true,
            _ => false,
        }
    }

    fn is_reading_wire(&self) -> (reading: bool)
        ensures
            reading == self.reads_wire(),
    {
        match self {
            ConnectionActivationState::CapabilitiesExchange { .. } => true,
            ConnectionActivationState::ConnectionFinalization { .. } => true,
            _ => false,
        }
    }
}

/// Why a PDU was not set aside in a phase that reads from the wire. Nothing branches
/// on it: it is there to be logged.
#[derive(Debug, Clone, Copy, PartialEq, Eq, Structural)]
pub enum DeclinedDefer {
    /// Not a Send Data Indication: there is no channel.
    NotSendDataIndication,
    /// A Send Data Indication for the I/O channel: handled, not set aside.
    IoChannel,
    /// A Send Data Indication for the message channel: answered in place.
    MessageChannel,
}

/// What a step asks of its caller.
#[derive(Debug, Clone, Copy, PartialEq, Eq, Structural)]
pub enum StepOutcome {
    /// Nothing: the input is dealt with.
    Done(Written),
    /// To hand the input to the finalization of the connection, and what comes of it
    /// to [`ConnectionActivationSequence::finalization_stepped`].
    Finalize,
}

/// What came of a step of the finalization of the connection.
#[derive(Debug)]
pub struct FinalizationStep {
    pub written: Written,
    /// The connection is finalized.
    pub terminal: bool,
    /// The layout of the server's monitors, as far as it is known.
    pub monitor_layout: Option<MonitorLayoutPdu>,
}

/// What the server's capability sets settle for the session.
#[derive(Debug, Clone, Copy, PartialEq, Eq, Structural)]
pub struct Negotiated {
    pub desktop_size: DesktopSize,
    pub share_id: u32,
    pub input_flags: u16,
    pub static_channel_chunk_size: usize,
    pub refresh_rect_support: bool,
    pub suppress_output_support: bool,
    pub window_support_level: Option<WindowSupportLevel>,
}

/// The value in an option, or another.
pub open spec fn or_else<T>(value: Option<T>, other: T) -> T {
    match value {
        Some(value) => value,
        None => other,
    }
}

/// What the server's capability sets settle: the size that it answers with, or the
/// configured one, and what it permits, or nothing.
pub open spec fn negotiated(config: Config, share_id: u32, sets: Seq<CapabilitySet>) -> Negotiated {
    let (refresh_rect_support, suppress_output_support) = or_else(
        super::capabilities::first_recovery_support(sets),
        (false, false),
    );
    Negotiated {
        desktop_size: or_else(super::capabilities::first_desktop_size(sets), config.desktop_size),
        share_id,
        input_flags: or_else(super::capabilities::first_input_flags(sets), 0),
        static_channel_chunk_size: super::capabilities::chunk_size_of(sets),
        refresh_rect_support,
        suppress_output_support,
        window_support_level: super::capabilities::supported_level(
            super::capabilities::first_window_list(sets),
        ),
    }
}

impl Negotiated {
    pub open spec fn finalizing(self) -> ConnectionActivationState {
        ConnectionActivationState::ConnectionFinalization {
            desktop_size: self.desktop_size,
            share_id: self.share_id,
            input_flags: self.input_flags,
            static_channel_chunk_size: self.static_channel_chunk_size,
            refresh_rect_support: self.refresh_rect_support,
            suppress_output_support: self.suppress_output_support,
            window_support_level: self.window_support_level,
        }
    }

    /// What the server's capability sets settle for the session.
    pub fn new(config: &Config, share_id: u32, capability_sets: &[CapabilitySet]) -> (result: Self)
        ensures
            result == negotiated(*config, share_id, capability_sets@),
    {
        let window_list: Option<WindowList> = server_window_list(capability_sets);
        let (refresh_rect_support, suppress_output_support): (bool, bool) =
            match server_recovery_support(capability_sets) {
            Some(support) => support,
            None => (false, false),
        };
        let input_flags: u16 = match server_input_flags(capability_sets) {
            Some(flags) => flags,
            None => 0,
        };
        // The desktop size was requested before. The server answers with one that is
        // close to it, and that one holds for the session.
        let desktop_size: DesktopSize = match server_desktop_size(capability_sets) {
            Some(size) => size,
            None => config.desktop_size,
        };
        Self {
            desktop_size,
            share_id,
            input_flags,
            static_channel_chunk_size: static_channel_chunk_size(capability_sets),
            refresh_rect_support,
            suppress_output_support,
            window_support_level: negotiated_window_support_level(window_list.as_ref()),
        }
    }
}

/// The activation sequence of a connection.
#[derive(Debug)]
pub struct ConnectionActivationSequence {
    state: ConnectionActivationState,
    monitor_layout: Option<MonitorLayoutPdu>,
    config: Config,
    // The channels are negotiated once and never change, not even across a reactivation.
    io_channel_id: u16,
    user_channel_id: u16,
    // The channel on which the server probes the connection.
    message_channel_id: Option<u16>,
    // In wire order, for the caller to replay.
    deferred_virtual_channel_pdus: Vec<Vec<u8>>,
    deferred_bytes: usize,
    // Also a latch: once a PDU was dropped, every later one is.
    dropped_virtual_channel_pdus: u32,
}

/// What an activation sequence holds.
#[verifier::ext_equal]
pub struct Activation {
    pub state: ConnectionActivationState,
    pub monitor_layout: Option<MonitorLayoutPdu>,
    pub config: Config,
    pub io_channel_id: u16,
    pub user_channel_id: u16,
    pub message_channel_id: Option<u16>,
    /// Virtual-channel PDUs that were set aside and not yet handed back, in wire order.
    pub deferred: Seq<Seq<u8>>,
    /// How many bytes they hold.
    pub deferred_bytes: nat,
    /// Virtual-channel PDUs that were dropped.
    pub dropped: u32,
}

/// What a step makes of an activation: what it is afterwards, what the step returns,
/// and what it appends to the output.
#[verifier::ext_equal]
pub struct Stepped {
    pub after: Activation,
    pub result: Result<StepOutcome, ErrorReport>,
    pub output: Seq<u8>,
}

/// The bytes in a list of PDUs.
pub open spec fn total_len(pdus: Seq<Seq<u8>>) -> nat
    decreases pdus.len(),
{
    if pdus.len() == 0 {
        0
    } else {
        total_len(pdus.drop_last()) + pdus.last().len()
    }
}

impl Activation {
    /// A sequence that has read nothing yet.
    pub open spec fn fresh(
        config: Config,
        io_channel_id: u16,
        user_channel_id: u16,
        message_channel_id: Option<u16>,
    ) -> Self {
        Activation {
            state: ConnectionActivationState::CapabilitiesExchange { probe_count: 0 },
            monitor_layout: None,
            config,
            io_channel_id,
            user_channel_id,
            message_channel_id,
            deferred: Seq::empty(),
            deferred_bytes: 0,
            dropped: 0,
        }
    }

    /// The bytes set aside are counted, and within the budget.
    pub open spec fn well_formed(self) -> bool {
        self.deferred_bytes == total_len(self.deferred) && self.deferred_bytes
            <= DEFERRED_PDU_BUDGET
    }

    /// Another dropped PDU and another answered probe can be counted.
    pub open spec fn can_count(self) -> bool {
        self.dropped < u32::MAX && self.state.can_count()
    }

    pub open spec fn in_state(self, state: ConnectionActivationState) -> Self {
        Activation { state, ..self }
    }

    pub open spec fn consumed(self) -> Self {
        self.in_state(ConnectionActivationState::Consumed)
    }

    /// The channel whose PDU is to be set aside, given the channel of the input, if it
    /// is a Send Data Indication.
    pub open spec fn channel_to_defer(self, channel_id: Option<u16>) -> Option<u16> {
        if self.state.reads_wire() && channel_id is Some && channel_id != self.message_channel_id
            && channel_id != Some(self.io_channel_id) {
            channel_id
        } else {
            None
        }
    }

    /// Why a PDU is not set aside, given its channel.
    pub open spec fn reason_to_decline(self, channel_id: Option<u16>) -> Option<DeclinedDefer> {
        if channel_id is None {
            Some(DeclinedDefer::NotSendDataIndication)
        } else if channel_id == self.message_channel_id {
            Some(DeclinedDefer::MessageChannel)
        } else if channel_id == Some(self.io_channel_id) {
            Some(DeclinedDefer::IoChannel)
        } else {
            None
        }
    }

    /// Why a PDU is not set aside, given its channel, in a phase that reads from the
    /// wire; nothing in any other.
    pub open spec fn declined(self, channel_id: Option<u16>) -> Option<DeclinedDefer> {
        if self.state.reads_wire() {
            self.reason_to_decline(channel_id)
        } else {
            None
        }
    }

    /// One more virtual-channel PDU has arrived: it is set aside if none was dropped
    /// yet and it fits the budget, and dropped otherwise.
    pub open spec fn with_arrival(self, pdu: Seq<u8>) -> Self {
        if self.dropped > 0 || self.deferred_bytes + pdu.len() > DEFERRED_PDU_BUDGET {
            Activation { dropped: (self.dropped + 1) as u32, ..self }
        } else {
            Activation {
                deferred: self.deferred.push(pdu),
                deferred_bytes: self.deferred_bytes + pdu.len(),
                ..self
            }
        }
    }

    /// What was set aside has been handed back.
    pub open spec fn handed_back(self) -> Self {
        Activation { deferred: Seq::empty(), deferred_bytes: 0, ..self }
    }

    /// A step that writes nothing and changes nothing.
    pub open spec fn stays(self) -> Stepped {
        Stepped {
            after: self,
            result: Ok(StepOutcome::Done(Written::Nothing)),
            output: Seq::empty(),
        }
    }

    /// A step that fails: nothing follows it.
    pub open spec fn fails(self, error: ErrorReport) -> Stepped {
        Stepped { after: self.consumed(), result: Err(error), output: Seq::empty() }
    }

    /// A probe is answered with the given message, if it could be encoded.
    pub open spec fn probe_answered(self, probe_count: u32, message: Option<Seq<u8>>) -> Stepped {
        match message {
            None => self.fails(ErrorReport::encode()),
            Some(message) => Stepped {
                after: self.in_state(
                    ConnectionActivationState::CapabilitiesExchange {
                        probe_count: (probe_count + 1) as u32,
                    },
                ),
                result: done(super::written_size(message.len())),
                output: message,
            },
        }
    }

    /// The server's capability sets are confirmed with the given message, if it could
    /// be encoded.
    pub open spec fn confirmed(self, negotiated: Negotiated, message: Option<Seq<u8>>) -> Stepped {
        match message {
            None => self.fails(ErrorReport::encode()),
            Some(message) => match super::written_size(message.len()) {
                Ok(written) => Stepped {
                    after: self.in_state(negotiated.finalizing()),
                    result: Ok(StepOutcome::Done(written)),
                    output: message,
                },
                Err(error) => Stepped {
                    after: self.consumed(),
                    result: Err(error),
                    output: message,
                },
            },
        }
    }

    /// The server's capability sets are answered.
    pub open spec fn demanded(self, share_id: u32, sets: Seq<CapabilitySet>) -> Stepped {
        let settled = negotiated(self.config, share_id, sets);
        match super::capabilities::confirm_of(
            self.config,
            sets,
            settled.desktop_size,
            super::capabilities::first_window_list(sets),
        ) {
            Err(error) => self.fails(error),
            Ok(confirm) => self.confirmed(
                settled,
                super::wire::announce::confirm_active_of(
                    self.user_channel_id,
                    self.io_channel_id,
                    share_id,
                    confirm.originator_id,
                    confirm.source_descriptor,
                    confirm.capability_sets,
                ),
            ),
        }
    }

    /// A Share Control PDU arrived while capability sets are exchanged.
    pub open spec fn controlled(self, share_control: ShareControlState) -> Stepped {
        match share_control {
            ShareControlState::DeactivateAll => self.stays(),
            ShareControlState::ErrorInfoCleared => self.stays(),
            ShareControlState::ErrorInfo { description } => self.fails(
                ErrorReport::reason(
                    "ConnectionActivation::CapabilitiesExchange"@,
                    "server ended the session with error info: "@ + description,
                ),
            ),
            ShareControlState::Unexpected { description } => self.fails(
                ErrorReport::reason(
                    "ConnectionActivation::CapabilitiesExchange"@,
                    "unexpected Share Control PDU during capabilities exchange: got "@ + description
                        + " (expected Server Demand Active PDU)"@,
                ),
            ),
            ShareControlState::DemandActive { share_id, capability_sets } => self.demanded(
                share_id,
                capability_sets,
            ),
        }
    }

    /// A Send Data Indication arrived while capability sets are exchanged, on a channel
    /// whose PDUs are not set aside.
    pub open spec fn indicated(self, probe_count: u32, indication: IndicationState) -> Stepped {
        if self.message_channel_id == Some(indication.channel_id) {
            match super::wire::probe_of(indication.user_data) {
                Some(Some(sequence_number)) => self.probe_answered(
                    probe_count,
                    super::wire::rtt_response_of(
                        self.user_channel_id,
                        indication.channel_id,
                        sequence_number,
                    ),
                ),
                _ => self.stays(),
            }
        } else {
            match super::wire::share_control_of(indication.user_data) {
                None => self.fails(ErrorReport::decode()),
                Some(share_control) => self.controlled(share_control),
            }
        }
    }

    /// A PDU arrived: `indication` is what it decodes to as a Send Data Indication.
    pub open spec fn received(self, input: Seq<u8>, indication: Option<IndicationState>) -> Stepped {
        if self.channel_to_defer(channel_of(indication)) is Some {
            self.with_arrival(input).stays()
        } else {
            match self.state {
                ConnectionActivationState::CapabilitiesExchange { probe_count } => match indication {
                    None => self.fails(ErrorReport::decode()),
                    Some(indication) => self.indicated(probe_count, indication),
                },
                ConnectionActivationState::ConnectionFinalization { .. } => Stepped {
                    after: self,
                    result: Ok(StepOutcome::Finalize),
                    output: Seq::empty(),
                },
                _ => self.fails(
                    ErrorReport::general(
                        "connector sequence state is finalized or consumed (this is a bug)"@,
                    ),
                ),
            }
        }
    }

    /// A PDU arrived.
    pub open spec fn stepped(self, input: Seq<u8>) -> Stepped {
        self.received(input, super::wire::indication_of(input))
    }

    /// The state once the connection is finalized.
    pub open spec fn finalized_state(self) -> ConnectionActivationState {
        match self.state {
            ConnectionActivationState::ConnectionFinalization {
                desktop_size,
                share_id,
                input_flags,
                static_channel_chunk_size,
                refresh_rect_support,
                suppress_output_support,
                window_support_level,
            } => ConnectionActivationState::Finalized {
                desktop_size,
                share_id,
                input_flags,
                static_channel_chunk_size,
                enable_server_pointer: self.config.enable_server_pointer,
                pointer_software_rendering: self.config.pointer_software_rendering,
                refresh_rect_support,
                suppress_output_support,
                window_support_level,
            },
            state => state,
        }
    }

    /// The finalization of the connection took a step.
    pub open spec fn after_finalization(self, step: ConnectorResult<FinalizationStep>) -> Self {
        match step {
            Err(_) => self.consumed(),
            Ok(step) => if step.terminal {
                Activation {
                    state: self.finalized_state(),
                    monitor_layout: step.monitor_layout,
                    ..self
                }
            } else {
                self
            },
        }
    }
}

/// Decoding user data as a Share Control PDU may give this error.
pub closed spec fn share_control_fault(indication: IndicationState, error: DecodeError) -> bool {
    exists|received: Indication|
        received@ == indication && #[trigger] call_ensures(
            decode_share_control,
            (&received,),
            Err(error),
        )
}

/// Encoding the answer to a round-trip-time request may give this error.
pub closed spec fn rtt_fault(
    initiator_id: u16,
    channel_id: u16,
    sequence_number: u16,
    error: EncodeError,
) -> bool {
    call_ensures(encode_rtt_response, (initiator_id, channel_id, sequence_number), Err(error))
}

impl Activation {
    /// Encoding the answer to the server's capability sets may give this error.
    pub open spec fn demand_fault(
        self,
        share_id: u32,
        sets: Seq<CapabilitySet>,
        error: EncodeError,
    ) -> bool {
        super::capabilities::confirm_of(
            self.config,
            sets,
            negotiated(self.config, share_id, sets).desktop_size,
            super::capabilities::first_window_list(sets),
        ) matches Ok(confirm) && super::wire::announce::confirm_fault(
            self.user_channel_id,
            self.io_channel_id,
            share_id,
            confirm,
            error,
        )
    }

    /// Encoding what is answered to a Send Data Indication may give this error.
    pub open spec fn answer_fault(self, indication: IndicationState, error: EncodeError) -> bool {
        if self.message_channel_id == Some(indication.channel_id) {
            super::wire::probe_of(indication.user_data) matches Some(Some(sequence_number))
                && rtt_fault(
                self.user_channel_id,
                indication.channel_id,
                sequence_number,
                error,
            )
        } else {
            super::wire::share_control_of(indication.user_data) matches Some(
                ShareControlState::DemandActive { share_id, capability_sets },
            ) && self.demand_fault(share_id, capability_sets, error)
        }
    }

    /// What the protocol crate says of a PDU that could not be dealt with is what it said
    /// when that very PDU was decoded, or its answer encoded.
    pub open spec fn may_say(self, input: Seq<u8>, kind: ConnectorErrorKind) -> bool {
        match (kind, super::wire::indication_of(input)) {
            (ConnectorErrorKind::Decode(error), None) => super::wire::indication_fault(
                input,
                error,
            ),
            (ConnectorErrorKind::Decode(error), Some(indication)) => share_control_fault(
                indication,
                error,
            ),
            (ConnectorErrorKind::Encode(error), Some(indication)) => self.answer_fault(
                indication,
                error,
            ),
            (ConnectorErrorKind::Encode(_), None) => false,
            _ => true,
        }
    }
}

/// What a step returns that has written something.
pub open spec fn done(written: Result<Written, ErrorReport>) -> Result<StepOutcome, ErrorReport> {
    match written {
        Ok(written) => Ok(StepOutcome::Done(written)),
        Err(error) => Err(error),
    }
}

/// The channel of a Send Data Indication.
pub open spec fn channel_of(indication: Option<IndicationState>) -> Option<u16> {
    match indication {
        Some(indication) => Some(indication.channel_id),
        None => None,
    }
}

/// What came of encoding a message.
pub open spec fn message_of(encoded: Result<Vec<u8>, EncodeError>) -> Option<Seq<u8>> {
    match encoded {
        Ok(message) => Some(message@),
        Err(_) => None,
    }
}

impl View for ConnectionActivationSequence {
    type V = Activation;

    closed spec fn view(&self) -> Activation {
        Activation {
            state: self.state,
            monitor_layout: self.monitor_layout,
            config: self.config,
            io_channel_id: self.io_channel_id,
            user_channel_id: self.user_channel_id,
            message_channel_id: self.message_channel_id,
            deferred: self.deferred_virtual_channel_pdus@.map_values(|pdu: Vec<u8>| pdu@),
            deferred_bytes: self.deferred_bytes as nat,
            dropped: self.dropped_virtual_channel_pdus,
        }
    }
}

impl ConnectionActivationSequence {
    pub fn new(
        config: Config,
        io_channel_id: u16,
        user_channel_id: u16,
        message_channel_id: Option<u16>,
    ) -> (sequence: Self)
        ensures
            sequence@ == Activation::fresh(
                config,
                io_channel_id,
                user_channel_id,
                message_channel_id,
            ),
            sequence@.well_formed(),
    {
        let sequence: Self = Self {
            state: ConnectionActivationState::CapabilitiesExchange { probe_count: 0 },
            monitor_layout: None,
            config,
            io_channel_id,
            user_channel_id,
            message_channel_id,
            deferred_virtual_channel_pdus: Vec::new(),
            deferred_bytes: 0,
            dropped_virtual_channel_pdus: 0,
        };
        assert(sequence@.deferred =~= Seq::<Seq<u8>>::empty());
        sequence
    }

    /// The channel whose PDU is to be set aside, given the channel of the input, if it
    /// is a Send Data Indication.
    pub fn channel_to_defer(&self, channel_id: Option<u16>) -> (result: Option<u16>)
        ensures
            result == self@.channel_to_defer(channel_id),
    {
        if !self.state.is_reading_wire() {
            return None;
        }
        match channel_id {
            None => None,
            Some(id) => {
                // The message channel carries probes that are answered in place.
                let on_message_channel: bool = match self.message_channel_id {
                    Some(message_channel_id) => id == message_channel_id,
                    None => false,
                };
                if on_message_channel || id == self.io_channel_id {
                    None
                } else {
                    Some(id)
                }
            },
        }
    }

    /// Why a PDU is not set aside, given its channel, whatever the phase.
    pub fn classify_declined_defer(&self, channel_id: Option<u16>) -> (reason: Option<
        DeclinedDefer,
    >)
        ensures
            reason == self@.reason_to_decline(channel_id),
    {
        match channel_id {
            None => Some(DeclinedDefer::NotSendDataIndication),
            Some(id) => {
                let on_message_channel: bool = match self.message_channel_id {
                    Some(message_channel_id) => id == message_channel_id,
                    None => false,
                };
                if on_message_channel {
                    Some(DeclinedDefer::MessageChannel)
                } else if id == self.io_channel_id {
                    Some(DeclinedDefer::IoChannel)
                } else {
                    None
                }
            },
        }
    }

    /// The channel of `input` if the sequence must set it aside rather than decode it: a
    /// Send Data Indication for a channel other than the I/O channel, in a phase that
    /// reads from the wire.
    ///
    /// The channel decides, and never whether something failed to decode: so a
    /// malformed PDU on the I/O channel stays a protocol error.
    pub fn virtual_channel_id_to_defer(&self, input: &[u8]) -> (result: Option<u16>)
        ensures
            result == self@.channel_to_defer(channel_of(super::wire::indication_of(input@))),
    {
        if !self.state.is_reading_wire() {
            return None;
        }
        match decode_send_data_indication(input) {
            Ok(indication) => self.channel_to_defer(Some(indication.channel_id)),
            Err(_) => None,
        }
    }

    /// Why [`Self::virtual_channel_id_to_defer`] gives nothing in a phase that reads
    /// from the wire.
    pub fn declined_defer_reason(&self, input: &[u8]) -> (reason: Option<DeclinedDefer>)
        ensures
            reason == self@.declined(channel_of(super::wire::indication_of(input@))),
    {
        if !self.state.is_reading_wire() {
            return None;
        }
        match decode_send_data_indication(input) {
            Ok(indication) => self.classify_declined_defer(Some(indication.channel_id)),
            Err(_) => self.classify_declined_defer(None),
        }
    }

    /// Sets a virtual-channel PDU aside, to be replayed by the caller afterwards.
    ///
    /// The first PDU that exceeds the budget is dropped, and every later one too, even
    /// if it would fit. So what is handed back is always a prefix of what arrived, and
    /// never a stream with a gap.
    pub fn defer_virtual_channel_pdu(&mut self, input: &[u8])
        requires
            old(self)@.well_formed(),
            old(self)@.dropped < u32::MAX,
        ensures
            final(self)@ == old(self)@.with_arrival(input@),
            final(self)@.well_formed(),
    {
        let len: usize = input.len();
        if self.dropped_virtual_channel_pdus > 0 || len > DEFERRED_PDU_BUDGET
            - self.deferred_bytes {
            self.dropped_virtual_channel_pdus += 1;
            return;
        }
        self.deferred_bytes += len;
        let pdu: Vec<u8> = vstd::slice::slice_to_vec(input);
        self.deferred_virtual_channel_pdus.push(pdu);
        assert(self@.deferred =~= old(self)@.deferred.push(input@));
        assert(self@.deferred.drop_last() =~= old(self)@.deferred);
    }

    /// Takes the virtual-channel PDUs that were set aside, in wire order.
    ///
    /// The caller must feed them to the active session once the connection is
    /// finalized: nothing will send them again. The count of dropped PDUs stays: it
    /// keeps later PDUs from being handed back after a gap.
    #[must_use]
    pub fn take_deferred_virtual_channel_pdus(&mut self) -> (pdus: Vec<Vec<u8>>)
        ensures
            final(self)@ == old(self)@.handed_back(),
            pdus@.map_values(|pdu: Vec<u8>| pdu@) == old(self)@.deferred,
            final(self)@.well_formed(),
    {
        self.deferred_bytes = 0;
        let mut pdus: Vec<Vec<u8>> = Vec::new();
        core::mem::swap(&mut pdus, &mut self.deferred_virtual_channel_pdus);
        assert(self@.deferred =~= Seq::<Seq<u8>>::empty());
        pdus
    }

    /// How many virtual-channel PDUs were dropped for want of budget.
    #[must_use]
    pub fn dropped_virtual_channel_pdus(&self) -> (dropped: u32)
        ensures
            dropped == self@.dropped,
    {
        self.dropped_virtual_channel_pdus
    }

    pub fn io_channel_id(&self) -> (id: u16)
        ensures
            id == self@.io_channel_id,
    {
        self.io_channel_id
    }

    pub fn user_channel_id(&self) -> (id: u16)
        ensures
            id == self@.user_channel_id,
    {
        self.user_channel_id
    }

    pub fn connection_activation_state(&self) -> (state: ConnectionActivationState)
        ensures
            state == self@.state,
    {
        self.state
    }

    /// The layout of the server's monitors that came with this activation.
    pub fn monitor_layout(&self) -> (layout: Option<MonitorLayoutPdu>)
        ensures
            layout == self@.monitor_layout,
    {
        match &self.monitor_layout {
            Some(layout) => Some(clone_layout(layout)),
            None => None,
        }
    }

    /// What the next PDU is to be read as, if the sequence waits for one.
    pub fn next_pdu_hint(&self) -> (hint: Option<NextPdu>)
        ensures
            hint == match self@.state {
                ConnectionActivationState::CapabilitiesExchange { .. } => Some(NextPdu::X224),
                ConnectionActivationState::ConnectionFinalization { .. } => Some(
                    NextPdu::Finalization,
                ),
                _ => None,
            },
    {
        match self.state {
            ConnectionActivationState::CapabilitiesExchange { .. } => Some(NextPdu::X224),
            ConnectionActivationState::ConnectionFinalization { .. } => Some(NextPdu::Finalization),
            _ => None,
        }
    }

    /// Fails: nothing follows.
    fn fail(&mut self, error: ConnectorError) -> (result: ConnectorResult<StepOutcome>)
        ensures
            final(self)@ == old(self)@.fails(error@).after,
            super::report(result) == old(self)@.fails(error@).result,
            result == Err::<StepOutcome, ConnectorError>(error),
    {
        self.state = ConnectionActivationState::Consumed;
        assert(self@ =~= old(self)@.consumed());
        Err(error)
    }

    /// Writes the answer to a probe, if it could be encoded, and goes on waiting.
    pub fn answer_probe(
        &mut self,
        probe_count: u32,
        encoded: Result<Vec<u8>, EncodeError>,
        output: &mut Vec<u8>,
    ) -> (result: ConnectorResult<StepOutcome>)
        requires
            probe_count < u32::MAX,
        ensures
            final(self)@ == old(self)@.probe_answered(probe_count, message_of(encoded)).after,
            super::report(result) == old(self)@.probe_answered(
                probe_count,
                message_of(encoded),
            ).result,
            final(output)@ == old(output)@ + old(self)@.probe_answered(
                probe_count,
                message_of(encoded),
            ).output,
            encoded matches Err(unencoded) ==> result matches Err(error) && error.kind
                == ConnectorErrorKind::Encode(unencoded),
    {
        match encoded {
            Err(error) => {
                assert(output@ =~= output@ + Seq::<u8>::empty());
                self.fail(ConnectorError::encode(error))
            },
            Ok(message) => {
                output.extend_from_slice(message.as_slice());
                self.state = ConnectionActivationState::CapabilitiesExchange {
                    probe_count: probe_count + 1,
                };
                assert(self@ =~= old(self)@.probe_answered(probe_count, Some(message@)).after);
                match Written::from_size(message.len()) {
                    Ok(written) => Ok(StepOutcome::Done(written)),
                    Err(error) => Err(error),
                }
            },
        }
    }

    /// Writes the answer to the server's capability sets, if it could be encoded, and
    /// goes on to the finalization of the connection.
    pub fn confirm(
        &mut self,
        negotiated: Negotiated,
        encoded: Result<Vec<u8>, EncodeError>,
        output: &mut Vec<u8>,
    ) -> (result: ConnectorResult<StepOutcome>)
        ensures
            final(self)@ == old(self)@.confirmed(negotiated, message_of(encoded)).after,
            super::report(result) == old(self)@.confirmed(negotiated, message_of(encoded)).result,
            final(output)@ == old(output)@ + old(self)@.confirmed(
                negotiated,
                message_of(encoded),
            ).output,
            encoded matches Err(unencoded) ==> result matches Err(error) && error.kind
                == ConnectorErrorKind::Encode(unencoded),
    {
        match encoded {
            Err(error) => {
                assert(output@ =~= output@ + Seq::<u8>::empty());
                self.fail(ConnectorError::encode(error))
            },
            Ok(message) => {
                output.extend_from_slice(message.as_slice());
                match Written::from_size(message.len()) {
                    Ok(written) => {
                        self.state = ConnectionActivationState::ConnectionFinalization {
                            desktop_size: negotiated.desktop_size,
                            share_id: negotiated.share_id,
                            input_flags: negotiated.input_flags,
                            static_channel_chunk_size: negotiated.static_channel_chunk_size,
                            refresh_rect_support: negotiated.refresh_rect_support,
                            suppress_output_support: negotiated.suppress_output_support,
                            window_support_level: negotiated.window_support_level,
                        };
                        assert(self@ =~= old(self)@.confirmed(negotiated, Some(message@)).after);
                        Ok(StepOutcome::Done(written))
                    },
                    Err(error) => self.fail(error),
                }
            },
        }
    }

    /// Answers the server's capability sets.
    pub fn answer_demand(
        &mut self,
        share_id: u32,
        capability_sets: &[CapabilitySet],
        output: &mut Vec<u8>,
    ) -> (result: ConnectorResult<StepOutcome>)
        ensures
            final(self)@ == old(self)@.demanded(share_id, capability_sets@).after,
            super::report(result) == old(self)@.demanded(share_id, capability_sets@).result,
            final(output)@ == old(output)@ + old(self)@.demanded(share_id, capability_sets@).output,
            result matches Err(error) ==> (error.kind matches ConnectorErrorKind::Encode(unencoded)
                ==> old(self)@.demand_fault(share_id, capability_sets@, unencoded)),
    {
        let window_list: Option<WindowList> = server_window_list(capability_sets);
        let negotiated: Negotiated = Negotiated::new(&self.config, share_id, capability_sets);
        assert(output@ =~= output@ + Seq::<u8>::empty());
        match create_client_confirm_active(
            &self.config,
            capability_sets,
            negotiated.desktop_size,
            window_list,
        ) {
            Err(error) => self.fail(error),
            Ok(confirm) => {
                let encoded: Result<Vec<u8>, EncodeError> = encode_confirm_active(
                    self.user_channel_id,
                    self.io_channel_id,
                    share_id,
                    confirm,
                );
                self.confirm(negotiated, encoded, output)
            },
        }
    }

    /// Deals with a Share Control PDU while capability sets are exchanged.
    pub fn handle_share_control(
        &mut self,
        share_control: ShareControl,
        output: &mut Vec<u8>,
    ) -> (result: ConnectorResult<StepOutcome>)
        ensures
            final(self)@ == old(self)@.controlled(share_control@).after,
            super::report(result) == old(self)@.controlled(share_control@).result,
            final(output)@ == old(output)@ + old(self)@.controlled(share_control@).output,
            result matches Err(error) ==> (error.kind matches ConnectorErrorKind::Encode(unencoded)
                ==> share_control@ matches ShareControlState::DemandActive {
                share_id,
                capability_sets,
            } && old(self)@.demand_fault(share_id, capability_sets, unencoded)),
    {
        assert(output@ =~= output@ + Seq::<u8>::empty());
        match share_control {
            // Some servers deactivate before they activate. What the PDU says is of no
            // use here: the one that demands activation is still to come.
            ShareControl::DeactivateAll => Ok(StepOutcome::Done(Written::Nothing)),
            // An error that is taken back ends nothing.
            ShareControl::ErrorInfoCleared => Ok(StepOutcome::Done(Written::Nothing)),
            // A server may end the session here, and say why.
            ShareControl::ErrorInfo { description } => {
                let mut text: String = "server ended the session with error info: ".to_owned();
                text.append(description.as_str());
                self.fail(
                    ConnectorError::reason("ConnectionActivation::CapabilitiesExchange", text),
                )
            },
            ShareControl::Unexpected { description } => {
                let mut text: String =
                    "unexpected Share Control PDU during capabilities exchange: got ".to_owned();
                text.append(description.as_str());
                text.append(" (expected Server Demand Active PDU)");
                self.fail(
                    ConnectorError::reason("ConnectionActivation::CapabilitiesExchange", text),
                )
            },
            ShareControl::DemandActive { share_id, demand } => {
                let capability_sets: Vec<CapabilitySet> = read_demanded_sets(&demand);
                self.answer_demand(share_id, capability_sets.as_slice(), output)
            },
        }
    }

    /// Deals with a Send Data Indication while capability sets are exchanged, on a
    /// channel whose PDUs are not set aside.
    fn handle_indication(
        &mut self,
        probe_count: u32,
        indication: &Indication,
        output: &mut Vec<u8>,
    ) -> (result: ConnectorResult<StepOutcome>)
        requires
            probe_count < u32::MAX,
        ensures
            final(self)@ == old(self)@.indicated(probe_count, indication@).after,
            super::report(result) == old(self)@.indicated(probe_count, indication@).result,
            final(output)@ == old(output)@ + old(self)@.indicated(probe_count, indication@).output,
            result matches Err(error) ==> match error.kind {
                ConnectorErrorKind::Encode(unencoded) => old(self)@.answer_fault(
                    indication@,
                    unencoded,
                ),
                ConnectorErrorKind::Decode(undecoded) => share_control_fault(
                    indication@,
                    undecoded,
                ),
                _ => true,
            },
    {
        assert(output@ =~= output@ + Seq::<u8>::empty());
        let on_message_channel: bool = match self.message_channel_id {
            Some(message_channel_id) => indication.channel_id == message_channel_id,
            None => false,
        };
        if on_message_channel {
            // The server may go on probing after the phase for it is over. Only
            // round-trip-time requests are answered: a bandwidth measure belongs to a
            // procedure that this phase does not follow.
            match decode_probe(indication) {
                Ok(Some(sequence_number)) => {
                    let encoded: Result<Vec<u8>, EncodeError> = encode_rtt_response(
                        self.user_channel_id,
                        indication.channel_id,
                        sequence_number,
                    );
                    self.answer_probe(probe_count, encoded, output)
                },
                _ => Ok(StepOutcome::Done(Written::Nothing)),
            }
        } else {
            match decode_share_control(indication) {
                Ok(share_control) => self.handle_share_control(share_control, output),
                Err(error) => self.fail(ConnectorError::decode(error)),
            }
        }
    }

    /// Deals with one PDU.
    ///
    /// What is written goes to the end of the output.
    pub fn step(&mut self, input: &[u8], output: &mut Vec<u8>) -> (result: ConnectorResult<
        StepOutcome,
    >)
        requires
            old(self)@.well_formed(),
            old(self)@.can_count(),
        ensures
            final(self)@ == old(self)@.stepped(input@).after,
            super::report(result) == old(self)@.stepped(input@).result,
            final(output)@ == old(output)@ + old(self)@.stepped(input@).output,
            result matches Err(error) ==> old(self)@.may_say(input@, error.kind),
            final(self)@.well_formed(),
    {
        assert(output@ =~= output@ + Seq::<u8>::empty());
        if self.virtual_channel_id_to_defer(input).is_some() {
            self.defer_virtual_channel_pdu(input);
            return Ok(StepOutcome::Done(Written::Nothing));
        }
        match self.state {
            ConnectionActivationState::CapabilitiesExchange { probe_count } =>
                match decode_send_data_indication(input) {
                Ok(indication) => self.handle_indication(probe_count, &indication, output),
                Err(error) => {
                    proof {
                        super::wire::lemma_indication_fault(input, error);
                    }
                    self.fail(ConnectorError::decode(error))
                },
            },
            ConnectionActivationState::ConnectionFinalization { .. } => Ok(StepOutcome::Finalize),
            _ => self.fail(
                ConnectorError::general(
                    "connector sequence state is finalized or consumed (this is a bug)",
                ),
            ),
        }
    }

    /// Takes in what came of a step of the finalization of the connection.
    pub fn finalization_stepped(&mut self, step: ConnectorResult<FinalizationStep>) -> (result:
        ConnectorResult<Written>)
        requires
            old(self)@.state is ConnectionFinalization,
        ensures
            final(self)@ == old(self)@.after_finalization(step),
            match step {
                Ok(step) => result == Ok::<Written, ConnectorError>(step.written),
                Err(error) => result == Err::<Written, ConnectorError>(error),
            },
    {
        match step {
            Err(error) => {
                self.state = ConnectionActivationState::Consumed;
                assert(self@ =~= old(self)@.consumed());
                Err(error)
            },
            Ok(step) => {
                let written: Written = step.written;
                if step.terminal {
                    match self.state {
                        ConnectionActivationState::ConnectionFinalization {
                            desktop_size,
                            share_id,
                            input_flags,
                            static_channel_chunk_size,
                            refresh_rect_support,
                            suppress_output_support,
                            window_support_level,
                        } => {
                            self.state = ConnectionActivationState::Finalized {
                                desktop_size,
                                share_id,
                                input_flags,
                                static_channel_chunk_size,
                                enable_server_pointer: self.config.enable_server_pointer,
                                pointer_software_rendering: self.config.pointer_software_rendering,
                                refresh_rect_support,
                                suppress_output_support,
                                window_support_level,
                            };
                        },
                        _ => {},
                    }
                    self.monitor_layout = step.monitor_layout;
                    assert(self@ =~= old(self)@.after_finalization(Ok(step)));
                }
                Ok(written)
            },
        }
    }
}

impl Clone for ConnectionActivationSequence {
    fn clone(&self) -> (copy: Self)
        ensures
            copy@ == self@,
    {
        let mut pdus: Vec<Vec<u8>> = Vec::new();
        let mut i: usize = 0;
        while i < self.deferred_virtual_channel_pdus.len()
            invariant
                i <= self.deferred_virtual_channel_pdus@.len(),
                pdus@.len() == i,
                forall|k: int|
                    0 <= k < i ==> #[trigger] pdus@[k]@ == self.deferred_virtual_channel_pdus@[k]@,
            decreases self.deferred_virtual_channel_pdus@.len() - i,
        {
            let pdu: Vec<u8> = vstd::slice::slice_to_vec(
                self.deferred_virtual_channel_pdus[i].as_slice(),
            );
            pdus.push(pdu);
            i += 1;
        }
        let copy: Self = Self {
            state: self.state,
            monitor_layout: self.monitor_layout(),
            config: self.config.clone(),
            io_channel_id: self.io_channel_id,
            user_channel_id: self.user_channel_id,
            message_channel_id: self.message_channel_id,
            deferred_virtual_channel_pdus: pdus,
            deferred_bytes: self.deferred_bytes,
            dropped_virtual_channel_pdus: self.dropped_virtual_channel_pdus,
        };
        assert(copy@.deferred =~= self@.deferred);
        copy
    }
}

/// Makes a fresh activation sequence each time that one is needed.
///
/// The configuration and the channels hold for the whole life of the connection: they
/// are negotiated once and never change, not even across a reactivation.
#[derive(Debug)]
pub struct ConnectionActivationFactory {
    pub config: Config,
    pub io_channel_id: u16,
    pub user_channel_id: u16,
    pub message_channel_id: Option<u16>,
}

impl Clone for ConnectionActivationFactory {
    fn clone(&self) -> (copy: Self)
        ensures
            copy == *self,
    {
        Self {
            config: self.config.clone(),
            io_channel_id: self.io_channel_id,
            user_channel_id: self.user_channel_id,
            message_channel_id: self.message_channel_id,
        }
    }
}

impl ConnectionActivationFactory {
    pub fn new(
        config: Config,
        io_channel_id: u16,
        user_channel_id: u16,
        message_channel_id: Option<u16>,
    ) -> (factory: Self)
        ensures
            factory == (ConnectionActivationFactory {
                config,
                io_channel_id,
                user_channel_id,
                message_channel_id,
            }),
    {
        Self { config, io_channel_id, user_channel_id, message_channel_id }
    }

    pub fn io_channel_id(&self) -> (id: u16)
        ensures
            id == self.io_channel_id,
    {
        self.io_channel_id
    }

    pub fn user_channel_id(&self) -> (id: u16)
        ensures
            id == self.user_channel_id,
    {
        self.user_channel_id
    }

    /// A fresh sequence.
    #[must_use]
    pub fn create(&self) -> (sequence: ConnectionActivationSequence)
        ensures
            sequence@ == Activation::fresh(
                self.config,
                self.io_channel_id,
                self.user_channel_id,
                self.message_channel_id,
            ),
            sequence@.well_formed(),
    {
        ConnectionActivationSequence::new(
            self.config.clone(),
            self.io_channel_id,
            self.user_channel_id,
            self.message_channel_id,
        )
    }
}

} // verus!
