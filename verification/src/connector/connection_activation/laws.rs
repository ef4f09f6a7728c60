//! What holds of an activation over several steps.
use vstd::prelude::*;

use super::super::capabilities::{CapabilitySet, Config, Rail, WindowList};
use super::super::wire::{IndicationState, ShareControlState};
use super::super::{ConnectorError, DesktopSize, ErrorReport, Written};
use super::{
    Activation, ConnectionActivationState, DeclinedDefer, FinalizationStep, Negotiated,
    StepOutcome, DEFERRED_PDU_BUDGET,
};

verus! {

/// What happens to the virtual-channel PDUs of an activation.
pub enum DeferralEvent {
    /// One arrives that is not for the sequence.
    Arrival(Seq<u8>),
    /// The caller takes those that were set aside.
    HandBack,
}

impl Activation {
    /// After one event.
    pub open spec fn after_event(self, event: DeferralEvent) -> Self {
        match event {
            DeferralEvent::Arrival(pdu) => self.with_arrival(pdu),
            DeferralEvent::HandBack => self.handed_back(),
        }
    }

    /// After events, in order.
    pub open spec fn after_events(self, events: Seq<DeferralEvent>) -> Self
        decreases events.len(),
    {
        if events.len() == 0 {
            self
        } else {
            self.after_events(events.drop_last()).after_event(events.last())
        }
    }

    /// What the caller has taken over events, in order.
    pub open spec fn taken_over(self, events: Seq<DeferralEvent>) -> Seq<Seq<u8>>
        decreases events.len(),
    {
        if events.len() == 0 {
            Seq::empty()
        } else {
            let before = events.drop_last();
            match events.last() {
                DeferralEvent::Arrival(_) => self.taken_over(before),
                DeferralEvent::HandBack => self.taken_over(before) + self.after_events(
                    before,
                ).deferred,
            }
        }
    }

    /// Before each arrival among the events, one more dropped PDU can be counted.
    pub open spec fn can_count_events(self, events: Seq<DeferralEvent>) -> bool
        decreases events.len(),
    {
        events.len() > 0 ==> {
            let before = events.drop_last();
            &&& self.can_count_events(before)
            &&& events.last() is Arrival ==> self.after_events(before).dropped < u32::MAX
        }
    }
}

/// The PDUs that arrive over events, in order.
pub open spec fn arrivals(events: Seq<DeferralEvent>) -> Seq<Seq<u8>>
    decreases events.len(),
{
    if events.len() == 0 {
        Seq::empty()
    } else {
        let before = arrivals(events.drop_last());
        match events.last() {
            DeferralEvent::Arrival(pdu) => before.push(pdu),
            DeferralEvent::HandBack => before,
        }
    }
}

/// What is handed back is always a prefix of what arrived, whenever and however often
/// the caller takes it: there is never a gap. What is missing at the end is what was
/// dropped, one for one.
pub proof fn law_replay_is_a_prefix(activation: Activation, events: Seq<DeferralEvent>)
    requires
        activation.deferred.len() == 0,
        activation.dropped == 0,
        activation.can_count_events(events),
    ensures
        (activation.taken_over(events) + activation.after_events(events).deferred).is_prefix_of(
            arrivals(events),
        ),
        activation.taken_over(events).len() + activation.after_events(events).deferred.len()
            + activation.after_events(events).dropped == arrivals(events).len(),
    decreases events.len(),
{
    if events.len() > 0 {
        let before = events.drop_last();
        law_replay_is_a_prefix(activation, before);
        let earlier = activation.after_events(before);
        let kept = activation.taken_over(before) + earlier.deferred;
        match events.last() {
            DeferralEvent::Arrival(pdu) => {
                let later = activation.taken_over(events) + activation.after_events(
                    events,
                ).deferred;
                if earlier.dropped > 0 || earlier.deferred_bytes + pdu.len()
                    > DEFERRED_PDU_BUDGET {
                    assert(later =~= kept);
                } else {
                    assert(kept =~= arrivals(before));
                    assert(later =~= arrivals(events));
                }
            },
            DeferralEvent::HandBack => {
                assert(activation.taken_over(events) + activation.after_events(events).deferred
                    =~= kept);
            },
        }
    }
}

/// While nothing was dropped, everything that arrived is there, in wire order.
pub proof fn law_nothing_is_lost_without_a_drop(activation: Activation, events: Seq<DeferralEvent>)
    requires
        activation.deferred.len() == 0,
        activation.dropped == 0,
        activation.can_count_events(events),
        activation.after_events(events).dropped == 0,
    ensures
        activation.taken_over(events) + activation.after_events(events).deferred == arrivals(
            events,
        ),
{
    law_replay_is_a_prefix(activation, events);
    assert(activation.taken_over(events) + activation.after_events(events).deferred =~= arrivals(
        events,
    ));
}

/// The bytes that are held stay within the budget, whatever arrives.
pub proof fn law_budget_holds(activation: Activation, pdu: Seq<u8>)
    requires
        activation.well_formed(),
    ensures
        activation.with_arrival(pdu).well_formed(),
        activation.handed_back().well_formed(),
{
    let after = activation.with_arrival(pdu);
    if after.deferred.len() > activation.deferred.len() {
        assert(after.deferred.drop_last() =~= activation.deferred);
    }
}

/// Once a PDU was dropped, every later one is, even one that would fit, and taking what
/// was set aside changes nothing of that.
pub proof fn law_first_drop_latches(activation: Activation, pdu: Seq<u8>)
    requires
        0 < activation.dropped < u32::MAX,
    ensures
        activation.with_arrival(pdu).deferred == activation.deferred,
        activation.with_arrival(pdu).dropped == activation.dropped + 1,
        activation.handed_back().dropped == activation.dropped,
        activation.handed_back().with_arrival(pdu).deferred.len() == 0,
{
}

/// In a phase that reads from the wire, a PDU is set aside or there is a reason not to,
/// and never both. In the others there is neither.
pub proof fn law_deferral_and_reason_agree(activation: Activation, channel_id: Option<u16>)
    ensures
        activation.state.reads_wire() ==> (activation.channel_to_defer(channel_id) is Some <==>
            activation.declined(channel_id) is None),
        !activation.state.reads_wire() ==> activation.channel_to_defer(channel_id) is None
            && activation.declined(channel_id) is None,
        activation.channel_to_defer(channel_id) is Some ==> activation.channel_to_defer(channel_id)
            == channel_id,
{
}

/// A virtual-channel PDU neither ends nor advances the sequence: it is set aside as it
/// is, nothing is written, and the phase goes on.
pub proof fn law_virtual_channel_pdu_is_set_aside(
    activation: Activation,
    input: Seq<u8>,
    indication: IndicationState,
)
    requires
        activation.state.reads_wire(),
        super::super::wire::indication_of(input) == Some(indication),
        indication.channel_id != activation.io_channel_id,
        Some(indication.channel_id) != activation.message_channel_id,
    ensures
        activation.stepped(input).after == activation.with_arrival(input),
        activation.stepped(input).after.state == activation.state,
        activation.stepped(input).result == Ok::<StepOutcome, ErrorReport>(
            StepOutcome::Done(Written::Nothing),
        ),
        activation.stepped(input).output.len() == 0,
{
}

/// What cannot be decoded on the I/O channel is an error and never set aside, and so is
/// what is no Send Data Indication at all.
pub proof fn law_garbage_is_an_error(activation: Activation, input: Seq<u8>)
    requires
        activation.state is CapabilitiesExchange,
        match super::super::wire::indication_of(input) {
            None => true,
            Some(indication) => indication.channel_id == activation.io_channel_id
                && activation.message_channel_id != Some(activation.io_channel_id)
                && super::super::wire::share_control_of(indication.user_data) is None,
        },
    ensures
        activation.stepped(input).result == Err::<StepOutcome, ErrorReport>(ErrorReport::decode()),
        activation.stepped(input).after == activation.consumed(),
{
}

/// Whatever comes on the message channel while capability sets are exchanged, the
/// sequence goes on waiting for the server's: a round-trip-time request is answered and
/// counted, and anything else is passed over.
pub proof fn law_probe_does_not_advance(
    activation: Activation,
    input: Seq<u8>,
    indication: IndicationState,
)
    requires
        activation.state is CapabilitiesExchange,
        activation.can_count(),
        super::super::wire::indication_of(input) == Some(indication),
        activation.message_channel_id == Some(indication.channel_id),
    ensures
        match super::super::wire::probe_of(indication.user_data) {
            Some(Some(sequence_number)) => match super::super::wire::rtt_response_of(
                activation.user_channel_id,
                indication.channel_id,
                sequence_number,
            ) {
                Some(message) => activation.stepped(input).after == activation.in_state(
                    ConnectionActivationState::CapabilitiesExchange {
                        probe_count: (activation.state->probe_count + 1) as u32,
                    },
                ) && activation.stepped(input).output == message,
                None => activation.stepped(input).result is Err,
            },
            _ => activation.stepped(input).after == activation
                && activation.stepped(input).output.len() == 0,
        },
{
}

/// A Deactivate All PDU and an error that is taken back leave everything as it was.
pub proof fn law_skipped_control_changes_nothing(activation: Activation)
    ensures
        activation.controlled(ShareControlState::DeactivateAll) == activation.stays(),
        activation.controlled(ShareControlState::ErrorInfoCleared) == activation.stays(),
{
}

/// The configuration and the channels never change, and no step takes back a drop.
pub proof fn law_step_keeps_channels(activation: Activation, input: Seq<u8>)
    requires
        activation.can_count(),
    ensures
        activation.stepped(input).after.config == activation.config,
        activation.stepped(input).after.io_channel_id == activation.io_channel_id,
        activation.stepped(input).after.user_channel_id == activation.user_channel_id,
        activation.stepped(input).after.message_channel_id == activation.message_channel_id,
        activation.stepped(input).after.monitor_layout == activation.monitor_layout,
        activation.stepped(input).after.dropped >= activation.dropped,
{
}

/// A step that fails on anything but a probe leaves nothing to go on with.
pub proof fn law_failed_step_consumes(activation: Activation, input: Seq<u8>)
    requires
        activation.stepped(input).result is Err,
        match super::super::wire::indication_of(input) {
            None => true,
            Some(indication) => activation.message_channel_id != Some(indication.channel_id),
        },
    ensures
        activation.stepped(input).after == activation.consumed(),
{
}

/// A sequence that is finalized or consumed takes no step, and is consumed by the try.
pub proof fn law_no_step_after_the_end(activation: Activation, input: Seq<u8>)
    requires
        !activation.state.reads_wire(),
    ensures
        activation.stepped(input).result is Err,
        activation.stepped(input).after == activation.consumed(),
        activation.stepped(input).output.len() == 0,
{
}

/// What the server's capability sets settled is what the finalized state reports,
/// together with the configured pointer handling, however many steps the finalization
/// takes.
pub proof fn law_finalized_state_reports_what_was_settled(
    activation: Activation,
    settled: Negotiated,
    quiet: FinalizationStep,
    last: FinalizationStep,
)
    requires
        activation.state == settled.finalizing(),
        !quiet.terminal,
        last.terminal,
    ensures
        activation.after_finalization(Ok(quiet)) == activation,
        activation.after_finalization(Ok(last)).monitor_layout == last.monitor_layout,
        activation.after_finalization(Ok(last)).state == (ConnectionActivationState::Finalized {
            desktop_size: settled.desktop_size,
            share_id: settled.share_id,
            input_flags: settled.input_flags,
            static_channel_chunk_size: settled.static_channel_chunk_size,
            enable_server_pointer: activation.config.enable_server_pointer,
            pointer_software_rendering: activation.config.pointer_software_rendering,
            refresh_rect_support: settled.refresh_rect_support,
            suppress_output_support: settled.suppress_output_support,
            window_support_level: settled.window_support_level,
        }),
        activation.after_finalization(Ok(last)).deferred == activation.deferred,
{
}

/// Every set that is kept of the server's is a fragmented-update set.
proof fn lemma_retained_are_fragmented_updates(sets: Seq<CapabilitySet>)
    ensures
        forall|i: int|
            0 <= i < super::super::capabilities::retained(sets).len()
                ==> #[trigger] super::super::capabilities::retained(sets)[i] is MultiFragmentUpdate,
    decreases sets.len(),
{
    if sets.len() > 0 {
        lemma_retained_are_fragmented_updates(sets.drop_last());
    }
}

/// The client always confirms a fragmented-update set: the server's own where it sent
/// any, in front of everything else, and its own otherwise.
pub proof fn law_fragmented_updates_are_confirmed(
    config: Config,
    sets: Seq<CapabilitySet>,
    depth: u16,
    desktop_size: DesktopSize,
    rail: Option<Rail>,
    window_list: Option<WindowList>,
)
    ensures
        exists|i: int|
            0 <= i < super::super::capabilities::confirmed_sets(
                config,
                sets,
                depth,
                desktop_size,
                rail,
                window_list,
            ).len() && #[trigger] super::super::capabilities::confirmed_sets(
                config,
                sets,
                depth,
                desktop_size,
                rail,
                window_list,
            )[i] is MultiFragmentUpdate,
        super::super::capabilities::retained(sets).is_prefix_of(
            super::super::capabilities::confirmed_sets(
                config,
                sets,
                depth,
                desktop_size,
                rail,
                window_list,
            ),
        ),
{
    let kept = super::super::capabilities::retained(sets);
    let all = super::super::capabilities::confirmed_sets(
        config,
        sets,
        depth,
        desktop_size,
        rail,
        window_list,
    );
    lemma_retained_are_fragmented_updates(sets);
    if kept.len() > 0 {
        assert(all[0] == kept[0]);
        assert(all[0] is MultiFragmentUpdate);
    } else {
        let own = super::super::capabilities::client_sets(config, depth, desktop_size);
        assert(own.len() == 15);
        assert(all[15] is MultiFragmentUpdate);
    }
}

/// Remote programs are confirmed in remote application mode only, and there only if both
/// sides support them and the server lists its windows.
pub proof fn law_rail_needs_both_sides(
    config: Config,
    sets: Seq<CapabilitySet>,
    window_list: Option<WindowList>,
)
    ensures
        super::super::capabilities::rail_of(
            config.remote_application_mode,
            config.rail_support_level,
            sets,
            window_list,
        ) matches Ok(Some(rail)) ==> config.remote_application_mode
            && super::super::capabilities::supports_rail(rail.support_level)
            && super::super::capabilities::offers_rail(sets)
            && super::super::capabilities::supported_level(window_list) is Some,
        !config.remote_application_mode ==> super::super::capabilities::rail_of(
            config.remote_application_mode,
            config.rail_support_level,
            sets,
            window_list,
        ) == Ok::<Option<Rail>, ErrorReport>(None),
{
}

/// The settled desktop size is exactly that of the first Bitmap set, whatever is
/// configured; it is the configured one only where no set is a Bitmap set.
pub proof fn law_desktop_size_is_the_servers(
    config: Config,
    share_id: u32,
    sets: Seq<CapabilitySet>,
    i: int,
)
    requires
        0 <= i <= sets.len(),
        forall|e: int| 0 <= e < i ==> !(#[trigger] sets[e] is Bitmap),
        i < sets.len() ==> sets[i] is Bitmap,
    ensures
        ({
            let settled = super::negotiated(config, share_id, sets);
            &&& i < sets.len() ==> settled.desktop_size.width == sets[i]->desktop_width
                && settled.desktop_size.height == sets[i]->desktop_height
            &&& i == sets.len() ==> settled.desktop_size.width == config.desktop_size.width
                && settled.desktop_size.height == config.desktop_size.height
            &&& settled.share_id == share_id
        }),
{
    super::super::capabilities::laws::law_first_bitmap_set(sets, i);
}

/// The settled input flags are those of the first Input set, and none where no set is
/// one.
pub proof fn law_input_flags_are_the_servers(
    config: Config,
    share_id: u32,
    sets: Seq<CapabilitySet>,
    i: int,
)
    requires
        0 <= i <= sets.len(),
        forall|e: int| 0 <= e < i ==> !(#[trigger] sets[e] is Input),
        i < sets.len() ==> sets[i] is Input,
    ensures
        i < sets.len() ==> super::negotiated(config, share_id, sets).input_flags
            == sets[i]->input_flags,
        i == sets.len() ==> super::negotiated(config, share_id, sets).input_flags == 0,
{
    super::super::capabilities::laws::law_first_input_set(sets, i);
}

/// Refresh Rect and Suppress Output PDUs are each permitted if and only if the first
/// General set says so of them, and not where no set is one.
pub proof fn law_recovery_support_is_the_servers(
    config: Config,
    share_id: u32,
    sets: Seq<CapabilitySet>,
    i: int,
)
    requires
        0 <= i <= sets.len(),
        forall|e: int| 0 <= e < i ==> !(#[trigger] sets[e] is General),
        i < sets.len() ==> sets[i] is General,
    ensures
        ({
            let settled = super::negotiated(config, share_id, sets);
            &&& i < sets.len() ==> settled.refresh_rect_support == sets[i]->refresh_rect_support
                && settled.suppress_output_support == sets[i]->suppress_output_support
            &&& i == sets.len() ==> !settled.refresh_rect_support
                && !settled.suppress_output_support
        }),
{
    super::super::capabilities::laws::law_first_general_set(sets, i);
}

/// The settled chunk size is the first that the sets give, if it is 1600 to 16256 bytes,
/// and 1600 bytes otherwise.
pub proof fn law_chunk_size_is_the_servers(
    config: Config,
    share_id: u32,
    sets: Seq<CapabilitySet>,
    i: int,
)
    requires
        0 <= i <= sets.len(),
        forall|e: int|
            0 <= e < i ==> !((#[trigger] sets[e]) is VirtualChannel && sets[e]->chunk_size is Some),
        i < sets.len() ==> sets[i] is VirtualChannel && sets[i]->chunk_size is Some,
    ensures
        ({
            let settled = super::negotiated(config, share_id, sets).static_channel_chunk_size;
            &&& i == sets.len() ==> settled == 1600
            &&& i < sets.len() && 1600 <= sets[i]->chunk_size->0 <= 16256 ==> settled
                == sets[i]->chunk_size->0
            &&& i < sets.len() && !(1600 <= sets[i]->chunk_size->0 <= 16256) ==> settled == 1600
        }),
{
    super::super::capabilities::laws::law_chunk_size_is_the_servers_if_valid(sets, i);
}

/// The settled support of window lists is the level of the first Window List set, and
/// none where it says that there is none or no set is one.
pub proof fn law_window_support_is_the_servers(
    config: Config,
    share_id: u32,
    sets: Seq<CapabilitySet>,
    i: int,
)
    requires
        0 <= i <= sets.len(),
        forall|e: int| 0 <= e < i ==> !(#[trigger] sets[e] is WindowList),
        i < sets.len() ==> sets[i] is WindowList,
    ensures
        ({
            let settled = super::negotiated(config, share_id, sets).window_support_level;
            &&& i == sets.len() ==> settled is None
            &&& i < sets.len() && sets[i]->WindowList_0.support_level is NotSupported
                ==> settled is None
            &&& i < sets.len() && !(sets[i]->WindowList_0.support_level is NotSupported) ==> settled
                == Some(sets[i]->WindowList_0.support_level)
        }),
{
    super::super::capabilities::laws::law_first_window_list(sets, i);
}

/// A demand that is answered is answered on the client's user channel and the I/O
/// channel, for the share demanded, from channel 1002 under the client's name, with the
/// sets that confirm the settled desktop size and, as it is, the server's first list of
/// windows. The finalization then holds each thing that was settled, and nothing else
/// of the sequence changes.
pub proof fn law_demand_is_answered(
    activation: Activation,
    share_id: u32,
    sets: Seq<CapabilitySet>,
    depth: u16,
    rail: Option<Rail>,
    window_list: Option<WindowList>,
)
    requires
        window_list == super::super::capabilities::first_window_list(sets),
        super::super::capabilities::depth_of(activation.config.bitmap) == Ok::<u16, ErrorReport>(
            depth,
        ),
        super::super::capabilities::rail_of(
            activation.config.remote_application_mode,
            activation.config.rail_support_level,
            sets,
            window_list,
        ) == Ok::<Option<Rail>, ErrorReport>(rail),
    ensures
        ({
            let done = activation.demanded(share_id, sets);
            let settled = super::negotiated(activation.config, share_id, sets);
            let message = super::super::wire::announce::confirm_active_of(
                activation.user_channel_id,
                activation.io_channel_id,
                share_id,
                1002,
                "IRONRDP"@,
                super::super::capabilities::confirmed_sets(
                    activation.config,
                    sets,
                    depth,
                    settled.desktop_size,
                    rail,
                    window_list,
                ),
            );
            &&& message is None ==> done.result is Err && done.output.len() == 0
                && done.after.state is Consumed
            &&& message is Some ==> done.output == message->0
            &&& message is Some && 0 < message->0.len() <= usize::MAX ==> {
                &&& done.result matches Ok(StepOutcome::Done(Written::Size(size))) && size
                    == message->0.len()
                &&& done.after.state is ConnectionFinalization
                &&& done.after.state->ConnectionFinalization_desktop_size == settled.desktop_size
                &&& done.after.state->ConnectionFinalization_share_id == share_id
                &&& done.after.state->ConnectionFinalization_input_flags == settled.input_flags
                &&& done.after.state->ConnectionFinalization_static_channel_chunk_size
                    == settled.static_channel_chunk_size
                &&& done.after.state->ConnectionFinalization_refresh_rect_support
                    == settled.refresh_rect_support
                &&& done.after.state->ConnectionFinalization_suppress_output_support
                    == settled.suppress_output_support
                &&& done.after.state->ConnectionFinalization_window_support_level
                    == settled.window_support_level
            }
            &&& done.after.config == activation.config
            &&& done.after.io_channel_id == activation.io_channel_id
            &&& done.after.user_channel_id == activation.user_channel_id
            &&& done.after.message_channel_id == activation.message_channel_id
            &&& done.after.monitor_layout == activation.monitor_layout
            &&& done.after.deferred == activation.deferred
            &&& done.after.deferred_bytes == activation.deferred_bytes
            &&& done.after.dropped == activation.dropped
        }),
{
}

/// A demand that remote programs or the colour depth rule out is not answered: nothing is
/// written, nothing follows, and the error says which, remote programs first.
pub proof fn law_impossible_demand_fails(
    activation: Activation,
    share_id: u32,
    sets: Seq<CapabilitySet>,
    error: ErrorReport,
)
    ensures
        ({
            let done = activation.demanded(share_id, sets);
            let rail = super::super::capabilities::rail_of(
                activation.config.remote_application_mode,
                activation.config.rail_support_level,
                sets,
                super::super::capabilities::first_window_list(sets),
            );
            let depth = super::super::capabilities::depth_of(activation.config.bitmap);
            rail == Err::<Option<Rail>, ErrorReport>(error) || rail is Ok && depth == Err::<
                u16,
                ErrorReport,
            >(error) ==> {
                &&& done.result == Err::<StepOutcome, ErrorReport>(error)
                &&& done.output.len() == 0
                &&& done.after.state is Consumed
            }
        }),
{
}

/// What a Share Control PDU on the I/O channel does while capability sets are exchanged:
/// a demand is answered as it stands; an error or anything unexpected ends the sequence
/// with the server's own words; and the rest is passed over without a change.
pub proof fn law_share_control_on_the_io_channel(
    activation: Activation,
    input: Seq<u8>,
    indication: IndicationState,
    control: ShareControlState,
)
    requires
        activation.state is CapabilitiesExchange,
        super::super::wire::indication_of(input) == Some(indication),
        indication.channel_id == activation.io_channel_id,
        activation.message_channel_id != Some(activation.io_channel_id),
        super::super::wire::share_control_of(indication.user_data) == Some(control),
    ensures
        ({
            let done = activation.stepped(input);
            match control {
                ShareControlState::DemandActive { share_id, capability_sets } => done
                    == activation.demanded(share_id, capability_sets),
                ShareControlState::DeactivateAll | ShareControlState::ErrorInfoCleared => {
                    &&& done.after == activation
                    &&& done.result == Ok::<StepOutcome, ErrorReport>(
                        StepOutcome::Done(Written::Nothing),
                    )
                    &&& done.output.len() == 0
                },
                ShareControlState::ErrorInfo { description } => {
                    &&& done.after.state is Consumed
                    &&& done.output.len() == 0
                    &&& done.result == Err::<StepOutcome, ErrorReport>(
                        ErrorReport::reason(
                            "ConnectionActivation::CapabilitiesExchange"@,
                            "server ended the session with error info: "@ + description,
                        ),
                    )
                },
                ShareControlState::Unexpected { description } => {
                    &&& done.after.state is Consumed
                    &&& done.output.len() == 0
                    &&& done.result == Err::<StepOutcome, ErrorReport>(
                        ErrorReport::reason(
                            "ConnectionActivation::CapabilitiesExchange"@,
                            "unexpected Share Control PDU during capabilities exchange: got "@
                                + description + " (expected Server Demand Active PDU)"@,
                        ),
                    )
                },
            }
        }),
{
}

/// A round-trip-time request is answered on the client's user channel and the channel it
/// came on, with its own sequence number; one more is counted, and nothing else changes.
pub proof fn law_probe_is_answered_where_it_came(
    activation: Activation,
    input: Seq<u8>,
    indication: IndicationState,
    sequence_number: u16,
    message: Seq<u8>,
    probe_count: u32,
)
    requires
        activation.state == (ConnectionActivationState::CapabilitiesExchange { probe_count }),
        probe_count < u32::MAX,
        super::super::wire::indication_of(input) == Some(indication),
        activation.message_channel_id == Some(indication.channel_id),
        super::super::wire::probe_of(indication.user_data) == Some(Some(sequence_number)),
        super::super::wire::rtt_response_of(
            activation.user_channel_id,
            indication.channel_id,
            sequence_number,
        ) == Some(message),
        0 < message.len() <= usize::MAX,
    ensures
        ({
            let done = activation.stepped(input);
            &&& done.output == message
            &&& done.result matches Ok(StepOutcome::Done(Written::Size(size))) && size
                == message.len()
            &&& done.after.state is CapabilitiesExchange
            &&& done.after.state->probe_count == probe_count + 1
            &&& done.after.deferred == activation.deferred
            &&& done.after.deferred_bytes == activation.deferred_bytes
            &&& done.after.dropped == activation.dropped
        }),
{
}

/// A virtual-channel PDU is set aside behind the others, byte for byte, if none was
/// dropped before and the bytes held stay within 16 MiB; it is dropped and counted
/// otherwise, and nothing else changes. What is handed back is gone; the count stays.
pub proof fn law_arrival_is_kept_or_counted(activation: Activation, pdu: Seq<u8>)
    requires
        activation.dropped < u32::MAX,
    ensures
        ({
            let after = activation.with_arrival(pdu);
            let fits = activation.dropped == 0 && activation.deferred_bytes + pdu.len()
                <= 16_777_216;
            &&& fits ==> after.deferred == activation.deferred.push(pdu) && after.deferred_bytes
                == activation.deferred_bytes + pdu.len() && after.dropped == 0
            &&& !fits ==> after.deferred == activation.deferred && after.deferred_bytes
                == activation.deferred_bytes && after.dropped == activation.dropped + 1
            &&& after.state == activation.state
            &&& after.config == activation.config
            &&& after.io_channel_id == activation.io_channel_id
            &&& after.user_channel_id == activation.user_channel_id
            &&& after.message_channel_id == activation.message_channel_id
            &&& after.monitor_layout == activation.monitor_layout
        }),
        ({
            let after = activation.handed_back();
            &&& after.deferred.len() == 0
            &&& after.deferred_bytes == 0
            &&& after.dropped == activation.dropped
            &&& after.state == activation.state
            &&& after.monitor_layout == activation.monitor_layout
        }),
{
}

/// The bytes of a list of PDUs add up: none in no PDU, and each PDU adds its own.
pub proof fn law_deferred_bytes_add_up(pdus: Seq<Seq<u8>>, pdu: Seq<u8>)
    ensures
        super::total_len(Seq::empty()) == 0,
        super::total_len(pdus.push(pdu)) == super::total_len(pdus) + pdu.len(),
{
    assert(pdus.push(pdu).drop_last() =~= pdus);
}

/// Which channel a PDU is set aside for, and why one is not. While the sequence reads from
/// the wire, the message channel is answered in place, before it is held against the I/O
/// channel, and every other channel is set aside.
pub proof fn law_channel_decides(activation: Activation, id: u16)
    ensures
        ({
            let reading = activation.state is CapabilitiesExchange
                || activation.state is ConnectionFinalization;
            let own = Some(id) == activation.message_channel_id || id == activation.io_channel_id;
            &&& reading && !own ==> activation.channel_to_defer(Some(id)) == Some(id)
            &&& !reading || own ==> activation.channel_to_defer(Some(id)) is None
            &&& activation.channel_to_defer(None) is None
            &&& activation.reason_to_decline(None) == Some(DeclinedDefer::NotSendDataIndication)
            &&& Some(id) == activation.message_channel_id ==> activation.reason_to_decline(Some(id))
                == Some(DeclinedDefer::MessageChannel)
            &&& Some(id) != activation.message_channel_id && id == activation.io_channel_id
                ==> activation.reason_to_decline(Some(id)) == Some(DeclinedDefer::IoChannel)
            &&& !own ==> activation.reason_to_decline(Some(id)) is None
        }),
{
}

/// While the connection is finalized, what is not set aside is for the finalization: the
/// step changes and writes nothing, and says so.
pub proof fn law_finalization_gets_the_rest(
    activation: Activation,
    input: Seq<u8>,
    indication: IndicationState,
)
    requires
        activation.state is ConnectionFinalization,
        super::super::wire::indication_of(input) is None || super::super::wire::indication_of(input)
            == Some(indication) && (indication.channel_id == activation.io_channel_id || Some(
            indication.channel_id,
        ) == activation.message_channel_id),
    ensures
        activation.stepped(input).after == activation,
        activation.stepped(input).result == Ok::<StepOutcome, ErrorReport>(StepOutcome::Finalize),
        activation.stepped(input).output.len() == 0,
{
}

/// A finalization that fails ends the sequence; one that goes on changes nothing.
pub proof fn law_failed_finalization_ends(
    activation: Activation,
    error: ConnectorError,
    quiet: FinalizationStep,
)
    requires
        !quiet.terminal,
    ensures
        activation.after_finalization(Err(error)).state is Consumed,
        activation.after_finalization(Err(error)).deferred == activation.deferred,
        activation.after_finalization(Ok(quiet)) == activation,
{
}

/// A fresh sequence exchanges capability sets on the given channels with the given
/// configuration, has answered no probe, and holds nothing.
pub proof fn law_fresh_sequence_holds_nothing(
    config: Config,
    io_channel_id: u16,
    user_channel_id: u16,
    message_channel_id: Option<u16>,
)
    ensures
        ({
            let fresh = Activation::fresh(
                config,
                io_channel_id,
                user_channel_id,
                message_channel_id,
            );
            &&& fresh.state is CapabilitiesExchange
            &&& fresh.state->probe_count == 0
            &&& fresh.monitor_layout is None
            &&& fresh.config == config
            &&& fresh.io_channel_id == io_channel_id
            &&& fresh.user_channel_id == user_channel_id
            &&& fresh.message_channel_id == message_channel_id
            &&& fresh.deferred.len() == 0
            &&& fresh.deferred_bytes == 0
            &&& fresh.dropped == 0
        }),
{
}

/// A state's name is its own.
pub proof fn law_states_are_named(state: ConnectionActivationState)
    ensures
        state is Consumed ==> state.name_text() == "Consumed"@,
        state is CapabilitiesExchange ==> state.name_text() == "CapabilitiesExchange"@,
        state is ConnectionFinalization ==> state.name_text() == "ConnectionFinalization"@,
        state is Finalized ==> state.name_text() == "Finalized"@,
{
}

/// A sequence that is finalized or consumed answers a step with an error that calls it a
/// bug.
pub proof fn law_step_after_the_end_is_a_bug(activation: Activation, input: Seq<u8>)
    requires
        activation.state is Consumed || activation.state is Finalized,
    ensures
        activation.stepped(input).result == Err::<StepOutcome, ErrorReport>(
            ErrorReport::general(
                "connector sequence state is finalized or consumed (this is a bug)"@,
            ),
        ),
{
}

} // verus!
