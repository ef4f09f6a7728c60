//! The capability sets that the client announces, put into the PDU that carries them.
//!
//! `ironrdp_pdu`'s list of capability sets is filled here, one set at a time. Each
//! function below adds a set of one kind, with the fields that it is given and flags
//! as their bits.
use vstd::prelude::*;

use ironrdp_core::{EncodeError, WriteBuf};
use ironrdp_pdu::rdp::capability_sets as sets;
use ironrdp_pdu::rdp::headers::ShareControlPdu;

use super::super::capabilities::{
    BrushSupportLevel, ClientCapability, ConfirmActive, ConfirmState, GlyphSupportLevel, Rail,
    WindowList, WindowSupportLevel,
};

verus! {

/// The sets that were put into a list here, in order.
pub uninterp spec fn announced_sets(list: sets::DemandActive) -> Seq<ClientCapability>;

/// A list holds nothing but sets that were put into it here.
pub uninterp spec fn announces_only(list: sets::DemandActive) -> bool;

/// Builds a `DemandActive` with no set in it.
#[verifier::external_body]
fn new_list() -> (list: sets::DemandActive)
    ensures
        announces_only(list),
        announced_sets(list) == Seq::<ClientCapability>::empty(),
{
    sets::DemandActive { source_descriptor: String::new(), capability_sets: Vec::new() }
}

/// Adds a `CapabilitySet::General` at the end of the list.
#[verifier::external_body]
fn push_general(
    list: &mut sets::DemandActive,
    platform: sets::MajorPlatformType,
    extra_flags: u16,
)
    requires
        announces_only(*old(list)),
    ensures
        announces_only(*final(list)),
        announced_sets(*final(list)) == announced_sets(*old(list)).push(
            (ClientCapability::General { platform, extra_flags }),
        ),
{
    list.capability_sets.push(sets::CapabilitySet::General(sets::General {
        major_platform_type: platform,
        extra_flags: sets::GeneralExtraFlags::from_bits_retain(extra_flags),
        ..Default::default()
    }));
}

/// Adds a `CapabilitySet::Bitmap` at the end of the list.
#[verifier::external_body]
fn push_bitmap(
    list: &mut sets::DemandActive,
    pref_bits_per_pix: u16,
    desktop_width: u16,
    desktop_height: u16,
    desktop_resize_flag: bool,
    drawing_flags: u8,
)
    requires
        announces_only(*old(list)),
    ensures
        announces_only(*final(list)),
        announced_sets(*final(list)) == announced_sets(*old(list)).push(
            (ClientCapability::Bitmap {
            pref_bits_per_pix,
            desktop_width,
            desktop_height,
            desktop_resize_flag,
            drawing_flags,
        }),
        ),
{
    list.capability_sets.push(sets::CapabilitySet::Bitmap(sets::Bitmap {
        pref_bits_per_pix,
        desktop_width,
        desktop_height,
        desktop_resize_flag,
        drawing_flags: sets::BitmapDrawingFlags::from_bits_retain(drawing_flags),
    }));
}

/// Adds a `CapabilitySet::Order` at the end of the list.
#[verifier::external_body]
fn push_order(
    list: &mut sets::DemandActive,
    order_flags: u16,
    order_support_ex_flags: u16,
    desktop_save_size: u32,
    text_ansi_code_page: u16,
)
    requires
        announces_only(*old(list)),
    ensures
        announces_only(*final(list)),
        announced_sets(*final(list)) == announced_sets(*old(list)).push(
            (ClientCapability::Order {
            order_flags,
            order_support_ex_flags,
            desktop_save_size,
            text_ansi_code_page,
        }),
        ),
{
    list.capability_sets.push(sets::CapabilitySet::Order(sets::Order::new(
        sets::OrderFlags::from_bits_retain(order_flags),
        sets::OrderSupportExFlags::from_bits_retain(order_support_ex_flags),
        desktop_save_size,
        text_ansi_code_page,
    )));
}

/// Adds a `CapabilitySet::BitmapCache` at the end of the list.
#[verifier::external_body]
fn push_bitmap_cache(
    list: &mut sets::DemandActive,
    entries: u16,
    max_cell_size: u16,
)
    requires
        announces_only(*old(list)),
    ensures
        announces_only(*final(list)),
        announced_sets(*final(list)) == announced_sets(*old(list)).push(
            (ClientCapability::BitmapCache { entries, max_cell_size }),
        ),
{
    list.capability_sets.push(sets::CapabilitySet::BitmapCache(sets::BitmapCache {
        caches: [sets::CacheEntry { entries, max_cell_size }; sets::BITMAP_CACHE_ENTRIES_NUM],
    }));
}

/// Adds a `CapabilitySet::Input` at the end of the list.
#[verifier::external_body]
fn push_input(
    list: &mut sets::DemandActive,
    input_flags: u16,
    keyboard_layout: u32,
    keyboard_type: u32,
    keyboard_subtype: u32,
    keyboard_function_key: u32,
    keyboard_ime_filename: String,
)
    requires
        announces_only(*old(list)),
    ensures
        announces_only(*final(list)),
        announced_sets(*final(list)) == announced_sets(*old(list)).push(
            (ClientCapability::Input {
            input_flags,
            keyboard_layout,
            keyboard_type,
            keyboard_subtype,
            keyboard_function_key,
            keyboard_ime_filename,
        }),
        ),
{
    list.capability_sets.push(sets::CapabilitySet::Input(sets::Input {
        input_flags: sets::InputFlags::from_bits_retain(input_flags),
        keyboard_layout,
        keyboard_type: Some(ironrdp_pdu::gcc::KeyboardType(keyboard_type)),
        keyboard_subtype,
        keyboard_function_key,
        keyboard_ime_filename,
    }));
}

/// Adds a `CapabilitySet::Pointer` at the end of the list.
#[verifier::external_body]
fn push_pointer(
    list: &mut sets::DemandActive,
    color_pointer_cache_size: u16,
    pointer_cache_size: u16,
)
    requires
        announces_only(*old(list)),
    ensures
        announces_only(*final(list)),
        announced_sets(*final(list)) == announced_sets(*old(list)).push(
            (ClientCapability::Pointer {
            color_pointer_cache_size,
            pointer_cache_size,
        }),
        ),
{
    list.capability_sets.push(sets::CapabilitySet::Pointer(sets::Pointer {
        color_pointer_cache_size,
        pointer_cache_size,
    }));
}

/// Adds a `CapabilitySet::Brush` at the end of the list.
#[verifier::external_body]
fn push_brush(
    list: &mut sets::DemandActive,
    support_level: BrushSupportLevel,
)
    requires
        announces_only(*old(list)),
    ensures
        announces_only(*final(list)),
        announced_sets(*final(list)) == announced_sets(*old(list)).push(
            (ClientCapability::Brush { support_level }),
        ),
{
    list.capability_sets.push(sets::CapabilitySet::Brush(sets::Brush {
        support_level: match support_level {
            BrushSupportLevel::Default => sets::SupportLevel::Default,
            BrushSupportLevel::Color8x8 => sets::SupportLevel::Color8x8,
            BrushSupportLevel::ColorFull => sets::SupportLevel::ColorFull,
        },
    }));
}

/// Adds a `CapabilitySet::GlyphCache` at the end of the list.
#[verifier::external_body]
fn push_glyph_cache(
    list: &mut sets::DemandActive,
    entries: u16,
    max_cell_size: u16,
    support_level: GlyphSupportLevel,
)
    requires
        announces_only(*old(list)),
    ensures
        announces_only(*final(list)),
        announced_sets(*final(list)) == announced_sets(*old(list)).push(
            (ClientCapability::GlyphCache { entries, max_cell_size, support_level }),
        ),
{
    let definition = sets::CacheDefinition { entries, max_cell_size };
    list.capability_sets.push(sets::CapabilitySet::GlyphCache(sets::GlyphCache {
        glyph_cache: [definition; sets::GLYPH_CACHE_NUM],
        frag_cache: definition,
        glyph_support_level: match support_level {
            GlyphSupportLevel::NotSupported => sets::GlyphSupportLevel::None,
            GlyphSupportLevel::Partial => sets::GlyphSupportLevel::Partial,
            GlyphSupportLevel::Full => sets::GlyphSupportLevel::Full,
            GlyphSupportLevel::Encode => sets::GlyphSupportLevel::Encode,
        },
    }));
}

/// Adds a `CapabilitySet::OffscreenBitmapCache` at the end of the list.
#[verifier::external_body]
fn push_offscreen_bitmap_cache(
    list: &mut sets::DemandActive,
    is_supported: bool,
    cache_size: u16,
    cache_entries: u16,
)
    requires
        announces_only(*old(list)),
    ensures
        announces_only(*final(list)),
        announced_sets(*final(list)) == announced_sets(*old(list)).push(
            (ClientCapability::OffscreenBitmapCache {
            is_supported,
            cache_size,
            cache_entries,
        }),
        ),
{
    list.capability_sets.push(sets::CapabilitySet::OffscreenBitmapCache(sets::OffscreenBitmapCache {
        is_supported,
        cache_size,
        cache_entries,
    }));
}

/// Adds a `CapabilitySet::VirtualChannel` at the end of the list.
#[verifier::external_body]
fn push_virtual_channel(
    list: &mut sets::DemandActive,
    flags: u32,
    chunk_size: u32,
)
    requires
        announces_only(*old(list)),
    ensures
        announces_only(*final(list)),
        announced_sets(*final(list)) == announced_sets(*old(list)).push(
            (ClientCapability::VirtualChannel { flags, chunk_size }),
        ),
{
    list.capability_sets.push(sets::CapabilitySet::VirtualChannel(sets::VirtualChannel {
        flags: sets::VirtualChannelFlags::from_bits_retain(flags),
        chunk_size: Some(chunk_size),
    }));
}

/// Adds a `CapabilitySet::Sound` at the end of the list.
#[verifier::external_body]
fn push_sound(
    list: &mut sets::DemandActive,
    flags: u16,
)
    requires
        announces_only(*old(list)),
    ensures
        announces_only(*final(list)),
        announced_sets(*final(list)) == announced_sets(*old(list)).push(
            (ClientCapability::Sound { flags }),
        ),
{
    list.capability_sets.push(sets::CapabilitySet::Sound(sets::Sound {
        flags: sets::SoundFlags::from_bits_retain(flags),
    }));
}

/// Adds a `CapabilitySet::LargePointer` at the end of the list.
#[verifier::external_body]
fn push_large_pointer(
    list: &mut sets::DemandActive,
    flags: u16,
)
    requires
        announces_only(*old(list)),
    ensures
        announces_only(*final(list)),
        announced_sets(*final(list)) == announced_sets(*old(list)).push(
            (ClientCapability::LargePointer { flags }),
        ),
{
    list.capability_sets.push(sets::CapabilitySet::LargePointer(sets::LargePointer {
        flags: sets::LargePointerSupportFlags::from_bits_retain(flags),
    }));
}

/// Adds a `CapabilitySet::SurfaceCommands` at the end of the list.
#[verifier::external_body]
fn push_surface_commands(
    list: &mut sets::DemandActive,
    flags: u32,
)
    requires
        announces_only(*old(list)),
    ensures
        announces_only(*final(list)),
        announced_sets(*final(list)) == announced_sets(*old(list)).push(
            (ClientCapability::SurfaceCommands { flags }),
        ),
{
    list.capability_sets.push(sets::CapabilitySet::SurfaceCommands(sets::SurfaceCommands {
        flags: sets::CmdFlags::from_bits_retain(flags),
    }));
}

/// Adds a `CapabilitySet::BitmapCodecs` at the end of the list.
#[verifier::external_body]
fn push_bitmap_codecs(
    list: &mut sets::DemandActive,
    codecs: sets::BitmapCodecs,
)
    requires
        announces_only(*old(list)),
    ensures
        announces_only(*final(list)),
        announced_sets(*final(list)) == announced_sets(*old(list)).push(
            (ClientCapability::BitmapCodecs(codecs)),
        ),
{
    list.capability_sets.push(sets::CapabilitySet::BitmapCodecs(codecs));
}

/// Adds a `CapabilitySet::FrameAcknowledge` at the end of the list.
#[verifier::external_body]
fn push_frame_acknowledge(
    list: &mut sets::DemandActive,
    max_unacknowledged_frame_count: u32,
)
    requires
        announces_only(*old(list)),
    ensures
        announces_only(*final(list)),
        announced_sets(*final(list)) == announced_sets(*old(list)).push(
            (ClientCapability::FrameAcknowledge { max_unacknowledged_frame_count }),
        ),
{
    list.capability_sets.push(sets::CapabilitySet::FrameAcknowledge(sets::FrameAcknowledge {
        max_unacknowledged_frame_count,
    }));
}

/// Adds a `CapabilitySet::MultiFragmentUpdate` at the end of the list.
#[verifier::external_body]
fn push_multi_fragment_update(
    list: &mut sets::DemandActive,
    max_request_size: u32,
)
    requires
        announces_only(*old(list)),
    ensures
        announces_only(*final(list)),
        announced_sets(*final(list)) == announced_sets(*old(list)).push(
            (ClientCapability::MultiFragmentUpdate { max_request_size }),
        ),
{
    list.capability_sets.push(sets::CapabilitySet::MultiFragmentUpdate(sets::MultifragmentUpdate {
        max_request_size,
    }));
}

/// Adds a `CapabilitySet::Rail` at the end of the list.
#[verifier::external_body]
fn push_rail(
    list: &mut sets::DemandActive,
    rail: Rail,
)
    requires
        announces_only(*old(list)),
    ensures
        announces_only(*final(list)),
        announced_sets(*final(list)) == announced_sets(*old(list)).push(
            (ClientCapability::Rail(rail)),
        ),
{
    list.capability_sets.push(sets::CapabilitySet::Rail(sets::Rail {
        support_level: sets::RailSupportLevel::from_bits_retain(rail.support_level),
    }));
}

/// Adds a `CapabilitySet::WindowList` at the end of the list.
#[verifier::external_body]
fn push_window_list(
    list: &mut sets::DemandActive,
    window_list: WindowList,
)
    requires
        announces_only(*old(list)),
    ensures
        announces_only(*final(list)),
        announced_sets(*final(list)) == announced_sets(*old(list)).push(
            (ClientCapability::WindowList(window_list)),
        ),
{
    list.capability_sets.push(sets::CapabilitySet::WindowList(sets::WindowList {
        support_level: match window_list.support_level {
            WindowSupportLevel::NotSupported => sets::WindowSupportLevel::NotSupported,
            WindowSupportLevel::Supported => sets::WindowSupportLevel::Supported,
            WindowSupportLevel::SupportedEx => sets::WindowSupportLevel::SupportedEx,
        },
        num_icon_caches: window_list.num_icon_caches,
        num_icon_cache_entries: window_list.num_icon_cache_entries,
    }));
}

/// Adds a set at the end of the list.
fn push_set(list: &mut sets::DemandActive, set: ClientCapability)
    requires
        announces_only(*old(list)),
    ensures
        announces_only(*final(list)),
        announced_sets(*final(list)) == announced_sets(*old(list)).push(set),
{
    match set {
        ClientCapability::General { platform, extra_flags } => {
            push_general(list, platform, extra_flags);
        },
        ClientCapability::Bitmap {
            pref_bits_per_pix,
            desktop_width,
            desktop_height,
            desktop_resize_flag,
            drawing_flags,
        } => {
            push_bitmap(list, pref_bits_per_pix, desktop_width, desktop_height, desktop_resize_flag, drawing_flags);
        },
        ClientCapability::Order {
            order_flags,
            order_support_ex_flags,
            desktop_save_size,
            text_ansi_code_page,
        } => {
            push_order(list, order_flags, order_support_ex_flags, desktop_save_size, text_ansi_code_page);
        },
        ClientCapability::BitmapCache { entries, max_cell_size } => {
            push_bitmap_cache(list, entries, max_cell_size);
        },
        ClientCapability::Input {
            input_flags,
            keyboard_layout,
            keyboard_type,
            keyboard_subtype,
            keyboard_function_key,
            keyboard_ime_filename,
        } => {
            push_input(list, input_flags, keyboard_layout, keyboard_type, keyboard_subtype, keyboard_function_key, keyboard_ime_filename);
        },
        ClientCapability::Pointer {
            color_pointer_cache_size,
            pointer_cache_size,
        } => {
            push_pointer(list, color_pointer_cache_size, pointer_cache_size);
        },
        ClientCapability::Brush { support_level } => {
            push_brush(list, support_level);
        },
        ClientCapability::GlyphCache { entries, max_cell_size, support_level } => {
            push_glyph_cache(list, entries, max_cell_size, support_level);
        },
        ClientCapability::OffscreenBitmapCache {
            is_supported,
            cache_size,
            cache_entries,
        } => {
            push_offscreen_bitmap_cache(list, is_supported, cache_size, cache_entries);
        },
        ClientCapability::VirtualChannel { flags, chunk_size } => {
            push_virtual_channel(list, flags, chunk_size);
        },
        ClientCapability::Sound { flags } => {
            push_sound(list, flags);
        },
        ClientCapability::LargePointer { flags } => {
            push_large_pointer(list, flags);
        },
        ClientCapability::SurfaceCommands { flags } => {
            push_surface_commands(list, flags);
        },
        ClientCapability::BitmapCodecs(codecs) => {
            push_bitmap_codecs(list, codecs);
        },
        ClientCapability::FrameAcknowledge { max_unacknowledged_frame_count } => {
            push_frame_acknowledge(list, max_unacknowledged_frame_count);
        },
        ClientCapability::MultiFragmentUpdate { max_request_size } => {
            push_multi_fragment_update(list, max_request_size);
        },
        ClientCapability::Rail(rail) => {
            push_rail(list, rail);
        },
        ClientCapability::WindowList(window_list) => {
            push_window_list(list, window_list);
        },
    }
}

/// The Client Confirm Active PDU in its MCS Send Data Request, if it can be encoded.
pub uninterp spec fn confirm_active_of(
    initiator_id: u16,
    channel_id: u16,
    share_id: u32,
    originator_id: u16,
    source_descriptor: Seq<char>,
    capability_sets: Seq<ClientCapability>,
) -> Option<Seq<u8>>;

/// Calls `ironrdp_pdu::rdp::headers::encode_share_control` with a `ClientConfirmActive`:
/// what it writes depends on the numbers, the descriptor and the sets alone. Nothing
/// is said of its error.
#[verifier::external_body]
fn encode_list(
    initiator_id: u16,
    channel_id: u16,
    share_id: u32,
    originator_id: u16,
    source_descriptor: String,
    list: sets::DemandActive,
) -> (result: Result<Vec<u8>, EncodeError>)
    requires
        announces_only(list),
    ensures
        match result {
            Ok(message) => confirm_active_of(
                initiator_id,
                channel_id,
                share_id,
                originator_id,
                source_descriptor@,
                announced_sets(list),
            ) == Some(message@),
            Err(_) => confirm_active_of(
                initiator_id,
                channel_id,
                share_id,
                originator_id,
                source_descriptor@,
                announced_sets(list),
            ) is None,
        },
{
    let pdu = sets::DemandActive { source_descriptor, capability_sets: list.capability_sets };
    let pdu = ShareControlPdu::ClientConfirmActive(sets::ClientConfirmActive { originator_id, pdu });
    let mut buf = WriteBuf::new();
    ironrdp_pdu::rdp::headers::encode_share_control(initiator_id, channel_id, share_id, pdu, &mut buf)?;
    Ok(buf.filled().to_vec())
}

/// Encoding a Client Confirm Active PDU may give this error.
pub closed spec fn confirm_fault(
    initiator_id: u16,
    channel_id: u16,
    share_id: u32,
    confirm: ConfirmState,
    error: EncodeError,
) -> bool {
    exists|source_descriptor: String, list: sets::DemandActive|
        source_descriptor@ == confirm.source_descriptor && announced_sets(list)
            == confirm.capability_sets && #[trigger] call_ensures(
            encode_list,
            (
                initiator_id,
                channel_id,
                share_id,
                confirm.originator_id,
                source_descriptor,
                list,
            ),
            Err(error),
        )
}

/// Encodes a Client Confirm Active PDU in its MCS Send Data Request.
pub fn encode_confirm_active(
    initiator_id: u16,
    channel_id: u16,
    share_id: u32,
    confirm: ConfirmActive,
) -> (result: Result<Vec<u8>, EncodeError>)
    ensures
        match result {
            Ok(message) => confirm_active_of(
                initiator_id,
                channel_id,
                share_id,
                confirm@.originator_id,
                confirm@.source_descriptor,
                confirm@.capability_sets,
            ) == Some(message@),
            Err(error) => confirm_active_of(
                initiator_id,
                channel_id,
                share_id,
                confirm@.originator_id,
                confirm@.source_descriptor,
                confirm@.capability_sets,
            ) is None && confirm_fault(initiator_id, channel_id, share_id, confirm@, error),
        },
{
    let ghost wanted = confirm.capability_sets@;
    let mut list: sets::DemandActive = new_list();
    let mut rest: Vec<ClientCapability> = confirm.capability_sets;
    while rest.len() > 0
        invariant
            announces_only(list),
            announced_sets(list) + rest@ =~= wanted,
        decreases rest@.len(),
    {
        let set: ClientCapability = rest.remove(0);
        push_set(&mut list, set);
    }
    assert(announced_sets(list) =~= wanted);
    encode_list(
        initiator_id,
        channel_id,
        share_id,
        confirm.originator_id,
        confirm.source_descriptor,
        list,
    )
}

/// What a list of wishes for codecs comes to, if it can be met.
pub uninterp spec fn client_codecs_of(wishes: Seq<&str>) -> Option<sets::BitmapCodecs>;

/// Calls `ironrdp_pdu::rdp::capability_sets::client_codecs_capabilities`: what it gives
/// depends on the wishes alone, and no wishes can always be met. Nothing is said of
/// the text that it gives otherwise.
#[verifier::external_body]
pub(crate) fn client_codecs(wishes: &[&str]) -> (result: Result<sets::BitmapCodecs, String>)
    ensures
        match result {
            Ok(codecs) => client_codecs_of(wishes@) == Some(codecs),
            Err(_) => client_codecs_of(wishes@) is None,
        },
        wishes@.len() == 0 ==> result is Ok,
{
    sets::client_codecs_capabilities(wishes)
}

/// Calls `BitmapCodecs::clone`, which `derive` wrote: a copy equal to what it was made
/// from.
#[verifier::external_body]
pub(crate) fn clone_codecs(codecs: &sets::BitmapCodecs) -> (copy: sets::BitmapCodecs)
    ensures
        copy == *codecs,
{
    codecs.clone()
}

} // verus!
