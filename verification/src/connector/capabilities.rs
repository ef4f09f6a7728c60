//! Capability sets: what the client reads of the server's, and what it confirms.
use vstd::prelude::*;
use vstd::string::*;

use ironrdp_pdu::rdp::capability_sets::{BitmapCodecs, MajorPlatformType};

use super::{ConnectorError, ConnectorResult, DesktopSize, ErrorReport};

pub mod laws;

verus! {

/// How far a peer supports the list of windows of remote applications.
#[derive(Debug, Clone, Copy, PartialEq, Eq, Structural)]
pub enum WindowSupportLevel {
    NotSupported,
    Supported,
    SupportedEx,
}

/// Window List Capability Set.
#[derive(Debug, Clone, Copy, PartialEq, Eq, Structural)]
pub struct WindowList {
    pub support_level: WindowSupportLevel,
    pub num_icon_caches: u8,
    pub num_icon_cache_entries: u16,
}

/// Remote Programs Capability Set, its support level as the wire carries it.
#[derive(Debug, Clone, Copy, PartialEq, Eq, Structural)]
pub struct Rail {
    pub support_level: u32,
}

/// Bit of a RAIL support level: remote programs are supported at all.
pub const RAIL_SUPPORTED: u32 = 1;

/// What the client reads of a capability set that the server sent.
#[derive(Debug, Clone, Copy, PartialEq, Eq, Structural)]
pub enum CapabilitySet {
    General { refresh_rect_support: bool, suppress_output_support: bool },
    Bitmap { desktop_width: u16, desktop_height: u16 },
    Input { input_flags: u16 },
    VirtualChannel { chunk_size: Option<u32> },
    MultiFragmentUpdate { max_request_size: u32 },
    Rail(Rail),
    WindowList(WindowList),
    /// A set that the client does not read.
    Other,
}

/// Colour depth, compression and codecs that the client asks for bitmaps.
#[derive(Debug)]
pub struct BitmapConfig {
    pub lossy_compression: bool,
    pub color_depth: u32,
    pub codecs: BitmapCodecs,
}

impl Clone for BitmapConfig {
    fn clone(&self) -> (copy: Self)
        ensures
            copy == *self,
    {
        Self {
            lossy_compression: self.lossy_compression,
            color_depth: self.color_depth,
            codecs: super::wire::announce::clone_codecs(&self.codecs),
        }
    }
}

/// What the activation of a connection reads of the client's configuration.
#[derive(Debug)]
pub struct Config {
    pub desktop_size: DesktopSize,
    pub keyboard_type: u32,
    pub keyboard_subtype: u32,
    pub keyboard_functional_keys_count: u32,
    pub ime_file_name: String,
    pub bitmap: Option<BitmapConfig>,
    pub platform: MajorPlatformType,
    pub enable_server_pointer: bool,
    pub pointer_software_rendering: bool,
    pub remote_application_mode: bool,
    pub rail_support_level: u32,
}

impl Clone for Config {
    fn clone(&self) -> (copy: Self)
        ensures
            copy == *self,
    {
        let bitmap: Option<BitmapConfig> = match &self.bitmap {
            Some(bitmap) => Some(bitmap.clone()),
            None => None,
        };
        Self {
            desktop_size: self.desktop_size,
            keyboard_type: self.keyboard_type,
            keyboard_subtype: self.keyboard_subtype,
            keyboard_functional_keys_count: self.keyboard_functional_keys_count,
            ime_file_name: self.ime_file_name.clone(),
            bitmap,
            platform: self.platform,
            enable_server_pointer: self.enable_server_pointer,
            pointer_software_rendering: self.pointer_software_rendering,
            remote_application_mode: self.remote_application_mode,
            rail_support_level: self.rail_support_level,
        }
    }
}

/// How far the client supports brushes.
#[derive(Debug, Clone, Copy, PartialEq, Eq, Structural)]
pub enum BrushSupportLevel {
    Default,
    Color8x8,
    ColorFull,
}

/// How far the client supports the glyph cache.
#[derive(Debug, Clone, Copy, PartialEq, Eq, Structural)]
pub enum GlyphSupportLevel {
    NotSupported,
    Partial,
    Full,
    Encode,
}

/// A capability set that the client confirms. Flags are as the wire carries them.
#[derive(Debug)]
pub enum ClientCapability {
    General { platform: MajorPlatformType, extra_flags: u16 },
    Bitmap {
        pref_bits_per_pix: u16,
        desktop_width: u16,
        desktop_height: u16,
        desktop_resize_flag: bool,
        drawing_flags: u8,
    },
    Order {
        order_flags: u16,
        order_support_ex_flags: u16,
        desktop_save_size: u32,
        text_ansi_code_page: u16,
    },
    /// The same entries for each of the caches.
    BitmapCache { entries: u16, max_cell_size: u16 },
    Input {
        input_flags: u16,
        keyboard_layout: u32,
        keyboard_type: u32,
        keyboard_subtype: u32,
        keyboard_function_key: u32,
        keyboard_ime_filename: String,
    },
    Pointer { color_pointer_cache_size: u16, pointer_cache_size: u16 },
    Brush { support_level: BrushSupportLevel },
    /// The same entries for each of the caches and for the fragment cache.
    GlyphCache { entries: u16, max_cell_size: u16, support_level: GlyphSupportLevel },
    OffscreenBitmapCache { is_supported: bool, cache_size: u16, cache_entries: u16 },
    VirtualChannel { flags: u32, chunk_size: u32 },
    Sound { flags: u16 },
    LargePointer { flags: u16 },
    SurfaceCommands { flags: u32 },
    BitmapCodecs(BitmapCodecs),
    FrameAcknowledge { max_unacknowledged_frame_count: u32 },
    MultiFragmentUpdate { max_request_size: u32 },
    Rail(Rail),
    WindowList(WindowList),
}

/// The Client Confirm Active PDU: who sends it and what it confirms.
#[derive(Debug)]
pub struct ConfirmActive {
    pub originator_id: u16,
    pub source_descriptor: String,
    pub capability_sets: Vec<ClientCapability>,
}

/// Channel on which the server sends; the originator of a Confirm Active PDU.
pub const SERVER_CHANNEL_ID: u16 = 0x03ea;

/// Shortest chunk of a static virtual channel, used where the server gives no valid
/// size.
pub const CHANNEL_CHUNK_LENGTH: usize = 1600;

/// Longest chunk of a static virtual channel.
pub const MAX_CHANNEL_CHUNK_LENGTH: usize = 16_256;

/// Entries of the pointer caches; not zero, so that pointers are rendered by the
/// client.
pub const DEFAULT_POINTER_CACHE_SIZE: u16 = 32;

/// General extra flags: fast-path output, and no bitmap compression header.
pub const CLIENT_EXTRA_FLAGS: u16 = 0x0401;

/// Bitmap drawing flag: alpha may be skipped.
pub const ALLOW_SKIP_ALPHA: u8 = 0x08;

/// Bitmap drawing flags for lossy compression: alpha may be skipped, and colour
/// fidelity and subsampling may vary.
pub const ALLOW_LOSSY_COLOR: u8 = 0x0E;

/// Order flags: order support is negotiated, and zero bounds deltas are supported.
pub const CLIENT_ORDER_FLAGS: u16 = 0x000A;

/// Every input flag there is.
pub const ALL_INPUT_FLAGS: u16 = 0xFFFF;

/// Large pointer flags: pointers of up to 96x96 and of up to 384x384 pixels. The
/// first is needed for proper cursor behaviour in Windows 2019 and older.
pub const LARGE_POINTER_FLAGS: u16 = 0x0003;

/// Surface command flags: surface bits, streamed surface bits and frame markers.
pub const SURFACE_COMMAND_FLAGS: u32 = 0x52;

/// Frames that may wait for an acknowledgement.
pub const MAX_UNACKNOWLEDGED_FRAMES: u32 = 20;

/// Largest fragmented update that the client takes where the server asks for none:
/// 8 MiB.
pub const DEFAULT_MAX_REQUEST_SIZE: u32 = 8_388_608;

/// The first Window List set among the given ones.
pub open spec fn first_window_list(sets: Seq<CapabilitySet>) -> Option<WindowList>
    decreases sets.len(),
{
    if sets.len() == 0 {
        None
    } else {
        match sets[0] {
            CapabilitySet::WindowList(window_list) => Some(window_list),
            _ => first_window_list(sets.drop_first()),
        }
    }
}

/// The first Window List set among the given ones.
pub fn server_window_list(sets: &[CapabilitySet]) -> (found: Option<WindowList>)
    ensures
        found == first_window_list(sets@),
{
    let mut found: Option<WindowList> = None;
    let mut i: usize = sets.len();
    assert(sets@.skip(i as int) =~= Seq::empty());
    while i > 0
        invariant
            i <= sets@.len(),
            found == first_window_list(sets@.skip(i as int)),
        decreases i,
    {
        i -= 1;
        assert(sets@.skip(i as int).drop_first() =~= sets@.skip(i + 1));
        assert(sets@.skip(i as int)[0] == sets@[i as int]);
        match sets[i] {
            CapabilitySet::WindowList(window_list) => {
                found = Some(window_list);
            },
            _ => {},
        }
    }
    assert(sets@.skip(0) =~= sets@);
    found
}

/// Whether the first General set permits Refresh Rect and Suppress Output PDUs.
pub open spec fn first_recovery_support(sets: Seq<CapabilitySet>) -> Option<(bool, bool)>
    decreases sets.len(),
{
    if sets.len() == 0 {
        None
    } else {
        match sets[0] {
            CapabilitySet::General { refresh_rect_support, suppress_output_support } => Some(
                (refresh_rect_support, suppress_output_support),
            ),
            _ => first_recovery_support(sets.drop_first()),
        }
    }
}

/// Whether the first General set permits Refresh Rect and Suppress Output PDUs.
pub fn server_recovery_support(sets: &[CapabilitySet]) -> (found: Option<(bool, bool)>)
    ensures
        found == first_recovery_support(sets@),
{
    let mut found: Option<(bool, bool)> = None;
    let mut i: usize = sets.len();
    assert(sets@.skip(i as int) =~= Seq::empty());
    while i > 0
        invariant
            i <= sets@.len(),
            found == first_recovery_support(sets@.skip(i as int)),
        decreases i,
    {
        i -= 1;
        assert(sets@.skip(i as int).drop_first() =~= sets@.skip(i + 1));
        assert(sets@.skip(i as int)[0] == sets@[i as int]);
        match sets[i] {
            CapabilitySet::General { refresh_rect_support, suppress_output_support } => {
                found = Some((refresh_rect_support, suppress_output_support));
            },
            _ => {},
        }
    }
    assert(sets@.skip(0) =~= sets@);
    found
}

/// The flags of the first Input set.
pub open spec fn first_input_flags(sets: Seq<CapabilitySet>) -> Option<u16>
    decreases sets.len(),
{
    if sets.len() == 0 {
        None
    } else {
        match sets[0] {
            CapabilitySet::Input { input_flags } => Some(input_flags),
            _ => first_input_flags(sets.drop_first()),
        }
    }
}

/// The flags of the first Input set.
pub fn server_input_flags(sets: &[CapabilitySet]) -> (found: Option<u16>)
    ensures
        found == first_input_flags(sets@),
{
    let mut found: Option<u16> = None;
    let mut i: usize = sets.len();
    assert(sets@.skip(i as int) =~= Seq::empty());
    while i > 0
        invariant
            i <= sets@.len(),
            found == first_input_flags(sets@.skip(i as int)),
        decreases i,
    {
        i -= 1;
        assert(sets@.skip(i as int).drop_first() =~= sets@.skip(i + 1));
        assert(sets@.skip(i as int)[0] == sets@[i as int]);
        match sets[i] {
            CapabilitySet::Input { input_flags } => {
                found = Some(input_flags);
            },
            _ => {},
        }
    }
    assert(sets@.skip(0) =~= sets@);
    found
}

/// The chunk size of the first Virtual Channel set that gives one.
pub open spec fn first_chunk_size(sets: Seq<CapabilitySet>) -> Option<u32>
    decreases sets.len(),
{
    if sets.len() == 0 {
        None
    } else {
        match sets[0] {
            CapabilitySet::VirtualChannel { chunk_size: Some(chunk_size) } => Some(chunk_size),
            _ => first_chunk_size(sets.drop_first()),
        }
    }
}

/// The chunk size of the first Virtual Channel set that gives one.
pub fn server_chunk_size(sets: &[CapabilitySet]) -> (found: Option<u32>)
    ensures
        found == first_chunk_size(sets@),
{
    let mut found: Option<u32> = None;
    let mut i: usize = sets.len();
    assert(sets@.skip(i as int) =~= Seq::empty());
    while i > 0
        invariant
            i <= sets@.len(),
            found == first_chunk_size(sets@.skip(i as int)),
        decreases i,
    {
        i -= 1;
        assert(sets@.skip(i as int).drop_first() =~= sets@.skip(i + 1));
        assert(sets@.skip(i as int)[0] == sets@[i as int]);
        match sets[i] {
            CapabilitySet::VirtualChannel { chunk_size: Some(chunk_size) } => {
                found = Some(chunk_size);
            },
            _ => {},
        }
    }
    assert(sets@.skip(0) =~= sets@);
    found
}

/// The desktop size of the first Bitmap set.
pub open spec fn first_desktop_size(sets: Seq<CapabilitySet>) -> Option<DesktopSize>
    decreases sets.len(),
{
    if sets.len() == 0 {
        None
    } else {
        match sets[0] {
            CapabilitySet::Bitmap { desktop_width, desktop_height } => Some(
                DesktopSize { width: desktop_width, height: desktop_height },
            ),
            _ => first_desktop_size(sets.drop_first()),
        }
    }
}

/// The desktop size of the first Bitmap set.
pub fn server_desktop_size(sets: &[CapabilitySet]) -> (found: Option<DesktopSize>)
    ensures
        found == first_desktop_size(sets@),
{
    let mut found: Option<DesktopSize> = None;
    let mut i: usize = sets.len();
    assert(sets@.skip(i as int) =~= Seq::empty());
    while i > 0
        invariant
            i <= sets@.len(),
            found == first_desktop_size(sets@.skip(i as int)),
        decreases i,
    {
        i -= 1;
        assert(sets@.skip(i as int).drop_first() =~= sets@.skip(i + 1));
        assert(sets@.skip(i as int)[0] == sets@[i as int]);
        match sets[i] {
            CapabilitySet::Bitmap { desktop_width, desktop_height } => {
                found = Some(DesktopSize { width: desktop_width, height: desktop_height });
            },
            _ => {},
        }
    }
    assert(sets@.skip(0) =~= sets@);
    found
}

/// The support level that a Window List set amounts to: none if it says that the
/// list is not supported.
pub open spec fn supported_level(window_list: Option<WindowList>) -> Option<WindowSupportLevel> {
    match window_list {
        Some(window_list) => if window_list.support_level is NotSupported {
            None
        } else {
            Some(window_list.support_level)
        },
        None => None,
    }
}

/// The support level that a Window List set amounts to.
pub fn negotiated_window_support_level(window_list: Option<&WindowList>) -> (level: Option<
    WindowSupportLevel,
>)
    ensures
        level == supported_level(
            match window_list {
                Some(window_list) => Some(*window_list),
                None => None,
            },
        ),
{
    match window_list {
        Some(window_list) => match window_list.support_level {
            WindowSupportLevel::NotSupported => None,
            level => Some(level),
        },
        None => None,
    }
}

/// The chunk size of static virtual channels that the server's sets call for: what
/// they give where that is in range, and the shortest one otherwise.
pub open spec fn chunk_size_of(sets: Seq<CapabilitySet>) -> usize {
    match first_chunk_size(sets) {
        Some(chunk_size) => if CHANNEL_CHUNK_LENGTH <= chunk_size <= MAX_CHANNEL_CHUNK_LENGTH {
            chunk_size as usize
        } else {
            CHANNEL_CHUNK_LENGTH
        },
        None => CHANNEL_CHUNK_LENGTH,
    }
}

/// The chunk size of static virtual channels that the server's sets call for.
pub fn static_channel_chunk_size(sets: &[CapabilitySet]) -> (chunk_size: usize)
    ensures
        chunk_size == chunk_size_of(sets@),
        CHANNEL_CHUNK_LENGTH <= chunk_size <= MAX_CHANNEL_CHUNK_LENGTH,
{
    match server_chunk_size(sets) {
        Some(chunk_size) => {
            let chunk_size: usize = chunk_size as usize;
            if CHANNEL_CHUNK_LENGTH <= chunk_size && chunk_size <= MAX_CHANNEL_CHUNK_LENGTH {
                chunk_size
            } else {
                CHANNEL_CHUNK_LENGTH
            }
        },
        None => CHANNEL_CHUNK_LENGTH,
    }
}

/// A RAIL support level includes support of remote programs.
pub open spec fn supports_rail(support_level: u32) -> bool {
    support_level & RAIL_SUPPORTED == RAIL_SUPPORTED
}

/// One of the sets is a RAIL set that supports remote programs.
pub open spec fn offers_rail(sets: Seq<CapabilitySet>) -> bool {
    exists|i: int|
        0 <= i < sets.len() && #[trigger] sets[i] is Rail && supports_rail(
            sets[i]->Rail_0.support_level,
        )
}

/// The RAIL set that the client confirms: none outside remote application mode, the
/// configured one inside it, and an error where either side lacks what remote
/// applications need.
pub open spec fn rail_of(
    remote_application_mode: bool,
    rail_support_level: u32,
    sets: Seq<CapabilitySet>,
    window_list: Option<WindowList>,
) -> Result<Option<Rail>, ErrorReport> {
    if !remote_application_mode {
        Ok(None)
    } else if !supports_rail(rail_support_level) {
        Err(
            ErrorReport::reason(
                "Capabilities Exchange"@,
                "client RemoteApp configuration does not support remote programs"@,
            ),
        )
    } else if !offers_rail(sets) || supported_level(window_list) is None {
        Err(
            ErrorReport::reason(
                "Capabilities Exchange"@,
                "server does not support required RemoteApp capabilities"@,
            ),
        )
    } else {
        Ok(Some(Rail { support_level: rail_support_level }))
    }
}

/// The RAIL set that the client confirms, if any.
pub fn remote_app_rail_capability(
    remote_application_mode: bool,
    rail_support_level: u32,
    server_capability_sets: &[CapabilitySet],
    window_list: Option<&WindowList>,
) -> (result: ConnectorResult<Option<Rail>>)
    ensures
        super::report(result) == rail_of(
            remote_application_mode,
            rail_support_level,
            server_capability_sets@,
            match window_list {
                Some(window_list) => Some(*window_list),
                None => None,
            },
        ),
{
    if !remote_application_mode {
        return Ok(None);
    }
    if rail_support_level & RAIL_SUPPORTED != RAIL_SUPPORTED {
        return Err(
            ConnectorError::reason(
                "Capabilities Exchange",
                "client RemoteApp configuration does not support remote programs".to_owned(),
            ),
        );
    }
    let mut rail_supported: bool = false;
    let mut i: usize = 0;
    while i < server_capability_sets.len()
        invariant
            i <= server_capability_sets@.len(),
            rail_supported <==> exists|k: int|
                0 <= k < i && #[trigger] server_capability_sets@[k] is Rail && supports_rail(
                    server_capability_sets@[k]->Rail_0.support_level,
                ),
        decreases server_capability_sets@.len() - i,
    {
        match server_capability_sets[i] {
            CapabilitySet::Rail(rail) => {
                if rail.support_level & RAIL_SUPPORTED == RAIL_SUPPORTED {
                    assert(server_capability_sets@[i as int] is Rail);
                    rail_supported = true;
                }
            },
            _ => {},
        }
        i += 1;
    }
    let window_list_supported: bool = negotiated_window_support_level(window_list).is_some();
    if !rail_supported || !window_list_supported {
        return Err(
            ConnectorError::reason(
                "Capabilities Exchange",
                "server does not support required RemoteApp capabilities".to_owned(),
            ),
        );
    }
    Ok(Some(Rail { support_level: rail_support_level }))
}

/// The colour depth of a bitmap configuration; 32 where there is none.
pub open spec fn configured_depth(bitmap: Option<BitmapConfig>) -> u32 {
    match bitmap {
        Some(bitmap) => bitmap.color_depth,
        None => 32,
    }
}

/// The colour depth that the client confirms: the configured one if it is among
/// those that a bitmap can have.
pub open spec fn depth_of(bitmap: Option<BitmapConfig>) -> Result<u16, ErrorReport> {
    let depth = configured_depth(bitmap);
    if depth == 15 || depth == 16 || depth == 24 || depth == 32 {
        Ok(depth as u16)
    } else {
        Err(
            ErrorReport::reason(
                "create client confirm active"@,
                "unsupported bitmap color depth: "@ + crate::text::decimal_text(depth as nat),
            ),
        )
    }
}

/// Returns the color depth requested by the client configuration for the Bitmap Capability Set.
///
/// [MS-RDPBCGR] requires `preferredBitsPerPixel` to match the requested Client Core Data color
/// depth. Keeping these values aligned is particularly important for non-32-bpp clients: a 32-bpp
/// Bitmap Capability Set permits the server to select RDP 6.0 bitmap compression instead.
pub fn requested_bitmap_color_depth(bitmap: Option<&BitmapConfig>) -> (result: ConnectorResult<u16>)
    ensures
        super::report(result) == depth_of(
            match bitmap {
                Some(bitmap) => Some(*bitmap),
                None => None,
            },
        ),
{
    let color_depth: u32 = match bitmap {
        Some(bitmap) => bitmap.color_depth,
        None => 32,
    };
    if color_depth == 15 || color_depth == 16 || color_depth == 24 || color_depth == 32 {
        Ok(color_depth as u16)
    } else {
        let mut text: String = "unsupported bitmap color depth: ".to_owned();
        text.append(crate::text::decimal(color_depth).as_str());
        Err(ConnectorError::reason("create client confirm active", text))
    }
}

/// The fragmented-update sets among the server's, in order: the client confirms
/// them as they are.
pub open spec fn retained(sets: Seq<CapabilitySet>) -> Seq<ClientCapability>
    decreases sets.len(),
{
    if sets.len() == 0 {
        Seq::empty()
    } else {
        let rest = retained(sets.drop_last());
        match sets.last() {
            CapabilitySet::MultiFragmentUpdate { max_request_size } => rest.push(
                ClientCapability::MultiFragmentUpdate { max_request_size },
            ),
            _ => rest,
        }
    }
}

/// The configured codecs, or those that the protocol crate gives for no wishes.
pub open spec fn announced_codecs(bitmap: Option<BitmapConfig>) -> BitmapCodecs {
    match bitmap {
        Some(bitmap) => bitmap.codecs,
        None => super::wire::announce::client_codecs_of(Seq::empty())->0,
    }
}

/// What the client confirms whatever the server sent.
pub open spec fn client_sets(config: Config, depth: u16, desktop_size: DesktopSize) -> Seq<
    ClientCapability,
> {
    seq![
        ClientCapability::General { platform: config.platform, extra_flags: CLIENT_EXTRA_FLAGS },
        ClientCapability::Bitmap {
            pref_bits_per_pix: depth,
            desktop_width: desktop_size.width,
            desktop_height: desktop_size.height,
            desktop_resize_flag: true,
            drawing_flags: if config.bitmap is Some && config.bitmap->0.lossy_compression {
                ALLOW_LOSSY_COLOR
            } else {
                ALLOW_SKIP_ALPHA
            },
        },
        ClientCapability::Order {
            order_flags: CLIENT_ORDER_FLAGS,
            order_support_ex_flags: 0,
            desktop_save_size: 0,
            text_ansi_code_page: 0,
        },
        ClientCapability::BitmapCache { entries: 0, max_cell_size: 0 },
        ClientCapability::Input {
            input_flags: ALL_INPUT_FLAGS,
            keyboard_layout: 0,
            keyboard_type: config.keyboard_type,
            keyboard_subtype: config.keyboard_subtype,
            keyboard_function_key: config.keyboard_functional_keys_count,
            keyboard_ime_filename: config.ime_file_name,
        },
        ClientCapability::Pointer {
            color_pointer_cache_size: DEFAULT_POINTER_CACHE_SIZE,
            pointer_cache_size: DEFAULT_POINTER_CACHE_SIZE,
        },
        ClientCapability::Brush { support_level: BrushSupportLevel::Default },
        ClientCapability::GlyphCache {
            entries: 0,
            max_cell_size: 0,
            support_level: GlyphSupportLevel::NotSupported,
        },
        ClientCapability::OffscreenBitmapCache {
            is_supported: false,
            cache_size: 0,
            cache_entries: 0,
        },
        ClientCapability::VirtualChannel { flags: 0, chunk_size: 0 },
        ClientCapability::Sound { flags: 0 },
        ClientCapability::LargePointer { flags: LARGE_POINTER_FLAGS },
        ClientCapability::SurfaceCommands { flags: SURFACE_COMMAND_FLAGS },
        ClientCapability::BitmapCodecs(announced_codecs(config.bitmap)),
        ClientCapability::FrameAcknowledge {
            max_unacknowledged_frame_count: MAX_UNACKNOWLEDGED_FRAMES,
        },
    ]
}

/// Everything that the client confirms: the server's fragmented-update sets, its
/// own, a fragmented-update set of its own where the server sent none, and what
/// remote applications call for.
pub open spec fn confirmed_sets(
    config: Config,
    sets: Seq<CapabilitySet>,
    depth: u16,
    desktop_size: DesktopSize,
    rail: Option<Rail>,
    window_list: Option<WindowList>,
) -> Seq<ClientCapability> {
    let kept = retained(sets);
    kept + client_sets(config, depth, desktop_size) + (if kept.len() == 0 {
        seq![
            ClientCapability::MultiFragmentUpdate { max_request_size: DEFAULT_MAX_REQUEST_SIZE },
        ]
    } else {
        Seq::empty()
    }) + (match rail {
        Some(rail) => seq![ClientCapability::Rail(rail)],
        None => Seq::empty(),
    }) + (match window_list {
        Some(window_list) => seq![ClientCapability::WindowList(window_list)],
        None => Seq::empty(),
    })
}

/// What a Client Confirm Active PDU holds.
#[verifier::ext_equal]
pub struct ConfirmState {
    pub originator_id: u16,
    pub source_descriptor: Seq<char>,
    pub capability_sets: Seq<ClientCapability>,
}

impl View for ConfirmActive {
    type V = ConfirmState;

    open spec fn view(&self) -> ConfirmState {
        ConfirmState {
            originator_id: self.originator_id,
            source_descriptor: self.source_descriptor@,
            capability_sets: self.capability_sets@,
        }
    }
}

/// The Confirm Active PDU that answers the server's sets, or why there is none: the
/// RemoteApp check comes before the one of the colour depth.
pub open spec fn confirm_of(
    config: Config,
    sets: Seq<CapabilitySet>,
    desktop_size: DesktopSize,
    window_list: Option<WindowList>,
) -> Result<ConfirmState, ErrorReport> {
    match rail_of(config.remote_application_mode, config.rail_support_level, sets, window_list) {
        Err(error) => Err(error),
        Ok(rail) => match depth_of(config.bitmap) {
            Err(error) => Err(error),
            Ok(depth) => Ok(
                ConfirmState {
                    originator_id: SERVER_CHANNEL_ID,
                    source_descriptor: "IRONRDP"@,
                    capability_sets: confirmed_sets(
                        config,
                        sets,
                        depth,
                        desktop_size,
                        rail,
                        window_list,
                    ),
                },
            ),
        },
    }
}

/// The server's fragmented-update sets, to be confirmed as they are.
fn retained_sets(sets: &[CapabilitySet]) -> (kept: Vec<ClientCapability>)
    ensures
        kept@ == retained(sets@),
{
    let mut kept: Vec<ClientCapability> = Vec::new();
    let mut i: usize = 0;
    assert(sets@.take(0) =~= Seq::empty());
    while i < sets.len()
        invariant
            i <= sets@.len(),
            kept@ == retained(sets@.take(i as int)),
        decreases sets@.len() - i,
    {
        assert(sets@.take(i + 1).drop_last() =~= sets@.take(i as int));
        assert(sets@.take(i + 1).last() == sets@[i as int]);
        match sets[i] {
            CapabilitySet::MultiFragmentUpdate { max_request_size } => {
                kept.push(ClientCapability::MultiFragmentUpdate { max_request_size });
            },
            _ => {},
        }
        i += 1;
    }
    assert(sets@.take(i as int) =~= sets@);
    kept
}

/// The codecs that are announced where none are configured.
fn default_codecs() -> (codecs: BitmapCodecs)
    ensures
        codecs == announced_codecs(None),
{
    let wishes: Vec<&str> = Vec::new();
    assert(wishes@ =~= Seq::empty());
    match super::wire::announce::client_codecs(wishes.as_slice()) {
        Ok(codecs) => codecs,
        Err(_) => vstd::pervasive::unreached(),
    }
}

/// Answers the server's capability sets with the client's.
pub fn create_client_confirm_active(
    config: &Config,
    server_capability_sets: &[CapabilitySet],
    desktop_size: DesktopSize,
    window_list: Option<WindowList>,
) -> (result: ConnectorResult<ConfirmActive>)
    ensures
        match result {
            Ok(confirm) => confirm_of(*config, server_capability_sets@, desktop_size, window_list)
                == Ok::<ConfirmState, ErrorReport>(confirm@),
            Err(error) => confirm_of(*config, server_capability_sets@, desktop_size, window_list)
                == Err::<ConfirmState, ErrorReport>(error@),
        },
{
    let rail: Option<Rail> = match remote_app_rail_capability(
        config.remote_application_mode,
        config.rail_support_level,
        server_capability_sets,
        window_list.as_ref(),
    ) {
        Ok(rail) => rail,
        Err(error) => {
            return Err(error);
        },
    };
    let pref_bits_per_pix: u16 = match requested_bitmap_color_depth(config.bitmap.as_ref()) {
        Ok(depth) => depth,
        Err(error) => {
            return Err(error);
        },
    };
    let lossy_bitmap_compression: bool = match &config.bitmap {
        Some(bitmap) => bitmap.lossy_compression,
        None => false,
    };
    let drawing_flags: u8 = if lossy_bitmap_compression {
        ALLOW_LOSSY_COLOR
    } else {
        ALLOW_SKIP_ALPHA
    };
    let codecs: BitmapCodecs = match &config.bitmap {
        Some(bitmap) => super::wire::announce::clone_codecs(&bitmap.codecs),
        None => default_codecs(),
    };

    let mut sets: Vec<ClientCapability> = retained_sets(server_capability_sets);
    let ghost kept = sets@;
    let server_sent_none: bool = sets.len() == 0;
    sets.push(
        ClientCapability::General { platform: config.platform, extra_flags: CLIENT_EXTRA_FLAGS },
    );
    sets.push(
        ClientCapability::Bitmap {
            pref_bits_per_pix,
            desktop_width: desktop_size.width,
            desktop_height: desktop_size.height,
            // This is required to be true in order for the Microsoft::Windows::RDS::DisplayControl
            // DVC to work.
            desktop_resize_flag: true,
            drawing_flags,
        },
    );
    sets.push(
        ClientCapability::Order {
            order_flags: CLIENT_ORDER_FLAGS,
            order_support_ex_flags: 0,
            desktop_save_size: 0,
            text_ansi_code_page: 0,
        },
    );
    sets.push(ClientCapability::BitmapCache { entries: 0, max_cell_size: 0 });
    sets.push(
        ClientCapability::Input {
            input_flags: ALL_INPUT_FLAGS,
            keyboard_layout: 0,
            keyboard_type: config.keyboard_type,
            keyboard_subtype: config.keyboard_subtype,
            keyboard_function_key: config.keyboard_functional_keys_count,
            keyboard_ime_filename: config.ime_file_name.clone(),
        },
    );
    sets.push(
        ClientCapability::Pointer {
            // Pointer cache should be set to non-zero value to enable client-side pointer rendering.
            color_pointer_cache_size: DEFAULT_POINTER_CACHE_SIZE,
            pointer_cache_size: DEFAULT_POINTER_CACHE_SIZE,
        },
    );
    sets.push(ClientCapability::Brush { support_level: BrushSupportLevel::Default });
    sets.push(
        ClientCapability::GlyphCache {
            entries: 0,
            max_cell_size: 0,
            support_level: GlyphSupportLevel::NotSupported,
        },
    );
    sets.push(
        ClientCapability::OffscreenBitmapCache {
            is_supported: false,
            cache_size: 0,
            cache_entries: 0,
        },
    );
    // The chunk size is ignored.
    sets.push(ClientCapability::VirtualChannel { flags: 0, chunk_size: 0 });
    sets.push(ClientCapability::Sound { flags: 0 });
    sets.push(ClientCapability::LargePointer { flags: LARGE_POINTER_FLAGS });
    sets.push(ClientCapability::SurfaceCommands { flags: SURFACE_COMMAND_FLAGS });
    sets.push(ClientCapability::BitmapCodecs(codecs));
    sets.push(
        ClientCapability::FrameAcknowledge {
            max_unacknowledged_frame_count: MAX_UNACKNOWLEDGED_FRAMES,
        },
    );
    assert(sets@ =~= kept + client_sets(*config, pref_bits_per_pix, desktop_size));
    if server_sent_none {
        sets.push(
            ClientCapability::MultiFragmentUpdate { max_request_size: DEFAULT_MAX_REQUEST_SIZE },
        );
    }
    match rail {
        Some(rail) => {
            sets.push(ClientCapability::Rail(rail));
        },
        None => {},
    }
    match window_list {
        Some(window_list) => {
            sets.push(ClientCapability::WindowList(window_list));
        },
        None => {},
    }
    assert(sets@ =~= confirmed_sets(
        *config,
        server_capability_sets@,
        pref_bits_per_pix,
        desktop_size,
        rail,
        window_list,
    ));
    Ok(
        ConfirmActive {
            originator_id: SERVER_CHANNEL_ID,
            source_descriptor: "IRONRDP".to_owned(),
            capability_sets: sets,
        },
    )
}

} // verus!
