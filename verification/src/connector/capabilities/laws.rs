//! What the server's capability sets settle, and what the client confirms, set by set.
use vstd::prelude::*;
use vstd::string::*;

use super::super::{DesktopSize, ErrorReport};
use super::{
    BitmapConfig, BrushSupportLevel, CapabilitySet, ClientCapability, Config, GlyphSupportLevel,
    Rail, WindowList,
};

verus! {

/// The first Bitmap set gives the desktop size; none does where none is among the sets.
pub proof fn law_first_bitmap_set(sets: Seq<CapabilitySet>, i: int)
    requires
        0 <= i <= sets.len(),
        forall|e: int| 0 <= e < i ==> !(#[trigger] sets[e] is Bitmap),
        i < sets.len() ==> sets[i] is Bitmap,
    ensures
        i == sets.len() ==> super::first_desktop_size(sets) is None,
        i < sets.len() ==> super::first_desktop_size(sets) == Some(
            DesktopSize { width: sets[i]->desktop_width, height: sets[i]->desktop_height },
        ),
    decreases sets.len(),
{
    if sets.len() > 0 {
        let rest = sets.drop_first();
        if i > 0 {
            assert(!(sets[0] is Bitmap));
            assert forall|e: int| 0 <= e < i - 1 implies !(#[trigger] rest[e] is Bitmap) by {
                assert(rest[e] == sets[e + 1]);
            }
            law_first_bitmap_set(rest, i - 1);
        }
    }
}

/// The first General set says whether Refresh Rect and Suppress Output PDUs are permitted;
/// none does where none is among the sets.
pub proof fn law_first_general_set(sets: Seq<CapabilitySet>, i: int)
    requires
        0 <= i <= sets.len(),
        forall|e: int| 0 <= e < i ==> !(#[trigger] sets[e] is General),
        i < sets.len() ==> sets[i] is General,
    ensures
        i == sets.len() ==> super::first_recovery_support(sets) is None,
        i < sets.len() ==> super::first_recovery_support(sets) == Some(
            (sets[i]->refresh_rect_support, sets[i]->suppress_output_support),
        ),
    decreases sets.len(),
{
    if sets.len() > 0 {
        let rest = sets.drop_first();
        if i > 0 {
            assert(!(sets[0] is General));
            assert forall|e: int| 0 <= e < i - 1 implies !(#[trigger] rest[e] is General) by {
                assert(rest[e] == sets[e + 1]);
            }
            law_first_general_set(rest, i - 1);
        }
    }
}

/// The first Input set gives the input flags; none does where none is among the sets.
pub proof fn law_first_input_set(sets: Seq<CapabilitySet>, i: int)
    requires
        0 <= i <= sets.len(),
        forall|e: int| 0 <= e < i ==> !(#[trigger] sets[e] is Input),
        i < sets.len() ==> sets[i] is Input,
    ensures
        i == sets.len() ==> super::first_input_flags(sets) is None,
        i < sets.len() ==> super::first_input_flags(sets) == Some(sets[i]->input_flags),
    decreases sets.len(),
{
    if sets.len() > 0 {
        let rest = sets.drop_first();
        if i > 0 {
            assert(!(sets[0] is Input));
            assert forall|e: int| 0 <= e < i - 1 implies !(#[trigger] rest[e] is Input) by {
                assert(rest[e] == sets[e + 1]);
            }
            law_first_input_set(rest, i - 1);
        }
    }
}

/// The first Virtual Channel set that gives a chunk size gives it; none does where none of
/// the sets is such a one.
pub proof fn law_first_chunk_size(sets: Seq<CapabilitySet>, i: int)
    requires
        0 <= i <= sets.len(),
        forall|e: int| 0 <= e < i ==> !((#[trigger] sets[e]) is VirtualChannel && sets[e]->chunk_size is Some),
        i < sets.len() ==> sets[i] is VirtualChannel && sets[i]->chunk_size is Some,
    ensures
        i == sets.len() ==> super::first_chunk_size(sets) is None,
        i < sets.len() ==> super::first_chunk_size(sets) == Some(sets[i]->chunk_size->0),
    decreases sets.len(),
{
    if sets.len() > 0 {
        let rest = sets.drop_first();
        if i > 0 {
            assert(!(sets[0] is VirtualChannel && sets[0]->chunk_size is Some));
            assert forall|e: int| 0 <= e < i - 1 implies !((#[trigger] rest[e]) is VirtualChannel && rest[e]->chunk_size is Some) by {
                assert(rest[e] == sets[e + 1]);
            }
            law_first_chunk_size(rest, i - 1);
        }
    }
}

/// The first Window List set is the one that counts; none does where none is among the
/// sets.
pub proof fn law_first_window_list(sets: Seq<CapabilitySet>, i: int)
    requires
        0 <= i <= sets.len(),
        forall|e: int| 0 <= e < i ==> !(#[trigger] sets[e] is WindowList),
        i < sets.len() ==> sets[i] is WindowList,
    ensures
        i == sets.len() ==> super::first_window_list(sets) is None,
        i < sets.len() ==> super::first_window_list(sets) == Some(sets[i]->WindowList_0),
    decreases sets.len(),
{
    if sets.len() > 0 {
        let rest = sets.drop_first();
        if i > 0 {
            assert(!(sets[0] is WindowList));
            assert forall|e: int| 0 <= e < i - 1 implies !(#[trigger] rest[e] is WindowList) by {
                assert(rest[e] == sets[e + 1]);
            }
            law_first_window_list(rest, i - 1);
        }
    }
}

/// The chunk size of static virtual channels is the first that the sets give, if it is
/// 1600 to 16256 bytes; it is 1600 bytes otherwise, and where the sets give none.
pub proof fn law_chunk_size_is_the_servers_if_valid(sets: Seq<CapabilitySet>, i: int)
    requires
        0 <= i <= sets.len(),
        forall|e: int|
            0 <= e < i ==> !((#[trigger] sets[e]) is VirtualChannel && sets[e]->chunk_size is Some),
        i < sets.len() ==> sets[i] is VirtualChannel && sets[i]->chunk_size is Some,
    ensures
        i == sets.len() ==> super::chunk_size_of(sets) == 1600,
        i < sets.len() && 1600 <= sets[i]->chunk_size->0 <= 16256 ==> super::chunk_size_of(sets)
            == sets[i]->chunk_size->0,
        i < sets.len() && !(1600 <= sets[i]->chunk_size->0 <= 16256) ==> super::chunk_size_of(sets)
            == 1600,
{
    law_first_chunk_size(sets, i);
}

/// A Window List set amounts to the support level that it says, unless it says that
/// there is no support; no set amounts to none.
pub proof fn law_window_support_level(window_list: WindowList)
    ensures
        super::supported_level(None) is None,
        window_list.support_level is NotSupported ==> super::supported_level(
            Some(window_list),
        ) is None,
        !(window_list.support_level is NotSupported) ==> super::supported_level(Some(window_list))
            == Some(window_list.support_level),
{
}

/// A support level includes remote programs if and only if it is odd.
proof fn lemma_supports_rail(support_level: u32)
    ensures
        super::supports_rail(support_level) <==> support_level % 2 == 1,
{
    assert((support_level & 1 == 1) <==> (support_level % 2 == 1)) by (bit_vector);
}

/// What the client confirms of remote programs. Outside remote application mode it is
/// nothing. In that mode it is the configured level, if that is odd, one of the
/// server's sets offers an odd one, and the server lists its windows; it is an error,
/// that says which side lacks what, otherwise.
pub proof fn law_remote_programs_need_both_sides(
    remote_application_mode: bool,
    rail_support_level: u32,
    sets: Seq<CapabilitySet>,
    window_list: Option<WindowList>,
)
    ensures
        ({
            let result = super::rail_of(
                remote_application_mode,
                rail_support_level,
                sets,
                window_list,
            );
            let offered = exists|i: int|
                0 <= i < sets.len() && (#[trigger] sets[i]) is Rail
                    && sets[i]->Rail_0.support_level % 2 == 1;
            let listed = window_list is Some && !(window_list->0.support_level is NotSupported);
            &&& !remote_application_mode ==> result == Ok::<Option<Rail>, ErrorReport>(None)
            &&& remote_application_mode && rail_support_level % 2 == 1 && offered && listed
                ==> result == Ok::<Option<Rail>, ErrorReport>(
                Some(Rail { support_level: rail_support_level }),
            )
            &&& remote_application_mode && rail_support_level % 2 != 1 ==> result == Err::<
                Option<Rail>,
                ErrorReport,
            >(
                ErrorReport::reason(
                    "Capabilities Exchange"@,
                    "client RemoteApp configuration does not support remote programs"@,
                ),
            )
            &&& remote_application_mode && rail_support_level % 2 == 1 && !(offered && listed)
                ==> result == Err::<Option<Rail>, ErrorReport>(
                ErrorReport::reason(
                    "Capabilities Exchange"@,
                    "server does not support required RemoteApp capabilities"@,
                ),
            )
        }),
{
    lemma_supports_rail(rail_support_level);
    assert forall|i: int| 0 <= i < sets.len() && (#[trigger] sets[i]) is Rail implies (
    super::supports_rail(sets[i]->Rail_0.support_level) <==> sets[i]->Rail_0.support_level % 2
        == 1) by {
        lemma_supports_rail(sets[i]->Rail_0.support_level);
    }
}

/// The colour depth that the client confirms is the configured one, of 32 bits where
/// none is configured; and there is none, with an error that names it in base ten,
/// unless it is 15, 16, 24 or 32 bits.
pub proof fn law_configured_depth_is_confirmed(bitmap: Option<BitmapConfig>, depth: u32)
    requires
        depth == match bitmap {
            Some(bitmap) => bitmap.color_depth,
            None => 32,
        },
    ensures
        depth == 15 || depth == 16 || depth == 24 || depth == 32 ==> (super::depth_of(bitmap) matches Ok(
            confirmed,
        ) && confirmed == depth),
        depth != 15 && depth != 16 && depth != 24 && depth != 32 ==> super::depth_of(bitmap)
            == Err::<u16, ErrorReport>(
            ErrorReport::reason(
                "create client confirm active"@,
                "unsupported bitmap color depth: "@ + crate::text::decimal_text(depth as nat),
            ),
        ),
{
}

/// The fragmented-update sets that the client keeps are the server's, all of them and
/// in order: the `j`th is the server's set `from[j]`, as it is.
pub proof fn law_fragmented_update_sets_are_kept(sets: Seq<CapabilitySet>) -> (from: Seq<int>)
    ensures
        super::retained(sets).len() == from.len(),
        forall|j: int, l: int| 0 <= j < l < from.len() ==> from[j] < from[l],
        forall|j: int|
            #![trigger from[j]]
            0 <= j < from.len() ==> 0 <= from[j] < sets.len() && sets[from[j]] is MultiFragmentUpdate
                && super::retained(sets)[j] == (ClientCapability::MultiFragmentUpdate {
                max_request_size: sets[from[j]]->max_request_size,
            }),
        forall|i: int|
            0 <= i < sets.len() && (#[trigger] sets[i]) is MultiFragmentUpdate ==> from.contains(i),
    decreases sets.len(),
{
    if sets.len() == 0 {
        Seq::empty()
    } else {
        let rest = sets.drop_last();
        let last = sets.len() - 1;
        let earlier = law_fragmented_update_sets_are_kept(rest);
        let from = if sets.last() is MultiFragmentUpdate {
            earlier.push(last)
        } else {
            earlier
        };
        assert forall|j: int|
            #![trigger from[j]]
            0 <= j < from.len() implies 0 <= from[j] < sets.len()
            && sets[from[j]] is MultiFragmentUpdate && super::retained(sets)[j] == (
        ClientCapability::MultiFragmentUpdate {
            max_request_size: sets[from[j]]->max_request_size,
        }) by {
            if j < earlier.len() {
                assert(from[j] == earlier[j]);
                assert(rest[earlier[j]] == sets[from[j]]);
                assert(super::retained(sets)[j] == super::retained(rest)[j]);
            }
        }
        assert forall|j: int, l: int| 0 <= j < l < from.len() implies from[j] < from[l] by {
            assert(from[j] == earlier[j]);
            if l < earlier.len() {
                assert(from[l] == earlier[l]);
            }
        }
        assert forall|i: int|
            0 <= i < sets.len() && (#[trigger] sets[i]) is MultiFragmentUpdate implies from.contains(
            i,
        ) by {
            if i < last {
                assert(rest[i] == sets[i]);
                assert(earlier.contains(i));
                let j = choose|j: int| 0 <= j < earlier.len() && earlier[j] == i;
                assert(from[j] == i);
            } else {
                assert(from[earlier.len() as int] == last);
            }
        }
        from
    }
}

/// What the client confirms, set by set: behind the `n` sets that it keeps of the
/// server's, its platform, the settled desktop size with the colour depth and what the
/// configuration allows of bitmaps, its keyboard and its codecs, among sets that say
/// nothing of the configuration; then an update size of 8 MiB where it kept none, what
/// it confirms of remote programs, and the server's list of windows as it is.
#[verifier::rlimit(40)]
pub proof fn law_client_confirms(
    config: Config,
    sets: Seq<CapabilitySet>,
    depth: u16,
    desktop_size: DesktopSize,
    rail: Option<Rail>,
    window_list: Option<WindowList>,
    n: int,
)
    requires
        n == super::retained(sets).len(),
    ensures
        ({
            let all = super::confirmed_sets(config, sets, depth, desktop_size, rail, window_list);
            let own: int = if n == 0 {
                1
            } else {
                0
            };
            let programs: int = if rail is Some {
                1
            } else {
                0
            };
            let windows: int = if window_list is Some {
                1
            } else {
                0
            };
            &&& all.len() == n + 15 + own + programs + windows
            &&& all.take(n) == super::retained(sets)
            &&& all[n] == (ClientCapability::General {
                platform: config.platform,
                extra_flags: 0x0401,
            })
            &&& all[n + 1] == (ClientCapability::Bitmap {
                pref_bits_per_pix: depth,
                desktop_width: desktop_size.width,
                desktop_height: desktop_size.height,
                desktop_resize_flag: true,
                drawing_flags: if config.bitmap is Some && config.bitmap->0.lossy_compression {
                    0x0E
                } else {
                    0x08
                },
            })
            &&& all[n + 2] == (ClientCapability::Order {
                order_flags: 0x000A,
                order_support_ex_flags: 0,
                desktop_save_size: 0,
                text_ansi_code_page: 0,
            })
            &&& all[n + 3] == (ClientCapability::BitmapCache { entries: 0, max_cell_size: 0 })
            &&& all[n + 4] == (ClientCapability::Input {
                input_flags: 0xFFFF,
                keyboard_layout: 0,
                keyboard_type: config.keyboard_type,
                keyboard_subtype: config.keyboard_subtype,
                keyboard_function_key: config.keyboard_functional_keys_count,
                keyboard_ime_filename: config.ime_file_name,
            })
            &&& all[n + 5] == (ClientCapability::Pointer {
                color_pointer_cache_size: 32,
                pointer_cache_size: 32,
            })
            &&& all[n + 6] == (ClientCapability::Brush { support_level: BrushSupportLevel::Default })
            &&& all[n + 7] == (ClientCapability::GlyphCache {
                entries: 0,
                max_cell_size: 0,
                support_level: GlyphSupportLevel::NotSupported,
            })
            &&& all[n + 8] == (ClientCapability::OffscreenBitmapCache {
                is_supported: false,
                cache_size: 0,
                cache_entries: 0,
            })
            &&& all[n + 9] == (ClientCapability::VirtualChannel { flags: 0, chunk_size: 0 })
            &&& all[n + 10] == (ClientCapability::Sound { flags: 0 })
            &&& all[n + 11] == (ClientCapability::LargePointer { flags: 3 })
            &&& all[n + 12] == (ClientCapability::SurfaceCommands { flags: 0x52 })
            &&& all[n + 13] is BitmapCodecs
            &&& config.bitmap is Some ==> all[n + 13] == ClientCapability::BitmapCodecs(
                config.bitmap->0.codecs,
            )
            &&& config.bitmap is None ==> all[n + 13] == ClientCapability::BitmapCodecs(
                super::super::wire::announce::client_codecs_of(Seq::empty())->0,
            )
            &&& all[n + 14] == (ClientCapability::FrameAcknowledge {
                max_unacknowledged_frame_count: 20,
            })
            &&& n == 0 ==> all[15] == (ClientCapability::MultiFragmentUpdate {
                max_request_size: 8_388_608,
            })
            &&& rail is Some ==> all[n + 15 + own] == ClientCapability::Rail(rail->0)
            &&& window_list is Some ==> all[n + 15 + own + programs]
                == ClientCapability::WindowList(window_list->0)
        }),
{
    let all = super::confirmed_sets(config, sets, depth, desktop_size, rail, window_list);
    let kept = super::retained(sets);
    let client = super::client_sets(config, depth, desktop_size);
    assert(client.len() == 15);
    assert(all.take(n) =~= kept);
    assert forall|i: int| 0 <= i < 15 implies #[trigger] all[n + i] == client[i] by {}
    assert(all[n + 0] == client[0]);
}

/// The Confirm Active PDU comes from the server's channel under the client's name. What
/// remote programs lack is reported before a colour depth that no bitmap can have.
pub proof fn law_confirm_answers_the_server(
    config: Config,
    sets: Seq<CapabilitySet>,
    desktop_size: DesktopSize,
    window_list: Option<WindowList>,
)
    ensures
        ({
            let rail = super::rail_of(
                config.remote_application_mode,
                config.rail_support_level,
                sets,
                window_list,
            );
            let depth = super::depth_of(config.bitmap);
            let confirm = super::confirm_of(config, sets, desktop_size, window_list);
            &&& rail is Err ==> confirm is Err && confirm->Err_0 == rail->Err_0
            &&& rail is Ok && depth is Err ==> confirm is Err && confirm->Err_0 == depth->Err_0
            &&& rail is Ok && depth is Ok ==> confirm is Ok && {
                &&& confirm->Ok_0.originator_id == 1002
                &&& confirm->Ok_0.source_descriptor == "IRONRDP"@
                &&& confirm->Ok_0.capability_sets == super::confirmed_sets(
                    config,
                    sets,
                    depth->Ok_0,
                    desktop_size,
                    rail->Ok_0,
                    window_list,
                )
            }
        }),
{
}

} // verus!
