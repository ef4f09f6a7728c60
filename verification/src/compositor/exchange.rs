//! What a cache import offer carries, and what its reply moves into the cache.
use vstd::prelude::*;

use super::model::{Composition, Offer, OfferedState, StagedState};

verus! {

/// The tile has pixels, and four bytes for each.
pub open spec fn is_whole(tile: OfferedState) -> bool {
    tile.width > 0 && tile.height > 0 && tile.data.len() == 4 * (tile.width * tile.height)
}

/// The tile repeats the key of an earlier whole one.
pub open spec fn repeats(tiles: Seq<OfferedState>, i: int) -> bool {
    exists|e: int|
        0 <= e < i && is_whole(#[trigger] tiles[e]) && tiles[e].cache_key == tiles[i].cache_key
}

/// Four times a product is nothing only if a factor is.
proof fn lemma_whole(tile: OfferedState)
    ensures
        tile.well_formed() <==> is_whole(tile),
        tile.len() == 4 * (tile.width * tile.height),
{
    assert(4 * tile.width * tile.height == 4 * (tile.width * tile.height)) by (nonlinear_arith);
    assert(tile.width * tile.height != 0 <==> tile.width > 0 && tile.height > 0)
        by (nonlinear_arith);
}

/// What an offer carries: in the order of the tiles, those that are whole and repeat
/// no key, up to the tile that ends it. Entry `j` announces tile `from[j]` by its key
/// and its size in bytes, and that tile, as it is, stands behind the entry. A tile
/// ends an offer only where the offer is full, or where its bytes would pass what an
/// offer may carry or what the budget allows; every tile before the end is carried
/// unless it is not whole or repeats a key.
#[verifier::rlimit(40)]
pub proof fn law_offer_carries_whole_tiles_in_order(
    before: Composition,
    tiles: Seq<OfferedState>,
) -> (from: Seq<int>)
    requires
        before.well_formed(),
    ensures
        ({
            let offer = before.offer(tiles);
            let after = offer.composition;
            &&& offer.entries.len() == from.len()
            &&& after.staged.len() == from.len()
            &&& forall|j: int|
                0 <= j < from.len() ==> 0 <= #[trigger] from[j] < tiles.len() && is_whole(
                    tiles[from[j]],
                ) && !repeats(tiles, from[j])
            &&& forall|j: int, l: int| 0 <= j < l < from.len() ==> from[j] < from[l]
            &&& forall|j: int|
                #![trigger offer.entries[j]]
                #![trigger after.staged[j]]
                0 <= j < from.len() ==> {
                    let tile = tiles[from[j]];
                    &&& offer.entries[j].cache_key == tile.cache_key
                    &&& offer.entries[j].bitmap_len == 4 * (tile.width * tile.height)
                    &&& after.staged[j] is Some
                    &&& after.staged[j]->0.cache_key == tile.cache_key
                    &&& after.staged[j]->0.tile.width == tile.width
                    &&& after.staged[j]->0.tile.height == tile.height
                    &&& after.staged[j]->0.tile.data == tile.data
                }
            &&& !offer.ended ==> forall|i: int|
                0 <= i < tiles.len() && is_whole(#[trigger] tiles[i]) && !repeats(tiles, i)
                    ==> from.contains(i)
            &&& offer.ended ==> exists|e: int|
                0 <= e < tiles.len() && ends(offer, #[trigger] tiles[e]) && (forall|i: int|
                    0 <= i < e && is_whole(#[trigger] tiles[i]) && !repeats(tiles, i)
                        ==> from.contains(i)) && (forall|j: int|
                    0 <= j < from.len() ==> #[trigger] from[j] < e)
            &&& after.allocated == before.allocated - before.staged_bytes() + after.staged_bytes()
            &&& after.surfaces == before.surfaces
            &&& after.cache == before.cache
            &&& after.frame == before.frame
            &&& after.ready == before.ready
            &&& after.requested_width == before.requested_width
            &&& after.requested_height == before.requested_height
        }),
    decreases tiles.len(),
{
    before.law_offer(tiles);
    if tiles.len() == 0 {
        let cleared = before.without_staged();
        assert(cleared.staged.map_values(
            |e: Option<StagedState>| super::model::staged_len(e),
        ).len() == 0);
        Seq::empty()
    } else {
        let rest = tiles.drop_last();
        let tile = tiles.last();
        let last = tiles.len() - 1;
        let middle = before.offer(rest);
        let offer = before.offer(tiles);
        let after = offer.composition;
        before.law_offer(rest);
        let earlier = law_offer_carries_whole_tiles_in_order(before, rest);
        lemma_whole(tile);
        assert(offer == middle.considered(tile));
        let taken = offer.entries.len() > middle.entries.len();
        let from = if taken {
            earlier.push(last)
        } else {
            earlier
        };
        assert(tiles[last] == tile);
        assert forall|i: int| 0 <= i < last implies (repeats(tiles, i) <==> repeats(rest, i)) by {
            if repeats(tiles, i) {
                let e = choose|e: int|
                    0 <= e < i && is_whole(#[trigger] tiles[e]) && tiles[e].cache_key
                        == tiles[i].cache_key;
                assert(rest[e] == tiles[e]);
            }
            if repeats(rest, i) {
                let e = choose|e: int|
                    0 <= e < i && is_whole(#[trigger] rest[e]) && rest[e].cache_key
                        == rest[i].cache_key;
                assert(rest[e] == tiles[e]);
            }
        }
        if taken {
            middle.composition.lemma_staged_pushed(after.staged.last());
            assert(!repeats(tiles, last)) by {
                if repeats(tiles, last) {
                    let e = choose|e: int|
                        0 <= e < last && is_whole(#[trigger] tiles[e]) && tiles[e].cache_key
                            == tile.cache_key;
                    lemma_offered_key(before, rest, e);
                }
            }
        }
        assert forall|j: int| 0 <= j < from.len() implies 0 <= #[trigger] from[j] < tiles.len()
            && is_whole(tiles[from[j]]) && !repeats(tiles, from[j]) by {
            if j < earlier.len() {
                assert(from[j] == earlier[j]);
                assert(rest[earlier[j]] == tiles[earlier[j]]);
            }
        }
        assert forall|j: int, l: int| 0 <= j < l < from.len() implies from[j] < from[l] by {
            assert(from[j] == earlier[j]);
            if l < earlier.len() {
                assert(from[l] == earlier[l]);
            }
        }
        assert forall|j: int|
            #![trigger offer.entries[j]]
            #![trigger after.staged[j]]
            0 <= j < from.len() implies {
            let tile = tiles[from[j]];
            &&& offer.entries[j].cache_key == tile.cache_key
            &&& offer.entries[j].bitmap_len == 4 * (tile.width * tile.height)
            &&& after.staged[j] is Some
            &&& after.staged[j]->0.cache_key == tile.cache_key
            &&& after.staged[j]->0.tile.width == tile.width
            &&& after.staged[j]->0.tile.height == tile.height
            &&& after.staged[j]->0.tile.data == tile.data
        } by {
            if j < earlier.len() {
                assert(from[j] == earlier[j]);
                assert(rest[earlier[j]] == tiles[earlier[j]]);
                assert(offer.entries[j] == middle.entries[j]);
                assert(after.staged[j] == middle.composition.staged[j]);
            } else {
                assert(from[j] == last);
                assert(tile.len() <= u32::MAX);
            }
        }
        assert forall|i: int|
            0 <= i < tiles.len() && is_whole(#[trigger] tiles[i]) && !repeats(tiles, i)
                && !offer.ended implies from.contains(i) by {
            if i < last {
                assert(rest[i] == tiles[i]);
                assert(earlier.contains(i));
                let j = choose|j: int| 0 <= j < earlier.len() && earlier[j] == i;
                assert(from[j] == i);
            } else {
                if middle.offers(tile.cache_key) {
                    let j = choose|j: int|
                        0 <= j < middle.entries.len() && #[trigger] middle.entries[j].cache_key
                            == tile.cache_key;
                    let e = earlier[j];
                    assert(rest[e] == tiles[e]);
                    assert(is_whole(tiles[e]));
                    assert(repeats(tiles, last));
                }
                assert(from[earlier.len() as int] == last);
            }
        }
        if offer.ended {
            if middle.ended {
                let e = choose|e: int|
                    0 <= e < rest.len() && ends(middle, #[trigger] rest[e]) && (forall|i: int|
                        0 <= i < e && is_whole(#[trigger] rest[i]) && !repeats(rest, i)
                            ==> earlier.contains(i)) && (forall|j: int|
                        0 <= j < earlier.len() ==> #[trigger] earlier[j] < e);
                assert(rest[e] == tiles[e]);
                assert forall|i: int|
                    0 <= i < e && is_whole(#[trigger] tiles[i]) && !repeats(tiles, i) implies
                from.contains(i) by {
                    assert(rest[i] == tiles[i]);
                }
                assert(ends(offer, tiles[e]));
            } else {
                assert(ends(offer, tiles[last]));
                assert forall|i: int|
                    0 <= i < last && is_whole(#[trigger] tiles[i]) && !repeats(tiles, i) implies
                from.contains(i) by {
                    assert(rest[i] == tiles[i]);
                }
            }
        }
        from
    }
}

/// The tile ends the offer: the offer is full, or the tile is whole and its bytes
/// would pass what an offer may carry or what the budget allows.
pub open spec fn ends(offer: Offer, tile: OfferedState) -> bool {
    let len = 4 * (tile.width * tile.height);
    offer.entries.len() == 5461 || is_whole(tile) && (offer.composition.staged_bytes() + len
        > 104_857_600 || offer.composition.allocated + len > 268_435_456)
}

/// An offer that has not ended names the key of every whole tile.
proof fn lemma_offered_key(before: Composition, tiles: Seq<OfferedState>, e: int)
    requires
        before.well_formed(),
        !before.offer(tiles).ended,
        0 <= e < tiles.len(),
        is_whole(tiles[e]),
    ensures
        before.offer(tiles).offers(tiles[e].cache_key),
{
    lemma_whole(tiles[e]);
    before.law_unended_offer_carries_every_tile(tiles, e);
}

/// The reply's answer for offer entry `i` finds a tile: it names a slot, the entry's
/// tile is still staged, and no earlier answer that found a tile named that slot.
pub open spec fn finds_tile(before: Composition, slots: Seq<u16>, i: int) -> bool {
    &&& slots[i] != 0
    &&& i < before.staged.len()
    &&& before.staged[i] is Some
    &&& forall|e: int|
        0 <= e < i && e < before.staged.len() && #[trigger] before.staged[e] is Some ==> slots[e]
            != slots[i]
}

/// One of these answers names the slot.
pub open spec fn named(slots: Seq<u16>, answers: Seq<int>, slot: u16) -> bool {
    exists|j: int| 0 <= j < answers.len() && slots[#[trigger] answers[j]] == slot
}

/// What a reply moves: in the order of its answers, exactly the tiles of those that
/// find one, each into the slot it names. `from[j]` is the answer that moved the
/// `j`th, and `without[l]` the answer whose slot is the `l`th reported unfilled: one
/// that names a slot and finds no tile. A slot that took a tile holds it as it was
/// offered; every other slot is what it was.
#[verifier::rlimit(40)]
pub proof fn law_reply_moves_the_named_tiles(before: Composition, slots: Seq<u16>) -> (answers: (
    Seq<int>,
    Seq<int>,
))
    requires
        before.well_formed(),
    ensures
        ({
            let import = before.import(slots);
            let (from, without) = answers;
            let after = before.imported(slots);
            &&& import.imported.len() == from.len()
            &&& import.unfilled.len() == without.len()
            &&& forall|j: int, l: int| 0 <= j < l < from.len() ==> from[j] < from[l]
            &&& forall|j: int, l: int| 0 <= j < l < without.len() ==> without[j] < without[l]
            &&& forall|j: int|
                #![trigger from[j]]
                #![trigger import.imported[j]]
                0 <= j < from.len() ==> {
                    &&& 0 <= from[j] < slots.len()
                    &&& finds_tile(before, slots, from[j])
                    &&& import.imported[j] == (
                        before.staged[from[j]]->0.cache_key,
                        slots[from[j]],
                    )
                    &&& after.cache.contains_key(slots[from[j]])
                    &&& after.cache[slots[from[j]]] == before.staged[from[j]]->0.tile
                }
            &&& forall|l: int|
                #![trigger without[l]]
                #![trigger import.unfilled[l]]
                0 <= l < without.len() ==> {
                    &&& 0 <= without[l] < slots.len()
                    &&& slots[without[l]] != 0
                    &&& !finds_tile(before, slots, without[l])
                    &&& import.unfilled[l] == slots[without[l]]
                }
            &&& forall|i: int|
                0 <= i < slots.len() && #[trigger] slots[i] != 0 ==> (finds_tile(before, slots, i)
                    ==> from.contains(i)) && (!finds_tile(before, slots, i) ==> without.contains(i))
            &&& forall|slot: u16|
                !named(slots, from, slot) ==> (#[trigger] after.cache.contains_key(slot)
                    <==> before.cache.contains_key(slot)) && (before.cache.contains_key(slot)
                    ==> after.cache[slot] == before.cache[slot])
            &&& after.staged.len() == 0
            &&& after.surfaces == before.surfaces
            &&& after.frame == before.frame
            &&& after.ready == before.ready
            &&& after.requested_width == before.requested_width
            &&& after.requested_height == before.requested_height
        }),
{
    before.law_import(slots);
    before.law_imported(slots);
    lemma_answers(before, slots)
}

/// The answers of a reply, one by one.
#[verifier::rlimit(40)]
proof fn lemma_answers(before: Composition, slots: Seq<u16>) -> (answers: (Seq<int>, Seq<int>))
    requires
        before.well_formed(),
    ensures
        ({
            let import = before.import(slots);
            let (from, without) = answers;
            let after = import.composition;
            &&& import.imported.len() == from.len()
            &&& import.unfilled.len() == without.len()
            &&& forall|j: int, l: int| 0 <= j < l < from.len() ==> from[j] < from[l]
            &&& forall|j: int, l: int| 0 <= j < l < without.len() ==> without[j] < without[l]
            &&& forall|j: int|
                #![trigger from[j]]
                #![trigger import.imported[j]]
                0 <= j < from.len() ==> {
                    &&& 0 <= from[j] < slots.len()
                    &&& finds_tile(before, slots, from[j])
                    &&& import.imported[j] == (
                        before.staged[from[j]]->0.cache_key,
                        slots[from[j]],
                    )
                    &&& after.cache.contains_key(slots[from[j]])
                    &&& after.cache[slots[from[j]]] == before.staged[from[j]]->0.tile
                }
            &&& forall|l: int|
                #![trigger without[l]]
                #![trigger import.unfilled[l]]
                0 <= l < without.len() ==> {
                    &&& 0 <= without[l] < slots.len()
                    &&& slots[without[l]] != 0
                    &&& !finds_tile(before, slots, without[l])
                    &&& import.unfilled[l] == slots[without[l]]
                }
            &&& forall|i: int|
                0 <= i < slots.len() && #[trigger] slots[i] != 0 ==> (finds_tile(before, slots, i)
                    ==> from.contains(i)) && (!finds_tile(before, slots, i) ==> without.contains(i))
            &&& forall|slot: u16|
                !named(slots, from, slot) ==> (#[trigger] after.cache.contains_key(slot)
                    <==> before.cache.contains_key(slot)) && (before.cache.contains_key(slot)
                    ==> after.cache[slot] == before.cache[slot])
            &&& after.frame == before.frame
        }),
    decreases slots.len(),
{
    if slots.len() == 0 {
        (Seq::empty(), Seq::empty())
    } else {
        let rest = slots.drop_last();
        let slot = slots.last();
        let last = slots.len() - 1;
        let middle = before.import(rest);
        let import = before.import(slots);
        let (earlier, left_out) = lemma_answers(before, rest);
        before.law_import(rest);
        assert(import == middle.answered(last, slot));
        assert(slots[last] == slot);
        let from = if import.imported.len() > middle.imported.len() {
            earlier.push(last)
        } else {
            earlier
        };
        let without = if import.unfilled.len() > middle.unfilled.len() {
            left_out.push(last)
        } else {
            left_out
        };
        assert forall|i: int| 0 <= i < last implies (finds_tile(before, slots, i) <==> finds_tile(
            before,
            rest,
            i,
        )) by {
            assert(slots[i] == rest[i]);
            assert forall|e: int|
                0 <= e < i && e < before.staged.len() && #[trigger] before.staged[e] is Some implies
            slots[e] == rest[e] by {}
        }
        let staged = last < before.staged.len() && before.staged[last] is Some;
        assert(last < before.staged.len() ==> middle.composition.staged[last]
            == before.staged[last]);
        assert(slot != 0 && staged ==> (middle.assigned(slot) <==> !finds_tile(before, slots, last)))
            by {
            if slot != 0 && staged {
                if middle.assigned(slot) {
                    let j = choose|j: int|
                        0 <= j < middle.imported.len() && #[trigger] middle.imported[j].1 == slot;
                    let e = earlier[j];
                    assert(finds_tile(before, rest, e));
                    assert(rest[e] == slot && slots[e] == rest[e]);
                    assert(before.staged[e] is Some);
                } else {
                    assert forall|e: int|
                        0 <= e < last && e < before.staged.len() && #[trigger] before.staged[e] is Some
                        implies slots[e] != slots[last] by {
                        if slots[e] == slot {
                            lemma_first_finds(before, rest, e);
                            let f = choose|f: int|
                                0 <= f <= e && #[trigger] rest[f] == rest[e] && finds_tile(
                                    before,
                                    rest,
                                    f,
                                );
                            assert(rest[f] != 0);
                            assert(earlier.contains(f));
                            let j = choose|j: int| 0 <= j < earlier.len() && earlier[j] == f;
                            assert(middle.imported[j].1 == slot);
                        }
                    }
                }
            }
        }
        assert forall|j: int, l: int| 0 <= j < l < from.len() implies from[j] < from[l] by {
            assert(from[j] == earlier[j]);
            if l < earlier.len() {
                assert(from[l] == earlier[l]);
            }
        }
        assert forall|j: int, l: int| 0 <= j < l < without.len() implies without[j] < without[l] by {
            assert(without[j] == left_out[j]);
            if l < left_out.len() {
                assert(without[l] == left_out[l]);
            }
        }
        assert forall|j: int|
            #![trigger from[j]]
            #![trigger import.imported[j]]
            0 <= j < from.len() implies {
            &&& 0 <= from[j] < slots.len()
            &&& finds_tile(before, slots, from[j])
            &&& import.imported[j] == (before.staged[from[j]]->0.cache_key, slots[from[j]])
            &&& import.composition.cache.contains_key(slots[from[j]])
            &&& import.composition.cache[slots[from[j]]] == before.staged[from[j]]->0.tile
        } by {
            if j < earlier.len() {
                assert(from[j] == earlier[j]);
                assert(rest[earlier[j]] == slots[earlier[j]]);
                assert(import.imported[j] == middle.imported[j]);
                assert(middle.imported[j].1 == slots[earlier[j]]);
                assert(middle.assigned(slots[earlier[j]]));
            }
        }
        assert forall|l: int|
            #![trigger without[l]]
            #![trigger import.unfilled[l]]
            0 <= l < without.len() implies {
            &&& 0 <= without[l] < slots.len()
            &&& slots[without[l]] != 0
            &&& !finds_tile(before, slots, without[l])
            &&& import.unfilled[l] == slots[without[l]]
        } by {
            if l < left_out.len() {
                assert(without[l] == left_out[l]);
                assert(rest[left_out[l]] == slots[left_out[l]]);
                assert(import.unfilled[l] == middle.unfilled[l]);
            }
        }
        assert forall|i: int| 0 <= i < slots.len() && #[trigger] slots[i] != 0 implies (finds_tile(
            before,
            slots,
            i,
        ) ==> from.contains(i)) && (!finds_tile(before, slots, i) ==> without.contains(i)) by {
            if i < last {
                assert(rest[i] == slots[i]);
                if finds_tile(before, slots, i) {
                    assert(earlier.contains(i));
                    let j = choose|j: int| 0 <= j < earlier.len() && earlier[j] == i;
                    assert(from[j] == i);
                } else {
                    assert(left_out.contains(i));
                    let l = choose|l: int| 0 <= l < left_out.len() && left_out[l] == i;
                    assert(without[l] == i);
                }
            } else if finds_tile(before, slots, last) {
                assert(from[earlier.len() as int] == last);
            } else {
                assert(without[left_out.len() as int] == last);
            }
        }
        assert forall|other: u16| !named(slots, from, other) implies (
        #[trigger] import.composition.cache.contains_key(other) <==> before.cache.contains_key(
            other,
        )) && (before.cache.contains_key(other) ==> import.composition.cache[other]
            == before.cache[other]) by {
            if named(rest, earlier, other) {
                let j = choose|j: int|
                    0 <= j < earlier.len() && rest[#[trigger] earlier[j]] == other;
                assert(from[j] == earlier[j]);
                assert(slots[from[j]] == other);
            }
            assert(middle.composition.cache.contains_key(other) <==> before.cache.contains_key(
                other,
            ));
            if import.imported.len() > middle.imported.len() {
                assert(from[earlier.len() as int] == last);
            }
        }
        (from, without)
    }
}

/// The first of the answers that name a staged entry's slot, with a tile, finds it.
proof fn lemma_first_finds(before: Composition, slots: Seq<u16>, e: int)
    requires
        0 <= e < slots.len(),
        e < before.staged.len(),
        before.staged[e] is Some,
        slots[e] != 0,
    ensures
        exists|f: int|
            0 <= f <= e && #[trigger] slots[f] == slots[e] && finds_tile(before, slots, f),
    decreases e,
{
    if !finds_tile(before, slots, e) {
        let d = choose|d: int|
            0 <= d < e && d < before.staged.len() && #[trigger] before.staged[d] is Some && slots[d]
                == slots[e];
        lemma_first_finds(before, slots, d);
    } else {
        assert(slots[e] == slots[e]);
    }
}

} // verus!
