//! Flattening of a finalized accumulator into the output blobs.
//!
//! The tick-indexed blob is the concatenation of all player record
//! buffers in slot order followed by all building record buffers, with no
//! length prefixes: lengths are derived externally from the player and
//! building counts and the known tick count.  The kill log is surfaced as
//! parallel per-kill arrays indexable by kill id.

use vstd::prelude::*;

use crate::state::append_bytes;
use crate::state::ParsedDemo;
use crate::state::PlayerInfo;

verus! {

/// The concatenation of all buffers, in slot order.
pub open spec fn concat_bufs(bufs: Seq<Vec<u8>>) -> Seq<u8>
    decreases bufs.len(),
{
    if bufs.len() == 0 {
        Seq::empty()
    } else {
        concat_bufs(bufs.drop_last()) + bufs.last()@
    }
}

/// The flat per-round output handed to the presentation layer: the
/// tick-indexed record blob, the per-kill arrays, and the per-player
/// identity list.
#[derive(Debug)]
pub struct FlatState {
    /// Number of player record buffers concatenated into `data`.
    pub player_count: usize,
    /// Number of building record buffers concatenated into `data`.
    pub building_count: usize,
    /// All player buffers in slot order, then all building buffers.
    pub data: Vec<u8>,
    /// The tick of each kill, indexable by kill id.
    pub kill_ticks: Vec<u32>,
    /// The attacker of each kill, truncated to a byte.
    pub attackers: Vec<u8>,
    /// The assister of each kill, truncated to a byte.
    pub assisters: Vec<u8>,
    /// The victim of each kill, truncated to a byte.
    pub victims: Vec<u8>,
    /// The weapon name of each kill.
    pub weapons: Vec<String>,
    /// Per-player identity metadata, parallel to the player slots.
    pub player_info: Vec<PlayerInfo>,
}

impl FlatState {
    /// Flattens a finalized accumulator: concatenates the player buffers
    /// then the building buffers into one blob, and spreads the kill log
    /// into its parallel arrays.
    #[verifier::loop_isolation(false)]
    pub fn new(parsed: ParsedDemo) -> (r: FlatState)
        ensures
            r.player_count == parsed.players@.len(),
            r.building_count == parsed.buildings@.len(),
            r.data@ == concat_bufs(parsed.players@) + concat_bufs(parsed.buildings@),
            r.kill_ticks@.len() == parsed.kills@.len(),
            r.attackers@.len() == parsed.kills@.len(),
            r.assisters@.len() == parsed.kills@.len(),
            r.victims@.len() == parsed.kills@.len(),
            r.weapons@.len() == parsed.kills@.len(),
            forall|i: int|
                0 <= i < parsed.kills@.len() ==> #[trigger] r.kill_ticks@[i]
                    == parsed.kills@[i].tick,
            forall|i: int|
                0 <= i < parsed.kills@.len() ==> #[trigger] r.attackers@[i]
                    == parsed.kills@[i].attacker_id as u8,
            forall|i: int|
                0 <= i < parsed.kills@.len() ==> #[trigger] r.assisters@[i]
                    == parsed.kills@[i].assister_id as u8,
            forall|i: int|
                0 <= i < parsed.kills@.len() ==> #[trigger] r.victims@[i]
                    == parsed.kills@[i].victim_id as u8,
            forall|i: int|
                0 <= i < parsed.kills@.len() ==> #[trigger] r.weapons@[i]
                    == parsed.kills@[i].weapon,
            r.player_info == parsed.player_info,
    {
        let player_count = parsed.players.len();
        let building_count = parsed.buildings.len();

        let mut data: Vec<u8> = Vec::new();
        let mut i: usize = 0;
        while i < parsed.players.len()
            invariant
                i <= parsed.players@.len(),
                data@ == concat_bufs(parsed.players@.subrange(0, i as int)),
            decreases parsed.players@.len() - i,
        {
            append_bytes(&mut data, parsed.players[i].as_slice());
            proof {
                assert(parsed.players@.subrange(0, i + 1 as int).drop_last() =~= parsed.players@
                    .subrange(0, i as int));
                assert(parsed.players@.subrange(0, i + 1 as int).last() == parsed.players@[
                    i as int]);
            }
            i = i + 1;
        }
        proof {
            assert(parsed.players@.subrange(0, parsed.players@.len() as int) =~= parsed.players@);
        }
        let mut i: usize = 0;
        while i < parsed.buildings.len()
            invariant
                i <= parsed.buildings@.len(),
                data@ == concat_bufs(parsed.players@) + concat_bufs(
                    parsed.buildings@.subrange(0, i as int),
                ),
            decreases parsed.buildings@.len() - i,
        {
            append_bytes(&mut data, parsed.buildings[i].as_slice());
            proof {
                assert(parsed.buildings@.subrange(0, i + 1 as int).drop_last() =~= parsed
                    .buildings@.subrange(0, i as int));
                assert(parsed.buildings@.subrange(0, i + 1 as int).last() == parsed.buildings@[
                    i as int]);
                assert((concat_bufs(parsed.players@) + concat_bufs(
                    parsed.buildings@.subrange(0, i as int),
                )) + parsed.buildings@[i as int]@ =~= concat_bufs(parsed.players@) + (concat_bufs(
                    parsed.buildings@.subrange(0, i as int),
                ) + parsed.buildings@[i as int]@));
            }
            i = i + 1;
        }
        proof {
            assert(parsed.buildings@.subrange(0, parsed.buildings@.len() as int) =~= parsed
                .buildings@);
            assert(concat_bufs(parsed.players@.subrange(0, 0)) =~= Seq::<u8>::empty());
            assert(Seq::<u8>::empty() + concat_bufs(parsed.buildings@.subrange(0, 0)) =~= concat_bufs(
                parsed.buildings@.subrange(0, 0),
            ));
        }
        let mut kill_ticks: Vec<u32> = Vec::new();
        let mut attackers: Vec<u8> = Vec::new();
        let mut assisters: Vec<u8> = Vec::new();
        let mut victims: Vec<u8> = Vec::new();
        let mut weapons: Vec<String> = Vec::new();
        let mut i: usize = 0;
        while i < parsed.kills.len()
            invariant
                i <= parsed.kills@.len(),
                kill_ticks@.len() == i,
                attackers@.len() == i,
                assisters@.len() == i,
                victims@.len() == i,
                weapons@.len() == i,
                forall|j: int|
                    0 <= j < i ==> #[trigger] kill_ticks@[j] == parsed.kills@[j].tick,
                forall|j: int|
                    0 <= j < i ==> #[trigger] attackers@[j] == parsed.kills@[j].attacker_id as u8,
                forall|j: int|
                    0 <= j < i ==> #[trigger] assisters@[j] == parsed.kills@[j].assister_id as u8,
                forall|j: int|
                    0 <= j < i ==> #[trigger] victims@[j] == parsed.kills@[j].victim_id as u8,
                forall|j: int| 0 <= j < i ==> #[trigger] weapons@[j] == parsed.kills@[j].weapon,
            decreases parsed.kills@.len() - i,
        {
            let kill = &parsed.kills[i];
            kill_ticks.push(kill.tick);
            attackers.push(#[verifier::truncate] (kill.attacker_id as u8));
            assisters.push(#[verifier::truncate] (kill.assister_id as u8));
            victims.push(#[verifier::truncate] (kill.victim_id as u8));
            weapons.push(kill.weapon.clone());
            i = i + 1;
        }
        FlatState {
            player_count,
            building_count,
            data,
            kill_ticks,
            attackers,
            assisters,
            victims,
            weapons,
            player_info: parsed.player_info,
        }
    }
}

} // verus!
