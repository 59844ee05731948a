//! Tick-aligned accumulation of per-entity record buffers.
//!
//! The accumulator consumes one world snapshot per call, replays it once
//! per elapsed tick, and appends one packed record per tracked entity per
//! replayed tick into that entity's growable byte buffer.  An entity first
//! seen after tick 0 has its buffer backfilled with zero bytes so that all
//! buffers stay addressable by the same global tick counter.

use vstd::prelude::*;

use crate::codec::pack_building_spec;
use crate::codec::pack_player_spec;
use crate::codec::pack_projectile_spec;
use crate::codec::Angle;
use crate::codec::BuildingState;
use crate::codec::Class;
use crate::codec::PlayerState;
use crate::codec::ProjectileState;
use crate::codec::QuantizedXY;
use crate::codec::Team;
use crate::events::reduce_events;
use crate::events::reduce_events_spec;
use crate::events::RawGameEvent;
use crate::events::SearchableEvent;

verus! {

/// A sequence of `n` zero bytes.
pub open spec fn zero_bytes(n: int) -> Seq<u8> {
    Seq::new(n as nat, |i: int| 0u8)
}

/// A buffer padded with zero bytes up to `target` length.
pub open spec fn padded_to(b: Seq<u8>, target: int) -> Seq<u8>
    recommends
        b.len() <= target,
{
    b + zero_bytes(target - b.len())
}

/// `rec` repeated `n` times, one copy per replayed tick.
pub open spec fn repeat_bytes(rec: Seq<u8>, n: int) -> Seq<u8>
    decreases n,
{
    if n <= 0 {
        Seq::empty()
    } else {
        repeat_bytes(rec, n - 1) + rec
    }
}

/// The record of tick `t` within a buffer of fixed-size records.
pub open spec fn record_at(buf: Seq<u8>, size: int, t: int) -> Seq<u8>
    recommends
        size > 0,
        0 <= t,
        (t + 1) * size <= buf.len(),
{
    buf.subrange(t * size, (t + 1) * size)
}

/// Padding a buffer to its own length leaves it unchanged.
pub proof fn lemma_padded_to_exact(b: Seq<u8>)
    ensures
        padded_to(b, b.len() as int) == b,
{
    assert(padded_to(b, b.len() as int) =~= b);
}

/// A repeated record's length is the record length times the count.
pub proof fn lemma_repeat_bytes_len(rec: Seq<u8>, n: int)
    requires
        n >= 0,
    ensures
        repeat_bytes(rec, n).len() == n * rec.len(),
    decreases n,
{
    let len = rec.len() as int;
    if n > 0 {
        lemma_repeat_bytes_len(rec, n - 1);
        assert(repeat_bytes(rec, n) == repeat_bytes(rec, n - 1) + rec);
        assert(repeat_bytes(rec, n).len() == (n - 1) * len + len);
        assert((n - 1) * len + len == n * len) by (nonlinear_arith);
    } else {
        assert(n == 0);
        assert(repeat_bytes(rec, n).len() == 0);
        assert(n * len == 0) by (nonlinear_arith)
            requires
                n == 0,
        ;
    }
}

/// Law: in a buffer backfilled with `k` zero records, every record
/// before tick `k` is all zero bytes.
pub proof fn lemma_backfilled_records_are_zero(k: int, size: int, rest: Seq<u8>, t: int)
    requires
        size > 0,
        k >= 0,
        0 <= t < k,
    ensures
        record_at(zero_bytes(k * size) + rest, size, t) == zero_bytes(size),
{
    assert((t + 1) * size <= k * size && t * size >= 0 && (t + 1) * size == t * size + size)
        by (nonlinear_arith)
        requires
            size > 0 && 0 <= t < k,
    ;
    let buf = zero_bytes(k * size) + rest;
    assert(record_at(buf, size, t) =~= zero_bytes(size)) by {
        assert forall|j: int| 0 <= j < size implies #[trigger] buf[t * size + j] == 0u8 by {
            assert(t * size + j < k * size);
            assert(buf[t * size + j] == zero_bytes(k * size)[t * size + j]);
        }
    }
}

/// A repetition splits as one copy in front of the rest.
proof fn lemma_repeat_first_split(rec: Seq<u8>, n: int)
    requires
        n >= 1,
    ensures
        repeat_bytes(rec, n) == rec + repeat_bytes(rec, n - 1),
    decreases n,
{
    if n == 1 {
        assert(repeat_bytes(rec, 1) =~= rec + repeat_bytes(rec, 0));
    } else {
        lemma_repeat_first_split(rec, n - 1);
        assert(repeat_bytes(rec, n) == repeat_bytes(rec, n - 1) + rec);
        assert((rec + repeat_bytes(rec, n - 2)) + rec =~= rec + (repeat_bytes(rec, n - 2) + rec));
    }
}

/// Law: in a buffer that ends with `n` copies of one record, every one
/// of the `n` replayed ticks reads back that same record.
pub proof fn lemma_replayed_records_identical(
    prefix: Seq<u8>,
    rec: Seq<u8>,
    size: int,
    n: int,
    t: int,
)
    requires
        size > 0,
        rec.len() == size,
        prefix.len() as int % size == 0,
        prefix.len() as int / size <= t < prefix.len() as int / size + n,
    ensures
        record_at(prefix + repeat_bytes(rec, n), size, t) == rec,
    decreases n,
{
    let k = prefix.len() as int / size;
    assert(prefix.len() == k * size) by (nonlinear_arith)
        requires
            size > 0 && prefix.len() as int % size == 0 && k == prefix.len() as int / size,
    ;
    lemma_repeat_bytes_len(rec, n);
    let buf = prefix + repeat_bytes(rec, n);
    if t == k {
        lemma_repeat_first_split(rec, n);
        lemma_repeat_bytes_len(rec, n - 1);
        assert(size <= n * size && (t + 1) * size == k * size + size) by (nonlinear_arith)
            requires
                size > 0 && n >= 1 && t == k,
        ;
        assert(record_at(buf, size, t) =~= rec) by {
            assert forall|i: int| 0 <= i < size implies buf[t * size + i] == rec[i] by {
                assert(buf[t * size + i] == repeat_bytes(rec, n)[i]);
                assert(repeat_bytes(rec, n)[i] == (rec + repeat_bytes(rec, n - 1))[i]);
            }
        }
    } else {
        lemma_repeat_first_split(rec, n);
        assert(buf =~= (prefix + rec) + repeat_bytes(rec, n - 1));
        assert((prefix + rec).len() == (k + 1) * size && (prefix + rec).len() as int % size == 0
            && (prefix + rec).len() as int / size == k + 1) by (nonlinear_arith)
            requires
                prefix.len() == k * size && rec.len() == size && size > 0,
        ;
        lemma_replayed_records_identical(prefix + rec, rec, size, n - 1, t);
    }
}

/// Law: when a snapshot is replayed over `n` elapsed ticks onto a
/// buffer already aligned to `t0` ticks, every one of the elapsed ticks
/// `t0 .. t0 + n` reads back the same record: the skipped ticks are
/// byte-identical duplicates of the observed state.
pub proof fn lemma_skip_tick_duplication(
    base: Seq<u8>,
    rec: Seq<u8>,
    size: int,
    t0: int,
    n: int,
    t: int,
)
    requires
        size > 0,
        rec.len() == size,
        base.len() == t0 * size,
        t0 >= 0,
        t0 <= t < t0 + n,
    ensures
        record_at(base + repeat_bytes(rec, n), size, t) == rec,
{
    assert(base.len() as int % size == 0 && base.len() as int / size == t0) by (nonlinear_arith)
        requires
            size > 0 && t0 >= 0 && base.len() == t0 * size,
    ;
    lemma_replayed_records_identical(base, rec, size, n, t);
}

/// A buffer backfilled from empty is all zero bytes.
pub proof fn lemma_padded_empty(m: int)
    requires
        m >= 0,
    ensures
        padded_to(Seq::<u8>::empty(), m) == zero_bytes(m),
{
    assert(padded_to(Seq::<u8>::empty(), m) =~= zero_bytes(m));
}

/// Law: an entity first observed after `k` emitted ticks has a buffer
/// backfilled from empty, and every one of its first `k` records reads
/// back as all-zero bytes.
pub proof fn lemma_backfill_correctness(k: int, size: int, rest: Seq<u8>, t: int)
    requires
        size > 0,
        k >= 0,
        0 <= t < k,
    ensures
        record_at(padded_to(Seq::<u8>::empty(), k * size) + rest, size, t) == zero_bytes(size),
{
    assert(k * size >= 0) by (nonlinear_arith)
        requires
            k >= 0 && size > 0,
    ;
    lemma_padded_empty(k * size);
    lemma_backfilled_records_are_zero(k, size, rest, t);
}

/// Pads a buffer with zero bytes up to the target length.
pub fn pad_to(buf: &mut Vec<u8>, target: usize)
    requires
        old(buf)@.len() <= target,
    ensures
        final(buf)@ == padded_to(old(buf)@, target as int),
{
    while buf.len() < target
        invariant
            old(buf)@.len() <= buf@.len() <= target,
            buf@ == old(buf)@ + zero_bytes(buf@.len() - old(buf)@.len()),
        decreases target - buf@.len(),
    {
        buf.push(0u8);
        proof {
            assert(buf@ =~= old(buf)@ + zero_bytes(buf@.len() - old(buf)@.len()));
        }
    }
    proof {
        assert(buf@ =~= padded_to(old(buf)@, target as int));
    }
}

/// Appends the given bytes to the end of a buffer.
pub fn append_bytes(dst: &mut Vec<u8>, src: &[u8])
    ensures
        final(dst)@ == old(dst)@ + src@,
{
    let mut j: usize = 0;
    while j < src.len()
        invariant
            j <= src@.len(),
            dst@ == old(dst)@ + src@.subrange(0, j as int),
        decreases src@.len() - j,
    {
        let b = src[j];
        dst.push(b);
        proof {
            assert(dst@ =~= old(dst)@ + src@.subrange(0, j + 1 as int));
        }
        j = j + 1;
    }
    proof {
        assert(src@.subrange(0, src@.len() as int) =~= src@);
    }
}


/// Stable per-player identity metadata, captured the first tick the
/// player's snapshot entry carries it.
#[derive(Debug, Clone, PartialEq)]
pub struct PlayerInfo {
    pub name: String,
    pub steam_id: String,
    pub entity_id: u32,
}

/// Copies player identity metadata field by field.
fn clone_player_info(info: &PlayerInfo) -> (r: PlayerInfo)
    ensures
        r == *info,
{
    PlayerInfo {
        name: info.name.clone(),
        steam_id: info.steam_id.clone(),
        entity_id: info.entity_id,
    }
}

/// One player's entry in a snapshot: the packed-ready state fields, the
/// liveness flag that gates the health value, and the identity metadata
/// when the snapshot carries it.
#[derive(Debug, Clone, PartialEq)]
pub struct PlayerEntry {
    pub position: QuantizedXY,
    pub angle: Angle,
    pub health: u16,
    pub alive: bool,
    pub team: Team,
    pub class: Class,
    pub charge: u8,
    pub info: Option<PlayerInfo>,
}

/// The world state of one simulation tick, positions and angles already
/// quantized against the round's world bounds.  `has_world` says whether
/// the source snapshot carried a valid world-bounds reference; without
/// one the snapshot is ignored entirely.
#[derive(Debug, Clone, PartialEq)]
pub struct GameSnapshot {
    pub has_world: bool,
    pub tick: u32,
    pub players: Vec<PlayerEntry>,
    pub buildings: Vec<BuildingState>,
    pub projectiles: Vec<ProjectileState>,
}

/// One kill, as accumulated by the snapshot source's event log.
#[derive(Debug, Clone, PartialEq)]
pub struct Kill {
    pub tick: u32,
    pub attacker_id: u16,
    pub assister_id: u16,
    pub victim_id: u16,
    pub weapon: String,
}

/// The state a player entry packs as: health is zeroed while the player
/// is not alive, every other field carries over.
pub open spec fn player_state_of(e: PlayerEntry) -> PlayerState {
    PlayerState {
        position: e.position,
        angle: e.angle,
        health: if e.alive {
            e.health
        } else {
            0
        },
        team: e.team,
        class: e.class,
        charge: e.charge,
    }
}

/// The 8-byte record a player entry emits for one tick.
pub open spec fn player_record(e: PlayerEntry) -> Seq<u8> {
    pack_player_spec(player_state_of(e))
}

/// The identity list after scanning the first `j` player entries of one
/// replayed tick: an entry with metadata is appended when the list does
/// not reach its index yet.
pub open spec fn push_infos_spec(acc: Seq<PlayerInfo>, players: Seq<PlayerEntry>, j: int) -> Seq<
    PlayerInfo,
>
    decreases j,
{
    if j <= 0 {
        acc
    } else {
        let prev = push_infos_spec(acc, players, j - 1);
        if prev.len() <= j - 1 {
            match players[j - 1].info {
                Option::Some(info) => prev.push(info),
                Option::None => prev,
            }
        } else {
            prev
        }
    }
}

/// The identity list after `n` replayed ticks of the same snapshot.
pub open spec fn infos_after(acc: Seq<PlayerInfo>, players: Seq<PlayerEntry>, n: int) -> Seq<
    PlayerInfo,
>
    decreases n,
{
    if n <= 0 {
        acc
    } else {
        infos_after(push_infos_spec(acc, players, players.len() as int), players, n - 1)
    }
}

/// Replaying one more tick scans the identity list once more.
proof fn lemma_infos_after_snoc(acc: Seq<PlayerInfo>, players: Seq<PlayerEntry>, n: int)
    requires
        n >= 0,
    ensures
        infos_after(acc, players, n + 1) == push_infos_spec(
            infos_after(acc, players, n),
            players,
            players.len() as int,
        ),
    decreases n,
{
    let m = players.len() as int;
    let once = push_infos_spec(acc, players, m);
    assert(infos_after(acc, players, n + 1) == infos_after(once, players, n));
    if n == 0 {
        assert(infos_after(once, players, 0) == once);
        assert(infos_after(acc, players, 0) == acc);
    } else {
        lemma_infos_after_snoc(once, players, n - 1);
        assert(infos_after(acc, players, n) == infos_after(once, players, n - 1));
    }
}

/// The larger of two values.
pub open spec fn max_int(a: int, b: int) -> int {
    if a >= b {
        a
    } else {
        b
    }
}

/// The buffer at slot `i`, or the empty buffer where slot `i` is not
/// allocated yet.
pub open spec fn buf_or_empty(bufs: Seq<Vec<u8>>, i: int) -> Seq<u8> {
    if 0 <= i < bufs.len() {
        bufs[i]@
    } else {
        Seq::empty()
    }
}

/// The number of ticks one snapshot is replayed for: the ticks elapsed
/// since the last processed snapshot, or none when the reported tick has
/// not advanced.
pub open spec fn replay_count(last_tick: u32, snap_tick: u32) -> int {
    if snap_tick > last_tick {
        snap_tick - last_tick
    } else {
        0
    }
}

/// The tick-aligned accumulator: one growable byte buffer per tracked
/// entity slot, a monotonic tick counter, and the side lists (kills,
/// searchable events, player identities) gathered along the way.
#[derive(Debug)]
pub struct ParsedDemo {
    /// The tick the last processed snapshot reported.
    pub last_tick: u32,
    /// The number of ticks emitted so far; every record buffer is
    /// addressed by this counter.
    pub tick: usize,
    /// One 8-byte-record buffer per player slot.
    pub players: Vec<Vec<u8>>,
    /// One 7-byte-record buffer per building slot.
    pub buildings: Vec<Vec<u8>>,
    /// One 6-byte-record buffer per projectile slot.
    pub projectiles: Vec<Vec<u8>>,
    /// The kill log, handed over by the snapshot source when the stream
    /// ends.
    pub kills: Vec<Kill>,
    /// The searchable events, produced once at finalization.
    pub events: Vec<SearchableEvent>,
    /// Per-player identity metadata, parallel to the player slots.
    pub player_info: Vec<PlayerInfo>,
    /// The largest simultaneous building count observed.
    pub max_building_count: usize,
    /// The largest simultaneous projectile count observed.
    pub max_projectile_count: usize,
    /// Set once by `finish`; a finalized accumulator is read-only.
    pub finalized: bool,
}

impl ParsedDemo {
    /// Buffers stay tick-aligned: every player buffer holds exactly one
    /// record per emitted tick, and building and projectile buffers hold
    /// whole records never past the current tick.
    pub open spec fn wf(self) -> bool {
        &&& self.tick * 8 <= usize::MAX
        &&& forall|i: int|
            0 <= i < self.players@.len() ==> (#[trigger] self.players@[i])@.len() == self.tick * 8
        &&& forall|i: int|
            0 <= i < self.buildings@.len() ==> (#[trigger] self.buildings@[i])@.len() % 7 == 0
                && self.buildings@[i]@.len() <= self.tick * 7
        &&& forall|i: int|
            0 <= i < self.projectiles@.len() ==> (#[trigger] self.projectiles@[i])@.len() % 6 == 0
                && self.projectiles@[i]@.len() <= self.tick * 6
    }

    /// A fresh accumulator in its accumulating state, with no ticks
    /// emitted and every list empty.
    pub fn new() -> (r: ParsedDemo)
        ensures
            r.wf(),
            r.last_tick == 0,
            r.tick == 0,
            r.players@.len() == 0,
            r.buildings@.len() == 0,
            r.projectiles@.len() == 0,
            r.kills@.len() == 0,
            r.events@.len() == 0,
            r.player_info@.len() == 0,
            r.max_building_count == 0,
            r.max_projectile_count == 0,
            !r.finalized,
    {
        ParsedDemo {
            last_tick: 0,
            tick: 0,
            players: Vec::new(),
            buildings: Vec::new(),
            projectiles: Vec::new(),
            kills: Vec::new(),
            events: Vec::new(),
            player_info: Vec::new(),
            max_building_count: 0,
            max_projectile_count: 0,
            finalized: false,
        }
    }
}


impl ParsedDemo {
    /// Appends one packed record per tracked entity of the snapshot for
    /// one replayed tick: a slot seen for the first time gets a fresh
    /// buffer backfilled with zero bytes up to the current tick, building
    /// and projectile buffers that lapsed are padded back to the current
    /// tick, and the tick counter advances by one.
    #[verifier::loop_isolation(false)]
    fn append_snapshot_records(&mut self, snap: &GameSnapshot)
        requires
            old(self).wf(),
            snap.players@.len() >= old(self).players@.len(),
            (old(self).tick + 1) * 8 <= usize::MAX,
        ensures
            final(self).wf(),
            final(self).tick == old(self).tick + 1,
            final(self).last_tick == old(self).last_tick,
            final(self).kills == old(self).kills,
            final(self).events == old(self).events,
            final(self).finalized == old(self).finalized,
            final(self).players@.len() == snap.players@.len(),
            forall|i: int|
                0 <= i < snap.players@.len() ==> (#[trigger] final(self).players@[i])@
                    == padded_to(buf_or_empty(old(self).players@, i), old(self).tick * 8)
                    + player_record(snap.players@[i]),
            final(self).buildings@.len() == max_int(
                old(self).buildings@.len() as int,
                snap.buildings@.len() as int,
            ),
            forall|i: int|
                0 <= i < snap.buildings@.len() ==> (#[trigger] final(self).buildings@[i])@
                    == padded_to(buf_or_empty(old(self).buildings@, i), old(self).tick * 7)
                    + pack_building_spec(snap.buildings@[i]),
            forall|i: int|
                snap.buildings@.len() <= i < old(self).buildings@.len()
                    ==> #[trigger] final(self).buildings@[i] == old(self).buildings@[i],
            final(self).projectiles@.len() == max_int(
                old(self).projectiles@.len() as int,
                snap.projectiles@.len() as int,
            ),
            forall|i: int|
                0 <= i < snap.projectiles@.len() ==> (#[trigger] final(self).projectiles@[i])@
                    == padded_to(buf_or_empty(old(self).projectiles@, i), old(self).tick * 6)
                    + pack_projectile_spec(snap.projectiles@[i]),
            forall|i: int|
                snap.projectiles@.len() <= i < old(self).projectiles@.len()
                    ==> #[trigger] final(self).projectiles@[i] == old(self).projectiles@[i],
            final(self).player_info@ == push_infos_spec(
                old(self).player_info@,
                snap.players@,
                snap.players@.len() as int,
            ),
            final(self).max_building_count == max_int(
                old(self).max_building_count as int,
                snap.buildings@.len() as int,
            ),
            final(self).max_projectile_count == max_int(
                old(self).max_projectile_count as int,
                snap.projectiles@.len() as int,
            ),
    {
        let ghost players0 = self.players@;
        let ghost infos0 = self.player_info@;
        let ghost t0 = self.tick as int;

        let mut index: usize = 0;
        while index < snap.players.len()
            invariant
                index <= snap.players@.len(),
                self.players@.len() == max_int(players0.len() as int, index as int),
                forall|i: int|
                    0 <= i < index ==> (#[trigger] self.players@[i])@ == padded_to(
                        buf_or_empty(players0, i),
                        t0 * 8,
                    ) + player_record(snap.players@[i]),
                forall|i: int|
                    index <= i < players0.len() ==> #[trigger] self.players@[i] == players0[i],
                self.player_info@ == push_infos_spec(infos0, snap.players@, index as int),
                self.tick == old(self).tick,
                self.buildings == old(self).buildings,
                self.projectiles == old(self).projectiles,
                self.kills == old(self).kills,
                self.events == old(self).events,
                self.last_tick == old(self).last_tick,
                self.finalized == old(self).finalized,
                self.max_building_count == old(self).max_building_count,
                self.max_projectile_count == old(self).max_projectile_count,
            decreases snap.players@.len() - index,
        {
            let entry = &snap.players[index];
            if index >= self.players.len() {
                let mut fresh: Vec<u8> = Vec::new();
                pad_to(&mut fresh, self.tick * 8);
                proof {
                    assert(fresh@ =~= padded_to(buf_or_empty(players0, index as int), t0 * 8));
                }
                self.players.push(fresh);
            }
            if self.player_info.len() <= index {
                match &entry.info {
                    Option::Some(info) => {
                        let copied = clone_player_info(info);
                        self.player_info.push(copied);
                    },
                    Option::None => {},
                }
            }
            proof {
                assert(self.player_info@ == push_infos_spec(
                    infos0,
                    snap.players@,
                    index + 1 as int,
                ));
            }
            let st = PlayerState {
                position: entry.position,
                angle: entry.angle,
                health: if entry.alive {
                    entry.health
                } else {
                    0
                },
                team: entry.team,
                class: entry.class,
                charge: entry.charge,
            };
            let rec = st.pack();
            let ghost before = self.players@[index as int]@;
            let buf = &mut self.players[index];
            append_bytes(buf, rec.as_slice());
            proof {
                assert(st == player_state_of(snap.players@[index as int]));
                if index as int >= players0.len() {
                } else {
                    assert(before == players0[index as int]@);
                    assert(before.len() == t0 * 8);
                    lemma_padded_to_exact(before);
                    assert(padded_to(buf_or_empty(players0, index as int), t0 * 8) == before);
                }
            }
            index = index + 1;
        }

        if snap.buildings.len() > self.max_building_count {
            self.max_building_count = snap.buildings.len();
        }
        let ghost players_done = self.players;
        let ghost infos_done = self.player_info;
        let ghost buildings0 = self.buildings@;
        let mut bindex: usize = 0;
        while bindex < snap.buildings.len()
            invariant
                bindex <= snap.buildings@.len(),
                self.buildings@.len() == max_int(buildings0.len() as int, bindex as int),
                forall|i: int|
                    0 <= i < bindex ==> (#[trigger] self.buildings@[i])@ == padded_to(
                        buf_or_empty(buildings0, i),
                        t0 * 7,
                    ) + pack_building_spec(snap.buildings@[i]),
                forall|i: int|
                    bindex <= i < buildings0.len() ==> #[trigger] self.buildings@[i]
                        == buildings0[i],
                self.players == players_done,
                self.player_info == infos_done,
                self.tick == old(self).tick,
                self.projectiles == old(self).projectiles,
                self.kills == old(self).kills,
                self.events == old(self).events,
                self.last_tick == old(self).last_tick,
                self.finalized == old(self).finalized,
                self.max_building_count == if old(self).max_building_count
                    >= snap.buildings@.len() {
                    old(self).max_building_count as int
                } else {
                    snap.buildings@.len() as int
                },
                self.max_projectile_count == old(self).max_projectile_count,
            decreases snap.buildings@.len() - bindex,
        {
            if bindex >= self.buildings.len() {
                self.buildings.push(Vec::new());
            }
            let ghost before = self.buildings@[bindex as int]@;
            proof {
                if bindex as int >= buildings0.len() {
                    assert(before =~= Seq::<u8>::empty());
                } else {
                    assert(before == buildings0[bindex as int]@);
                }
            }
            {
                let buf = &mut self.buildings[bindex];
                pad_to(buf, self.tick * 7);
            }
            let rec = snap.buildings[bindex].pack();
            {
                let buf = &mut self.buildings[bindex];
                append_bytes(buf, rec.as_slice());
            }
            bindex = bindex + 1;
        }

        if snap.projectiles.len() > self.max_projectile_count {
            self.max_projectile_count = snap.projectiles.len();
        }
        let ghost buildings_done = self.buildings;
        let ghost projectiles0 = self.projectiles@;
        let mut pindex: usize = 0;
        while pindex < snap.projectiles.len()
            invariant
                pindex <= snap.projectiles@.len(),
                self.projectiles@.len() == max_int(projectiles0.len() as int, pindex as int),
                forall|i: int|
                    0 <= i < pindex ==> (#[trigger] self.projectiles@[i])@ == padded_to(
                        buf_or_empty(projectiles0, i),
                        t0 * 6,
                    ) + pack_projectile_spec(snap.projectiles@[i]),
                forall|i: int|
                    pindex <= i < projectiles0.len() ==> #[trigger] self.projectiles@[i]
                        == projectiles0[i],
                self.players == players_done,
                self.player_info == infos_done,
                self.buildings == buildings_done,
                self.tick == old(self).tick,
                self.kills == old(self).kills,
                self.events == old(self).events,
                self.last_tick == old(self).last_tick,
                self.finalized == old(self).finalized,
                self.max_building_count == max_int(
                    old(self).max_building_count as int,
                    snap.buildings@.len() as int,
                ),
                self.max_projectile_count == if old(self).max_projectile_count
                    >= snap.projectiles@.len() {
                    old(self).max_projectile_count as int
                } else {
                    snap.projectiles@.len() as int
                },
            decreases snap.projectiles@.len() - pindex,
        {
            if pindex >= self.projectiles.len() {
                self.projectiles.push(Vec::new());
            }
            let ghost before = self.projectiles@[pindex as int]@;
            proof {
                if pindex as int >= projectiles0.len() {
                    assert(before =~= Seq::<u8>::empty());
                } else {
                    assert(before == projectiles0[pindex as int]@);
                }
            }
            {
                let buf = &mut self.projectiles[pindex];
                pad_to(buf, self.tick * 6);
            }
            let rec = snap.projectiles[pindex].pack();
            {
                let buf = &mut self.projectiles[pindex];
                append_bytes(buf, rec.as_slice());
            }
            pindex = pindex + 1;
        }

        self.tick = self.tick + 1;
        proof {
            assert forall|i: int| 0 <= i < self.players@.len() implies (
                #[trigger] self.players@[i])@.len() == self.tick * 8 by {
                assert(player_record(snap.players@[i]).len() == 8);
            }
            assert forall|i: int| 0 <= i < self.buildings@.len() implies (
                #[trigger] self.buildings@[i])@.len() % 7 == 0 && self.buildings@[i]@.len()
                <= self.tick * 7 by {
                if i < snap.buildings@.len() {
                    assert(pack_building_spec(snap.buildings@[i]).len() == 7);
                    assert((t0 * 7 + 7) % 7 == 0 && t0 * 7 + 7 == (t0 + 1) * 7)
                        by (nonlinear_arith)
                        requires
                            t0 >= 0,
                    ;
                } else {
                    assert(self.buildings@[i] == buildings0[i]);
                }
            }
            assert forall|i: int| 0 <= i < self.projectiles@.len() implies (
                #[trigger] self.projectiles@[i])@.len() % 6 == 0 && self.projectiles@[i]@.len()
                <= self.tick * 6 by {
                if i < snap.projectiles@.len() {
                    assert(pack_projectile_spec(snap.projectiles@[i]).len() == 6);
                    assert((t0 * 6 + 6) % 6 == 0 && t0 * 6 + 6 == (t0 + 1) * 6)
                        by (nonlinear_arith)
                        requires
                            t0 >= 0,
                    ;
                } else {
                    assert(self.projectiles@[i] == projectiles0[i]);
                }
            }
        }
    }
}


impl ParsedDemo {
    /// Consumes one world snapshot.  A snapshot without a world-bounds
    /// reference is ignored entirely and no tick advances.  Otherwise the
    /// snapshot is replayed once per tick elapsed since the last
    /// processed snapshot, stamping one identical record per tracked
    /// entity per elapsed tick, and the last processed tick becomes the
    /// snapshot's reported tick.
    #[verifier::loop_isolation(false)]
    pub fn push_state(&mut self, snap: &GameSnapshot)
        requires
            old(self).wf(),
            !old(self).finalized,
            snap.has_world ==> snap.players@.len() >= old(self).players@.len(),
            snap.has_world ==> (old(self).tick + replay_count(old(self).last_tick, snap.tick)) * 8
                <= usize::MAX,
        ensures
            final(self).wf(),
            !snap.has_world ==> *final(self) == *old(self),
            snap.has_world ==> {
                let n = replay_count(old(self).last_tick, snap.tick);
                let t0 = old(self).tick as int;
                &&& final(self).last_tick == snap.tick
                &&& final(self).tick == t0 + n
                &&& final(self).kills == old(self).kills
                &&& final(self).events == old(self).events
                &&& !final(self).finalized
                &&& (n == 0 ==> final(self).players == old(self).players
                    && final(self).buildings == old(self).buildings && final(self).projectiles
                    == old(self).projectiles && final(self).player_info == old(self).player_info
                    && final(self).max_building_count == old(self).max_building_count
                    && final(self).max_projectile_count == old(self).max_projectile_count)
                &&& (n > 0 ==> {
                    &&& final(self).players@.len() == snap.players@.len()
                    &&& forall|i: int|
                        0 <= i < snap.players@.len() ==> (#[trigger] final(self).players@[i])@
                            == padded_to(buf_or_empty(old(self).players@, i), t0 * 8)
                            + repeat_bytes(player_record(snap.players@[i]), n)
                    &&& final(self).buildings@.len() == max_int(
                        old(self).buildings@.len() as int,
                        snap.buildings@.len() as int,
                    )
                    &&& forall|i: int|
                        0 <= i < snap.buildings@.len() ==> (#[trigger] final(self).buildings@[i])@
                            == padded_to(buf_or_empty(old(self).buildings@, i), t0 * 7)
                            + repeat_bytes(pack_building_spec(snap.buildings@[i]), n)
                    &&& forall|i: int|
                        snap.buildings@.len() <= i < old(self).buildings@.len()
                            ==> #[trigger] final(self).buildings@[i] == old(self).buildings@[i]
                    &&& final(self).projectiles@.len() == max_int(
                        old(self).projectiles@.len() as int,
                        snap.projectiles@.len() as int,
                    )
                    &&& forall|i: int|
                        0 <= i < snap.projectiles@.len()
                            ==> (#[trigger] final(self).projectiles@[i])@ == padded_to(
                            buf_or_empty(old(self).projectiles@, i),
                            t0 * 6,
                        ) + repeat_bytes(pack_projectile_spec(snap.projectiles@[i]), n)
                    &&& forall|i: int|
                        snap.projectiles@.len() <= i < old(self).projectiles@.len()
                            ==> #[trigger] final(self).projectiles@[i] == old(self).projectiles@[i]
                    &&& final(self).player_info@ == infos_after(
                        old(self).player_info@,
                        snap.players@,
                        n,
                    )
                    &&& final(self).max_building_count == max_int(
                        old(self).max_building_count as int,
                        snap.buildings@.len() as int,
                    )
                    &&& final(self).max_projectile_count == max_int(
                        old(self).max_projectile_count as int,
                        snap.projectiles@.len() as int,
                    )
                })
            },
    {
        if !snap.has_world {
            return ;
        }
        let n: u32 = if snap.tick > self.last_tick {
            snap.tick - self.last_tick
        } else {
            0
        };
        let ghost t0 = self.tick as int;
        let mut k: u32 = 0;
        while k < n
            invariant
                k <= n,
                n == replay_count(old(self).last_tick, snap.tick),
                self.wf(),
                self.tick == t0 + k,
                self.last_tick == old(self).last_tick,
                self.kills == old(self).kills,
                self.events == old(self).events,
                self.finalized == old(self).finalized,
                k == 0 ==> *self == *old(self),
                k > 0 ==> {
                    &&& self.players@.len() == snap.players@.len()
                    &&& forall|i: int|
                        0 <= i < snap.players@.len() ==> (#[trigger] self.players@[i])@
                            == padded_to(buf_or_empty(old(self).players@, i), t0 * 8)
                            + repeat_bytes(player_record(snap.players@[i]), k as int)
                    &&& self.buildings@.len() == max_int(
                        old(self).buildings@.len() as int,
                        snap.buildings@.len() as int,
                    )
                    &&& forall|i: int|
                        0 <= i < snap.buildings@.len() ==> (#[trigger] self.buildings@[i])@
                            == padded_to(buf_or_empty(old(self).buildings@, i), t0 * 7)
                            + repeat_bytes(pack_building_spec(snap.buildings@[i]), k as int)
                    &&& forall|i: int|
                        snap.buildings@.len() <= i < old(self).buildings@.len()
                            ==> #[trigger] self.buildings@[i] == old(self).buildings@[i]
                    &&& self.projectiles@.len() == max_int(
                        old(self).projectiles@.len() as int,
                        snap.projectiles@.len() as int,
                    )
                    &&& forall|i: int|
                        0 <= i < snap.projectiles@.len() ==> (#[trigger] self.projectiles@[i])@
                            == padded_to(buf_or_empty(old(self).projectiles@, i), t0 * 6)
                            + repeat_bytes(pack_projectile_spec(snap.projectiles@[i]), k as int)
                    &&& forall|i: int|
                        snap.projectiles@.len() <= i < old(self).projectiles@.len()
                            ==> #[trigger] self.projectiles@[i] == old(self).projectiles@[i]
                    &&& self.player_info@ == infos_after(
                        old(self).player_info@,
                        snap.players@,
                        k as int,
                    )
                    &&& self.max_building_count == max_int(
                        old(self).max_building_count as int,
                        snap.buildings@.len() as int,
                    )
                    &&& self.max_projectile_count == max_int(
                        old(self).max_projectile_count as int,
                        snap.projectiles@.len() as int,
                    )
                },
            decreases n - k,
        {
            let ghost prev = *self;
            self.append_snapshot_records(snap);
            proof {
                let ki = k as int;
                lemma_infos_after_snoc(old(self).player_info@, snap.players@, ki);
                assert forall|i: int| 0 <= i < snap.players@.len() implies (
                    #[trigger] self.players@[i])@ == padded_to(
                    buf_or_empty(old(self).players@, i),
                    t0 * 8,
                ) + repeat_bytes(player_record(snap.players@[i]), ki + 1) by {
                    let rec = player_record(snap.players@[i]);
                    let base = padded_to(buf_or_empty(old(self).players@, i), t0 * 8);
                    assert(rec.len() == 8);
                    if ki == 0 {
                        assert(self.players@[i]@ == padded_to(
                            buf_or_empty(prev.players@, i),
                            t0 * 8,
                        ) + rec);
                        assert(repeat_bytes(rec, 1) == repeat_bytes(rec, 0) + rec);
                        assert(repeat_bytes(rec, 0) == Seq::<u8>::empty());
                        assert(Seq::<u8>::empty() + rec =~= rec);
                    } else {
                        assert(prev.players@[i]@ == base + repeat_bytes(rec, ki));
                        lemma_repeat_bytes_len(rec, ki);
                        assert(prev.players@[i]@.len() == t0 * 8 + ki * 8);
                        lemma_padded_to_exact(prev.players@[i]@);
                        assert(buf_or_empty(prev.players@, i) == prev.players@[i]@);
                        assert(self.players@[i]@ == (base + repeat_bytes(rec, ki)) + rec);
                        assert((base + repeat_bytes(rec, ki)) + rec =~= base + (repeat_bytes(
                            rec,
                            ki,
                        ) + rec));
                    }
                }
                assert forall|i: int| 0 <= i < snap.buildings@.len() implies (
                    #[trigger] self.buildings@[i])@ == padded_to(
                    buf_or_empty(old(self).buildings@, i),
                    t0 * 7,
                ) + repeat_bytes(pack_building_spec(snap.buildings@[i]), ki + 1) by {
                    let rec = pack_building_spec(snap.buildings@[i]);
                    let base = padded_to(buf_or_empty(old(self).buildings@, i), t0 * 7);
                    assert(rec.len() == 7);
                    if ki == 0 {
                        assert(self.buildings@[i]@ == padded_to(
                            buf_or_empty(prev.buildings@, i),
                            t0 * 7,
                        ) + rec);
                        assert(repeat_bytes(rec, 1) == repeat_bytes(rec, 0) + rec);
                        assert(repeat_bytes(rec, 0) == Seq::<u8>::empty());
                        assert(Seq::<u8>::empty() + rec =~= rec);
                    } else {
                        assert(prev.buildings@[i]@ == base + repeat_bytes(rec, ki));
                        lemma_repeat_bytes_len(rec, ki);
                        assert(prev.buildings@[i]@.len() == t0 * 7 + ki * 7);
                        lemma_padded_to_exact(prev.buildings@[i]@);
                        assert(buf_or_empty(prev.buildings@, i) == prev.buildings@[i]@);
                        assert(self.buildings@[i]@ == (base + repeat_bytes(rec, ki)) + rec);
                        assert((base + repeat_bytes(rec, ki)) + rec =~= base + (repeat_bytes(
                            rec,
                            ki,
                        ) + rec));
                    }
                }
                assert forall|i: int| 0 <= i < snap.projectiles@.len() implies (
                    #[trigger] self.projectiles@[i])@ == padded_to(
                    buf_or_empty(old(self).projectiles@, i),
                    t0 * 6,
                ) + repeat_bytes(pack_projectile_spec(snap.projectiles@[i]), ki + 1) by {
                    let rec = pack_projectile_spec(snap.projectiles@[i]);
                    let base = padded_to(buf_or_empty(old(self).projectiles@, i), t0 * 6);
                    assert(rec.len() == 6);
                    if ki == 0 {
                        assert(self.projectiles@[i]@ == padded_to(
                            buf_or_empty(prev.projectiles@, i),
                            t0 * 6,
                        ) + rec);
                        assert(repeat_bytes(rec, 1) == repeat_bytes(rec, 0) + rec);
                        assert(repeat_bytes(rec, 0) == Seq::<u8>::empty());
                        assert(Seq::<u8>::empty() + rec =~= rec);
                    } else {
                        assert(prev.projectiles@[i]@ == base + repeat_bytes(rec, ki));
                        lemma_repeat_bytes_len(rec, ki);
                        assert(prev.projectiles@[i]@.len() == t0 * 6 + ki * 6);
                        lemma_padded_to_exact(prev.projectiles@[i]@);
                        assert(buf_or_empty(prev.projectiles@, i) == prev.projectiles@[i]@);
                        assert(self.projectiles@[i]@ == (base + repeat_bytes(rec, ki)) + rec);
                        assert((base + repeat_bytes(rec, ki)) + rec =~= base + (repeat_bytes(
                            rec,
                            ki,
                        ) + rec));
                    }
                }
            }
            k = k + 1;
        }
        self.last_tick = snap.tick;
    }
}


impl ParsedDemo {
    /// Finalizes the accumulator: pads every building and projectile
    /// buffer with zero bytes up to the final tick count (player buffers
    /// are already tick-aligned), reduces the raw event log into the
    /// searchable-event list, and transitions to the read-only finalized
    /// state.
    #[verifier::loop_isolation(false)]
    pub fn finish(&mut self, events: &Vec<(u32, RawGameEvent)>)
        requires
            old(self).wf(),
            !old(self).finalized,
        ensures
            final(self).wf(),
            final(self).finalized,
            final(self).tick == old(self).tick,
            final(self).last_tick == old(self).last_tick,
            final(self).players == old(self).players,
            final(self).kills == old(self).kills,
            final(self).player_info == old(self).player_info,
            final(self).max_building_count == old(self).max_building_count,
            final(self).max_projectile_count == old(self).max_projectile_count,
            final(self).buildings@.len() == old(self).buildings@.len(),
            forall|i: int|
                0 <= i < old(self).buildings@.len() ==> (#[trigger] final(self).buildings@[i])@
                    == padded_to(old(self).buildings@[i]@, old(self).tick * 7),
            final(self).projectiles@.len() == old(self).projectiles@.len(),
            forall|i: int|
                0 <= i < old(self).projectiles@.len() ==> (#[trigger] final(self).projectiles@[i])@
                    == padded_to(old(self).projectiles@[i]@, old(self).tick * 6),
            final(self).events@ == reduce_events_spec(events@),
    {
        let ghost t0 = self.tick as int;
        let target_b: usize = self.tick * 7;
        let mut i: usize = 0;
        while i < self.buildings.len()
            invariant
                i <= self.buildings@.len(),
                self.buildings@.len() == old(self).buildings@.len(),
                forall|j: int|
                    0 <= j < i ==> (#[trigger] self.buildings@[j])@ == padded_to(
                        old(self).buildings@[j]@,
                        t0 * 7,
                    ),
                forall|j: int|
                    i <= j < self.buildings@.len() ==> #[trigger] self.buildings@[j] == old(
                        self,
                    ).buildings@[j],
                self.players == old(self).players,
                self.projectiles == old(self).projectiles,
                self.tick == old(self).tick,
                self.last_tick == old(self).last_tick,
                self.kills == old(self).kills,
                self.events == old(self).events,
                self.player_info == old(self).player_info,
                self.max_building_count == old(self).max_building_count,
                self.max_projectile_count == old(self).max_projectile_count,
                self.finalized == old(self).finalized,
            decreases self.buildings@.len() - i,
        {
            let buf = &mut self.buildings[i];
            pad_to(buf, target_b);
            i = i + 1;
        }
        let target_p: usize = self.tick * 6;
        let ghost buildings_done = self.buildings;
        let mut i: usize = 0;
        while i < self.projectiles.len()
            invariant
                i <= self.projectiles@.len(),
                self.projectiles@.len() == old(self).projectiles@.len(),
                forall|j: int|
                    0 <= j < i ==> (#[trigger] self.projectiles@[j])@ == padded_to(
                        old(self).projectiles@[j]@,
                        t0 * 6,
                    ),
                forall|j: int|
                    i <= j < self.projectiles@.len() ==> #[trigger] self.projectiles@[j] == old(
                        self,
                    ).projectiles@[j],
                self.players == old(self).players,
                self.buildings == buildings_done,
                self.tick == old(self).tick,
                self.last_tick == old(self).last_tick,
                self.kills == old(self).kills,
                self.events == old(self).events,
                self.player_info == old(self).player_info,
                self.max_building_count == old(self).max_building_count,
                self.max_projectile_count == old(self).max_projectile_count,
                self.finalized == old(self).finalized,
            decreases self.projectiles@.len() - i,
        {
            let buf = &mut self.projectiles[i];
            pad_to(buf, target_p);
            i = i + 1;
        }
        self.events = reduce_events(events);
        self.finalized = true;
        proof {
            assert(t0 * 7 % 7 == 0 && t0 * 6 % 6 == 0) by (nonlinear_arith);
        }
    }

    /// Total byte size of the accumulated player buffers: one 8-byte
    /// record per player per emitted tick.
    #[verifier::loop_isolation(false)]
    pub fn size(&self) -> (r: usize)
        requires
            self.wf(),
            self.players@.len() * (self.tick * 8) <= usize::MAX,
        ensures
            r == self.players@.len() * (self.tick * 8),
    {
        let mut total: usize = 0;
        let mut i: usize = 0;
        while i < self.players.len()
            invariant
                i <= self.players@.len(),
                total == i * (self.tick * 8),
            decreases self.players@.len() - i,
        {
            proof {
                let t8 = (self.tick * 8) as int;
                let len = self.players@.len() as int;
                assert((i + 1) * t8 == i * t8 + t8) by (nonlinear_arith);
                assert((i + 1) * t8 <= len * t8) by (nonlinear_arith)
                    requires
                        i + 1 <= len && t8 >= 0,
                ;
            }
            total = total + self.players[i].len();
            i = i + 1;
        }
        total
    }
}


/// Law: buffers stay tick-aligned after any sequence of pushes.  Every
/// tracked buffer's length is a multiple of its kind's record size, all
/// player buffers have equal length (one record per emitted tick), and
/// building and projectile buffers never reach past the current tick.
pub proof fn lemma_buffer_alignment(d: ParsedDemo)
    requires
        d.wf(),
    ensures
        forall|i: int, j: int|
            0 <= i < d.players@.len() && 0 <= j < d.players@.len() ==> (#[trigger] d.players@[i])@
                .len() == (#[trigger] d.players@[j])@.len(),
        forall|i: int|
            0 <= i < d.players@.len() ==> (#[trigger] d.players@[i])@.len() % 8 == 0,
        forall|i: int|
            0 <= i < d.buildings@.len() ==> (#[trigger] d.buildings@[i])@.len() % 7 == 0
                && d.buildings@[i]@.len() <= d.tick * 7,
        forall|i: int|
            0 <= i < d.projectiles@.len() ==> (#[trigger] d.projectiles@[i])@.len() % 6 == 0
                && d.projectiles@[i]@.len() <= d.tick * 6,
{
    let t = d.tick as int;
    assert(t * 8 % 8 == 0) by (nonlinear_arith);
}

} // verus!
