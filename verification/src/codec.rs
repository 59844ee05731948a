//! Fixed-size binary records for per-tick entity states.
//!
//! Positions are carried as 16-bit quantized codes and facing angles as
//! 8-bit codes; the caller quantizes continuous coordinates against the
//! round's world bounds before handing states in.  Each entity kind packs
//! into a fixed-size little-endian byte record with bit-packed categorical
//! fields: two 16-bit coordinates first, then a bit-packed word or byte,
//! then the angle code (and, for players, the charge byte).

use vstd::prelude::*;

verus! {

/// A facing angle quantized to an 8-bit code: `code / 255 * 360` degrees.
#[derive(Debug, Clone, Copy, PartialEq, Eq, Structural)]
pub struct Angle(pub u8);

/// A 2D position with both coordinates quantized to 16-bit codes over the
/// round's world bounds.
#[derive(Debug, Clone, Copy, PartialEq, Eq, Structural)]
pub struct QuantizedXY {
    pub x: u16,
    pub y: u16,
}

/// A team, stored in a two-bit field of the player record and a single
/// team bit (blue or not) of the building and projectile records.
#[derive(Debug, Clone, Copy, PartialEq, Eq, Structural)]
pub enum Team {
    Other,
    Spectator,
    Red,
    Blue,
}

impl Team {
    /// The two-bit code this team packs to.
    pub open spec fn code_spec(self) -> u8 {
        match self {
            Team::Other => 0,
            Team::Spectator => 1,
            Team::Red => 2,
            Team::Blue => 3,
        }
    }

    /// Numeric code of this team, as packed into the player record.
    pub fn code(self) -> (r: u8)
        ensures
            r == self.code_spec(),
            r < 4,
    {
        match self {
            Team::Other => 0,
            Team::Spectator => 1,
            Team::Red => 2,
            Team::Blue => 3,
        }
    }

    /// The team a numeric code decodes to; codes past the known teams
    /// fall back to `Other`.
    pub open spec fn new_spec(raw: u16) -> Team {
        match raw {
            0 => Team::Other,
            1 => Team::Spectator,
            2 => Team::Red,
            3 => Team::Blue,
            _ => Team::Other,
        }
    }

    /// Decodes a numeric team code; unknown codes map to `Other`.
    pub fn new(raw: u16) -> (r: Team)
        ensures
            r == Self::new_spec(raw),
    {
        match raw {
            0 => Team::Other,
            1 => Team::Spectator,
            2 => Team::Red,
            3 => Team::Blue,
            _ => Team::Other,
        }
    }
}

/// A player class, stored in a 4-bit field of the player record.
#[derive(Debug, Clone, Copy, PartialEq, Eq, Structural)]
pub enum Class {
    Other,
    Scout,
    Sniper,
    Soldier,
    Demoman,
    Medic,
    Heavy,
    Pyro,
    Spy,
    Engineer,
}

impl Class {
    /// The 4-bit code this class packs to.
    pub open spec fn code_spec(self) -> u8 {
        match self {
            Class::Other => 0,
            Class::Scout => 1,
            Class::Sniper => 2,
            Class::Soldier => 3,
            Class::Demoman => 4,
            Class::Medic => 5,
            Class::Heavy => 6,
            Class::Pyro => 7,
            Class::Spy => 8,
            Class::Engineer => 9,
        }
    }

    /// Numeric code of this class, as packed into the record.
    pub fn code(self) -> (r: u8)
        ensures
            r == self.code_spec(),
            r < 16,
    {
        match self {
            Class::Other => 0,
            Class::Scout => 1,
            Class::Sniper => 2,
            Class::Soldier => 3,
            Class::Demoman => 4,
            Class::Medic => 5,
            Class::Heavy => 6,
            Class::Pyro => 7,
            Class::Spy => 8,
            Class::Engineer => 9,
        }
    }

    /// The class a numeric code decodes to; codes past the known classes
    /// fall back to `Other`.
    pub open spec fn new_spec(raw: u16) -> Class {
        match raw {
            0 => Class::Other,
            1 => Class::Scout,
            2 => Class::Sniper,
            3 => Class::Soldier,
            4 => Class::Demoman,
            5 => Class::Medic,
            6 => Class::Heavy,
            7 => Class::Pyro,
            8 => Class::Spy,
            9 => Class::Engineer,
            _ => Class::Other,
        }
    }

    /// Decodes a numeric class code; unknown codes map to `Other`.
    pub fn new(raw: u16) -> (r: Class)
        ensures
            r == Self::new_spec(raw),
    {
        match raw {
            0 => Class::Other,
            1 => Class::Scout,
            2 => Class::Sniper,
            3 => Class::Soldier,
            4 => Class::Demoman,
            5 => Class::Medic,
            6 => Class::Heavy,
            7 => Class::Pyro,
            8 => Class::Spy,
            9 => Class::Engineer,
            _ => Class::Other,
        }
    }
}

/// A building kind, stored in a 3-bit field of the building record.
#[derive(Debug, Clone, Copy, PartialEq, Eq, Structural)]
pub enum BuildingType {
    TeleporterEntrance,
    TeleporterExit,
    Dispenser,
    Level1Sentry,
    Level2Sentry,
    Level3Sentry,
    MiniSentry,
    Unknown,
}

impl BuildingType {
    /// The 3-bit code this kind packs to.
    pub open spec fn code_spec(self) -> u8 {
        match self {
            BuildingType::TeleporterEntrance => 0,
            BuildingType::TeleporterExit => 1,
            BuildingType::Dispenser => 2,
            BuildingType::Level1Sentry => 3,
            BuildingType::Level2Sentry => 4,
            BuildingType::Level3Sentry => 5,
            BuildingType::MiniSentry => 6,
            BuildingType::Unknown => 7,
        }
    }

    /// Numeric code of this kind, as packed into the record.
    pub fn code(self) -> (r: u8)
        ensures
            r == self.code_spec(),
            r < 8,
    {
        match self {
            BuildingType::TeleporterEntrance => 0,
            BuildingType::TeleporterExit => 1,
            BuildingType::Dispenser => 2,
            BuildingType::Level1Sentry => 3,
            BuildingType::Level2Sentry => 4,
            BuildingType::Level3Sentry => 5,
            BuildingType::MiniSentry => 6,
            BuildingType::Unknown => 7,
        }
    }

    /// The kind a numeric code decodes to; codes past the known kinds
    /// fall back to `Unknown`.
    pub open spec fn new_spec(raw: u8) -> BuildingType {
        match raw {
            0 => BuildingType::TeleporterEntrance,
            1 => BuildingType::TeleporterExit,
            2 => BuildingType::Dispenser,
            3 => BuildingType::Level1Sentry,
            4 => BuildingType::Level2Sentry,
            5 => BuildingType::Level3Sentry,
            6 => BuildingType::MiniSentry,
            _ => BuildingType::Unknown,
        }
    }

    /// Decodes a numeric building-kind code; unknown codes map to
    /// `Unknown`.
    pub fn new(raw: u8) -> (r: BuildingType)
        ensures
            r == Self::new_spec(raw),
    {
        match raw {
            0 => Self::TeleporterEntrance,
            1 => Self::TeleporterExit,
            2 => Self::Dispenser,
            3 => Self::Level1Sentry,
            4 => Self::Level2Sentry,
            5 => Self::Level3Sentry,
            6 => Self::MiniSentry,
            _ => Self::Unknown,
        }
    }
}

/// A projectile kind, stored in a 3-bit field of the projectile record.
/// `Unknown` packs to code 7; code 6 is unassigned and also decodes to
/// `Unknown`.
#[derive(Debug, Clone, Copy, PartialEq, Eq, Structural)]
pub enum ProjectileType {
    Rocket,
    HealingArrow,
    Sticky,
    Pipe,
    Flare,
    LooseCannon,
    Unknown,
}

impl ProjectileType {
    /// The 3-bit code this kind packs to.
    pub open spec fn code_spec(self) -> u8 {
        match self {
            ProjectileType::Rocket => 0,
            ProjectileType::HealingArrow => 1,
            ProjectileType::Sticky => 2,
            ProjectileType::Pipe => 3,
            ProjectileType::Flare => 4,
            ProjectileType::LooseCannon => 5,
            ProjectileType::Unknown => 7,
        }
    }

    /// Numeric code of this kind, as packed into the record.
    pub fn code(self) -> (r: u8)
        ensures
            r == self.code_spec(),
            r < 8,
    {
        match self {
            ProjectileType::Rocket => 0,
            ProjectileType::HealingArrow => 1,
            ProjectileType::Sticky => 2,
            ProjectileType::Pipe => 3,
            ProjectileType::Flare => 4,
            ProjectileType::LooseCannon => 5,
            ProjectileType::Unknown => 7,
        }
    }

    /// The kind a numeric code decodes to; codes past the known kinds
    /// fall back to `Unknown`.
    pub open spec fn new_spec(raw: u8) -> ProjectileType {
        match raw {
            0 => ProjectileType::Rocket,
            1 => ProjectileType::HealingArrow,
            2 => ProjectileType::Sticky,
            3 => ProjectileType::Pipe,
            4 => ProjectileType::Flare,
            5 => ProjectileType::LooseCannon,
            _ => ProjectileType::Unknown,
        }
    }

    /// Decodes a numeric projectile-kind code; unknown codes map to
    /// `Unknown`.
    pub fn new(raw: u8) -> (r: ProjectileType)
        ensures
            r == Self::new_spec(raw),
    {
        match raw {
            0 => Self::Rocket,
            1 => Self::HealingArrow,
            2 => Self::Sticky,
            3 => Self::Pipe,
            4 => Self::Flare,
            5 => Self::LooseCannon,
            _ => Self::Unknown,
        }
    }
}


/// One building observation, as plain values: what the classification
/// into a building kind reads.
#[derive(Debug, Clone, Copy, PartialEq, Eq, Structural)]
pub enum RawBuilding {
    Sentry { is_mini: bool, level: u8 },
    Dispenser,
    Teleporter { is_entrance: bool },
}

/// The kind a building observation classifies as: a mini-sentry
/// regardless of level, a full sentry by its level 1 through 3 (any
/// other level is unknown), a dispenser, or a teleporter by direction.
pub open spec fn building_type_of_spec(b: RawBuilding) -> BuildingType {
    match b {
        RawBuilding::Sentry { is_mini: true, level: _ } => BuildingType::MiniSentry,
        RawBuilding::Sentry { is_mini: false, level } => {
            if level == 1 {
                BuildingType::Level1Sentry
            } else if level == 2 {
                BuildingType::Level2Sentry
            } else if level == 3 {
                BuildingType::Level3Sentry
            } else {
                BuildingType::Unknown
            }
        },
        RawBuilding::Dispenser => BuildingType::Dispenser,
        RawBuilding::Teleporter { is_entrance: true } => BuildingType::TeleporterEntrance,
        RawBuilding::Teleporter { is_entrance: false } => BuildingType::TeleporterExit,
    }
}

impl BuildingType {
    /// Classifies one building observation into its reduced kind.
    pub fn from_raw(b: &RawBuilding) -> (r: BuildingType)
        ensures
            r == building_type_of_spec(*b),
    {
        match b {
            RawBuilding::Sentry { is_mini: true, .. } => BuildingType::MiniSentry,
            RawBuilding::Sentry { is_mini: false, level: 1 } => BuildingType::Level1Sentry,
            RawBuilding::Sentry { is_mini: false, level: 2 } => BuildingType::Level2Sentry,
            RawBuilding::Sentry { is_mini: false, level: 3 } => BuildingType::Level3Sentry,
            RawBuilding::Sentry { is_mini: false, .. } => BuildingType::Unknown,
            RawBuilding::Dispenser => BuildingType::Dispenser,
            RawBuilding::Teleporter { is_entrance: true } => BuildingType::TeleporterEntrance,
            RawBuilding::Teleporter { is_entrance: false } => BuildingType::TeleporterExit,
        }
    }
}

/// The low byte of a little-endian 16-bit word.
pub open spec fn lo_byte(w: u16) -> u8 {
    (w & 0xff) as u8
}

/// The high byte of a little-endian 16-bit word.
pub open spec fn hi_byte(w: u16) -> u8 {
    (w >> 8) as u8
}

/// The 16-bit word read from two little-endian bytes.
pub open spec fn word_of(lo: u8, hi: u8) -> u16 {
    ((hi as u16) << 8) | (lo as u16)
}

/// A little-endian word is its high byte times 256 plus its low byte.
pub proof fn lemma_word_of_value(lo: u8, hi: u8)
    ensures
        word_of(lo, hi) == (hi as int) * 256 + lo as int,
{
    assert(((hi as u16) << 8) | (lo as u16) == (hi as int) * 256 + lo as int) by (bit_vector);
}

/// Reassembling a word from its little-endian bytes gives the word back.
pub proof fn lemma_word_le_roundtrip(w: u16)
    ensures
        word_of(lo_byte(w), hi_byte(w)) == w,
{
    assert(((((w >> 8) as u8) as u16) << 8) | (((w & 0xff) as u8) as u16) == w) by (bit_vector);
}


/// A 16-bit word assembled from a 2-bit field at bit 14, a 4-bit field at
/// bit 10 and a 10-bit field at bit 0, wrapping modulo 2^16.
pub open spec fn fields_word_2_4_10(t: u8, c: u8, h: u16) -> u16 {
    (((((t as u32) << 14) + ((c as u32) << 10) + (h as u32)) as u32) & 0xffff) as u16
}

/// A 16-bit word assembled from a 2-bit field at bit 14, a 1-bit field at
/// bit 13, a 3-bit field at bit 10 and a 10-bit field at bit 0, wrapping
/// modulo 2^16.
pub open spec fn fields_word_2_1_3_10(l: u8, t: u32, c: u8, h: u16) -> u16 {
    (((((l as u32) << 14) + (t << 13) + ((c as u32) << 10) + (h as u32)) as u32) & 0xffff) as u16
}

/// A byte assembled from a 3-bit field at bit 5 and a 1-bit field at
/// bit 4, the low four bits zero.
pub open spec fn fields_byte_3_1(c: u8, t: u32) -> u8 {
    ((((c as u32) << 5) + (t << 4)) as u32) as u8
}

/// One state of a player for one tick.  Health carries the live value
/// only while the player is alive; the accumulator zeroes it otherwise.
#[derive(Debug, Clone, Copy, PartialEq, Eq, Structural)]
pub struct PlayerState {
    pub position: QuantizedXY,
    pub angle: Angle,
    pub health: u16,
    pub team: Team,
    pub class: Class,
    pub charge: u8,
}

/// The player record's packed word: bits 15..14 team, bits 13..10 class,
/// bits 9..0 health.  Health above 1023 wraps into the upper fields
/// modulo 2^16, as an accepted loss.
pub open spec fn player_word(team: Team, class: Class, health: u16) -> u16 {
    fields_word_2_4_10(team.code_spec(), class.code_spec(), health)
}

/// The 8-byte player record: x, y, packed word (all little-endian), the
/// angle code and the charge byte.
pub open spec fn pack_player_spec(s: PlayerState) -> Seq<u8> {
    let w = player_word(s.team, s.class, s.health);
    seq![
        lo_byte(s.position.x),
        hi_byte(s.position.x),
        lo_byte(s.position.y),
        hi_byte(s.position.y),
        lo_byte(w),
        hi_byte(w),
        s.angle.0,
        s.charge,
    ]
}

/// The player state an 8-byte record decodes to.
pub open spec fn unpack_player_spec(b: Seq<u8>) -> PlayerState
    recommends
        b.len() == 8,
{
    let w = word_of(b[4], b[5]);
    PlayerState {
        position: QuantizedXY { x: word_of(b[0], b[1]), y: word_of(b[2], b[3]) },
        angle: Angle(b[6]),
        health: w & 1023,
        team: Team::new_spec(w >> 14),
        class: Class::new_spec((w >> 10) & 15),
        charge: b[7],
    }
}

/// The two shifted fields of the player word stay below their field
/// bounds, so assembling the word cannot overflow.
proof fn lemma_player_word_bounds(t: u8, c: u8)
    requires
        t < 4,
        c < 16,
    ensures
        ((t as u32) << 14) <= 0xc000,
        ((c as u32) << 10) <= 0x3c00,
{
    assert(((t as u32) << 14) <= 0xc000 && ((c as u32) << 10) <= 0x3c00) by (bit_vector)
        requires
            t < 4,
            c < 16,
    ;
}

impl PlayerState {
    /// Packs this state into its fixed 8-byte record.
    pub fn pack(&self) -> (r: [u8; 8])
        ensures
            r@ == pack_player_spec(*self),
    {
        let tc = self.team.code();
        let cc = self.class.code();
        proof {
            lemma_player_word_bounds(tc, cc);
        }
        let w32: u32 = ((tc as u32) << 14) + ((cc as u32) << 10) + (self.health as u32);
        let word: u16 = #[verifier::truncate] ((w32 & 0xffff) as u16);
        let r = [
            #[verifier::truncate] ((self.position.x & 0xff) as u8),
            #[verifier::truncate] ((self.position.x >> 8) as u8),
            #[verifier::truncate] ((self.position.y & 0xff) as u8),
            #[verifier::truncate] ((self.position.y >> 8) as u8),
            #[verifier::truncate] ((word & 0xff) as u8),
            #[verifier::truncate] ((word >> 8) as u8),
            self.angle.0,
            self.charge,
        ];
        proof {
            assert(r@ =~= pack_player_spec(*self));
        }
        r
    }

    /// Unpacks an 8-byte record into the state it encodes, positions and
    /// angle staying in their quantized codes.
    pub fn unpack(bytes: [u8; 8]) -> (r: PlayerState)
        ensures
            r == unpack_player_spec(bytes@),
    {
        let x = ((bytes[1] as u16) << 8) | (bytes[0] as u16);
        let y = ((bytes[3] as u16) << 8) | (bytes[2] as u16);
        let w = ((bytes[5] as u16) << 8) | (bytes[4] as u16);
        PlayerState {
            position: QuantizedXY { x, y },
            angle: Angle(bytes[6]),
            health: w & 1023,
            team: Team::new(w >> 14),
            class: Class::new((w >> 10) & 15),
            charge: bytes[7],
        }
    }
}

/// Team, class and in-range health decode from the player word exactly.
proof fn lemma_player_word_fields(team: Team, class: Class, h: u16)
    requires
        h < 1024,
    ensures
        player_word(team, class, h) >> 14 == team.code_spec(),
        (player_word(team, class, h) >> 10) & 15 == class.code_spec(),
        player_word(team, class, h) & 1023 == h,
{
    let t = team.code_spec();
    let c = class.code_spec();
    assert(t < 4 && c < 16);
    assert(fields_word_2_4_10(t, c, h) >> 14 == t && (fields_word_2_4_10(t, c, h) >> 10) & 15 == c
        && fields_word_2_4_10(t, c, h) & 1023 == h) by (bit_vector)
        requires
            t < 4,
            c < 16,
            h < 1024,
    ;
}

/// Law: a player record round-trips exactly on every categorical field
/// (team and class over their whole domains) and on health up to the
/// 10-bit field width; position and angle codes come back unchanged.
pub proof fn lemma_player_record_roundtrip(s: PlayerState)
    requires
        s.health < 1024,
    ensures
        unpack_player_spec(pack_player_spec(s)) == s,
{
    lemma_word_le_roundtrip(s.position.x);
    lemma_word_le_roundtrip(s.position.y);
    lemma_word_le_roundtrip(player_word(s.team, s.class, s.health));
    lemma_player_word_fields(s.team, s.class, s.health);
}

/// One state of a building for one tick.
#[derive(Debug, Clone, Copy, PartialEq, Eq, Structural)]
pub struct BuildingState {
    pub position: QuantizedXY,
    pub angle: Angle,
    pub health: u16,
    pub team: Team,
    pub ty: BuildingType,
    pub level: u8,
}

/// Whether a team packs to the set single-bit team code (blue packs to 0,
/// every other team to 1).
pub open spec fn team_bit(team: Team) -> u32 {
    if team == Team::Blue {
        0
    } else {
        1
    }
}

/// The building record's packed word: bits 15..14 upgrade level, bit 13
/// team, bits 12..10 kind, bits 9..0 health.  A level above 3 or health
/// above 1023 wraps modulo the field widths, as an accepted loss.
pub open spec fn building_word(level: u8, team: Team, ty: BuildingType, health: u16) -> u16 {
    fields_word_2_1_3_10(level, team_bit(team), ty.code_spec(), health)
}

/// The 7-byte building record: x, y, packed word (all little-endian) and
/// the angle code.
pub open spec fn pack_building_spec(s: BuildingState) -> Seq<u8> {
    let w = building_word(s.level, s.team, s.ty, s.health);
    seq![
        lo_byte(s.position.x),
        hi_byte(s.position.x),
        lo_byte(s.position.y),
        hi_byte(s.position.y),
        lo_byte(w),
        hi_byte(w),
        s.angle.0,
    ]
}

/// The building state a 7-byte record decodes to.  The single team bit
/// decodes to blue or red.
pub open spec fn unpack_building_spec(b: Seq<u8>) -> BuildingState
    recommends
        b.len() == 7,
{
    let w = word_of(b[4], b[5]);
    BuildingState {
        position: QuantizedXY { x: word_of(b[0], b[1]), y: word_of(b[2], b[3]) },
        angle: Angle(b[6]),
        health: w & 1023,
        team: if (w >> 13) & 1 == 0 {
            Team::Blue
        } else {
            Team::Red
        },
        ty: BuildingType::new_spec(((w >> 10) & 7) as u8),
        level: (w >> 14) as u8,
    }
}

/// The shifted fields of the building word stay below their field bounds,
/// so assembling the word cannot overflow.
proof fn lemma_building_word_bounds(l: u8, t: u32, c: u8)
    requires
        t < 2,
        c < 8,
    ensures
        ((l as u32) << 14) <= 0xffc000,
        (t << 13) <= 0x2000,
        ((c as u32) << 10) <= 0x1c00,
    {
    assert(((l as u32) << 14) <= 0xffc000 && ((c as u32) << 10) <= 0x1c00 && (t << 13) <= 0x2000)
        by (bit_vector)
        requires
            t < 2,
            c < 8,
    ;
}

impl BuildingState {
    /// Builds a building state from its plain fields.
    pub fn new(
        position: QuantizedXY,
        angle: Angle,
        health: u16,
        team: Team,
        ty: BuildingType,
        level: u8,
    ) -> (r: BuildingState)
        ensures
            r == (BuildingState { position, angle, health, team, ty, level }),
    {
        BuildingState { position, angle, health, team, ty, level }
    }

    /// Packs this state into its fixed 7-byte record.
    pub fn pack(&self) -> (r: [u8; 7])
        ensures
            r@ == pack_building_spec(*self),
    {
        let tb: u32 = if self.team == Team::Blue {
            0
        } else {
            1
        };
        let ty = self.ty.code();
        proof {
            lemma_building_word_bounds(self.level, tb, ty);
        }
        let w32: u32 = ((self.level as u32) << 14) + (tb << 13) + ((ty as u32) << 10) + (
        self.health as u32);
        let word: u16 = #[verifier::truncate] ((w32 & 0xffff) as u16);
        let r = [
            #[verifier::truncate] ((self.position.x & 0xff) as u8),
            #[verifier::truncate] ((self.position.x >> 8) as u8),
            #[verifier::truncate] ((self.position.y & 0xff) as u8),
            #[verifier::truncate] ((self.position.y >> 8) as u8),
            #[verifier::truncate] ((word & 0xff) as u8),
            #[verifier::truncate] ((word >> 8) as u8),
            self.angle.0,
        ];
        proof {
            assert(r@ =~= pack_building_spec(*self));
        }
        r
    }

    /// Unpacks a 7-byte record into the state it encodes.
    pub fn unpack(bytes: [u8; 7]) -> (r: BuildingState)
        ensures
            r == unpack_building_spec(bytes@),
    {
        let x = ((bytes[1] as u16) << 8) | (bytes[0] as u16);
        let y = ((bytes[3] as u16) << 8) | (bytes[2] as u16);
        let w = ((bytes[5] as u16) << 8) | (bytes[4] as u16);
        let team = if (w >> 13) & 1 == 0 {
            Team::Blue
        } else {
            Team::Red
        };
        BuildingState {
            position: QuantizedXY { x, y },
            angle: Angle(bytes[6]),
            health: w & 1023,
            team,
            ty: BuildingType::new(#[verifier::truncate] (((w >> 10) & 7) as u8)),
            level: #[verifier::truncate] ((w >> 14) as u8),
        }
    }
}

/// Level, team bit, kind and in-range health decode from the building
/// word exactly.
proof fn lemma_building_word_fields(level: u8, team: Team, ty: BuildingType, h: u16)
    requires
        level < 4,
        h < 1024,
    ensures
        building_word(level, team, ty, h) >> 14 == level,
        (building_word(level, team, ty, h) >> 13) & 1 == team_bit(team),
        (building_word(level, team, ty, h) >> 10) & 7 == ty.code_spec(),
        building_word(level, team, ty, h) & 1023 == h,
{
    let l = level;
    let t = team_bit(team);
    let c = ty.code_spec();
    assert(t < 2 && c < 8);
    assert(fields_word_2_1_3_10(l, t, c, h) >> 14 == l && (fields_word_2_1_3_10(l, t, c, h) >> 13)
        & 1 == t && (fields_word_2_1_3_10(l, t, c, h) >> 10) & 7 == c && fields_word_2_1_3_10(
        l,
        t,
        c,
        h,
    ) & 1023 == h) by (bit_vector)
        requires
            l < 4,
            t < 2,
            c < 8,
            h < 1024,
    ;
}

/// Law: a building record round-trips exactly on its categorical fields
/// over their whole domains: kind (all eight values), upgrade level up to
/// 3, blue or red team, and health up to the 10-bit field width.
pub proof fn lemma_building_record_roundtrip(s: BuildingState)
    requires
        s.health < 1024,
        s.level < 4,
        s.team == Team::Blue || s.team == Team::Red,
    ensures
        unpack_building_spec(pack_building_spec(s)) == s,
{
    lemma_word_le_roundtrip(s.position.x);
    lemma_word_le_roundtrip(s.position.y);
    lemma_word_le_roundtrip(building_word(s.level, s.team, s.ty, s.health));
    lemma_building_word_fields(s.level, s.team, s.ty, s.health);
}

/// One state of a projectile for one tick.
#[derive(Debug, Clone, Copy, PartialEq, Eq, Structural)]
pub struct ProjectileState {
    pub position: QuantizedXY,
    pub team: Team,
    pub ty: ProjectileType,
    pub angle: Angle,
}

/// The projectile record's packed byte: bits 7..5 kind, bit 4 team, the
/// low four bits unused and zero.
pub open spec fn projectile_byte(ty: ProjectileType, team: Team) -> u8 {
    fields_byte_3_1(ty.code_spec(), team_bit(team))
}

/// The 6-byte projectile record: x, y (little-endian), the packed
/// kind-and-team byte, and the angle kept coarse: only the low 4 bits of
/// the angle code (16 discrete facings), the upper 4 bits zero.
pub open spec fn pack_projectile_spec(s: ProjectileState) -> Seq<u8> {
    seq![
        lo_byte(s.position.x),
        hi_byte(s.position.x),
        lo_byte(s.position.y),
        hi_byte(s.position.y),
        projectile_byte(s.ty, s.team),
        s.angle.0 & 0x0f,
    ]
}

/// The projectile state a 6-byte record decodes to.  The single team bit
/// decodes to blue or red; only the low 4 bits of the angle byte carry a
/// facing.
pub open spec fn unpack_projectile_spec(b: Seq<u8>) -> ProjectileState
    recommends
        b.len() == 6,
{
    ProjectileState {
        position: QuantizedXY { x: word_of(b[0], b[1]), y: word_of(b[2], b[3]) },
        team: if (b[4] >> 4) & 1 == 0 {
            Team::Blue
        } else {
            Team::Red
        },
        ty: ProjectileType::new_spec((b[4] >> 5) & 7),
        angle: Angle(b[5] & 0x0f),
    }
}

/// The two shifted fields of the projectile byte stay below their field
/// bounds, so assembling the byte cannot overflow.
proof fn lemma_projectile_byte_bounds(c: u8, t: u32)
    requires
        c < 8,
        t < 2,
    ensures
        ((c as u32) << 5) <= 0xe0,
        (t << 4) <= 0x10,
{
    assert(((c as u32) << 5) <= 0xe0 && (t << 4) <= 0x10) by (bit_vector)
        requires
            c < 8,
            t < 2,
    ;
}

impl ProjectileState {
    /// Builds a projectile state from its plain fields.
    pub fn new(position: QuantizedXY, team: Team, ty: ProjectileType, angle: Angle) -> (r:
        ProjectileState)
        ensures
            r == (ProjectileState { position, team, ty, angle }),
    {
        ProjectileState { position, team, ty, angle }
    }

    /// Packs this state into its fixed 6-byte record, keeping only the
    /// coarse low 4 bits of the angle code.
    pub fn pack(&self) -> (r: [u8; 6])
        ensures
            r@ == pack_projectile_spec(*self),
    {
        let tb: u32 = if self.team == Team::Blue {
            0
        } else {
            1
        };
        let ty = self.ty.code();
        proof {
            lemma_projectile_byte_bounds(ty, tb);
        }
        let team_type: u8 = #[verifier::truncate] (((((ty as u32) << 5) + (tb << 4)) as u32) as u8);
        let r = [
            #[verifier::truncate] ((self.position.x & 0xff) as u8),
            #[verifier::truncate] ((self.position.x >> 8) as u8),
            #[verifier::truncate] ((self.position.y & 0xff) as u8),
            #[verifier::truncate] ((self.position.y >> 8) as u8),
            team_type,
            self.angle.0 & 0x0f,
        ];
        proof {
            assert(r@ =~= pack_projectile_spec(*self));
        }
        r
    }

    /// Unpacks a 6-byte record into the state it encodes.
    pub fn unpack(bytes: [u8; 6]) -> (r: ProjectileState)
        ensures
            r == unpack_projectile_spec(bytes@),
    {
        let x = ((bytes[1] as u16) << 8) | (bytes[0] as u16);
        let y = ((bytes[3] as u16) << 8) | (bytes[2] as u16);
        let team_type = bytes[4];
        let team = if (team_type >> 4) & 1 == 0 {
            Team::Blue
        } else {
            Team::Red
        };
        ProjectileState {
            position: QuantizedXY { x, y },
            team,
            ty: ProjectileType::new((team_type >> 5) & 7),
            angle: Angle(bytes[5] & 0x0f),
        }
    }
}

/// Kind and team bit decode from the projectile byte exactly.
proof fn lemma_projectile_byte_fields(ty: ProjectileType, team: Team)
    ensures
        (projectile_byte(ty, team) >> 5) & 7 == ty.code_spec(),
        (projectile_byte(ty, team) >> 4) & 1 == team_bit(team),
{
    let c = ty.code_spec();
    let t = team_bit(team);
    assert(c < 8 && t < 2);
    assert((fields_byte_3_1(c, t) >> 5) & 7 == c && (fields_byte_3_1(c, t) >> 4) & 1 == t)
        by (bit_vector)
        requires
            c < 8,
            t < 2,
    ;
}

/// Law: a projectile record round-trips exactly on its categorical
/// fields, kind over all seven values and blue or red team; position
/// codes come back unchanged, and an angle within the record's 16 coarse
/// facings comes back unchanged too.
pub proof fn lemma_projectile_record_roundtrip(s: ProjectileState)
    requires
        s.team == Team::Blue || s.team == Team::Red,
        s.angle.0 < 16,
    ensures
        unpack_projectile_spec(pack_projectile_spec(s)) == s,
{
    lemma_word_le_roundtrip(s.position.x);
    lemma_word_le_roundtrip(s.position.y);
    lemma_projectile_byte_fields(s.ty, s.team);
    let a = s.angle.0;
    assert((a & 0x0f) & 0x0f == a) by (bit_vector)
        requires
            a < 16,
    ;
}

/// Law: whatever angle code goes in, the projectile record carries and
/// returns only its low 4 bits; the upper 4 bits of the angle byte are
/// zero.
pub proof fn lemma_projectile_angle_coarse(s: ProjectileState)
    ensures
        pack_projectile_spec(s)[5] == s.angle.0 & 0x0f,
        pack_projectile_spec(s)[5] >> 4 == 0,
        unpack_projectile_spec(pack_projectile_spec(s)).angle == Angle(s.angle.0 & 0x0f),
{
    let a = s.angle.0;
    assert((a & 0x0f) >> 4 == 0 && (a & 0x0f) & 0x0f == a & 0x0f) by (bit_vector);
}

/// Law: every team code round-trips exactly through its two-bit field.
pub proof fn lemma_team_code_roundtrip(t: Team)
    ensures
        Team::new_spec(t.code_spec() as u16) == t,
{
}

/// Law: every class code round-trips exactly through its 4-bit field.
pub proof fn lemma_class_code_roundtrip(c: Class)
    ensures
        Class::new_spec(c.code_spec() as u16) == c,
{
}

/// Law: every building-kind code round-trips exactly through its 3-bit
/// field.
pub proof fn lemma_building_type_code_roundtrip(t: BuildingType)
    ensures
        BuildingType::new_spec(t.code_spec()) == t,
{
}

/// Law: every projectile-kind code round-trips exactly through its 3-bit
/// field.
pub proof fn lemma_projectile_type_code_roundtrip(t: ProjectileType)
    ensures
        ProjectileType::new_spec(t.code_spec()) == t,
{
}

} // verus!
