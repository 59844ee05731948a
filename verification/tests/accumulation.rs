use demopack::codec::Angle;
use demopack::codec::BuildingState;
use demopack::codec::BuildingType;
use demopack::codec::Class;
use demopack::codec::PlayerState;
use demopack::codec::ProjectileState;
use demopack::codec::ProjectileType;
use demopack::codec::QuantizedXY;
use demopack::codec::Team;
use demopack::events::RawBuildingType;
use demopack::events::RawGameEvent;
use demopack::events::SearchableEvent;
use demopack::flat::FlatState;
use demopack::state::GameSnapshot;
use demopack::state::Kill;
use demopack::state::ParsedDemo;
use demopack::state::PlayerEntry;
use demopack::state::PlayerInfo;

fn entry(x: u16, y: u16, health: u16, info: Option<PlayerInfo>) -> PlayerEntry {
    PlayerEntry {
        position: QuantizedXY { x, y },
        angle: Angle(40),
        health,
        alive: true,
        team: Team::Red,
        class: Class::Scout,
        charge: 0,
        info,
    }
}

fn entry_record(e: &PlayerEntry) -> [u8; 8] {
    let state = PlayerState {
        position: e.position,
        angle: e.angle,
        health: if e.alive { e.health } else { 0 },
        team: e.team,
        class: e.class,
        charge: e.charge,
    };
    state.pack()
}

fn snapshot(tick: u32, players: Vec<PlayerEntry>) -> GameSnapshot {
    GameSnapshot {
        has_world: true,
        tick,
        players,
        buildings: Vec::new(),
        projectiles: Vec::new(),
    }
}

fn info(name: &str) -> PlayerInfo {
    PlayerInfo {
        name: String::from(name),
        steam_id: String::from("STEAM_0:1:11111"),
        entity_id: 2,
    }
}

#[test]
fn skip_tick_duplication() {
    // snapshots arrive at even ticks only; every native tick still gets a
    // record, and tick 2n+1's record is byte-identical to tick 2n's
    let mut demo = ParsedDemo::new();
    let first = entry(100, 200, 50, None);
    let second = entry(300, 400, 80, None);
    demo.push_state(&snapshot(2, vec![first.clone()]));
    demo.push_state(&snapshot(4, vec![second.clone()]));
    assert_eq!(demo.tick, 4);
    assert_eq!(demo.players.len(), 1);
    let buf = &demo.players[0];
    assert_eq!(buf.len(), 4 * 8);
    let rec_a = entry_record(&first);
    let rec_b = entry_record(&second);
    assert_eq!(&buf[0..8], &rec_a);
    assert_eq!(&buf[8..16], &rec_a);
    assert_eq!(&buf[16..24], &rec_b);
    assert_eq!(&buf[24..32], &rec_b);
    assert_eq!(&buf[0..8], &buf[8..16]);
    assert_eq!(&buf[16..24], &buf[24..32]);
}

#[test]
fn late_player_is_backfilled_with_zero_records() {
    // a player first observed at tick 2 has its buffer's first 2 records
    // equal to all-zero bytes
    let mut demo = ParsedDemo::new();
    let veteran = entry(1, 1, 10, None);
    let newcomer = entry(9, 9, 99, None);
    demo.push_state(&snapshot(2, vec![veteran.clone()]));
    demo.push_state(&snapshot(4, vec![veteran.clone(), newcomer.clone()]));
    assert_eq!(demo.players.len(), 2);
    let buf = &demo.players[1];
    assert_eq!(buf.len(), 4 * 8);
    assert!(buf[0..16].iter().all(|b| *b == 0));
    let rec = entry_record(&newcomer);
    assert_eq!(&buf[16..24], &rec);
    assert_eq!(&buf[24..32], &rec);
}

#[test]
fn buffers_stay_tick_aligned() {
    let mut demo = ParsedDemo::new();
    let building = BuildingState {
        position: QuantizedXY { x: 5, y: 6 },
        angle: Angle(1),
        health: 150,
        team: Team::Blue,
        ty: BuildingType::Dispenser,
        level: 1,
    };
    demo.push_state(&GameSnapshot {
        has_world: true,
        tick: 3,
        players: vec![entry(1, 2, 3, None)],
        buildings: vec![building],
        projectiles: Vec::new(),
    });
    demo.push_state(&snapshot(5, vec![entry(4, 5, 6, None), entry(7, 8, 9, None)]));
    for buf in &demo.players {
        assert_eq!(buf.len() % 8, 0);
        assert_eq!(buf.len(), demo.tick * 8);
    }
    for buf in &demo.buildings {
        assert_eq!(buf.len() % 7, 0);
        assert!(buf.len() <= demo.tick * 7);
    }
}

#[test]
fn snapshot_without_world_is_ignored() {
    let mut demo = ParsedDemo::new();
    demo.push_state(&snapshot(2, vec![entry(1, 2, 3, None)]));
    let before_tick = demo.tick;
    let before_players = demo.players.clone();
    demo.push_state(&GameSnapshot {
        has_world: false,
        tick: 50,
        players: vec![entry(4, 5, 6, None)],
        buildings: Vec::new(),
        projectiles: Vec::new(),
    });
    assert_eq!(demo.tick, before_tick);
    assert_eq!(demo.players, before_players);
    // the next real snapshot still replays from the last processed tick
    demo.push_state(&snapshot(3, vec![entry(4, 5, 6, None)]));
    assert_eq!(demo.tick, 3);
}

#[test]
fn finish_pads_lapsed_building_buffers() {
    let mut demo = ParsedDemo::new();
    let building = BuildingState {
        position: QuantizedXY { x: 5, y: 6 },
        angle: Angle(1),
        health: 150,
        team: Team::Blue,
        ty: BuildingType::MiniSentry,
        level: 1,
    };
    demo.push_state(&GameSnapshot {
        has_world: true,
        tick: 1,
        players: vec![entry(1, 2, 3, None)],
        buildings: vec![building.clone()],
        projectiles: Vec::new(),
    });
    // the building is gone in the later snapshot: its buffer lapses
    demo.push_state(&snapshot(3, vec![entry(1, 2, 3, None)]));
    assert_eq!(demo.buildings[0].len(), 7);
    demo.finish(&Vec::new());
    assert!(demo.finalized);
    let buf = &demo.buildings[0];
    assert_eq!(buf.len(), 3 * 7);
    assert_eq!(&buf[0..7], &building.pack());
    assert!(buf[7..21].iter().all(|b| *b == 0));
}

#[test]
fn event_filtering() {
    // one charge-deployed event and one object-destroyed event with an
    // unrecognized type code yield exactly one output event
    let log = vec![
        (
            100u32,
            RawGameEvent::ChargeDeployed { user_id: 3, target_id: 5 },
        ),
        (
            120u32,
            RawGameEvent::ObjectDestroyed {
                attacker: 1,
                assister: 2,
                user_id: 3,
                weapon: String::from("wrench"),
                object_type: 9,
            },
        ),
    ];
    let mut demo = ParsedDemo::new();
    demo.push_state(&snapshot(1, vec![entry(1, 2, 3, None)]));
    demo.finish(&log);
    assert_eq!(
        demo.events,
        vec![SearchableEvent::Uber { user_id: 3, target_id: 5, tick: 100 }]
    );
}

#[test]
fn known_building_destruction_is_kept_in_order() {
    let destroyed = RawGameEvent::ObjectDestroyed {
        attacker: 11,
        assister: 12,
        user_id: 13,
        weapon: String::from("shotgun"),
        object_type: 2,
    };
    let log = vec![
        (40u32, destroyed),
        (60u32, RawGameEvent::Other),
        (
            80u32,
            RawGameEvent::ChargeDeployed { user_id: 1, target_id: 2 },
        ),
    ];
    let mut demo = ParsedDemo::new();
    demo.push_state(&snapshot(1, vec![entry(1, 2, 3, None)]));
    demo.finish(&log);
    assert_eq!(
        demo.events,
        vec![
            SearchableEvent::BuildingDestroyed {
                attacker_id: 11,
                assister_id: 12,
                victim_id: 13,
                weapon: String::from("shotgun"),
                building_type: RawBuildingType::SentryGun,
                tick: 40,
            },
            SearchableEvent::Uber { user_id: 1, target_id: 2, tick: 80 },
        ]
    );
}

#[test]
fn raw_building_type_codes() {
    assert_eq!(RawBuildingType::try_from(0), Some(RawBuildingType::Dispenser));
    assert_eq!(RawBuildingType::try_from(1), Some(RawBuildingType::Teleporter));
    assert_eq!(RawBuildingType::try_from(2), Some(RawBuildingType::SentryGun));
    assert_eq!(RawBuildingType::try_from(3), None);
    assert_eq!(RawBuildingType::try_from(u16::MAX), None);
}

#[test]
fn from_event_drops_everything_else() {
    assert_eq!(SearchableEvent::from_event(5, &RawGameEvent::Other), None);
    let unknown = RawGameEvent::ObjectDestroyed {
        attacker: 1,
        assister: 2,
        user_id: 3,
        weapon: String::from("club"),
        object_type: 7,
    };
    assert_eq!(SearchableEvent::from_event(5, &unknown), None);
}

#[test]
fn player_info_is_captured_once() {
    let mut demo = ParsedDemo::new();
    let named = entry(1, 2, 3, Some(info("alpha")));
    demo.push_state(&snapshot(2, vec![named.clone()]));
    demo.push_state(&snapshot(4, vec![named.clone()]));
    assert_eq!(demo.player_info.len(), 1);
    assert_eq!(demo.player_info[0].name, "alpha");
    assert_eq!(demo.player_info[0].entity_id, 2);
}

#[test]
fn max_counts_track_peaks() {
    let building = BuildingState {
        position: QuantizedXY { x: 0, y: 0 },
        angle: Angle(0),
        health: 1,
        team: Team::Red,
        ty: BuildingType::Dispenser,
        level: 1,
    };
    let projectile = ProjectileState {
        position: QuantizedXY { x: 0, y: 0 },
        team: Team::Blue,
        ty: ProjectileType::Rocket,
        angle: Angle(0),
    };
    let mut demo = ParsedDemo::new();
    demo.push_state(&GameSnapshot {
        has_world: true,
        tick: 1,
        players: vec![entry(1, 1, 1, None)],
        buildings: vec![building.clone(), building.clone()],
        projectiles: vec![projectile.clone(), projectile.clone(), projectile.clone()],
    });
    demo.push_state(&GameSnapshot {
        has_world: true,
        tick: 2,
        players: vec![entry(1, 1, 1, None)],
        buildings: vec![building],
        projectiles: Vec::new(),
    });
    assert_eq!(demo.max_building_count, 2);
    assert_eq!(demo.max_projectile_count, 3);
}

#[test]
fn size_counts_player_bytes() {
    let mut demo = ParsedDemo::new();
    demo.push_state(&snapshot(3, vec![entry(1, 1, 1, None), entry(2, 2, 2, None)]));
    assert_eq!(demo.size(), 2 * 3 * 8);
}

#[test]
fn flatten_concatenates_buffers_and_spreads_kills() {
    let mut demo = ParsedDemo::new();
    let building = BuildingState {
        position: QuantizedXY { x: 3, y: 4 },
        angle: Angle(2),
        health: 90,
        team: Team::Blue,
        ty: BuildingType::TeleporterExit,
        level: 2,
    };
    demo.push_state(&GameSnapshot {
        has_world: true,
        tick: 2,
        players: vec![entry(1, 2, 3, None), entry(4, 5, 6, None)],
        buildings: vec![building],
        projectiles: Vec::new(),
    });
    demo.kills = vec![
        Kill {
            tick: 42,
            attacker_id: 300,
            assister_id: 2,
            victim_id: 3,
            weapon: String::from("scattergun"),
        },
    ];
    demo.finish(&Vec::new());

    let mut expected: Vec<u8> = Vec::new();
    for buf in &demo.players {
        expected.extend_from_slice(buf);
    }
    for buf in &demo.buildings {
        expected.extend_from_slice(buf);
    }

    let flat = FlatState::new(demo);
    assert_eq!(flat.player_count, 2);
    assert_eq!(flat.building_count, 1);
    assert_eq!(flat.data, expected);
    assert_eq!(flat.kill_ticks, vec![42]);
    // attacker ids are truncated to a byte: 300 mod 256
    assert_eq!(flat.attackers, vec![44]);
    assert_eq!(flat.assisters, vec![2]);
    assert_eq!(flat.victims, vec![3]);
    assert_eq!(flat.weapons, vec![String::from("scattergun")]);
}
