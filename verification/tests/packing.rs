use demopack::codec::Angle;
use demopack::codec::BuildingState;
use demopack::codec::BuildingType;
use demopack::codec::Class;
use demopack::codec::PlayerState;
use demopack::codec::ProjectileState;
use demopack::codec::ProjectileType;
use demopack::codec::QuantizedXY;
use demopack::codec::RawBuilding;
use demopack::codec::Team;

/// The scalar quantizer: linear rescale of `[min, max]` to `[0, 65535]`,
/// truncated.
fn quantize(val: f32, min: f32, max: f32) -> u16 {
    let ratio = (val - min) / (max - min);
    (ratio * u16::MAX as f32) as u16
}

/// The inverse affine map of `quantize`.
fn dequantize(code: u16, min: f32, max: f32) -> f32 {
    let ratio = code as f32 / (u16::MAX as f32);
    ratio * (max - min) + min
}

/// The angle quantizer: degrees normalized into `[0, 360)`, scaled to
/// `[0, 255]`, truncated.
fn angle_code(val: f32) -> u8 {
    let ratio = val.rem_euclid(360.0) / 360.0;
    (ratio * u8::MAX as f32) as u8
}

/// The inverse of `angle_code`.
fn angle_degrees(code: u8) -> f32 {
    let ratio = code as f32 / u8::MAX as f32;
    ratio * 360.0
}

const MIN: f32 = -10000.0;
const MAX: f32 = 10000.0;

#[test]
fn test_player_packing() {
    let input = PlayerState {
        position: QuantizedXY {
            x: quantize(100.0, MIN, MAX),
            y: quantize(-5000.0, MIN, MAX),
        },
        angle: Angle(angle_code(213.0)),
        health: 250,
        team: Team::Blue,
        class: Class::Demoman,
        charge: 7,
    };

    let bytes = input.pack();

    let unpacked = PlayerState::unpack(bytes);
    assert_eq!(input.angle, unpacked.angle);
    assert_eq!(input.health, unpacked.health);
    assert_eq!(input.class, unpacked.class);
    assert_eq!(input.team, unpacked.team);
    assert_eq!(input.charge, unpacked.charge);

    let x = dequantize(unpacked.position.x, MIN, MAX);
    let y = dequantize(unpacked.position.y, MIN, MAX);
    assert!(f32::abs(100.0 - x) < 0.5);
    assert!(f32::abs(-5000.0 - y) < 0.5);
}

#[test]
fn test_building_packing() {
    let input = BuildingState {
        position: QuantizedXY {
            x: quantize(100.0, MIN, MAX),
            y: quantize(-5000.0, MIN, MAX),
        },
        angle: Angle(angle_code(213.0)),
        health: 250,
        team: Team::Blue,
        level: 3,
        ty: BuildingType::Level1Sentry,
    };

    let bytes = input.pack();

    let unpacked = BuildingState::unpack(bytes);
    assert_eq!(input.angle, unpacked.angle);
    assert_eq!(input.health, unpacked.health);
    assert_eq!(input.ty, unpacked.ty);
    assert_eq!(input.team, unpacked.team);
    assert_eq!(input.level, unpacked.level);

    let x = dequantize(unpacked.position.x, MIN, MAX);
    let y = dequantize(unpacked.position.y, MIN, MAX);
    assert!(f32::abs(100.0 - x) < 0.5);
    assert!(f32::abs(-5000.0 - y) < 0.5);
}

#[test]
fn test_projectile_packing() {
    let input = ProjectileState {
        position: QuantizedXY {
            x: quantize(100.0, MIN, MAX),
            y: quantize(-5000.0, MIN, MAX),
        },
        angle: Angle(angle_code(123.0)),
        team: Team::Blue,
        ty: ProjectileType::Flare,
    };

    let bytes = input.pack();

    let unpacked = ProjectileState::unpack(bytes);
    assert_eq!(input.ty, unpacked.ty);
    assert_eq!(input.team, unpacked.team);
    // the projectile record keeps the angle coarse: low 4 bits only
    assert_eq!(Angle(input.angle.0 & 0x0f), unpacked.angle);

    let x = dequantize(unpacked.position.x, MIN, MAX);
    let y = dequantize(unpacked.position.y, MIN, MAX);
    assert!(f32::abs(100.0 - x) < 0.5);
    assert!(f32::abs(-5000.0 - y) < 0.5);
}

#[test]
fn player_record_exact_bytes() {
    // x = trunc(10100/20000 * 65535) = 33095 = 0x8147
    // y = trunc(5000/20000 * 65535) = 16383 = 0x3fff
    // word = 3 << 14 | 4 << 10 | 250 = 0xd0fa
    // angle = trunc(213/360 * 255) = 150
    let input = PlayerState {
        position: QuantizedXY {
            x: quantize(100.0, MIN, MAX),
            y: quantize(-5000.0, MIN, MAX),
        },
        angle: Angle(angle_code(213.0)),
        health: 250,
        team: Team::Blue,
        class: Class::Demoman,
        charge: 7,
    };
    assert_eq!(input.position.x, 33095);
    assert_eq!(input.position.y, 16383);
    let bytes = input.pack();
    assert_eq!(bytes, [0x47, 0x81, 0xff, 0x3f, 0xfa, 0xd0, 150, 7]);
}

#[test]
fn scalar_quantizer_round_trip_bound() {
    let step = (MAX - MIN) / 65535.0;
    let mut value = MIN;
    while value <= MAX {
        let code = quantize(value, MIN, MAX);
        let back = dequantize(code, MIN, MAX);
        assert!((back - value).abs() <= step, "value {value}: back {back}");
        value += 333.25;
    }
    // an asymmetric range
    let code = quantize(2.5, -1.0, 14.0);
    let back = dequantize(code, -1.0, 14.0);
    assert!((back - 2.5).abs() <= 15.0 / 65535.0);
}

#[test]
fn angle_quantizer_round_trip_bound() {
    let step = 360.0 / 255.0;
    let mut angle: f32 = -720.0;
    while angle < 720.0 {
        let code = angle_code(angle);
        let back = angle_degrees(code);
        assert!((back - angle.rem_euclid(360.0)).abs() <= step, "angle {angle}");
        // invariant under adding multiples of 360
        assert_eq!(code, angle_code(angle + 360.0));
        assert_eq!(code, angle_code(angle - 720.0));
        angle += 17.375;
    }
}

#[test]
fn categorical_codes_round_trip() {
    let teams = [Team::Other, Team::Spectator, Team::Red, Team::Blue];
    for (raw, team) in teams.iter().enumerate() {
        assert_eq!(Team::new(raw as u16), *team);
        assert_eq!(team.code(), raw as u8);
    }
    let classes = [
        Class::Other,
        Class::Scout,
        Class::Sniper,
        Class::Soldier,
        Class::Demoman,
        Class::Medic,
        Class::Heavy,
        Class::Pyro,
        Class::Spy,
        Class::Engineer,
    ];
    for (raw, class) in classes.iter().enumerate() {
        assert_eq!(Class::new(raw as u16), *class);
        assert_eq!(class.code(), raw as u8);
    }
    let buildings = [
        BuildingType::TeleporterEntrance,
        BuildingType::TeleporterExit,
        BuildingType::Dispenser,
        BuildingType::Level1Sentry,
        BuildingType::Level2Sentry,
        BuildingType::Level3Sentry,
        BuildingType::MiniSentry,
        BuildingType::Unknown,
    ];
    for (raw, ty) in buildings.iter().enumerate() {
        assert_eq!(BuildingType::new(raw as u8), *ty);
        assert_eq!(ty.code(), raw as u8);
    }
    let projectiles = [
        ProjectileType::Rocket,
        ProjectileType::HealingArrow,
        ProjectileType::Sticky,
        ProjectileType::Pipe,
        ProjectileType::Flare,
        ProjectileType::LooseCannon,
        ProjectileType::Unknown,
    ];
    for ty in projectiles.iter() {
        assert_eq!(ProjectileType::new(ty.code()), *ty);
    }
}

#[test]
fn every_categorical_field_survives_a_record_round_trip() {
    for team in [Team::Blue, Team::Red] {
        for ty in [
            BuildingType::TeleporterEntrance,
            BuildingType::TeleporterExit,
            BuildingType::Dispenser,
            BuildingType::Level1Sentry,
            BuildingType::Level2Sentry,
            BuildingType::Level3Sentry,
            BuildingType::MiniSentry,
            BuildingType::Unknown,
        ] {
            for level in 0..4u8 {
                let b = BuildingState {
                    position: QuantizedXY { x: 1, y: 2 },
                    angle: Angle(9),
                    health: 1023,
                    team,
                    ty,
                    level,
                };
                assert_eq!(BuildingState::unpack(b.pack()), b);
            }
        }
        for ty in [
            ProjectileType::Rocket,
            ProjectileType::HealingArrow,
            ProjectileType::Sticky,
            ProjectileType::Pipe,
            ProjectileType::Flare,
            ProjectileType::LooseCannon,
            ProjectileType::Unknown,
        ] {
            let p = ProjectileState {
                position: QuantizedXY { x: 7, y: 8 },
                team,
                ty,
                angle: Angle(200),
            };
            let expected = ProjectileState {
                angle: Angle(200 & 0x0f),
                ..p
            };
            assert_eq!(ProjectileState::unpack(p.pack()), expected);
        }
    }
    for team in [Team::Other, Team::Spectator, Team::Red, Team::Blue] {
        for class in [
            Class::Other,
            Class::Scout,
            Class::Sniper,
            Class::Soldier,
            Class::Demoman,
            Class::Medic,
            Class::Heavy,
            Class::Pyro,
            Class::Spy,
            Class::Engineer,
        ] {
            let s = PlayerState {
                position: QuantizedXY { x: 65535, y: 0 },
                angle: Angle(255),
                health: 1023,
                team,
                class,
                charge: 255,
            };
            assert_eq!(PlayerState::unpack(s.pack()), s);
        }
    }
}

#[test]
fn health_above_ten_bits_wraps_into_upper_fields() {
    // the documented modular-wraparound edge: 1024 spills into the class bits
    let s = PlayerState {
        position: QuantizedXY { x: 0, y: 0 },
        angle: Angle(0),
        health: 1024,
        team: Team::Other,
        class: Class::Other,
        charge: 0,
    };
    let unpacked = PlayerState::unpack(s.pack());
    assert_eq!(unpacked.health, 0);
    assert_eq!(unpacked.class, Class::Scout);
}

#[test]
fn building_team_bit_folds_non_blue_to_red() {
    let b = BuildingState {
        position: QuantizedXY { x: 0, y: 0 },
        angle: Angle(0),
        health: 1,
        team: Team::Spectator,
        ty: BuildingType::Dispenser,
        level: 1,
    };
    let unpacked = BuildingState::unpack(b.pack());
    assert_eq!(unpacked.team, Team::Red);
}

#[test]
fn projectile_angle_keeps_low_four_bits() {
    let p = ProjectileState {
        position: QuantizedXY { x: 0, y: 0 },
        team: Team::Red,
        ty: ProjectileType::Rocket,
        angle: Angle(255),
    };
    let bytes = p.pack();
    assert_eq!(bytes[5], 0x0f);
    assert_eq!(bytes[5] >> 4, 0);
    assert_eq!(ProjectileState::unpack(bytes).angle, Angle(15));
    // an angle already within the 16 coarse facings survives exactly
    let coarse = ProjectileState {
        angle: Angle(9),
        ..p
    };
    assert_eq!(ProjectileState::unpack(coarse.pack()), coarse);
}

#[test]
fn building_classification() {
    for level in 0..5u8 {
        assert_eq!(
            BuildingType::from_raw(&RawBuilding::Sentry {
                is_mini: true,
                level,
            }),
            BuildingType::MiniSentry
        );
    }
    assert_eq!(
        BuildingType::from_raw(&RawBuilding::Sentry {
            is_mini: false,
            level: 1,
        }),
        BuildingType::Level1Sentry
    );
    assert_eq!(
        BuildingType::from_raw(&RawBuilding::Sentry {
            is_mini: false,
            level: 2,
        }),
        BuildingType::Level2Sentry
    );
    assert_eq!(
        BuildingType::from_raw(&RawBuilding::Sentry {
            is_mini: false,
            level: 3,
        }),
        BuildingType::Level3Sentry
    );
    assert_eq!(
        BuildingType::from_raw(&RawBuilding::Sentry {
            is_mini: false,
            level: 0,
        }),
        BuildingType::Unknown
    );
    assert_eq!(
        BuildingType::from_raw(&RawBuilding::Sentry {
            is_mini: false,
            level: 4,
        }),
        BuildingType::Unknown
    );
    assert_eq!(
        BuildingType::from_raw(&RawBuilding::Dispenser),
        BuildingType::Dispenser
    );
    assert_eq!(
        BuildingType::from_raw(&RawBuilding::Teleporter { is_entrance: true }),
        BuildingType::TeleporterEntrance
    );
    assert_eq!(
        BuildingType::from_raw(&RawBuilding::Teleporter { is_entrance: false }),
        BuildingType::TeleporterExit
    );
}
