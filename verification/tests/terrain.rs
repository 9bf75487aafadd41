use clawcombat::terrain::{Coverage, Posture, TerrainTileError, TileType};

const ALL: [(&str, TileType); 15] = [
    ("ShortGrass", TileType::ShortGrass),
    ("MiddleGrass", TileType::MiddleGrass),
    ("HighGrass", TileType::HighGrass),
    ("Dirt", TileType::Dirt),
    ("Mud", TileType::Mud),
    ("Concrete", TileType::Concrete),
    ("BrickWall", TileType::BrickWall),
    ("Trunk", TileType::Trunk),
    ("Water", TileType::Water),
    ("DeepWater", TileType::DeepWater),
    ("Underbrush", TileType::Underbrush),
    ("LightUnderbrush", TileType::LightUnderbrush),
    ("MiddleWoodLogs", TileType::MiddleWoodLogs),
    ("Hedge", TileType::Hedge),
    ("MiddleRock", TileType::MiddleRock),
];

#[test]
fn parses_every_identifier() {
    for (id, t) in ALL {
        match TileType::parse(id) {
            Ok(p) => assert_eq!(p, t),
            Err(_) => panic!("{} should parse", id),
        }
    }
}

#[test]
fn unknown_identifier_is_an_error() {
    match TileType::parse("Lava") {
        Err(e) => {
            assert!(matches!(&e, TerrainTileError::UnknownId(s) if s == "Lava"));
            assert_eq!(e.message(), "Unknown id : Lava");
        }
        Ok(_) => panic!("Lava is no tile"),
    }
    assert!(TileType::parse("shortgrass").is_err());
    assert!(TileType::parse("").is_err());
}

#[test]
fn pedestrian_costs() {
    let expected = [20, 18, 15, 20, 30, 20, 500, 500, 50, 200, 10, 12, 15, 15, 15];
    for (i, (_, t)) in ALL.iter().enumerate() {
        assert_eq!(t.pedestrian_cost(), expected[i]);
    }
}

#[test]
fn vehicles_and_bullets_blocking() {
    for (_, t) in ALL {
        let vehicle = matches!(t, TileType::BrickWall | TileType::Trunk | TileType::DeepWater | TileType::MiddleRock);
        assert_eq!(t.block_vehicle(), vehicle);
        let bullet = matches!(t, TileType::BrickWall | TileType::Trunk);
        assert_eq!(t.block_bullet(), bullet);
    }
}

#[test]
fn coverage_by_posture() {
    assert_eq!(TileType::ShortGrass.coverage(&Posture::StandUp), None);
    assert_eq!(TileType::BrickWall.coverage(&Posture::StandUp), Some(Coverage(80)));
    assert_eq!(TileType::Trunk.coverage(&Posture::StandUp), Some(Coverage(90)));
    assert_eq!(TileType::Trunk.coverage(&Posture::Flat), Some(Coverage(70)));
    assert_eq!(TileType::Mud.coverage(&Posture::StandUp), None);
    assert_eq!(TileType::Mud.coverage(&Posture::Flat), Some(Coverage(30)));
    assert_eq!(TileType::MiddleRock.coverage(&Posture::Flat), Some(Coverage(75)));
    assert_eq!(TileType::Hedge.coverage(&Posture::Flat), Some(Coverage(15)));
    assert_eq!(TileType::MiddleWoodLogs.coverage(&Posture::StandUp), Some(Coverage(20)));
    assert_eq!(TileType::DeepWater.coverage(&Posture::Flat), None);
}

#[test]
fn tile_kinds_read_through_from_str() {
    assert_eq!("Dirt".parse::<TileType>().ok(), Some(TileType::Dirt));
    assert_eq!("MiddleRock".parse::<TileType>().ok(), Some(TileType::MiddleRock));
    match "Lava".parse::<TileType>() {
        Err(e) => assert_eq!(e.message(), "Unknown id : Lava"),
        Ok(_) => panic!("Lava is no tile kind"),
    }
}
