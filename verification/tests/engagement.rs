use clawcombat::doctrine::OrderKind;
use clawcombat::engagement::{breaks_off, ground_cover, off_map_return, squad_score};
use clawcombat::terrain::TileType;

#[test]
fn squad_scores() {
    // Four soldiers in the open, standing, calm, alone: 4 * 100.
    assert_eq!(squad_score(4, 0, OrderKind::Idle, 0, 0), 400);
    // Firepower is capped at eight soldiers.
    assert_eq!(squad_score(12, 0, OrderKind::Idle, 0, 0), 800);
    // Cover and a held position weigh the firepower.
    assert_eq!(squad_score(2, 50, OrderKind::Hide, 0, 0), 2 * (100 + 50 + 150));
    // Stress lowers the score; friends raise it, at most by 500.
    assert_eq!(squad_score(1, 0, OrderKind::MoveTo, 150, 3), 100 - 150 + 150);
    assert_eq!(squad_score(1, 0, OrderKind::Defend, 0, 20), 250 + 500);
    assert_eq!(squad_score(0, 0, OrderKind::Idle, 200, 0), -200);
}

#[test]
fn ground_cover_of_tiles() {
    assert_eq!(ground_cover(None), 0);
    assert_eq!(ground_cover(Some(TileType::BrickWall)), 80);
    assert_eq!(ground_cover(Some(TileType::Mud)), 30);
    assert_eq!(ground_cover(Some(TileType::ShortGrass)), 0);
}

#[test]
fn scouts_break_off_when_weaker() {
    assert!(breaks_off(100, 200, true, false));
    assert!(!breaks_off(100, 200, true, true));
    assert!(!breaks_off(100, 200, false, false));
    assert!(!breaks_off(200, 200, true, false));
    assert_eq!(off_map_return(10), 1210);
}
