use clawcombat::command::{direct_plan, direct_targets, parse_direct_command, parse_sector, sector_name};
use clawcombat::doctrine::OrderKind;

fn reference(command: &str) -> Option<(Vec<usize>, Vec<String>, Vec<String>)> {
    let tokens: Vec<&str> = command.split_whitespace().collect();
    let is_direct = !tokens.is_empty()
        && tokens.iter().all(|t| t.starts_with('@') || t.starts_with('&') || t.starts_with('#'));
    if !is_direct {
        return None;
    }
    let mut squads = vec![];
    let mut moves = vec![];
    let mut attacks = vec![];
    for t in &tokens {
        if t.starts_with('@') {
            let s = t.trim_start_matches('@').trim_end_matches("분대");
            if let Ok(id) = s.parse::<usize>() {
                squads.push(id);
            }
        } else if t.starts_with('&') {
            moves.push(t.trim_start_matches('&').to_string());
        } else if t.starts_with('#') {
            attacks.push(t.trim_start_matches('#').to_string());
        }
    }
    Some((squads, moves, attacks))
}

fn parsed(command: &str) -> Option<(Vec<usize>, Vec<String>, Vec<String>)> {
    parse_direct_command(command).map(|c| (c.squads, c.move_sectors, c.attack_sectors))
}

#[test]
fn reads_clicked_tokens() {
    assert_eq!(
        parsed("@1분대 @2분대 &C5 #D7"),
        Some((vec![1, 2], vec!["C5".to_string()], vec!["D7".to_string()]))
    );
    assert_eq!(parsed("  &A1\t&B2 "), Some((vec![], vec!["A1".to_string(), "B2".to_string()], vec![])));
}

#[test]
fn plain_text_is_not_direct() {
    assert_eq!(parsed("1분대 전진"), None);
    assert_eq!(parsed("@1분대 attack"), None);
    assert_eq!(parsed(""), None);
    assert_eq!(parsed("   "), None);
}

#[test]
fn unreadable_squads_are_skipped() {
    assert_eq!(parsed("@abc @3 @@4분대분대 @+5 @"), Some((vec![3, 4, 5], vec![], vec![])));
    assert_eq!(parsed("@99999999999999999999999"), Some((vec![], vec![], vec![])));
}

#[test]
fn direct_commands_match_std_on_samples() {
    let samples = [
        "@1분대 @2분대 &C5 #D7",
        "@0 &&A1 ##B2",
        "#한1 &",
        "@1분대\u{3000}&Z26",
        "@-1 @+ @1+ @01",
        "word",
        "@1 x",
        "\n@7분대\n",
    ];
    for s in samples {
        assert_eq!(parsed(s), reference(s), "{:?}", s);
    }
}

fn reference_sector(sector: &str) -> Option<(usize, usize)> {
    let chars: Vec<char> = "ABCDEFGHIJKLMNOPQRSTUVWXYZ".chars().collect();
    if sector.len() < 2 {
        return None;
    }
    let letter = sector.chars().next().unwrap();
    let number_str = &sector[1..];
    let row_idx = chars.iter().position(|&c| c == letter)?;
    let col_idx: usize = number_str.parse().ok()?;
    Some((row_idx, col_idx))
}

#[test]
fn sectors() {
    assert_eq!(parse_sector("A1"), Some((0, 1)));
    assert_eq!(parse_sector("C12"), Some((2, 12)));
    assert_eq!(parse_sector("Z0"), Some((25, 0)));
    assert_eq!(parse_sector("a1"), None);
    assert_eq!(parse_sector("A"), None);
    assert_eq!(parse_sector(""), None);
    assert_eq!(parse_sector("A-1"), None);
    assert_eq!(parse_sector("A+3"), Some((0, 3)));
    for s in ["A1", "B", "C99", "D1x", "E+", "1A", "Q007", "Y한"] {
        assert_eq!(parse_sector(s), reference_sector(s), "{:?}", s);
    }
}

fn reference_sector_name(row: i32, col: i32) -> String {
    let chars: Vec<char> = "ABCDEFGHIJKLMNOPQRSTUVWXYZ".chars().collect();
    let row_idx = (row + 5).max(0) as usize;
    let col_idx = (col + 6).max(0) as usize;
    let letter = chars.get(row_idx % chars.len()).unwrap_or(&'?');
    format!("{}{}", letter, col_idx)
}

#[test]
fn sector_names() {
    assert_eq!(sector_name(0, 0), "F6");
    assert_eq!(sector_name(-5, -6), "A0");
    assert_eq!(sector_name(-100, -100), "A0");
    assert_eq!(sector_name(21, 4), "A10");
    for (r, c) in [(0, 0), (3, 7), (-2, 100), (40, -3), (i32::MAX - 5, i32::MAX - 6), (i32::MIN, i32::MIN)] {
        let name = sector_name(r, c);
        assert_eq!(name, reference_sector_name(r, c));
        let expected = (((r as i64 + 5).max(0) as usize) % 26, (c as i64 + 6).max(0) as usize);
        assert_eq!(parse_sector(&name), Some(expected));
    }
}

#[test]
fn direct_command_targets() {
    let squads = vec![4, 1, 7];
    let ours = vec![true, false, true];
    assert_eq!(direct_targets(&vec![], &squads, &ours), vec![4, 7]);
    assert_eq!(direct_targets(&vec![7, 1, 7], &squads, &ours), vec![7, 7]);
}

#[test]
fn direct_command_plans() {
    assert_eq!(direct_plan(true, true), vec![OrderKind::MoveFastTo, OrderKind::SneakTo, OrderKind::Defend]);
    assert_eq!(direct_plan(false, true), vec![OrderKind::SneakTo, OrderKind::Defend]);
    assert_eq!(direct_plan(true, false), vec![OrderKind::MoveFastTo]);
    assert_eq!(direct_plan(false, false), Vec::<OrderKind>::new());
}
