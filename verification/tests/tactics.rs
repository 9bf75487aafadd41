use clawcombat::tactics::extract_yaml_field;

const SNEAK_FLANK: &str = "---\nid: sneak_flank\nname: 은밀 우회 기동\npriority: 2\ncounters: [\"suppress_fire\"] # note\ntrigger_conditions:\n  surrounding_terrain: [\"HighGrass\", \"Underbrush\"]\n---\n\n### 은밀 우회 기동\n";

#[test]
fn reads_id_and_name() {
    assert_eq!(extract_yaml_field(SNEAK_FLANK, "id:"), Some("sneak_flank".to_string()));
    assert_eq!(extract_yaml_field(SNEAK_FLANK, "name:"), Some("은밀 우회 기동".to_string()));
    assert_eq!(extract_yaml_field(SNEAK_FLANK, "priority:"), Some("2".to_string()));
}

#[test]
fn missing_field_is_none() {
    assert_eq!(extract_yaml_field(SNEAK_FLANK, "author:"), None);
    assert_eq!(extract_yaml_field("", "id:"), None);
}

#[test]
fn first_matching_line_wins_and_indent_is_ignored() {
    let doc = "  id:   first  \nid: second\n";
    assert_eq!(extract_yaml_field(doc, "id:"), Some("first".to_string()));
    let nested = "trigger_conditions:\n  surrounding_terrain: [\"HighGrass\"]\n";
    assert_eq!(
        extract_yaml_field(nested, "surrounding_terrain:"),
        Some("[\"HighGrass\"]".to_string())
    );
}

#[test]
fn quotes_and_carriage_returns_are_trimmed() {
    assert_eq!(extract_yaml_field("name: \"Flank\"\r\n", "name:"), Some("Flank".to_string()));
    assert_eq!(extract_yaml_field("name: \"\"\"x\"\"", "name:"), Some("x".to_string()));
    assert_eq!(extract_yaml_field("name:\t\u{3000}value\u{a0}", "name:"), Some("value".to_string()));
}

#[test]
fn repeated_field_names_are_all_taken_off() {
    assert_eq!(extract_yaml_field("id:id: x", "id:"), Some("x".to_string()));
    assert_eq!(extract_yaml_field("id:", "id:"), Some("".to_string()));
}

#[test]
fn yaml_fields_match_std_on_samples() {
    let docs = [
        SNEAK_FLANK,
        "",
        "\n",
        "id:\n",
        "  \"id: quoted\"",
        "x\n\nid:  \" spaced \" \n",
        "id:a\r",
        "\u{85}id:\u{2028}z\u{2029}",
    ];
    for doc in docs {
        for field in ["id:", "name:", "", "x"] {
            let expected = doc
                .lines()
                .find(|line| line.trim().starts_with(field))
                .map(|line| line.trim().trim_start_matches(field).trim().trim_matches('"').to_string());
            assert_eq!(extract_yaml_field(doc, field), expected, "doc {:?} field {:?}", doc, field);
        }
    }
}
