use clawcombat::keywords::{
    addressed_squads, cut_last_letter, ending_tag, keyword_token, keywords_of, predicate_tag,
    settle_step, split_sentences, starts_with, stem_tag, strip_ending,
};

fn tok(text: &str, pos: &str) -> (String, String) {
    (text.to_string(), pos.to_string())
}

#[test]
fn sentences_are_split_and_trimmed() {
    assert_eq!(
        split_sentences("  1분대 이동!  2분대는 방어. 대기? "),
        vec!["1분대 이동", "2분대는 방어", "대기"]
    );
    assert_eq!(split_sentences("..!?  . "), Vec::<String>::new());
    assert_eq!(split_sentences("no end"), vec!["no end"]);
    assert_eq!(split_sentences(""), Vec::<String>::new());
}

#[test]
fn tag_rules() {
    assert!(starts_with("NNG", "NN"));
    assert!(!starts_with("N", "NN"));
    assert!(ending_tag("JKB"));
    assert!(ending_tag("EC"));
    assert!(ending_tag("XSV"));
    assert!(ending_tag("SF"));
    assert!(!ending_tag("SN"));
    assert!(!ending_tag("NNG"));
    assert!(!ending_tag(""));
    assert!(predicate_tag("VV+EC"));
    assert!(predicate_tag("MAG"));
    assert!(!predicate_tag("MM"));
    assert!(stem_tag("NNP"));
    assert!(stem_tag("XR"));
    assert!(!stem_tag("VV"));
    assert!(keyword_token("이동", "NNG"));
    assert!(keyword_token("B3", "SY"));
    // Hangul letters are alphabetic: every Hangul token counts.
    assert!(keyword_token("를", "JKO"));
    assert!(!keyword_token(".", "SF"));
    assert!(!keyword_token("", "JKO"));
}

#[test]
fn words_are_cut_down() {
    assert_eq!(strip_ending("분대는", "는", "JX"), Some("분대".to_string()));
    assert_eq!(strip_ending("분대는", "는", "NNG"), None);
    assert_eq!(strip_ending("는", "는", "JX"), None);
    assert_eq!(strip_ending("분대가", "는", "JX"), None);
    assert_eq!(cut_last_letter("이동해", "VV"), Some("이동".to_string()));
    assert_eq!(cut_last_letter("가", "VV"), None);
    assert_eq!(cut_last_letter("이동해", "NNG"), None);
}

#[test]
fn keywords_group_runs_of_tokens() {
    let tokens = vec![
        tok("1", "SN"),
        tok("분대", "NNG"),
        tok(",", "SC"),
        tok("B", "SL"),
        tok("3", "SN"),
        tok("!", "SF"),
        tok("!", "SF"),
        tok("이동", "NNG"),
    ];
    assert_eq!(keywords_of(&tokens), vec!["1분대", "B3", "이동"]);
    assert_eq!(keywords_of(&vec![tok("을", "JKO")]), vec!["을"]);
    assert_eq!(keywords_of(&vec![tok("~", "SO")]), Vec::<String>::new());
    assert_eq!(keywords_of(&vec![]), Vec::<String>::new());
}

#[test]
fn orders_go_to_named_squads() {
    let squads = vec![0, 1, 2, 3];
    let ours = vec![true, true, true, false];
    let kw = vec!["1분대".to_string(), "이동".to_string()];
    assert_eq!(addressed_squads(&squads, &ours, &kw, "1분대 이동"), vec![1]);
    assert_eq!(addressed_squads(&squads, &ours, &vec![], "@2분대 방어"), vec![2]);
    // Naming only an enemy squad still counts as naming a squad.
    assert_eq!(addressed_squads(&squads, &ours, &vec!["3분대".to_string()], "x"), Vec::<usize>::new());
    assert_eq!(addressed_squads(&squads, &ours, &vec!["이동".to_string()], "이동"), vec![0, 1, 2]);
}

#[test]
fn one_step_of_settling_a_word() {
    let tok = |t: &str, p: &str| Some((t.to_string(), p.to_string()));
    // A tagged ending goes.
    assert_eq!(settle_step("진격하라", tok("라", "EF"), None), Some("진격하".to_string()));
    // An ending that is not at the end of the word stays.
    assert_eq!(settle_step("진격", tok("라", "EF"), None), None);
    // A verb loses its last letter when the rest reads as a noun.
    assert_eq!(settle_step("돌격하", tok("하", "VV"), Some("NNG".to_string())), Some("돌격".to_string()));
    assert_eq!(settle_step("돌격하", tok("하", "VV"), Some("VV".to_string())), None);
    assert_eq!(settle_step("돌격하", tok("하", "VV"), None), None);
    // A noun is settled; so is a word the analyser found nothing in.
    assert_eq!(settle_step("분대", tok("분대", "NNG"), Some("NNG".to_string())), None);
    assert_eq!(settle_step("분대", None, None), None);
    // An empty ending never goes.
    assert_eq!(settle_step("분대", tok("", "EF"), None), None);
}
