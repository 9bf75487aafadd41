use clawcombat::doctrine::OrderKind;
use clawcombat::reply::{
    described_plan, handle_response, read_reply, reading_from, variant_order, AsyncTacticResponse,
    ReplyMembers, ReplyReading, ResponseHandling,
};

fn members() -> ReplyMembers {
    ReplyMembers {
        parses: true,
        status: None,
        action: None,
        behavior: None,
        movement: None,
        target: None,
        timing: None,
        comeback: None,
        execution_squad: None,
        generated: None,
    }
}

#[test]
fn readings_from_members() {
    let mut m = members();
    m.parses = false;
    assert!(matches!(reading_from(&m, true), ReplyReading::Malformed));
    let mut m = members();
    m.status = Some("Success".to_string());
    m.execution_squad = Some(2);
    // Success without the message the engine built: unusable.
    assert!(matches!(reading_from(&m, true), ReplyReading::Unusable { squad: Some(2) }));
    m.generated = Some("{}".to_string());
    match reading_from(&m, true) {
        ReplyReading::Ready { message } => assert_eq!(message, "{}"),
        _ => panic!("expected a ready answer"),
    }
    let mut m = members();
    m.action = Some(" 은밀 ".to_string());
    m.target = Some("B3".to_string());
    m.comeback = Some("복귀".to_string());
    match reading_from(&m, true) {
        ReplyReading::Described { action, timing } => {
            assert_eq!(action, "은밀  B3");
            assert_eq!(timing, "복귀");
        }
        _ => panic!("expected a description"),
    }
    m.execution_squad = Some(4);
    match reading_from(&m, false) {
        ReplyReading::Unusable { squad } => assert_eq!(squad, Some(4)),
        _ => panic!("expected an unusable reading"),
    }
}

#[test]
fn reading_json_answers() {
    assert!(matches!(read_reply("not json", true), ReplyReading::Malformed));
    assert!(matches!(
        read_reply(r#"{"status":"Success"}"#, false),
        ReplyReading::Unusable { squad: None }
    ));
    match read_reply(r#"{"status":"Success","generated_input_message":{"Idle":null}}"#, false) {
        ReplyReading::Ready { message } => assert_eq!(message, r#"{"Idle":null}"#),
        _ => panic!("expected a ready answer"),
    }
    match read_reply(r#"{"status":"Partial","action":"move","movement":"fast","timing":3}"#, true) {
        ReplyReading::Described { action, timing } => {
            assert_eq!(action, "move fast");
            assert_eq!(timing, "");
        }
        _ => panic!("expected a description"),
    }
    match read_reply(r#"{"status":"Failure","execution_squad_uuid":7}"#, true) {
        ReplyReading::Unusable { squad } => assert_eq!(squad, Some(7)),
        _ => panic!("expected an unusable reading"),
    }
    match read_reply(r#"[1, 2]"#, true) {
        ReplyReading::Unusable { squad } => assert_eq!(squad, None),
        _ => panic!("expected an unusable reading"),
    }
}

#[test]
fn variants_and_plans() {
    assert_eq!(variant_order("SneakTo"), OrderKind::SneakTo);
    assert_eq!(variant_order("MoveFastTo"), OrderKind::MoveFastTo);
    assert_eq!(variant_order("SuppressFire"), OrderKind::SuppressFire);
    assert_eq!(variant_order("Defend"), OrderKind::Defend);
    assert_eq!(variant_order("Hide"), OrderKind::Hide);
    assert_eq!(variant_order("Whatever"), OrderKind::MoveTo);
    assert_eq!(described_plan(OrderKind::MoveTo, true), vec![OrderKind::MoveTo, OrderKind::Defend]);
    assert_eq!(described_plan(OrderKind::Hide, true), vec![OrderKind::Hide]);
    assert_eq!(described_plan(OrderKind::SneakTo, false), vec![OrderKind::SneakTo]);
}

#[test]
fn answers_for_lost_squads_are_dropped() {
    let response = AsyncTacticResponse {
        squad_uuid: 3,
        json_str: "{\"status\": \"Success\", \"generated_input_message\": 1}".to_string(),
        tactical_keywords: vec!["3분대".to_string()],
        command: "3분대 전진".to_string(),
    };
    assert!(matches!(handle_response(&response, false, true, true), ResponseHandling::SquadGone));
    assert!(matches!(handle_response(&response, true, false, true), ResponseHandling::LeaderDown));
    assert!(matches!(
        handle_response(&response, true, true, true),
        ResponseHandling::Read(ReplyReading::Ready { .. })
    ));
    let garbled = AsyncTacticResponse { json_str: "not json".to_string(), ..response };
    assert!(matches!(
        handle_response(&garbled, true, true, false),
        ResponseHandling::Read(ReplyReading::Malformed)
    ));
}
