//! Reading the language model's answer to an order: a JSON text that
//! either carries a finished order or describes one in free words, and
//! the order kind such a description comes down to.

use vstd::prelude::*;
use crate::doctrine::OrderKind;
use crate::text::{chars_of, str_eq, string_of_range, strip_bounds, trim};
use vstd::string::StringExecFns;

verus! {

/// Whether `doc` is a JSON text (`serde_json::from_str::<Value>` accepts
/// it).
pub uninterp spec fn json_text_ok(doc: Seq<char>) -> bool;

/// The string that member `key` of the JSON object `doc` holds, if `doc`
/// is JSON, an object, and that member a string.
pub uninterp spec fn json_member_text(doc: Seq<char>, key: Seq<char>) -> Option<Seq<char>>;

/// The unsigned integer that member `key` of the JSON object `doc`
/// holds, if it holds one that fits in 64 bits.
pub uninterp spec fn json_member_u64(doc: Seq<char>, key: Seq<char>) -> Option<u64>;

/// The JSON text of member `key` of the JSON object `doc`, as
/// `serde_json` writes a value back out, if `doc` is JSON, an object, and
/// holds that member.
pub uninterp spec fn json_member_json(doc: Seq<char>, key: Seq<char>) -> Option<Seq<char>>;

/// `serde_json::from_str::<serde_json::Value>` then `Value::get` and
/// `Value::to_string`: member `key` of `doc` written back as JSON text. A
/// text that does not parse gives none.
#[verifier::external_body]
fn member_json(doc: &str, key: &str) -> (res: Option<String>)
    ensures
        opt_text(res) == json_member_json(doc@, key@),
        res is Some ==> json_text_ok(doc@),
{
    let value: serde_json::Value = serde_json::from_str(doc).ok()?;
    value.get(key).map(|v| v.to_string())
}

/// `serde_json::from_str::<serde_json::Value>`: whether `doc` parses as
/// JSON; the grammar is named, not written out.
#[verifier::external_body]
fn parses_as_json(doc: &str) -> (res: bool)
    ensures
        res == json_text_ok(doc@),
{
    serde_json::from_str::<serde_json::Value>(doc).is_ok()
}

/// `serde_json::from_str::<serde_json::Value>` then `Value::get` and
/// `Value::as_str`: the string member `key` of `doc`. A text that does
/// not parse gives none.
#[verifier::external_body]
fn member_text(doc: &str, key: &str) -> (res: Option<String>)
    ensures
        opt_text(res) == json_member_text(doc@, key@),
        res is Some ==> json_text_ok(doc@),
{
    let value: serde_json::Value = serde_json::from_str(doc).ok()?;
    value.get(key).and_then(|v| v.as_str()).map(|s| s.to_string())
}

/// `serde_json::from_str::<serde_json::Value>` then `Value::get` and
/// `Value::as_u64`: the unsigned integer member `key` of `doc`. A text
/// that does not parse gives none.
#[verifier::external_body]
fn member_u64(doc: &str, key: &str) -> (res: Option<u64>)
    ensures
        res == json_member_u64(doc@, key@),
        res is Some ==> json_text_ok(doc@),
{
    let value: serde_json::Value = serde_json::from_str(doc).ok()?;
    value.get(key).and_then(|v| v.as_u64())
}

/// What a member adds to a description: a space and its text, or
/// nothing when the member is not a string.
pub open spec fn piece(member: Option<Seq<char>>) -> Seq<char> {
    match member {
        Some(t) => " "@ + t,
        None => Seq::empty(),
    }
}

/// The members of an answer that its reading looks at.
pub struct ReplyMembers {
    /// Whether the answer is JSON.
    pub parses: bool,
    pub status: Option<String>,
    pub action: Option<String>,
    pub behavior: Option<String>,
    pub movement: Option<String>,
    pub target: Option<String>,
    pub timing: Option<String>,
    pub comeback: Option<String>,
    pub execution_squad: Option<u64>,
    /// The input message the engine built, as JSON text.
    pub generated: Option<String>,
}

/// The text of an optional string.
pub open spec fn opt_text(s: Option<String>) -> Option<Seq<char>> {
    match s {
        Some(t) => Some(t@),
        None => None,
    }
}

/// The words that describe the action: the `action`, `behavior`,
/// `movement` and `target` members joined, trimmed.
pub open spec fn action_words(m: ReplyMembers) -> Seq<char> {
    trim(piece(opt_text(m.action)) + piece(opt_text(m.behavior)) + piece(opt_text(m.movement))
        + piece(opt_text(m.target)))
}

/// The words about timing and return: the `timing` and `return` members
/// joined, trimmed.
pub open spec fn timing_words(m: ReplyMembers) -> Seq<char> {
    trim(piece(opt_text(m.timing)) + piece(opt_text(m.comeback)))
}

/// Whether the answer says the engine built the order itself.
pub open spec fn is_success(m: ReplyMembers) -> bool {
    opt_text(m.status) == Some("Success"@)
}

/// The members that `doc` holds, as the JSON reader finds them.
pub open spec fn members_of(doc: Seq<char>, m: ReplyMembers) -> bool {
    &&& m.parses == json_text_ok(doc)
    &&& opt_text(m.status) == json_member_text(doc, "status"@)
    &&& opt_text(m.action) == json_member_text(doc, "action"@)
    &&& opt_text(m.behavior) == json_member_text(doc, "behavior"@)
    &&& opt_text(m.movement) == json_member_text(doc, "movement"@)
    &&& opt_text(m.target) == json_member_text(doc, "target"@)
    &&& opt_text(m.timing) == json_member_text(doc, "timing"@)
    &&& opt_text(m.comeback) == json_member_text(doc, "return"@)
    &&& m.execution_squad == json_member_u64(doc, "execution_squad_uuid"@)
    &&& opt_text(m.generated) == json_member_json(doc, "generated_input_message"@)
}

/// What an answer amounts to.
pub enum ReplyReading {
    /// The answer is not JSON.
    Malformed,
    /// The engine built the order itself: the input message, as JSON
    /// text, which the game reads into a message (and treats the answer
    /// as unusable when it cannot).
    Ready { message: String },
    /// The answer describes the order in words: the words of the action
    /// and those about timing and return.
    Described { action: String, timing: String },
    /// Nothing can be made of the answer; the squad it names to carry
    /// the order out, if any, is warned.
    Unusable { squad: Option<u64> },
}

/// Whether `res` is the reading of an answer with members `m`; with
/// `has_embedder` telling whether free descriptions can be matched to
/// orders. A JSON answer whose `status` is `Success` is ready with its
/// `generated_input_message`, or unusable without one; else, with an
/// embedder and a non-empty action description, it is a description;
/// else it is unusable. An unusable answer names the squad of its
/// `execution_squad_uuid`.
pub open spec fn is_reading(m: ReplyMembers, has_embedder: bool, res: ReplyReading) -> bool {
    match res {
        ReplyReading::Malformed => !m.parses,
        ReplyReading::Ready { message } => m.parses && is_success(m) && opt_text(m.generated)
            == Some(message@),
        ReplyReading::Described { action, timing } => {
            &&& m.parses
            &&& !is_success(m)
            &&& has_embedder
            &&& action_words(m).len() > 0
            &&& action@ == action_words(m)
            &&& timing@ == timing_words(m)
        },
        ReplyReading::Unusable { squad } => {
            &&& m.parses
            &&& if is_success(m) {
                m.generated is None
            } else {
                !(has_embedder && action_words(m).len() > 0)
            }
            &&& squad == m.execution_squad
        },
    }
}

/// The piece of a member.
fn piece_of(member: &Option<String>) -> (res: String)
    ensures
        res@ == piece(opt_text(*member)),
{
    match member {
        Some(t) => " ".to_owned().concat(t.as_str()),
        None => String::new(),
    }
}

/// `text` without blanks at either end.
fn trimmed(text: &str) -> (res: String)
    ensures
        res@ == trim(text@),
{
    let v = chars_of(text);
    let (a, b) = strip_bounds(&v, 0, v.len(), None);
    assert(v@.subrange(0, v@.len() as int) =~= v@);
    string_of_range(&v, a, b)
}

/// The reading of an answer with members `m`.
pub fn reading_from(m: &ReplyMembers, has_embedder: bool) -> (res: ReplyReading)
    ensures
        is_reading(*m, has_embedder, res),
{
    if !m.parses {
        return ReplyReading::Malformed;
    }
    let success = match &m.status {
        Some(s) => str_eq(s.as_str(), "Success"),
        None => false,
    };
    if success {
        return match &m.generated {
            Some(g) => ReplyReading::Ready { message: g.clone() },
            None => ReplyReading::Unusable { squad: m.execution_squad },
        };
    }
    if has_embedder {
        let all = piece_of(&m.action).concat(piece_of(&m.behavior).as_str()).concat(
            piece_of(&m.movement).as_str(),
        ).concat(piece_of(&m.target).as_str());
        let action = trimmed(all.as_str());
        if !action.as_str().is_empty() {
            let timing = trimmed(piece_of(&m.timing).concat(piece_of(&m.comeback).as_str()).as_str());
            return ReplyReading::Described { action, timing };
        }
    }
    ReplyReading::Unusable { squad: m.execution_squad }
}

/// The members that the answer `doc` holds.
pub fn reply_members(doc: &str) -> (res: ReplyMembers)
    ensures
        members_of(doc@, res),
{
    ReplyMembers {
        parses: parses_as_json(doc),
        status: member_text(doc, "status"),
        action: member_text(doc, "action"),
        behavior: member_text(doc, "behavior"),
        movement: member_text(doc, "movement"),
        target: member_text(doc, "target"),
        timing: member_text(doc, "timing"),
        comeback: member_text(doc, "return"),
        execution_squad: member_u64(doc, "execution_squad_uuid"),
        generated: member_json(doc, "generated_input_message"),
    }
}

/// Reads the answer `doc`.
pub fn read_reply(doc: &str, has_embedder: bool) -> (res: ReplyReading)
    ensures
        exists|m: ReplyMembers| members_of(doc@, m) && is_reading(m, has_embedder, res),
{
    let m = reply_members(doc);
    reading_from(&m, has_embedder)
}

/// An order on its way to the language model for one squad: the order as
/// typed, its keywords, the squad, and the battle context sent with it.
pub struct AsyncTacticRequest {
    pub command: String,
    pub tactical_keywords: Vec<String>,
    pub squad_uuid: usize,
    pub context_yaml: String,
}

/// The language model's answer for one squad, with the order it answers.
pub struct AsyncTacticResponse {
    pub squad_uuid: usize,
    pub json_str: String,
    pub tactical_keywords: Vec<String>,
    pub command: String,
}

/// What becomes of an answer once it arrives.
pub enum ResponseHandling {
    /// Its squad no longer exists: the answer is dropped.
    SquadGone,
    /// Its squad's leader has fallen: the answer is dropped.
    LeaderDown,
    /// The answer is read.
    Read(ReplyReading),
}

/// Whether `res` is what becomes of the answer `doc` for a squad that
/// still exists or not (`squad_exists`) and whose leader is alive or not:
/// answers for squads that are gone or whose leader fell are dropped;
/// the others are read.
pub open spec fn is_handling(
    doc: Seq<char>,
    squad_exists: bool,
    leader_alive: bool,
    has_embedder: bool,
    res: ResponseHandling,
) -> bool {
    match res {
        ResponseHandling::SquadGone => !squad_exists,
        ResponseHandling::LeaderDown => squad_exists && !leader_alive,
        ResponseHandling::Read(r) => squad_exists && leader_alive && exists|m: ReplyMembers|
            members_of(doc, m) && is_reading(m, has_embedder, r),
    }
}

/// What becomes of `response`; see `is_handling`.
pub fn handle_response(
    response: &AsyncTacticResponse,
    squad_exists: bool,
    leader_alive: bool,
    has_embedder: bool,
) -> (res: ResponseHandling)
    ensures
        is_handling(response.json_str@, squad_exists, leader_alive, has_embedder, res),
{
    if !squad_exists {
        return ResponseHandling::SquadGone;
    }
    if !leader_alive {
        return ResponseHandling::LeaderDown;
    }
    ResponseHandling::Read(read_reply(response.json_str.as_str(), has_embedder))
}

/// The order kind of a description matched to the order named `variant`:
/// crawling, running, suppressive fire, defending or hiding by their
/// names, moving otherwise.
pub open spec fn spec_variant_order(variant: Seq<char>) -> OrderKind {
    if variant == "SneakTo"@ {
        OrderKind::SneakTo
    } else if variant == "MoveFastTo"@ {
        OrderKind::MoveFastTo
    } else if variant == "SuppressFire"@ {
        OrderKind::SuppressFire
    } else if variant == "Defend"@ {
        OrderKind::Defend
    } else if variant == "Hide"@ {
        OrderKind::Hide
    } else {
        OrderKind::MoveTo
    }
}

/// The order kind a matched description gives.
pub fn variant_order(variant: &str) -> (res: OrderKind)
    ensures
        res == spec_variant_order(variant@),
{
    if str_eq(variant, "SneakTo") {
        OrderKind::SneakTo
    } else if str_eq(variant, "MoveFastTo") {
        OrderKind::MoveFastTo
    } else if str_eq(variant, "SuppressFire") {
        OrderKind::SuppressFire
    } else if str_eq(variant, "Defend") {
        OrderKind::Defend
    } else if str_eq(variant, "Hide") {
        OrderKind::Hide
    } else {
        OrderKind::MoveTo
    }
}

/// The orders a matched description gives a squad leader: its order,
/// then, for a move when the answer speaks of coming back, a defence.
pub open spec fn spec_described_plan(kind: OrderKind, comes_back: bool) -> Seq<OrderKind> {
    if comes_back && (kind == OrderKind::SneakTo || kind == OrderKind::MoveFastTo || kind
        == OrderKind::MoveTo) {
        seq![kind, OrderKind::Defend]
    } else {
        seq![kind]
    }
}

/// The orders a matched description gives.
pub fn described_plan(kind: OrderKind, comes_back: bool) -> (res: Vec<OrderKind>)
    ensures
        res@ == spec_described_plan(kind, comes_back),
{
    let mut res: Vec<OrderKind> = Vec::new();
    res.push(kind);
    let moving = match kind {
        OrderKind::SneakTo | OrderKind::MoveFastTo | OrderKind::MoveTo => true,
        _ => false,
    };
    if comes_back && moving {
        res.push(OrderKind::Defend);
    }
    assert(res@ =~= spec_described_plan(kind, comes_back));
    res
}

/// A description that speaks of coming back turns any move (walking,
/// running or sneaking) into that move followed by a defence; any other
/// description, or another kind of order, gives that single order.
pub proof fn lemma_moves_come_back_to_defend(kind: OrderKind, comes_back: bool)
    ensures
        spec_described_plan(OrderKind::SneakTo, true) == seq![OrderKind::SneakTo, OrderKind::Defend],
        spec_described_plan(OrderKind::MoveFastTo, true) == seq![
            OrderKind::MoveFastTo,
            OrderKind::Defend,
        ],
        spec_described_plan(OrderKind::MoveTo, true) == seq![OrderKind::MoveTo, OrderKind::Defend],
        spec_described_plan(kind, false) == seq![kind],
        spec_described_plan(kind, comes_back)[0] == kind,
        spec_described_plan(kind, comes_back).len() <= 2,
        spec_described_plan(kind, comes_back).len() == 2 ==> spec_described_plan(kind, comes_back)[1]
            == OrderKind::Defend && comes_back,
        (kind == OrderKind::SuppressFire || kind == OrderKind::Defend || kind == OrderKind::Hide)
            ==> spec_described_plan(kind, comes_back) == seq![kind],
{
}

} // verus!
