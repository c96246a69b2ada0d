//! Choosing a move from the game-state document that the game server sends:
//! the first free cell listed for the player, or failing that for any
//! other human player.
//!
//! The document is read one level at a time: parsing a JSON text gives its
//! top node, whose array items and object members are kept as their own
//! JSON text and parsed in turn when the choice needs them.

use vstd::prelude::*;
use crate::text::str_eq;

verus! {

/// The top node of a JSON text as plain values: a number as the `i64` it
/// holds (`None` for a number that is not an integer within `i64`), and
/// the items of an array and the members of an object (in the document's
/// order) as their JSON text.
pub enum JsonShape {
    Null,
    Bool(bool),
    Number(Option<i64>),
    Str(Seq<char>),
    Array(Seq<Seq<char>>),
    Object(Seq<(Seq<char>, Seq<char>)>),
}

/// The top node of a parsed JSON text.
#[derive(Debug, PartialEq, Eq)]
pub enum JsonNode {
    Null,
    Bool(bool),
    Number(Option<i64>),
    Str(String),
    Array(Vec<String>),
    Object(Vec<(String, String)>),
}

impl JsonNode {
    pub open spec fn shape(&self) -> JsonShape {
        match self {
            JsonNode::Null => JsonShape::Null,
            JsonNode::Bool(b) => JsonShape::Bool(*b),
            JsonNode::Number(n) => JsonShape::Number(*n),
            JsonNode::Str(s) => JsonShape::Str(s@),
            JsonNode::Array(items) => JsonShape::Array(items@.map_values(|t: String| t@)),
            JsonNode::Object(members) => JsonShape::Object(
                members@.map_values(|m: (String, String)| (m.0@, m.1@)),
            ),
        }
    }
}

/// What `serde_json::from_str` makes of `text`, as its top node; `Err`
/// carries the parser's message for text that is not JSON.
pub uninterp spec fn json_node(text: Seq<char>) -> Result<JsonShape, Seq<char>>;

/// The plain-value form of a parse outcome.
pub open spec fn node_outcome(r: Result<JsonNode, String>) -> Result<JsonShape, Seq<char>> {
    match r {
        Ok(n) => Ok(n.shape()),
        Err(e) => Err(e@),
    }
}

/// Calls `serde_json::from_str` into a `Value` and converts its top node
/// variant by variant: a number by `Number::as_i64`, each array item and
/// object member value by `Value::to_string` (its JSON text), a parse error
/// by its `Display` text. Claimed: the outcome is `json_node` of the text.
#[verifier::external_body]
fn parse_json_node(text: &str) -> (r: Result<JsonNode, String>)
    ensures
        node_outcome(r) == json_node(text@),
{
    let v: serde_json::Value = serde_json::from_str(text).map_err(|e| e.to_string())?;
    Ok(match v {
        serde_json::Value::Null => JsonNode::Null,
        serde_json::Value::Bool(b) => JsonNode::Bool(b),
        serde_json::Value::Number(n) => JsonNode::Number(n.as_i64()),
        serde_json::Value::String(s) => JsonNode::Str(s),
        serde_json::Value::Array(a) => JsonNode::Array(a.iter().map(|c| c.to_string()).collect()),
        serde_json::Value::Object(m) => JsonNode::Object(m.iter().map(|(k, c)| (k.clone(), c.to_string())).collect()),
    })
}

/// The text of the first member named `key`.
pub open spec fn member_text(members: Seq<(Seq<char>, Seq<char>)>, key: Seq<char>) -> Option<Seq<char>>
    decreases members.len(),
{
    if members.len() == 0 {
        None
    } else if members[0].0 == key {
        Some(members[0].1)
    } else {
        member_text(members.drop_first(), key)
    }
}

/// `Value::get(key)` on a parse outcome: the member's text when the node is
/// an object that has one.
pub open spec fn get_text(node: Result<JsonShape, Seq<char>>, key: Seq<char>) -> Option<Seq<char>> {
    match node {
        Ok(JsonShape::Object(ms)) => member_text(ms, key),
        _ => None,
    }
}

/// The first entry of a board's `available_positions` array, when it is an
/// integer within `i64`.
pub open spec fn first_position(board: Seq<char>) -> Option<i64> {
    match get_text(json_node(board), "available_positions"@) {
        Some(list) => match json_node(list) {
            Ok(JsonShape::Array(items)) => if items.len() > 0 {
                match json_node(items[0]) {
                    Ok(JsonShape::Number(n)) => n,
                    _ => None,
                }
            } else {
                None
            },
            _ => None,
        },
        None => None,
    }
}

/// The id of the server's own player, never chosen for a fallback move.
pub open spec fn ai_player() -> Seq<char> {
    "mcts_ai"@
}

/// The first position listed for a board of a player other than the AI.
pub open spec fn fallback_position(boards: Seq<(Seq<char>, Seq<char>)>) -> Option<i64>
    decreases boards.len(),
{
    if boards.len() == 0 {
        None
    } else if boards[0].0 != ai_player() && first_position(boards[0].1) is Some {
        first_position(boards[0].1)
    } else {
        fallback_position(boards.drop_first())
    }
}

pub open spec fn no_position_message(player: Seq<char>) -> Seq<char> {
    "No available positions found for player '"@ + player + "' in game_state"@
}

/// The position to play for `player` given the parsed top node of the
/// document: the first listed on the player's own board, else the first
/// listed on a board of another player than the AI.
pub open spec fn chosen_position(root: Result<JsonShape, Seq<char>>, player: Seq<char>) -> Result<i64, Seq<char>> {
    match root {
        Err(e) => Err(e),
        Ok(shape) => match get_text(Ok(shape), "player_plateaus"@) {
            None => Err(no_position_message(player)),
            Some(boards) => {
                let own = match get_text(json_node(boards), player) {
                    Some(board) => first_position(board),
                    None => None,
                };
                match own {
                    Some(n) => Ok(n),
                    None => match json_node(boards) {
                        Ok(JsonShape::Object(ms)) => match fallback_position(ms) {
                            Some(n) => Ok(n),
                            None => Err(no_position_message(player)),
                        },
                        _ => Err(no_position_message(player)),
                    },
                }
            },
        },
    }
}

/// The position to play for `player` in the game-state document `text`.
pub open spec fn position_for(text: Seq<char>, player: Seq<char>) -> Result<i64, Seq<char>> {
    chosen_position(json_node(text), player)
}

pub open spec fn result_view(r: Result<i64, String>) -> Result<i64, Seq<char>> {
    match r {
        Ok(n) => Ok(n),
        Err(e) => Err(e@),
    }
}

fn find_member(members: &Vec<(String, String)>, key: &str) -> (r: Option<String>)
    ensures
        r matches Some(t) ==> member_text(members@.map_values(|m: (String, String)| (m.0@, m.1@)), key@)
            == Some(t@),
        r is None ==> member_text(members@.map_values(|m: (String, String)| (m.0@, m.1@)), key@) is None,
{
    let ghost all = members@.map_values(|m: (String, String)| (m.0@, m.1@));
    let mut i: usize = 0;
    assert(all.skip(0) =~= all);
    while i < members.len()
        invariant
            i <= members.len(),
            all == members@.map_values(|m: (String, String)| (m.0@, m.1@)),
            member_text(all, key@) == member_text(all.skip(i as int), key@),
        decreases members.len() - i,
    {
        assert(all.skip(i as int).drop_first() =~= all.skip(i + 1));
        if str_eq(members[i].0.as_str(), key) {
            return Some(String::from_str(members[i].1.as_str()));
        }
        i = i + 1;
    }
    assert(all.skip(i as int).len() == 0);
    None
}

/// `Value::get(key)` on a parse outcome, as the member's JSON text.
pub fn get_member(node: &Result<JsonNode, String>, key: &str) -> (r: Option<String>)
    ensures
        r matches Some(t) ==> get_text(node_outcome(*node), key@) == Some(t@),
        r is None ==> get_text(node_outcome(*node), key@) is None,
{
    match node {
        Ok(JsonNode::Object(members)) => find_member(members, key),
        _ => None,
    }
}

/// The first entry of the `available_positions` array of a board's JSON
/// text, when it is an integer within `i64`.
pub fn first_available(board: &str) -> (r: Option<i64>)
    ensures
        r == first_position(board@),
{
    let node = parse_json_node(board);
    proof {
        reveal_strlit("available_positions");
    }
    let list = match get_member(&node, "available_positions") {
        Some(l) => l,
        None => return None,
    };
    match parse_json_node(list.as_str()) {
        Ok(JsonNode::Array(items)) => {
            if items.len() > 0 {
                match parse_json_node(items[0].as_str()) {
                    Ok(JsonNode::Number(n)) => n,
                    _ => None,
                }
            } else {
                None
            }
        },
        _ => None,
    }
}

/// The first position listed for a board, in order, whose player is not
/// the AI.
pub fn fallback_among(boards: &Vec<(String, String)>) -> (r: Option<i64>)
    ensures
        r == fallback_position(boards@.map_values(|m: (String, String)| (m.0@, m.1@))),
{
    let ghost all = boards@.map_values(|m: (String, String)| (m.0@, m.1@));
    let mut i: usize = 0;
    assert(all.skip(0) =~= all);
    proof {
        reveal_strlit("mcts_ai");
    }
    while i < boards.len()
        invariant
            i <= boards.len(),
            all == boards@.map_values(|m: (String, String)| (m.0@, m.1@)),
            fallback_position(all) == fallback_position(all.skip(i as int)),
            "mcts_ai"@ == ai_player(),
        decreases boards.len() - i,
    {
        assert(all.skip(i as int).drop_first() =~= all.skip(i + 1));
        if !str_eq(boards[i].0.as_str(), "mcts_ai") {
            let p = first_available(boards[i].1.as_str());
            if p.is_some() {
                return p;
            }
        }
        i = i + 1;
    }
    assert(all.skip(i as int).len() == 0);
    None
}

fn no_position(player_id: &str) -> (r: String)
    ensures
        r@ == no_position_message(player_id@),
{
    proof {
        reveal_strlit("No available positions found for player '");
        reveal_strlit("' in game_state");
    }
    let mut msg = String::from_str("No available positions found for player '");
    msg.append(player_id);
    msg.append("' in game_state");
    msg
}

/// The position to play for `player_id` given the parsed top node of a
/// game-state document.
pub fn choose_position(root: Result<JsonNode, String>, player_id: &str) -> (r: Result<i64, String>)
    ensures
        result_view(r) == chosen_position(node_outcome(root), player_id@),
{
    proof {
        reveal_strlit("player_plateaus");
    }
    if let Err(e) = root {
        return Err(e);
    }
    let boards = match get_member(&root, "player_plateaus") {
        Some(b) => b,
        None => return Err(no_position(player_id)),
    };
    let node = parse_json_node(boards.as_str());
    if let Some(board) = get_member(&node, player_id) {
        if let Some(n) = first_available(board.as_str()) {
            return Ok(n);
        }
    }
    match node {
        Ok(JsonNode::Object(members)) => match fallback_among(&members) {
            Some(n) => Ok(n),
            None => Err(no_position(player_id)),
        },
        _ => Err(no_position(player_id)),
    }
}

/// Picks the first available position for `player_id` in a game-state JSON
/// document: the first one listed for the player's own board, else the first
/// one listed for any board but the AI's.
pub fn pick_position(game_state_json: &str, player_id: &str) -> (r: Result<i64, String>)
    ensures
        result_view(r) == position_for(game_state_json@, player_id@),
{
    let root = parse_json_node(game_state_json);
    choose_position(root, player_id)
}

} // verus!
