//! The session file: a session as a JSON document, and back.

use crate::json::{
    lookup, member, member_from, member_of, parse_document, parsed, pretty_text, render_pretty,
    writable, Json, JsonTree, Member,
};
use crate::session::{DownloadPart, DownloadSession, DownloadState, SessionView, StateView};
use crate::text::same_text;
use vstd::prelude::*;
use vstd::string::*;

verus! {

/// Why a session could not be loaded.
#[derive(Debug, Clone, Copy, PartialEq, Eq, Structural)]
pub enum LoadError {
    /// There is no session file.
    Missing,
    /// The session file does not hold a session.
    Corrupted,
}

/// The document of a state: its name, or an object that holds the message
/// of an error under `Error`.
pub open spec fn state_document(state: StateView) -> JsonTree {
    match state {
        StateView::Pending => JsonTree::Text("Pending"@),
        StateView::Downloading => JsonTree::Text("Downloading"@),
        StateView::Paused => JsonTree::Text("Paused"@),
        StateView::Completed => JsonTree::Text("Completed"@),
        StateView::Error(message) => JsonTree::Object(seq![("Error"@, JsonTree::Text(message))]),
    }
}

/// The document of a part.
pub open spec fn part_document(part: DownloadPart) -> JsonTree {
    JsonTree::Object(
        seq![
            ("id"@, JsonTree::Number(part.id as u64)),
            ("start_byte"@, JsonTree::Number(part.start_byte)),
            ("end_byte"@, JsonTree::Number(part.end_byte)),
            ("current_byte"@, JsonTree::Number(part.current_byte)),
            ("completed"@, JsonTree::Bool(part.completed)),
        ],
    )
}

/// The document of an optional size: the number, or `null`.
pub open spec fn size_document(total_size: Option<u64>) -> JsonTree {
    match total_size {
        Some(total) => JsonTree::Number(total),
        None => JsonTree::Null,
    }
}

/// The document of a session.
pub open spec fn session_document(session: SessionView) -> JsonTree {
    JsonTree::Object(
        seq![
            ("url"@, JsonTree::Text(session.url)),
            ("output_path"@, JsonTree::Text(session.output_path)),
            ("total_size"@, size_document(session.total_size)),
            ("state"@, state_document(session.state)),
            ("parts"@, JsonTree::List(session.parts.map_values(|p: DownloadPart| part_document(p)))),
            ("connections"@, JsonTree::Number(session.connections as u64)),
        ],
    )
}

/// The state that a document holds.
pub open spec fn state_of(tree: JsonTree) -> Option<StateView> {
    match tree {
        JsonTree::Text(name) => if name == "Pending"@ {
            Some(StateView::Pending)
        } else if name == "Downloading"@ {
            Some(StateView::Downloading)
        } else if name == "Paused"@ {
            Some(StateView::Paused)
        } else if name == "Completed"@ {
            Some(StateView::Completed)
        } else {
            None
        },
        JsonTree::Object(members) => if members.len() == 1 && members[0].0 == "Error"@ {
            match members[0].1 {
                JsonTree::Text(message) => Some(StateView::Error(message)),
                _ => None,
            }
        } else {
            None
        },
        _ => None,
    }
}

/// The number below `limit` that a member holds.
pub open spec fn number_of(value: Option<JsonTree>, limit: u64) -> Option<u64> {
    match value {
        Some(JsonTree::Number(n)) if n <= limit => Some(n),
        _ => None,
    }
}

/// The part that a document holds.
pub open spec fn part_of(tree: JsonTree) -> Option<DownloadPart> {
    match tree {
        JsonTree::Object(members) => match (
            number_of(member_of(members, "id"@), u8::MAX as u64),
            number_of(member_of(members, "start_byte"@), u64::MAX),
            number_of(member_of(members, "end_byte"@), u64::MAX),
            number_of(member_of(members, "current_byte"@), u64::MAX),
            member_of(members, "completed"@),
        ) {
            (
                Some(id),
                Some(start_byte),
                Some(end_byte),
                Some(current_byte),
                Some(JsonTree::Bool(completed)),
            ) => Some(
                DownloadPart { id: id as u8, start_byte, end_byte, current_byte, completed },
            ),
            _ => None,
        },
        _ => None,
    }
}

/// The parts that a list of documents holds, if each holds a part.
pub open spec fn parts_of(items: Seq<JsonTree>) -> Option<Seq<DownloadPart>> {
    if forall|i: int| 0 <= i < items.len() ==> part_of(#[trigger] items[i]) is Some {
        Some(Seq::new(items.len(), |i: int| part_of(items[i])->Some_0))
    } else {
        None
    }
}

/// The optional size that a member holds: absent and `null` stand for none.
pub open spec fn size_of(value: Option<JsonTree>) -> Option<Option<u64>> {
    match value {
        None => Some(None),
        Some(JsonTree::Null) => Some(None),
        Some(JsonTree::Number(n)) => Some(Some(n)),
        _ => None,
    }
}

/// The session that a document holds.
pub open spec fn session_of(tree: JsonTree) -> Option<SessionView> {
    match tree {
        JsonTree::Object(members) => match (
            member_of(members, "url"@),
            member_of(members, "output_path"@),
            size_of(member_of(members, "total_size"@)),
            member_of(members, "state"@),
            member_of(members, "parts"@),
            number_of(member_of(members, "connections"@), u8::MAX as u64),
        ) {
            (
                Some(JsonTree::Text(url)),
                Some(JsonTree::Text(output_path)),
                Some(total_size),
                Some(state),
                Some(JsonTree::List(items)),
                Some(connections),
            ) => match (state_of(state), parts_of(items)) {
                (Some(state), Some(parts)) => Some(
                    SessionView {
                        url,
                        output_path,
                        total_size,
                        state,
                        parts,
                        connections: connections as u8,
                    },
                ),
                _ => None,
            },
            _ => None,
        },
        _ => None,
    }
}

/// The session that a session file of the given contents holds.
pub open spec fn loaded(contents: Option<Seq<char>>) -> Result<SessionView, LoadError> {
    match contents {
        None => Err(LoadError::Missing),
        Some(text) => match parsed(text) {
            Some(tree) => match session_of(tree) {
                Some(session) => Ok(session),
                None => Err(LoadError::Corrupted),
            },
            None => Err(LoadError::Corrupted),
        },
    }
}

/// The names of the members are what they read, and differ from each other.
proof fn lemma_names()
    ensures
        "id"@.len() == 2,
        "start_byte"@.len() == 10 && "start_byte"@[0] == 's',
        "end_byte"@.len() == 8,
        "current_byte"@.len() == 12,
        "completed"@.len() == 9,
        "url"@.len() == 3,
        "output_path"@.len() == 11 && "output_path"@[0] == 'o',
        "total_size"@.len() == 10 && "total_size"@[0] == 't',
        "state"@.len() == 5 && "state"@[0] == 's',
        "parts"@.len() == 5 && "parts"@[0] == 'p',
        "connections"@.len() == 11 && "connections"@[0] == 'c',
        "Error"@.len() == 5,
        "Pending"@.len() == 7 && "Pending"@[1] == 'e',
        "Downloading"@.len() == 11,
        "Paused"@.len() == 6,
        "Completed"@.len() == 9,
{
    reveal_strlit("id");
    reveal_strlit("start_byte");
    reveal_strlit("end_byte");
    reveal_strlit("current_byte");
    reveal_strlit("completed");
    reveal_strlit("url");
    reveal_strlit("output_path");
    reveal_strlit("total_size");
    reveal_strlit("state");
    reveal_strlit("parts");
    reveal_strlit("connections");
    reveal_strlit("Error");
    reveal_strlit("Pending");
    reveal_strlit("Downloading");
    reveal_strlit("Paused");
    reveal_strlit("Completed");
}

/// A part is read back from its document.
pub proof fn lemma_part_round_trip(part: DownloadPart)
    ensures
        part_of(part_document(part)) == Some(part),
        writable(part_document(part)),
{
    lemma_names();
    reveal_with_fuel(member_from, 6);
    let members = part_document(part)->Object_0;
    assert(members[0].0 == "id"@ && members[1].0 == "start_byte"@ && members[2].0 == "end_byte"@
        && members[3].0 == "current_byte"@ && members[4].0 == "completed"@);
    assert(writable(members[0].1) && writable(members[1].1) && writable(members[2].1) && writable(
        members[3].1,
    ) && writable(members[4].1));
}

/// A state is read back from its document.
pub proof fn lemma_state_round_trip(state: StateView)
    ensures
        state_of(state_document(state)) == Some(state),
        writable(state_document(state)),
{
    lemma_names();
    if let StateView::Error(message) = state {
        let members = state_document(state)->Object_0;
        assert(members[0] == ("Error"@, JsonTree::Text(message)));
        assert(writable(members[0].1));
    }
}

/// Save/load round trip: a session is read back from its document, whatever
/// the session holds.
pub proof fn lemma_session_round_trip(session: SessionView)
    ensures
        session_of(session_document(session)) == Some(session),
        writable(session_document(session)),
{
    lemma_names();
    lemma_state_round_trip(session.state);
    reveal_with_fuel(member_from, 7);
    let members = session_document(session)->Object_0;
    let items = session.parts.map_values(|p: DownloadPart| part_document(p));
    assert(members[0].0 == "url"@ && members[1].0 == "output_path"@ && members[2].0
        == "total_size"@ && members[3].0 == "state"@ && members[4].0 == "parts"@ && members[5].0
        == "connections"@);
    assert(members[4].1 == JsonTree::List(items));
    assert forall|i: int| 0 <= i < items.len() implies part_of(#[trigger] items[i]) == Some(
        session.parts[i],
    ) && writable(items[i]) by {
        lemma_part_round_trip(session.parts[i]);
    }
    assert(parts_of(items) is Some);
    assert(parts_of(items)->Some_0 =~= session.parts);
    assert(writable(members[0].1) && writable(members[1].1) && writable(members[2].1) && writable(
        members[3].1,
    ) && writable(members[4].1) && writable(members[5].1));
}

/// The tree of an optional document.
pub open spec fn tree_of(value: Option<&Json>) -> Option<JsonTree> {
    match value {
        Some(doc) => Some(doc@),
        None => None,
    }
}

/// The document of a state.
pub fn encode_state(state: &DownloadState) -> (doc: Json)
    ensures
        doc@ == state_document(state@),
{
    match state {
        DownloadState::Pending => Json::Text(String::from_str("Pending")),
        DownloadState::Downloading => Json::Text(String::from_str("Downloading")),
        DownloadState::Paused => Json::Text(String::from_str("Paused")),
        DownloadState::Completed => Json::Text(String::from_str("Completed")),
        DownloadState::Error(message) => {
            let mut members: Vec<Member> = Vec::new();
            members.push(member("Error", Json::Text(message.clone())));
            let doc = Json::Object(members);
            proof {
                reveal_with_fuel(Json::tree, 2);
                assert(doc@->Object_0 =~= seq![("Error"@, JsonTree::Text(message@))]);
            }
            doc
        },
    }
}

/// The document of a part.
pub fn encode_part(part: &DownloadPart) -> (doc: Json)
    ensures
        doc@ == part_document(*part),
{
    let mut members: Vec<Member> = Vec::new();
    members.push(member("id", Json::Number(part.id as u64)));
    members.push(member("start_byte", Json::Number(part.start_byte)));
    members.push(member("end_byte", Json::Number(part.end_byte)));
    members.push(member("current_byte", Json::Number(part.current_byte)));
    members.push(member("completed", Json::Bool(part.completed)));
    let doc = Json::Object(members);
    proof {
        reveal_with_fuel(Json::tree, 2);
        assert(doc@->Object_0 =~= part_document(*part)->Object_0);
    }
    doc
}

/// The document of a session.
pub fn encode_session(session: &DownloadSession) -> (doc: Json)
    ensures
        doc@ == session_document(session@),
        writable(doc@),
{
    let mut items: Vec<Json> = Vec::new();
    let mut i: usize = 0;
    while i < session.parts.len()
        invariant
            i <= session.parts.len(),
            items@.len() == i,
            forall|k: int| 0 <= k < i ==> (#[trigger] items@[k])@ == part_document(session.parts@[k]),
        decreases session.parts.len() - i,
    {
        items.push(encode_part(&session.parts[i]));
        i = i + 1;
    }
    let list = Json::List(items);
    proof {
        assert(list@->List_0 =~= session.parts@.map_values(|p: DownloadPart| part_document(p)));
    }
    let size = match session.total_size {
        Some(total) => Json::Number(total),
        None => Json::Null,
    };
    let mut members: Vec<Member> = Vec::new();
    members.push(member("url", Json::Text(session.url.clone())));
    members.push(member("output_path", Json::Text(session.output_path.clone())));
    members.push(member("total_size", size));
    members.push(member("state", encode_state(&session.state)));
    members.push(member("parts", list));
    members.push(member("connections", Json::Number(session.connections as u64)));
    let doc = Json::Object(members);
    proof {
        reveal_with_fuel(Json::tree, 2);
        assert(doc@->Object_0 =~= session_document(session@)->Object_0);
        lemma_session_round_trip(session@);
    }
    doc
}

/// The number that an optional document holds, if it is one up to `limit`.
fn number_below(value: Option<&Json>, limit: u64) -> (number: Option<u64>)
    ensures
        number == number_of(tree_of(value), limit),
{
    match value {
        Some(Json::Number(n)) => if *n <= limit {
            Some(*n)
        } else {
            None
        },
        _ => None,
    }
}

/// The state that a document holds.
pub fn decode_state(doc: &Json) -> (state: Option<DownloadState>)
    ensures
        match state {
            Some(s) => state_of(doc@) == Some(s@),
            None => state_of(doc@) is None,
        },
{
    match doc {
        Json::Text(name) => {
            if same_text(name.as_str(), "Pending") {
                Some(DownloadState::Pending)
            } else if same_text(name.as_str(), "Downloading") {
                Some(DownloadState::Downloading)
            } else if same_text(name.as_str(), "Paused") {
                Some(DownloadState::Paused)
            } else if same_text(name.as_str(), "Completed") {
                Some(DownloadState::Completed)
            } else {
                None
            }
        },
        Json::Object(members) => {
            proof {
                reveal_with_fuel(Json::tree, 2);
            }
            if members.len() == 1 && same_text(members[0].name.as_str(), "Error") {
                match &members[0].value {
                    Json::Text(message) => Some(DownloadState::Error(message.clone())),
                    _ => None,
                }
            } else {
                None
            }
        },
        _ => None,
    }
}

/// The part that a document holds.
pub fn decode_part(doc: &Json) -> (part: Option<DownloadPart>)
    ensures
        part == part_of(doc@),
{
    match doc {
        Json::Object(members) => {
            let id = number_below(lookup(members, "id"), 255);
            let start_byte = number_below(lookup(members, "start_byte"), u64::MAX);
            let end_byte = number_below(lookup(members, "end_byte"), u64::MAX);
            let current_byte = number_below(lookup(members, "current_byte"), u64::MAX);
            let completed = lookup(members, "completed");
            match (id, start_byte, end_byte, current_byte, completed) {
                (
                    Some(id),
                    Some(start_byte),
                    Some(end_byte),
                    Some(current_byte),
                    Some(Json::Bool(completed)),
                ) => Some(
                    DownloadPart {
                        id: id as u8,
                        start_byte,
                        end_byte,
                        current_byte,
                        completed: *completed,
                    },
                ),
                _ => None,
            }
        },
        _ => None,
    }
}

/// The session that a document holds.
pub fn decode_session(doc: &Json) -> (session: Option<DownloadSession>)
    ensures
        match session {
            Some(s) => session_of(doc@) == Some(s@),
            None => session_of(doc@) is None,
        },
{
    let members = match doc {
        Json::Object(members) => members,
        _ => {
            return None;
        },
    };
    let url = match lookup(members, "url") {
        Some(Json::Text(url)) => url.clone(),
        _ => {
            return None;
        },
    };
    let output_path = match lookup(members, "output_path") {
        Some(Json::Text(path)) => path.clone(),
        _ => {
            return None;
        },
    };
    let total_size = match lookup(members, "total_size") {
        None => None,
        Some(Json::Null) => None,
        Some(Json::Number(n)) => Some(*n),
        _ => {
            return None;
        },
    };
    let state_doc = match lookup(members, "state") {
        Some(state_doc) => state_doc,
        None => {
            return None;
        },
    };
    let items = match lookup(members, "parts") {
        Some(Json::List(items)) => items,
        _ => {
            return None;
        },
    };
    let connections = match number_below(lookup(members, "connections"), 255) {
        Some(connections) => connections as u8,
        None => {
            return None;
        },
    };
    let state = match decode_state(state_doc) {
        Some(state) => state,
        None => {
            return None;
        },
    };
    let ghost trees = Json::List(*items)@->List_0;
    let mut parts: Vec<DownloadPart> = Vec::new();
    let mut i: usize = 0;
    while i < items.len()
        invariant
            i <= items.len(),
            parts@.len() == i,
            trees == Json::List(*items)@->List_0,
            trees.len() == items@.len(),
            forall|k: int| 0 <= k < i ==> part_of(#[trigger] trees[k]) == Some(parts@[k]),
            parts_of(trees) is None ==> session_of(doc@) is None,
            parts_of(trees) matches Some(decoded) ==> session_of(doc@) == Some(
                SessionView {
                    url: url@,
                    output_path: output_path@,
                    total_size,
                    state: state@,
                    parts: decoded,
                    connections,
                },
            ),
        decreases items.len() - i,
    {
        assert(trees[i as int] == items@[i as int]@);
        match decode_part(&items[i]) {
            Some(part) => {
                parts.push(part);
            },
            None => {
                return None;
            },
        }
        i = i + 1;
    }
    proof {
        assert(parts_of(trees) is Some);
        assert(parts_of(trees)->Some_0 =~= parts@);
    }
    Some(DownloadSession { url, output_path, total_size, state, parts, connections })
}

impl DownloadSession {
    /// The text of the session file of this session.
    pub fn save(&self) -> (text: String)
        ensures
            text@ == pretty_text(session_document(self@)),
    {
        let doc = encode_session(self);
        render_pretty(&doc)
    }

    /// The session that a session file holds: `contents` is the text of the
    /// file, `None` where there is no file.
    pub fn load(contents: Option<&str>) -> (result: Result<DownloadSession, LoadError>)
        ensures
            match result {
                Ok(session) => loaded(
                    match contents {
                        Some(text) => Some(text@),
                        None => None,
                    },
                ) == Ok::<SessionView, LoadError>(session@),
                Err(error) => loaded(
                    match contents {
                        Some(text) => Some(text@),
                        None => None,
                    },
                ) == Err::<SessionView, LoadError>(error),
            },
    {
        match contents {
            None => Err(LoadError::Missing),
            Some(text) => match parse_document(text) {
                None => Err(LoadError::Corrupted),
                Some(doc) => match decode_session(&doc) {
                    Some(session) => Ok(session),
                    None => Err(LoadError::Corrupted),
                },
            },
        }
    }
}

} // verus!
