//! The introspection document: how a JSON value is read as a tree of nodes.
//!
//! A node is a JSON object. It names its path and its access mode, may carry
//! a description, and holds either `CONTENTS`, an object of child nodes, or
//! `TYPE`, with the values of a leaf under `VALUE`. An object with both or
//! with neither is no node. Members under other names are passed over.

use vstd::prelude::*;
use vstd::string::*;
use crate::json::{json_document, json_view, parse_json, Json, JsonModel};
use crate::keys::{entry_keys, find, first_index, keys_of};
use crate::node::{
    members_view, values_view, Contents, NodeData, NodeTree, OSCQueryNode, OSCQueryValue, Payload,
    TypedValue, ValueModel,
};
use crate::OQError;

verus! {

/// The member that holds a node's path.
pub const FULL_PATH: &'static str = "FULL_PATH";

/// The member that holds a node's access mode.
pub const ACCESS: &'static str = "ACCESS";

/// The member that holds a node's description.
pub const DESCRIPTION: &'static str = "DESCRIPTION";

/// The member that holds a container's children.
pub const CONTENTS: &'static str = "CONTENTS";

/// The member that holds a leaf's type tag.
pub const TYPE: &'static str = "TYPE";

/// The member that holds a leaf's values.
pub const VALUE: &'static str = "VALUE";

/// The first member of `members` under `name`, if there is one.
pub open spec fn field(members: Seq<(Seq<char>, JsonModel)>, name: Seq<char>) -> Option<
    JsonModel,
> {
    let i = first_index(keys_of(members), name);
    if 0 <= i < members.len() {
        Some(members[i].1)
    } else {
        None
    }
}

/// A text that must be there: the text of a string.
pub open spec fn decode_text(field: Option<JsonModel>) -> Option<Seq<char>> {
    match field {
        Some(JsonModel::String(text)) => Some(text),
        _ => None,
    }
}

/// The access mode: an integer that fits eight bits, sign included.
pub open spec fn decode_access(field: Option<JsonModel>) -> Option<i8> {
    match field {
        Some(JsonModel::Number(n)) => match n.integer {
            Some(i) => if -128 <= i <= 127 {
                Some(i as i8)
            } else {
                None
            },
            None => None,
        },
        _ => None,
    }
}

/// A text that may be missing: none where the member is absent or null, the
/// text of a string, and no reading at all of anything else.
pub open spec fn decode_description(field: Option<JsonModel>) -> Option<Option<Seq<char>>> {
    match field {
        None => Some(None),
        Some(JsonModel::Null) => Some(None),
        Some(JsonModel::String(text)) => Some(Some(text)),
        _ => None,
    }
}

/// An integer from 0 to 255.
pub open spec fn decode_small(json: JsonModel) -> Option<u8> {
    match json {
        JsonModel::Number(n) => match n.integer {
            Some(i) => if 0 <= i <= 255 {
                Some(i as u8)
            } else {
                None
            },
            None => None,
        },
        _ => None,
    }
}

/// One value of a leaf, by the shape of the JSON value: a boolean; a number,
/// which is an `Int` where it is an integer of 32 bits and a `Float`
/// otherwise; a string; an object of small integers. Null and arrays are no
/// values.
pub open spec fn decode_value(json: JsonModel) -> Option<ValueModel> {
    match json {
        JsonModel::Bool(b) => Some(ValueModel::Boolean(b)),
        JsonModel::Number(n) => match n.integer {
            Some(i) => if -0x8000_0000 <= i <= 0x7fff_ffff {
                Some(ValueModel::Int(i as i32))
            } else {
                Some(ValueModel::Float(n.bits))
            },
            None => Some(ValueModel::Float(n.bits)),
        },
        JsonModel::String(text) => Some(ValueModel::String(text)),
        JsonModel::Object(members) => if forall|k: int|
            0 <= k < members.len() ==> decode_small((#[trigger] members[k]).1) is Some {
            Some(
                ValueModel::Object(
                    Seq::new(members.len(), |k: int| (members[k].0, decode_small(members[k].1)->0)),
                ),
            )
        } else {
            None
        },
        _ => None,
    }
}

/// The values of a leaf: none where the member is absent or null, the values
/// of an array if each of its items is one, no reading of anything else.
pub open spec fn decode_values(field: Option<JsonModel>) -> Option<Option<Seq<ValueModel>>> {
    match field {
        None => Some(None),
        Some(JsonModel::Null) => Some(None),
        Some(JsonModel::Array(items)) => if forall|k: int|
            0 <= k < items.len() ==> decode_value(#[trigger] items[k]) is Some {
            Some(Some(Seq::new(items.len(), |k: int| decode_value(items[k])->0)))
        } else {
            None
        },
        _ => None,
    }
}

/// The payload of a leaf from its type tag and its values.
pub open spec fn decode_leaf(tag: JsonModel, values: Option<JsonModel>) -> Option<Payload> {
    match (decode_text(Some(tag)), decode_values(values)) {
        (Some(value_type), Some(values)) => Some(Payload::Leaf { value_type, values }),
        _ => None,
    }
}

/// The node that `json` describes, if it describes one.
pub open spec fn decode_node(json: JsonModel) -> Option<NodeTree>
    decreases json,
{
    match json {
        JsonModel::Object(members) => {
            let c = first_index(keys_of(members), CONTENTS@);
            let payload = match field(members, TYPE@) {
                Some(tag) => if 0 <= c < members.len() {
                    None
                } else {
                    decode_leaf(tag, field(members, VALUE@))
                },
                None => if 0 <= c < members.len() {
                    match members[c].1 {
                        JsonModel::Object(children) => match decode_children(children) {
                            Some(children) => Some(Payload::Container(children)),
                            None => None,
                        },
                        _ => None,
                    }
                } else {
                    None
                },
            };
            match (
                decode_text(field(members, FULL_PATH@)),
                decode_access(field(members, ACCESS@)),
                decode_description(field(members, DESCRIPTION@)),
                payload,
            ) {
                (Some(full_path), Some(access), Some(description), Some(payload)) => Some(
                    NodeTree { full_path, access, description, payload },
                ),
                _ => None,
            }
        },
        _ => None,
    }
}

/// The children that the members of `CONTENTS` describe, each under its
/// key, if every member describes a node.
pub open spec fn decode_children(members: Seq<(Seq<char>, JsonModel)>) -> Option<
    Seq<(Seq<char>, NodeTree)>,
>
    decreases members,
{
    if forall|k: int| 0 <= k < members.len() ==> decode_node((#[trigger] members[k]).1) is Some {
        Some(
            Seq::new(
                members.len(),
                |k: int|
                    if 0 <= k < members.len() {
                        (members[k].0, decode_node(members[k].1)->0)
                    } else {
                        arbitrary()
                    },
            ),
        )
    } else {
        None
    }
}

/// Whether `inner` stands in `json` where a node is expected: as `json`
/// itself, or so in one of the members of its `CONTENTS`.
pub open spec fn stands_as_node(json: JsonModel, inner: JsonModel) -> bool
    decreases json,
{
    json == inner || match json {
        JsonModel::Object(members) => {
            let c = first_index(keys_of(members), CONTENTS@);
            0 <= c < members.len() && match members[c].1 {
                JsonModel::Object(children) => exists|k: int|
                    0 <= k < children.len() && stands_as_node((#[trigger] children[k]).1, inner),
                _ => false,
            }
        },
        _ => false,
    }
}

/// A node is a container or a leaf, one of the two: an object that has both
/// `CONTENTS` and `TYPE`, or neither, describes no node.
pub proof fn lemma_both_or_neither_is_no_node(members: Seq<(Seq<char>, JsonModel)>)
    requires
        field(members, CONTENTS@) is Some <==> field(members, TYPE@) is Some,
    ensures
        decode_node(JsonModel::Object(members)) is None,
{
}

/// What a node holds follows from what its object has: children where it
/// has `CONTENTS`, a value where it has `TYPE`.
pub proof fn lemma_payload_follows_members(members: Seq<(Seq<char>, JsonModel)>)
    requires
        decode_node(JsonModel::Object(members)) is Some,
    ensures
        decode_node(JsonModel::Object(members))->0.payload is Container <==> field(
            members,
            CONTENTS@,
        ) is Some,
        decode_node(JsonModel::Object(members))->0.payload is Leaf <==> field(members, TYPE@) is Some,
{
}

/// A document describes a tree only if every value that stands in it as a
/// node describes one.
pub proof fn lemma_nodes_all_the_way_down(json: JsonModel, inner: JsonModel)
    requires
        decode_node(json) is Some,
        stands_as_node(json, inner),
    ensures
        decode_node(inner) is Some,
    decreases json,
{
    if json != inner {
        let members = json->Object_0;
        let c = first_index(keys_of(members), CONTENTS@);
        let children = members[c].1->Object_0;
        let k = choose|k: int|
            0 <= k < children.len() && stands_as_node((#[trigger] children[k]).1, inner);
        assert(decode_children(children) is Some);
        lemma_nodes_all_the_way_down(children[k].1, inner);
    }
}

/// An object with both `CONTENTS` and `TYPE`, or with neither, spoils the
/// document at whatever depth it stands as a node.
pub proof fn lemma_malformed_node_spoils_document(
    json: JsonModel,
    members: Seq<(Seq<char>, JsonModel)>,
)
    requires
        stands_as_node(json, JsonModel::Object(members)),
        field(members, CONTENTS@) is Some <==> field(members, TYPE@) is Some,
    ensures
        decode_node(json) is None,
{
    if decode_node(json) is Some {
        lemma_nodes_all_the_way_down(json, JsonModel::Object(members));
    }
}

/// The tree of a JSON value whose objects hold each key once holds each
/// segment name once in every container.
pub proof fn lemma_decoded_names_are_unique(json: JsonModel)
    requires
        json.well_keyed(),
        decode_node(json) is Some,
    ensures
        decode_node(json)->0.uniquely_named(),
    decreases json,
{
    let members = json->Object_0;
    let tree = decode_node(json)->0;
    if let Payload::Container(children) = tree.payload {
        let c = first_index(keys_of(members), CONTENTS@);
        assert(members[c].1.well_keyed());
        let given = members[c].1->Object_0;
        assert(keys_of(children) =~= keys_of(given));
        assert forall|i: int| 0 <= i < children.len() implies (#[trigger] children[i]).1.uniquely_named() by {
            assert(given[i].1.well_keyed());
            lemma_decoded_names_are_unique(given[i].1);
        }
    }
}

/// The tree that the document `text` describes, if it is JSON that describes
/// a node.
pub open spec fn document_tree(text: Seq<char>) -> Option<NodeTree> {
    match json_document(text) {
        Some(json) => decode_node(json),
        None => None,
    }
}

/// The members of an object in memory, as mathematics.
pub open spec fn json_members(members: Seq<(String, Json)>) -> Seq<(Seq<char>, JsonModel)> {
    Seq::new(
        members.len(),
        |i: int|
            if 0 <= i < members.len() {
                (members[i].0@, json_view(members[i].1))
            } else {
                arbitrary()
            },
    )
}

/// A member that was looked up, as mathematics.
pub open spec fn field_view(field: Option<&Json>) -> Option<JsonModel> {
    match field {
        Some(json) => Some(json@),
        None => None,
    }
}

/// A text that was read, as mathematics.
pub open spec fn text_view(text: Option<String>) -> Option<Seq<char>> {
    match text {
        Some(text) => Some(text@),
        None => None,
    }
}

/// Looks up the first member under `name`.
fn member<'a>(members: &'a Vec<(String, Json)>, name: &str) -> (r: Option<&'a Json>)
    ensures
        field_view(r) == field(json_members(members@), name@),
{
    let key: String = String::from_str(name);
    let i: usize = find(members, &key);
    assert(entry_keys(members@) =~= keys_of(json_members(members@)));
    if i < members.len() {
        Some(&members[i].1)
    } else {
        None
    }
}

fn read_text(field: Option<&Json>) -> (r: Option<String>)
    ensures
        text_view(r) == decode_text(field_view(field)),
{
    match field {
        Some(Json::String(text)) => Some(text.clone()),
        _ => None,
    }
}

fn read_access(field: Option<&Json>) -> (r: Option<i8>)
    ensures
        r == decode_access(field_view(field)),
{
    match field {
        Some(Json::Number(n)) => match n.integer {
            Some(i) => if -128 <= i && i <= 127 {
                Some(i as i8)
            } else {
                None
            },
            None => None,
        },
        _ => None,
    }
}

fn read_description(field: Option<&Json>) -> (r: Option<Option<String>>)
    ensures
        match r {
            Some(text) => decode_description(field_view(field)) == Some(text_view(text)),
            None => decode_description(field_view(field)) is None,
        },
{
    match field {
        None => Some(None),
        Some(Json::Null) => Some(None),
        Some(Json::String(text)) => Some(Some(text.clone())),
        _ => None,
    }
}

fn read_small(json: &Json) -> (r: Option<u8>)
    ensures
        r == decode_small(json@),
{
    match json {
        Json::Number(n) => match n.integer {
            Some(i) => if 0 <= i && i <= 255 {
                Some(i as u8)
            } else {
                None
            },
            None => None,
        },
        _ => None,
    }
}

impl OSCQueryValue {
    /// Reads one value of a leaf from its JSON form.
    pub fn from_json(json: &Json) -> (r: Option<OSCQueryValue>)
        ensures
            match r {
                Some(value) => decode_value(json@) == Some(value@),
                None => decode_value(json@) is None,
            },
    {
        match json {
            Json::Bool(b) => Some(OSCQueryValue::BOOLEAN(*b)),
            Json::Number(n) => match n.integer {
                Some(i) => if -0x8000_0000 <= i && i <= 0x7fff_ffff {
                    Some(OSCQueryValue::INT(i as i32))
                } else {
                    Some(OSCQueryValue::FLOAT(n.bits))
                },
                None => Some(OSCQueryValue::FLOAT(n.bits)),
            },
            Json::String(text) => Some(OSCQueryValue::STRING(text.clone())),
            Json::Object(members) => {
                let ghost given = json_members(members@);
                assert(json@->Object_0 =~= given);
                let mut read: Vec<(String, u8)> = Vec::new();
                let mut k: usize = 0;
                while k < members.len()
                    invariant
                        k <= members.len(),
                        read.len() == k,
                        given == json_members(members@),
                        json@ == JsonModel::Object(given),
                        forall|j: int|
                            0 <= j < k ==> (#[trigger] read@[j]).0@ == given[j].0 && decode_small(
                                given[j].1,
                            ) == Some(read@[j].1),
                    decreases members.len() - k,
                {
                    match read_small(&members[k].1) {
                        Some(small) => {
                            read.push((members[k].0.clone(), small));
                        },
                        None => {
                            assert(decode_small(given[k as int].1) is None);
                            return None;
                        },
                    }
                    k = k + 1;
                }
                let value = OSCQueryValue::OBJECT(read);
                proof {
                    assert forall|j: int| 0 <= j < given.len() implies decode_small(
                        (#[trigger] given[j]).1,
                    ) is Some by {
                        assert(read@[j].0@ == given[j].0);
                    }
                    assert(members_view(read@) =~= Seq::new(
                        given.len(),
                        |j: int| (given[j].0, decode_small(given[j].1)->0),
                    )) by {
                        assert forall|j: int| 0 <= j < given.len() implies members_view(read@)[j] == (
                            given[j].0,
                            decode_small(given[j].1)->0,
                        ) by {
                            assert(read@[j].0@ == given[j].0);
                        }
                    }
                }
                Some(value)
            },
            _ => None,
        }
    }
}

/// Reads the values of a leaf from the member under `VALUE`.
fn read_values(field: Option<&Json>) -> (r: Option<Option<Vec<OSCQueryValue>>>)
    ensures
        match r {
            Some(Some(values)) => decode_values(field_view(field)) == Some(Some(values_view(values@))),
            Some(None) => decode_values(field_view(field)) == Some(None::<Seq<ValueModel>>),
            None => decode_values(field_view(field)) is None,
        },
{
    match field {
        None => Some(None),
        Some(Json::Null) => Some(None),
        Some(Json::Array(items)) => {
            let ghost given = field_view(field)->0->Array_0;
            let mut read: Vec<OSCQueryValue> = Vec::new();
            let mut k: usize = 0;
            while k < items.len()
                invariant
                    k <= items.len(),
                    read.len() == k,
                    given.len() == items.len(),
                    field_view(field) == Some(JsonModel::Array(given)),
                    forall|j: int| 0 <= j < items.len() ==> given[j] == (#[trigger] items@[j])@,
                    forall|j: int| 0 <= j < k ==> decode_value(given[j]) == Some((#[trigger] read@[j])@),
                decreases items.len() - k,
            {
                match OSCQueryValue::from_json(&items[k]) {
                    Some(value) => {
                        read.push(value);
                    },
                    None => {
                        assert(decode_value(given[k as int]) is None);
                        return None;
                    },
                }
                k = k + 1;
            }
            proof {
                assert forall|j: int| 0 <= j < given.len() implies decode_value(
                    #[trigger] given[j],
                ) is Some by {
                    assert(decode_value(given[j]) == Some(read@[j]@));
                }
                assert(values_view(read@) =~= Seq::new(
                    given.len(),
                    |j: int| decode_value(given[j])->0,
                )) by {
                    assert forall|j: int| 0 <= j < given.len() implies values_view(read@)[j]
                        == decode_value(given[j])->0 by {
                        assert(decode_value(given[j]) == Some(read@[j]@));
                    }
                }
            }
            Some(Some(read))
        },
        _ => None,
    }
}

impl TypedValue {
    /// Reads a leaf's payload from its type tag and the member under `VALUE`.
    pub fn from_json(tag: &Json, values: Option<&Json>) -> (r: Option<TypedValue>)
        ensures
            match r {
                Some(leaf) => decode_leaf(tag@, field_view(values)) == Some(leaf@),
                None => decode_leaf(tag@, field_view(values)) is None,
            },
    {
        let _type: String = match read_text(Some(tag)) {
            Some(text) => text,
            None => {
                return None;
            },
        };
        match read_values(values) {
            Some(value) => Some(TypedValue { _type, value }),
            None => None,
        }
    }
}

impl Contents {
    /// Reads the children of a container from the members of `CONTENTS`.
    pub fn from_json(members: &Vec<(String, Json)>) -> (r: Option<Contents>)
        ensures
            match r {
                Some(contents) => decode_children(json_members(members@)) == Some(contents@),
                None => decode_children(json_members(members@)) is None,
            },
        decreases members,
    {
        let ghost given = json_members(members@);
        let mut contents: Vec<(String, OSCQueryNode)> = Vec::new();
        let mut k: usize = 0;
        while k < members.len()
            invariant
                k <= members.len(),
                contents.len() == k,
                given == json_members(members@),
                forall|j: int|
                    0 <= j < k ==> (#[trigger] contents@[j]).0@ == given[j].0 && decode_node(
                        given[j].1,
                    ) == Some(contents@[j].1@),
            decreases members.len() - k,
        {
            proof {
                assert(decreases_to!(members => members@));
                assert(decreases_to!(members@ => members@[k as int]));
                assert(decreases_to!(members@[k as int] => members@[k as int].1));
            }
            match OSCQueryNode::from_json(&members[k].1) {
                Ok(node) => {
                    contents.push((members[k].0.clone(), node));
                },
                Err(_) => {
                    assert(decode_node(given[k as int].1) is None);
                    return None;
                },
            }
            k = k + 1;
        }
        let contents = Contents { contents };
        proof {
            assert forall|j: int| 0 <= j < given.len() implies decode_node(
                (#[trigger] given[j]).1,
            ) is Some by {
                assert(contents.contents@[j].0@ == given[j].0);
            }
            assert(contents@ =~= decode_children(given)->0) by {
                assert forall|j: int| 0 <= j < given.len() implies contents@[j] == (
                    given[j].0,
                    decode_node(given[j].1)->0,
                ) by {
                    assert(contents.contents@[j].0@ == given[j].0);
                }
            }
        }
        Some(contents)
    }
}

impl OSCQueryNode {
    /// Reads a node, with all below it, from its JSON form. A value that
    /// describes no node is a `MalformedDocument`.
    pub fn from_json(json: &Json) -> (r: Result<OSCQueryNode, OQError>)
        ensures
            match r {
                Ok(node) => decode_node(json@) == Some(node@),
                Err(e) => e == OQError::MalformedDocument && decode_node(json@) is None,
            },
        decreases json,
    {
        let members: &Vec<(String, Json)> = match json {
            Json::Object(members) => members,
            _ => {
                return Err(OQError::MalformedDocument);
            },
        };
        let ghost given = json_members(members@);
        assert(json@ == JsonModel::Object(given)) by {
            assert(json@->Object_0 =~= given);
        }
        let key: String = String::from_str(CONTENTS);
        let c: usize = find(members, &key);
        assert(entry_keys(members@) =~= keys_of(given));
        let data: NodeData = match member(members, TYPE) {
            Some(tag) => {
                if c < members.len() {
                    return Err(OQError::MalformedDocument);
                }
                match TypedValue::from_json(tag, member(members, VALUE)) {
                    Some(leaf) => NodeData::Leaf(leaf),
                    None => {
                        return Err(OQError::MalformedDocument);
                    },
                }
            },
            None => {
                if c >= members.len() {
                    return Err(OQError::MalformedDocument);
                }
                match &members[c].1 {
                    Json::Object(children) => {
                        proof {
                            assert(decreases_to!(json => json->Object_0));
                            assert(decreases_to!(members => members@));
                            assert(decreases_to!(members@ => members@[c as int]));
                            assert(decreases_to!(members@[c as int] => members@[c as int].1));
                            let inner = members@[c as int].1;
                            assert(decreases_to!(inner => inner->Object_0));
                            assert(given[c as int].1->Object_0 =~= json_members(children@));
                        }
                        match Contents::from_json(children) {
                            Some(contents) => NodeData::Internal(contents),
                            None => {
                                return Err(OQError::MalformedDocument);
                            },
                        }
                    },
                    _ => {
                        return Err(OQError::MalformedDocument);
                    },
                }
            },
        };
        let full_path: String = match read_text(member(members, FULL_PATH)) {
            Some(text) => text,
            None => {
                return Err(OQError::MalformedDocument);
            },
        };
        let access: i8 = match read_access(member(members, ACCESS)) {
            Some(access) => access,
            None => {
                return Err(OQError::MalformedDocument);
            },
        };
        let description: Option<String> = match read_description(member(members, DESCRIPTION)) {
            Some(description) => description,
            None => {
                return Err(OQError::MalformedDocument);
            },
        };
        Ok(OSCQueryNode { full_path, access, description, data })
    }

    /// Reads the tree that the document `text` describes. A text that is no
    /// JSON, or JSON that describes no node, is a `MalformedDocument`.
    pub fn parse(text: &str) -> (r: Result<OSCQueryNode, OQError>)
        ensures
            match r {
                Ok(node) => document_tree(text@) == Some(node@) && node@.uniquely_named(),
                Err(e) => e == OQError::MalformedDocument && document_tree(text@) is None,
            },
    {
        match parse_json(text) {
            Some(json) => {
                proof {
                    if decode_node(json@) is Some {
                        lemma_decoded_names_are_unique(json@);
                    }
                }
                OSCQueryNode::from_json(&json)
            },
            None => Err(OQError::MalformedDocument),
        }
    }
}

} // verus!
