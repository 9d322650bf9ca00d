//! Conversation items and model responses, with their JSON codecs.
//!
//! `Message`, `FunctionCall` and `FunctionCallOutput` are the items the
//! runtime builds itself; `Reasoning` and `Other` carry foreign values
//! through unchanged, so unknown item types survive a round trip.

use vstd::prelude::*;

use crate::json::{
    arr_view, json_clone, json_view, lemma_arr_view, lemma_obj_view, lemma_str_field_view,
    obj_get, obj_view, str_field, v_obj_get, v_str_field, Json, JsonV,
};
use crate::text::{chars_eq, chars_to_string, parse_u32, str_chars, u32_of_token};

verus! {

/// The author of a message.
#[derive(Clone, Copy, Debug, PartialEq, Eq, Structural)]
pub enum Role {
    User,
    Assistant,
    System,
}

/// The wire name of a role.
pub open spec fn role_chars(r: Role) -> Seq<char> {
    match r {
        Role::User => "user"@,
        Role::Assistant => "assistant"@,
        Role::System => "system"@,
    }
}

/// The role a wire name denotes, if any.
pub open spec fn role_of_chars(s: Seq<char>) -> Option<Role> {
    if s == "user"@ {
        Some(Role::User)
    } else if s == "assistant"@ {
        Some(Role::Assistant)
    } else if s == "system"@ {
        Some(Role::System)
    } else {
        None
    }
}

/// Render a role's wire name.
pub fn role_str(r: Role) -> (res: Vec<char>)
    ensures
        res@ == role_chars(r),
{
    match r {
        Role::User => str_chars("user"),
        Role::Assistant => str_chars("assistant"),
        Role::System => str_chars("system"),
    }
}

/// Recognise a role's wire name.
pub fn role_from_chars(s: &Vec<char>) -> (r: Option<Role>)
    ensures
        r == role_of_chars(s@),
{
    let user = str_chars("user");
    let assistant = str_chars("assistant");
    let system = str_chars("system");
    if chars_eq(s, &user) {
        Some(Role::User)
    } else if chars_eq(s, &assistant) {
        Some(Role::Assistant)
    } else if chars_eq(s, &system) {
        Some(Role::System)
    } else {
        None
    }
}

/// A conversation item, as kept in history and in transcript files.
pub enum Item {
    Message { role: Role, content: String },
    FunctionCall { id: String, call_id: String, name: String, arguments: String },
    FunctionCallOutput { call_id: String, output: String },
    /// An opaque reasoning item, preserved for the provider.
    Reasoning(Json),
    /// Any other item type, preserved verbatim for forward compatibility.
    Other(Json),
}

/// The mathematical model of a conversation item.
#[verifier::ext_equal]
pub enum ItemV {
    Message { role: Role, content: Seq<char> },
    FunctionCall { id: Seq<char>, call_id: Seq<char>, name: Seq<char>, arguments: Seq<char> },
    FunctionCallOutput { call_id: Seq<char>, output: Seq<char> },
    Reasoning(JsonV),
    Other(JsonV),
}

impl View for Item {
    type V = ItemV;

    open spec fn view(&self) -> ItemV {
        match self {
            Item::Message { role, content } => ItemV::Message { role: *role, content: content@ },
            Item::FunctionCall { id, call_id, name, arguments } => ItemV::FunctionCall {
                id: id@,
                call_id: call_id@,
                name: name@,
                arguments: arguments@,
            },
            Item::FunctionCallOutput { call_id, output } => ItemV::FunctionCallOutput {
                call_id: call_id@,
                output: output@,
            },
            Item::Reasoning(v) => ItemV::Reasoning(v@),
            Item::Other(v) => ItemV::Other(v@),
        }
    }
}

/// The JSON shape an item is written as.
pub open spec fn item_json(iv: ItemV) -> JsonV {
    match iv {
        ItemV::Message { role, content } => JsonV::Obj(
            seq![
                ("type"@, JsonV::Str("message"@)),
                ("role"@, JsonV::Str(role_chars(role))),
                ("content"@, JsonV::Str(content)),
            ],
        ),
        ItemV::FunctionCall { id, call_id, name, arguments } => JsonV::Obj(
            seq![
                ("type"@, JsonV::Str("function_call"@)),
                ("id"@, JsonV::Str(id)),
                ("call_id"@, JsonV::Str(call_id)),
                ("name"@, JsonV::Str(name)),
                ("arguments"@, JsonV::Str(arguments)),
            ],
        ),
        ItemV::FunctionCallOutput { call_id, output } => JsonV::Obj(
            seq![
                ("type"@, JsonV::Str("function_call_output"@)),
                ("call_id"@, JsonV::Str(call_id)),
                ("output"@, JsonV::Str(output)),
            ],
        ),
        ItemV::Reasoning(v) => v,
        ItemV::Other(v) => v,
    }
}

/// The item a JSON value decodes to. Unknown types and non-objects are kept
/// verbatim as `Other`; only a `message` whose role is not recognised fails.
pub open spec fn item_of_jsonv(jv: JsonV) -> Option<ItemV> {
    match jv {
        JsonV::Obj(fs) => {
            let t = v_str_field(fs, "type"@);
            if t == "message"@ {
                match role_of_chars(v_str_field(fs, "role"@)) {
                    Some(role) => Some(
                        ItemV::Message { role, content: v_str_field(fs, "content"@) },
                    ),
                    None => None,
                }
            } else if t == "function_call"@ {
                Some(
                    ItemV::FunctionCall {
                        id: v_str_field(fs, "id"@),
                        call_id: v_str_field(fs, "call_id"@),
                        name: v_str_field(fs, "name"@),
                        arguments: v_str_field(fs, "arguments"@),
                    },
                )
            } else if t == "function_call_output"@ {
                Some(
                    ItemV::FunctionCallOutput {
                        call_id: v_str_field(fs, "call_id"@),
                        output: v_str_field(fs, "output"@),
                    },
                )
            } else if t == "reasoning"@ {
                Some(ItemV::Reasoning(jv))
            } else {
                Some(ItemV::Other(jv))
            }
        },
        _ => Some(ItemV::Other(jv)),
    }
}

/// A well-formed item: its opaque variants hold exactly the values the
/// decoder would classify that way.
pub open spec fn wf_item(iv: ItemV) -> bool {
    match iv {
        ItemV::Reasoning(v) => item_of_jsonv(v) == Some(ItemV::Reasoning(v)),
        ItemV::Other(v) => item_of_jsonv(v) == Some(ItemV::Other(v)),
        _ => true,
    }
}

proof fn neq_by_head(a: Seq<char>, b: Seq<char>)
    requires
        a.len() > 0,
        b.len() > 0,
        a[0] != b[0],
    ensures
        a != b,
{
    if a == b {
        assert(a[0] == b[0]);
    }
}

proof fn neq_by_len(a: Seq<char>, b: Seq<char>)
    requires
        a.len() != b.len(),
    ensures
        a != b,
{
    if a == b {
        assert(a.len() == b.len());
    }
}

/// Writing an item and reading it back yields the item unchanged, for every
/// well-formed item, opaque variants included.
pub proof fn lemma_item_round_trip(iv: ItemV)
    requires
        wf_item(iv),
    ensures
        item_of_jsonv(item_json(iv)) == Some(iv),
{
    reveal_with_fuel(crate::json::v_obj_get, 8);
    reveal_strlit("type");
    reveal_strlit("role");
    reveal_strlit("content");
    reveal_strlit("id");
    reveal_strlit("call_id");
    reveal_strlit("name");
    reveal_strlit("arguments");
    reveal_strlit("output");
    reveal_strlit("message");
    reveal_strlit("function_call");
    reveal_strlit("function_call_output");
    reveal_strlit("reasoning");
    reveal_strlit("user");
    reveal_strlit("assistant");
    reveal_strlit("system");
    match iv {
        ItemV::Message { role, content } => {
            let fs = item_json(iv)->Obj_0;
            assert(fs.skip(1)[0] == fs[1]);
            assert(fs.skip(1).skip(1)[0] == fs[2]);
            neq_by_head("type"@, "role"@);
            neq_by_len("type"@, "content"@);
            neq_by_len("role"@, "content"@);
            assert(v_str_field(fs, "type"@) == "message"@);
            assert(v_str_field(fs, "role"@) == role_chars(role));
            assert(v_str_field(fs, "content"@) == content);
            match role {
                Role::User => {
                    assert(role_of_chars(role_chars(role)) == Some(role));
                },
                Role::Assistant => {
                    neq_by_len("assistant"@, "user"@);
                    assert(role_of_chars(role_chars(role)) == Some(role));
                },
                Role::System => {
                    neq_by_len("system"@, "user"@);
                    neq_by_len("system"@, "assistant"@);
                    assert(role_of_chars(role_chars(role)) == Some(role));
                },
            }
        },
        ItemV::FunctionCall { id, call_id, name, arguments } => {
            let fs = item_json(iv)->Obj_0;
            assert(fs.skip(1)[0] == fs[1]);
            assert(fs.skip(1).skip(1)[0] == fs[2]);
            assert(fs.skip(1).skip(1).skip(1)[0] == fs[3]);
            assert(fs.skip(1).skip(1).skip(1).skip(1)[0] == fs[4]);
            neq_by_len("function_call"@, "message"@);
            neq_by_len("type"@, "id"@);
            neq_by_len("type"@, "call_id"@);
            neq_by_len("id"@, "call_id"@);
            neq_by_head("type"@, "name"@);
            neq_by_len("id"@, "name"@);
            neq_by_len("call_id"@, "name"@);
            neq_by_len("type"@, "arguments"@);
            neq_by_len("id"@, "arguments"@);
            neq_by_len("call_id"@, "arguments"@);
            neq_by_len("name"@, "arguments"@);
            assert(v_str_field(fs, "type"@) == "function_call"@);
            assert(v_str_field(fs, "id"@) == id);
            assert(v_str_field(fs, "call_id"@) == call_id);
            assert(v_str_field(fs, "name"@) == name);
            assert(v_str_field(fs, "arguments"@) == arguments);
        },
        ItemV::FunctionCallOutput { call_id, output } => {
            let fs = item_json(iv)->Obj_0;
            assert(fs.skip(1)[0] == fs[1]);
            assert(fs.skip(1).skip(1)[0] == fs[2]);
            neq_by_len("function_call_output"@, "message"@);
            neq_by_len("function_call_output"@, "function_call"@);
            neq_by_len("type"@, "call_id"@);
            neq_by_len("type"@, "output"@);
            neq_by_len("call_id"@, "output"@);
            assert(v_str_field(fs, "type"@) == "function_call_output"@);
            assert(v_str_field(fs, "call_id"@) == call_id);
            assert(v_str_field(fs, "output"@) == output);
        },
        ItemV::Reasoning(v) => {},
        ItemV::Other(v) => {},
    }
}

/// Encode an item as a JSON value.
pub fn item_to_json(i: &Item) -> (r: Json)
    ensures
        r@ == item_json(i@),
{
    match i {
        Item::Message { role, content } => {
            let mut fields: Vec<(Vec<char>, Json)> = Vec::new();
            fields.push((str_chars("type"), Json::Str(str_chars("message"))));
            fields.push((str_chars("role"), Json::Str(role_str(*role))));
            fields.push((str_chars("content"), Json::Str(str_chars(content.as_str()))));
            let r = Json::Obj(fields);
            proof {
                let fs = r->Obj_0;
                lemma_obj_view(fs@);
                assert(obj_view(fs@) =~= item_json(i@)->Obj_0);
            }
            r
        },
        Item::FunctionCall { id, call_id, name, arguments } => {
            let mut fields: Vec<(Vec<char>, Json)> = Vec::new();
            fields.push((str_chars("type"), Json::Str(str_chars("function_call"))));
            fields.push((str_chars("id"), Json::Str(str_chars(id.as_str()))));
            fields.push((str_chars("call_id"), Json::Str(str_chars(call_id.as_str()))));
            fields.push((str_chars("name"), Json::Str(str_chars(name.as_str()))));
            fields.push((str_chars("arguments"), Json::Str(str_chars(arguments.as_str()))));
            let r = Json::Obj(fields);
            proof {
                let fs = r->Obj_0;
                lemma_obj_view(fs@);
                assert(obj_view(fs@) =~= item_json(i@)->Obj_0);
            }
            r
        },
        Item::FunctionCallOutput { call_id, output } => {
            let mut fields: Vec<(Vec<char>, Json)> = Vec::new();
            fields.push((str_chars("type"), Json::Str(str_chars("function_call_output"))));
            fields.push((str_chars("call_id"), Json::Str(str_chars(call_id.as_str()))));
            fields.push((str_chars("output"), Json::Str(str_chars(output.as_str()))));
            let r = Json::Obj(fields);
            proof {
                let fs = r->Obj_0;
                lemma_obj_view(fs@);
                assert(obj_view(fs@) =~= item_json(i@)->Obj_0);
            }
            r
        },
        Item::Reasoning(v) => json_clone(v),
        Item::Other(v) => json_clone(v),
    }
}

/// Compare a character vector with a string literal.
fn chars_is(v: &Vec<char>, s: &str) -> (r: bool)
    ensures
        r == (v@ == s@),
{
    let sc = str_chars(s);
    chars_eq(v, &sc)
}

/// Decode an item from a JSON value, per `item_of_jsonv`.
pub fn item_of_json(j: &Json) -> (r: Option<Item>)
    ensures
        match r {
            Some(i) => item_of_jsonv(j@) == Some(i@),
            None => item_of_jsonv(j@) is None,
        },
{
    match j {
        Json::Obj(fields) => {
            proof {
                lemma_str_field_view(fields@, "type"@);
                lemma_str_field_view(fields@, "role"@);
                lemma_str_field_view(fields@, "content"@);
                lemma_str_field_view(fields@, "id"@);
                lemma_str_field_view(fields@, "call_id"@);
                lemma_str_field_view(fields@, "name"@);
                lemma_str_field_view(fields@, "arguments"@);
                lemma_str_field_view(fields@, "output"@);
            }
            let t = str_field(fields, "type");
            if chars_is(&t, "message") {
                let rs = str_field(fields, "role");
                match role_from_chars(&rs) {
                    Some(role) => {
                        let content = str_field(fields, "content");
                        Some(Item::Message { role, content: chars_to_string(&content) })
                    },
                    None => None,
                }
            } else if chars_is(&t, "function_call") {
                let id = str_field(fields, "id");
                let call_id = str_field(fields, "call_id");
                let name = str_field(fields, "name");
                let arguments = str_field(fields, "arguments");
                Some(
                    Item::FunctionCall {
                        id: chars_to_string(&id),
                        call_id: chars_to_string(&call_id),
                        name: chars_to_string(&name),
                        arguments: chars_to_string(&arguments),
                    },
                )
            } else if chars_is(&t, "function_call_output") {
                let call_id = str_field(fields, "call_id");
                let output = str_field(fields, "output");
                Some(
                    Item::FunctionCallOutput {
                        call_id: chars_to_string(&call_id),
                        output: chars_to_string(&output),
                    },
                )
            } else if chars_is(&t, "reasoning") {
                Some(Item::Reasoning(json_clone(j)))
            } else {
                Some(Item::Other(json_clone(j)))
            }
        },
        _ => Some(Item::Other(json_clone(j))),
    }
}

/// The models of a sequence of items.
pub open spec fn items_view(s: Seq<Item>) -> Seq<ItemV> {
    s.map_values(|i: Item| i@)
}

/// Element-wise description of `items_view`.
pub proof fn lemma_items_view(s: Seq<Item>)
    ensures
        items_view(s).len() == s.len(),
        forall|i: int| 0 <= i < s.len() ==> items_view(s)[i] == s[i]@,
{
}

/// Deep-copy an item; the copy has the same model.
pub fn item_clone(i: &Item) -> (r: Item)
    ensures
        r@ == i@,
{
    match i {
        Item::Message { role, content } => Item::Message { role: *role, content: content.clone() },
        Item::FunctionCall { id, call_id, name, arguments } => Item::FunctionCall {
            id: id.clone(),
            call_id: call_id.clone(),
            name: name.clone(),
            arguments: arguments.clone(),
        },
        Item::FunctionCallOutput { call_id, output } => Item::FunctionCallOutput {
            call_id: call_id.clone(),
            output: output.clone(),
        },
        Item::Reasoning(v) => Item::Reasoning(json_clone(v)),
        Item::Other(v) => Item::Other(json_clone(v)),
    }
}

/// Deep-copy a list of items; the copy has the same model.
pub fn items_clone(items: &Vec<Item>) -> (r: Vec<Item>)
    ensures
        items_view(r@) == items_view(items@),
{
    let mut out: Vec<Item> = Vec::new();
    let mut k: usize = 0;
    while k < items.len()
        invariant
            0 <= k <= items@.len(),
            out@.len() == k,
            forall|i: int| 0 <= i < k ==> (#[trigger] out@[i])@ == items@[i]@,
        decreases items@.len() - k,
    {
        let c = item_clone(&items[k]);
        out.push(c);
        k += 1;
    }
    proof {
        lemma_items_view(out@);
        lemma_items_view(items@);
        assert(items_view(out@) =~= items_view(items@));
    }
    out
}

// ---------------------------------------------------------------------------
// Model responses
// ---------------------------------------------------------------------------
/// One piece of content inside a model output message.
pub enum ContentPart {
    OutputText { text: String },
    Refusal { refusal: String },
    Other(Json),
}

/// The model of a content part.
#[verifier::ext_equal]
pub enum ContentPartV {
    OutputText(Seq<char>),
    Refusal(Seq<char>),
    Other(JsonV),
}

impl View for ContentPart {
    type V = ContentPartV;

    open spec fn view(&self) -> ContentPartV {
        match self {
            ContentPart::OutputText { text } => ContentPartV::OutputText(text@),
            ContentPart::Refusal { refusal } => ContentPartV::Refusal(refusal@),
            ContentPart::Other(v) => ContentPartV::Other(v@),
        }
    }
}

/// The content part a JSON value decodes to; never fails.
pub open spec fn content_part_of(jv: JsonV) -> ContentPartV {
    match jv {
        JsonV::Obj(fs) => {
            let t = v_str_field(fs, "type"@);
            if t == "output_text"@ {
                ContentPartV::OutputText(v_str_field(fs, "text"@))
            } else if t == "refusal"@ {
                ContentPartV::Refusal(v_str_field(fs, "refusal"@))
            } else {
                ContentPartV::Other(jv)
            }
        },
        _ => ContentPartV::Other(jv),
    }
}

/// Decode one content part.
pub fn content_part_of_json(j: &Json) -> (r: ContentPart)
    ensures
        r@ == content_part_of(j@),
{
    match j {
        Json::Obj(fields) => {
            proof {
                lemma_str_field_view(fields@, "type"@);
                lemma_str_field_view(fields@, "text"@);
                lemma_str_field_view(fields@, "refusal"@);
            }
            let t = str_field(fields, "type");
            if chars_is(&t, "output_text") {
                let text = str_field(fields, "text");
                ContentPart::OutputText { text: chars_to_string(&text) }
            } else if chars_is(&t, "refusal") {
                let refusal = str_field(fields, "refusal");
                ContentPart::Refusal { refusal: chars_to_string(&refusal) }
            } else {
                ContentPart::Other(json_clone(j))
            }
        },
        _ => ContentPart::Other(json_clone(j)),
    }
}

/// An output item of a model response.
pub enum OutputItem {
    Message { id: String, role: Role, content: Vec<ContentPart> },
    FunctionCall { id: String, call_id: String, name: String, arguments: String },
    /// Opaque reasoning tokens; carried only through response chaining.
    Reasoning(Json),
    /// Any unrecognised output item type.
    Other(Json),
}

/// The model of an output item.
#[verifier::ext_equal]
pub enum OutputItemV {
    Message { id: Seq<char>, role: Role, content: Seq<ContentPartV> },
    FunctionCall { id: Seq<char>, call_id: Seq<char>, name: Seq<char>, arguments: Seq<char> },
    Reasoning(JsonV),
    Other(JsonV),
}

/// The models of a sequence of content parts.
pub open spec fn parts_view(s: Seq<ContentPart>) -> Seq<ContentPartV> {
    s.map_values(|p: ContentPart| p@)
}

/// Element-wise description of `parts_view`.
pub proof fn lemma_parts_view(s: Seq<ContentPart>)
    ensures
        parts_view(s).len() == s.len(),
        forall|i: int| 0 <= i < s.len() ==> parts_view(s)[i] == s[i]@,
{
}

/// The content parts a JSON array decodes to.
pub open spec fn parts_of_arr(s: Seq<JsonV>) -> Seq<ContentPartV> {
    s.map_values(|e: JsonV| content_part_of(e))
}

/// Element-wise description of `parts_of_arr`.
pub proof fn lemma_parts_of_arr(s: Seq<JsonV>)
    ensures
        parts_of_arr(s).len() == s.len(),
        forall|i: int| 0 <= i < s.len() ==> parts_of_arr(s)[i] == content_part_of(s[i]),
{
}

impl View for OutputItem {
    type V = OutputItemV;

    open spec fn view(&self) -> OutputItemV {
        match self {
            OutputItem::Message { id, role, content } => OutputItemV::Message {
                id: id@,
                role: *role,
                content: parts_view(content@),
            },
            OutputItem::FunctionCall { id, call_id, name, arguments } => OutputItemV::FunctionCall {
                id: id@,
                call_id: call_id@,
                name: name@,
                arguments: arguments@,
            },
            OutputItem::Reasoning(v) => OutputItemV::Reasoning(v@),
            OutputItem::Other(v) => OutputItemV::Other(v@),
        }
    }
}

/// The output item a JSON value decodes to. A `message` fails when its role
/// is unknown or its `content` is present and not an array; everything else
/// is kept, unknown types verbatim.
pub open spec fn output_item_of(jv: JsonV) -> Option<OutputItemV> {
    match jv {
        JsonV::Obj(fs) => {
            let t = v_str_field(fs, "type"@);
            if t == "message"@ {
                match role_of_chars(v_str_field(fs, "role"@)) {
                    Some(role) => match v_obj_get(fs, "content"@) {
                        None => Some(
                            OutputItemV::Message {
                                id: v_str_field(fs, "id"@),
                                role,
                                content: Seq::empty(),
                            },
                        ),
                        Some(JsonV::Arr(elems)) => Some(
                            OutputItemV::Message {
                                id: v_str_field(fs, "id"@),
                                role,
                                content: parts_of_arr(elems),
                            },
                        ),
                        Some(_) => None,
                    },
                    None => None,
                }
            } else if t == "function_call"@ {
                Some(
                    OutputItemV::FunctionCall {
                        id: v_str_field(fs, "id"@),
                        call_id: v_str_field(fs, "call_id"@),
                        name: v_str_field(fs, "name"@),
                        arguments: v_str_field(fs, "arguments"@),
                    },
                )
            } else if t == "reasoning"@ {
                Some(OutputItemV::Reasoning(jv))
            } else {
                Some(OutputItemV::Other(jv))
            }
        },
        _ => Some(OutputItemV::Other(jv)),
    }
}

/// Decode one output item, per `output_item_of`.
pub fn output_item_of_json(j: &Json) -> (r: Option<OutputItem>)
    ensures
        match r {
            Some(i) => output_item_of(j@) == Some(i@),
            None => output_item_of(j@) is None,
        },
{
    match j {
        Json::Obj(fields) => {
            proof {
                lemma_str_field_view(fields@, "type"@);
                lemma_str_field_view(fields@, "role"@);
                lemma_str_field_view(fields@, "id"@);
                lemma_str_field_view(fields@, "call_id"@);
                lemma_str_field_view(fields@, "name"@);
                lemma_str_field_view(fields@, "arguments"@);
                crate::json::lemma_obj_get_view(fields@, "content"@);
            }
            let t = str_field(fields, "type");
            if chars_is(&t, "message") {
                let rs = str_field(fields, "role");
                match role_from_chars(&rs) {
                    None => None,
                    Some(role) => {
                        let idv = str_field(fields, "id");
                        let id = chars_to_string(&idv);
                        match obj_get(fields, "content") {
                            None => Some(
                                OutputItem::Message { id, role, content: Vec::new() },
                            ),
                            Some(cv) => {
                                match cv {
                                    Json::Arr(elems) => {
                                        let mut content: Vec<ContentPart> = Vec::new();
                                        let mut k: usize = 0;
                                        while k < elems.len()
                                            invariant
                                                0 <= k <= elems@.len(),
                                                content@.len() == k,
                                                forall|i: int|
                                                    0 <= i < k ==> (#[trigger] content@[i])@
                                                        == content_part_of(json_view(elems@[i])),
                                            decreases elems@.len() - k,
                                        {
                                            let p = content_part_of_json(&elems[k]);
                                            content.push(p);
                                            k += 1;
                                        }
                                        proof {
                                            lemma_arr_view(elems@);
                                            lemma_parts_view(content@);
                                            lemma_parts_of_arr(arr_view(elems@));
                                            assert(parts_view(content@) =~= parts_of_arr(
                                                arr_view(elems@),
                                            ));
                                        }
                                        Some(OutputItem::Message { id, role, content })
                                    },
                                    _ => None,
                                }
                            },
                        }
                    },
                }
            } else if chars_is(&t, "function_call") {
                let id = str_field(fields, "id");
                let call_id = str_field(fields, "call_id");
                let name = str_field(fields, "name");
                let arguments = str_field(fields, "arguments");
                Some(
                    OutputItem::FunctionCall {
                        id: chars_to_string(&id),
                        call_id: chars_to_string(&call_id),
                        name: chars_to_string(&name),
                        arguments: chars_to_string(&arguments),
                    },
                )
            } else if chars_is(&t, "reasoning") {
                Some(OutputItem::Reasoning(json_clone(j)))
            } else {
                Some(OutputItem::Other(json_clone(j)))
            }
        },
        _ => Some(OutputItem::Other(json_clone(j))),
    }
}

/// Token accounting reported by the provider.
#[derive(Clone, Copy, Debug, PartialEq, Eq, Structural)]
pub struct Usage {
    pub input_tokens: u32,
    pub output_tokens: u32,
    pub total_tokens: u32,
}

/// A provider-reported error.
pub struct ApiError {
    pub code: String,
    pub message: String,
}

impl View for ApiError {
    type V = (Seq<char>, Seq<char>);

    open spec fn view(&self) -> (Seq<char>, Seq<char>) {
        (self.code@, self.message@)
    }
}

/// The lifecycle state of a model response.
#[derive(Clone, Copy, Debug, PartialEq, Eq, Structural)]
pub enum ResponseStatus {
    InProgress,
    Completed,
    Failed,
    Incomplete,
}

impl Default for ResponseStatus {
    fn default() -> (r: Self)
        ensures
            r == ResponseStatus::InProgress,
    {
        ResponseStatus::InProgress
    }
}

/// The status a wire name denotes, if any.
pub open spec fn status_of_chars(s: Seq<char>) -> Option<ResponseStatus> {
    if s == "in_progress"@ {
        Some(ResponseStatus::InProgress)
    } else if s == "completed"@ {
        Some(ResponseStatus::Completed)
    } else if s == "failed"@ {
        Some(ResponseStatus::Failed)
    } else if s == "incomplete"@ {
        Some(ResponseStatus::Incomplete)
    } else {
        None
    }
}

fn status_from_chars(s: &Vec<char>) -> (r: Option<ResponseStatus>)
    ensures
        r == status_of_chars(s@),
{
    if chars_is(s, "in_progress") {
        Some(ResponseStatus::InProgress)
    } else if chars_is(s, "completed") {
        Some(ResponseStatus::Completed)
    } else if chars_is(s, "failed") {
        Some(ResponseStatus::Failed)
    } else if chars_is(s, "incomplete") {
        Some(ResponseStatus::Incomplete)
    } else {
        None
    }
}

/// A model response.
pub struct Response {
    pub id: String,
    pub status: ResponseStatus,
    pub output: Vec<OutputItem>,
    pub usage: Option<Usage>,
    pub error: Option<ApiError>,
}

/// The models of a sequence of output items.
pub open spec fn outputs_view(s: Seq<OutputItem>) -> Seq<OutputItemV> {
    s.map_values(|o: OutputItem| o@)
}

/// The model of a response.
#[verifier::ext_equal]
pub struct ResponseV {
    pub id: Seq<char>,
    pub status: ResponseStatus,
    pub output: Seq<OutputItemV>,
    pub usage: Option<Usage>,
    pub error: Option<(Seq<char>, Seq<char>)>,
}

impl View for Response {
    type V = ResponseV;

    open spec fn view(&self) -> ResponseV {
        ResponseV {
            id: self.id@,
            status: self.status,
            output: outputs_view(self.output@),
            usage: self.usage,
            error: match self.error {
                Some(e) => Some(e@),
                None => None,
            },
        }
    }
}

/// Element-wise description of `outputs_view`.
pub proof fn lemma_outputs_view(s: Seq<OutputItem>)
    ensures
        outputs_view(s).len() == s.len(),
        forall|i: int| 0 <= i < s.len() ==> outputs_view(s)[i] == s[i]@,
{
}

/// One text part folded onto the accumulated reply text: parts after the
/// first are separated by a newline.
pub open spec fn text_step(acc: Seq<char>, t: Seq<char>) -> Seq<char> {
    if acc.len() > 0 {
        acc + seq!['\n'] + t
    } else {
        acc + t
    }
}

/// The reply text accumulated over a message's content parts.
pub open spec fn parts_text(parts: Seq<ContentPartV>, acc: Seq<char>) -> Seq<char>
    decreases parts.len(),
{
    if parts.len() == 0 {
        acc
    } else {
        let acc2 = match parts[0] {
            ContentPartV::OutputText(t) => text_step(acc, t),
            _ => acc,
        };
        parts_text(parts.skip(1), acc2)
    }
}

/// The reply text accumulated over the response's output items.
pub open spec fn outputs_text(out: Seq<OutputItemV>, acc: Seq<char>) -> Seq<char>
    decreases out.len(),
{
    if out.len() == 0 {
        acc
    } else {
        let acc2 = match out[0] {
            OutputItemV::Message { content, .. } => parts_text(content, acc),
            _ => acc,
        };
        outputs_text(out.skip(1), acc2)
    }
}

/// The text of a response: its output-text parts joined by newlines.
pub open spec fn response_text(r: ResponseV) -> Seq<char> {
    outputs_text(r.output, Seq::empty())
}

fn fold_parts_text(parts: &Vec<ContentPart>, acc: &mut Vec<char>)
    ensures
        final(acc)@ == parts_text(parts_view(parts@), old(acc)@),
{
    proof {
        lemma_parts_view(parts@);
    }
    let ghost pv = parts_view(parts@);
    assert(pv.skip(0) =~= pv);
    let mut j: usize = 0;
    while j < parts.len()
        invariant
            0 <= j <= parts@.len(),
            pv == parts_view(parts@),
            pv.len() == parts@.len(),
            forall|i: int| 0 <= i < parts@.len() ==> pv[i] == parts@[i]@,
            parts_text(pv.skip(j as int), acc@) == parts_text(pv, old(acc)@),
        decreases parts@.len() - j,
    {
        let ghost acc0 = acc@;
        match &parts[j] {
            ContentPart::OutputText { text } => {
                if acc.len() > 0 {
                    acc.push('\n');
                    push_str_local(acc, text.as_str());
                } else {
                    push_str_local(acc, text.as_str());
                }
                assert(acc@ =~= text_step(acc0, text@));
            },
            _ => {},
        }
        proof {
            assert(pv.skip(j as int).skip(1) =~= pv.skip(j + 1));
            assert(pv.skip(j as int)[0] == pv[j as int]);
            assert(parts_text(pv.skip(j as int), acc0) == parts_text(pv.skip(j + 1), acc@));
        }
        j += 1;
    }
    proof {
        assert(pv.skip(parts@.len() as int).len() == 0);
    }
}

fn push_str_local(acc: &mut Vec<char>, s: &str)
    ensures
        final(acc)@ == old(acc)@ + s@,
{
    crate::text::push_str(acc, s)
}

/// The function calls of a response, in submission order: for each, its
/// `call_id`, `name` and `arguments`.
pub open spec fn calls_of(out: Seq<OutputItemV>) -> Seq<(Seq<char>, Seq<char>, Seq<char>)>
    decreases out.len(),
{
    if out.len() == 0 {
        Seq::empty()
    } else {
        calls_of(out.take(out.len() - 1)) + (match out[out.len() - 1] {
            OutputItemV::FunctionCall { call_id, name, arguments, .. } => seq![
                (call_id, name, arguments),
            ],
            _ => Seq::empty(),
        })
    }
}

/// The models of a list of call triples.
pub open spec fn calls_view(s: Seq<(String, String, String)>) -> Seq<
    (Seq<char>, Seq<char>, Seq<char>),
> {
    s.map_values(|t: (String, String, String)| (t.0@, t.1@, t.2@))
}

/// Element-wise description of `calls_view`.
pub proof fn lemma_calls_view(s: Seq<(String, String, String)>)
    ensures
        calls_view(s).len() == s.len(),
        forall|i: int|
            0 <= i < s.len() ==> calls_view(s)[i] == (s[i].0@, s[i].1@, s[i].2@),
{
}

impl Response {
    /// The reply text: every output-text part of every output message,
    /// joined by newlines.
    pub fn text(&self) -> (r: String)
        ensures
            r@ == response_text(self@),
    {
        proof {
            lemma_outputs_view(self.output@);
        }
        let ghost ov = outputs_view(self.output@);
        assert(ov.skip(0) =~= ov);
        let mut acc: Vec<char> = Vec::new();
        let mut i: usize = 0;
        while i < self.output.len()
            invariant
                0 <= i <= self.output@.len(),
                ov == outputs_view(self.output@),
                ov.len() == self.output@.len(),
                forall|k: int| 0 <= k < self.output@.len() ==> ov[k] == self.output@[k]@,
                outputs_text(ov.skip(i as int), acc@) == outputs_text(ov, Seq::empty()),
            decreases self.output@.len() - i,
        {
            match &self.output[i] {
                OutputItem::Message { content, .. } => {
                    fold_parts_text(content, &mut acc);
                },
                _ => {},
            }
            proof {
                assert(ov.skip(i as int).skip(1) =~= ov.skip(i + 1));
                assert(ov.skip(i as int)[0] == ov[i as int]);
            }
            i += 1;
        }
        proof {
            assert(ov.skip(self.output@.len() as int).len() == 0);
        }
        chars_to_string(&acc)
    }

    /// The function calls of the response, in submission order.
    pub fn function_calls(&self) -> (r: Vec<(String, String, String)>)
        ensures
            calls_view(r@) == calls_of(outputs_view(self.output@)),
    {
        proof {
            lemma_outputs_view(self.output@);
        }
        let ghost ov = outputs_view(self.output@);
        let mut out: Vec<(String, String, String)> = Vec::new();
        let mut i: usize = 0;
        while i < self.output.len()
            invariant
                0 <= i <= self.output@.len(),
                ov == outputs_view(self.output@),
                ov.len() == self.output@.len(),
                forall|k: int| 0 <= k < self.output@.len() ==> ov[k] == self.output@[k]@,
                calls_view(out@) == calls_of(ov.take(i as int)),
            decreases self.output@.len() - i,
        {
            proof {
                lemma_calls_view(out@);
            }
            match &self.output[i] {
                OutputItem::FunctionCall { call_id, name, arguments, .. } => {
                    let entry = (call_id.clone(), name.clone(), arguments.clone());
                    out.push(entry);
                },
                _ => {},
            }
            proof {
                lemma_calls_view(out@);
                assert(ov.take(i + 1).take(i as int) =~= ov.take(i as int));
                assert(ov.take(i + 1)[i as int] == ov[i as int]);
                assert(calls_view(out@) =~= calls_of(ov.take(i + 1)));
            }
            i += 1;
        }
        proof {
            assert(ov.take(self.output@.len() as int) =~= ov);
        }
        out
    }
}

/// An unsigned counter field: absent reads as zero, a plain decimal number
/// is its value, anything else fails.
pub open spec fn u32_field(fs: Seq<(Seq<char>, JsonV)>, key: Seq<char>) -> Option<u32> {
    match v_obj_get(fs, key) {
        None => Some(0),
        Some(JsonV::Num(t)) => u32_of_token(t),
        Some(_) => None,
    }
}

fn u32_field_exec(fields: &Vec<(Vec<char>, Json)>, key: &str) -> (r: Option<u32>)
    ensures
        r == u32_field(obj_view(fields@), key@),
{
    proof {
        crate::json::lemma_obj_get_view(fields@, key@);
    }
    match obj_get(fields, key) {
        None => Some(0),
        Some(Json::Num(t)) => parse_u32(t),
        Some(_) => None,
    }
}

/// The usage a JSON value decodes to.
pub open spec fn usage_of(jv: JsonV) -> Option<Usage> {
    match jv {
        JsonV::Obj(fs) => {
            match (
                u32_field(fs, "input_tokens"@),
                u32_field(fs, "output_tokens"@),
                u32_field(fs, "total_tokens"@),
            ) {
                (Some(i), Some(o), Some(t)) => Some(
                    Usage { input_tokens: i, output_tokens: o, total_tokens: t },
                ),
                _ => None,
            }
        },
        _ => None,
    }
}

/// Decode token usage.
pub fn usage_of_json(j: &Json) -> (r: Option<Usage>)
    ensures
        r == usage_of(j@),
{
    match j {
        Json::Obj(fields) => {
            let i = u32_field_exec(fields, "input_tokens");
            let o = u32_field_exec(fields, "output_tokens");
            let t = u32_field_exec(fields, "total_tokens");
            match (i, o, t) {
                (Some(i), Some(o), Some(t)) => Some(
                    Usage { input_tokens: i, output_tokens: o, total_tokens: t },
                ),
                _ => None,
            }
        },
        _ => None,
    }
}

/// The output items a JSON array decodes to; fails when any element fails.
pub open spec fn outputs_of(s: Seq<JsonV>) -> Option<Seq<OutputItemV>>
    decreases s.len(),
{
    if s.len() == 0 {
        Some(Seq::empty())
    } else {
        match (outputs_of(s.take(s.len() - 1)), output_item_of(s[s.len() - 1])) {
            (Some(init), Some(last)) => Some(init + seq![last]),
            _ => None,
        }
    }
}

proof fn lemma_outputs_of_poison(s: Seq<JsonV>, k: int)
    requires
        0 <= k < s.len(),
        output_item_of(s[k]) is None,
    ensures
        outputs_of(s) is None,
    decreases s.len(),
{
    if k < s.len() - 1 {
        assert(s.take(s.len() - 1)[k] == s[k]);
        lemma_outputs_of_poison(s.take(s.len() - 1), k);
    }
}

/// The response a JSON value decodes to. The `id` is required; a missing
/// `status` reads as in-progress; `output` must be absent or an array;
/// `usage` and `error` must be absent, null, or well-shaped.
pub open spec fn response_of(jv: JsonV) -> Option<ResponseV> {
    match jv {
        JsonV::Obj(fs) => match v_obj_get(fs, "id"@) {
            Some(JsonV::Str(id)) => {
                let status = match v_obj_get(fs, "status"@) {
                    None => Some(ResponseStatus::InProgress),
                    Some(JsonV::Str(s)) => status_of_chars(s),
                    Some(_) => None,
                };
                let output = match v_obj_get(fs, "output"@) {
                    None => Some(Seq::<OutputItemV>::empty()),
                    Some(JsonV::Arr(es)) => outputs_of(es),
                    Some(_) => None,
                };
                let usage = match v_obj_get(fs, "usage"@) {
                    None => Some(None),
                    Some(JsonV::Null) => Some(None),
                    Some(u) => match usage_of(u) {
                        Some(x) => Some(Some(x)),
                        None => None,
                    },
                };
                let error = match v_obj_get(fs, "error"@) {
                    None => Some(None),
                    Some(JsonV::Null) => Some(None),
                    Some(JsonV::Obj(efs)) => match (
                        v_obj_get(efs, "code"@),
                        v_obj_get(efs, "message"@),
                    ) {
                        (Some(JsonV::Str(c)), Some(JsonV::Str(m))) => Some(Some((c, m))),
                        _ => None,
                    },
                    Some(_) => None,
                };
                match (status, output, usage, error) {
                    (Some(st), Some(out), Some(us), Some(er)) => Some(
                        ResponseV { id, status: st, output: out, usage: us, error: er },
                    ),
                    _ => None,
                }
            },
            _ => None,
        },
        _ => None,
    }
}

/// Decode a model response, per `response_of`.
#[verifier::rlimit(30)]
#[verifier::loop_isolation(false)]
pub fn response_of_json(j: &Json) -> (r: Option<Response>)
    ensures
        match r {
            Some(x) => response_of(j@) == Some(x@),
            None => response_of(j@) is None,
        },
{
    let fields = match j {
        Json::Obj(fields) => fields,
        _ => {
            return None;
        },
    };
    proof {
        crate::json::lemma_obj_get_view(fields@, "id"@);
        crate::json::lemma_obj_get_view(fields@, "status"@);
        crate::json::lemma_obj_get_view(fields@, "output"@);
        crate::json::lemma_obj_get_view(fields@, "usage"@);
        crate::json::lemma_obj_get_view(fields@, "error"@);
    }
    let id = match obj_get(fields, "id") {
        Some(Json::Str(s)) => chars_to_string(s),
        _ => {
            return None;
        },
    };
    let status = match obj_get(fields, "status") {
        None => ResponseStatus::InProgress,
        Some(Json::Str(s)) => match status_from_chars(s) {
            Some(st) => st,
            None => {
                return None;
            },
        },
        Some(_) => {
            return None;
        },
    };
    let output: Vec<OutputItem> = match obj_get(fields, "output") {
        None => Vec::new(),
        Some(Json::Arr(es)) => {
            let mut out: Vec<OutputItem> = Vec::new();
            let mut k: usize = 0;
            proof {
                lemma_arr_view(es@);
            }
            while k < es.len()
                invariant
                    0 <= k <= es@.len(),
                    arr_view(es@).len() == es@.len(),
                    forall|i: int| 0 <= i < es@.len() ==> arr_view(es@)[i] == json_view(es@[i]),
                    outputs_of(arr_view(es@).take(k as int)) == Some(outputs_view(out@)),
                decreases es@.len() - k,
            {
                proof {
                    lemma_outputs_view(out@);
                }
                match output_item_of_json(&es[k]) {
                    Some(oi) => {
                        out.push(oi);
                    },
                    None => {
                        proof {
                            lemma_outputs_of_poison(arr_view(es@), k as int);
                        }
                        return None;
                    },
                }
                proof {
                    lemma_outputs_view(out@);
                    let av = arr_view(es@);
                    assert(av.take(k + 1).take(k as int) =~= av.take(k as int));
                    assert(av.take(k + 1)[k as int] == av[k as int]);
                    assert(outputs_view(out@) =~= outputs_of(av.take(k as int)).unwrap() + seq![
                        out@[out@.len() - 1]@,
                    ]);
                }
                k += 1;
            }
            proof {
                assert(arr_view(es@).take(es@.len() as int) =~= arr_view(es@));
            }
            out
        },
        Some(_) => {
            return None;
        },
    };
    let usage: Option<Usage> = match obj_get(fields, "usage") {
        None => None,
        Some(Json::Null) => None,
        Some(u) => match usage_of_json(u) {
            Some(x) => Some(x),
            None => {
                return None;
            },
        },
    };
    let error: Option<ApiError> = match obj_get(fields, "error") {
        None => None,
        Some(Json::Null) => None,
        Some(Json::Obj(efs)) => {
            proof {
                crate::json::lemma_obj_get_view(efs@, "code"@);
                crate::json::lemma_obj_get_view(efs@, "message"@);
            }
            match (obj_get(efs, "code"), obj_get(efs, "message")) {
                (Some(Json::Str(c)), Some(Json::Str(m))) => Some(
                    ApiError { code: chars_to_string(c), message: chars_to_string(m) },
                ),
                _ => {
                    return None;
                },
            }
        },
        Some(_) => {
            return None;
        },
    };
    Some(Response { id, status, output, usage, error })
}

} // verus!
