//! Decoding of frame payloads and whole response bodies: the JSON text
//! is parsed by `serde_json` behind trusted wrappers, and the decoded
//! tree is walked by verified code that assembles the library's own
//! response values, enforcing the wire schema field by field.
//!
//! The parse result is named: `parsed_json` stands for what parsing a
//! given text returns, and `value_view` for the tree a parsed value
//! holds. Each accessor wrapper states its result over those names, and
//! the decoders prove their results equal to the schema spelled out by
//! the `spec_decode_*` functions.

use crate::model::{
    Choice, ChoiceView, CompletionResponse, DeltaView, Message, MessageDelta, MessageView,
    ResponseView, Role, Usage,
};
use vstd::prelude::*;

verus! {

#[verifier::external_type_specification]
#[verifier::external_body]
pub struct ExValue(serde_json::Value);

/// The shape of a parsed JSON tree. `UInt` is a number representable as
/// a `u64`; every other number (negative, fractional, too large) is
/// `OtherNum`, which none of the accessors below reads.
#[verifier::ext_equal]
pub enum JsonView {
    Null,
    Bool(bool),
    UInt(u64),
    OtherNum,
    Str(Seq<char>),
    Arr(Seq<JsonView>),
    Obj(Map<Seq<char>, JsonView>),
}

/// The tree a parsed `serde_json::Value` holds.
pub uninterp spec fn value_view(v: serde_json::Value) -> JsonView;

/// What parsing a text as JSON returns: the result depends on the text
/// alone.
pub uninterp spec fn parsed_json(s: Seq<char>) -> Option<JsonView>;

/// Relies on serde_json::from_str: parses a JSON document, or fails on
/// malformed text; the outcome is a function of the text alone.
#[verifier::external_body]
fn parse_value(s: &str) -> (r: Option<serde_json::Value>)
    ensures
        match r {
            Some(v) => parsed_json(s@) == Some(value_view(v)),
            None => parsed_json(s@) is None,
        },
{
    serde_json::from_str(s).ok()
}

/// The value an object's key maps to, absent when the tree is no object
/// or lacks the key.
pub open spec fn spec_field(j: JsonView, key: Seq<char>) -> Option<JsonView> {
    match j {
        JsonView::Obj(m) => if m.dom().contains(key) {
            Some(m[key])
        } else {
            None
        },
        _ => None,
    }
}

/// The characters of a JSON string, absent for every other tree.
pub open spec fn spec_str(j: JsonView) -> Option<Seq<char>> {
    match j {
        JsonView::Str(s) => Some(s),
        _ => None,
    }
}

/// The value of a JSON non-negative integer, absent otherwise.
pub open spec fn spec_u64(j: JsonView) -> Option<u64> {
    match j {
        JsonView::UInt(n) => Some(n),
        _ => None,
    }
}

/// Relies on serde_json::Value::get: looks a key up in a JSON object,
/// absent when the value is no object or lacks the key.
#[verifier::external_body]
fn get_field<'a>(v: &'a serde_json::Value, key: &str) -> (r: Option<&'a serde_json::Value>)
    ensures
        match r {
            Some(f) => spec_field(value_view(*v), key@) == Some(value_view(*f)),
            None => spec_field(value_view(*v), key@) is None,
        },
{
    v.get(key)
}

/// Relies on serde_json::Value::as_str: the string content of a JSON
/// string, absent for every other kind of value.
#[verifier::external_body]
fn value_as_string(v: &serde_json::Value) -> (r: Option<String>)
    ensures
        match r {
            Some(s) => spec_str(value_view(*v)) == Some(s@),
            None => spec_str(value_view(*v)) is None,
        },
{
    v.as_str().map(|s| s.to_owned())
}

/// Relies on serde_json::Value::as_u64: the numeric content of a JSON
/// number that is a non-negative integer fitting a `u64`, absent
/// otherwise.
#[verifier::external_body]
fn value_as_u64(v: &serde_json::Value) -> (r: Option<u64>)
    ensures
        r == spec_u64(value_view(*v)),
{
    v.as_u64()
}

/// Relies on serde_json::Value::as_array: the elements of a JSON array,
/// absent for every other kind of value.
#[verifier::external_body]
fn value_as_array(v: &serde_json::Value) -> (r: Option<&Vec<serde_json::Value>>)
    ensures
        match r {
            Some(a) => value_view(*v) matches JsonView::Arr(elems) && a@.map(
                |i: int, e: serde_json::Value| value_view(e),
            ) == elems,
            None => !(value_view(*v) is Arr),
        },
{
    v.as_array()
}

/// Relies on serde_json::Value::is_null: whether the value is JSON null.
#[verifier::external_body]
fn value_is_null(v: &serde_json::Value) -> (r: bool)
    ensures
        r == (value_view(*v) is Null),
{
    v.is_null()
}

/// The role a wire string names, if any: the schema writes roles in
/// lower case.
pub open spec fn role_for(s: Seq<char>) -> Option<Role> {
    if s == "system"@ {
        Some(Role::System)
    } else if s == "assistant"@ {
        Some(Role::Assistant)
    } else if s == "user"@ {
        Some(Role::User)
    } else {
        None
    }
}

/// Maps a wire role string to the library's role.
pub fn role_of_str(s: &String) -> (r: Option<Role>)
    ensures
        r == role_for(s@),
{
    if *s == "system".to_owned() {
        Some(Role::System)
    } else if *s == "assistant".to_owned() {
        Some(Role::Assistant)
    } else if *s == "user".to_owned() {
        Some(Role::User)
    } else {
        None
    }
}

/// A required string field: the key must map to a JSON string.
pub open spec fn spec_str_field(j: JsonView, key: Seq<char>) -> Option<Seq<char>> {
    match spec_field(j, key) {
        Some(f) => spec_str(f),
        None => None,
    }
}

/// A required integer field: the key must map to a JSON non-negative
/// integer.
pub open spec fn spec_u64_field(j: JsonView, key: Seq<char>) -> Option<u64> {
    match spec_field(j, key) {
        Some(f) => spec_u64(f),
        None => None,
    }
}

/// A required counter field: as `spec_u64_field`, fitting 32 bits.
pub open spec fn spec_u32_field(j: JsonView, key: Seq<char>) -> Option<u32> {
    match spec_u64_field(j, key) {
        Some(n) => if n <= u32::MAX {
            Some(n as u32)
        } else {
            None
        },
        None => None,
    }
}

/// An optional nullable string field: absent or null means no value
/// (inner `None`); any other non-string tree fails the decode (outer
/// `None`).
pub open spec fn spec_opt_str_field(j: JsonView, key: Seq<char>) -> Option<Option<Seq<char>>> {
    match spec_field(j, key) {
        None => Some(None),
        Some(f) => if f is Null {
            Some(None)
        } else {
            match spec_str(f) {
                Some(s) => Some(Some(s)),
                None => None,
            }
        },
    }
}

/// An optional nullable role field, decoded as `spec_opt_str_field` and
/// then through `role_for`.
pub open spec fn spec_opt_role_field(j: JsonView, key: Seq<char>) -> Option<Option<Role>> {
    match spec_field(j, key) {
        None => Some(None),
        Some(f) => if f is Null {
            Some(None)
        } else {
            match spec_str(f) {
                Some(s) => match role_for(s) {
                    Some(r) => Some(Some(r)),
                    None => None,
                },
                None => None,
            }
        },
    }
}

/// The wire schema of a message: `role` and `content` are required.
pub open spec fn spec_decode_message(j: JsonView) -> Option<MessageView> {
    match spec_str_field(j, "role"@) {
        Some(rs) => match role_for(rs) {
            Some(role) => match spec_str_field(j, "content"@) {
                Some(content) => Some(MessageView { role, content }),
                None => None,
            },
            None => None,
        },
        None => None,
    }
}

/// The wire schema of a delta: `role` and `content` are each optional
/// and nullable.
pub open spec fn spec_decode_delta(j: JsonView) -> Option<DeltaView> {
    match spec_opt_role_field(j, "role"@) {
        Some(role) => match spec_opt_str_field(j, "content"@) {
            Some(content) => Some(DeltaView { role, content }),
            None => None,
        },
        None => None,
    }
}

/// An optional nullable message field, through `spec_decode_message`.
pub open spec fn spec_opt_message_field(j: JsonView, key: Seq<char>) -> Option<
    Option<MessageView>,
> {
    match spec_field(j, key) {
        None => Some(None),
        Some(f) => if f is Null {
            Some(None)
        } else {
            match spec_decode_message(f) {
                Some(m) => Some(Some(m)),
                None => None,
            }
        },
    }
}

/// An optional nullable delta field, through `spec_decode_delta`.
pub open spec fn spec_opt_delta_field(j: JsonView, key: Seq<char>) -> Option<Option<DeltaView>> {
    match spec_field(j, key) {
        None => Some(None),
        Some(f) => if f is Null {
            Some(None)
        } else {
            match spec_decode_delta(f) {
                Some(d) => Some(Some(d)),
                None => None,
            }
        },
    }
}

/// The wire schema of one choice: `index` is required; `message`,
/// `delta` and `finish_reason` are optional, null meaning absent.
pub open spec fn spec_decode_choice(j: JsonView) -> Option<ChoiceView> {
    match spec_u64_field(j, "index"@) {
        Some(index) => match spec_opt_message_field(j, "message"@) {
            Some(message) => match spec_opt_delta_field(j, "delta"@) {
                Some(delta) => match spec_opt_str_field(j, "finish_reason"@) {
                    Some(finish_reason) => Some(
                        ChoiceView { index, message, delta, finish_reason },
                    ),
                    None => None,
                },
                None => None,
            },
            None => None,
        },
        None => None,
    }
}

/// The wire schema of the usage accounting: all three counters are
/// required and must fit 32 bits.
pub open spec fn spec_decode_usage(j: JsonView) -> Option<Usage> {
    match spec_u32_field(j, "prompt_tokens"@) {
        Some(prompt_tokens) => match spec_u32_field(j, "completion_tokens"@) {
            Some(completion_tokens) => match spec_u32_field(j, "total_tokens"@) {
                Some(total_tokens) => Some(
                    Usage { prompt_tokens, completion_tokens, total_tokens },
                ),
                None => None,
            },
            None => None,
        },
        None => None,
    }
}

/// An optional nullable usage field, through `spec_decode_usage`.
pub open spec fn spec_opt_usage_field(j: JsonView, key: Seq<char>) -> Option<Option<Usage>> {
    match spec_field(j, key) {
        None => Some(None),
        Some(f) => if f is Null {
            Some(None)
        } else {
            match spec_decode_usage(f) {
                Some(u) => Some(Some(u)),
                None => None,
            }
        },
    }
}

/// The choices array, element by element: one failing element fails the
/// whole list.
pub open spec fn spec_decode_choices(elems: Seq<JsonView>) -> Option<Seq<ChoiceView>>
    decreases elems.len(),
{
    if elems.len() == 0 {
        Some(Seq::empty())
    } else {
        match spec_decode_choice(elems[0]) {
            Some(c) => match spec_decode_choices(elems.drop_first()) {
                Some(rest) => Some(seq![c] + rest),
                None => None,
            },
            None => None,
        }
    }
}

/// The wire schema of a whole response body or one frame payload: `id`,
/// `object`, `created` and an array `choices` are required, `usage` is
/// optional and nullable. Any missing or ill-typed field fails the
/// whole decode.
pub open spec fn spec_decode_response(j: Option<JsonView>) -> Option<ResponseView> {
    match j {
        None => None,
        Some(doc) => match spec_str_field(doc, "id"@) {
            Some(id) => match spec_str_field(doc, "object"@) {
                Some(object) => match spec_u64_field(doc, "created"@) {
                    Some(created) => match spec_field(doc, "choices"@) {
                        Some(JsonView::Arr(elems)) => match spec_decode_choices(elems) {
                            Some(choices) => match spec_opt_usage_field(doc, "usage"@) {
                                Some(usage) => Some(
                                    ResponseView { id, object, created, choices, usage },
                                ),
                                None => None,
                            },
                            None => None,
                        },
                        _ => None,
                    },
                    None => None,
                },
                None => None,
            },
            None => None,
        },
    }
}

/// The string held by an object's field, if the field exists and holds a
/// JSON string.
fn string_field(v: &serde_json::Value, key: &str) -> (r: Option<String>)
    ensures
        match r {
            Some(s) => spec_str_field(value_view(*v), key@) == Some(s@),
            None => spec_str_field(value_view(*v), key@) is None,
        },
{
    match get_field(v, key) {
        Some(f) => value_as_string(f),
        None => None,
    }
}

/// The non-negative integer held by an object's field, if the field
/// exists and holds one.
fn u64_field(v: &serde_json::Value, key: &str) -> (r: Option<u64>)
    ensures
        r == spec_u64_field(value_view(*v), key@),
{
    match get_field(v, key) {
        Some(f) => value_as_u64(f),
        None => None,
    }
}

/// The integer held by an object's field, when it fits a 32-bit counter.
fn u32_field(v: &serde_json::Value, key: &str) -> (r: Option<u32>)
    ensures
        r == spec_u32_field(value_view(*v), key@),
{
    match u64_field(v, key) {
        Some(n) => {
            if n <= u32::MAX as u64 {
                Some(n as u32)
            } else {
                None
            }
        },
        None => None,
    }
}

/// Decodes a wire message, as `spec_decode_message` says.
fn decode_message(v: &serde_json::Value) -> (r: Option<Message>)
    ensures
        match r {
            Some(m) => spec_decode_message(value_view(*v)) == Some(m@),
            None => spec_decode_message(value_view(*v)) is None,
        },
{
    let role = match string_field(v, "role") {
        Some(s) => match role_of_str(&s) {
            Some(r) => r,
            None => {
                return None;
            },
        },
        None => {
            return None;
        },
    };
    let content = match string_field(v, "content") {
        Some(s) => s,
        None => {
            return None;
        },
    };
    Some(Message { role, content })
}

/// Decodes a wire delta, as `spec_decode_delta` says.
fn decode_delta(v: &serde_json::Value) -> (r: Option<MessageDelta>)
    ensures
        match r {
            Some(d) => spec_decode_delta(value_view(*v)) == Some(d@),
            None => spec_decode_delta(value_view(*v)) is None,
        },
{
    let role = match get_field(v, "role") {
        Some(f) => {
            if value_is_null(f) {
                None
            } else {
                match value_as_string(f) {
                    Some(s) => match role_of_str(&s) {
                        Some(r) => Some(r),
                        None => {
                            return None;
                        },
                    },
                    None => {
                        return None;
                    },
                }
            }
        },
        None => None,
    };
    let content = match get_field(v, "content") {
        Some(f) => {
            if value_is_null(f) {
                None
            } else {
                match value_as_string(f) {
                    Some(s) => Some(s),
                    None => {
                        return None;
                    },
                }
            }
        },
        None => None,
    };
    Some(MessageDelta { role, content })
}

/// Decodes one wire choice, as `spec_decode_choice` says.
fn decode_choice(v: &serde_json::Value) -> (r: Option<Choice>)
    ensures
        match r {
            Some(c) => spec_decode_choice(value_view(*v)) == Some(c@),
            None => spec_decode_choice(value_view(*v)) is None,
        },
{
    let index = match u64_field(v, "index") {
        Some(n) => n,
        None => {
            return None;
        },
    };
    let message = match get_field(v, "message") {
        Some(f) => {
            if value_is_null(f) {
                None
            } else {
                match decode_message(f) {
                    Some(m) => Some(m),
                    None => {
                        return None;
                    },
                }
            }
        },
        None => None,
    };
    let delta = match get_field(v, "delta") {
        Some(f) => {
            if value_is_null(f) {
                None
            } else {
                match decode_delta(f) {
                    Some(d) => Some(d),
                    None => {
                        return None;
                    },
                }
            }
        },
        None => None,
    };
    let finish_reason = match get_field(v, "finish_reason") {
        Some(f) => {
            if value_is_null(f) {
                None
            } else {
                match value_as_string(f) {
                    Some(s) => Some(s),
                    None => {
                        return None;
                    },
                }
            }
        },
        None => None,
    };
    Some(Choice { index, message, delta, finish_reason })
}

/// Decodes the wire usage accounting, as `spec_decode_usage` says.
fn decode_usage(v: &serde_json::Value) -> (r: Option<Usage>)
    ensures
        match r {
            Some(u) => spec_decode_usage(value_view(*v)) == Some(u),
            None => spec_decode_usage(value_view(*v)) is None,
        },
{
    let prompt_tokens = match u32_field(v, "prompt_tokens") {
        Some(n) => n,
        None => {
            return None;
        },
    };
    let completion_tokens = match u32_field(v, "completion_tokens") {
        Some(n) => n,
        None => {
            return None;
        },
    };
    let total_tokens = match u32_field(v, "total_tokens") {
        Some(n) => n,
        None => {
            return None;
        },
    };
    Some(Usage { prompt_tokens, completion_tokens, total_tokens })
}

/// Decodes a whole response body or one frame payload, as the named
/// parse result and `spec_decode_response` say.
pub fn decode_response(payload: &str) -> (r: Option<CompletionResponse>)
    ensures
        match r {
            Some(resp) => spec_decode_response(parsed_json(payload@)) == Some(resp@),
            None => spec_decode_response(parsed_json(payload@)) is None,
        },
{
    let v = match parse_value(payload) {
        Some(v) => v,
        None => {
            return None;
        },
    };
    let id = match string_field(&v, "id") {
        Some(s) => s,
        None => {
            return None;
        },
    };
    let object = match string_field(&v, "object") {
        Some(s) => s,
        None => {
            return None;
        },
    };
    let created = match u64_field(&v, "created") {
        Some(n) => n,
        None => {
            return None;
        },
    };
    let choices = match get_field(&v, "choices") {
        Some(f) => match value_as_array(f) {
            Some(arr) => match decode_choices(arr) {
                Some(cs) => cs,
                None => {
                    return None;
                },
            },
            None => {
                return None;
            },
        },
        None => {
            return None;
        },
    };
    let usage = match get_field(&v, "usage") {
        Some(f) => {
            if value_is_null(f) {
                None
            } else {
                match decode_usage(f) {
                    Some(u) => Some(u),
                    None => {
                        return None;
                    },
                }
            }
        },
        None => None,
    };
    let r = CompletionResponse { id, object, created, choices, usage };
    Some(r)
}

/// Decodes every element of the choices array, as `spec_decode_choices`
/// says; one failing element fails the whole list.
fn decode_choices(arr: &Vec<serde_json::Value>) -> (r: Option<Vec<Choice>>)
    ensures
        match r {
            Some(cs) => spec_decode_choices(
                arr@.map(|i: int, e: serde_json::Value| value_view(e)),
            ) == Some(cs@.map(|i: int, c: Choice| c@)),
            None => spec_decode_choices(arr@.map(|i: int, e: serde_json::Value| value_view(e)))
                is None,
        },
{
    let ghost elems = arr@.map(|i: int, e: serde_json::Value| value_view(e));
    let mut out: Vec<Choice> = Vec::new();
    let mut i: usize = 0;
    proof {
        assert(elems.skip(0) =~= elems);
        assert(out@.map(|i: int, c: Choice| c@) =~= Seq::<ChoiceView>::empty());
        if spec_decode_choices(elems) is Some {
            let rest = spec_decode_choices(elems)->0;
            assert(Seq::<ChoiceView>::empty() + rest =~= rest);
        }
    }
    while i < arr.len()
        invariant
            i <= arr@.len(),
            elems == arr@.map(|i: int, e: serde_json::Value| value_view(e)),
            elems.len() == arr@.len(),
            spec_decode_choices(elems) == match spec_decode_choices(elems.skip(i as int)) {
                Some(rest) => Some(out@.map(|i: int, c: Choice| c@) + rest),
                None => None::<Seq<ChoiceView>>,
            },
        decreases arr@.len() - i,
    {
        proof {
            assert(elems.skip(i as int)[0] == elems[i as int]);
            assert(elems.skip(i as int).drop_first() =~= elems.skip(i as int + 1));
        }
        let ghost before = out@.map(|i: int, c: Choice| c@);
        match decode_choice(&arr[i]) {
            Some(c) => {
                let ghost cv = c@;
                out.push(c);
                proof {
                    assert(out@.map(|i: int, c: Choice| c@) =~= before.push(cv));
                    if spec_decode_choices(elems.skip(i as int + 1)) is Some {
                        let rest = spec_decode_choices(elems.skip(i as int + 1))->0;
                        assert(before + (seq![cv] + rest) =~= before.push(cv) + rest);
                    }
                }
            },
            None => {
                return None;
            },
        }
        i = i + 1;
    }
    proof {
        assert(elems.skip(elems.len() as int) =~= Seq::<JsonView>::empty());
    }
    Some(out)
}

} // verus!
