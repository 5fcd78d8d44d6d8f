//! Tool calls on the wire: reading them from JSON the way serde's derived
//! `Deserialize` does for these types, and writing them as JSON.
use vstd::prelude::*;
use crate::json::{Json, JsonValue, get, json_of, jsons_of, lemma_jsons_of};
use crate::stream::{
    CallParts, DeltaParts, FunctionDelta, FunctionParts, ToolCall, ToolCallDelta, ToolCallFunction, call_views,
    delta_views, opt_text,
};
use crate::text::{all_digits, decimal, decimal_value, decimal_chars, chars_of, concat_chars, string_of};

verus! {

/// An optional reference to a JSON value, seen as an optional value.
pub open spec fn opt_json(o: Option<&JsonValue>) -> Option<Json> {
    match o {
        Some(v) => Some(v@),
        None => None,
    }
}

/// The field of a struct written as an object (by name) or as an array
/// (by position).
pub open spec fn struct_field(j: Json, key: Seq<char>, pos: int) -> Option<Json> {
    match j {
        Json::Object(_) => get(j, key),
        Json::Array(items) => if 0 <= pos < items.len() {
            Some(items[pos])
        } else {
            None
        },
        _ => None,
    }
}

/// A struct of `n` fields can be read from `j`: an object, or an array of
/// exactly `n` elements.
pub open spec fn struct_shape(j: Json, n: int) -> bool {
    match j {
        Json::Object(_) => true,
        Json::Array(items) => items.len() == n,
        _ => false,
    }
}

/// A number's text as a `u32`, where it is a whole number in range.
pub open spec fn number_u32(t: Seq<char>) -> Option<u32> {
    if t.len() > 0 && all_digits(t) && decimal_value(t) <= u32::MAX {
        Some(decimal_value(t) as u32)
    } else {
        None
    }
}

/// Reading an `Option<String>` field: missing or null is `None`; `None`
/// here means the field cannot be read.
pub open spec fn opt_str_field(j: Option<Json>) -> Option<Option<Seq<char>>> {
    match j {
        None => Some(None),
        Some(Json::Null) => Some(None),
        Some(Json::Str(s)) => Some(Some(s)),
        _ => None,
    }
}

/// Reading an `Option<u32>` field.
pub open spec fn opt_u32_field(j: Option<Json>) -> Option<Option<u32>> {
    match j {
        None => Some(None),
        Some(Json::Null) => Some(None),
        Some(Json::Number(t)) => match number_u32(t) {
            Some(n) => Some(Some(n)),
            None => None,
        },
        _ => None,
    }
}

/// Reading a function fragment.
pub open spec fn read_function_delta(j: Json) -> Option<FunctionParts> {
    if !struct_shape(j, 2) {
        None
    } else {
        match (opt_str_field(struct_field(j, "name"@, 0)), opt_str_field(struct_field(j, "arguments"@, 1))) {
            (Some(name), Some(arguments)) => Some(FunctionParts { name, arguments }),
            _ => None,
        }
    }
}

/// Reading an optional function fragment.
pub open spec fn opt_function_field(j: Option<Json>) -> Option<Option<FunctionParts>> {
    match j {
        None => Some(None),
        Some(Json::Null) => Some(None),
        Some(v) => match read_function_delta(v) {
            Some(f) => Some(Some(f)),
            None => None,
        },
    }
}

/// Reading a tool-call fragment.
pub open spec fn read_delta(j: Json) -> Option<DeltaParts> {
    if !struct_shape(j, 4) {
        None
    } else {
        match (
            opt_u32_field(struct_field(j, "index"@, 0)),
            opt_str_field(struct_field(j, "id"@, 1)),
            opt_str_field(struct_field(j, "type"@, 2)),
            opt_function_field(struct_field(j, "function"@, 3)),
        ) {
            (Some(index), Some(id), Some(call_type), Some(function)) => Some(
                DeltaParts { index, id, call_type, function },
            ),
            _ => None,
        }
    }
}

/// Reading a list of tool-call fragments: an array whose every element
/// reads.
pub open spec fn read_deltas(j: Json) -> Option<Seq<DeltaParts>> {
    match j {
        Json::Array(items) => if forall|i: int| 0 <= i < items.len() ==> (#[trigger] read_delta(items[i])) is Some {
            Some(Seq::new(items.len(), |i: int| read_delta(items[i])->0))
        } else {
            None
        },
        _ => None,
    }
}

/// Reads an `Option<String>` field.
fn read_opt_str(f: Option<&JsonValue>) -> (r: Option<Option<String>>)
    ensures
        match r {
            Some(o) => opt_str_field(opt_json(f)) == Some(opt_text(o)),
            None => opt_str_field(opt_json(f)) is None,
        },
{
    match f {
        None => Some(None),
        Some(JsonValue::Null) => Some(None),
        Some(JsonValue::Str(s)) => Some(Some(s.clone())),
        Some(_) => None,
    }
}

/// Reads a number's text as a `u32`.
fn number_to_u32(t: &str) -> (r: Option<u32>)
    ensures
        r == number_u32(t@),
{
    let v = chars_of(t);
    if v.len() == 0 {
        return None;
    }
    let mut i: usize = 0;
    while i < v.len()
        invariant
            i <= v@.len(),
            v@ == t@,
            forall|k: int| 0 <= k < i ==> crate::text::is_digit(#[trigger] v@[k]),
        decreases v@.len() - i,
    {
        if !('0' <= v[i] && v[i] <= '9') {
            return None;
        }
        i = i + 1;
    }
    let r = crate::text::parse_u32_chars(&v);
    proof {
        if v@.len() > 0 && v@[0] == '+' {
            assert(!crate::text::is_digit(v@[0]));
        }
    }
    r
}

/// Reads an `Option<u32>` field.
fn read_opt_u32(f: Option<&JsonValue>) -> (r: Option<Option<u32>>)
    ensures
        r == opt_u32_field(opt_json(f)),
{
    match f {
        None => Some(None),
        Some(JsonValue::Null) => Some(None),
        Some(JsonValue::Number(t)) => match number_to_u32(t.as_str()) {
            Some(n) => Some(Some(n)),
            None => None,
        },
        Some(_) => None,
    }
}

/// The field of a struct written as an object or an array.
fn field<'a>(v: &'a JsonValue, key: &str, pos: usize) -> (r: Option<&'a JsonValue>)
    ensures
        opt_json(r) == struct_field(v@, key@, pos as int),
{
    match v {
        JsonValue::Object(_) => v.get(key),
        JsonValue::Array(_) => v.at(pos),
        _ => None,
    }
}

/// Whether a struct of `n` fields can be read from `v`.
fn shape_ok(v: &JsonValue, n: usize) -> (b: bool)
    ensures
        b == struct_shape(v@, n as int),
{
    match v {
        JsonValue::Object(_) => true,
        JsonValue::Array(items) => {
            proof {
                lemma_jsons_of(items@);
            }
            items.len() == n
        },
        _ => false,
    }
}

/// Reads a function fragment.
fn read_function_delta_exec(v: &JsonValue) -> (r: Option<FunctionDelta>)
    ensures
        match r {
            Some(f) => read_function_delta(v@) == Some(f@),
            None => read_function_delta(v@) is None,
        },
{
    if !shape_ok(v, 2) {
        return None;
    }
    let name = read_opt_str(field(v, "name", 0));
    let arguments = read_opt_str(field(v, "arguments", 1));
    match (name, arguments) {
        (Some(name), Some(arguments)) => Some(FunctionDelta { name, arguments }),
        _ => None,
    }
}

/// Reads a tool-call fragment as the derived `Deserialize` of
/// `ToolCallDelta` does.
pub fn read_delta_exec(v: &JsonValue) -> (r: Option<ToolCallDelta>)
    ensures
        match r {
            Some(d) => read_delta(v@) == Some(d@),
            None => read_delta(v@) is None,
        },
{
    if !shape_ok(v, 4) {
        return None;
    }
    let index = read_opt_u32(field(v, "index", 0));
    let id = read_opt_str(field(v, "id", 1));
    let call_type = read_opt_str(field(v, "type", 2));
    let fv = field(v, "function", 3);
    let function: Option<Option<FunctionDelta>> = match fv {
        None => Some(None),
        Some(JsonValue::Null) => Some(None),
        Some(f) => match read_function_delta_exec(f) {
            Some(fd) => Some(Some(fd)),
            None => None,
        },
    };
    match (index, id, call_type, function) {
        (Some(index), Some(id), Some(call_type), Some(function)) => Some(
            ToolCallDelta { index, id, call_type, function },
        ),
        _ => None,
    }
}

/// Reads a list of tool-call fragments (`serde_json::from_value::<Vec<ToolCallDelta>>`).
#[verifier::loop_isolation(false)]
pub fn read_deltas_exec(v: &JsonValue) -> (r: Option<Vec<ToolCallDelta>>)
    ensures
        match r {
            Some(ds) => read_deltas(v@) == Some(delta_views(ds@)),
            None => read_deltas(v@) is None,
        },
{
    match v {
        JsonValue::Array(items) => {
            proof {
                lemma_jsons_of(items@);
            }
            let ghost js = jsons_of(items@);
            let mut out: Vec<ToolCallDelta> = Vec::new();
            let mut i: usize = 0;
            while i < items.len()
                invariant
                    i <= items@.len(),
                    js == jsons_of(items@),
                    js.len() == items@.len(),
                    forall|k: int| 0 <= k < items@.len() ==> #[trigger] js[k] == json_of(items@[k]),
                    out@.len() == i,
                    forall|k: int| 0 <= k < i ==> read_delta(#[trigger] js[k]) == Some(out@[k]@),
                decreases items@.len() - i,
            {
                match read_delta_exec(&items[i]) {
                    Some(d) => out.push(d),
                    None => {
                        assert(read_delta(js[i as int]) is None);
                        return None;
                    },
                }
                i = i + 1;
            }
            assert(delta_views(out@) =~= Seq::new(js.len(), |k: int| read_delta(js[k])->0));
            Some(out)
        },
        _ => None,
    }
}

} // verus!

verus! {

/// A character as `{:?}` writes it inside a string.
pub open spec fn escape_char(c: char) -> Seq<char> {
    if c == '"' {
        seq!['\\', '"']
    } else if c == '\\' {
        seq!['\\', '\\']
    } else if c == '\n' {
        seq!['\\', 'n']
    } else if c == '\r' {
        seq!['\\', 'r']
    } else if c == '\t' {
        seq!['\\', 't']
    } else if c == '\0' {
        seq!['\\', '0']
    } else {
        seq![c]
    }
}

/// A string's characters with quotes, backslashes and the common control
/// characters escaped.
pub open spec fn escape_text(s: Seq<char>) -> Seq<char>
    decreases s.len(),
{
    if s.len() == 0 {
        Seq::empty()
    } else {
        escape_text(s.drop_last()) + escape_char(s.last())
    }
}

/// A number's text that holds no decimal point or exponent.
pub open spec fn is_integer_text(t: Seq<char>) -> bool {
    forall|i: int| 0 <= i < t.len() ==> crate::text::is_digit(#[trigger] t[i]) || t[i] == '-'
}

/// How serde names a value it did not expect.
pub open spec fn unexpected(j: Json) -> Seq<char> {
    match j {
        Json::Null => "unit value"@,
        Json::Bool(b) => if b {
            "boolean `true`"@
        } else {
            "boolean `false`"@
        },
        Json::Number(t) => if is_integer_text(t) {
            "integer `"@ + t + "`"@
        } else {
            "floating point `"@ + t + "`"@
        },
        Json::Str(s) => "string \""@ + escape_text(s) + "\""@,
        Json::Array(_) => "sequence"@,
        Json::Object(_) => "map"@,
    }
}

/// serde's message for a value of the wrong type.
pub open spec fn invalid_type(j: Json, expected: Seq<char>) -> Seq<char> {
    "invalid type: "@ + unexpected(j) + ", expected "@ + expected
}

/// serde's message for a missing struct field.
pub open spec fn missing_field(name: Seq<char>) -> Seq<char> {
    "missing field `"@ + name + "`"@
}

/// serde's message for a sequence of the wrong length.
pub open spec fn invalid_length(n: nat, expected: Seq<char>) -> Seq<char> {
    "invalid length "@ + decimal(n) + ", expected "@ + expected
}

/// Reading a `String`.
pub open spec fn read_string(j: Json) -> Result<Seq<char>, Seq<char>> {
    match j {
        Json::Str(s) => Ok(s),
        _ => Err(invalid_type(j, "a string"@)),
    }
}

/// The error, if any, of a present string field.
pub open spec fn field_error(o: Option<Json>) -> Option<Seq<char>> {
    match o {
        Some(j) => match read_string(j) {
            Ok(_) => None,
            Err(e) => Some(e),
        },
        None => None,
    }
}

/// Reading a `ToolCallFunction`: as an object, members are read in the
/// order of their names and missing ones are reported in declaration
/// order; as an array, the two elements in order.
pub open spec fn read_function(j: Json) -> Result<(Seq<char>, Seq<char>), Seq<char>> {
    match j {
        Json::Object(_) => {
            let a = get(j, "arguments"@);
            let n = get(j, "name"@);
            if field_error(a) is Some {
                Err(field_error(a)->0)
            } else if field_error(n) is Some {
                Err(field_error(n)->0)
            } else if n is None {
                Err(missing_field("name"@))
            } else if a is None {
                Err(missing_field("arguments"@))
            } else {
                Ok((read_string(n->0)->Ok_0, read_string(a->0)->Ok_0))
            }
        },
        Json::Array(items) => {
            let exp = "struct ToolCallFunction with 2 elements"@;
            if items.len() < 1 {
                Err(invalid_length(0, exp))
            } else if read_string(items[0]) is Err {
                Err(read_string(items[0])->Err_0)
            } else if items.len() < 2 {
                Err(invalid_length(1, exp))
            } else if read_string(items[1]) is Err {
                Err(read_string(items[1])->Err_0)
            } else if items.len() > 2 {
                Err(invalid_length(items.len(), "fewer elements in array"@))
            } else {
                Ok((read_string(items[0])->Ok_0, read_string(items[1])->Ok_0))
            }
        },
        _ => Err(invalid_type(j, "struct ToolCallFunction"@)),
    }
}

/// The call made of an id, a type and a function.
pub open spec fn call_parts(id: Seq<char>, t: Seq<char>, f: (Seq<char>, Seq<char>)) -> CallParts {
    CallParts { id, call_type: t, name: f.0, arguments: f.1 }
}

/// Reading a `ToolCall`, in the same manner as `read_function`.
pub open spec fn read_tool_call(j: Json) -> Result<CallParts, Seq<char>> {
    match j {
        Json::Object(_) => {
            let f = get(j, "function"@);
            let i = get(j, "id"@);
            let t = get(j, "type"@);
            if f is Some && read_function(f->0) is Err {
                Err(read_function(f->0)->Err_0)
            } else if field_error(i) is Some {
                Err(field_error(i)->0)
            } else if field_error(t) is Some {
                Err(field_error(t)->0)
            } else if i is None {
                Err(missing_field("id"@))
            } else if t is None {
                Err(missing_field("type"@))
            } else if f is None {
                Err(missing_field("function"@))
            } else {
                Ok(call_parts(read_string(i->0)->Ok_0, read_string(t->0)->Ok_0, read_function(f->0)->Ok_0))
            }
        },
        Json::Array(items) => {
            let exp = "struct ToolCall with 3 elements"@;
            if items.len() < 1 {
                Err(invalid_length(0, exp))
            } else if read_string(items[0]) is Err {
                Err(read_string(items[0])->Err_0)
            } else if items.len() < 2 {
                Err(invalid_length(1, exp))
            } else if read_string(items[1]) is Err {
                Err(read_string(items[1])->Err_0)
            } else if items.len() < 3 {
                Err(invalid_length(2, exp))
            } else if read_function(items[2]) is Err {
                Err(read_function(items[2])->Err_0)
            } else if items.len() > 3 {
                Err(invalid_length(items.len(), "fewer elements in array"@))
            } else {
                Ok(call_parts(read_string(items[0])->Ok_0, read_string(items[1])->Ok_0, read_function(items[2])->Ok_0))
            }
        },
        _ => Err(invalid_type(j, "struct ToolCall"@)),
    }
}

/// Reading the elements of a list of tool calls; the first failing element
/// gives the error.
pub open spec fn read_tool_call_items(items: Seq<Json>) -> Result<Seq<CallParts>, Seq<char>>
    decreases items.len(),
{
    if items.len() == 0 {
        Ok(Seq::empty())
    } else {
        match read_tool_call(items[0]) {
            Err(e) => Err(e),
            Ok(c) => match read_tool_call_items(items.drop_first()) {
                Err(e) => Err(e),
                Ok(rest) => Ok(seq![c] + rest),
            },
        }
    }
}

/// Reading a `Vec<ToolCall>` (`serde_json::from_value::<Vec<ToolCall>>`).
pub open spec fn read_tool_calls(j: Json) -> Result<Seq<CallParts>, Seq<char>> {
    match j {
        Json::Array(items) => read_tool_call_items(items),
        _ => Err(invalid_type(j, "a sequence"@)),
    }
}

} // verus!

verus! {

fn escape_exec(s: &str) -> (r: Vec<char>)
    ensures
        r@ == escape_text(s@),
{
    let v = chars_of(s);
    let mut r: Vec<char> = Vec::new();
    let mut i: usize = 0;
    assert(v@.take(0) == Seq::<char>::empty());
    while i < v.len()
        invariant
            i <= v@.len(),
            v@ == s@,
            r@ == escape_text(v@.take(i as int)),
        decreases v@.len() - i,
    {
        let c = v[i];
        let e: Vec<char> = if c == '"' {
            vec!['\\', '"']
        } else if c == '\\' {
            vec!['\\', '\\']
        } else if c == '\n' {
            vec!['\\', 'n']
        } else if c == '\r' {
            vec!['\\', 'r']
        } else if c == '\t' {
            vec!['\\', 't']
        } else if c == '\0' {
            vec!['\\', '0']
        } else {
            vec![c]
        };
        assert(e@ == escape_char(c));
        assert(v@.take(i + 1).drop_last() == v@.take(i as int));
        r = concat_chars(&r, &e);
        i = i + 1;
    }
    assert(v@.take(v@.len() as int) == v@);
    r
}

fn integer_text_exec(t: &str) -> (b: bool)
    ensures
        b == is_integer_text(t@),
{
    let v = chars_of(t);
    let mut i: usize = 0;
    while i < v.len()
        invariant
            i <= v@.len(),
            v@ == t@,
            forall|k: int| 0 <= k < i ==> crate::text::is_digit(#[trigger] v@[k]) || v@[k] == '-',
        decreases v@.len() - i,
    {
        if !(('0' <= v[i] && v[i] <= '9') || v[i] == '-') {
            return false;
        }
        i = i + 1;
    }
    true
}

/// `a`, `b` and `c` one after another.
fn join3(a: &[char], b: &[char], c: &[char]) -> (r: Vec<char>)
    ensures
        r@ == a@ + b@ + c@,
{
    let ab = concat_chars(a, b);
    concat_chars(&ab, c)
}

fn unexpected_exec(v: &JsonValue) -> (r: Vec<char>)
    ensures
        r@ == unexpected(v@),
{
    match v {
        JsonValue::Null => chars_of("unit value"),
        JsonValue::Bool(b) => if *b {
            chars_of("boolean `true`")
        } else {
            chars_of("boolean `false`")
        },
        JsonValue::Number(t) => {
            let tc = chars_of(t.as_str());
            if integer_text_exec(t.as_str()) {
                join3(&chars_of("integer `"), &tc, &chars_of("`"))
            } else {
                join3(&chars_of("floating point `"), &tc, &chars_of("`"))
            }
        },
        JsonValue::Str(s) => {
            let e = escape_exec(s.as_str());
            join3(&chars_of("string \""), &e, &chars_of("\""))
        },
        JsonValue::Array(_) => chars_of("sequence"),
        JsonValue::Object(_) => chars_of("map"),
    }
}

fn invalid_type_exec(v: &JsonValue, expected: &str) -> (r: Vec<char>)
    ensures
        r@ == invalid_type(v@, expected@),
{
    let u = unexpected_exec(v);
    let a = join3(&chars_of("invalid type: "), &u, &chars_of(", expected "));
    concat_chars(&a, &chars_of(expected))
}

fn missing_field_exec(name: &str) -> (r: Vec<char>)
    ensures
        r@ == missing_field(name@),
{
    join3(&chars_of("missing field `"), &chars_of(name), &chars_of("`"))
}

fn invalid_length_exec(n: usize, expected: &str) -> (r: Vec<char>)
    ensures
        r@ == invalid_length(n as nat, expected@),
{
    let d = decimal_chars(n as u128);
    let a = join3(&chars_of("invalid length "), &d, &chars_of(", expected "));
    concat_chars(&a, &chars_of(expected))
}

fn read_string_exec(v: &JsonValue) -> (r: Result<String, Vec<char>>)
    ensures
        match r {
            Ok(s) => read_string(v@) == Ok::<Seq<char>, Seq<char>>(s@),
            Err(e) => read_string(v@) == Err::<Seq<char>, Seq<char>>(e@),
        },
{
    match v {
        JsonValue::Str(s) => Ok(s.clone()),
        _ => Err(invalid_type_exec(v, "a string")),
    }
}

/// The error of an optional string field that is present and not a string.
fn field_error_exec(o: Option<&JsonValue>) -> (r: Option<Vec<char>>)
    ensures
        match r {
            Some(e) => field_error(opt_json(o)) == Some(e@),
            None => field_error(opt_json(o)) is None,
        },
{
    match o {
        Some(v) => match read_string_exec(v) {
            Ok(_) => None,
            Err(e) => Some(e),
        },
        None => None,
    }
}

/// Reads a `ToolCallFunction`.
fn read_function_exec(v: &JsonValue) -> (r: Result<ToolCallFunction, Vec<char>>)
    ensures
        match r {
            Ok(f) => read_function(v@) == Ok::<(Seq<char>, Seq<char>), Seq<char>>((f.name@, f.arguments@)),
            Err(e) => read_function(v@) == Err::<(Seq<char>, Seq<char>), Seq<char>>(e@),
        },
{
    match v {
        JsonValue::Object(_) => {
            let a = v.get("arguments");
            let n = v.get("name");
            if let Some(e) = field_error_exec(a) {
                return Err(e);
            }
            if let Some(e) = field_error_exec(n) {
                return Err(e);
            }
            match (n, a) {
                (None, _) => Err(missing_field_exec("name")),
                (Some(_), None) => Err(missing_field_exec("arguments")),
                (Some(nv), Some(av)) => {
                    let name = read_string_exec(nv);
                    let arguments = read_string_exec(av);
                    match (name, arguments) {
                        (Ok(name), Ok(arguments)) => Ok(ToolCallFunction { name, arguments }),
                        _ => Err(Vec::new()),
                    }
                },
            }
        },
        JsonValue::Array(items) => {
            proof {
                lemma_jsons_of(items@);
            }
            let exp = "struct ToolCallFunction with 2 elements";
            if items.len() < 1 {
                return Err(invalid_length_exec(0, exp));
            }
            let name = match read_string_exec(&items[0]) {
                Ok(s) => s,
                Err(e) => return Err(e),
            };
            if items.len() < 2 {
                return Err(invalid_length_exec(1, exp));
            }
            let arguments = match read_string_exec(&items[1]) {
                Ok(s) => s,
                Err(e) => return Err(e),
            };
            if items.len() > 2 {
                return Err(invalid_length_exec(items.len(), "fewer elements in array"));
            }
            Ok(ToolCallFunction { name, arguments })
        },
        _ => Err(invalid_type_exec(v, "struct ToolCallFunction")),
    }
}

/// Reads a `ToolCall` as its derived `Deserialize` does.
pub fn read_tool_call_exec(v: &JsonValue) -> (r: Result<ToolCall, Vec<char>>)
    ensures
        match r {
            Ok(c) => read_tool_call(v@) == Ok::<CallParts, Seq<char>>(c@),
            Err(e) => read_tool_call(v@) == Err::<CallParts, Seq<char>>(e@),
        },
{
    match v {
        JsonValue::Object(_) => {
            let f = v.get("function");
            let i = v.get("id");
            let t = v.get("type");
            let func = match f {
                Some(fv) => match read_function_exec(fv) {
                    Ok(x) => Some(x),
                    Err(e) => return Err(e),
                },
                None => None,
            };
            if let Some(e) = field_error_exec(i) {
                return Err(e);
            }
            if let Some(e) = field_error_exec(t) {
                return Err(e);
            }
            match (i, t, func) {
                (None, _, _) => Err(missing_field_exec("id")),
                (Some(_), None, _) => Err(missing_field_exec("type")),
                (Some(_), Some(_), None) => Err(missing_field_exec("function")),
                (Some(iv), Some(tv), Some(function)) => {
                    let id = read_string_exec(iv);
                    let call_type = read_string_exec(tv);
                    match (id, call_type) {
                        (Ok(id), Ok(call_type)) => Ok(ToolCall { id, call_type, function }),
                        _ => Err(Vec::new()),
                    }
                },
            }
        },
        JsonValue::Array(items) => {
            proof {
                lemma_jsons_of(items@);
            }
            let exp = "struct ToolCall with 3 elements";
            if items.len() < 1 {
                return Err(invalid_length_exec(0, exp));
            }
            let id = match read_string_exec(&items[0]) {
                Ok(s) => s,
                Err(e) => return Err(e),
            };
            if items.len() < 2 {
                return Err(invalid_length_exec(1, exp));
            }
            let call_type = match read_string_exec(&items[1]) {
                Ok(s) => s,
                Err(e) => return Err(e),
            };
            if items.len() < 3 {
                return Err(invalid_length_exec(2, exp));
            }
            let function = match read_function_exec(&items[2]) {
                Ok(f) => f,
                Err(e) => return Err(e),
            };
            if items.len() > 3 {
                return Err(invalid_length_exec(items.len(), "fewer elements in array"));
            }
            Ok(ToolCall { id, call_type, function })
        },
        _ => Err(invalid_type_exec(v, "struct ToolCall")),
    }
}

/// Reads a list of tool calls (`serde_json::from_value::<Vec<ToolCall>>`);
/// an error is given by serde's message.
#[verifier::loop_isolation(false)]
pub fn read_tool_calls_exec(v: &JsonValue) -> (r: Result<Vec<ToolCall>, String>)
    ensures
        match r {
            Ok(cs) => read_tool_calls(v@) == Ok::<Seq<CallParts>, Seq<char>>(call_views(cs@)),
            Err(e) => read_tool_calls(v@) == Err::<Seq<CallParts>, Seq<char>>(e@),
        },
{
    match v {
        JsonValue::Array(items) => {
            proof {
                lemma_jsons_of(items@);
            }
            let ghost js = jsons_of(items@);
            let mut out: Vec<ToolCall> = Vec::new();
            let mut i: usize = 0;
            assert(js.skip(0) == js);
            while i < items.len()
                invariant
                    i <= items@.len() == js.len(),
                    out@.len() == i,
                    read_tool_calls(v@) == match read_tool_call_items(js.skip(i as int)) {
                        Ok(rest) => Ok::<Seq<CallParts>, Seq<char>>(call_views(out@) + rest),
                        Err(e) => Err(e),
                    },
                decreases items@.len() - i,
            {
                assert(js[i as int] == items@[i as int]@);
                assert(js.skip(i as int)[0] == js[i as int]);
                assert(js.skip(i as int).drop_first() == js.skip(i + 1));
                match read_tool_call_exec(&items[i]) {
                    Ok(c) => {
                        let ghost before = call_views(out@);
                        out.push(c);
                        assert(call_views(out@) == before.push(c@));
                        proof {
                            match read_tool_call_items(js.skip(i + 1)) {
                                Ok(rest) => {
                                    assert(before + (seq![c@] + rest) == before.push(c@) + rest);
                                },
                                Err(_) => {},
                            }
                        }
                    },
                    Err(e) => {
                        return Err(string_of(&e));
                    },
                }
                i = i + 1;
            }
            assert(js.skip(i as int).len() == 0);
            assert(call_views(out@) + Seq::<CallParts>::empty() == call_views(out@));
            Ok(out)
        },
        _ => Err(string_of(&invalid_type_exec(v, "a sequence"))),
    }
}

} // verus!
