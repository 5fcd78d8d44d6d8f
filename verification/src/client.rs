//! Chat messages, the requests built from them, and the reading of replies.
use vstd::prelude::*;
use crate::attachment::{all_parts, part_json, part_views, Attachment, ContentPart, PartView};
use crate::json::{
    as_str, get, json_of, jsons_of, lemma_jsons_of, lemma_members_of, members_of, Json, JsonValue,
};
use crate::stream::{call_views, CallParts, DeltaParts, ToolCall};
use crate::text::owned;
use crate::tools::{jstr, obj1, obj2, ToolCallInfo};

verus! {

/// A chat message.
#[derive(Clone, Debug, PartialEq)]
pub struct Message {
    pub role: String,
    pub content: Option<JsonValue>,
    pub tool_calls: Option<Vec<ToolCall>>,
    pub tool_call_id: Option<String>,
}

/// A chat message, as text and JSON.
pub struct MessageView {
    pub role: Seq<char>,
    pub content: Option<Json>,
    pub tool_calls: Option<Seq<CallParts>>,
    pub tool_call_id: Option<Seq<char>>,
}

impl View for Message {
    type V = MessageView;

    open spec fn view(&self) -> MessageView {
        MessageView {
            role: self.role@,
            content: match self.content {
                Some(c) => Some(c@),
                None => None,
            },
            tool_calls: match self.tool_calls {
                Some(cs) => Some(call_views(cs@)),
                None => None,
            },
            tool_call_id: match self.tool_call_id {
                Some(i) => Some(i@),
                None => None,
            },
        }
    }
}

/// The views of a sequence of messages.
pub open spec fn message_views(v: Seq<Message>) -> Seq<MessageView> {
    v.map_values(|m: Message| m@)
}

/// A tool call as JSON (its serialized form).
pub open spec fn call_json(c: CallParts) -> Json {
    Json::Object(
        seq![
            ("id"@, jstr(c.id)),
            ("type"@, jstr(c.call_type)),
            ("function"@, Json::Object(seq![("name"@, jstr(c.name)), ("arguments"@, jstr(c.arguments))])),
        ],
    )
}

/// A message as the chat API takes it: its role, then whichever of content,
/// tool calls and tool-call id it has.
pub open spec fn message_json(m: MessageView) -> Json {
    Json::Object(
        seq![("role"@, jstr(m.role))] + (match m.content {
            Some(c) => seq![("content"@, c)],
            None => Seq::empty(),
        }) + (match m.tool_calls {
            Some(cs) => seq![("tool_calls"@, Json::Array(cs.map_values(|c: CallParts| call_json(c))))],
            None => Seq::empty(),
        }) + (match m.tool_call_id {
            Some(i) => seq![("tool_call_id"@, jstr(i))],
            None => Seq::empty(),
        }),
    )
}

/// The content of the last message once attachments are added: text
/// content becomes a list of parts, the text first.
pub open spec fn content_with_parts(m: MessageView, parts: Seq<PartView>) -> MessageView {
    match m.content {
        Some(Json::Str(t)) => MessageView {
            content: Some(
                Json::Array(
                    seq![part_json(PartView::Text(t))] + parts.map_values(|p: PartView| part_json(p)),
                ),
            ),
            ..m
        },
        _ => m,
    }
}

/// The messages of a request: with attachments, the last message carries
/// their parts.
pub open spec fn request_messages(ms: Seq<MessageView>, atts: Seq<Attachment>) -> Seq<MessageView> {
    if atts.len() > 0 && ms.len() > 0 {
        ms.update(ms.len() - 1, content_with_parts(ms.last(), all_parts(atts)))
    } else {
        ms
    }
}

/// The body of a chat request.
pub open spec fn request_body(
    model: Seq<char>,
    ms: Seq<MessageView>,
    atts: Seq<Attachment>,
    stream: bool,
    tools: Seq<Json>,
) -> Json {
    Json::Object(
        seq![
            ("model"@, jstr(model)),
            ("messages"@, Json::Array(
                request_messages(ms, atts).map_values(|m: MessageView| message_json(m)),
            )),
            ("stream"@, Json::Bool(stream)),
        ] + (if tools.len() > 0 {
            seq![("tools"@, Json::Array(tools))]
        } else {
            Seq::empty()
        }),
    )
}

/// A tool call as JSON.
pub fn call_to_json(c: &ToolCall) -> (r: JsonValue)
    ensures
        r@ == call_json(c@),
{
    let f = obj2(
        "name",
        JsonValue::Str(c.function.name.clone()),
        "arguments",
        JsonValue::Str(c.function.arguments.clone()),
    );
    let mut ms: Vec<(String, JsonValue)> = Vec::new();
    ms.push((owned("id"), JsonValue::Str(c.id.clone())));
    ms.push((owned("type"), JsonValue::Str(c.call_type.clone())));
    ms.push((owned("function"), f));
    proof {
        lemma_members_of(ms@);
        assert(members_of(ms@) =~= seq![
            ("id"@, jstr(c.id@)),
            ("type"@, jstr(c.call_type@)),
            ("function"@, Json::Object(seq![("name"@, jstr(c.function.name@)), ("arguments"@, jstr(c.function.arguments@))])),
        ]);
    }
    JsonValue::Object(ms)
}

/// A list of tool calls as JSON.
pub fn calls_to_json(cs: &Vec<ToolCall>) -> (r: JsonValue)
    ensures
        r@ == Json::Array(call_views(cs@).map_values(|c: CallParts| call_json(c))),
{
    let mut out: Vec<JsonValue> = Vec::new();
    let mut i: usize = 0;
    while i < cs.len()
        invariant
            i <= cs@.len(),
            out@.len() == i,
            forall|k: int| 0 <= k < i ==> #[trigger] json_of(out@[k]) == call_json(cs@[k]@),
        decreases cs@.len() - i,
    {
        out.push(call_to_json(&cs[i]));
        i = i + 1;
    }
    proof {
        lemma_jsons_of(out@);
        assert(jsons_of(out@) =~= call_views(cs@).map_values(|c: CallParts| call_json(c)));
    }
    JsonValue::Array(out)
}

/// A message as the chat API takes it.
pub fn message_to_json(m: &Message) -> (r: JsonValue)
    ensures
        r@ == message_json(m@),
{
    let mut ms: Vec<(String, JsonValue)> = Vec::new();
    ms.push((owned("role"), JsonValue::Str(m.role.clone())));
    let ghost a = ms@;
    if let Some(c) = &m.content {
        ms.push((owned("content"), c.copy()));
    }
    let ghost b = ms@;
    if let Some(cs) = &m.tool_calls {
        ms.push((owned("tool_calls"), calls_to_json(cs)));
    }
    let ghost c = ms@;
    if let Some(id) = &m.tool_call_id {
        ms.push((owned("tool_call_id"), JsonValue::Str(id.clone())));
    }
    proof {
        lemma_members_of(a);
        lemma_members_of(b);
        lemma_members_of(c);
        lemma_members_of(ms@);
        let mv = m@;
        assert(members_of(ms@) =~= seq![("role"@, jstr(mv.role))] + (match mv.content {
            Some(c) => seq![("content"@, c)],
            None => Seq::empty(),
        }) + (match mv.tool_calls {
            Some(cs) => seq![("tool_calls"@, Json::Array(cs.map_values(|c: CallParts| call_json(c))))],
            None => Seq::empty(),
        }) + (match mv.tool_call_id {
            Some(i) => seq![("tool_call_id"@, jstr(i))],
            None => Seq::empty(),
        }));
    }
    JsonValue::Object(ms)
}

/// The JSON of every part of the attachments, in order.
pub fn attachment_parts_json(atts: &[Attachment]) -> (r: Vec<JsonValue>)
    ensures
        jsons_of(r@) == all_parts(atts@).map_values(|p: PartView| part_json(p)),
{
    let mut out: Vec<JsonValue> = Vec::new();
    let mut i: usize = 0;
    proof {
        lemma_jsons_of(out@);
        assert(atts@.take(0) == Seq::<Attachment>::empty());
        assert(jsons_of(out@) =~= all_parts(atts@.take(0)).map_values(|p: PartView| part_json(p)));
    }
    while i < atts.len()
        invariant
            i <= atts@.len(),
            jsons_of(out@) == all_parts(atts@.take(i as int)).map_values(|p: PartView| part_json(p)),
        decreases atts@.len() - i,
    {
        let parts = &atts[i].parts;
        let ghost start = jsons_of(out@);
        let mut j: usize = 0;
        while j < parts.len()
            invariant
                j <= parts@.len(),
                jsons_of(out@) == start + part_views(parts@).take(j as int).map_values(
                    |p: PartView| part_json(p),
                ),
            decreases parts@.len() - j,
        {
            let ghost before = out@;
            out.push(parts[j].to_openrouter());
            proof {
                assert(out@.drop_last() == before);
                assert(part_views(parts@).take(j + 1) == part_views(parts@).take(j as int).push(
                    parts@[j as int]@,
                ));
                assert(jsons_of(out@) =~= start + part_views(parts@).take(j + 1).map_values(
                    |p: PartView| part_json(p),
                ));
            }
            j = j + 1;
        }
        proof {
            assert(part_views(parts@).take(parts@.len() as int) == part_views(parts@));
            assert(atts@.take(i + 1).drop_last() == atts@.take(i as int));
            assert(all_parts(atts@.take(i + 1)) == all_parts(atts@.take(i as int)) + part_views(parts@));
            assert(jsons_of(out@) =~= all_parts(atts@.take(i + 1)).map_values(|p: PartView| part_json(p)));
        }
        i = i + 1;
    }
    proof {
        assert(atts@.take(atts@.len() as int) == atts@);
    }
    out
}

/// A copy of a list of tool calls.
pub fn copy_calls(cs: &Vec<ToolCall>) -> (r: Vec<ToolCall>)
    ensures
        call_views(r@) == call_views(cs@),
{
    let mut out: Vec<ToolCall> = Vec::new();
    let mut i: usize = 0;
    while i < cs.len()
        invariant
            i <= cs@.len(),
            out@.len() == i,
            forall|k: int| 0 <= k < i ==> #[trigger] out@[k]@ == cs@[k]@,
        decreases cs@.len() - i,
    {
        out.push(cs[i].duplicate());
        i = i + 1;
    }
    assert(call_views(out@) =~= call_views(cs@));
    out
}

impl Message {
    /// A copy of the message.
    pub fn duplicate(&self) -> (r: Message)
        ensures
            r@ == self@,
    {
        Message {
            role: self.role.clone(),
            content: match &self.content {
                Some(c) => Some(c.copy()),
                None => None,
            },
            tool_calls: match &self.tool_calls {
                Some(cs) => Some(copy_calls(cs)),
                None => None,
            },
            tool_call_id: match &self.tool_call_id {
                Some(i) => Some(i.clone()),
                None => None,
            },
        }
    }
}

/// The JSON of a request's messages.
pub fn request_messages_json(messages: &[Message], attachments: &[Attachment]) -> (r: Vec<JsonValue>)
    ensures
        jsons_of(r@) == request_messages(message_views(messages@), attachments@).map_values(
            |m: MessageView| message_json(m),
        ),
{
    let n = messages.len();
    let mut out: Vec<JsonValue> = Vec::new();
    let ghost target = request_messages(message_views(messages@), attachments@);
    let mut i: usize = 0;
    while i < n
        invariant
            n == messages@.len(),
            i <= n,
            out@.len() == i,
            target == request_messages(message_views(messages@), attachments@),
            forall|k: int| 0 <= k < i ==> #[trigger] json_of(out@[k]) == message_json(target[k]),
        decreases n - i,
    {
        let m = &messages[i];
        if i + 1 == n && attachments.len() > 0 {
            let mut changed = m.duplicate();
            if let Some(JsonValue::Str(t)) = &m.content {
                let mut items: Vec<JsonValue> = Vec::new();
                items.push(ContentPart::Text { text: t.clone() }.to_openrouter());
                let parts = attachment_parts_json(attachments);
                let ghost first = items@;
                let ghost pv = parts@;
                let mut rest = parts;
                items.append(&mut rest);
                proof {
                    lemma_jsons_of(items@);
                    lemma_jsons_of(first);
                    lemma_jsons_of(pv);
                    assert(items@ == first + pv);
                    assert forall|k: int| 1 <= k < items@.len() implies items@[k] == pv[k - 1] by {}
                    assert(jsons_of(items@) =~= seq![part_json(PartView::Text(t@))] + all_parts(
                        attachments@,
                    ).map_values(|p: PartView| part_json(p)));
                }
                changed.content = Some(JsonValue::Array(items));
            }
            out.push(message_to_json(&changed));
        } else {
            out.push(message_to_json(m));
        }
        i = i + 1;
    }
    proof {
        lemma_jsons_of(out@);
        assert(jsons_of(out@) =~= target.map_values(|m: MessageView| message_json(m)));
    }
    out
}

/// The body of a chat request: the model, the messages (attachments on the
/// last one), whether to stream, and the tools where there are any.
pub fn build_request_body(
    model: &str,
    messages: &[Message],
    attachments: &[Attachment],
    stream: bool,
    tools: &Vec<JsonValue>,
) -> (r: JsonValue)
    ensures
        r@ == request_body(model@, message_views(messages@), attachments@, stream, jsons_of(tools@)),
{
    let msgs = request_messages_json(messages, attachments);
    let mut ms: Vec<(String, JsonValue)> = Vec::new();
    ms.push((owned("model"), JsonValue::Str(owned(model))));
    ms.push((owned("messages"), JsonValue::Array(msgs)));
    ms.push((owned("stream"), JsonValue::Bool(stream)));
    let ghost first = ms@;
    proof {
        lemma_jsons_of(tools@);
    }
    if tools.len() > 0 {
        let t = JsonValue::Array(crate::json::copy_values(tools));
        ms.push((owned("tools"), t));
    }
    proof {
        lemma_members_of(first);
        lemma_members_of(ms@);
        assert(members_of(ms@) =~= seq![
            ("model"@, jstr(model@)),
            ("messages"@, Json::Array(
                request_messages(message_views(messages@), attachments@).map_values(|m: MessageView| message_json(m)),
            )),
            ("stream"@, Json::Bool(stream)),
        ] + (if jsons_of(tools@).len() > 0 {
            seq![("tools"@, Json::Array(jsons_of(tools@)))]
        } else {
            Seq::empty()
        }));
    }
    JsonValue::Object(ms)
}


/// The members other than `key`, in order.
pub open spec fn drop_member(ms: Seq<(Seq<char>, Json)>, key: Seq<char>) -> Seq<(Seq<char>, Json)>
    decreases ms.len(),
{
    if ms.len() == 0 {
        ms
    } else if ms.last().0 == key {
        drop_member(ms.drop_last(), key)
    } else {
        drop_member(ms.drop_last(), key).push(ms.last())
    }
}

/// A request body without its tools (for the retry of a request the model
/// refused).
pub open spec fn without_tools(j: Json) -> Json {
    match j {
        Json::Object(ms) => Json::Object(drop_member(ms, "tools"@)),
        _ => j,
    }
}

/// The messages of a request body are the given messages in order, each
/// as the chat API takes it; attachments change only the last message: its
/// text content becomes a list of parts, that text first and then every
/// attachment's parts in order.  Earlier messages are sent as given.
pub proof fn lemma_attachments_go_on_the_last_message(
    model: Seq<char>,
    ms: Seq<MessageView>,
    atts: Seq<Attachment>,
    stream: bool,
    tools: Seq<Json>,
)
    ensures
        ({
            let xs = crate::json::array_member(request_body(model, ms, atts, stream, tools), "messages"@);
            &&& xs is Some
            &&& xs->0.len() == ms.len()
            &&& forall|i: int|
                0 <= i < ms.len() && (i < ms.len() - 1 || atts.len() == 0) ==> #[trigger] xs->0[i]
                    == message_json(ms[i])
            &&& (atts.len() > 0 && ms.len() > 0) ==> xs->0[ms.len() - 1] == match ms.last().content {
                Some(Json::Str(t)) => message_json(
                    MessageView {
                        content: Some(
                            Json::Array(
                                seq![
                                    Json::Object(
                                        seq![("type"@, Json::Str("text"@)), ("text"@, Json::Str(t))],
                                    ),
                                ] + all_parts(atts).map_values(|p: PartView| part_json(p)),
                            ),
                        ),
                        ..ms.last()
                    },
                ),
                _ => message_json(ms.last()),
            }
        }),
{
    reveal_strlit("model");
    reveal_strlit("messages");
    reveal_strlit("stream");
    reveal_strlit("tools");
    assert("stream"@ != "messages"@) by {
        assert("stream"@[0] != "messages"@[0]);
    }
    assert("tools"@ != "messages"@) by {
        assert("tools"@[0] != "messages"@[0]);
    }
    let arr = Json::Array(request_messages(ms, atts).map_values(|m: MessageView| message_json(m)));
    let base = seq![("model"@, jstr(model)), ("messages"@, arr), ("stream"@, Json::Bool(stream))];
    let extra = if tools.len() > 0 {
        seq![("tools"@, Json::Array(tools))]
    } else {
        Seq::<(Seq<char>, Json)>::empty()
    };
    let all = base + extra;
    let two = seq![("model"@, jstr(model)), ("messages"@, arr)];
    assert(base.drop_last() =~= two);
    assert(two.last().0 == "messages"@);
    assert(crate::json::member_value(two, "messages"@) == Some(arr));
    assert(base.last().0 == "stream"@);
    assert(crate::json::member_value(base, "messages"@) == Some(arr));
    if tools.len() > 0 {
        assert(all.drop_last() =~= base);
    } else {
        assert(all =~= base);
    }
    assert(crate::json::member_value(all, "messages"@) == Some(arr));
}

/// The retry of a refused request sends the same request without tools:
/// removing the tools from a request body gives the body built with none.
pub proof fn lemma_retry_drops_only_tools(
    model: Seq<char>,
    ms: Seq<MessageView>,
    atts: Seq<Attachment>,
    stream: bool,
    tools: Seq<Json>,
)
    ensures
        without_tools(request_body(model, ms, atts, stream, tools)) == request_body(
            model,
            ms,
            atts,
            stream,
            Seq::empty(),
        ),
{
    reveal_strlit("model");
    reveal_strlit("messages");
    reveal_strlit("stream");
    reveal_strlit("tools");
    let base = seq![
        ("model"@, jstr(model)),
        ("messages"@, Json::Array(
            request_messages(ms, atts).map_values(|m: MessageView| message_json(m)),
        )),
        ("stream"@, Json::Bool(stream)),
    ];
    assert("model"@ != "tools"@) by {
        assert("model"@[0] != "tools"@[0]);
    }
    assert("messages"@ != "tools"@) by {
        assert("messages"@[0] != "tools"@[0]);
    }
    assert("stream"@ != "tools"@) by {
        assert("stream"@[0] != "tools"@[0]);
    }
    assert(drop_member(base.take(0), "tools"@) =~= base.take(0));
    assert(base.take(1).drop_last() =~= base.take(0));
    assert(base.take(2).drop_last() =~= base.take(1));
    assert(base.take(3).drop_last() =~= base.take(2));
    assert(drop_member(base.take(1), "tools"@) =~= base.take(1));
    assert(drop_member(base.take(2), "tools"@) =~= base.take(2));
    assert(drop_member(base.take(3), "tools"@) =~= base.take(3));
    assert(base.take(3) =~= base);
    if tools.len() > 0 {
        let full = base + seq![("tools"@, Json::Array(tools))];
        assert(full.drop_last() =~= base);
        assert(drop_member(full, "tools"@) == drop_member(base, "tools"@));
    }
    assert(base + Seq::<(Seq<char>, Json)>::empty() =~= base);
}

/// A copy of a request body without its tools.
pub fn strip_tools(body: &JsonValue) -> (r: JsonValue)
    ensures
        r@ == without_tools(body@),
{
    match body {
        JsonValue::Object(ms) => {
            let key = crate::text::chars_of("tools");
            let mut out: Vec<(String, JsonValue)> = Vec::new();
            let mut i: usize = 0;
            proof {
                lemma_members_of(ms@);
                lemma_members_of(out@);
                assert(members_of(ms@).take(0) == Seq::<(Seq<char>, Json)>::empty());
            }
            while i < ms.len()
                invariant
                    i <= ms@.len(),
                    key@ == "tools"@,
                    members_of(out@) == drop_member(members_of(ms@).take(i as int), "tools"@),
                    members_of(ms@).len() == ms@.len(),
                    forall|k: int| 0 <= k < ms@.len() ==> #[trigger] members_of(ms@)[k] == (ms@[k].0@, json_of(ms@[k].1)),
                decreases ms@.len() - i,
            {
                let name = crate::text::chars_of(ms[i].0.as_str());
                let ghost before = out@;
                proof {
                    assert(members_of(ms@).take(i + 1).drop_last() == members_of(ms@).take(i as int));
                }
                if !crate::text::same_chars(&name, &key) {
                    out.push((ms[i].0.clone(), ms[i].1.copy()));
                    proof {
                        assert(out@.drop_last() == before);
                    }
                }
                i = i + 1;
            }
            proof {
                assert(members_of(ms@).take(ms@.len() as int) == members_of(ms@));
            }
            JsonValue::Object(out)
        },
        _ => body.copy(),
    }
}

/// The first element of the `choices` array of a reply.
pub open spec fn first_choice(j: Json) -> Option<Json> {
    match get(j, "choices"@) {
        Some(Json::Array(items)) => if items.len() > 0 {
            Some(items[0])
        } else {
            None
        },
        _ => None,
    }
}

/// The message of a complete (non-streamed) reply.
pub open spec fn response_message(j: Json) -> Result<MessageView, Seq<char>> {
    let choice = match get(j, "choices"@) {
        Some(c) => crate::json::at(c, 0),
        None => None,
    };
    match choice {
        None => Err("No choices in response"@),
        Some(ch) => match get(ch, "message"@) {
            None => Err("No message in response"@),
            Some(m) => {
                let role = match crate::json::str_member(m, "role"@) {
                    Some(r) => r,
                    None => "assistant"@,
                };
                match get(m, "tool_calls"@) {
                    None => Ok(MessageView { role, content: get(m, "content"@), tool_calls: None, tool_call_id: None }),
                    Some(t) => match crate::wire::read_tool_calls(t) {
                        Err(e) => Err(e),
                        Ok(cs) => Ok(MessageView { role, content: get(m, "content"@), tool_calls: Some(cs), tool_call_id: None }),
                    },
                }
            },
        },
    }
}

/// Reads the message of a complete reply.
pub fn parse_response(response_json: &JsonValue) -> (r: Result<Message, String>)
    ensures
        match r {
            Ok(m) => response_message(response_json@) == Ok::<MessageView, Seq<char>>(m@),
            Err(e) => response_message(response_json@) == Err::<MessageView, Seq<char>>(e@),
        },
{
    let choice = match response_json.get("choices") {
        Some(c) => c.at(0),
        None => None,
    };
    let choice = match choice {
        Some(c) => c,
        None => return Err(owned("No choices in response")),
    };
    let message = match choice.get("message") {
        Some(m) => m,
        None => return Err(owned("No message in response")),
    };
    let role = match message.get("role") {
        Some(r) => match r.as_str() {
            Some(s) => owned(s),
            None => owned("assistant"),
        },
        None => owned("assistant"),
    };
    let content = match message.get("content") {
        Some(c) => Some(c.copy()),
        None => None,
    };
    let tool_calls = match message.get("tool_calls") {
        Some(t) => match crate::wire::read_tool_calls_exec(t) {
            Ok(cs) => Some(cs),
            Err(e) => return Err(e),
        },
        None => None,
    };
    Ok(Message { role, content, tool_calls, tool_call_id: None })
}

/// What a streamed reply has given so far: the role, the text, and the
/// tool calls by index.
pub struct SseState {
    pub role: Seq<char>,
    pub content: Seq<char>,
    pub calls: Map<u32, CallParts>,
}

/// The first choice of the JSON payload of a data line, if the line has one.
pub open spec fn line_choice(line: Seq<char>) -> Option<Json> {
    match crate::stream::sse_payload(line) {
        None => None,
        Some(data) => match crate::json::serde_parse(data) {
            Err(_) => None,
            Ok(p) => first_choice(p),
        },
    }
}

/// The tool-call fragments of a delta; fragments that cannot be read count
/// as none.
pub open spec fn tool_deltas(d: Json) -> Seq<DeltaParts> {
    match get(d, "tool_calls"@) {
        Some(t) => match crate::wire::read_deltas(t) {
            Some(ds) => ds,
            None => Seq::empty(),
        },
        None => Seq::empty(),
    }
}

/// A reply after one more line.
pub open spec fn sse_step(st: SseState, line: Seq<char>) -> SseState {
    match line_choice(line) {
        None => st,
        Some(ch) => match get(ch, "delta"@) {
            None => st,
            Some(d) => SseState {
                role: match crate::json::str_member(d, "role"@) {
                    Some(r) => r,
                    None => st.role,
                },
                content: match crate::json::str_member(d, "content"@) {
                    Some(c) => st.content + c,
                    None => st.content,
                },
                calls: crate::stream::apply_all(st.calls, tool_deltas(d)),
            },
        },
    }
}

/// A reply after the lines, in order.
pub open spec fn sse_run(st: SseState, ls: Seq<Seq<char>>) -> SseState
    decreases ls.len(),
{
    if ls.len() == 0 {
        st
    } else {
        sse_step(sse_run(st, ls.drop_last()), ls.last())
    }
}

/// Before any line: an assistant that has said nothing.
pub open spec fn sse_start() -> SseState {
    SseState { role: "assistant"@, content: Seq::empty(), calls: Map::empty() }
}

/// The message a streamed reply amounts to.
pub open spec fn sse_message_ok(m: MessageView, st: SseState) -> bool {
    &&& m.role == st.role
    &&& m.content == (if st.content.len() == 0 {
        None
    } else {
        Some(Json::Str(st.content))
    })
    &&& m.tool_call_id is None
    &&& match m.tool_calls {
        None => st.calls.dom().len() == 0,
        Some(v) => st.calls.dom().len() > 0 && crate::stream::lists_calls(v, st.calls),
    }
}

/// Reads a reply that came as server-sent events: the role and text of
/// the deltas, and the tool calls assembled from their fragments.
pub fn parse_sse_response(body_text: &str) -> (r: Message)
    ensures
        sse_message_ok(r@, sse_run(sse_start(), crate::text::lines(body_text@))),
{
    let ls = crate::text::lines_of(&crate::text::chars_of(body_text));
    let ghost lv = crate::text::views(ls@);
    let mut role = owned("assistant");
    let mut content = String::new();
    let mut acc = crate::stream::AccumulatedToolCalls::new();
    let mut i: usize = 0;
    proof {
        assert(lv.take(0) == Seq::<Seq<char>>::empty());
    }
    while i < ls.len()
        invariant
            i <= ls@.len(),
            lv == crate::text::views(ls@),
            lv == crate::text::lines(body_text@),
            sse_run(sse_start(), lv.take(i as int)) == (SseState { role: role@, content: content@, calls: acc@ }),
        decreases ls@.len() - i,
    {
        let line = crate::text::string_of(&ls[i]);
        proof {
            assert(lv.take(i + 1).drop_last() == lv.take(i as int));
            assert(lv[i as int] == line@);
        }
        if let Some(data) = crate::stream::parse_sse_line(line.as_str()) {
            if let Ok(parsed) = crate::json::parse_json(data.as_str()) {
                if let Some(choice) = first_choice_exec(&parsed) {
                    if let Some(delta) = choice.get("delta") {
                        if let Some(r) = delta.get("role") {
                            if let Some(rs) = r.as_str() {
                                role = owned(rs);
                            }
                        }
                        if let Some(c) = delta.get("content") {
                            if let Some(cs) = c.as_str() {
                                content.append(cs);
                            }
                        }
                        let deltas = tool_deltas_exec(delta);
                        acc.apply_delta(deltas);
                    }
                }
            }
        }
        i = i + 1;
    }
    proof {
        assert(lv.take(ls@.len() as int) == lv);
    }
    let tool_calls = if acc.is_empty() {
        None
    } else {
        Some(acc.into_tool_calls())
    };
    Message {
        role,
        content: if content.as_str().is_empty() {
            None
        } else {
            Some(JsonValue::Str(content))
        },
        tool_calls,
        tool_call_id: None,
    }
}

/// The first element of the `choices` array of a reply.
pub fn first_choice_exec(j: &JsonValue) -> (r: Option<&JsonValue>)
    ensures
        match r {
            Some(c) => first_choice(j@) == Some(c@),
            None => first_choice(j@) is None,
        },
{
    match j.get("choices") {
        Some(c) => match c.as_array() {
            Some(items) => {
                proof {
                    lemma_jsons_of(items@);
                }
                if items.len() > 0 {
                    Some(&items[0])
                } else {
                    None
                }
            },
            None => None,
        },
        None => None,
    }
}

/// The tool-call fragments of a delta.
pub fn tool_deltas_exec(d: &JsonValue) -> (r: Vec<crate::stream::ToolCallDelta>)
    ensures
        crate::stream::delta_views(r@) == tool_deltas(d@),
{
    match d.get("tool_calls") {
        Some(t) => match crate::wire::read_deltas_exec(t) {
            Some(ds) => ds,
            None => {
                let v: Vec<crate::stream::ToolCallDelta> = Vec::new();
                assert(crate::stream::delta_views(v@) =~= Seq::<DeltaParts>::empty());
                v
            },
        },
        None => {
            let v: Vec<crate::stream::ToolCallDelta> = Vec::new();
            assert(crate::stream::delta_views(v@) =~= Seq::<DeltaParts>::empty());
            v
        },
    }
}

/// What the terminal receives from a streamed chunk.
#[derive(Debug, PartialEq)]
pub enum StreamEvent {
    Delta(String),
    ToolCalls(Vec<ToolCallInfo>),
    Done(String),
    Error(String),
}

/// The tool-call view of a call: its id, name and arguments.
pub open spec fn info_of(c: CallParts) -> (Seq<char>, Seq<char>, Seq<char>) {
    (c.id, c.name, c.arguments)
}

/// The views of tool-call infos.
pub open spec fn info_views(v: Seq<ToolCallInfo>) -> Seq<(Seq<char>, Seq<char>, Seq<char>)> {
    v.map_values(|i: ToolCallInfo| (i.id@, i.name@, i.arguments@))
}

/// What one chunk of a stream has given: its text, its tool calls, and
/// whether a choice finished.
pub struct ChunkState {
    pub content: Seq<char>,
    pub calls: Map<u32, CallParts>,
    pub done: bool,
}

/// A finish reason that ends the reply.
pub open spec fn ends_reply(r: Seq<char>) -> bool {
    r == "stop"@ || r == "end_turn"@ || r == "tool_calls"@
}

/// A chunk after one more line.
pub open spec fn chunk_step(st: ChunkState, line: Seq<char>) -> ChunkState {
    match line_choice(line) {
        None => st,
        Some(ch) => {
            let (content, calls) = match get(ch, "delta"@) {
                None => (st.content, st.calls),
                Some(d) => (
                    match crate::json::str_member(d, "content"@) {
                        Some(c) => st.content + c,
                        None => st.content,
                    },
                    crate::stream::apply_all(st.calls, tool_deltas(d)),
                ),
            };
            let done = match crate::json::str_member(ch, "finish_reason"@) {
                Some(r) => st.done || ends_reply(r),
                None => st.done,
            };
            ChunkState { content, calls, done }
        },
    }
}

/// A chunk after the lines, in order.
pub open spec fn chunk_run(st: ChunkState, ls: Seq<Seq<char>>) -> ChunkState
    decreases ls.len(),
{
    if ls.len() == 0 {
        st
    } else {
        chunk_step(chunk_run(st, ls.drop_last()), ls.last())
    }
}

/// The event of a chunk: its tool calls if it has any, else its text, as
/// the final text where a choice finished.
pub open spec fn chunk_event_ok(e: StreamEvent, st: ChunkState) -> bool {
    if st.calls.dom().len() > 0 {
        e matches StreamEvent::ToolCalls(infos) && exists|v: Seq<CallParts>|
            crate::stream::lists_calls(v, st.calls) && info_views(infos@) == v.map_values(|c: CallParts| info_of(c))
    } else if st.done {
        e matches StreamEvent::Done(t) && t@ == st.content
    } else {
        e matches StreamEvent::Delta(t) && t@ == st.content
    }
}

/// The event of one streamed chunk of bytes (decoded with invalid UTF-8
/// replaced).
pub fn chunk_event(chunk: &[u8]) -> (r: StreamEvent)
    ensures
        chunk_event_ok(
            r,
            chunk_run(
                ChunkState { content: Seq::empty(), calls: Map::empty(), done: false },
                crate::text::lines(crate::native::lossy_text(chunk@)),
            ),
        ),
{
    let text = crate::native::utf8_lossy(chunk);
    let ls = crate::text::lines_of(&crate::text::chars_of(text.as_str()));
    let ghost lv = crate::text::views(ls@);
    let mut content = String::new();
    let mut acc = crate::stream::AccumulatedToolCalls::new();
    let mut done = false;
    let mut i: usize = 0;
    let ghost start = ChunkState { content: Seq::empty(), calls: Map::empty(), done: false };
    proof {
        assert(lv.take(0) == Seq::<Seq<char>>::empty());
    }
    while i < ls.len()
        invariant
            i <= ls@.len(),
            lv == crate::text::views(ls@),
            lv == crate::text::lines(text@),
            chunk_run(start, lv.take(i as int)) == (ChunkState { content: content@, calls: acc@, done }),
        decreases ls@.len() - i,
    {
        let line = crate::text::string_of(&ls[i]);
        proof {
            assert(lv.take(i + 1).drop_last() == lv.take(i as int));
            assert(lv[i as int] == line@);
        }
        if let Some(data) = crate::stream::parse_sse_line(line.as_str()) {
            if let Ok(parsed) = crate::json::parse_json(data.as_str()) {
                if let Some(choice) = first_choice_exec(&parsed) {
                    if let Some(delta) = choice.get("delta") {
                        if let Some(c) = delta.get("content") {
                            if let Some(cs) = c.as_str() {
                                content.append(cs);
                            }
                        }
                        let deltas = tool_deltas_exec(delta);
                        acc.apply_delta(deltas);
                    }
                    if let Some(fr) = choice.get("finish_reason") {
                        if let Some(reason) = fr.as_str() {
                            let rc = crate::text::chars_of(reason);
                            if crate::text::same_chars(&rc, &crate::text::chars_of("stop"))
                                || crate::text::same_chars(&rc, &crate::text::chars_of("end_turn"))
                                || crate::text::same_chars(&rc, &crate::text::chars_of("tool_calls")) {
                                done = true;
                            }
                        }
                    }
                }
            }
        }
        i = i + 1;
    }
    proof {
        assert(lv.take(ls@.len() as int) == lv);
    }
    if !acc.is_empty() {
        let calls = acc.into_tool_calls();
        let mut infos: Vec<ToolCallInfo> = Vec::new();
        let mut k: usize = 0;
        while k < calls.len()
            invariant
                k <= calls@.len(),
                infos@.len() == k,
                forall|j: int| 0 <= j < k ==> (#[trigger] infos@[j]).id@ == calls@[j].id@ && infos@[j].name@ == calls@[j].function.name@ && infos@[j].arguments@ == calls@[j].function.arguments@,
            decreases calls@.len() - k,
        {
            infos.push(ToolCallInfo {
                id: calls[k].id.clone(),
                name: calls[k].function.name.clone(),
                arguments: calls[k].function.arguments.clone(),
            });
            k = k + 1;
        }
        proof {
            assert(info_views(infos@) =~= call_views(calls@).map_values(|c: CallParts| info_of(c)));
        }
        StreamEvent::ToolCalls(infos)
    } else if done {
        StreamEvent::Done(content)
    } else {
        StreamEvent::Delta(content)
    }
}

/// A text made into one line: its lines joined by spaces.
pub open spec fn single_line(s: Seq<char>) -> Seq<char> {
    crate::text::join(crate::text::lines(s), " "@)
}

/// A text as a one-line display shows it: its lines joined by spaces, cut
/// after `max` bytes with `"..."` where it is longer.
pub open spec fn display_text(s: Seq<char>, max: int) -> Seq<char> {
    crate::text::shortened(single_line(s), max)
}

/// The one-line form of a text can be cut at `max` bytes without splitting
/// a character.
pub open spec fn display_cut_ok(s: Seq<char>, max: int) -> bool {
    crate::text::can_shorten(single_line(s), max)
}

/// A text for a one-line display: its lines joined by spaces, cut after
/// `max_len` bytes with `"..."` where it is longer.
pub fn truncate_display(s: &str, max_len: usize) -> (r: String)
    requires
        display_cut_ok(s@, max_len as int),
    ensures
        r@ == display_text(s@, max_len as int),
{
    let ls = crate::text::lines_of(&crate::text::chars_of(s));
    let joined = crate::text::string_of(&crate::text::join_chars(&ls, &crate::text::chars_of(" ")));
    crate::text::shorten(joined.as_str(), max_len)
}

/// The part of a reply body where the JSON starts: from the first `'{'`,
/// else from the first `'['`, else the trimmed body.
pub open spec fn json_start(s: Seq<char>) -> Seq<char> {
    match crate::text::first_index(s, '{') {
        Some(i) => s.skip(i),
        None => match crate::text::first_index(s, '[') {
            Some(i) => s.skip(i),
            None => crate::text::trim(s),
        },
    }
}

/// The part of a reply body where the JSON starts.
pub fn extract_json(body: &str) -> (r: String)
    ensures
        r@ == json_start(body@),
{
    let v = crate::text::chars_of(body);
    match crate::text::find_char(&v, '{') {
        Some(i) => crate::text::string_of(&crate::text::sub_chars(&v, i, v.len())),
        None => match crate::text::find_char(&v, '[') {
            Some(i) => crate::text::string_of(&crate::text::sub_chars(&v, i, v.len())),
            None => crate::text::string_of(&crate::text::trim_chars(&v)),
        },
    }
}

/// An HTTP status in the success range.
pub open spec fn is_success(status: u16) -> bool {
    200 <= status <= 299
}

/// The error for a refused request.
pub open spec fn api_error(status_text: Seq<char>, body: Seq<char>) -> Seq<char> {
    "OpenRouter API error: "@ + status_text + " - "@ + body
}

/// At most the first 500 bytes of a body.
pub open spec fn head500(s: Seq<char>) -> Seq<char> {
    if crate::text::byte_len(s) > 500 {
        crate::text::byte_prefix(s, 500)
    } else {
        s
    }
}

/// Reading a JSON reply body; the error quotes the start of the body, with
/// its size on a first attempt.
pub open spec fn json_reply(body: Seq<char>, retried: bool) -> Result<MessageView, Seq<char>> {
    match crate::json::serde_parse(json_start(body)) {
        Err(_) => Err(
            if retried {
                "Failed to parse API response: "@ + head500(body)
            } else {
                "Failed to parse API response ("@ + crate::text::decimal(crate::text::byte_len(body)) + " bytes): "@
                    + head500(body)
            },
        ),
        Ok(v) => response_message(v),
    }
}

/// Quoting the body in a parse error would cut it inside a character.
pub open spec fn quote_panics(body: Seq<char>) -> bool {
    crate::json::serde_parse(json_start(body)) is Err && crate::text::byte_len(body) > 500
        && !crate::text::cut_ok(body, 500)
}

/// A reply body looks like server-sent events.
pub open spec fn looks_streamed(body: Seq<char>, retried: bool) -> bool {
    if retried {
        crate::text::contains(body, "data:"@)
    } else {
        crate::text::contains(body, "data:"@) && crate::text::contains(body, "chat.completion.chunk"@)
    }
}

/// What a successful reply body gives.
pub open spec fn body_message_ok(r: Result<Message, String>, body: Seq<char>, retried: bool) -> bool {
    if looks_streamed(body, retried) {
        r matches Ok(m) && sse_message_ok(m@, sse_run(sse_start(), crate::text::lines(body)))
    } else {
        match json_reply(body, retried) {
            Ok(mv) => r matches Ok(m) && m@ == mv,
            Err(e) => r matches Err(t) && t@ == e,
        }
    }
}

fn head500_exec(body: &str) -> (r: String)
    requires
        crate::text::can_shorten(body@, 500),
    ensures
        r@ == head500(body@),
{
    if crate::text::exceeds_bytes(body, 500) {
        let (h, _) = body.split_at(500);
        proof {
            vstd::utf8::encode_utf8_decode_utf8(h@);
            assert(vstd::utf8::encode_utf8(h@) =~= vstd::utf8::encode_utf8(body@).subrange(0, 500));
        }
        owned(h)
    } else {
        owned(body)
    }
}

/// Reads a successful reply body; nothing where quoting the body in the
/// error would cut a character.
pub fn read_reply_body(body: &str, retried: bool) -> (r: Option<Result<Message, String>>)
    ensures
        match r {
            Some(res) => !(!looks_streamed(body@, retried) && quote_panics(body@)) && body_message_ok(
                res,
                body@,
                retried,
            ),
            None => !looks_streamed(body@, retried) && quote_panics(body@),
        },
{
    let v = crate::text::chars_of(body);
    let has_data = crate::text::contains_exec(&v, &crate::text::chars_of("data:"));
    let streamed = if retried {
        has_data
    } else {
        has_data && crate::text::contains_exec(&v, &crate::text::chars_of("chat.completion.chunk"))
    };
    if streamed {
        return Some(Ok(parse_sse_response(body)));
    }
    let start = extract_json(body);
    match crate::json::parse_json(start.as_str()) {
        Ok(j) => Some(parse_response(&j)),
        Err(_) => {
            if !crate::text::shortenable(body, 500) {
                return None;
            }
            let head = head500_exec(body);
            if retried {
                Some(Err(crate::text::cat("Failed to parse API response: ", head.as_str())))
            } else {
                let size = crate::text::decimal_string(crate::text::byte_count(body));
                let a = crate::text::cat("Failed to parse API response (", size.as_str());
                let b = crate::text::cat(a.as_str(), " bytes): ");
                Some(Err(crate::text::cat(b.as_str(), head.as_str())))
            }
        },
    }
}

/// What a first reply calls for.
#[derive(Debug, PartialEq)]
pub enum ReplyStep {
    /// Send the request again without its tools.
    RetryWithoutTools,
    /// The request is answered.
    Done(Result<Message, String>),
}

/// The model may not take tools: a refusal with 400 or 422 to a request
/// that offered tools.
pub open spec fn refuses_tools(has_tools: bool, status: u16) -> bool {
    has_tools && (status == 400 || status == 422)
}

/// Handles the reply to the first attempt of a request: a refusal of the
/// tools asks for a retry without them, another refusal is an error, and a
/// success is read; nothing where quoting the body would cut a character.
pub fn first_reply(has_tools: bool, status: u16, status_text: &str, body: &str) -> (r: Option<ReplyStep>)
    ensures
        !is_success(status) && refuses_tools(has_tools, status) ==> r matches Some(ReplyStep::RetryWithoutTools),
        !is_success(status) && !refuses_tools(has_tools, status) ==> (r matches Some(ReplyStep::Done(Err(e)))
            && e@ == api_error(status_text@, body@)),
        is_success(status) ==> match r {
            Some(ReplyStep::Done(res)) => !(!looks_streamed(body@, false) && quote_panics(body@)) && body_message_ok(
                res,
                body@,
                false,
            ),
            Some(ReplyStep::RetryWithoutTools) => false,
            None => !looks_streamed(body@, false) && quote_panics(body@),
        },
{
    if !(200 <= status && status <= 299) {
        if has_tools && (status == 400 || status == 422) {
            return Some(ReplyStep::RetryWithoutTools);
        }
        let a = crate::text::cat("OpenRouter API error: ", status_text);
        let b = crate::text::cat(a.as_str(), " - ");
        return Some(ReplyStep::Done(Err(crate::text::cat(b.as_str(), body))));
    }
    match read_reply_body(body, false) {
        Some(res) => Some(ReplyStep::Done(res)),
        None => None,
    }
}

/// Handles the reply to the retry without tools; nothing where quoting
/// the body would cut a character.
pub fn retry_reply(status: u16, status_text: &str, body: &str) -> (r: Option<Result<Message, String>>)
    ensures
        !is_success(status) ==> (r matches Some(Err(e)) && e@ == api_error(status_text@, body@)),
        is_success(status) ==> match r {
            Some(res) => !(!looks_streamed(body@, true) && quote_panics(body@)) && body_message_ok(res, body@, true),
            None => !looks_streamed(body@, true) && quote_panics(body@),
        },
{
    if !(200 <= status && status <= 299) {
        let a = crate::text::cat("OpenRouter API error: ", status_text);
        let b = crate::text::cat(a.as_str(), " - ");
        return Some(Err(crate::text::cat(b.as_str(), body)));
    }
    read_reply_body(body, true)
}

/// The step after `i` requests of one prompt: another request where fewer
/// than `MAX_TOOL_ITERATIONS` were made, else the end.
pub open spec fn iteration_after(i: u32) -> Option<u32> {
    if i >= crate::tools::MAX_TOOL_ITERATIONS {
        None
    } else {
        Some((i + 1) as u32)
    }
}

/// Counts one more request of a prompt, or fails once the limit is reached.
pub fn next_iteration(iteration: u32) -> (r: Result<u32, String>)
    ensures
        match iteration_after(iteration) {
            Some(n) => r == Ok::<u32, String>(n),
            None => r matches Err(e) && e@ == "Max tool iterations (25) reached"@,
        },
{
    if iteration >= crate::tools::MAX_TOOL_ITERATIONS {
        Err(owned("Max tool iterations (25) reached"))
    } else {
        Ok(iteration + 1)
    }
}

/// The number of requests made after `k` successful steps from none.
pub open spec fn iterations(k: nat) -> Option<u32>
    decreases k,
{
    if k == 0 {
        Some(0)
    } else {
        match iterations((k - 1) as nat) {
            Some(i) => iteration_after(i),
            None => None,
        }
    }
}

/// A prompt makes at most `MAX_TOOL_ITERATIONS` requests: counting from
/// none, the count stays within the limit and the step after the limit fails.
pub proof fn lemma_iterations_bounded(k: nat)
    ensures
        iterations(k) matches Some(i) ==> i == k && k <= crate::tools::MAX_TOOL_ITERATIONS,
        k > crate::tools::MAX_TOOL_ITERATIONS ==> iterations(k) is None,
    decreases k,
{
    if k > 0 {
        lemma_iterations_bounded((k - 1) as nat);
    }
}

/// The text of the final answer: string content as it is, other content as
/// JSON text, no content as `null`.
pub open spec fn reply_text(c: Option<Json>) -> Seq<char> {
    match c {
        Some(Json::Str(s)) => s,
        Some(other) => crate::json::serde_text(other),
        None => crate::json::serde_text(Json::Null),
    }
}

/// What a reply in the tool loop calls for.
#[derive(Debug, PartialEq)]
pub enum AgentStep {
    /// Run these tool calls, then ask again.
    RunTools(Vec<ToolCallInfo>),
    /// The answer.
    Finish(String),
}

/// Takes a reply in the tool loop: a reply with tool calls joins the
/// conversation and its calls are to run; any other reply is the answer.
pub fn receive_reply(messages: &mut Vec<Message>, response: Message) -> (r: AgentStep)
    ensures
        match response@.tool_calls {
            Some(cs) => final(messages)@ == old(messages)@.push(response) && (r matches AgentStep::RunTools(infos)
                && info_views(infos@) == cs.map_values(|c: CallParts| info_of(c))),
            None => final(messages)@ == old(messages)@ && (r matches AgentStep::Finish(t) && t@ == reply_text(
                response@.content,
            )),
        },
{
    match &response.tool_calls {
        Some(cs) => {
            let mut infos: Vec<ToolCallInfo> = Vec::new();
            let mut k: usize = 0;
            while k < cs.len()
                invariant
                    k <= cs@.len(),
                    infos@.len() == k,
                    forall|j: int|
                        0 <= j < k ==> (#[trigger] infos@[j]).id@ == cs@[j].id@ && infos@[j].name@
                            == cs@[j].function.name@ && infos@[j].arguments@ == cs@[j].function.arguments@,
                decreases cs@.len() - k,
            {
                infos.push(ToolCallInfo {
                    id: cs[k].id.clone(),
                    name: cs[k].function.name.clone(),
                    arguments: cs[k].function.arguments.clone(),
                });
                k = k + 1;
            }
            proof {
                assert(info_views(infos@) =~= call_views(cs@).map_values(|c: CallParts| info_of(c)));
            }
            messages.push(response);
            AgentStep::RunTools(infos)
        },
        None => {
            let text = match &response.content {
                Some(JsonValue::Str(s)) => s.clone(),
                Some(other) => crate::json::json_text(other),
                None => crate::json::json_text(&JsonValue::Null),
            };
            AgentStep::Finish(text)
        },
    }
}

/// A plain text message from a role.
pub open spec fn text_message_view(role: Seq<char>, text: Seq<char>) -> MessageView {
    MessageView { role, content: Some(Json::Str(text)), tool_calls: None, tool_call_id: None }
}

/// A plain text message from a role (`"user"`, `"assistant"`).
pub fn text_message(role: &str, text: String) -> (r: Message)
    ensures
        r@ == text_message_view(role@, text@),
{
    Message { role: owned(role), content: Some(JsonValue::Str(text)), tool_calls: None, tool_call_id: None }
}

/// The message that answers a tool call with its result.
pub open spec fn tool_message_view(call_id: Seq<char>, result: crate::tools::ToolResult) -> MessageView {
    MessageView {
        role: "tool"@,
        content: Some(Json::Str(crate::tools::result_content(result))),
        tool_calls: None,
        tool_call_id: Some(call_id),
    }
}

/// The message that answers a tool call with its result.
pub fn tool_message(call_id: &str, result: &crate::tools::ToolResult) -> (r: Message)
    ensures
        r@ == tool_message_view(call_id@, *result),
{
    Message {
        role: owned("tool"),
        content: Some(JsonValue::Str(result.to_content())),
        tool_calls: None,
        tool_call_id: Some(owned(call_id)),
    }
}

/// Adds the answers to a round of tool calls, one message per call, in
/// the calls' order, each naming its call.
pub fn record_tool_results(
    messages: &mut Vec<Message>,
    infos: &Vec<ToolCallInfo>,
    results: &Vec<crate::tools::ToolResult>,
)
    requires
        infos@.len() == results@.len(),
    ensures
        message_views(final(messages)@) == message_views(old(messages)@) + Seq::new(
            infos@.len(),
            |i: int| tool_message_view(infos@[i].id@, results@[i]),
        ),
{
    let ghost start = message_views(messages@);
    let mut i: usize = 0;
    while i < infos.len()
        invariant
            i <= infos@.len() == results@.len(),
            message_views(messages@) == start + Seq::new(
                i as nat,
                |k: int| tool_message_view(infos@[k].id@, results@[k]),
            ),
        decreases infos@.len() - i,
    {
        let m = tool_message(infos[i].id.as_str(), &results[i]);
        let ghost before = messages@;
        messages.push(m);
        proof {
            assert(message_views(messages@) =~= message_views(before).push(m@));
            assert(Seq::new((i + 1) as nat, |k: int| tool_message_view(infos@[k].id@, results@[k])) =~= Seq::new(
                i as nat,
                |k: int| tool_message_view(infos@[k].id@, results@[k]),
            ).push(tool_message_view(infos@[i as int].id@, results@[i as int])));
            assert(message_views(messages@) =~= start + Seq::new(
                (i + 1) as nat,
                |k: int| tool_message_view(infos@[k].id@, results@[k]),
            ));
        }
        i = i + 1;
    }
}

/// The text a streamed prompt prints: the answer's text as the prompt
/// without streaming prints it (string content as it is, other content as
/// JSON text, no content as `null`).
pub fn stream_reply_text(content: &Option<JsonValue>) -> (r: String)
    ensures
        r@ == reply_text(
            match content {
                Some(c) => Some(c@),
                None => None,
            },
        ),
{
    match content {
        Some(JsonValue::Str(s)) => s.clone(),
        Some(c) => crate::json::json_text(c),
        None => crate::json::json_text(&JsonValue::Null),
    }
}

/// The first model in the list with the given id.
pub open spec fn model_entry(models: Seq<Json>, id: Seq<char>) -> Option<Json>
    decreases models.len(),
{
    if models.len() == 0 {
        None
    } else if crate::json::str_member(models[0], "id"@) == Some(id) {
        Some(models[0])
    } else {
        model_entry(models.drop_first(), id)
    }
}

/// Some parameter in the list is `"tools"`.
pub open spec fn lists_tools(params: Seq<Json>) -> bool {
    exists|i: int| 0 <= i < params.len() && as_str(#[trigger] params[i]) == Some("tools"@)
}

/// Whether the model list says the model takes tools, and whether the
/// model is missing from the list.  Where the list says nothing, tools are
/// assumed to work.
pub open spec fn tool_support(body: Json, id: Seq<char>) -> (bool, bool) {
    match crate::json::array_member(body, "data"@) {
        None => (true, false),
        Some(models) => match model_entry(models, id) {
            None => (true, true),
            Some(m) => match crate::json::array_member(m, "supported_parameters"@) {
                Some(ps) => (lists_tools(ps), false),
                None => (true, false),
            },
        },
    }
}

/// Whether the model list (the body of the models endpoint) says the model
/// takes tools, and whether the model is missing from it; a body that is
/// not JSON says nothing, so tools are assumed to work.
#[verifier::loop_isolation(false)]
pub fn model_tool_support(body_text: &str, model_id: &str) -> (r: (bool, bool))
    ensures
        r == match crate::json::serde_parse(body_text@) {
            Ok(j) => tool_support(j, model_id@),
            Err(_) => (true, false),
        },
{
    let body = match crate::json::parse_json(body_text) {
        Ok(j) => j,
        Err(_) => return (true, false),
    };
    let models = match body.get("data") {
        Some(d) => match d.as_array() {
            Some(m) => m,
            None => return (true, false),
        },
        None => return (true, false),
    };
    proof {
        lemma_jsons_of(models@);
    }
    let ghost ms = jsons_of(models@);
    let id = crate::text::chars_of(model_id);
    let mut i: usize = 0;
    assert(ms.skip(0) == ms);
    while i < models.len()
        invariant
            i <= models@.len() == ms.len(),
            ms == jsons_of(models@),
            forall|k: int| 0 <= k < ms.len() ==> #[trigger] ms[k] == json_of(models@[k]),
            model_entry(ms, model_id@) == model_entry(ms.skip(i as int), model_id@),
            id@ == model_id@,
        decreases models@.len() - i,
    {
        let m = &models[i];
        proof {
            assert(ms.skip(i as int)[0] == ms[i as int]);
            assert(ms.skip(i as int).drop_first() == ms.skip(i + 1));
        }
        let matches = match m.get("id") {
            Some(v) => match v.as_str() {
                Some(s) => crate::text::same_chars(&crate::text::chars_of(s), &id),
                None => false,
            },
            None => false,
        };
        if matches {
            match m.get("supported_parameters") {
                Some(p) => match p.as_array() {
                    Some(params) => {
                        proof {
                            lemma_jsons_of(params@);
                        }
                        let mut j: usize = 0;
                        while j < params.len()
                            invariant
                                j <= params@.len(),
                                jsons_of(params@).len() == params@.len(),
                                forall|k: int| 0 <= k < params@.len() ==> #[trigger] jsons_of(params@)[k] == json_of(params@[k]),
                                forall|k: int| 0 <= k < j ==> as_str(#[trigger] jsons_of(params@)[k]) != Some("tools"@),
                            decreases params@.len() - j,
                        {
                            match params[j].as_str() {
                                Some(s) => {
                                    if crate::text::same_chars(&crate::text::chars_of(s), &crate::text::chars_of("tools")) {
                                        proof {
                                            assert(as_str(jsons_of(params@)[j as int]) == Some("tools"@));
                                            assert(lists_tools(jsons_of(params@)));
                                        }
                                        return (true, false);
                                    }
                                },
                                None => {},
                            }
                            j = j + 1;
                        }
                        return (false, false);
                    },
                    None => return (true, false),
                },
                None => return (true, false),
            }
        }
        i = i + 1;
    }
    (true, true)
}

/// What a client is set up with.
#[derive(Debug, PartialEq)]
pub struct ClientSetup {
    pub tools: Vec<JsonValue>,
    pub tool_config: crate::tools::ToolConfig,
}

/// The confirmation mode of a command.
pub open spec fn mode_of(c: crate::cli::Commands) -> crate::tools::ConfirmMode {
    match c {
        crate::cli::Commands::Prompt { .. } => crate::tools::ConfirmMode::Prompt,
        crate::cli::Commands::Chat => crate::tools::ConfirmMode::Chat,
        crate::cli::Commands::Tui => crate::tools::ConfirmMode::Tui,
    }
}

/// How tools run in a session: approved by `-y`, with the configured shell
/// timeout, confirmed in the way of the session's command.
pub open spec fn session_tool_config(cli: crate::cli::Cli) -> crate::tools::ToolConfig {
    crate::tools::ToolConfig {
        auto_approve: cli.yes,
        shell_timeout: cli.shell_timeout,
        mode: mode_of(cli.command),
    }
}

/// `write` and `shell` calls are confirmed, in the session's way of asking,
/// unless the session runs with `-y`; the other tools never are.
pub proof fn lemma_confirmation_follows_yes(cli: crate::cli::Cli, name: Seq<char>)
    ensures
        crate::tools::confirmation(name, session_tool_config(cli)) == (if cli.yes {
            None
        } else if name == "write"@ || name == "shell"@ {
            Some(mode_of(cli.command))
        } else {
            None
        }),
{
}

/// The tools and tool settings of a session: the tools the options allow,
/// none where the model takes no tools.
pub fn client_setup(cli: &crate::cli::Cli, model_supports_tools: bool) -> (r: ClientSetup)
    ensures
        jsons_of(r.tools@) == crate::tools::tools_array(
            !cli.no_native_tools && model_supports_tools,
            !cli.no_web_search && model_supports_tools,
            !cli.no_datetime && model_supports_tools,
            cli.search_engine@,
            cli.max_search_results,
        ),
        r.tool_config == session_tool_config(*cli),
{
    let tools = crate::tools::build_tools_array(
        !cli.no_native_tools && model_supports_tools,
        !cli.no_web_search && model_supports_tools,
        !cli.no_datetime && model_supports_tools,
        cli.search_engine.as_str(),
        cli.max_search_results,
    );
    let mode = match &cli.command {
        crate::cli::Commands::Prompt { .. } => crate::tools::ConfirmMode::Prompt,
        crate::cli::Commands::Chat => crate::tools::ConfirmMode::Chat,
        crate::cli::Commands::Tui => crate::tools::ConfirmMode::Tui,
    };
    ClientSetup {
        tools,
        tool_config: crate::tools::ToolConfig { auto_approve: cli.yes, shell_timeout: cli.shell_timeout, mode },
    }
}

/// The note shown when tools were asked for but the model takes none.
pub fn tools_disabled_note(cli: &crate::cli::Cli, model_supports_tools: bool) -> (r: Option<String>)
    ensures
        match r {
            Some(t) => !model_supports_tools && (!cli.no_native_tools || !cli.no_web_search || !cli.no_datetime)
                && t@ == "Note: Model '"@ + cli.model@ + "' does not support tools. Tools disabled for this session."@,
            None => model_supports_tools || (cli.no_native_tools && cli.no_web_search && cli.no_datetime),
        },
{
    if !model_supports_tools && (!cli.no_native_tools || !cli.no_web_search || !cli.no_datetime) {
        let a = crate::text::cat("Note: Model '", cli.model.as_str());
        Some(crate::text::cat(a.as_str(), "' does not support tools. Tools disabled for this session."))
    } else {
        None
    }
}

} // verus!
