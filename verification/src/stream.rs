//! Server-sent-event lines and the accumulation of streamed tool-call deltas.
use std::collections::HashMap;
use vstd::prelude::*;
use crate::text::{
    chars_of, parse_u32, parse_u32_chars, same_chars, starts_with, starts_with_exec, string_of, sub_chars,
    trim, trim_chars,
};

verus! {

broadcast use vstd::std_specs::hash::group_hash_axioms;

/// One streamed chunk of an assistant message.
#[derive(Debug, PartialEq)]
pub struct StreamDelta {
    pub content: Option<String>,
    pub tool_calls: Option<Vec<ToolCallDelta>>,
    pub finish_reason: Option<String>,
}

/// A fragment of one tool call, as the server streams it.
#[derive(Debug, PartialEq)]
pub struct ToolCallDelta {
    pub index: Option<u32>,
    pub id: Option<String>,
    pub call_type: Option<String>,
    pub function: Option<FunctionDelta>,
}

/// A fragment of the function part of a tool call.
#[derive(Debug, PartialEq)]
pub struct FunctionDelta {
    pub name: Option<String>,
    pub arguments: Option<String>,
}

/// The fields of a function fragment, as text.
pub struct FunctionParts {
    pub name: Option<Seq<char>>,
    pub arguments: Option<Seq<char>>,
}

/// The fields of a tool-call fragment, as text.
pub struct DeltaParts {
    pub index: Option<u32>,
    pub id: Option<Seq<char>>,
    pub call_type: Option<Seq<char>>,
    pub function: Option<FunctionParts>,
}

impl View for FunctionDelta {
    type V = FunctionParts;

    open spec fn view(&self) -> FunctionParts {
        FunctionParts { name: opt_text(self.name), arguments: opt_text(self.arguments) }
    }
}

impl View for ToolCallDelta {
    type V = DeltaParts;

    open spec fn view(&self) -> DeltaParts {
        DeltaParts {
            index: self.index,
            id: opt_text(self.id),
            call_type: opt_text(self.call_type),
            function: match self.function {
                Some(f) => Some(f@),
                None => None,
            },
        }
    }
}

/// The views of a sequence of fragments.
pub open spec fn delta_views(v: Seq<ToolCallDelta>) -> Seq<DeltaParts> {
    v.map_values(|d: ToolCallDelta| d@)
}

/// The four text fields of a tool call, as sequences of characters.
pub struct CallParts {
    pub id: Seq<char>,
    pub call_type: Seq<char>,
    pub name: Seq<char>,
    pub arguments: Seq<char>,
}

/// A complete tool call requested by the model.
#[derive(Clone, Debug, PartialEq)]
pub struct ToolCall {
    pub id: String,
    pub call_type: String,
    pub function: ToolCallFunction,
}

/// The function named by a tool call and its JSON arguments.
#[derive(Clone, Debug, PartialEq)]
pub struct ToolCallFunction {
    pub name: String,
    pub arguments: String,
}

impl View for ToolCall {
    type V = CallParts;

    open spec fn view(&self) -> CallParts {
        CallParts {
            id: self.id@,
            call_type: self.call_type@,
            name: self.function.name@,
            arguments: self.function.arguments@,
        }
    }
}

impl ToolCall {
    /// A copy with the same text in every field.
    pub fn duplicate(&self) -> (r: ToolCall)
        ensures
            r@ == self@,
    {
        ToolCall {
            id: self.id.clone(),
            call_type: self.call_type.clone(),
            function: ToolCallFunction {
                name: self.function.name.clone(),
                arguments: self.function.arguments.clone(),
            },
        }
    }
}

struct AccumulatedToolCall {
    id: String,
    call_type: String,
    name: String,
    arguments: String,
}

impl View for AccumulatedToolCall {
    type V = CallParts;

    closed spec fn view(&self) -> CallParts {
        CallParts {
            id: self.id@,
            call_type: self.call_type@,
            name: self.name@,
            arguments: self.arguments@,
        }
    }
}

/// Tool calls being assembled from streamed deltas, keyed by their index.
pub struct AccumulatedToolCalls {
    calls: HashMap<u32, AccumulatedToolCall>,
}

/// A call with all four fields empty.
pub open spec fn empty_call() -> CallParts {
    CallParts {
        id: Seq::empty(),
        call_type: Seq::empty(),
        name: Seq::empty(),
        arguments: Seq::empty(),
    }
}

/// The text of an optional string, if there is one.
pub open spec fn opt_text(o: Option<String>) -> Option<Seq<char>> {
    match o {
        Some(s) => Some(s@),
        None => None,
    }
}

/// The call after one delta: a given id, type or name replaces the old
/// one, given arguments are appended.
pub open spec fn merge_delta(c: CallParts, d: DeltaParts) -> CallParts {
    let (name, args) = match d.function {
        Some(f) => (f.name, f.arguments),
        None => (None, None),
    };
    CallParts {
        id: match d.id {
            Some(t) => t,
            None => c.id,
        },
        call_type: match d.call_type {
            Some(t) => t,
            None => c.call_type,
        },
        name: match name {
            Some(t) => t,
            None => c.name,
        },
        arguments: match args {
            Some(t) => c.arguments + t,
            None => c.arguments,
        },
    }
}

/// The index a delta belongs to; a missing index means 0.
pub open spec fn delta_index(d: DeltaParts) -> u32 {
    match d.index {
        Some(i) => i,
        None => 0,
    }
}

/// The calls after one delta.
pub open spec fn apply_one(m: Map<u32, CallParts>, d: DeltaParts) -> Map<u32, CallParts> {
    let k = delta_index(d);
    let c = if m.contains_key(k) { m[k] } else { empty_call() };
    m.insert(k, merge_delta(c, d))
}

/// The calls after the deltas, applied in order.
pub open spec fn apply_all(m: Map<u32, CallParts>, ds: Seq<DeltaParts>) -> Map<u32, CallParts>
    decreases ds.len(),
{
    if ds.len() == 0 {
        m
    } else {
        apply_one(apply_all(m, ds.drop_last()), ds.last())
    }
}

/// The prefix that marks a numbered call id.
pub open spec fn call_prefix() -> Seq<char> {
    seq!['c', 'a', 'l', 'l', '_']
}

/// The number after `"call_"` in an id, or 0 where there is none.
pub open spec fn call_order(id: Seq<char>) -> u32 {
    if starts_with(id, call_prefix()) {
        match parse_u32(id.skip(5)) {
            Some(n) => n,
            None => 0,
        }
    } else {
        0
    }
}

/// The calls are ordered by the number in their ids.
pub open spec fn ordered_calls(s: Seq<CallParts>) -> bool {
    forall|i: int, j: int| 0 <= i < j < s.len() ==> call_order(s[i].id) <= call_order(s[j].id)
}

/// The views of a sequence of tool calls.
pub open spec fn call_views(v: Seq<ToolCall>) -> Seq<CallParts> {
    v.map_values(|c: ToolCall| c@)
}

impl View for AccumulatedToolCalls {
    type V = Map<u32, CallParts>;

    closed spec fn view(&self) -> Map<u32, CallParts> {
        self.calls@.map_values(|c: AccumulatedToolCall| c@)
    }
}

impl AccumulatedToolCalls {
    /// No calls yet.
    pub fn new() -> (r: AccumulatedToolCalls)
        ensures
            r@ == Map::<u32, CallParts>::empty(),
    {
        let r = AccumulatedToolCalls { calls: HashMap::new() };
        assert(r@ =~= Map::<u32, CallParts>::empty());
        r
    }

    /// Whether no call has been started.
    pub fn is_empty(&self) -> (b: bool)
        ensures
            b == (self@.dom().len() == 0),
    {
        proof {
            assert(self@.dom() =~= self.calls@.dom());
        }
        self.calls.is_empty()
    }

    fn apply_single(&mut self, d: ToolCallDelta)
        ensures
            final(self)@ == apply_one(old(self)@, d@),
    {
        let ghost old_view = self@;
        let index = match d.index {
            Some(i) => i,
            None => 0,
        };
        let mut entry = match self.calls.get(&index) {
            Some(e) => AccumulatedToolCall {
                id: e.id.clone(),
                call_type: e.call_type.clone(),
                name: e.name.clone(),
                arguments: e.arguments.clone(),
            },
            None => AccumulatedToolCall {
                id: String::new(),
                call_type: String::new(),
                name: String::new(),
                arguments: String::new(),
            },
        };
        proof {
            if old_view.contains_key(index) {
                assert(entry@ == old_view[index]);
            } else {
                assert(entry@ == empty_call());
            }
        }
        let ToolCallDelta { index: _, id, call_type, function } = d;
        if let Some(id) = id {
            entry.id = id;
        }
        if let Some(t) = call_type {
            entry.call_type = t;
        }
        if let Some(func) = function {
            if let Some(name) = func.name {
                entry.name = name;
            }
            if let Some(args) = func.arguments {
                entry.arguments.append(args.as_str());
            }
        }
        self.calls.insert(index, entry);
        proof {
            assert(self@ =~= apply_one(old_view, d@));
        }
    }

    /// Applies the deltas in order to the calls they name.
    pub fn apply_delta(&mut self, deltas: Vec<ToolCallDelta>)
        ensures
            final(self)@ == apply_all(old(self)@, delta_views(deltas@)),
    {
        let ghost start = self@;
        let ghost ds = deltas@;
        for d in it: deltas
            invariant
                it.seq() == ds,
                self@ == apply_all(start, delta_views(it.seq().take(it.index()))),
        {
            assert(delta_views(it.seq().take(it.index() + 1)).drop_last() =~= delta_views(it.seq().take(it.index())));
            self.apply_single(d);
        }
        assert(ds.take(ds.len() as int) == ds);
    }
}


/// The number after `"call_"` in an id, by which calls are ordered.
pub fn call_order_of(id: &str) -> (n: u32)
    ensures
        n == call_order(id@),
{
    let v = chars_of(id);
    let p = vec!['c', 'a', 'l', 'l', '_'];
    assert(p@ == call_prefix());
    if starts_with_exec(&v, &p) {
        let rest = sub_chars(&v, 5, v.len());
        assert(rest@ == id@.skip(5));
        match parse_u32_chars(&rest) {
            Some(n) => n,
            None => 0,
        }
    } else {
        0
    }
}

/// The map's keys, each once, with the value of each key.
pub open spec fn listed_values(m: Map<u32, CallParts>, ks: Seq<u32>) -> Seq<CallParts> {
    ks.map_values(|k: u32| m[k])
}

/// `ks` lists every key of `m` exactly once.
pub open spec fn lists_keys(m: Map<u32, CallParts>, ks: Seq<u32>) -> bool {
    ks.no_duplicates() && ks.to_set() == m.dom()
}

/// `v` holds each call of `m` exactly once, ordered by the number in their
/// ids; calls with equal numbers may come in any order.
pub open spec fn lists_calls(v: Seq<CallParts>, m: Map<u32, CallParts>) -> bool {
    &&& v.len() == m.dom().len()
    &&& ordered_calls(v)
    &&& exists|ks: Seq<u32>| lists_keys(m, ks) && v.to_multiset() == listed_values(m, ks).to_multiset()
}

impl AccumulatedToolCalls {
    /// The finished calls, each accumulated call once, ordered by the
    /// number in their ids (`"call_7"` before `"call_12"`; ids without a
    /// number count as 0).  Calls with equal numbers come in no promised order.
    pub fn into_tool_calls(self) -> (r: Vec<ToolCall>)
        ensures
            lists_calls(call_views(r@), self@),
    {
        broadcast use vstd::seq_lib::group_to_multiset_ensures;

        let ghost m = self@;
        let ghost n = self@.dom().len();
        let mut out: Vec<ToolCall> = Vec::new();
        let mut orders: Vec<u32> = Vec::new();
        let ghost mut seen: Seq<u32> = Seq::empty();
        proof {
            assert(self@.dom() =~= self.calls@.dom());
        }
        for entry in it: self.calls.iter()
            invariant
                m == self@,
                n == self.calls@.dom().len(),
                self@ == self.calls@.map_values(|c: AccumulatedToolCall| c@),
                it.seq().no_duplicates(),
                it.seq().len() == n,
                forall|i: int|
                    0 <= i < it.seq().len() ==> self.calls@.contains_key(*(#[trigger] it.seq()[i]).0)
                        && self.calls@[*it.seq()[i].0] == *it.seq()[i].1,
                forall|k: u32| #[trigger]
                    self.calls@.contains_key(k) ==> it.seq().contains((&k, &self.calls@[k])),
                seen.len() == it.index(),
                forall|i: int| 0 <= i < seen.len() ==> #[trigger] seen[i] == *it.seq()[i].0,
                seen.no_duplicates(),
                forall|i: int| 0 <= i < seen.len() ==> m.contains_key(#[trigger] seen[i]),
                forall|x: u32|
                    #[trigger] self.calls@.contains_key(x) ==> seen.contains(x) || exists|j: int|
                        it.index() <= j < it.seq().len() && *it.seq()[j].0 == x,
                out@.len() == orders@.len() == it.index(),
                forall|i: int| 0 <= i < orders@.len() ==> #[trigger] orders@[i] == call_order(out@[i].id@),
                ordered_calls(call_views(out@)),
                call_views(out@).to_multiset() == listed_values(m, seen).to_multiset(),
        {
            let (k, v) = entry;
            let ghost idx = it.index();
            assert(entry == it.seq()[idx]);
            let call = ToolCall {
                id: v.id.clone(),
                call_type: v.call_type.clone(),
                function: ToolCallFunction { name: v.name.clone(), arguments: v.arguments.clone() },
            };
            assert(call@ == m[*k]);
            let key = call_order_of(call.id.as_str());
            let mut pos: usize = 0;
            while pos < orders.len() && orders[pos] <= key
                invariant
                    pos <= orders@.len(),
                    forall|j: int| 0 <= j < pos ==> #[trigger] orders@[j] <= key,
                decreases orders@.len() - pos,
            {
                pos = pos + 1;
            }
            let ghost before = call_views(out@);
            let ghost old_orders = orders@;
            let ghost old_out = out@;
            out.insert(pos, call);
            orders.insert(pos, key);
            proof {
                assert(call_views(out@) =~= before.insert(pos as int, call@));
                assert forall|i: int, j: int| 0 <= i < j < call_views(out@).len() implies call_order(
                    call_views(out@)[i].id,
                ) <= call_order(call_views(out@)[j].id) by {
                    assert(orders@[i] == call_order(out@[i].id@));
                    assert(orders@[j] == call_order(out@[j].id@));
                    if i < pos && j > pos {
                        assert(old_orders[i] <= key);
                    } else if i == pos && j > pos {
                        assert(pos < old_orders.len() ==> old_orders[pos as int] > key);
                        assert(old_orders[pos as int] <= old_orders[j - 1]) by {
                            assert(old_orders[pos as int] == call_order(old_out[pos as int].id@));
                            assert(old_orders[j - 1] == call_order(old_out[j - 1].id@));
                            assert(before[pos as int] == old_out[pos as int]@);
                            assert(before[j - 1] == old_out[j - 1]@);
                        }
                    }
                }
                vstd::seq_lib::to_multiset_insert(before, pos as int, call@);
                assert forall|i: int| 0 <= i < seen.len() implies seen[i] != *k by {
                    assert(it.seq()[i] != it.seq()[idx]);
                }
                assert(listed_values(m, seen.push(*k)) =~= listed_values(m, seen).push(m[*k]));
                vstd::seq_lib::to_multiset_build(listed_values(m, seen), m[*k]);
                let ghost old_seen = seen;
                seen = seen.push(*k);
                assert forall|x: u32| #[trigger] self.calls@.contains_key(x) implies seen.contains(x)
                    || exists|j: int| idx + 1 <= j < it.seq().len() && *it.seq()[j].0 == x by {
                    if old_seen.contains(x) {
                        let i = choose|i: int| 0 <= i < old_seen.len() && old_seen[i] == x;
                        assert(seen[i] == x);
                    } else {
                        let j = choose|j: int| idx <= j < it.seq().len() && *it.seq()[j].0 == x;
                        if j == idx {
                            assert(seen[idx] == x);
                        }
                    }
                }
            }
        }
        proof {
            assert(seen.len() == n);
            assert forall|x: u32| seen.to_set().contains(x) <==> m.dom().contains(x) by {
                if m.dom().contains(x) {
                    assert(self.calls@.contains_key(x));
                }
                if seen.to_set().contains(x) {
                    let i = choose|i: int| 0 <= i < seen.len() && seen[i] == x;
                    assert(m.contains_key(seen[i]));
                }
            }
            assert(seen.to_set() =~= m.dom());
            assert(lists_keys(m, seen));
            assert(call_views(out@).len() == out@.len());
        }
        out
    }
}


/// The prefix of a data line.
pub open spec fn data_prefix() -> Seq<char> {
    seq!['d', 'a', 't', 'a', ':', ' ']
}

/// The line that ends a stream.
pub open spec fn done_line() -> Seq<char> {
    data_prefix() + seq!['[', 'D', 'O', 'N', 'E', ']']
}

/// The payload of a server-sent-event line: the text after `"data: "` of
/// the trimmed line, except for the final `"data: [DONE]"`.
pub open spec fn sse_payload(line: Seq<char>) -> Option<Seq<char>> {
    let t = trim(line);
    if t.len() == 0 || t == done_line() {
        None
    } else if starts_with(t, data_prefix()) {
        Some(t.skip(6))
    } else {
        None
    }
}

/// The payload of a server-sent-event line, if it is a data line.
pub fn parse_sse_line(line: &str) -> (r: Option<String>)
    ensures
        opt_text(r) == sse_payload(line@),
{
    let v = chars_of(line);
    let t = trim_chars(&v);
    if t.len() == 0 {
        return None;
    }
    let prefix = vec!['d', 'a', 't', 'a', ':', ' '];
    let done = vec!['d', 'a', 't', 'a', ':', ' ', '[', 'D', 'O', 'N', 'E', ']'];
    assert(prefix@ == data_prefix());
    assert(done@ == done_line());
    if same_chars(&t, &done) {
        return None;
    }
    if starts_with_exec(&t, &prefix) {
        let rest = sub_chars(&t, 6, t.len());
        assert(rest@ == t@.skip(6));
        Some(string_of(&rest))
    } else {
        None
    }
}

/// However a stream's tool-call deltas are split into chunks, applying
/// the chunks one after the other accumulates the same calls as applying
/// all the deltas at once.
pub proof fn lemma_apply_chunks(m: Map<u32, CallParts>, a: Seq<DeltaParts>, b: Seq<DeltaParts>)
    ensures
        apply_all(apply_all(m, a), b) == apply_all(m, a + b),
    decreases b.len(),
{
    if b.len() == 0 {
        assert(a + b =~= a);
    } else {
        lemma_apply_chunks(m, a, b.drop_last());
        assert((a + b).drop_last() =~= a + b.drop_last());
        assert((a + b).last() == b.last());
    }
}

/// A data line gives back the payload a server wrote after `"data: "`
/// (a payload with no white space at its end), except the `[DONE]` that
/// ends the stream.
pub proof fn lemma_sse_data(p: Seq<char>)
    requires
        p.len() > 0,
        !crate::text::is_space(p.last()),
    ensures
        sse_payload(data_prefix() + p) == (if p == seq!['[', 'D', 'O', 'N', 'E', ']'] {
            None
        } else {
            Some(p)
        }),
{
    let line = data_prefix() + p;
    assert(line[0] == 'd');
    assert(crate::text::trim_start(line) == line);
    assert(line.last() == p.last());
    assert(crate::text::trim_end(line) == line);
    assert(trim(line) == line);
    assert(line.subrange(0, 6) =~= data_prefix());
    assert(line.skip(6) =~= p);
    if line == done_line() {
        assert(p =~= line.skip(6));
        assert(done_line().skip(6) =~= seq!['[', 'D', 'O', 'N', 'E', ']']);
    }
    if p == seq!['[', 'D', 'O', 'N', 'E', ']'] {
        assert(line =~= done_line());
    }
}

/// The argument fragments that the deltas for index `k` carry, in order.
pub open spec fn fragments(ds: Seq<DeltaParts>, k: u32) -> Seq<char>
    decreases ds.len(),
{
    if ds.len() == 0 {
        Seq::empty()
    } else {
        let d = ds.last();
        let piece = if delta_index(d) == k {
            match d.function {
                Some(f) => match f.arguments {
                    Some(t) => t,
                    None => Seq::empty(),
                },
                None => Seq::empty(),
            }
        } else {
            Seq::empty()
        };
        fragments(ds.drop_last(), k) + piece
    }
}

/// Some delta is for index `k`.
pub open spec fn mentions(ds: Seq<DeltaParts>, k: u32) -> bool {
    exists|i: int| 0 <= i < ds.len() && delta_index(#[trigger] ds[i]) == k
}

/// From nothing, a call is assembled for exactly the indexes the deltas
/// name, and its arguments are its fragments joined in arrival order.
pub proof fn lemma_arguments_accumulate(ds: Seq<DeltaParts>, k: u32)
    ensures
        apply_all(Map::empty(), ds).contains_key(k) == mentions(ds, k),
        mentions(ds, k) ==> apply_all(Map::empty(), ds)[k].arguments == fragments(ds, k),
    decreases ds.len(),
{
    if ds.len() > 0 {
        let prev = ds.drop_last();
        lemma_arguments_accumulate(prev, k);
        let d = ds.last();
        if delta_index(d) == k {
            assert(delta_index(ds[ds.len() - 1]) == k);
        } else {
            if mentions(ds, k) {
                let i = choose|i: int| 0 <= i < ds.len() && delta_index(#[trigger] ds[i]) == k;
                assert(i < ds.len() - 1);
                assert(prev[i] == ds[i]);
            }
        }
        if mentions(prev, k) {
            let i = choose|i: int| 0 <= i < prev.len() && delta_index(#[trigger] prev[i]) == k;
            assert(ds[i] == prev[i]);
        }
        if !mentions(prev, k) && delta_index(d) == k {
            assert(fragments(prev, k) =~= Seq::<char>::empty()) by {
                lemma_no_fragments(prev, k);
            }
        }
    }
}

/// Without a delta for index `k`, there are no fragments for it.
proof fn lemma_no_fragments(ds: Seq<DeltaParts>, k: u32)
    requires
        !mentions(ds, k),
    ensures
        fragments(ds, k) =~= Seq::<char>::empty(),
    decreases ds.len(),
{
    if ds.len() > 0 {
        let prev = ds.drop_last();
        if mentions(prev, k) {
            let i = choose|i: int| 0 <= i < prev.len() && delta_index(#[trigger] prev[i]) == k;
            assert(ds[i] == prev[i]);
        }
        lemma_no_fragments(prev, k);
        assert(delta_index(ds[ds.len() - 1]) != k);
    }
}

/// From nothing, the calls are empty exactly when no delta came at all,
/// even a delta with every field empty; with `lemma_apply_chunks`, this
/// holds however the deltas arrive in batches.
pub proof fn lemma_empty_iff_no_deltas(ds: Seq<DeltaParts>)
    ensures
        apply_all(Map::empty(), ds).dom().finite(),
        (apply_all(Map::empty(), ds).dom().len() == 0) <==> (ds.len() == 0),
    decreases ds.len(),
{
    broadcast use vstd::set::axiom_set_insert_finite, vstd::set::axiom_set_contains_len,
        vstd::set::axiom_set_empty_len;

    if ds.len() > 0 {
        lemma_empty_iff_no_deltas(ds.drop_last());
        let m = apply_all(Map::empty(), ds.drop_last());
        let k = delta_index(ds.last());
        assert(apply_all(Map::empty(), ds).dom() == m.dom().insert(k));
        assert(m.dom().insert(k).contains(k));
    } else {
        assert(apply_all(Map::empty(), ds).dom() =~= Set::<u32>::empty());
    }
}

/// The calls after batches of deltas, applied batch after batch.
pub open spec fn apply_batches(m: Map<u32, CallParts>, bs: Seq<Seq<DeltaParts>>) -> Map<u32, CallParts>
    decreases bs.len(),
{
    if bs.len() == 0 {
        m
    } else {
        apply_all(apply_batches(m, bs.drop_last()), bs.last())
    }
}

/// The deltas of the batches, one batch after the other.
pub open spec fn joined(bs: Seq<Seq<DeltaParts>>) -> Seq<DeltaParts>
    decreases bs.len(),
{
    if bs.len() == 0 {
        Seq::empty()
    } else {
        joined(bs.drop_last()) + bs.last()
    }
}

/// A fresh accumulator fed any batches of deltas holds no call exactly
/// when the batches held no delta at all, and holds what all the deltas
/// applied at once give.
pub proof fn lemma_batches_empty_iff_no_deltas(bs: Seq<Seq<DeltaParts>>)
    ensures
        apply_batches(Map::empty(), bs) == apply_all(Map::empty(), joined(bs)),
        (apply_batches(Map::empty(), bs).dom().len() == 0) <==> (joined(bs).len() == 0),
    decreases bs.len(),
{
    if bs.len() > 0 {
        lemma_batches_empty_iff_no_deltas(bs.drop_last());
        lemma_apply_chunks(Map::empty(), joined(bs.drop_last()), bs.last());
    }
    lemma_empty_iff_no_deltas(joined(bs));
}

} // verus!
