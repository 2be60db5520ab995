use vstd::prelude::*;
use crate::json::{
    JsonValue, JsonModel, spec_parse_json, spec_get, parse_json, string_from_chars, str_chars,
    models_of, lemma_models_of_len, lemma_models_of_index,
};
use crate::text::{spec_matches_at, matches_at, copy_range};
use crate::extract::{ToolCall, FunctionCall};

verus! {

broadcast use vstd::seq::group_seq_axioms, vstd::std_specs::vec::group_vec_axioms, vstd::string::group_string_axioms;

/// The state of one streamed completion under assembly: the text so far,
/// the tool-call fragments gathered by index, and whether the terminator
/// arrived.
pub struct StreamAccumulator {
    pub content: String,
    pub tool_calls: Vec<ToolCall>,
    pub done: bool,
}

/// The (id, name, arguments) views of the calls under assembly.
pub open spec fn stream_calls_model(calls: Seq<ToolCall>) -> Seq<(Seq<char>, Seq<char>, Seq<char>)> {
    Seq::new(
        calls.len(),
        |i: int| (calls[i].id@, calls[i].function.name@, calls[i].function.arguments@),
    )
}

/// The whole accumulator state, as one ghost triple.
pub open spec fn stream_state(
    a: StreamAccumulator,
) -> (Seq<char>, Seq<(Seq<char>, Seq<char>, Seq<char>)>, bool) {
    (a.content@, stream_calls_model(a.tool_calls@), a.done)
}

/// The value of an all-digit number text, or nothing: fragments are
/// addressed by such plain integer indices.
pub open spec fn spec_digits_val(text: Seq<char>, n: int) -> Option<int>
    decreases n,
{
    if n <= 0 {
        Some(0)
    } else if n > text.len() {
        None
    } else {
        match spec_digits_val(text, n - 1) {
            Some(v) => if '0' <= text[n - 1] && text[n - 1] <= '9' {
                Some(v * 10 + (text[n - 1] as u32 - '0' as u32))
            } else {
                None
            },
            None => None,
        }
    }
}

/// The index a delta fragment addresses: its `index` field read as an
/// unsigned integer no larger than the counter's ceiling, or zero.
pub open spec fn spec_delta_index(call: JsonModel) -> int {
    match spec_get(call, "index"@) {
        Some(JsonModel::Num { text }) => if text.len() > 0 {
            match spec_digits_val(text, text.len() as int) {
                Some(v) => if v <= 0x7fff_ffff {
                    v
                } else {
                    0
                },
                None => 0,
            }
        } else {
            0
        },
        _ => 0,
    }
}

/// One blank call, the filler used when an index beyond the current list
/// arrives.
pub open spec fn spec_blank_call() -> (Seq<char>, Seq<char>, Seq<char>) {
    (Seq::<char>::empty(), Seq::<char>::empty(), Seq::<char>::empty())
}

/// The call list grown so that `idx` is a valid position.
pub open spec fn spec_grown(
    calls: Seq<(Seq<char>, Seq<char>, Seq<char>)>,
    idx: int,
) -> Seq<(Seq<char>, Seq<char>, Seq<char>)>
    decreases idx + 1 - calls.len(),
{
    if idx < calls.len() {
        calls
    } else {
        spec_grown(calls.push(spec_blank_call()), idx)
    }
}

/// One delta fragment applied to the call list: the entry at its index
/// takes the fragment's id and name when they are given, and its argument
/// text is appended.
pub open spec fn spec_apply_fragment(
    calls: Seq<(Seq<char>, Seq<char>, Seq<char>)>,
    call: JsonModel,
) -> Seq<(Seq<char>, Seq<char>, Seq<char>)> {
    let idx = spec_delta_index(call);
    let grown = spec_grown(calls, idx);
    let cur = grown[idx];
    let with_id = match spec_get(call, "id"@) {
        Some(JsonModel::Str { text }) => (text, cur.1, cur.2),
        _ => cur,
    };
    let with_name = match crate::extract::spec_get2(call, "function"@, "name"@) {
        Some(JsonModel::Str { text }) => (with_id.0, text, with_id.2),
        _ => with_id,
    };
    let with_args = match crate::extract::spec_get2(call, "function"@, "arguments"@) {
        Some(JsonModel::Str { text }) => (with_name.0, with_name.1, with_name.2 + text),
        _ => with_name,
    };
    grown.update(idx, with_args)
}

/// The first `n` fragments of a delta's call array applied in order.
pub open spec fn spec_apply_fragments(
    calls: Seq<(Seq<char>, Seq<char>, Seq<char>)>,
    items: Seq<JsonModel>,
    n: int,
) -> Seq<(Seq<char>, Seq<char>, Seq<char>)>
    decreases n,
{
    if n <= 0 {
        calls
    } else {
        spec_apply_fragment(spec_apply_fragments(calls, items, n - 1), items[n - 1])
    }
}

/// The first element of a JSON array, if the value is a non-empty array.
pub open spec fn spec_first_elem(m: JsonModel) -> Option<JsonModel> {
    match m {
        JsonModel::Arr { items } => if items.len() > 0 {
            Some(items[0])
        } else {
            None
        },
        _ => None,
    }
}

/// The delta object of one stream increment: `choices[0].delta`, when it
/// is an object.
pub open spec fn spec_delta_of(m: JsonModel) -> Option<JsonModel> {
    match spec_get(m, "choices"@) {
        Some(choices) => match spec_first_elem(choices) {
            Some(first) => match spec_get(first, "delta"@) {
                Some(delta) => if delta is Obj {
                    Some(delta)
                } else {
                    None
                },
                None => None,
            },
            None => None,
        },
        None => None,
    }
}

/// One line of the event stream applied to the accumulator state. Only
/// `data: ` lines matter; the terminator closes the stream; a payload
/// that fails to parse, or carries no delta object, changes nothing.
pub open spec fn spec_feed_line(
    state: (Seq<char>, Seq<(Seq<char>, Seq<char>, Seq<char>)>, bool),
    line: Seq<char>,
) -> (Seq<char>, Seq<(Seq<char>, Seq<char>, Seq<char>)>, bool) {
    if state.2 || !spec_matches_at(line, 0, "data: "@) {
        state
    } else {
        let data = line.skip("data: "@.len() as int);
        if data == "[DONE]"@ {
            (state.0, state.1, true)
        } else {
            match spec_parse_json(data) {
                None => state,
                Some(m) => match spec_delta_of(m) {
                    None => state,
                    Some(delta) => {
                        let content = match spec_get(delta, "content"@) {
                            Some(JsonModel::Str { text }) => state.0 + text,
                            _ => state.0,
                        };
                        let calls = match spec_get(delta, "tool_calls"@) {
                            Some(JsonModel::Arr { items }) => spec_apply_fragments(
                                state.1,
                                items,
                                items.len() as int,
                            ),
                            _ => state.1,
                        };
                        (content, calls, false)
                    }
                },
            }
        }
    }
}

impl StreamAccumulator {
    /// A fresh accumulator: no text, no calls, stream open.
    pub fn new() -> (r: StreamAccumulator)
        ensures
            r.content@ == Seq::<char>::empty(),
            r.tool_calls@.len() == 0,
            !r.done,
    {
        StreamAccumulator { content: string_from_chars(&Vec::new()), tool_calls: Vec::new(), done: false }
    }

    /// Feed one line of the stream.
    pub fn feed_line(&mut self, line: &str)
        ensures
            stream_state(*final(self)) == spec_feed_line(stream_state(*old(self)), line@),
    {
        proof {
            reveal_strlit("data: ");
            reveal_strlit("[DONE]");
        }
        let cs = str_chars(line);
        let prefix = str_chars("data: ");
        if self.done || !matches_at(&cs, 0, &prefix) {
            return;
        }
        let data = copy_range(&cs, 6, cs.len());
        proof {
            assert(data@ =~= line@.skip(6));
        }
        if crate::agent::chars_eq_lit(&data, "[DONE]") {
            self.done = true;
            return;
        }
        let parsed = parse_json(string_from_chars(&data).as_str());
        let m = match parsed {
            Some(m) => m,
            None => {
                return;
            }
        };
        let delta = match self.delta_of(&m) {
            Some(d) => d,
            None => {
                return;
            }
        };
        match delta.get("content") {
            Some(c) => match c.as_str() {
                Some(text) => {
                    let mut combined = str_chars(self.content.as_str());
                    let mut added = str_chars(text.as_str());
                    combined.append(&mut added);
                    self.content = string_from_chars(&combined);
                }
                None => {
                }
            },
            None => {
            }
        }
        let ghost new_content = self.content@;
        match delta.get("tool_calls") {
            Some(tc) => {
                match tc {
                    JsonValue::Arr(items) => {
                        let ghost items_m = models_of(items@);
                        proof {
                            lemma_models_of_len(items@);
                        }
                        let n = items.len();
                        let mut i: usize = 0;
                        while i < n
                            invariant
                                i <= n,
                                n == items@.len(),
                                *tc == JsonValue::Arr(*items),
                                items_m == models_of(items@),
                                items_m.len() == n,
                                self.content@ == new_content,
                                self.done == old(self).done,
                                stream_calls_model(self.tool_calls@) == spec_apply_fragments(
                                    stream_calls_model(old(self).tool_calls@),
                                    items_m,
                                    i as int,
                                ),
                            decreases n - i,
                        {
                            proof {
                                lemma_models_of_index(items@, i as int);
                            }
                            apply_fragment(&mut self.tool_calls, &items[i]);
                            i = i + 1;
                        }
                    }
                    _ => {
                    }
                }
            }
            None => {
            }
        }
    }

    fn delta_of<'a>(&self, m: &'a JsonValue) -> (r: Option<&'a JsonValue>)
        ensures
            match (r, spec_delta_of(m.model())) {
                (Some(d), Some(sd)) => d.model() == sd,
                (None, None) => true,
                _ => false,
            },
    {
        match m.get("choices") {
            Some(choices) => match choices {
                JsonValue::Arr(items) => {
                    if items.len() > 0 {
                        proof {
                            lemma_models_of_len(items@);
                            lemma_models_of_index(items@, 0);
                        }
                        match items[0].get("delta") {
                            Some(delta) => {
                                if delta.is_object() {
                                    Some(delta)
                                } else {
                                    None
                                }
                            }
                            None => None,
                        }
                    } else {
                        proof {
                            lemma_models_of_len(items@);
                        }
                        None
                    }
                }
                _ => None,
            },
            None => None,
        }
    }
}

/// Parse an all-digit text as an unsigned counter, zero on anything else
/// or on a value beyond the ceiling.
fn digits_index(text: &str) -> (r: u64)
    ensures
        r as int == ({
            let t = text@;
            if t.len() > 0 {
                match spec_digits_val(t, t.len() as int) {
                    Some(v) => if v <= 0x7fff_ffff {
                        v
                    } else {
                        0
                    },
                    None => 0int,
                }
            } else {
                0int
            }
        }),
        r <= 0x7fff_ffff,
{
    let cs = str_chars(text);
    let n = cs.len();
    if n == 0 {
        return 0;
    }
    let mut v: u128 = 0;
    let mut i: usize = 0;
    while i < n
        invariant
            i <= n,
            n == cs@.len(),
            cs@ == text@,
            Some(v as int) == spec_digits_val(cs@, i as int),
            v <= 0xffff_ffff_ffff_ffff_ffff_ffff,
        decreases n - i,
    {
        let c = cs[i];
        if !('0' <= c && c <= '9') {
            proof {
                lemma_digits_val_none(cs@, i as int, n as int);
            }
            return 0;
        }
        if v > 0x7fff_ffff {
            proof {
                lemma_digits_val_grows(cs@, i as int, n as int, v as int);
            }
            return 0;
        }
        let d: u128 = (c as u32) as u128 - 48;
        v = v * 10 + d;
        i = i + 1;
    }
    if v <= 0x7fff_ffff {
        v as u64
    } else {
        0
    }
}

/// A prefix that is no number leaves every longer reading without a value.
proof fn lemma_digits_val_none(t: Seq<char>, i: int, n: int)
    requires
        0 <= i < n <= t.len(),
        !('0' <= t[i] && t[i] <= '9'),
    ensures
        spec_digits_val(t, n) is None,
    decreases n,
{
    if n - 1 > i {
        lemma_digits_val_none(t, i, n - 1);
    }
}

/// Digit values never shrink as more digits are read.
proof fn lemma_digits_val_grows(t: Seq<char>, i: int, n: int, v: int)
    requires
        0 <= i <= n <= t.len(),
        0 <= v,
        spec_digits_val(t, i) == Some(v),
    ensures
        match spec_digits_val(t, n) {
            Some(w) => w >= v,
            None => true,
        },
    decreases n - i,
{
    if n > i {
        lemma_digits_val_grows(t, i, n - 1, v);
        match spec_digits_val(t, n - 1) {
            Some(w) => {
                assert(w >= v);
                if '0' <= t[n - 1] && t[n - 1] <= '9' {
                    assert(w * 10 >= w);
                }
            }
            None => {
            }
        }
    }
}

/// Apply one delta fragment to the call list under assembly.
fn apply_fragment(calls: &mut Vec<ToolCall>, call: &JsonValue)
    ensures
        stream_calls_model(final(calls)@) == spec_apply_fragment(
            stream_calls_model(old(calls)@),
            call.model(),
        ),
{
    let idx64: u64 = match call.get("index") {
        Some(v) => match v {
            JsonValue::Num(text) => digits_index(text.as_str()),
            _ => 0,
        },
        None => 0,
    };
    proof {
        assert(idx64 as int == spec_delta_index(call.model()));
    }
    let idx: usize = idx64 as usize;
    while calls.len() <= idx
        invariant
            spec_grown(stream_calls_model(old(calls)@), idx as int) == spec_grown(
                stream_calls_model(calls@),
                idx as int,
            ),
        decreases idx + 1 - calls@.len(),
    {
        let ghost pre = stream_calls_model(calls@);
        calls.push(ToolCall {
            id: string_from_chars(&Vec::new()),
            tool_type: string_from_chars(&str_chars("function")),
            function: FunctionCall {
                name: string_from_chars(&Vec::new()),
                arguments: string_from_chars(&Vec::new()),
            },
        });
        proof {
            assert(stream_calls_model(calls@) =~= pre.push(spec_blank_call()));
        }
    }
    let ghost grown = stream_calls_model(calls@);
    proof {
        assert(spec_grown(grown, idx as int) == grown);
        assert(grown == spec_grown(stream_calls_model(old(calls)@), idx as int));
    }
    let mut entry = calls.remove(idx);
    match call.get("id") {
        Some(v) => match v.as_str() {
            Some(s) => {
                entry.id = s.clone();
            }
            None => {
            }
        },
        None => {
        }
    }
    match crate::extract::get2(call, "function", "name") {
        Some(v) => match v.as_str() {
            Some(s) => {
                entry.function.name = s.clone();
            }
            None => {
            }
        },
        None => {
        }
    }
    match crate::extract::get2(call, "function", "arguments") {
        Some(v) => match v.as_str() {
            Some(s) => {
                let mut combined = str_chars(entry.function.arguments.as_str());
                let mut added = str_chars(s.as_str());
                combined.append(&mut added);
                entry.function.arguments = string_from_chars(&combined);
            }
            None => {
            }
        },
        None => {
        }
    }
    calls.insert(idx, entry);
    proof {
        assert(stream_calls_model(calls@) =~= grown.update(
            idx as int,
            stream_calls_model(calls@)[idx as int],
        ));
        assert(stream_calls_model(calls@) =~= spec_apply_fragment(
            stream_calls_model(old(calls)@),
            call.model(),
        ));
    }
}

} // verus!
