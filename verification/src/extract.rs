use vstd::prelude::*;
use crate::json::{
    JsonValue, JsonModel, spec_get, spec_json_text, spec_parse_stream, spec_parse_json,
    spec_skip_ws, parse_stream, json_to_string, string_from_chars, str_chars,
    skip_ws, models_of, lemma_models_of_len, lemma_models_of_index,
};
use crate::text::{
    spec_find, spec_matches_at, spec_contains, spec_lower_seq, spec_trim_range, spec_call_id,
    find_from, matches_at, contains_pat, lower_vec, trim_range, make_call_id, copy_range,
};

verus! {

broadcast use vstd::seq::group_seq_axioms, vstd::std_specs::vec::group_vec_axioms, vstd::string::group_string_axioms;

/// A tool invocation requested by the model.
#[derive(Debug, Clone)]
pub struct ToolCall {
    pub id: String,
    pub tool_type: String,
    pub function: FunctionCall,
}

/// The name and JSON argument text of one requested invocation.
#[derive(Debug, Clone)]
pub struct FunctionCall {
    pub name: String,
    pub arguments: String,
}

/// The (name, argument text) pairs that a list of tool calls carries.
pub open spec fn calls_model(calls: Seq<ToolCall>) -> Seq<(Seq<char>, Seq<char>)> {
    Seq::new(calls.len(), |i: int| (calls[i].function.name@, calls[i].function.arguments@))
}

/// Every call in the list carries the synthetic id for its position (from
/// `base` on) and the `"function"` call type.
pub open spec fn calls_well_formed(calls: Seq<ToolCall>, base: int) -> bool {
    forall|i: int| 0 <= i < calls.len() ==> (#[trigger] calls[i]).id@ == spec_call_id(
        (base + i) as nat,
    ) && calls[i].tool_type@ == "function"@
}

/// The first of the given values that is present.
pub open spec fn spec_first_present(
    a: Option<JsonModel>,
    b: Option<JsonModel>,
    c: Option<JsonModel>,
) -> Option<JsonModel> {
    if a is Some {
        a
    } else if b is Some {
        b
    } else {
        c
    }
}

/// A field of a field of an object.
pub open spec fn spec_get2(m: JsonModel, k1: Seq<char>, k2: Seq<char>) -> Option<JsonModel> {
    match spec_get(m, k1) {
        Some(f) => spec_get(f, k2),
        None => None,
    }
}

/// The argument text taken from an argument value: objects and arrays are
/// re-serialized, strings are taken as they are, other values are written
/// as JSON, and a missing value becomes the empty object.
pub open spec fn spec_args_text(v: Option<JsonModel>) -> Seq<char> {
    match v {
        Some(JsonModel::Str { text }) => text,
        Some(m) => spec_json_text(m),
        None => seq!['{', '}'],
    }
}

/// The call denoted by one JSON object, under the bracket-block key set:
/// the name is the first of `tool`, `name`, `function.name` that is
/// present, and must be a string; the arguments come from the first of
/// `args`, `arguments`, `function.arguments` that is present.
pub open spec fn spec_obj_call(m: JsonModel) -> Option<(Seq<char>, Seq<char>)> {
    let name_val = spec_first_present(
        spec_get(m, "tool"@),
        spec_get(m, "name"@),
        spec_get2(m, "function"@, "name"@),
    );
    match name_val {
        Some(JsonModel::Str { text: name }) => {
            let args_val = spec_first_present(
                spec_get(m, "args"@),
                spec_get(m, "arguments"@),
                spec_get2(m, "function"@, "arguments"@),
            );
            Some((name, spec_args_text(args_val)))
        }
        _ => None,
    }
}

/// The calls denoted by the elements of a JSON array, in order.
pub open spec fn spec_objs_calls(items: Seq<JsonModel>) -> Seq<(Seq<char>, Seq<char>)>
    decreases items.len(),
{
    if items.len() == 0 {
        Seq::<(Seq<char>, Seq<char>)>::empty()
    } else {
        (match spec_obj_call(items[0]) {
            Some(c) => seq![c],
            None => Seq::<(Seq<char>, Seq<char>)>::empty(),
        }) + spec_objs_calls(items.drop_first())
    }
}

/// The calls denoted by one parsed JSON value: an array fans out to its
/// elements, anything else is treated as a single call object.
pub open spec fn spec_value_calls(m: JsonModel) -> Seq<(Seq<char>, Seq<char>)> {
    match m {
        JsonModel::Arr { items } => spec_objs_calls(items),
        _ => match spec_obj_call(m) {
            Some(c) => seq![c],
            None => Seq::<(Seq<char>, Seq<char>)>::empty(),
        },
    }
}

/// The calls denoted by a stream of parsed JSON values.
pub open spec fn spec_stream_calls(vals: Seq<JsonModel>) -> Seq<(Seq<char>, Seq<char>)>
    decreases vals.len(),
{
    if vals.len() == 0 {
        Seq::<(Seq<char>, Seq<char>)>::empty()
    } else {
        spec_value_calls(vals[0]) + spec_stream_calls(vals.drop_first())
    }
}

pub fn get2<'a>(v: &'a JsonValue, k1: &str, k2: &str) -> (r: Option<&'a JsonValue>)
    ensures
        match (r, spec_get2(v.model(), k1@, k2@)) {
            (Some(f), Some(m)) => f.model() == m,
            (None, None) => true,
            _ => false,
        },
{
    match v.get(k1) {
        Some(f) => f.get(k2),
        None => None,
    }
}

fn args_text(v: Option<&JsonValue>) -> (r: String)
    ensures
        r@ == spec_args_text(
            match v {
                Some(j) => Some(j.model()),
                None => None,
            },
        ),
{
    match v {
        Some(j) => match j.as_str() {
            Some(s) => s.clone(),
            None => json_to_string(j),
        },
        None => {
            let mut cs: Vec<char> = Vec::new();
            cs.push('{');
            cs.push('}');
            proof {
                assert(cs@ =~= seq!['{', '}']);
            }
            string_from_chars(&cs)
        }
    }
}

/// The call denoted by one JSON object, if it names a tool.
fn obj_call(v: &JsonValue) -> (r: Option<(String, String)>)
    ensures
        match (r, spec_obj_call(v.model())) {
            (Some(c), Some(sc)) => c.0@ == sc.0 && c.1@ == sc.1,
            (None, None) => true,
            _ => false,
        },
{
    let name_val: Option<&JsonValue> = match v.get("tool") {
        Some(n) => Some(n),
        None => match v.get("name") {
            Some(n) => Some(n),
            None => get2(v, "function", "name"),
        },
    };
    match name_val {
        Some(nv) => match nv.as_str() {
            Some(name) => {
                let args_val: Option<&JsonValue> = match v.get("args") {
                    Some(a) => Some(a),
                    None => match v.get("arguments") {
                        Some(a) => Some(a),
                        None => get2(v, "function", "arguments"),
                    },
                };
                Some((name.clone(), args_text(args_val)))
            }
            None => None,
        },
        None => None,
    }
}

/// The calls denoted by one parsed JSON value.
fn value_calls(v: &JsonValue) -> (r: Vec<(String, String)>)
    ensures
        pairs_model(r@) == spec_value_calls(v.model()),
{
    match v {
        JsonValue::Arr(items) => {
            let ghost ms = models_of(items@);
            proof {
                lemma_models_of_len(items@);
            }
            let n = items.len();
            let mut out: Vec<(String, String)> = Vec::new();
            let mut i: usize = 0;
            while i < n
                invariant
                    i <= n,
                    n == items@.len(),
                    *v == JsonValue::Arr(*items),
                    ms == models_of(items@),
                    ms.len() == n,
                    pairs_model(out@) == spec_objs_calls_to(ms, i as int),
                decreases n - i,
            {
                proof {
                    lemma_models_of_index(items@, i as int);
                }
                match obj_call(&items[i]) {
                    Some(c) => {
                        out.push(c);
                    }
                    None => {
                    }
                }
                proof {
                    lemma_objs_calls_to_step(ms, i as int);
                    assert(pairs_model(out@) =~= spec_objs_calls_to(ms, (i + 1) as int));
                }
                i = i + 1;
            }
            proof {
                lemma_objs_calls_to_all(ms);
            }
            out
        }
        _ => {
            let mut out: Vec<(String, String)> = Vec::new();
            match obj_call(v) {
                Some(c) => {
                    out.push(c);
                }
                None => {
                }
            }
            proof {
                assert(pairs_model(out@) =~= spec_value_calls(v.model()));
            }
            out
        }
    }
}

/// The (name, argument) views of a pair list.
pub open spec fn pairs_model(pairs: Seq<(String, String)>) -> Seq<(Seq<char>, Seq<char>)> {
    Seq::new(pairs.len(), |i: int| (pairs[i].0@, pairs[i].1@))
}

/// The calls of the first `n` array elements.
pub open spec fn spec_objs_calls_to(items: Seq<JsonModel>, n: int) -> Seq<(Seq<char>, Seq<char>)>
    decreases n,
{
    if n <= 0 {
        Seq::<(Seq<char>, Seq<char>)>::empty()
    } else {
        spec_objs_calls_to(items, n - 1) + (match spec_obj_call(items[n - 1]) {
            Some(c) => seq![c],
            None => Seq::<(Seq<char>, Seq<char>)>::empty(),
        })
    }
}

proof fn lemma_objs_calls_to_step(items: Seq<JsonModel>, i: int)
    requires
        0 <= i,
    ensures
        spec_objs_calls_to(items, i + 1) == spec_objs_calls_to(items, i) + (
        match spec_obj_call(items[i]) {
            Some(c) => seq![c],
            None => Seq::<(Seq<char>, Seq<char>)>::empty(),
        }),
{
}

proof fn lemma_objs_calls_to_all(items: Seq<JsonModel>)
    ensures
        spec_objs_calls_to(items, items.len() as int) == spec_objs_calls(items),
    decreases items.len(),
{
    if items.len() > 0 {
        lemma_objs_calls_to_all(items.drop_first());
        lemma_objs_calls_to_prefix(items, items.len() - 1);
        let first = (match spec_obj_call(items[0]) {
            Some(c) => seq![c],
            None => Seq::<(Seq<char>, Seq<char>)>::empty(),
        });
        assert(spec_objs_calls_to(items, 0) =~= Seq::<(Seq<char>, Seq<char>)>::empty());
        assert(spec_objs_calls_to(items, 1) =~= first);
        assert(spec_objs_calls(items) == first + spec_objs_calls(items.drop_first()));
        assert(spec_objs_calls_to(items, items.len() as int) =~= spec_objs_calls(items));
    }
}

proof fn lemma_objs_calls_to_prefix(items: Seq<JsonModel>, n: int)
    requires
        0 <= n <= items.len() - 1,
    ensures
        spec_objs_calls_to(items, n + 1) == spec_objs_calls_to(items, 1) + spec_objs_calls_to(
            items.drop_first(),
            n,
        ),
    decreases n,
{
    if n > 0 {
        lemma_objs_calls_to_prefix(items, n - 1);
        assert(items.drop_first()[n - 1] == items[n]);
        assert(spec_objs_calls_to(items, n + 1) =~= spec_objs_calls_to(items, 1)
            + spec_objs_calls_to(items.drop_first(), n));
    } else {
        assert(spec_objs_calls_to(items.drop_first(), 0)
            =~= Seq::<(Seq<char>, Seq<char>)>::empty());
        assert(spec_objs_calls_to(items, 1) =~= spec_objs_calls_to(items, 1)
            + Seq::<(Seq<char>, Seq<char>)>::empty());
    }
}

/// The earlier of two find results, where -1 means not found.
pub open spec fn spec_pick_first(p1: int, p2: int) -> int {
    if p1 < 0 {
        p2
    } else if p2 < 0 {
        p1
    } else if p1 <= p2 {
        p1
    } else {
        p2
    }
}

/// The first opening tool tag at or after `from` on the lower-cased text:
/// the tag's start and the position just after it.
pub open spec fn spec_open_at(lows: Seq<char>, from: int) -> Option<(int, int)> {
    let pl = spec_find(lows, "[tool_call]"@, from);
    let ps = spec_find(lows, "[tool]"@, from);
    let p = spec_pick_first(pl, ps);
    if p < 0 {
        None
    } else if p == pl {
        Some((p, p + "[tool_call]"@.len()))
    } else {
        Some((p, p + "[tool]"@.len()))
    }
}

/// The first closing tool tag at or after `from`.
pub open spec fn spec_close_at(lows: Seq<char>, from: int) -> Option<(int, int)> {
    let pl = spec_find(lows, "[/tool_call]"@, from);
    let ps = spec_find(lows, "[/tool]"@, from);
    let p = spec_pick_first(pl, ps);
    if p < 0 {
        None
    } else if p == pl {
        Some((p, p + "[/tool_call]"@.len()))
    } else {
        Some((p, p + "[/tool]"@.len()))
    }
}

/// The calls of one bracketed block: the block is read as a stream of JSON
/// values if at least one parses; otherwise the legacy key-value grammar is
/// tried.
pub open spec fn spec_block_calls(block: Seq<char>) -> Seq<(Seq<char>, Seq<char>)> {
    let vals = spec_parse_stream(block, 0);
    if vals.len() > 0 {
        spec_stream_calls(vals)
    } else {
        match spec_legacy_call(block) {
            Some(c) => seq![c],
            None => Seq::<(Seq<char>, Seq<char>)>::empty(),
        }
    }
}

/// The calls of every bracketed `[TOOL]`/`[TOOL_CALL]` block at or after
/// `from`, in text order. Tags are matched case-insensitively on the
/// lower-cased copy; block contents keep their case.
pub open spec fn spec_blocks_calls(cs: Seq<char>, lows: Seq<char>, from: int) -> Seq<
    (Seq<char>, Seq<char>),
>
    decreases cs.len() - from,
{
    if from < 0 || from > cs.len() {
        Seq::<(Seq<char>, Seq<char>)>::empty()
    } else {
        match spec_open_at(lows, from) {
            None => Seq::<(Seq<char>, Seq<char>)>::empty(),
            Some(open) => {
                let cst = open.1;
                if !(from <= open.0 && open.0 < cst && cst <= cs.len()) {
                    Seq::<(Seq<char>, Seq<char>)>::empty()
                } else {
                    match spec_close_at(lows, cst) {
                        None => Seq::<(Seq<char>, Seq<char>)>::empty(),
                        Some(close) => {
                            if !(cst <= close.0 && close.0 < close.1 && close.1 <= cs.len()) {
                                Seq::<(Seq<char>, Seq<char>)>::empty()
                            } else {
                                spec_block_calls(spec_trim_range(cs, cst, close.0))
                                    + spec_blocks_calls(cs, lows, close.1)
                            }
                        }
                    }
                }
            }
        }
    }
}

// ------------------------------------------------------------------
// The legacy key-value grammar: `tool => "name"` with `args => { ... }`.
// ------------------------------------------------------------------

/// The position just after `kw`, optional whitespace and `=>` or `:`, if
/// they all stand at `i`; -1 otherwise.
pub open spec fn spec_after_keyword(bl: Seq<char>, i: int, kw: Seq<char>) -> int {
    if !spec_matches_at(bl, i, kw) {
        -1
    } else {
        let q = spec_skip_ws(bl, i + kw.len());
        if spec_matches_at(bl, q, seq!['=', '>']) {
            q + 2
        } else if 0 <= q && q < bl.len() && bl[q] == ':' {
            q + 1
        } else {
            -1
        }
    }
}

/// A quoted, non-empty capture after optional whitespace at `after`,
/// taken from the original (not lower-cased) text.
pub open spec fn spec_quoted_capture(block: Seq<char>, bl: Seq<char>, after: int) -> Option<
    Seq<char>,
> {
    if after < 0 {
        None
    } else {
        let q2 = spec_skip_ws(bl, after);
        if 0 <= q2 && q2 < bl.len() && bl[q2] == '"' {
            let e = spec_find(bl, seq!['"'], q2 + 1);
            if e >= q2 + 2 {
                Some(block.subrange(q2 + 1, e))
            } else {
                None
            }
        } else {
            None
        }
    }
}

/// The tool name captured by the legacy name pattern at position `i`.
pub open spec fn spec_name_at(block: Seq<char>, bl: Seq<char>, i: int) -> Option<Seq<char>> {
    let a1 = spec_after_keyword(bl, i, "tool"@);
    let a2 = spec_after_keyword(bl, i, "name"@);
    let a = if a1 >= 0 { a1 } else { a2 };
    spec_quoted_capture(block, bl, a)
}

/// The first legacy name capture at or after `i`.
pub open spec fn spec_first_name(block: Seq<char>, bl: Seq<char>, i: int) -> Option<Seq<char>>
    decreases bl.len() - i,
{
    if i < 0 || i >= bl.len() {
        None
    } else {
        match spec_name_at(block, bl, i) {
            Some(nm) => Some(nm),
            None => spec_first_name(block, bl, i + 1),
        }
    }
}

/// The braced args capture of the legacy args pattern at position `i`:
/// from the opening brace to the first closing brace.
pub open spec fn spec_args_at(block: Seq<char>, bl: Seq<char>, i: int) -> Option<Seq<char>> {
    let a1 = spec_after_keyword(bl, i, "args"@);
    let a2 = spec_after_keyword(bl, i, "arguments"@);
    let a = if a1 >= 0 { a1 } else { a2 };
    if a < 0 {
        None
    } else {
        let q2 = spec_skip_ws(bl, a);
        if 0 <= q2 && q2 < bl.len() && bl[q2] == '{' {
            let e = spec_find(bl, seq!['}'], q2 + 1);
            if e >= q2 + 1 {
                Some(block.subrange(q2, e + 1))
            } else {
                None
            }
        } else {
            None
        }
    }
}

/// The first legacy args capture at or after `i`.
pub open spec fn spec_first_args(block: Seq<char>, bl: Seq<char>, i: int) -> Option<Seq<char>>
    decreases bl.len() - i,
{
    if i < 0 || i >= bl.len() {
        None
    } else {
        match spec_args_at(block, bl, i) {
            Some(t) => Some(t),
            None => spec_first_args(block, bl, i + 1),
        }
    }
}

/// An ASCII word character, as in the legacy `key => "value"` pairs.
pub open spec fn spec_is_word(c: char) -> bool {
    ('a' <= c && c <= 'z') || ('A' <= c && c <= 'Z') || ('0' <= c && c <= '9') || c == '_'
}

/// The end of the word run starting at `i`.
pub open spec fn spec_word_end(s: Seq<char>, i: int) -> int
    decreases s.len() - i,
{
    if 0 <= i && i < s.len() && spec_is_word(s[i]) {
        spec_word_end(s, i + 1)
    } else {
        i
    }
}

/// One `key => "value"` pair at position `i`: the key, the value (possibly
/// empty), and the position after the closing quote.
pub open spec fn spec_kv_at(s: Seq<char>, i: int) -> Option<(Seq<char>, Seq<char>, int)> {
    if i < 0 || i >= s.len() || !spec_is_word(s[i]) {
        None
    } else {
        let e1 = spec_word_end(s, i);
        let a = {
            let q = spec_skip_ws(s, e1);
            if spec_matches_at(s, q, seq!['=', '>']) {
                q + 2
            } else if 0 <= q && q < s.len() && s[q] == ':' {
                q + 1
            } else {
                -1
            }
        };
        if a < 0 {
            None
        } else {
            let q2 = spec_skip_ws(s, a);
            if 0 <= q2 && q2 < s.len() && s[q2] == '"' {
                let e2 = spec_find(s, seq!['"'], q2 + 1);
                if e2 >= q2 + 1 {
                    Some((s.subrange(i, e1), s.subrange(q2 + 1, e2), e2 + 1))
                } else {
                    None
                }
            } else {
                None
            }
        }
    }
}

/// All `key => "value"` pairs found from `i` on, left to right.
pub open spec fn spec_kvs(s: Seq<char>, i: int) -> Seq<(Seq<char>, Seq<char>)>
    decreases s.len() - i,
{
    if i < 0 || i >= s.len() {
        Seq::<(Seq<char>, Seq<char>)>::empty()
    } else {
        match spec_kv_at(s, i) {
            Some(kv) => if kv.2 > i && kv.2 <= s.len() {
                seq![(kv.0, kv.1)] + spec_kvs(s, kv.2)
            } else {
                seq![(kv.0, kv.1)]
            },
            None => spec_kvs(s, i + 1),
        }
    }
}

/// Set a field of an object: a present key keeps its place and takes the
/// new value; a new key is appended.
pub open spec fn spec_obj_set(
    fields: Seq<(Seq<char>, JsonModel)>,
    k: Seq<char>,
    v: JsonModel,
) -> Seq<(Seq<char>, JsonModel)>
    decreases fields.len(),
{
    if fields.len() == 0 {
        seq![(k, v)]
    } else if fields[0].0 == k {
        seq![(k, v)] + fields.drop_first()
    } else {
        seq![fields[0]] + spec_obj_set(fields.drop_first(), k, v)
    }
}

/// The object holding the given pairs as string fields, later values
/// overwriting earlier ones in place.
pub open spec fn spec_kv_obj(pairs: Seq<(Seq<char>, Seq<char>)>) -> Seq<(Seq<char>, JsonModel)>
    decreases pairs.len(),
{
    if pairs.len() == 0 {
        Seq::<(Seq<char>, JsonModel)>::empty()
    } else {
        spec_obj_set(
            spec_kv_obj(pairs.drop_last()),
            pairs.last().0,
            JsonModel::Str { text: pairs.last().1 },
        )
    }
}

/// The call of the legacy key-value grammar, if a name capture exists: the
/// args capture is re-serialized if it is valid JSON, and otherwise mined
/// for individual `key => "value"` pairs.
pub open spec fn spec_legacy_call(block: Seq<char>) -> Option<(Seq<char>, Seq<char>)> {
    let bl = spec_lower_seq(block);
    match spec_first_name(block, bl, 0) {
        None => None,
        Some(nm) => {
            let atext = match spec_first_args(block, bl, 0) {
                Some(t) => t,
                None => seq!['{', '}'],
            };
            let args = match spec_parse_json(atext) {
                Some(m) => spec_json_text(m),
                None => spec_json_text(JsonModel::Obj { fields: spec_kv_obj(spec_kvs(atext, 0)) }),
            };
            Some((nm, args))
        }
    }
}

// ------------------------------------------------------------------
// The raw fallback: bare `{"tool": ...}` objects without any marker.
// ------------------------------------------------------------------

/// The position just after a `"tool"`, optional whitespace, `:`, optional
/// whitespace, `"` pattern starting at `p`; -1 if it does not stand there.
pub open spec fn spec_raw_pat_end(cs: Seq<char>, p: int) -> int {
    if !spec_matches_at(cs, p, "\"tool\""@) {
        -1
    } else {
        let q = spec_skip_ws(cs, p + "\"tool\""@.len());
        if 0 <= q && q < cs.len() && cs[q] == ':' {
            let q2 = spec_skip_ws(cs, q + 1);
            if 0 <= q2 && q2 < cs.len() && cs[q2] == '"' {
                q2 + 1
            } else {
                -1
            }
        } else {
            -1
        }
    }
}

/// Scan backwards from `i` for an opening brace, giving up at a closing
/// one.
pub open spec fn spec_backscan(cs: Seq<char>, i: int) -> int
    decreases i,
{
    if i <= 0 || i > cs.len() {
        -1
    } else if cs[i - 1] == '{' {
        i - 1
    } else if cs[i - 1] == '}' {
        -1
    } else {
        spec_backscan(cs, i - 1)
    }
}

/// Walk forward from `i` to the brace matching depth `depth`, skipping
/// string contents and escapes; the result is just past the closing brace,
/// or -1 if the braces never balance.
pub open spec fn spec_brace_end(cs: Seq<char>, i: int, depth: int, in_str: bool, esc: bool) -> int
    decreases cs.len() - i,
{
    if i < 0 || i >= cs.len() {
        -1
    } else if esc {
        spec_brace_end(cs, i + 1, depth, in_str, false)
    } else if cs[i] == '\\' {
        spec_brace_end(cs, i + 1, depth, in_str, true)
    } else if cs[i] == '"' {
        spec_brace_end(cs, i + 1, depth, !in_str, false)
    } else if cs[i] == '{' && !in_str {
        spec_brace_end(cs, i + 1, depth + 1, in_str, false)
    } else if cs[i] == '}' && !in_str {
        if depth == 1 {
            i + 1
        } else {
            spec_brace_end(cs, i + 1, depth - 1, in_str, false)
        }
    } else {
        spec_brace_end(cs, i + 1, depth, in_str, false)
    }
}

/// A call with this name was already collected whose arguments mention the
/// name: the duplicate test of the raw fallback.
pub open spec fn spec_is_dup(acc: Seq<(Seq<char>, Seq<char>)>, name: Seq<char>) -> bool {
    exists|j: int| 0 <= j < acc.len() && (#[trigger] acc[j]).0 == name && spec_contains(
        acc[j].1,
        name,
    )
}

/// The raw-fallback calls collected from `from` on, appended to `acc`:
/// each bare JSON object containing a `"tool"` key is cut out by brace
/// counting and parsed, duplicates are skipped.
pub open spec fn spec_raw_calls(
    cs: Seq<char>,
    from: int,
    acc: Seq<(Seq<char>, Seq<char>)>,
) -> Seq<(Seq<char>, Seq<char>)>
    decreases cs.len() - from,
{
    if from < 0 || from >= cs.len() {
        acc
    } else {
        let p = spec_find(cs, "\"tool\""@, from);
        if p < 0 || p < from || p >= cs.len() {
            acc
        } else {
            let e = spec_raw_pat_end(cs, p);
            if e < 0 {
                spec_raw_calls(cs, p + 1, acc)
            } else if e <= p || e > cs.len() {
                acc
            } else {
                let b = spec_backscan(cs, p);
                if b < 0 {
                    spec_raw_calls(cs, e, acc)
                } else {
                    let be = spec_brace_end(cs, b, 0, false, false);
                    if be < 0 {
                        spec_raw_calls(cs, e, acc)
                    } else {
                        match spec_parse_json(cs.subrange(b, be)) {
                            None => spec_raw_calls(cs, e, acc),
                            Some(m) => match spec_get(m, "tool"@) {
                                Some(JsonModel::Str { text: name }) => if spec_is_dup(acc, name) {
                                    spec_raw_calls(cs, e, acc)
                                } else {
                                    let args = spec_args_text(
                                        spec_first_present(
                                            spec_get(m, "arguments"@),
                                            spec_get(m, "args"@),
                                            None,
                                        ),
                                    );
                                    spec_raw_calls(cs, e, acc + seq![(name, args)])
                                },
                                _ => spec_raw_calls(cs, e, acc),
                            },
                        }
                    }
                }
            }
        }
    }
}

/// The (name, argument) pairs extracted from free model text: bracketed
/// blocks first; if none yields a call, bare JSON objects as a last
/// resort.
pub open spec fn spec_text_tool_calls(text: Seq<char>) -> Seq<(Seq<char>, Seq<char>)> {
    let tagged = spec_blocks_calls(text, spec_lower_seq(text), 0);
    if tagged.len() > 0 {
        tagged
    } else {
        spec_raw_calls(text, 0, Seq::<(Seq<char>, Seq<char>)>::empty())
    }
}

// ------------------------------------------------------------------
// Executable extraction
// ------------------------------------------------------------------

/// The calls of the first `n` stream values.
pub open spec fn spec_stream_calls_to(vals: Seq<JsonModel>, n: int) -> Seq<(Seq<char>, Seq<char>)>
    decreases n,
{
    if n <= 0 {
        Seq::<(Seq<char>, Seq<char>)>::empty()
    } else {
        spec_stream_calls_to(vals, n - 1) + spec_value_calls(vals[n - 1])
    }
}

proof fn lemma_stream_calls_to_prefix(vals: Seq<JsonModel>, n: int)
    requires
        0 <= n <= vals.len() - 1,
    ensures
        spec_stream_calls_to(vals, n + 1) == spec_stream_calls_to(vals, 1) + spec_stream_calls_to(
            vals.drop_first(),
            n,
        ),
    decreases n,
{
    if n > 0 {
        lemma_stream_calls_to_prefix(vals, n - 1);
        assert(vals.drop_first()[n - 1] == vals[n]);
        assert(spec_stream_calls_to(vals, n + 1) =~= spec_stream_calls_to(vals, 1)
            + spec_stream_calls_to(vals.drop_first(), n));
    } else {
        assert(spec_stream_calls_to(vals.drop_first(), 0)
            =~= Seq::<(Seq<char>, Seq<char>)>::empty());
        assert(spec_stream_calls_to(vals, 1) =~= spec_stream_calls_to(vals, 1)
            + Seq::<(Seq<char>, Seq<char>)>::empty());
    }
}

proof fn lemma_stream_calls_to_all(vals: Seq<JsonModel>)
    ensures
        spec_stream_calls_to(vals, vals.len() as int) == spec_stream_calls(vals),
    decreases vals.len(),
{
    if vals.len() > 0 {
        lemma_stream_calls_to_all(vals.drop_first());
        lemma_stream_calls_to_prefix(vals, vals.len() - 1);
        assert(spec_stream_calls_to(vals, 0) =~= Seq::<(Seq<char>, Seq<char>)>::empty());
        assert(spec_stream_calls_to(vals, 1) =~= spec_value_calls(vals[0]));
        assert(spec_stream_calls(vals) == spec_value_calls(vals[0]) + spec_stream_calls(
            vals.drop_first(),
        ));
        assert(spec_stream_calls_to(vals, vals.len() as int) =~= spec_stream_calls(vals));
    }
}

proof fn lemma_pairs_concat(a: Seq<(String, String)>, b: Seq<(String, String)>)
    ensures
        pairs_model(a + b) == pairs_model(a) + pairs_model(b),
{
    assert(pairs_model(a + b) =~= pairs_model(a) + pairs_model(b));
}

/// The calls of one bracketed block.
fn block_calls(block: &Vec<char>) -> (r: Vec<(String, String)>)
    ensures
        pairs_model(r@) == spec_block_calls(block@),
{
    let vals = parse_stream(block, 0);
    let ghost vms = models_of(vals@);
    proof {
        lemma_models_of_len(vals@);
    }
    if vals.len() > 0 {
        let n = vals.len();
        let mut out: Vec<(String, String)> = Vec::new();
        let mut i: usize = 0;
        while i < n
            invariant
                i <= n,
                n == vals@.len(),
                vms == models_of(vals@),
                vms == spec_parse_stream(block@, 0),
                vms.len() == n,
                pairs_model(out@) == spec_stream_calls_to(vms, i as int),
            decreases n - i,
        {
            proof {
                lemma_models_of_index(vals@, i as int);
            }
            let mut part = value_calls(&vals[i]);
            let ghost out_view = out@;
            let ghost part_view = part@;
            out.append(&mut part);
            proof {
                lemma_pairs_concat(out_view, part_view);
                assert(pairs_model(out@) =~= spec_stream_calls_to(vms, (i + 1) as int));
            }
            i = i + 1;
        }
        proof {
            lemma_stream_calls_to_all(vms);
        }
        out
    } else {
        let mut out: Vec<(String, String)> = Vec::new();
        match legacy_call(block) {
            Some(c) => {
                out.push(c);
            }
            None => {
            }
        }
        proof {
            assert(vms =~= Seq::<JsonModel>::empty());
            assert(pairs_model(out@) =~= spec_block_calls(block@));
        }
        out
    }
}

fn after_keyword(bl: &Vec<char>, i: usize, kw: &Vec<char>) -> (r: Option<usize>)
    requires
        i <= bl@.len(),
    ensures
        match r {
            Some(p) => p as int == spec_after_keyword(bl@, i as int, kw@) && p <= bl@.len(),
            None => spec_after_keyword(bl@, i as int, kw@) == -1,
        },
{
    let n = bl.len();
    if !matches_at(bl, i, kw) {
        None
    } else {
        assert(i + kw@.len() <= n);
        let q: usize = skip_ws(bl, i + kw.len());
        let mut arrow: Vec<char> = Vec::new();
        arrow.push('=');
        arrow.push('>');
        proof {
            assert(arrow@ =~= seq!['=', '>']);
        }
        if matches_at(bl, q, &arrow) {
            Some(q + 2)
        } else if q < n && bl[q] == ':' {
            Some(q + 1)
        } else {
            None
        }
    }
}

fn quoted_capture(block: &Vec<char>, bl: &Vec<char>, after: usize) -> (r: Option<Vec<char>>)
    requires
        bl@.len() == block@.len(),
        after <= bl@.len(),
    ensures
        match (r, spec_quoted_capture(block@, bl@, after as int)) {
            (Some(cap), Some(sc)) => cap@ == sc,
            (None, None) => true,
            _ => false,
        },
{
    let q2: usize = skip_ws(bl, after);
    if q2 < bl.len() && bl[q2] == '"' {
        let mut quote: Vec<char> = Vec::new();
        quote.push('"');
        proof {
            assert(quote@ =~= seq!['"']);
        }
        match find_from(bl, &quote, q2 + 1) {
            Some(e) => {
                if e >= q2 + 2 {
                    Some(copy_range(block, q2 + 1, e))
                } else {
                    None
                }
            }
            None => None,
        }
    } else {
        None
    }
}

fn name_at(block: &Vec<char>, bl: &Vec<char>, i: usize) -> (r: Option<Vec<char>>)
    requires
        bl@.len() == block@.len(),
        i <= bl@.len(),
    ensures
        match (r, spec_name_at(block@, bl@, i as int)) {
            (Some(cap), Some(sc)) => cap@ == sc,
            (None, None) => true,
            _ => false,
        },
{
    let kw_tool = str_chars("tool");
    let kw_name = str_chars("name");
    let a: Option<usize> = match after_keyword(bl, i, &kw_tool) {
        Some(p) => Some(p),
        None => after_keyword(bl, i, &kw_name),
    };
    match a {
        Some(p) => quoted_capture(block, bl, p),
        None => None,
    }
}

fn first_name(block: &Vec<char>, bl: &Vec<char>) -> (r: Option<Vec<char>>)
    requires
        bl@.len() == block@.len(),
    ensures
        match (r, spec_first_name(block@, bl@, 0)) {
            (Some(cap), Some(sc)) => cap@ == sc,
            (None, None) => true,
            _ => false,
        },
{
    let n = bl.len();
    let mut i: usize = 0;
    while i < n
        invariant
            i <= n,
            n == bl@.len(),
            bl@.len() == block@.len(),
            spec_first_name(block@, bl@, 0) == spec_first_name(block@, bl@, i as int),
        decreases n - i,
    {
        match name_at(block, bl, i) {
            Some(cap) => {
                return Some(cap);
            }
            None => {
            }
        }
        i = i + 1;
    }
    None
}

fn args_at(block: &Vec<char>, bl: &Vec<char>, i: usize) -> (r: Option<Vec<char>>)
    requires
        bl@.len() == block@.len(),
        i <= bl@.len(),
    ensures
        match (r, spec_args_at(block@, bl@, i as int)) {
            (Some(cap), Some(sc)) => cap@ == sc,
            (None, None) => true,
            _ => false,
        },
{
    let kw_args = str_chars("args");
    let kw_arguments = str_chars("arguments");
    let a: Option<usize> = match after_keyword(bl, i, &kw_args) {
        Some(p) => Some(p),
        None => after_keyword(bl, i, &kw_arguments),
    };
    match a {
        Some(p) => {
            let q2: usize = skip_ws(bl, p);
            if q2 < bl.len() && bl[q2] == '{' {
                let mut closing: Vec<char> = Vec::new();
                closing.push('}');
                proof {
                    assert(closing@ =~= seq!['}']);
                }
                match find_from(bl, &closing, q2 + 1) {
                    Some(e) => Some(copy_range(block, q2, e + 1)),
                    None => None,
                }
            } else {
                None
            }
        }
        None => None,
    }
}

fn first_args(block: &Vec<char>, bl: &Vec<char>) -> (r: Option<Vec<char>>)
    requires
        bl@.len() == block@.len(),
    ensures
        match (r, spec_first_args(block@, bl@, 0)) {
            (Some(cap), Some(sc)) => cap@ == sc,
            (None, None) => true,
            _ => false,
        },
{
    let n = bl.len();
    let mut i: usize = 0;
    while i < n
        invariant
            i <= n,
            n == bl@.len(),
            bl@.len() == block@.len(),
            spec_first_args(block@, bl@, 0) == spec_first_args(block@, bl@, i as int),
        decreases n - i,
    {
        match args_at(block, bl, i) {
            Some(cap) => {
                return Some(cap);
            }
            None => {
            }
        }
        i = i + 1;
    }
    None
}

fn is_word_char(c: char) -> (b: bool)
    ensures
        b == spec_is_word(c),
{
    ('a' <= c && c <= 'z') || ('A' <= c && c <= 'Z') || ('0' <= c && c <= '9') || c == '_'
}

fn word_end(s: &Vec<char>, i: usize) -> (j: usize)
    requires
        i <= s@.len(),
    ensures
        j as int == spec_word_end(s@, i as int),
        i <= j <= s@.len(),
{
    let n = s.len();
    let mut j: usize = i;
    while j < n && is_word_char(s[j])
        invariant
            i <= j <= n,
            n == s@.len(),
            spec_word_end(s@, i as int) == spec_word_end(s@, j as int),
        decreases n - j,
    {
        j = j + 1;
    }
    j
}

fn kv_at(s: &Vec<char>, i: usize) -> (r: Option<(Vec<char>, Vec<char>, usize)>)
    requires
        i <= s@.len(),
    ensures
        match (r, spec_kv_at(s@, i as int)) {
            (Some(kv), Some(sk)) => kv.0@ == sk.0 && kv.1@ == sk.1 && kv.2 as int == sk.2 && i
                < kv.2 <= s@.len(),
            (None, None) => true,
            _ => false,
        },
{
    if i >= s.len() || !is_word_char(s[i]) {
        None
    } else {
        let e1: usize = word_end(s, i);
        let q: usize = skip_ws(s, e1);
        let mut arrow: Vec<char> = Vec::new();
        arrow.push('=');
        arrow.push('>');
        proof {
            assert(arrow@ =~= seq!['=', '>']);
        }
        let a: Option<usize> = if matches_at(s, q, &arrow) {
            Some(q + 2)
        } else if q < s.len() && s[q] == ':' {
            Some(q + 1)
        } else {
            None
        };
        match a {
            Some(p) => {
                let q2: usize = skip_ws(s, p);
                if q2 < s.len() && s[q2] == '"' {
                    let mut quote: Vec<char> = Vec::new();
                    quote.push('"');
                    proof {
                        assert(quote@ =~= seq!['"']);
                    }
                    match find_from(s, &quote, q2 + 1) {
                        Some(e2) => Some(
                            (copy_range(s, i, e1), copy_range(s, q2 + 1, e2), e2 + 1),
                        ),
                        None => None,
                    }
                } else {
                    None
                }
            }
            None => None,
        }
    }
}

fn kvs_of(s: &Vec<char>) -> (r: Vec<(Vec<char>, Vec<char>)>)
    ensures
        Seq::new(r@.len(), |k: int| (r@[k].0@, r@[k].1@)) == spec_kvs(s@, 0),
{
    let n = s.len();
    let mut out: Vec<(Vec<char>, Vec<char>)> = Vec::new();
    let mut i: usize = 0;
    let mut stop: bool = false;
    while !stop && i < n
        invariant
            i <= n,
            n == s@.len(),
            !stop ==> spec_kvs(s@, 0) =~= Seq::new(out@.len(), |k: int| (out@[k].0@, out@[k].1@))
                + spec_kvs(s@, i as int),
            stop ==> spec_kvs(s@, 0) =~= Seq::new(out@.len(), |k: int| (out@[k].0@, out@[k].1@)),
        decreases n - i, (if stop { 0int } else { 1int }),
    {
        let ghost prefix = Seq::new(out@.len(), |k: int| (out@[k].0@, out@[k].1@));
        match kv_at(s, i) {
            Some(kv) => {
                let nxt: usize = kv.2;
                out.push((kv.0, kv.1));
                proof {
                    assert(Seq::new(out@.len(), |k: int| (out@[k].0@, out@[k].1@)) =~= prefix
                        + seq![(out@[out@.len() - 1].0@, out@[out@.len() - 1].1@)]);
                }
                if nxt > i {
                    i = nxt;
                } else {
                    stop = true;
                }
            }
            None => {
                i = i + 1;
            }
        }
    }
    out
}

/// The position of a key among object fields, if it is present.
fn find_key(fields: &Vec<(String, JsonValue)>, k: &str) -> (r: Option<usize>)
    ensures
        match r {
            Some(fi) => fi < fields@.len() && crate::json::field_models_of(fields@)[fi as int].0
                == k@ && (forall|j: int| 0 <= j < fi
                ==> (#[trigger] crate::json::field_models_of(fields@)[j]).0 != k@),
            None => forall|j: int| 0 <= j < fields@.len()
                ==> (#[trigger] crate::json::field_models_of(fields@)[j]).0 != k@,
        },
{
    let ghost fm = crate::json::field_models_of(fields@);
    proof {
        crate::json::lemma_field_models_of_len(fields@);
    }
    let n = fields.len();
    let mut i: usize = 0;
    while i < n
        invariant
            i <= n,
            n == fields@.len(),
            fm == crate::json::field_models_of(fields@),
            fm.len() == n,
            forall|j: int| 0 <= j < i ==> (#[trigger] fm[j]).0 != k@,
        decreases n - i,
    {
        proof {
            crate::json::lemma_field_models_of_index(fields@, i as int);
        }
        if crate::json::str_eq(fields[i].0.as_str(), k) {
            return Some(i);
        }
        i = i + 1;
    }
    None
}

/// Replace or append one field of an object under construction.
pub fn obj_set_field(fields: &mut Vec<(String, JsonValue)>, k: String, v: JsonValue)
    ensures
        crate::json::field_models_of(final(fields)@) == spec_obj_set(
            crate::json::field_models_of(old(fields)@),
            k@,
            v.model(),
        ),
{
    let ghost fm = crate::json::field_models_of(fields@);
    let ghost gk = k@;
    let ghost gv = v.model();
    let found = find_key(fields, k.as_str());
    let ghost old_view = fields@;
    proof {
        crate::json::lemma_field_models_of_len(old_view);
    }
    match found {
        Some(i) => {
            fields.remove(i);
            fields.insert(i, (k, v));
            proof {
                lemma_obj_set_found(fm, gk, gv, i as int);
                assert(fields@ =~= old_view.update(i as int, fields@[i as int]));
                lemma_field_models_update(old_view, i as int, fields@[i as int]);
                assert(crate::json::field_models_of(fields@) =~= spec_obj_set(fm, gk, gv));
            }
        }
        None => {
            proof {
                crate::json::lemma_field_models_of_len(old_view);
            }
            fields.push((k, v));
            proof {
                lemma_obj_set_absent(fm, gk, gv);
                lemma_field_models_push(old_view, fields@[fields@.len() - 1]);
                assert(crate::json::field_models_of(fields@) =~= spec_obj_set(fm, gk, gv));
            }
        }
    }
}

proof fn lemma_obj_set_found(fm: Seq<(Seq<char>, JsonModel)>, k: Seq<char>, v: JsonModel, idx: int)
    requires
        0 <= idx < fm.len(),
        fm[idx].0 == k,
        forall|j: int| 0 <= j < idx ==> (#[trigger] fm[j]).0 != k,
    ensures
        spec_obj_set(fm, k, v) == fm.update(idx, (k, v)),
    decreases idx,
{
    if idx == 0 {
        assert(spec_obj_set(fm, k, v) == seq![(k, v)] + fm.drop_first());
        assert(seq![(k, v)] + fm.drop_first() =~= fm.update(0, (k, v)));
    } else {
        lemma_obj_set_found(fm.drop_first(), k, v, idx - 1);
        assert(spec_obj_set(fm, k, v) == seq![fm[0]] + spec_obj_set(fm.drop_first(), k, v));
        assert(seq![fm[0]] + fm.drop_first().update(idx - 1, (k, v)) =~= fm.update(idx, (k, v)));
    }
}

proof fn lemma_obj_set_absent(fm: Seq<(Seq<char>, JsonModel)>, k: Seq<char>, v: JsonModel)
    requires
        forall|j: int| 0 <= j < fm.len() ==> (#[trigger] fm[j]).0 != k,
    ensures
        spec_obj_set(fm, k, v) == fm.push((k, v)),
    decreases fm.len(),
{
    if fm.len() == 0 {
        assert(spec_obj_set(fm, k, v) =~= fm.push((k, v)));
    } else {
        lemma_obj_set_absent(fm.drop_first(), k, v);
        assert(seq![fm[0]] + fm.drop_first().push((k, v)) =~= fm.push((k, v)));
    }
}

proof fn lemma_field_models_update(fields: Seq<(String, JsonValue)>, i: int, f: (String, JsonValue))
    requires
        0 <= i < fields.len(),
    ensures
        crate::json::field_models_of(fields.update(i, f)) == crate::json::field_models_of(
            fields,
        ).update(i, (f.0@, f.1.model())),
{
    let a = crate::json::field_models_of(fields.update(i, f));
    let b = crate::json::field_models_of(fields).update(i, (f.0@, f.1.model()));
    crate::json::lemma_field_models_of_len(fields.update(i, f));
    crate::json::lemma_field_models_of_len(fields);
    assert forall|j: int| 0 <= j < fields.len() implies a[j] == b[j] by {
        crate::json::lemma_field_models_of_index(fields.update(i, f), j);
        crate::json::lemma_field_models_of_index(fields, j);
    }
    assert(a =~= b);
}

proof fn lemma_field_models_push(fields: Seq<(String, JsonValue)>, f: (String, JsonValue))
    ensures
        crate::json::field_models_of(fields.push(f)) == crate::json::field_models_of(fields).push(
            (f.0@, f.1.model()),
        ),
{
    let a = crate::json::field_models_of(fields.push(f));
    let b = crate::json::field_models_of(fields).push((f.0@, f.1.model()));
    crate::json::lemma_field_models_of_len(fields.push(f));
    crate::json::lemma_field_models_of_len(fields);
    assert forall|j: int| 0 <= j < fields.len() + 1 implies a[j] == b[j] by {
        crate::json::lemma_field_models_of_index(fields.push(f), j);
        if j < fields.len() {
            crate::json::lemma_field_models_of_index(fields, j);
            assert(fields.push(f)[j] == fields[j]);
        }
    }
    assert(a =~= b);
}

/// The call of the legacy key-value grammar, if one stands in the block.
fn legacy_call(block: &Vec<char>) -> (r: Option<(String, String)>)
    ensures
        match (r, spec_legacy_call(block@)) {
            (Some(c), Some(sc)) => c.0@ == sc.0 && c.1@ == sc.1,
            (None, None) => true,
            _ => false,
        },
{
    let bl = lower_vec(block);
    match first_name(block, &bl) {
        None => None,
        Some(nm) => {
            let atext: Vec<char> = match first_args(block, &bl) {
                Some(t) => t,
                None => {
                    let mut d: Vec<char> = Vec::new();
                    d.push('{');
                    d.push('}');
                    proof {
                        assert(d@ =~= seq!['{', '}']);
                    }
                    d
                }
            };
            let args: String = match crate::json::parse_json_chars(&atext) {
                Some(v) => json_to_string(&v),
                None => {
                    let pairs = kvs_of(&atext);
                    let ghost pair_views = Seq::new(
                        pairs@.len(),
                        |k: int| (pairs@[k].0@, pairs@[k].1@),
                    );
                    let n = pairs.len();
                    let mut fields: Vec<(String, JsonValue)> = Vec::new();
                    let mut i: usize = 0;
                    proof {
                        assert(spec_kv_obj(pair_views.subrange(0, 0))
                            =~= Seq::<(Seq<char>, JsonModel)>::empty());
                        assert(crate::json::field_models_of(fields@)
                            =~= Seq::<(Seq<char>, JsonModel)>::empty());
                    }
                    while i < n
                        invariant
                            i <= n,
                            n == pairs@.len(),
                            pair_views == Seq::new(
                                pairs@.len(),
                                |k: int| (pairs@[k].0@, pairs@[k].1@),
                            ),
                            crate::json::field_models_of(fields@) == spec_kv_obj(
                                pair_views.subrange(0, i as int),
                            ),
                        decreases n - i,
                    {
                        let key = string_from_chars(&pairs[i].0);
                        let val = JsonValue::Str(string_from_chars(&pairs[i].1));
                        obj_set_field(&mut fields, key, val);
                        proof {
                            assert(pair_views.subrange(0, (i + 1) as int).drop_last()
                                =~= pair_views.subrange(0, i as int));
                            assert(pair_views.subrange(0, (i + 1) as int).last()
                                == pair_views[i as int]);
                        }
                        i = i + 1;
                    }
                    proof {
                        assert(pair_views.subrange(0, n as int) =~= pair_views);
                        assert(pair_views =~= spec_kvs(atext@, 0));
                    }
                    json_to_string(&JsonValue::Obj(fields))
                }
            };
            Some((string_from_chars(&nm), args))
        }
    }
}

fn open_at(lows: &Vec<char>, from: usize) -> (r: Option<(usize, usize)>)
    requires
        from <= lows@.len(),
    ensures
        match (r, spec_open_at(lows@, from as int)) {
            (Some(o), Some(so)) => o.0 as int == so.0 && o.1 as int == so.1 && from <= o.0 < o.1
                <= lows@.len(),
            (None, None) => true,
            _ => false,
        },
{
    proof {
        reveal_strlit("[tool_call]");
        reveal_strlit("[tool]");
    }
    let n = lows.len();
    let pat_l = str_chars("[tool_call]");
    let pat_s = str_chars("[tool]");
    let fl = find_from(lows, &pat_l, from);
    let fs = find_from(lows, &pat_s, from);
    match (fl, fs) {
        (None, None) => None,
        (Some(pl), None) => Some((pl, pl + pat_l.len())),
        (None, Some(ps)) => Some((ps, ps + pat_s.len())),
        (Some(pl), Some(ps)) => if pl <= ps {
            Some((pl, pl + pat_l.len()))
        } else {
            Some((ps, ps + pat_s.len()))
        },
    }
}

fn close_at(lows: &Vec<char>, from: usize) -> (r: Option<(usize, usize)>)
    requires
        from <= lows@.len(),
    ensures
        match (r, spec_close_at(lows@, from as int)) {
            (Some(o), Some(so)) => o.0 as int == so.0 && o.1 as int == so.1 && from <= o.0 < o.1
                <= lows@.len(),
            (None, None) => true,
            _ => false,
        },
{
    proof {
        reveal_strlit("[/tool_call]");
        reveal_strlit("[/tool]");
    }
    let n = lows.len();
    let pat_l = str_chars("[/tool_call]");
    let pat_s = str_chars("[/tool]");
    let fl = find_from(lows, &pat_l, from);
    let fs = find_from(lows, &pat_s, from);
    match (fl, fs) {
        (None, None) => None,
        (Some(pl), None) => Some((pl, pl + pat_l.len())),
        (None, Some(ps)) => Some((ps, ps + pat_s.len())),
        (Some(pl), Some(ps)) => if pl <= ps {
            Some((pl, pl + pat_l.len()))
        } else {
            Some((ps, ps + pat_s.len()))
        },
    }
}

/// The calls of every bracketed block of the text.
fn blocks_calls(cs: &Vec<char>, lows: &Vec<char>) -> (r: Vec<(String, String)>)
    requires
        lows@ == spec_lower_seq(cs@),
    ensures
        pairs_model(r@) == spec_blocks_calls(cs@, lows@, 0),
{
    let mut acc: Vec<(String, String)> = Vec::new();
    let mut from: usize = 0;
    proof {
        assert(pairs_model(acc@) =~= Seq::<(Seq<char>, Seq<char>)>::empty());
    }
    loop
        invariant
            from <= cs@.len(),
            lows@ == spec_lower_seq(cs@),
            lows@.len() == cs@.len(),
            spec_blocks_calls(cs@, lows@, 0) == pairs_model(acc@) + spec_blocks_calls(
                cs@,
                lows@,
                from as int,
            ),
        ensures
            spec_blocks_calls(cs@, lows@, 0) == pairs_model(acc@),
        decreases cs@.len() - from,
    {
        match open_at(lows, from) {
            None => {
                proof {
                    assert(spec_blocks_calls(cs@, lows@, from as int)
                        =~= Seq::<(Seq<char>, Seq<char>)>::empty());
                    assert(pairs_model(acc@) + Seq::<(Seq<char>, Seq<char>)>::empty()
                        =~= pairs_model(acc@));
                }
                break;
            }
            Some(open) => {
                let cst: usize = open.1;
                match close_at(lows, cst) {
                    None => {
                        proof {
                            assert(spec_blocks_calls(cs@, lows@, from as int)
                                =~= Seq::<(Seq<char>, Seq<char>)>::empty());
                            assert(pairs_model(acc@) + Seq::<(Seq<char>, Seq<char>)>::empty()
                                =~= pairs_model(acc@));
                        }
                        break;
                    }
                    Some(close) => {
                        let block = trim_range(cs, cst, close.0);
                        let mut part = block_calls(&block);
                        let ghost acc_view = acc@;
                        let ghost part_view = part@;
                        acc.append(&mut part);
                        proof {
                            lemma_pairs_concat(acc_view, part_view);
                        }
                        from = close.1;
                    }
                }
            }
        }
    }
    acc
}

fn backscan(cs: &Vec<char>, i: usize) -> (r: Option<usize>)
    requires
        i <= cs@.len(),
    ensures
        match r {
            Some(b) => b as int == spec_backscan(cs@, i as int) && b < i,
            None => spec_backscan(cs@, i as int) == -1,
        },
{
    let mut j: usize = i;
    while j > 0
        invariant
            j <= i <= cs@.len(),
            spec_backscan(cs@, i as int) == spec_backscan(cs@, j as int),
        decreases j,
    {
        if cs[j - 1] == '{' {
            return Some(j - 1);
        }
        if cs[j - 1] == '}' {
            return None;
        }
        j = j - 1;
    }
    None
}

fn brace_end(cs: &Vec<char>, b: usize) -> (r: Option<usize>)
    requires
        b <= cs@.len(),
    ensures
        match r {
            Some(e) => e as int == spec_brace_end(cs@, b as int, 0, false, false) && b < e
                <= cs@.len(),
            None => spec_brace_end(cs@, b as int, 0, false, false) == -1,
        },
{
    let n = cs.len();
    let mut i: usize = b;
    let mut depth: i128 = 0;
    let mut in_str: bool = false;
    let mut esc: bool = false;
    loop
        invariant
            b <= i <= n,
            n == cs@.len(),
            -(i as int) <= depth as int <= i as int,
            spec_brace_end(cs@, b as int, 0, false, false) == spec_brace_end(
                cs@,
                i as int,
                depth as int,
                in_str,
                esc,
            ),
        ensures
            match spec_brace_end(cs@, b as int, 0, false, false) {
                e => (e == -1) == (i >= n),
            },
            i < n ==> spec_brace_end(cs@, b as int, 0, false, false) == i + 1,
        decreases n - i,
    {
        if i >= n {
            break;
        }
        let c = cs[i];
        if esc {
            esc = false;
        } else if c == '\\' {
            esc = true;
        } else if c == '"' {
            in_str = !in_str;
        } else if c == '{' && !in_str {
            depth = depth + 1;
        } else if c == '}' && !in_str {
            if depth == 1 {
                break;
            }
            depth = depth - 1;
        }
        i = i + 1;
    }
    if i < cs.len() {
        Some(i + 1)
    } else {
        None
    }
}

fn raw_calls(cs: &Vec<char>) -> (r: Vec<(String, String)>)
    ensures
        pairs_model(r@) == spec_raw_calls(cs@, 0, Seq::<(Seq<char>, Seq<char>)>::empty()),
{
    proof {
        reveal_strlit("\"tool\"");
    }
    let pat = str_chars("\"tool\"");
    let mut acc: Vec<(String, String)> = Vec::new();
    let mut from: usize = 0;
    proof {
        assert(pairs_model(acc@) =~= Seq::<(Seq<char>, Seq<char>)>::empty());
    }
    loop
        invariant
            from <= cs@.len(),
            pat@ == "\"tool\""@,
            spec_raw_calls(cs@, 0, Seq::<(Seq<char>, Seq<char>)>::empty()) == spec_raw_calls(
                cs@,
                from as int,
                pairs_model(acc@),
            ),
        ensures
            spec_raw_calls(cs@, 0, Seq::<(Seq<char>, Seq<char>)>::empty()) == pairs_model(acc@),
        decreases cs@.len() - from,
    {
        if from >= cs.len() {
            break;
        }
        match find_from(cs, &pat, from) {
            None => {
                break;
            }
            Some(p) => {
                let e: Option<usize> = raw_pat_end(cs, p);
                match e {
                    None => {
                        from = p + 1;
                    }
                    Some(e) => {
                        let next: usize = e;
                        match backscan(cs, p) {
                            None => {
                            }
                            Some(b) => {
                                match brace_end(cs, b) {
                                    None => {
                                    }
                                    Some(be) => {
                                        let cand = copy_range(cs, b, be);
                                        match crate::json::parse_json_chars(&cand) {
                                            None => {
                                            }
                                            Some(m) => {
                                                match m.get("tool") {
                                                    None => {
                                                    }
                                                    Some(tv) => {
                                                        match tv.as_str() {
                                                            None => {
                                                            }
                                                            Some(name) => {
                                                                if !is_dup(&acc, name.as_str()) {
                                                                    let args_val: Option<
                                                                        &JsonValue,
                                                                    > = match m.get("arguments") {
                                                                        Some(a) => Some(a),
                                                                        None => m.get("args"),
                                                                    };
                                                                    let args = args_text(args_val);
                                                                    let ghost acc_view = acc@;
                                                                    acc.push(
                                                                        (name.clone(), args),
                                                                    );
                                                                    proof {
                                                                        assert(pairs_model(acc@)
                                                                            =~= pairs_model(
                                                                            acc_view,
                                                                        )
                                                                            + seq![
                                                                            (
                                                                                name@,
                                                                                acc@[acc@.len()
                                                                                    - 1].1@,
                                                                            ),
                                                                        ]);
                                                                    }
                                                                }
                                                            }
                                                        }
                                                    }
                                                }
                                            }
                                        }
                                    }
                                }
                            }
                        }
                        from = next;
                    }
                }
            }
        }
    }
    acc
}

fn raw_pat_end(cs: &Vec<char>, p: usize) -> (r: Option<usize>)
    requires
        p <= cs@.len(),
    ensures
        match r {
            Some(e) => e as int == spec_raw_pat_end(cs@, p as int) && p < e <= cs@.len(),
            None => spec_raw_pat_end(cs@, p as int) == -1,
        },
{
    proof {
        reveal_strlit("\"tool\"");
    }
    let n = cs.len();
    let pat = str_chars("\"tool\"");
    if !matches_at(cs, p, &pat) {
        None
    } else {
        let q: usize = skip_ws(cs, p + pat.len());
        if q < n && cs[q] == ':' {
            let q2: usize = skip_ws(cs, q + 1);
            if q2 < n && cs[q2] == '"' {
                Some(q2 + 1)
            } else {
                None
            }
        } else {
            None
        }
    }
}

/// Whether a collected call already carries this name and mentions it in
/// its arguments.
fn is_dup(acc: &Vec<(String, String)>, name: &str) -> (b: bool)
    ensures
        b == spec_is_dup(pairs_model(acc@), name@),
{
    let n = acc.len();
    let name_chars = str_chars(name);
    let mut i: usize = 0;
    while i < n
        invariant
            i <= n,
            n == acc@.len(),
            name_chars@ == name@,
            forall|j: int| 0 <= j < i ==> !((#[trigger] pairs_model(acc@)[j]).0 == name@
                && spec_contains(pairs_model(acc@)[j].1, name@)),
        decreases n - i,
    {
        if crate::json::str_eq(acc[i].0.as_str(), name) {
            let hay = str_chars(acc[i].1.as_str());
            if contains_pat(&hay, &name_chars) {
                proof {
                    assert((#[trigger] pairs_model(acc@)[i as int]).0 == name@ && spec_contains(
                        pairs_model(acc@)[i as int].1,
                        name@,
                    ));
                }
                return true;
            }
        }
        i = i + 1;
    }
    false
}

/// Attach synthetic identifiers and the `"function"` call type to the
/// extracted (name, argument) pairs, numbering from `base` on.
fn build_calls(pairs: Vec<(String, String)>, base: usize) -> (calls: Vec<ToolCall>)
    ensures
        calls_model(calls@) == pairs_model(pairs@),
        calls_well_formed(calls@, base as int),
{
    let n = pairs.len();
    let mut calls: Vec<ToolCall> = Vec::new();
    let mut i: usize = 0;
    while i < n
        invariant
            i <= n,
            n == pairs@.len(),
            calls@.len() == i,
            forall|j: int| 0 <= j < i ==> (#[trigger] calls@[j]).function.name@ == pairs@[j].0@
                && calls@[j].function.arguments@ == pairs@[j].1@,
            forall|j: int| 0 <= j < i ==> (#[trigger] calls@[j]).id@ == spec_call_id(
                (base + j) as nat,
            ) && calls@[j].tool_type@ == "function"@,
        decreases n - i,
    {
        let id = make_call_id(base as u128 + i as u128);
        let tool_type = string_from_chars(&str_chars("function"));
        let name = pairs[i].0.clone();
        let arguments = pairs[i].1.clone();
        calls.push(ToolCall { id, tool_type, function: FunctionCall { name, arguments } });
        i = i + 1;
    }
    proof {
        assert(calls_model(calls@) =~= pairs_model(pairs@));
    }
    calls
}

/// Extract tool calls from free model text: bracketed `[TOOL]` blocks
/// first (JSON stream, then the legacy key-value grammar per block), and
/// bare `{"tool": ...}` objects as a last resort. Unparseable pieces are
/// skipped, never an error.
pub fn parse_text_tool_calls(text: &str, base_call_index: usize) -> (calls: Vec<ToolCall>)
    ensures
        calls_model(calls@) == spec_text_tool_calls(text@),
        calls_well_formed(calls@, base_call_index as int),
{
    let cs = str_chars(text);
    let lows = lower_vec(&cs);
    let tagged = blocks_calls(&cs, &lows);
    if tagged.len() > 0 {
        proof {
            assert(pairs_model(tagged@).len() > 0);
            assert(spec_text_tool_calls(text@) == pairs_model(tagged@));
        }
        build_calls(tagged, base_call_index)
    } else {
        proof {
            assert(pairs_model(tagged@).len() == 0);
            assert(spec_text_tool_calls(text@) == spec_raw_calls(
                text@,
                0,
                Seq::<(Seq<char>, Seq<char>)>::empty(),
            ));
        }
        let raw = raw_calls(&cs);
        build_calls(raw, base_call_index)
    }
}

// ------------------------------------------------------------------
// XML-style `<tool_code>` blocks
// ------------------------------------------------------------------

/// The argument text of an XML-style call: objects and arrays are
/// re-serialized, strings taken as they are, anything else becomes the
/// empty object.
pub open spec fn spec_xml_args_text(v: Option<JsonModel>) -> Seq<char> {
    match v {
        Some(JsonModel::Str { text }) => text,
        Some(JsonModel::Obj { fields }) => spec_json_text(JsonModel::Obj { fields }),
        Some(JsonModel::Arr { items }) => spec_json_text(JsonModel::Arr { items }),
        _ => seq!['{', '}'],
    }
}

/// The call denoted by one XML-block JSON object: the name is the first of
/// `name`, `tool_name`, `function.name` present, and must be a string; the
/// arguments come from the first of `arguments`, `args`, `parameters`,
/// `function.arguments` present.
pub open spec fn spec_xml_obj_call(m: JsonModel) -> Option<(Seq<char>, Seq<char>)> {
    let name_val = spec_first_present(
        spec_get(m, "name"@),
        spec_get(m, "tool_name"@),
        spec_get2(m, "function"@, "name"@),
    );
    match name_val {
        Some(JsonModel::Str { text: name }) => {
            let args_val = spec_first_present(
                spec_get(m, "arguments"@),
                spec_get(m, "args"@),
                spec_first_present(
                    spec_get(m, "parameters"@),
                    spec_get2(m, "function"@, "arguments"@),
                    None,
                ),
            );
            Some((name, spec_xml_args_text(args_val)))
        }
        _ => None,
    }
}

/// The XML calls of the first `n` elements of a JSON array.
pub open spec fn spec_xml_objs_to(items: Seq<JsonModel>, n: int) -> Seq<(Seq<char>, Seq<char>)>
    decreases n,
{
    if n <= 0 {
        Seq::<(Seq<char>, Seq<char>)>::empty()
    } else {
        spec_xml_objs_to(items, n - 1) + (match spec_xml_obj_call(items[n - 1]) {
            Some(c) => seq![c],
            None => Seq::<(Seq<char>, Seq<char>)>::empty(),
        })
    }
}

/// The calls of one parsed XML block value.
pub open spec fn spec_xml_value_calls(m: JsonModel) -> Seq<(Seq<char>, Seq<char>)> {
    match m {
        JsonModel::Arr { items } => spec_xml_objs_to(items, items.len() as int),
        _ => match spec_xml_obj_call(m) {
            Some(c) => seq![c],
            None => Seq::<(Seq<char>, Seq<char>)>::empty(),
        },
    }
}

/// The calls of every `<tool_code>` block at or after `from`.
pub open spec fn spec_xml_blocks(cs: Seq<char>, lows: Seq<char>, from: int) -> Seq<
    (Seq<char>, Seq<char>),
>
    decreases cs.len() - from,
{
    if from < 0 || from > cs.len() {
        Seq::<(Seq<char>, Seq<char>)>::empty()
    } else {
        let p = spec_find(lows, "<tool_code>"@, from);
        if p < 0 || p < from {
            Seq::<(Seq<char>, Seq<char>)>::empty()
        } else {
            let cst = p + "<tool_code>"@.len();
            if !(from < cst && cst <= cs.len()) {
                Seq::<(Seq<char>, Seq<char>)>::empty()
            } else {
                let cl = spec_find(lows, "</tool_code>"@, cst);
                if cl < cst || cl > cs.len() {
                    Seq::<(Seq<char>, Seq<char>)>::empty()
                } else {
                    let after = cl + "</tool_code>"@.len();
                    if !(cst < after && after <= cs.len()) {
                        Seq::<(Seq<char>, Seq<char>)>::empty()
                    } else {
                        (match spec_parse_json(spec_trim_range(cs, cst, cl)) {
                            Some(m) => spec_xml_value_calls(m),
                            None => Seq::<(Seq<char>, Seq<char>)>::empty(),
                        }) + spec_xml_blocks(cs, lows, after)
                    }
                }
            }
        }
    }
}

/// The (name, argument) pairs of the XML-style fallback format.
pub open spec fn spec_grok_calls(text: Seq<char>) -> Seq<(Seq<char>, Seq<char>)> {
    spec_xml_blocks(text, spec_lower_seq(text), 0)
}

/// The identifier of the `i`-th call found by the XML fallback during an
/// iteration whose earlier calls number `base`.
pub open spec fn spec_xml_call_id(base: nat, i: nat) -> Seq<char> {
    seq!['c', 'a', 'l', 'l', '_'] + crate::text::spec_dec(base) + seq!['_']
        + crate::text::spec_dec(i)
}

pub open spec fn xml_calls_well_formed(calls: Seq<ToolCall>, base: int) -> bool {
    forall|i: int| 0 <= i < calls.len() ==> (#[trigger] calls[i]).id@ == spec_xml_call_id(
        base as nat,
        i as nat,
    ) && calls[i].tool_type@ == "function"@
}

fn xml_obj_call(v: &JsonValue) -> (r: Option<(String, String)>)
    ensures
        match (r, spec_xml_obj_call(v.model())) {
            (Some(c), Some(sc)) => c.0@ == sc.0 && c.1@ == sc.1,
            (None, None) => true,
            _ => false,
        },
{
    let name_val: Option<&JsonValue> = match v.get("name") {
        Some(n) => Some(n),
        None => match v.get("tool_name") {
            Some(n) => Some(n),
            None => get2(v, "function", "name"),
        },
    };
    match name_val {
        Some(nv) => match nv.as_str() {
            Some(name) => {
                let args_val: Option<&JsonValue> = match v.get("arguments") {
                    Some(a) => Some(a),
                    None => match v.get("args") {
                        Some(a) => Some(a),
                        None => match v.get("parameters") {
                            Some(a) => Some(a),
                            None => get2(v, "function", "arguments"),
                        },
                    },
                };
                let args: String = match args_val {
                    Some(j) => {
                        if j.is_object() || j.is_array() {
                            json_to_string(j)
                        } else {
                            match j.as_str() {
                                Some(s) => s.clone(),
                                None => empty_obj_text(),
                            }
                        }
                    }
                    None => empty_obj_text(),
                };
                Some((name.clone(), args))
            }
            None => None,
        },
        None => None,
    }
}

fn empty_obj_text() -> (r: String)
    ensures
        r@ == seq!['{', '}'],
{
    let mut cs: Vec<char> = Vec::new();
    cs.push('{');
    cs.push('}');
    proof {
        assert(cs@ =~= seq!['{', '}']);
    }
    string_from_chars(&cs)
}

fn xml_value_calls(v: &JsonValue) -> (r: Vec<(String, String)>)
    ensures
        pairs_model(r@) == spec_xml_value_calls(v.model()),
{
    match v {
        JsonValue::Arr(items) => {
            let ghost ms = models_of(items@);
            proof {
                lemma_models_of_len(items@);
            }
            let n = items.len();
            let mut out: Vec<(String, String)> = Vec::new();
            let mut i: usize = 0;
            while i < n
                invariant
                    i <= n,
                    n == items@.len(),
                    *v == JsonValue::Arr(*items),
                    ms == models_of(items@),
                    ms.len() == n,
                    pairs_model(out@) == spec_xml_objs_to(ms, i as int),
                decreases n - i,
            {
                proof {
                    lemma_models_of_index(items@, i as int);
                }
                match xml_obj_call(&items[i]) {
                    Some(c) => {
                        out.push(c);
                    }
                    None => {
                    }
                }
                proof {
                    assert(pairs_model(out@) =~= spec_xml_objs_to(ms, (i + 1) as int));
                }
                i = i + 1;
            }
            out
        }
        _ => {
            let mut out: Vec<(String, String)> = Vec::new();
            match xml_obj_call(v) {
                Some(c) => {
                    out.push(c);
                }
                None => {
                }
            }
            proof {
                assert(pairs_model(out@) =~= spec_xml_value_calls(v.model()));
            }
            out
        }
    }
}

/// Extract XML-style `<tool_code>` tool calls, the fallback for models
/// that ignore the bracket convention; ids carry the base index and the
/// call's position.
pub fn parse_grok_xml_tools(text: &str, base_call_index: usize) -> (calls: Vec<ToolCall>)
    ensures
        calls_model(calls@) == spec_grok_calls(text@),
        xml_calls_well_formed(calls@, base_call_index as int),
{
    proof {
        reveal_strlit("<tool_code>");
        reveal_strlit("</tool_code>");
    }
    let cs = str_chars(text);
    let lows = lower_vec(&cs);
    let open_pat = str_chars("<tool_code>");
    let close_pat = str_chars("</tool_code>");
    let mut acc: Vec<(String, String)> = Vec::new();
    let mut from: usize = 0;
    proof {
        assert(pairs_model(acc@) =~= Seq::<(Seq<char>, Seq<char>)>::empty());
    }
    loop
        invariant
            from <= cs@.len(),
            lows@ == spec_lower_seq(cs@),
            lows@.len() == cs@.len(),
            open_pat@ == "<tool_code>"@,
            close_pat@ == "</tool_code>"@,
            "<tool_code>"@.len() == 11,
            "</tool_code>"@.len() == 12,
            spec_xml_blocks(cs@, lows@, 0) == pairs_model(acc@) + spec_xml_blocks(
                cs@,
                lows@,
                from as int,
            ),
        ensures
            spec_xml_blocks(cs@, lows@, 0) == pairs_model(acc@),
        decreases cs@.len() - from,
    {
        match find_from(&lows, &open_pat, from) {
            None => {
                proof {
                    assert(spec_xml_blocks(cs@, lows@, from as int)
                        =~= Seq::<(Seq<char>, Seq<char>)>::empty());
                    assert(pairs_model(acc@) + Seq::<(Seq<char>, Seq<char>)>::empty()
                        =~= pairs_model(acc@));
                }
                break;
            }
            Some(p) => {
                let cst: usize = p + 11;
                match find_from(&lows, &close_pat, cst) {
                    None => {
                        proof {
                            assert(spec_xml_blocks(cs@, lows@, from as int)
                                =~= Seq::<(Seq<char>, Seq<char>)>::empty());
                            assert(pairs_model(acc@) + Seq::<(Seq<char>, Seq<char>)>::empty()
                                =~= pairs_model(acc@));
                        }
                        break;
                    }
                    Some(cl) => {
                        let block = trim_range(&cs, cst, cl);
                        match crate::json::parse_json_chars(&block) {
                            Some(m) => {
                                let mut part = xml_value_calls(&m);
                                let ghost acc_view = acc@;
                                let ghost part_view = part@;
                                acc.append(&mut part);
                                proof {
                                    lemma_pairs_concat(acc_view, part_view);
                                }
                            }
                            None => {
                            }
                        }
                        from = cl + 12;
                    }
                }
            }
        }
    }
    let n = acc.len();
    let mut calls: Vec<ToolCall> = Vec::new();
    let mut i: usize = 0;
    while i < n
        invariant
            i <= n,
            n == acc@.len(),
            calls@.len() == i,
            forall|j: int| 0 <= j < i ==> (#[trigger] calls@[j]).function.name@ == acc@[j].0@
                && calls@[j].function.arguments@ == acc@[j].1@,
            forall|j: int| 0 <= j < i ==> (#[trigger] calls@[j]).id@ == spec_xml_call_id(
                base_call_index as nat,
                j as nat,
            ) && calls@[j].tool_type@ == "function"@,
        decreases n - i,
    {
        let id = make_xml_call_id(base_call_index, i);
        let tool_type = string_from_chars(&str_chars("function"));
        let name = acc[i].0.clone();
        let arguments = acc[i].1.clone();
        calls.push(ToolCall { id, tool_type, function: FunctionCall { name, arguments } });
        i = i + 1;
    }
    proof {
        assert(calls_model(calls@) =~= pairs_model(acc@));
    }
    calls
}

fn make_xml_call_id(base: usize, i: usize) -> (r: String)
    ensures
        r@ == spec_xml_call_id(base as nat, i as nat),
{
    let mut cs: Vec<char> = Vec::new();
    cs.push('c');
    cs.push('a');
    cs.push('l');
    cs.push('l');
    cs.push('_');
    let ghost prefix = cs@;
    let mut digits = crate::text::dec_chars(base as u128);
    cs.append(&mut digits);
    cs.push('_');
    let mut digits2 = crate::text::dec_chars(i as u128);
    cs.append(&mut digits2);
    proof {
        assert(prefix =~= seq!['c', 'a', 'l', 'l', '_']);
        assert(cs@ =~= spec_xml_call_id(base as nat, i as nat));
    }
    string_from_chars(&cs)
}

} // verus!
