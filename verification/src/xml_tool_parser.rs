use vstd::prelude::*;
use crate::json::{
    JsonValue, JsonModel, spec_parse_json, parse_json_chars, json_to_string, string_from_chars,
    str_chars, field_models_of,
};
use crate::text::{
    spec_find, spec_matches_at, spec_trim_range, find_from, matches_at, trim_range, copy_range,
};
use crate::extract::{spec_obj_set, obj_set_field};

verus! {

broadcast use vstd::seq::group_seq_axioms, vstd::std_specs::vec::group_vec_axioms, vstd::string::group_string_axioms;

/// A tool call parsed from XML invocation markup: its name, and its
/// arguments re-serialized as one JSON object.
#[derive(Debug, Clone)]
pub struct ParsedToolCall {
    pub name: String,
    pub arguments: String,
}

/// A quoted attribute value starting at `i`: the capture (at least one
/// character) and the position after the closing quote, or nothing.
pub open spec fn spec_attr_at(s: Seq<char>, i: int) -> Option<(Seq<char>, int)> {
    let e = spec_find(s, seq!['"'], i);
    if e >= i + 1 {
        Some((s.subrange(i, e), e + 1))
    } else {
        None
    }
}

/// One `<parameter name="..">value</parameter>` pair at position `i`: the
/// name, the raw value, and the position after the closing tag.
pub open spec fn spec_param_at(s: Seq<char>, i: int) -> Option<(Seq<char>, Seq<char>, int)> {
    if !spec_matches_at(s, i, "<parameter name=\""@) {
        None
    } else {
        match spec_attr_at(s, i + "<parameter name=\""@.len()) {
            None => None,
            Some(attr) => {
                let body = attr.1;
                if !(0 <= body && body <= s.len() && spec_matches_at(s, body, ">"@)) {
                    None
                } else {
                    let vstart = body + 1;
                    let e = spec_find(s, "</parameter>"@, vstart);
                    if e >= vstart {
                        Some((attr.0, s.subrange(vstart, e), e + "</parameter>"@.len()))
                    } else {
                        None
                    }
                }
            }
        }
    }
}

/// All parameter pairs found from `i` on, left to right.
pub open spec fn spec_params(s: Seq<char>, i: int) -> Seq<(Seq<char>, Seq<char>)>
    decreases s.len() - i,
{
    if i < 0 || i >= s.len() {
        Seq::<(Seq<char>, Seq<char>)>::empty()
    } else {
        match spec_param_at(s, i) {
            Some(p) => if p.2 > i && p.2 <= s.len() {
                seq![(p.0, p.1)] + spec_params(s, p.2)
            } else {
                seq![(p.0, p.1)]
            },
            None => spec_params(s, i + 1),
        }
    }
}

/// The JSON value stored for one parameter: its trimmed text parsed as
/// JSON if that succeeds, else kept as a string.
pub open spec fn spec_param_value(raw: Seq<char>) -> JsonModel {
    let t = spec_trim_range(raw, 0, raw.len() as int);
    match spec_parse_json(t) {
        Some(m) => m,
        None => JsonModel::Str { text: t },
    }
}

/// The argument object built from parameter pairs, later values
/// overwriting earlier ones in place.
pub open spec fn spec_params_obj(pairs: Seq<(Seq<char>, Seq<char>)>) -> Seq<(Seq<char>, JsonModel)>
    decreases pairs.len(),
{
    if pairs.len() == 0 {
        Seq::<(Seq<char>, JsonModel)>::empty()
    } else {
        spec_obj_set(
            spec_params_obj(pairs.drop_last()),
            pairs.last().0,
            spec_param_value(pairs.last().1),
        )
    }
}

/// One `<invoke name="..">...</invoke>` block at position `i`: the
/// function name, its parameter text, and the position after the block.
pub open spec fn spec_invoke_at(s: Seq<char>, i: int) -> Option<(Seq<char>, Seq<char>, int)> {
    if !spec_matches_at(s, i, "<invoke name=\""@) {
        None
    } else {
        match spec_attr_at(s, i + "<invoke name=\""@.len()) {
            None => None,
            Some(attr) => {
                let body = attr.1;
                if !(0 <= body && body <= s.len() && spec_matches_at(s, body, ">"@)) {
                    None
                } else {
                    let pstart = body + 1;
                    let e = spec_find(s, "</invoke>"@, pstart);
                    if e >= pstart {
                        Some((attr.0, s.subrange(pstart, e), e + "</invoke>"@.len()))
                    } else {
                        None
                    }
                }
            }
        }
    }
}

/// The calls of all invoke blocks found from `i` on.
pub open spec fn spec_invokes(s: Seq<char>, i: int) -> Seq<(Seq<char>, Seq<char>)>
    decreases s.len() - i,
{
    if i < 0 || i >= s.len() {
        Seq::<(Seq<char>, Seq<char>)>::empty()
    } else {
        match spec_invoke_at(s, i) {
            Some(inv) => {
                let args = crate::json::spec_json_text(
                    JsonModel::Obj { fields: spec_params_obj(spec_params(inv.1, 0)) },
                );
                if inv.2 > i && inv.2 <= s.len() {
                    seq![(inv.0, args)] + spec_invokes(s, inv.2)
                } else {
                    seq![(inv.0, args)]
                }
            }
            None => spec_invokes(s, i + 1),
        }
    }
}

/// The calls of every `<minimax:tool_call>` block of the text, in order.
pub open spec fn spec_xml_tool_calls(cs: Seq<char>, from: int) -> Seq<(Seq<char>, Seq<char>)>
    decreases cs.len() - from,
{
    if from < 0 || from > cs.len() {
        Seq::<(Seq<char>, Seq<char>)>::empty()
    } else {
        let p = spec_find(cs, "<minimax:tool_call>"@, from);
        if p < 0 || p < from {
            Seq::<(Seq<char>, Seq<char>)>::empty()
        } else {
            let cst = p + "<minimax:tool_call>"@.len();
            if !(from < cst && cst <= cs.len()) {
                Seq::<(Seq<char>, Seq<char>)>::empty()
            } else {
                let cl = spec_find(cs, "</minimax:tool_call>"@, cst);
                if cl < cst || cl > cs.len() {
                    Seq::<(Seq<char>, Seq<char>)>::empty()
                } else {
                    let after = cl + "</minimax:tool_call>"@.len();
                    if !(cst < after && after <= cs.len()) {
                        Seq::<(Seq<char>, Seq<char>)>::empty()
                    } else {
                        spec_invokes(cs.subrange(cst, cl), 0) + spec_xml_tool_calls(cs, after)
                    }
                }
            }
        }
    }
}

/// The (name, arguments) views of a parsed call list.
pub open spec fn parsed_calls_model(calls: Seq<ParsedToolCall>) -> Seq<(Seq<char>, Seq<char>)> {
    Seq::new(calls.len(), |i: int| (calls[i].name@, calls[i].arguments@))
}

fn attr_at(s: &Vec<char>, i: usize) -> (r: Option<(Vec<char>, usize)>)
    requires
        i <= s@.len(),
    ensures
        match (r, spec_attr_at(s@, i as int)) {
            (Some(a), Some(sa)) => a.0@ == sa.0 && a.1 as int == sa.1 && a.1 <= s@.len(),
            (None, None) => true,
            _ => false,
        },
{
    let n = s.len();
    let mut quote: Vec<char> = Vec::new();
    quote.push('"');
    proof {
        assert(quote@ =~= seq!['"']);
    }
    match find_from(s, &quote, i) {
        Some(e) => {
            assert(e + 1 <= n);
            if e >= i + 1 {
                Some((copy_range(s, i, e), e + 1))
            } else {
                None
            }
        }
        None => None,
    }
}

fn param_at(s: &Vec<char>, i: usize) -> (r: Option<(Vec<char>, Vec<char>, usize)>)
    requires
        i <= s@.len(),
    ensures
        match (r, spec_param_at(s@, i as int)) {
            (Some(p), Some(sp)) => p.0@ == sp.0 && p.1@ == sp.1 && p.2 as int == sp.2 && i < p.2
                <= s@.len(),
            (None, None) => true,
            _ => false,
        },
{
    proof {
        reveal_strlit("<parameter name=\"");
        reveal_strlit(">");
        reveal_strlit("</parameter>");
    }
    let n = s.len();
    let open_pat = str_chars("<parameter name=\"");
    if !matches_at(s, i, &open_pat) {
        None
    } else {
        assert(i + 17 <= n);
        match attr_at(s, i + 17) {
            None => None,
            Some(attr) => {
                let body: usize = attr.1;
                let gt = str_chars(">");
                if !matches_at(s, body, &gt) {
                    None
                } else {
                    assert(body + 1 <= n);
                    let vstart: usize = body + 1;
                    let close_pat = str_chars("</parameter>");
                    match find_from(s, &close_pat, vstart) {
                        Some(e) => {
                            assert(e + 12 <= n);
                            Some((attr.0, copy_range(s, vstart, e), e + 12))
                        }
                        None => None,
                    }
                }
            }
        }
    }
}

fn invoke_at(s: &Vec<char>, i: usize) -> (r: Option<(Vec<char>, Vec<char>, usize)>)
    requires
        i <= s@.len(),
    ensures
        match (r, spec_invoke_at(s@, i as int)) {
            (Some(p), Some(sp)) => p.0@ == sp.0 && p.1@ == sp.1 && p.2 as int == sp.2 && i < p.2
                <= s@.len(),
            (None, None) => true,
            _ => false,
        },
{
    proof {
        reveal_strlit("<invoke name=\"");
        reveal_strlit(">");
        reveal_strlit("</invoke>");
    }
    let n = s.len();
    let open_pat = str_chars("<invoke name=\"");
    if !matches_at(s, i, &open_pat) {
        None
    } else {
        assert(i + 14 <= n);
        match attr_at(s, i + 14) {
            None => None,
            Some(attr) => {
                let body: usize = attr.1;
                let gt = str_chars(">");
                if !matches_at(s, body, &gt) {
                    None
                } else {
                    assert(body + 1 <= n);
                    let pstart: usize = body + 1;
                    let close_pat = str_chars("</invoke>");
                    match find_from(s, &close_pat, pstart) {
                        Some(e) => {
                            assert(e + 9 <= n);
                            Some((attr.0, copy_range(s, pstart, e), e + 9))
                        }
                        None => None,
                    }
                }
            }
        }
    }
}

/// Build the argument object of one invoke block's parameter text.
fn params_arguments(ptext: &Vec<char>) -> (r: String)
    ensures
        r@ == crate::json::spec_json_text(
            JsonModel::Obj { fields: spec_params_obj(spec_params(ptext@, 0)) },
        ),
{
    let n = ptext.len();
    let mut fields: Vec<(String, JsonValue)> = Vec::new();
    let mut i: usize = 0;
    proof {
        assert(field_models_of(fields@) =~= Seq::<(Seq<char>, JsonModel)>::empty());
        assert(spec_params_obj(Seq::<(Seq<char>, Seq<char>)>::empty())
            =~= Seq::<(Seq<char>, JsonModel)>::empty());
    }
    let ghost done: Seq<(Seq<char>, Seq<char>)> = Seq::empty();
    let mut stop: bool = false;
    while !stop && i < n
        invariant
            i <= n,
            n == ptext@.len(),
            field_models_of(fields@) == spec_params_obj(done),
            !stop ==> spec_params(ptext@, 0) =~= done + spec_params(ptext@, i as int),
            stop ==> spec_params(ptext@, 0) =~= done,
        decreases n - i, (if stop { 0int } else { 1int }),
    {
        match param_at(ptext, i) {
            Some(p) => {
                let key = string_from_chars(&p.0);
                let trimmed = trim_range(&p.1, 0, p.1.len());
                let value: JsonValue = match parse_json_chars(&trimmed) {
                    Some(v) => v,
                    None => JsonValue::Str(string_from_chars(&trimmed)),
                };
                let nxt: usize = p.2;
                proof {
                    assert(value.model() == spec_param_value(p.1@));
                }
                let ghost pair = (p.0@, p.1@);
                obj_set_field(&mut fields, key, value);
                proof {
                    assert((done + seq![pair]).drop_last() =~= done);
                    assert(spec_params_obj(done + seq![pair]) == spec_obj_set(
                        spec_params_obj(done),
                        pair.0,
                        spec_param_value(pair.1),
                    ));
                }
                proof {
                    done = done + seq![pair];
                }
                if nxt > i {
                    i = nxt;
                } else {
                    stop = true;
                }
            }
            None => {
                i = i + 1;
            }
        }
    }
    json_to_string(&JsonValue::Obj(fields))
}

/// Parse XML-marked tool invocations: each block may carry several
/// `<invoke>` elements whose `<parameter>` children become one JSON
/// argument object, in first-appearance order.
pub fn parse_tool_calls_from_xml(content: &str) -> (calls: Vec<ParsedToolCall>)
    ensures
        parsed_calls_model(calls@) == spec_xml_tool_calls(content@, 0),
{
    proof {
        reveal_strlit("<minimax:tool_call>");
        reveal_strlit("</minimax:tool_call>");
    }
    let cs = str_chars(content);
    let open_pat = str_chars("<minimax:tool_call>");
    let close_pat = str_chars("</minimax:tool_call>");
    let mut calls: Vec<ParsedToolCall> = Vec::new();
    let mut from: usize = 0;
    proof {
        assert(parsed_calls_model(calls@) =~= Seq::<(Seq<char>, Seq<char>)>::empty());
    }
    loop
        invariant
            from <= cs@.len(),
            cs@ == content@,
            open_pat@ == "<minimax:tool_call>"@,
            close_pat@ == "</minimax:tool_call>"@,
            "<minimax:tool_call>"@.len() == 19,
            "</minimax:tool_call>"@.len() == 20,
            spec_xml_tool_calls(cs@, 0) == parsed_calls_model(calls@) + spec_xml_tool_calls(
                cs@,
                from as int,
            ),
        ensures
            spec_xml_tool_calls(cs@, 0) == parsed_calls_model(calls@),
        decreases cs@.len() - from,
    {
        match find_from(&cs, &open_pat, from) {
            None => {
                proof {
                    assert(spec_xml_tool_calls(cs@, from as int)
                        =~= Seq::<(Seq<char>, Seq<char>)>::empty());
                    assert(parsed_calls_model(calls@) + Seq::<(Seq<char>, Seq<char>)>::empty()
                        =~= parsed_calls_model(calls@));
                }
                break;
            }
            Some(p) => {
                let cst: usize = p + 19;
                match find_from(&cs, &close_pat, cst) {
                    None => {
                        proof {
                            assert(spec_xml_tool_calls(cs@, from as int)
                                =~= Seq::<(Seq<char>, Seq<char>)>::empty());
                            assert(parsed_calls_model(calls@)
                                + Seq::<(Seq<char>, Seq<char>)>::empty()
                                =~= parsed_calls_model(calls@));
                        }
                        break;
                    }
                    Some(cl) => {
                        let inner = copy_range(&cs, cst, cl);
                        let ghost before = parsed_calls_model(calls@);
                        add_invokes(&inner, &mut calls);
                        proof {
                            assert(parsed_calls_model(calls@) =~= before + spec_invokes(
                                cs@.subrange(cst as int, cl as int),
                                0,
                            ));
                        }
                        from = cl + 20;
                    }
                }
            }
        }
    }
    calls
}

/// Append the calls of every invoke block of one tool-call body.
fn add_invokes(inner: &Vec<char>, calls: &mut Vec<ParsedToolCall>)
    ensures
        parsed_calls_model(final(calls)@) == parsed_calls_model(old(calls)@) + spec_invokes(
            inner@,
            0,
        ),
{
    let n = inner.len();
    let mut i: usize = 0;
    let ghost base = parsed_calls_model(calls@);
    let mut stop: bool = false;
    while !stop && i < n
        invariant
            i <= n,
            n == inner@.len(),
            base == parsed_calls_model(old(calls)@),
            !stop ==> base + spec_invokes(inner@, 0) =~= parsed_calls_model(calls@)
                + spec_invokes(inner@, i as int),
            stop ==> base + spec_invokes(inner@, 0) =~= parsed_calls_model(calls@),
        decreases n - i, (if stop { 0int } else { 1int }),
    {
        match invoke_at(inner, i) {
            Some(inv) => {
                let name = string_from_chars(&inv.0);
                let arguments = params_arguments(&inv.1);
                let nxt: usize = inv.2;
                let ghost before = parsed_calls_model(calls@);
                calls.push(ParsedToolCall { name, arguments });
                proof {
                    assert(parsed_calls_model(calls@) =~= before + seq![
                        (inv.0@, parsed_calls_model(calls@).last().1),
                    ]);
                }
                if nxt > i {
                    i = nxt;
                } else {
                    stop = true;
                }
            }
            None => {
                i = i + 1;
            }
        }
    }
    proof {
        if !stop {
            assert(spec_invokes(inner@, n as int) =~= Seq::<(Seq<char>, Seq<char>)>::empty());
        }
    }
}

} // verus!
