use vstd::prelude::*;

verus! {

broadcast use vstd::seq::group_seq_axioms, vstd::std_specs::vec::group_vec_axioms, vstd::string::group_string_axioms;

use vstd::std_specs::iter::IteratorSpec;

/// A JSON value. Numbers are kept as their source text, so no floating-point
/// representation is ever needed inside the library; object fields keep the
/// order in which they were written.
#[derive(Debug)]
pub enum JsonValue {
    Null,
    Bool(bool),
    Num(String),
    Str(String),
    Arr(Vec<JsonValue>),
    Obj(Vec<(String, JsonValue)>),
}

/// The mathematical model of a JSON value: the same shape over sequences.
#[verifier::ext_equal]
pub ghost enum JsonModel {
    Null,
    Bool { b: bool },
    Num { text: Seq<char> },
    Str { text: Seq<char> },
    Arr { items: Seq<JsonModel> },
    Obj { fields: Seq<(Seq<char>, JsonModel)> },
}

impl JsonValue {
    /// The model of this value.
    pub open spec fn model(self) -> JsonModel
        decreases self, 1int, 0int,
    {
        match self {
            JsonValue::Null => JsonModel::Null,
            JsonValue::Bool(b) => JsonModel::Bool { b },
            JsonValue::Num(s) => JsonModel::Num { text: s@ },
            JsonValue::Str(s) => JsonModel::Str { text: s@ },
            JsonValue::Arr(items) => JsonModel::Arr { items: models_of(items@) },
            JsonValue::Obj(fields) => JsonModel::Obj { fields: field_models_of(fields@) },
        }
    }
}

/// The models of a sequence of JSON values.
pub open spec fn models_of(items: Seq<JsonValue>) -> Seq<JsonModel>
    decreases items, 0int, 0int,
{
    if items.len() == 0 {
        Seq::<JsonModel>::empty()
    } else {
        seq![items[0].model()] + models_of(items.drop_first())
    }
}

/// The models of a sequence of JSON object fields.
pub open spec fn field_models_of(fields: Seq<(String, JsonValue)>) -> Seq<(Seq<char>, JsonModel)>
    decreases fields, 0int, 0int,
{
    if fields.len() == 0 {
        Seq::<(Seq<char>, JsonModel)>::empty()
    } else {
        seq![(fields[0].0@, fields[0].1.model())] + field_models_of(fields.drop_first())
    }
}

pub broadcast proof fn lemma_models_of_len(items: Seq<JsonValue>)
    ensures
        #[trigger] models_of(items).len() == items.len(),
    decreases items.len(),
{
    if items.len() > 0 {
        lemma_models_of_len(items.drop_first());
    }
}

pub broadcast proof fn lemma_models_of_index(items: Seq<JsonValue>, i: int)
    requires
        0 <= i < items.len(),
    ensures
        #[trigger] models_of(items)[i] == items[i].model(),
    decreases items.len(),
{
    lemma_models_of_len(items.drop_first());
    if i > 0 {
        lemma_models_of_index(items.drop_first(), i - 1);
    }
}

pub proof fn lemma_models_cons(v: JsonValue, rest: Seq<JsonValue>)
    ensures
        models_of(seq![v] + rest) == seq![v.model()] + models_of(rest),
{
    let s = seq![v] + rest;
    assert(s.drop_first() =~= rest);
    assert(models_of(s) == seq![s[0].model()] + models_of(s.drop_first()));
    assert(models_of(s) =~= seq![v.model()] + models_of(rest));
}

pub proof fn lemma_field_models_cons(f: (String, JsonValue), rest: Seq<(String, JsonValue)>)
    ensures
        field_models_of(seq![f] + rest) == seq![(f.0@, f.1.model())] + field_models_of(rest),
{
    let s = seq![f] + rest;
    assert(s.drop_first() =~= rest);
    assert(field_models_of(s) == seq![(s[0].0@, s[0].1.model())] + field_models_of(s.drop_first()));
    assert(field_models_of(s) =~= seq![(f.0@, f.1.model())] + field_models_of(rest));
}

pub broadcast proof fn lemma_field_models_of_len(fields: Seq<(String, JsonValue)>)
    ensures
        #[trigger] field_models_of(fields).len() == fields.len(),
    decreases fields.len(),
{
    if fields.len() > 0 {
        lemma_field_models_of_len(fields.drop_first());
    }
}

pub broadcast proof fn lemma_field_models_of_index(fields: Seq<(String, JsonValue)>, i: int)
    requires
        0 <= i < fields.len(),
    ensures
        #[trigger] field_models_of(fields)[i] == (fields[i].0@, fields[i].1.model()),
    decreases fields.len(),
{
    lemma_field_models_of_len(fields.drop_first());
    if i > 0 {
        lemma_field_models_of_index(fields.drop_first(), i - 1);
    }
}

/// Hexadecimal digit characters, lower case, for indices 0 to 15.
pub open spec fn spec_hex_digit(d: int) -> char {
    if d == 0 { '0' } else if d == 1 { '1' } else if d == 2 { '2' } else if d == 3 { '3' }
    else if d == 4 { '4' } else if d == 5 { '5' } else if d == 6 { '6' } else if d == 7 { '7' }
    else if d == 8 { '8' } else if d == 9 { '9' } else if d == 10 { 'a' } else if d == 11 { 'b' }
    else if d == 12 { 'c' } else if d == 13 { 'd' } else if d == 14 { 'e' } else { 'f' }
}

/// How one character of a JSON string is written inside double quotes.
pub open spec fn spec_escape_char(c: char) -> Seq<char> {
    if c == '"' { seq!['\\', '"'] }
    else if c == '\\' { seq!['\\', '\\'] }
    else if c == '\u{8}' { seq!['\\', 'b'] }
    else if c == '\u{c}' { seq!['\\', 'f'] }
    else if c == '\n' { seq!['\\', 'n'] }
    else if c == '\r' { seq!['\\', 'r'] }
    else if c == '\t' { seq!['\\', 't'] }
    else if (c as u32) < 0x20 {
        seq!['\\', 'u', '0', '0', spec_hex_digit((c as u32) as int / 16), spec_hex_digit((c as u32) as int % 16)]
    } else {
        seq![c]
    }
}

/// The escaped form of the first `n` characters of `s`.
pub open spec fn spec_escape_prefix(s: Seq<char>, n: int) -> Seq<char>
    decreases n,
{
    if n <= 0 {
        Seq::<char>::empty()
    } else {
        spec_escape_prefix(s, n - 1) + spec_escape_char(s[n - 1])
    }
}

/// The escaped form of a whole string.
pub open spec fn spec_escape(s: Seq<char>) -> Seq<char> {
    spec_escape_prefix(s, s.len() as int)
}

/// The serialized text of a JSON value: compact, no added spaces, fields in
/// their stored order.
pub open spec fn spec_json_text(m: JsonModel) -> Seq<char>
    decreases m, 1int, 0int,
{
    match m {
        JsonModel::Null => seq!['n', 'u', 'l', 'l'],
        JsonModel::Bool { b } => if b { seq!['t', 'r', 'u', 'e'] } else { seq!['f', 'a', 'l', 's', 'e'] },
        JsonModel::Num { text } => text,
        JsonModel::Str { text } => seq!['"'] + spec_escape(text) + seq!['"'],
        JsonModel::Arr { items } => seq!['['] + spec_items_text(items, items.len() as int) + seq![']'],
        JsonModel::Obj { fields } => seq!['{'] + spec_fields_text(fields, fields.len() as int) + seq!['}'],
    }
}

/// The comma-joined text of the first `n` array items.
pub open spec fn spec_items_text(items: Seq<JsonModel>, n: int) -> Seq<char>
    decreases items, 0int, n,
{
    if n <= 0 || n > items.len() {
        Seq::<char>::empty()
    } else if n == 1 {
        spec_json_text(items[0])
    } else {
        spec_items_text(items, n - 1) + seq![','] + spec_json_text(items[n - 1])
    }
}

/// The comma-joined text of the first `n` object fields, each written as
/// a quoted key, a colon and the field's value.
pub open spec fn spec_fields_text(fields: Seq<(Seq<char>, JsonModel)>, n: int) -> Seq<char>
    decreases fields, 0int, n,
{
    if n <= 0 || n > fields.len() {
        Seq::<char>::empty()
    } else if n == 1 {
        spec_field_text(fields[0])
    } else {
        spec_fields_text(fields, n - 1) + seq![','] + spec_field_text(fields[n - 1])
    }
}

pub open spec fn spec_field_text(field: (Seq<char>, JsonModel)) -> Seq<char>
    decreases field, 1int, 0int,
{
    seq!['"'] + spec_escape(field.0) + seq!['"', ':'] + spec_json_text(field.1)
}

fn hex_digit(d: u32) -> (c: char)
    requires
        d < 16,
    ensures
        c == spec_hex_digit(d as int),
{
    match d {
        0 => '0', 1 => '1', 2 => '2', 3 => '3', 4 => '4', 5 => '5', 6 => '6', 7 => '7',
        8 => '8', 9 => '9', 10 => 'a', 11 => 'b', 12 => 'c', 13 => 'd', 14 => 'e', _ => 'f',
    }
}

/// Append the escaped form of one character.
fn write_escaped_char(c: char, out: &mut Vec<char>)
    ensures
        final(out)@ == old(out)@ + spec_escape_char(c),
{
    if c == '"' { out.push('\\'); out.push('"'); }
    else if c == '\\' { out.push('\\'); out.push('\\'); }
    else if c == '\u{8}' { out.push('\\'); out.push('b'); }
    else if c == '\u{c}' { out.push('\\'); out.push('f'); }
    else if c == '\n' { out.push('\\'); out.push('n'); }
    else if c == '\r' { out.push('\\'); out.push('r'); }
    else if c == '\t' { out.push('\\'); out.push('t'); }
    else if (c as u32) < 0x20 {
        let n: u32 = c as u32;
        out.push('\\'); out.push('u'); out.push('0'); out.push('0');
        out.push(hex_digit(n / 16));
        out.push(hex_digit(n % 16));
    } else {
        out.push(c);
    }
    assert(out@ =~= old(out)@ + spec_escape_char(c));
}

/// Append the escaped form of a whole string.
fn write_escaped(s: &Vec<char>, out: &mut Vec<char>)
    ensures
        final(out)@ == old(out)@ + spec_escape(s@),
{
    let n = s.len();
    let mut i: usize = 0;
    while i < n
        invariant
            n == s@.len(),
            i <= n,
            out@ == old(out)@ + spec_escape_prefix(s@, i as int),
        decreases n - i,
    {
        write_escaped_char(s[i], out);
        i = i + 1;
    }
}

/// Append the serialized text of a JSON value.
pub fn write_json(v: &JsonValue, out: &mut Vec<char>)
    ensures
        final(out)@ == old(out)@ + spec_json_text(v.model()),
    decreases *v,
{
    broadcast use lemma_models_of_len, lemma_models_of_index, lemma_field_models_of_len, lemma_field_models_of_index;

    match v {
        JsonValue::Null => {
            out.push('n'); out.push('u'); out.push('l'); out.push('l');
            assert(out@ =~= old(out)@ + spec_json_text(v.model()));
        }
        JsonValue::Bool(b) => {
            if *b {
                out.push('t'); out.push('r'); out.push('u'); out.push('e');
            } else {
                out.push('f'); out.push('a'); out.push('l'); out.push('s'); out.push('e');
            }
            assert(out@ =~= old(out)@ + spec_json_text(v.model()));
        }
        JsonValue::Num(s) => {
            let cs = str_chars(s.as_str());
            let mut j: usize = 0;
            let n = cs.len();
            while j < n
                invariant
                    n == cs@.len(),
                    cs@ == s@,
                    j <= n,
                    out@ == old(out)@ + s@.subrange(0, j as int),
                decreases n - j,
            {
                out.push(cs[j]);
                assert(out@ =~= old(out)@ + s@.subrange(0, j + 1 as int));
                j = j + 1;
            }
            assert(s@.subrange(0, n as int) =~= s@);
        }
        JsonValue::Str(s) => {
            out.push('"');
            let cs = str_chars(s.as_str());
            write_escaped(&cs, out);
            out.push('"');
            assert(out@ =~= old(out)@ + spec_json_text(v.model()));
        }
        JsonValue::Arr(items) => {
            out.push('[');
            let ghost models = models_of(items@);
            let n = items.len();
            let mut i: usize = 0;
            while i < n
                invariant
                    n == items@.len(),
                    i <= n,
                    *v == JsonValue::Arr(*items),
                    models == models_of(items@),
                    out@ == old(out)@ + seq!['['] + spec_items_text(models, i as int),
                decreases n - i,
            {
                if i > 0 {
                    out.push(',');
                }
                proof {
                    assert(decreases_to!(*v => items@[i as int])) by {
                        assert(v is Arr);
                        assert(decreases_to!(*v => v->Arr_0));
                        assert(decreases_to!(v->Arr_0 => items@));
                        assert(decreases_to!(items@ => items@[i as int]));
                    }
                }
                write_json(&items[i], out);
                proof {
                    lemma_models_of_len(items@);
                    lemma_models_of_index(items@, i as int);
                    if i == 0 {
                        assert(spec_items_text(models, 1) == spec_json_text(models[0]));
                    } else {
                        assert(spec_items_text(models, (i + 1) as int) == spec_items_text(models, i as int)
                            + seq![','] + spec_json_text(models[i as int]));
                    }
                }
                assert(out@ =~= old(out)@ + seq!['['] + spec_items_text(models, (i + 1) as int));
                i = i + 1;
            }
            out.push(']');
            assert(out@ =~= old(out)@ + spec_json_text(v.model()));
        }
        JsonValue::Obj(fields) => {
            out.push('{');
            let ghost models = field_models_of(fields@);
            let n = fields.len();
            let mut i: usize = 0;
            while i < n
                invariant
                    n == fields@.len(),
                    i <= n,
                    *v == JsonValue::Obj(*fields),
                    models == field_models_of(fields@),
                    out@ == old(out)@ + seq!['{'] + spec_fields_text(models, i as int),
                decreases n - i,
            {
                if i > 0 {
                    out.push(',');
                }
                out.push('"');
                let key_chars = str_chars(fields[i].0.as_str());
                write_escaped(&key_chars, out);
                out.push('"');
                out.push(':');
                proof {
                    assert(decreases_to!(*v => fields@[i as int].1)) by {
                        assert(v is Obj);
                        assert(decreases_to!(*v => v->Obj_0));
                        assert(decreases_to!(v->Obj_0 => fields@));
                        assert(decreases_to!(fields@ => fields@[i as int]));
                        assert(decreases_to!(fields@[i as int] => fields@[i as int].1));
                    }
                }
                write_json(&fields[i].1, out);
                proof {
                    lemma_field_models_of_len(fields@);
                    lemma_field_models_of_index(fields@, i as int);
                    if i == 0 {
                        assert(spec_fields_text(models, 1) == spec_field_text(models[0]));
                    } else {
                        assert(spec_fields_text(models, (i + 1) as int) == spec_fields_text(models, i as int)
                            + seq![','] + spec_field_text(models[i as int]));
                    }
                }
                assert(out@ =~= old(out)@ + seq!['{'] + spec_fields_text(models, (i + 1) as int));
                i = i + 1;
            }
            out.push('}');
            assert(out@ =~= old(out)@ + spec_json_text(v.model()));
        }
    }
}

/// Serialize a JSON value to its compact text.
pub fn json_to_string(v: &JsonValue) -> (r: String)
    ensures
        r@ == spec_json_text(v.model()),
{
    let mut out: Vec<char> = Vec::new();
    write_json(v, &mut out);
    string_from_chars(&out)
}

/// The characters of a string, as a vector.
pub fn str_chars(s: &str) -> (r: Vec<char>)
    ensures
        r@ == s@,
{
    let mut r: Vec<char> = Vec::new();
    let mut it = s.chars();
    loop
        invariant
            it.obeys_prophetic_iter_laws(),
            it.decrease() is Some,
            s@ == r@ + it.remaining(),
        ensures
            s@ == r@,
        decreases it.decrease()->0,
    {
        match it.next() {
            Some(c) => {
                r.push(c);
            }
            None => {
                assert(s@ =~= r@);
                break;
            }
        }
    }
    r
}

/// Relies on `String`'s `FromIterator<char>`: collecting characters yields
/// the string holding exactly those characters.
#[verifier::external_body]
pub fn string_from_chars(v: &Vec<char>) -> (r: String)
    ensures
        r@ == v@,
{
    v.iter().collect()
}

// ---------------------------------------------------------------------------
// Parsing
// ---------------------------------------------------------------------------

/// JSON whitespace.
pub open spec fn spec_is_ws(c: char) -> bool {
    c == ' ' || c == '\t' || c == '\n' || c == '\r'
}

/// An ASCII decimal digit.
pub open spec fn spec_is_digit(c: char) -> bool {
    '0' <= c && c <= '9'
}

/// The value of a hexadecimal digit, or -1.
pub open spec fn spec_hex_val(c: char) -> int {
    if '0' <= c && c <= '9' { c as u32 as int - '0' as u32 as int }
    else if 'a' <= c && c <= 'f' { 10 + c as u32 as int - 'a' as u32 as int }
    else if 'A' <= c && c <= 'F' { 10 + c as u32 as int - 'A' as u32 as int }
    else { -1 }
}

/// The value of the four hexadecimal digits at `i`, or -1.
pub open spec fn spec_hex4(s: Seq<char>, i: int) -> int {
    if i < 0 || i + 4 > s.len() {
        -1
    } else if spec_hex_val(s[i]) < 0 || spec_hex_val(s[i + 1]) < 0 || spec_hex_val(s[i + 2]) < 0
        || spec_hex_val(s[i + 3]) < 0 {
        -1
    } else {
        spec_hex_val(s[i]) * 0x1000 + spec_hex_val(s[i + 1]) * 0x100 + spec_hex_val(s[i + 2]) * 16
            + spec_hex_val(s[i + 3])
    }
}

/// The position of the first non-whitespace character at or after `i`.
pub open spec fn spec_skip_ws(s: Seq<char>, i: int) -> int
    decreases s.len() - i,
{
    if 0 <= i && i < s.len() && spec_is_ws(s[i]) {
        spec_skip_ws(s, i + 1)
    } else {
        i
    }
}

/// The decoded character of a one-letter escape, if the letter is valid.
pub open spec fn spec_unescape(c: char) -> Option<char> {
    if c == '"' { Some('"') }
    else if c == '\\' { Some('\\') }
    else if c == '/' { Some('/') }
    else if c == 'b' { Some('\u{8}') }
    else if c == 'f' { Some('\u{c}') }
    else if c == 'n' { Some('\n') }
    else if c == 'r' { Some('\r') }
    else if c == 't' { Some('\t') }
    else { None }
}

/// Parse the body of a JSON string, starting after the opening quote;
/// the returned position is just past the closing quote.
pub open spec fn spec_parse_string_body(s: Seq<char>, i: int) -> Option<(Seq<char>, int)>
    decreases s.len() - i,
{
    if i < 0 || i >= s.len() {
        None
    } else if s[i] == '"' {
        Some((Seq::<char>::empty(), i + 1))
    } else if s[i] == '\\' {
        if i + 1 >= s.len() {
            None
        } else if s[i + 1] == 'u' {
            let h = spec_hex4(s, i + 2);
            if h < 0 {
                None
            } else if 0xD800 <= h && h < 0xDC00 {
                if i + 12 <= s.len() && s[i + 6] == '\\' && s[i + 7] == 'u' {
                    let h2 = spec_hex4(s, i + 8);
                    if 0xDC00 <= h2 && h2 < 0xE000 {
                        let cp = 0x10000 + (h - 0xD800) * 0x400 + (h2 - 0xDC00);
                        match spec_parse_string_body(s, i + 12) {
                            Some(rest) => Some((seq![(cp as u32) as char] + rest.0, rest.1)),
                            None => None,
                        }
                    } else {
                        None
                    }
                } else {
                    None
                }
            } else if 0xDC00 <= h && h < 0xE000 {
                None
            } else {
                match spec_parse_string_body(s, i + 6) {
                    Some(rest) => Some((seq![(h as u32) as char] + rest.0, rest.1)),
                    None => None,
                }
            }
        } else {
            match spec_unescape(s[i + 1]) {
                Some(c) => match spec_parse_string_body(s, i + 2) {
                    Some(rest) => Some((seq![c] + rest.0, rest.1)),
                    None => None,
                },
                None => None,
            }
        }
    } else if (s[i] as u32) < 0x20 {
        None
    } else {
        match spec_parse_string_body(s, i + 1) {
            Some(rest) => Some((seq![s[i]] + rest.0, rest.1)),
            None => None,
        }
    }
}

/// The position of the first non-digit character at or after `i`.
pub open spec fn spec_digits_end(s: Seq<char>, i: int) -> int
    decreases s.len() - i,
{
    if 0 <= i && i < s.len() && spec_is_digit(s[i]) {
        spec_digits_end(s, i + 1)
    } else {
        i
    }
}

/// Parse a JSON number starting at `i`; the result is its source text.
pub open spec fn spec_parse_number(s: Seq<char>, i: int) -> Option<(Seq<char>, int)> {
    if i < 0 || i >= s.len() {
        None
    } else {
        let j0 = if s[i] == '-' { i + 1 } else { i };
        if j0 >= s.len() || !spec_is_digit(s[j0]) {
            None
        } else {
            let j1 = if s[j0] == '0' { j0 + 1 } else { spec_digits_end(s, j0) };
            let j2 = if j1 < s.len() && s[j1] == '.' {
                if spec_digits_end(s, j1 + 1) == j1 + 1 { -1 } else { spec_digits_end(s, j1 + 1) }
            } else {
                j1
            };
            if j2 < 0 {
                None
            } else {
                let j3 = if j2 < s.len() && (s[j2] == 'e' || s[j2] == 'E') {
                    let k = if j2 + 1 < s.len() && (s[j2 + 1] == '+' || s[j2 + 1] == '-') {
                        j2 + 2
                    } else {
                        j2 + 1
                    };
                    if spec_digits_end(s, k) == k { -1 } else { spec_digits_end(s, k) }
                } else {
                    j2
                };
                if j3 < 0 {
                    None
                } else {
                    Some((s.subrange(i, j3), j3))
                }
            }
        }
    }
}

/// The literal `lit` occurs at position `i` of `s`.
pub open spec fn spec_match_lit(s: Seq<char>, i: int, lit: Seq<char>) -> bool {
    0 <= i && i + lit.len() <= s.len() && s.subrange(i, i + lit.len()) == lit
}

/// Parse one JSON value whose first character is at `i` (no leading
/// whitespace).
pub open spec fn spec_parse_value(s: Seq<char>, i: int) -> Option<(JsonModel, int)>
    decreases s.len() - i, 1int,
{
    if i < 0 || i >= s.len() {
        None
    } else if s[i] == 'n' {
        if spec_match_lit(s, i, seq!['n', 'u', 'l', 'l']) {
            Some((JsonModel::Null, i + 4))
        } else {
            None
        }
    } else if s[i] == 't' {
        if spec_match_lit(s, i, seq!['t', 'r', 'u', 'e']) {
            Some((JsonModel::Bool { b: true }, i + 4))
        } else {
            None
        }
    } else if s[i] == 'f' {
        if spec_match_lit(s, i, seq!['f', 'a', 'l', 's', 'e']) {
            Some((JsonModel::Bool { b: false }, i + 5))
        } else {
            None
        }
    } else if s[i] == '"' {
        match spec_parse_string_body(s, i + 1) {
            Some(r) => Some((JsonModel::Str { text: r.0 }, r.1)),
            None => None,
        }
    } else if s[i] == '[' {
        match spec_parse_arr(s, i + 1) {
            Some(r) => Some((JsonModel::Arr { items: r.0 }, r.1)),
            None => None,
        }
    } else if s[i] == '{' {
        match spec_parse_obj(s, i + 1) {
            Some(r) => Some((JsonModel::Obj { fields: r.0 }, r.1)),
            None => None,
        }
    } else if s[i] == '-' || spec_is_digit(s[i]) {
        match spec_parse_number(s, i) {
            Some(r) => Some((JsonModel::Num { text: r.0 }, r.1)),
            None => None,
        }
    } else {
        None
    }
}

/// Parse the items of an array, starting just after the opening bracket.
pub open spec fn spec_parse_arr(s: Seq<char>, i: int) -> Option<(Seq<JsonModel>, int)>
    decreases s.len() - i, 3int,
{
    if i < 0 {
        None
    } else {
        let j = spec_skip_ws(s, i);
        if j >= s.len() || j < i {
            None
        } else if s[j] == ']' {
            Some((Seq::<JsonModel>::empty(), j + 1))
        } else {
            spec_parse_elems(s, i)
        }
    }
}

/// Parse one or more comma-separated array items and the closing bracket.
pub open spec fn spec_parse_elems(s: Seq<char>, i: int) -> Option<(Seq<JsonModel>, int)>
    decreases s.len() - i, 2int,
{
    if i < 0 {
        None
    } else {
        let j0 = spec_skip_ws(s, i);
        if j0 < i || j0 > s.len() {
            None
        } else {
            match spec_parse_value(s, j0) {
                Some(r) => {
                    let j = r.1;
                    if j <= j0 || j > s.len() {
                        None
                    } else {
                        let k = spec_skip_ws(s, j);
                        if k >= s.len() || k < j {
                            None
                        } else if s[k] == ']' {
                            Some((seq![r.0], k + 1))
                        } else if s[k] == ',' {
                            match spec_parse_elems(s, k + 1) {
                                Some(rest) => Some((seq![r.0] + rest.0, rest.1)),
                                None => None,
                            }
                        } else {
                            None
                        }
                    }
                }
                None => None,
            }
        }
    }
}

/// Parse the fields of an object, starting just after the opening brace.
pub open spec fn spec_parse_obj(s: Seq<char>, i: int) -> Option<(Seq<(Seq<char>, JsonModel)>, int)>
    decreases s.len() - i, 3int,
{
    if i < 0 {
        None
    } else {
        let j = spec_skip_ws(s, i);
        if j >= s.len() || j < i {
            None
        } else if s[j] == '}' {
            Some((Seq::<(Seq<char>, JsonModel)>::empty(), j + 1))
        } else {
            spec_parse_members(s, i)
        }
    }
}

/// Parse one or more comma-separated object fields and the closing brace.
pub open spec fn spec_parse_members(s: Seq<char>, i: int) -> Option<
    (Seq<(Seq<char>, JsonModel)>, int),
>
    decreases s.len() - i, 2int,
{
    if i < 0 {
        None
    } else {
        let j0 = spec_skip_ws(s, i);
        if j0 < i || j0 >= s.len() || s[j0] != '"' {
            None
        } else {
            match spec_parse_string_body(s, j0 + 1) {
                Some(key) => {
                    let jk = key.1;
                    if jk <= j0 || jk > s.len() {
                        None
                    } else {
                        let jc = spec_skip_ws(s, jk);
                        if jc >= s.len() || jc < jk || s[jc] != ':' {
                            None
                        } else {
                            let jv = spec_skip_ws(s, jc + 1);
                            if jv < jc + 1 || jv > s.len() {
                                None
                            } else {
                                match spec_parse_value(s, jv) {
                                    Some(r) => {
                                        let j = r.1;
                                        if j <= jc || j > s.len() {
                                            None
                                        } else {
                                            let k = spec_skip_ws(s, j);
                                            if k >= s.len() || k < j {
                                                None
                                            } else if s[k] == '}' {
                                                Some((seq![(key.0, r.0)], k + 1))
                                            } else if s[k] == ',' {
                                                match spec_parse_members(s, k + 1) {
                                                    Some(rest) => Some(
                                                        (seq![(key.0, r.0)] + rest.0, rest.1),
                                                    ),
                                                    None => None,
                                                }
                                            } else {
                                                None
                                            }
                                        }
                                    }
                                    None => None,
                                }
                            }
                        }
                    }
                }
                None => None,
            }
        }
    }
}

/// Parse a complete JSON text: one value, surrounded only by whitespace.
pub open spec fn spec_parse_json(s: Seq<char>) -> Option<JsonModel> {
    match spec_parse_value(s, spec_skip_ws(s, 0)) {
        Some(r) => if spec_skip_ws(s, r.1) == s.len() {
            Some(r.0)
        } else {
            None
        },
        None => None,
    }
}

/// The values of a stream of whitespace-separated JSON texts, read from the
/// front until the text is exhausted or a value fails to parse.
pub open spec fn spec_parse_stream(s: Seq<char>, i: int) -> Seq<JsonModel>
    decreases s.len() - i,
{
    if i < 0 {
        Seq::<JsonModel>::empty()
    } else {
        let j0 = spec_skip_ws(s, i);
        if j0 >= s.len() || j0 < i {
            Seq::<JsonModel>::empty()
        } else {
            match spec_parse_value(s, j0) {
                Some(r) => if r.1 > j0 && r.1 <= s.len() {
                    seq![r.0] + spec_parse_stream(s, r.1)
                } else {
                    seq![r.0]
                },
                None => Seq::<JsonModel>::empty(),
            }
        }
    }
}

/// Whether `v` is a valid Unicode scalar value.
pub open spec fn char_ok(v: u32) -> bool {
    v < 0xD800 || (0xE000 <= v && v < 0x110000)
}

/// Relies on `char::from_u32`: it returns `Some` exactly for valid Unicode
/// scalar values, and then the character with that value.
#[verifier::external_body]
fn char_from_u32(v: u32) -> (r: Option<char>)
    ensures
        r == (if char_ok(v) { Some(v as char) } else { None::<char> }),
{
    char::from_u32(v)
}

fn is_ws(c: char) -> (b: bool)
    ensures
        b == spec_is_ws(c),
{
    c == ' ' || c == '\t' || c == '\n' || c == '\r'
}

fn is_digit(c: char) -> (b: bool)
    ensures
        b == spec_is_digit(c),
{
    '0' <= c && c <= '9'
}

fn hex_val(c: char) -> (r: i32)
    ensures
        r as int == spec_hex_val(c),
{
    if '0' <= c && c <= '9' { (c as u32 as i32) - ('0' as u32 as i32) }
    else if 'a' <= c && c <= 'f' { 10 + (c as u32 as i32) - ('a' as u32 as i32) }
    else if 'A' <= c && c <= 'F' { 10 + (c as u32 as i32) - ('A' as u32 as i32) }
    else { -1 }
}

fn hex4(s: &Vec<char>, i: usize) -> (r: i32)
    ensures
        r as int == spec_hex4(s@, i as int),
        r >= -1,
        r < 0x10000,
{
    if i >= s.len() || s.len() - i < 4 {
        -1
    } else {
        let a: i32 = hex_val(s[i]);
        let b: i32 = hex_val(s[i + 1]);
        let c: i32 = hex_val(s[i + 2]);
        let d: i32 = hex_val(s[i + 3]);
        if a < 0 || b < 0 || c < 0 || d < 0 {
            -1
        } else {
            a * 0x1000 + b * 0x100 + c * 16 + d
        }
    }
}

pub fn skip_ws(s: &Vec<char>, i: usize) -> (j: usize)
    requires
        i <= s@.len(),
    ensures
        j as int == spec_skip_ws(s@, i as int),
        i <= j <= s@.len(),
{
    let n = s.len();
    let mut j: usize = i;
    while j < n && is_ws(s[j])
        invariant
            i <= j <= n,
            n == s@.len(),
            spec_skip_ws(s@, i as int) == spec_skip_ws(s@, j as int),
        decreases n - j,
    {
        j = j + 1;
    }
    j
}

fn digits_end(s: &Vec<char>, i: usize) -> (j: usize)
    requires
        i <= s@.len(),
    ensures
        j as int == spec_digits_end(s@, i as int),
        i <= j <= s@.len(),
{
    let n = s.len();
    let mut j: usize = i;
    while j < n && is_digit(s[j])
        invariant
            i <= j <= n,
            n == s@.len(),
            spec_digits_end(s@, i as int) == spec_digits_end(s@, j as int),
        decreases n - j,
    {
        j = j + 1;
    }
    j
}

/// Parse the body of a JSON string after the opening quote.
fn parse_string_body(s: &Vec<char>, i: usize) -> (r: Option<(Vec<char>, usize)>)
    requires
        i <= s@.len(),
    ensures
        match (r, spec_parse_string_body(s@, i as int)) {
            (Some(e), Some(sp)) => e.0@ == sp.0 && e.1 as int == sp.1 && e.1 <= s@.len(),
            (None, None) => true,
            _ => false,
        },
    decreases s@.len() - i,
{
    if i >= s.len() {
        None
    } else {
        let c = s[i];
        if c == '"' {
            Some((Vec::<char>::new(), i + 1))
        } else if c == '\\' {
            if i + 1 >= s.len() {
                None
            } else if s[i + 1] == 'u' {
                if s.len() - i < 6 {
                    assert(spec_hex4(s@, i as int + 2) == -1);
                    None
                } else {
                let h: i32 = hex4(s, i + 2);
                if h < 0 {
                    None
                } else if 0xD800 <= h && h < 0xDC00 {
                    if s.len() - i >= 12 && s[i + 6] == '\\' && s[i + 7] == 'u' {
                        let h2: i32 = hex4(s, i + 8);
                        if 0xDC00 <= h2 && h2 < 0xE000 {
                            let cp: i32 = 0x10000 + (h - 0xD800) * 0x400 + (h2 - 0xDC00);
                            match char_from_u32(cp as u32) {
                                Some(dc) => match parse_string_body(s, i + 12) {
                                    Some(rest) => {
                                        let mut cs = rest.0;
                                        cs.insert(0, dc);
                                        assert(cs@ =~= seq![dc] + rest.0@);
                                        Some((cs, rest.1))
                                    }
                                    None => None,
                                },
                                None => None,
                            }
                        } else {
                            None
                        }
                    } else {
                        None
                    }
                } else if 0xDC00 <= h && h < 0xE000 {
                    None
                } else {
                    match char_from_u32(h as u32) {
                        Some(dc) => match parse_string_body(s, i + 6) {
                            Some(rest) => {
                                let mut cs = rest.0;
                                cs.insert(0, dc);
                                assert(cs@ =~= seq![dc] + rest.0@);
                                Some((cs, rest.1))
                            }
                            None => None,
                        },
                        None => None,
                    }
                }
                }
            } else {
                let e = s[i + 1];
                let dec: Option<char> = if e == '"' { Some('"') }
                    else if e == '\\' { Some('\\') }
                    else if e == '/' { Some('/') }
                    else if e == 'b' { Some('\u{8}') }
                    else if e == 'f' { Some('\u{c}') }
                    else if e == 'n' { Some('\n') }
                    else if e == 'r' { Some('\r') }
                    else if e == 't' { Some('\t') }
                    else { None };
                match dec {
                    Some(dc) => match parse_string_body(s, i + 2) {
                        Some(rest) => {
                            let mut cs = rest.0;
                            cs.insert(0, dc);
                            assert(cs@ =~= seq![dc] + rest.0@);
                            Some((cs, rest.1))
                        }
                        None => None,
                    },
                    None => None,
                }
            }
        } else if (c as u32) < 0x20 {
            None
        } else {
            match parse_string_body(s, i + 1) {
                Some(rest) => {
                    let mut cs = rest.0;
                    cs.insert(0, c);
                    assert(cs@ =~= seq![c] + rest.0@);
                    Some((cs, rest.1))
                }
                None => None,
            }
        }
    }
}

/// Parse a JSON number starting at `i`, returning its source text.
fn parse_number(s: &Vec<char>, i: usize) -> (r: Option<(Vec<char>, usize)>)
    requires
        i <= s@.len(),
    ensures
        match (r, spec_parse_number(s@, i as int)) {
            (Some(e), Some(sp)) => e.0@ == sp.0 && e.1 as int == sp.1 && e.1 <= s@.len(),
            (None, None) => true,
            _ => false,
        },
{
    if i >= s.len() {
        None
    } else {
        let j0: usize = if s[i] == '-' { i + 1 } else { i };
        if j0 >= s.len() || !is_digit(s[j0]) {
            None
        } else {
            let j1: usize = if s[j0] == '0' { j0 + 1 } else { digits_end(s, j0) };
            let mut ok: bool = true;
            let mut j2: usize = j1;
            if j1 < s.len() && s[j1] == '.' {
                let k: usize = digits_end(s, j1 + 1);
                if k == j1 + 1 {
                    ok = false;
                } else {
                    j2 = k;
                }
            }
            if !ok {
                None
            } else {
                let mut j3: usize = j2;
                if j2 < s.len() && (s[j2] == 'e' || s[j2] == 'E') {
                    let k0: usize = if j2 + 1 < s.len() && (s[j2 + 1] == '+' || s[j2 + 1] == '-') {
                        j2 + 2
                    } else {
                        j2 + 1
                    };
                    let k: usize = digits_end(s, k0);
                    if k == k0 {
                        ok = false;
                    } else {
                        j3 = k;
                    }
                }
                if !ok {
                    None
                } else {
                    let mut cs: Vec<char> = Vec::new();
                    let mut k: usize = i;
                    while k < j3
                        invariant
                            i <= k <= j3 <= s@.len(),
                            cs@ == s@.subrange(i as int, k as int),
                        decreases j3 - k,
                    {
                        cs.push(s[k]);
                        assert(cs@ =~= s@.subrange(i as int, (k + 1) as int));
                        k = k + 1;
                    }
                    Some((cs, j3))
                }
            }
        }
    }
}

fn match_word5(s: &Vec<char>, i: usize, w0: char, w1: char, w2: char, w3: char, w4: char) -> (b: bool)
    requires
        i <= s@.len(),
    ensures
        b == spec_match_lit(s@, i as int, seq![w0, w1, w2, w3, w4]),
{
    let r = s.len() - i >= 5 && s[i] == w0 && s[i + 1] == w1 && s[i + 2] == w2 && s[i + 3] == w3
        && s[i + 4] == w4;
    proof {
        if r {
            assert(s@.subrange(i as int, i as int + 5) =~= seq![w0, w1, w2, w3, w4]);
        } else {
            if i as int + 5 <= s@.len() {
                assert(s@.subrange(i as int, i as int + 5).len() == 5);
                assert(forall|k: int| 0 <= k < 5 ==> #[trigger] s@.subrange(i as int, i as int + 5)[k]
                    == s@[i + k]);
            }
        }
    }
    r
}

fn match_word(s: &Vec<char>, i: usize, w0: char, w1: char, w2: char, w3: char) -> (b: bool)
    requires
        i <= s@.len(),
    ensures
        b == spec_match_lit(s@, i as int, seq![w0, w1, w2, w3]),
{
    let r = s.len() - i >= 4 && s[i] == w0 && s[i + 1] == w1 && s[i + 2] == w2 && s[i + 3] == w3;
    proof {
        if r {
            assert(s@.subrange(i as int, i as int + 4) =~= seq![w0, w1, w2, w3]);
        } else {
            if i as int + 4 <= s@.len() {
                assert(s@.subrange(i as int, i as int + 4).len() == 4);
                assert(forall|k: int| 0 <= k < 4 ==> #[trigger] s@.subrange(i as int, i as int + 4)[k] == s@[i + k]);
            }
        }
    }
    r
}

/// Parse one JSON value whose first character is at `i`.
#[verifier::rlimit(100)]
pub fn parse_value(s: &Vec<char>, i: usize) -> (r: Option<(JsonValue, usize)>)
    requires
        i <= s@.len(),
    ensures
        match (r, spec_parse_value(s@, i as int)) {
            (Some(e), Some(sp)) => e.0.model() == sp.0 && e.1 as int == sp.1 && e.1 <= s@.len(),
            (None, None) => true,
            _ => false,
        },
    decreases s@.len() - i, 1int,
{
    if i >= s.len() {
        None
    } else {
        let c = s[i];
        if c == 'n' {
            if match_word(s, i, 'n', 'u', 'l', 'l') {
                Some((JsonValue::Null, i + 4))
            } else {
                None
            }
        } else if c == 't' {
            if match_word(s, i, 't', 'r', 'u', 'e') {
                Some((JsonValue::Bool(true), i + 4))
            } else {
                None
            }
        } else if c == 'f' {
            if match_word5(s, i, 'f', 'a', 'l', 's', 'e') {
                Some((JsonValue::Bool(false), i + 5))
            } else {
                None
            }
        } else if c == '"' {
            match parse_string_body(s, i + 1) {
                Some(e) => Some((JsonValue::Str(string_from_chars(&e.0)), e.1)),
                None => None,
            }
        } else if c == '[' {
            match parse_arr(s, i + 1) {
                Some(e) => Some((JsonValue::Arr(e.0), e.1)),
                None => None,
            }
        } else if c == '{' {
            match parse_obj(s, i + 1) {
                Some(e) => Some((JsonValue::Obj(e.0), e.1)),
                None => None,
            }
        } else if c == '-' || is_digit(c) {
            match parse_number(s, i) {
                Some(e) => Some((JsonValue::Num(string_from_chars(&e.0)), e.1)),
                None => None,
            }
        } else {
            None
        }
    }
}

/// Parse the items of an array, starting just after the opening bracket.
fn parse_arr(s: &Vec<char>, i: usize) -> (r: Option<(Vec<JsonValue>, usize)>)
    requires
        i <= s@.len(),
    ensures
        match (r, spec_parse_arr(s@, i as int)) {
            (Some(e), Some(sp)) => models_of(e.0@) == sp.0 && e.1 as int == sp.1 && e.1 <= s@.len(),
            (None, None) => true,
            _ => false,
        },
    decreases s@.len() - i, 3int,
{
    let j: usize = skip_ws(s, i);
    if j >= s.len() {
        None
    } else if s[j] == ']' {
        let empty: Vec<JsonValue> = Vec::new();
        proof {
            assert(models_of(empty@) =~= Seq::<JsonModel>::empty());
        }
        Some((empty, j + 1))
    } else {
        parse_elems(s, i)
    }
}

/// Parse one or more comma-separated array items and the closing bracket.
fn parse_elems(s: &Vec<char>, i: usize) -> (r: Option<(Vec<JsonValue>, usize)>)
    requires
        i <= s@.len(),
    ensures
        match (r, spec_parse_elems(s@, i as int)) {
            (Some(e), Some(sp)) => models_of(e.0@) == sp.0 && e.1 as int == sp.1 && e.1 <= s@.len(),
            (None, None) => true,
            _ => false,
        },
    decreases s@.len() - i, 2int,
{
    let j0: usize = skip_ws(s, i);
    match parse_value(s, j0) {
        Some(e) => {
            let v = e.0;
            let j: usize = e.1;
            if j <= j0 {
                None
            } else {
                let k: usize = skip_ws(s, j);
                if k >= s.len() {
                    None
                } else if s[k] == ']' {
                    let mut out: Vec<JsonValue> = Vec::new();
                    out.push(v);
                    proof {
                        assert(out@ =~= seq![v] + Seq::<JsonValue>::empty());
                        lemma_models_cons(v, Seq::<JsonValue>::empty());
                        assert(models_of(out@) =~= seq![v.model()]);
                    }
                    Some((out, k + 1))
                } else if s[k] == ',' {
                    match parse_elems(s, k + 1) {
                        Some(rest) => {
                            let mut out = rest.0;
                            let ghost rest_view = out@;
                            out.insert(0, v);
                            proof {
                                assert(out@ =~= seq![v] + rest_view);
                                lemma_models_cons(v, rest_view);
                                assert(models_of(out@) == seq![v.model()] + models_of(rest_view));
                            }
                            Some((out, rest.1))
                        }
                        None => None,
                    }
                } else {
                    None
                }
            }
        }
        None => None,
    }
}

/// Parse the fields of an object, starting just after the opening brace.
fn parse_obj(s: &Vec<char>, i: usize) -> (r: Option<(Vec<(String, JsonValue)>, usize)>)
    requires
        i <= s@.len(),
    ensures
        match (r, spec_parse_obj(s@, i as int)) {
            (Some(e), Some(sp)) => field_models_of(e.0@) == sp.0 && e.1 as int == sp.1 && e.1
                <= s@.len(),
            (None, None) => true,
            _ => false,
        },
    decreases s@.len() - i, 3int,
{
    let j: usize = skip_ws(s, i);
    if j >= s.len() {
        None
    } else if s[j] == '}' {
        let empty: Vec<(String, JsonValue)> = Vec::new();
        proof {
            assert(field_models_of(empty@) =~= Seq::<(Seq<char>, JsonModel)>::empty());
        }
        Some((empty, j + 1))
    } else {
        parse_members(s, i)
    }
}

/// Parse one or more comma-separated object fields and the closing brace.
fn parse_members(s: &Vec<char>, i: usize) -> (r: Option<(Vec<(String, JsonValue)>, usize)>)
    requires
        i <= s@.len(),
    ensures
        match (r, spec_parse_members(s@, i as int)) {
            (Some(e), Some(sp)) => field_models_of(e.0@) == sp.0 && e.1 as int == sp.1 && e.1
                <= s@.len(),
            (None, None) => true,
            _ => false,
        },
    decreases s@.len() - i, 2int,
{
    let j0: usize = skip_ws(s, i);
    if j0 >= s.len() {
        None
    } else if s[j0] != '"' {
        None
    } else {
        match parse_string_body(s, j0 + 1) {
            Some(keyr) => {
                let key: String = string_from_chars(&keyr.0);
                let jk: usize = keyr.1;
                if jk <= j0 {
                    None
                } else {
                    let jc: usize = skip_ws(s, jk);
                    if jc >= s.len() || s[jc] != ':' {
                        None
                    } else {
                        let jv: usize = skip_ws(s, jc + 1);
                        match parse_value(s, jv) {
                            Some(e) => {
                                let v = e.0;
                                let j: usize = e.1;
                                if j <= jc {
                                    None
                                } else {
                                    let k: usize = skip_ws(s, j);
                                    if k >= s.len() {
                                        None
                                    } else if s[k] == '}' {
                                        let mut out: Vec<(String, JsonValue)> = Vec::new();
                                        let ghost kv = (key, v);
                                        out.push((key, v));
                                        proof {
                                            assert(out@ =~= seq![kv]
                                                + Seq::<(String, JsonValue)>::empty());
                                            lemma_field_models_cons(
                                                kv,
                                                Seq::<(String, JsonValue)>::empty(),
                                            );
                                            assert(field_models_of(out@)
                                                =~= seq![(kv.0@, kv.1.model())]);
                                        }
                                        Some((out, k + 1))
                                    } else if s[k] == ',' {
                                        match parse_members(s, k + 1) {
                                            Some(rest) => {
                                                let mut out = rest.0;
                                                let ghost rest_view = out@;
                                                let ghost kv = (key, v);
                                                out.insert(0, (key, v));
                                                proof {
                                                    assert(out@ =~= seq![kv] + rest_view);
                                                    lemma_field_models_cons(kv, rest_view);
                                                    assert(field_models_of(out@)
                                                        == seq![(kv.0@, kv.1.model())]
                                                        + field_models_of(rest_view));
                                                }
                                                Some((out, rest.1))
                                            }
                                            None => None,
                                        }
                                    } else {
                                        None
                                    }
                                }
                            }
                            None => None,
                        }
                    }
                }
            }
            None => None,
        }
    }
}

/// Parse a complete JSON text: one value surrounded only by whitespace.
pub fn parse_json(text: &str) -> (r: Option<JsonValue>)
    ensures
        match (r, spec_parse_json(text@)) {
            (Some(v), Some(m)) => v.model() == m,
            (None, None) => true,
            _ => false,
        },
{
    let cs = str_chars(text);
    parse_json_chars(&cs)
}

/// Parse a complete JSON text given as characters.
pub fn parse_json_chars(cs: &Vec<char>) -> (r: Option<JsonValue>)
    ensures
        match (r, spec_parse_json(cs@)) {
            (Some(v), Some(m)) => v.model() == m,
            (None, None) => true,
            _ => false,
        },
{
    let i: usize = skip_ws(cs, 0);
    match parse_value(cs, i) {
        Some(e) => {
            let j: usize = skip_ws(cs, e.1);
            if j == cs.len() {
                Some(e.0)
            } else {
                None
            }
        }
        None => None,
    }
}

/// Parse a stream of whitespace-separated JSON values from position `i`,
/// stopping at the end of the text or at the first value that fails to parse.
pub fn parse_stream(s: &Vec<char>, i: usize) -> (r: Vec<JsonValue>)
    requires
        i <= s@.len(),
    ensures
        models_of(r@) == spec_parse_stream(s@, i as int),
    decreases s@.len() - i,
{
    let j0: usize = skip_ws(s, i);
    if j0 >= s.len() {
        let empty: Vec<JsonValue> = Vec::new();
        proof {
            assert(models_of(empty@) =~= Seq::<JsonModel>::empty());
        }
        empty
    } else {
        match parse_value(s, j0) {
            Some(e) => {
                let v = e.0;
                let j: usize = e.1;
                if j > j0 {
                    let mut rest = parse_stream(s, j);
                    let ghost rest_view = rest@;
                    rest.insert(0, v);
                    proof {
                        assert(rest@ =~= seq![v] + rest_view);
                        lemma_models_cons(v, rest_view);
                        assert(models_of(rest@) == seq![v.model()] + models_of(rest_view));
                    }
                    rest
                } else {
                    let mut out: Vec<JsonValue> = Vec::new();
                    out.push(v);
                    proof {
                        assert(out@ =~= seq![v] + Seq::<JsonValue>::empty());
                        lemma_models_cons(v, Seq::<JsonValue>::empty());
                        assert(models_of(out@) =~= seq![v.model()]);
                    }
                    out
                }
            }
            None => {
                let empty: Vec<JsonValue> = Vec::new();
                proof {
                    assert(models_of(empty@) =~= Seq::<JsonModel>::empty());
                }
                empty
            }
        }
    }
}

/// Look a key up among object fields, from position `i` on: the first
/// field with that name wins.
pub open spec fn spec_obj_get_from(
    fields: Seq<(Seq<char>, JsonModel)>,
    key: Seq<char>,
    i: int,
) -> Option<JsonModel>
    decreases fields.len() - i,
{
    if i < 0 || i >= fields.len() {
        None
    } else if fields[i].0 == key {
        Some(fields[i].1)
    } else {
        spec_obj_get_from(fields, key, i + 1)
    }
}

/// Look a key up in a JSON value: `Some` only on objects that have it.
pub open spec fn spec_get(m: JsonModel, key: Seq<char>) -> Option<JsonModel> {
    match m {
        JsonModel::Obj { fields } => spec_obj_get_from(fields, key, 0),
        _ => None,
    }
}

impl JsonValue {
    /// The value of the named object field, if this is an object that has it.
    pub fn get<'a>(&'a self, key: &str) -> (r: Option<&'a JsonValue>)
        ensures
            match (r, spec_get(self.model(), key@)) {
                (Some(v), Some(m)) => v.model() == m,
                (None, None) => true,
                _ => false,
            },
    {
        match self {
            JsonValue::Obj(fields) => {
                let ghost fm = field_models_of(fields@);
                proof {
                    lemma_field_models_of_len(fields@);
                }
                let n = fields.len();
                let mut i: usize = 0;
                while i < n
                    invariant
                        i <= n,
                        n == fields@.len(),
                        *self == JsonValue::Obj(*fields),
                        fm == field_models_of(fields@),
                        fm.len() == n,
                        spec_obj_get_from(fm, key@, 0) == spec_obj_get_from(fm, key@, i as int),
                    decreases n - i,
                {
                    proof {
                        lemma_field_models_of_index(fields@, i as int);
                    }
                    if str_eq(fields[i].0.as_str(), key) {
                        return Some(&fields[i].1);
                    }
                    i = i + 1;
                }
                None
            }
            _ => None,
        }
    }

    /// The text of a string value.
    pub fn as_str<'a>(&'a self) -> (r: Option<&'a String>)
        ensures
            match (r, self.model()) {
                (Some(s), JsonModel::Str { text }) => s@ == text,
                (None, _) => !(self.model() is Str),
                _ => false,
            },
    {
        match self {
            JsonValue::Str(s) => Some(s),
            _ => None,
        }
    }

    /// Whether this value is an object.
    pub fn is_object(&self) -> (r: bool)
        ensures
            r == (self.model() is Obj),
    {
        match self {
            JsonValue::Obj(_) => true,
            _ => false,
        }
    }

    /// Whether this value is an array.
    pub fn is_array(&self) -> (r: bool)
        ensures
            r == (self.model() is Arr),
    {
        match self {
            JsonValue::Arr(_) => true,
            _ => false,
        }
    }
}

impl Clone for JsonValue {
    /// A deep copy with the same model.
    fn clone(&self) -> (r: Self)
        ensures
            r.model() == self.model(),
        decreases *self,
    {
        broadcast use lemma_models_of_len, lemma_models_of_index, lemma_field_models_of_len, lemma_field_models_of_index;

        match self {
            JsonValue::Null => JsonValue::Null,
            JsonValue::Bool(b) => JsonValue::Bool(*b),
            JsonValue::Num(s) => JsonValue::Num(s.clone()),
            JsonValue::Str(s) => JsonValue::Str(s.clone()),
            JsonValue::Arr(items) => {
                let n = items.len();
                let mut out: Vec<JsonValue> = Vec::new();
                let mut i: usize = 0;
                while i < n
                    invariant
                        i <= n,
                        n == items@.len(),
                        *self == JsonValue::Arr(*items),
                        out@.len() == i,
                        forall|k: int| 0 <= k < i ==> (#[trigger] out@[k]).model()
                            == items@[k].model(),
                    decreases n - i,
                {
                    proof {
                        assert(decreases_to!(*self => items@[i as int])) by {
                            assert(self is Arr);
                            assert(decreases_to!(*self => self->Arr_0));
                            assert(decreases_to!(self->Arr_0 => items@));
                            assert(decreases_to!(items@ => items@[i as int]));
                        }
                    }
                    out.push(items[i].clone());
                    i = i + 1;
                }
                proof {
                    assert forall|k: int| 0 <= k < n implies #[trigger] models_of(out@)[k]
                        == models_of(items@)[k] by {
                        lemma_models_of_index(out@, k);
                        lemma_models_of_index(items@, k);
                    }
                    assert(models_of(out@) =~= models_of(items@));
                }
                JsonValue::Arr(out)
            }
            JsonValue::Obj(fields) => {
                let n = fields.len();
                let mut out: Vec<(String, JsonValue)> = Vec::new();
                let mut i: usize = 0;
                while i < n
                    invariant
                        i <= n,
                        n == fields@.len(),
                        *self == JsonValue::Obj(*fields),
                        out@.len() == i,
                        forall|k: int| 0 <= k < i ==> (#[trigger] out@[k]).0@ == fields@[k].0@
                            && out@[k].1.model() == fields@[k].1.model(),
                    decreases n - i,
                {
                    proof {
                        assert(decreases_to!(*self => fields@[i as int].1)) by {
                            assert(self is Obj);
                            assert(decreases_to!(*self => self->Obj_0));
                            assert(decreases_to!(self->Obj_0 => fields@));
                            assert(decreases_to!(fields@ => fields@[i as int]));
                            assert(decreases_to!(fields@[i as int] => fields@[i as int].1));
                        }
                    }
                    let key = fields[i].0.clone();
                    let val = fields[i].1.clone();
                    out.push((key, val));
                    i = i + 1;
                }
                proof {
                    assert forall|k: int| 0 <= k < n implies #[trigger] field_models_of(out@)[k]
                        == field_models_of(fields@)[k] by {
                        lemma_field_models_of_index(out@, k);
                        lemma_field_models_of_index(fields@, k);
                    }
                    assert(field_models_of(out@) =~= field_models_of(fields@));
                }
                JsonValue::Obj(out)
            }
        }
    }
}

/// Compare two strings character for character.
pub fn str_eq(a: &str, b: &str) -> (r: bool)
    ensures
        r == (a@ == b@),
{
    let av = str_chars(a);
    let bv = str_chars(b);
    if av.len() != bv.len() {
        return false;
    }
    let n = av.len();
    let mut i: usize = 0;
    while i < n
        invariant
            i <= n,
            n == av@.len() == bv@.len(),
            av@ == a@,
            bv@ == b@,
            forall|k: int| 0 <= k < i ==> av@[k] == bv@[k],
        decreases n - i,
    {
        if av[i] != bv[i] {
            return false;
        }
        i = i + 1;
    }
    proof {
        assert(a@ =~= b@);
    }
    true
}

} // verus!
