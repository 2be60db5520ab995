use vstd::prelude::*;
use crate::json::{
    JsonValue, JsonModel, spec_parse_json, spec_get, spec_json_text, parse_json, json_to_string,
    string_from_chars, str_chars, field_models_of, models_of, lemma_field_models_of_len,
    lemma_field_models_of_index, lemma_models_of_len, lemma_models_of_index,
};
use crate::text::{spec_dec, dec_chars};
use crate::agent::{spec_err_envelope, err_envelope};

verus! {

broadcast use vstd::seq::group_seq_axioms, vstd::std_specs::vec::group_vec_axioms, vstd::string::group_string_axioms;

/// The request sent to the web-search provider: the key, the query, the
/// capped result limit, an answer asked for, images and raw page text
/// declined.
pub open spec fn spec_web_search_payload(query: Seq<char>, capped: nat, key: Seq<char>) -> JsonModel {
    JsonModel::Obj {
        fields: seq![
            ("api_key"@, JsonModel::Str { text: key }),
            ("query"@, JsonModel::Str { text: query }),
            ("max_results"@, JsonModel::Num { text: spec_dec(capped) }),
            ("include_answer"@, JsonModel::Bool { b: true }),
            ("include_images"@, JsonModel::Bool { b: false }),
            ("include_raw_content"@, JsonModel::Bool { b: false }),
        ],
    }
}

/// Build the web-search request; the result limit is capped at ten.
pub fn web_search_payload(query: &str, max_results: u64, key: &str) -> (r: JsonValue)
    ensures
        r.model() == spec_web_search_payload(
            query@,
            (if max_results <= 10 {
                max_results
            } else {
                10
            }) as nat,
            key@,
        ),
{
    let capped: u64 = if max_results <= 10 {
        max_results
    } else {
        10
    };
    let mut fields: Vec<(String, JsonValue)> = Vec::new();
    fields.push((lit("api_key"), JsonValue::Str(lit(key))));
    fields.push((lit("query"), JsonValue::Str(lit(query))));
    fields.push((lit("max_results"), JsonValue::Num(string_from_chars(&dec_chars(
        capped as u128,
    )))));
    fields.push((lit("include_answer"), JsonValue::Bool(true)));
    fields.push((lit("include_images"), JsonValue::Bool(false)));
    fields.push((lit("include_raw_content"), JsonValue::Bool(false)));
    let ghost fview = fields@;
    let r = JsonValue::Obj(fields);
    proof {
        lemma_field_models_of_len(fview);
        lemma_field_models_of_index(fview, 0);
        lemma_field_models_of_index(fview, 1);
        lemma_field_models_of_index(fview, 2);
        lemma_field_models_of_index(fview, 3);
        lemma_field_models_of_index(fview, 4);
        lemma_field_models_of_index(fview, 5);
        assert(field_models_of(fview) =~= spec_web_search_payload(
            query@,
            capped as nat,
            key@,
        )->Obj_fields);
    }
    r
}

/// The line written for one search hit, when it carries a title, a url
/// and content: those three and the publication date, as one embedded
/// JSON text.
pub open spec fn spec_search_item_text(m: JsonModel) -> Option<Seq<char>> {
    match (spec_get(m, "title"@), spec_get(m, "url"@), spec_get(m, "content"@)) {
        (
            Some(JsonModel::Str { text: t }),
            Some(JsonModel::Str { text: u }),
            Some(JsonModel::Str { text: c }),
        ) => {
            let pd = match spec_get(m, "published_date"@) {
                Some(JsonModel::Str { text: d }) => JsonModel::Str { text: d },
                _ => JsonModel::Null,
            };
            Some(
                spec_json_text(
                    JsonModel::Obj {
                        fields: seq![
                            ("published_date"@, pd),
                            ("snippet"@, JsonModel::Str { text: c }),
                            ("title"@, JsonModel::Str { text: t }),
                            ("url"@, JsonModel::Str { text: u }),
                        ],
                    },
                ),
            )
        }
        _ => None,
    }
}

/// The lines of the first `n` hits; a hit without the three fields is
/// skipped.
pub open spec fn spec_item_texts(items: Seq<JsonModel>, n: int) -> Seq<Seq<char>>
    decreases n,
{
    if n <= 0 {
        Seq::<Seq<char>>::empty()
    } else {
        spec_item_texts(items, n - 1) + (match spec_search_item_text(items[n - 1]) {
            Some(t) => seq![t],
            None => Seq::<Seq<char>>::empty(),
        })
    }
}

/// The provider's hit list, when the body carries one.
pub open spec fn spec_body_items(m: JsonModel) -> Seq<JsonModel> {
    match spec_get(m, "results"@) {
        Some(JsonModel::Arr { items }) => items,
        _ => Seq::<JsonModel>::empty(),
    }
}

pub open spec fn spec_body_answer(m: JsonModel) -> Seq<char> {
    match spec_get(m, "answer"@) {
        Some(JsonModel::Str { text }) => text,
        _ => Seq::<char>::empty(),
    }
}

/// The envelope handed back for a web search: the query, the provider's
/// answer, the formatted hits and their count; an unparseable body is a
/// parse-failure envelope.
pub open spec fn spec_format_search_results(query: Seq<char>, body: Seq<char>) -> Seq<char> {
    match spec_parse_json(body) {
        None => spec_err_envelope("Failed to parse search results"@),
        Some(m) => {
            let texts = spec_item_texts(spec_body_items(m), spec_body_items(m).len() as int);
            spec_json_text(
                JsonModel::Obj {
                    fields: seq![
                        ("answer"@, JsonModel::Str { text: spec_body_answer(m) }),
                        ("count"@, JsonModel::Num { text: spec_dec(texts.len()) }),
                        ("query"@, JsonModel::Str { text: query }),
                        (
                            "results"@,
                            JsonModel::Arr {
                                items: Seq::new(texts.len(), |i: int| JsonModel::Str { text: texts[i] }),
                            },
                        ),
                        ("success"@, JsonModel::Bool { b: true }),
                    ],
                },
            )
        }
    }
}

fn item_text(v: &JsonValue) -> (r: Option<String>)
    ensures
        match (r, spec_search_item_text(v.model())) {
            (Some(s), Some(st)) => s@ == st,
            (None, None) => true,
            _ => false,
        },
{
    let t: Option<&String> = match v.get("title") {
        Some(x) => x.as_str(),
        None => None,
    };
    let u: Option<&String> = match v.get("url") {
        Some(x) => x.as_str(),
        None => None,
    };
    let c: Option<&String> = match v.get("content") {
        Some(x) => x.as_str(),
        None => None,
    };
    match (t, u, c) {
        (Some(title), Some(url), Some(content)) => {
            let pd: JsonValue = match v.get("published_date") {
                Some(d) => match d.as_str() {
                    Some(s) => JsonValue::Str(s.clone()),
                    None => JsonValue::Null,
                },
                None => JsonValue::Null,
            };
            let ghost pd_model = pd.model();
            let mut fields: Vec<(String, JsonValue)> = Vec::new();
            fields.push((lit("published_date"), pd));
            fields.push((lit("snippet"), JsonValue::Str(content.clone())));
            fields.push((lit("title"), JsonValue::Str(title.clone())));
            fields.push((lit("url"), JsonValue::Str(url.clone())));
            let ghost fview = fields@;
            let item = JsonValue::Obj(fields);
            proof {
                lemma_field_models_of_len(fview);
                lemma_field_models_of_index(fview, 0);
                lemma_field_models_of_index(fview, 1);
                lemma_field_models_of_index(fview, 2);
                lemma_field_models_of_index(fview, 3);
                assert(field_models_of(fview) =~= seq![
                    ("published_date"@, pd_model),
                    ("snippet"@, JsonModel::Str { text: content@ }),
                    ("title"@, JsonModel::Str { text: title@ }),
                    ("url"@, JsonModel::Str { text: url@ }),
                ]);
            }
            Some(json_to_string(&item))
        }
        _ => None,
    }
}

fn lit(s: &str) -> (r: String)
    ensures
        r@ == s@,
{
    string_from_chars(&str_chars(s))
}

/// Format a search provider's response body into the tool's envelope.
#[verifier::rlimit(100)]
pub fn format_search_results(query: &str, body: &str) -> (r: String)
    ensures
        r@ == spec_format_search_results(query@, body@),
{
    match parse_json(body) {
        None => err_envelope("Failed to parse search results"),
        Some(m) => {
            let ghost mm = m.model();
            let ghost spec_items = spec_body_items(mm);
            let mut texts: Vec<String> = Vec::new();
            match m.get("results") {
                Some(rv) => {
                    match rv {
                        JsonValue::Arr(items) => {
                            let ghost ims = models_of(items@);
                            proof {
                                lemma_models_of_len(items@);
                                assert(ims == spec_items);
                            }
                            let n = items.len();
                            let mut i: usize = 0;
                            while i < n
                                invariant
                                    i <= n,
                                    n == items@.len(),
                                    *rv == JsonValue::Arr(*items),
                                    ims == models_of(items@),
                                    ims.len() == n,
                                    text_views(texts@) == spec_item_texts(ims, i as int),
                                decreases n - i,
                            {
                                proof {
                                    lemma_models_of_index(items@, i as int);
                                }
                                let ghost before = text_views(texts@);
                                match item_text(&items[i]) {
                                    Some(s) => {
                                        texts.push(s);
                                        proof {
                                            assert(text_views(texts@) =~= before.push(
                                                texts@[texts@.len() - 1]@,
                                            ));
                                            assert(text_views(texts@) =~= spec_item_texts(
                                                ims,
                                                i as int + 1,
                                            ));
                                        }
                                    }
                                    None => {
                                        proof {
                                            assert(text_views(texts@) =~= spec_item_texts(
                                                ims,
                                                i as int + 1,
                                            ));
                                        }
                                    }
                                }
                                i = i + 1;
                            }
                        }
                        _ => {
                            proof {
                                assert(spec_items =~= Seq::<JsonModel>::empty());
                                assert(text_views(texts@) =~= spec_item_texts(spec_items, 0));
                            }
                        }
                    }
                }
                None => {
                    proof {
                        assert(spec_items =~= Seq::<JsonModel>::empty());
                        assert(text_views(texts@) =~= spec_item_texts(spec_items, 0));
                    }
                }
            }
            let empty_default: Vec<char> = Vec::new();
            let answer: String = match m.get("answer") {
                Some(av) => match av.as_str() {
                    Some(a) => a.clone(),
                    None => string_from_chars(&empty_default),
                },
                None => string_from_chars(&empty_default),
            };
            proof {
                assert(answer@ == spec_body_answer(mm));
            }
            let count = texts.len();
            let mut result_items: Vec<JsonValue> = Vec::new();
            let n = texts.len();
            let mut k: usize = 0;
            while k < n
                invariant
                    k <= n,
                    n == texts@.len(),
                    result_items@.len() == k,
                    forall|j: int| 0 <= j < k ==> (#[trigger] result_items@[j]) == JsonValue::Str(
                        texts@[j],
                    ),
                decreases n - k,
            {
                result_items.push(JsonValue::Str(texts[k].clone()));
                k = k + 1;
            }
            let ghost texts_view = text_views(texts@);
            proof {
                lemma_models_of_len(result_items@);
                assert forall|j: int| 0 <= j < n implies #[trigger] models_of(result_items@)[j]
                    == (JsonModel::Str { text: texts_view[j] }) by {
                    lemma_models_of_index(result_items@, j);
                }
                assert(models_of(result_items@) =~= Seq::new(
                    texts_view.len(),
                    |i: int| JsonModel::Str { text: texts_view[i] },
                ));
            }
            let mut fields: Vec<(String, JsonValue)> = Vec::new();
            fields.push((lit("answer"), JsonValue::Str(answer)));
            fields.push((lit("count"), JsonValue::Num(string_from_chars(&dec_chars(
                count as u128,
            )))));
            fields.push((lit("query"), JsonValue::Str(lit(query))));
            fields.push((lit("results"), JsonValue::Arr(result_items)));
            fields.push((lit("success"), JsonValue::Bool(true)));
            let ghost fview = fields@;
            let envelope = JsonValue::Obj(fields);
            proof {
                lemma_field_models_of_len(fview);
                lemma_field_models_of_index(fview, 0);
                lemma_field_models_of_index(fview, 1);
                lemma_field_models_of_index(fview, 2);
                lemma_field_models_of_index(fview, 3);
                lemma_field_models_of_index(fview, 4);
                assert(texts_view =~= spec_item_texts(spec_items, spec_items.len() as int));
                let target = JsonModel::Obj {
                    fields: seq![
                        ("answer"@, JsonModel::Str { text: spec_body_answer(mm) }),
                        ("count"@, JsonModel::Num { text: spec_dec(texts_view.len()) }),
                        ("query"@, JsonModel::Str { text: query@ }),
                        (
                            "results"@,
                            JsonModel::Arr {
                                items: Seq::new(
                                    texts_view.len(),
                                    |i: int| JsonModel::Str { text: texts_view[i] },
                                ),
                            },
                        ),
                        ("success"@, JsonModel::Bool { b: true }),
                    ],
                };
                assert(models_of(result_items@) =~~= target->Obj_fields[3].1->Arr_items);
                assert(field_models_of(fview) =~~= target->Obj_fields);
                assert(envelope.model() == target);
            }
            json_to_string(&envelope)
        }
    }
}

/// The views of the formatted hit lines.
pub open spec fn text_views(texts: Seq<String>) -> Seq<Seq<char>> {
    Seq::new(texts.len(), |i: int| texts[i]@)
}

} // verus!
