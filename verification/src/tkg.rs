use vstd::prelude::*;
use crate::json::{JsonValue, JsonModel, string_from_chars, str_chars};
use vstd::string::StrSliceExecFns;
use crate::text::{spec_contains, contains_pat, spec_dec, dec_chars};

verus! {

broadcast use vstd::seq::group_seq_axioms, vstd::std_specs::vec::group_vec_axioms, vstd::string::group_string_axioms;

/// Unique identifier for knowledge nodes.
#[derive(Debug, Clone)]
pub struct NodeId(pub String);

/// Temporal relationship between nodes.
#[derive(Debug, Clone, Copy, PartialEq, Eq, Structural)]
pub enum RelationshipType {
    Causes,
    ExplainedBy,
    RelatedTo,
    EvolvesTo,
    Contradicts,
    Supports,
    DerivedFrom,
    TemporalBefore,
    TemporalAfter,
    SimilarTo,
}

/// Kinds of knowledge nodes.
#[derive(Debug, Clone, Copy, PartialEq, Eq, Structural)]
pub enum NodeType {
    Fact,
    Concept,
    Memory,
    Learning,
    Relationship,
    Insight,
    UserInput,
    AiResponse,
}

impl NodeType {
    /// The tag under which this kind is stored.
    pub fn tag(&self) -> (r: &'static str)
        ensures
            r@ == spec_node_tag(*self),
    {
        match self {
            NodeType::Fact => "FACT",
            NodeType::Concept => "CONCEPT",
            NodeType::Memory => "MEMORY",
            NodeType::Learning => "LEARNING",
            NodeType::Relationship => "RELATIONSHIP",
            NodeType::Insight => "INSIGHT",
            NodeType::UserInput => "USER_INPUT",
            NodeType::AiResponse => "AI_RESPONSE",
        }
    }
}

pub open spec fn spec_node_tag(t: NodeType) -> Seq<char> {
    match t {
        NodeType::Fact => "FACT"@,
        NodeType::Concept => "CONCEPT"@,
        NodeType::Memory => "MEMORY"@,
        NodeType::Learning => "LEARNING"@,
        NodeType::Relationship => "RELATIONSHIP"@,
        NodeType::Insight => "INSIGHT"@,
        NodeType::UserInput => "USER_INPUT"@,
        NodeType::AiResponse => "AI_RESPONSE"@,
    }
}

/// The five admission bands, ordered from strongest to weakest.
#[derive(Debug, Clone, Copy, PartialEq, Eq, Structural)]
pub enum SaveDecision {
    ImmediateCascade,
    PrioritySave,
    BatchQueue,
    Consider,
    LetFade,
}

impl SaveDecision {
    /// The band's name as stored beside a memory item.
    pub fn tag(&self) -> (r: &'static str)
        ensures
            r@ == spec_decision_tag(*self),
    {
        match self {
            SaveDecision::ImmediateCascade => "ImmediateCascade",
            SaveDecision::PrioritySave => "PrioritySave",
            SaveDecision::BatchQueue => "BatchQueue",
            SaveDecision::Consider => "Consider",
            SaveDecision::LetFade => "LetFade",
        }
    }
}

pub open spec fn spec_decision_tag(d: SaveDecision) -> Seq<char> {
    match d {
        SaveDecision::ImmediateCascade => "ImmediateCascade"@,
        SaveDecision::PrioritySave => "PrioritySave"@,
        SaveDecision::BatchQueue => "BatchQueue"@,
        SaveDecision::Consider => "Consider"@,
        SaveDecision::LetFade => "LetFade"@,
    }
}

/// A score in [0, 1], kept as the exact fraction `num / den`.
#[derive(Debug, Clone, Copy, PartialEq, Eq, Structural)]
pub struct WamaScore {
    pub num: u64,
    pub den: u64,
}

/// What `str::to_lowercase` returns, as a function of the characters alone.
pub uninterp spec fn lower_of(s: Seq<char>) -> Seq<char>;

/// Relies on `str::to_lowercase`: the lower-case form of a string, a
/// function of its characters alone.
#[verifier::external_body]
pub(crate) fn lowercase(s: &str) -> (r: String)
    ensures
        r@ == lower_of(s@),
{
    s.to_lowercase()
}

pub open spec fn spec_crit_learning(lo: Seq<char>) -> bool {
    spec_contains(lo, "learning"@) || spec_contains(lo, "studying"@) || spec_contains(
        lo,
        "practicing"@,
    ) || spec_contains(lo, "trying to"@)
}

pub open spec fn spec_crit_reminder(lo: Seq<char>) -> bool {
    spec_contains(lo, "remind me"@) || spec_contains(lo, "don't forget"@) || spec_contains(
        lo,
        "remember to"@,
    ) || spec_contains(lo, "todo"@) || spec_contains(lo, "deadline"@) || spec_contains(lo, "by "@)
        || spec_contains(lo, "before "@) || spec_contains(lo, "need to"@)
}

pub open spec fn spec_crit_preference(lo: Seq<char>) -> bool {
    spec_contains(lo, "prefer"@) || spec_contains(lo, "like"@) || spec_contains(lo, "use "@)
        || spec_contains(lo, "love"@)
}

pub open spec fn spec_crit_goal(lo: Seq<char>) -> bool {
    spec_contains(lo, "goal"@) || spec_contains(lo, "plan"@) || spec_contains(lo, "want to"@)
        || spec_contains(lo, "need to"@)
}

pub open spec fn spec_crit_important(lo: Seq<char>) -> bool {
    spec_contains(lo, "important"@) || spec_contains(lo, "key"@) || spec_contains(lo, "critical"@)
        || spec_contains(lo, "vital"@)
}

pub open spec fn spec_crit_technical(lo: Seq<char>) -> bool {
    spec_contains(lo, "command"@) || spec_contains(lo, "code"@) || spec_contains(lo, "setup"@)
        || spec_contains(lo, "config"@) || spec_contains(lo, "install"@)
}

pub open spec fn spec_crit_names(lo: Seq<char>) -> bool {
    (exists|k: int| 0 <= k < lo.len() && 'A' <= #[trigger] lo[k] && lo[k] <= 'Z')
        || spec_contains(lo, "'"@) || spec_contains(lo, "\""@)
}

pub open spec fn spec_crit_context(lo: Seq<char>) -> bool {
    lo.len() > 50 && (spec_contains(lo, "because"@) || spec_contains(lo, "since"@)
        || spec_contains(lo, "however"@))
}

/// The summed weight of the matched criteria, in hundredths.
pub open spec fn spec_matched_sum(lo: Seq<char>) -> int {
    (if spec_crit_learning(lo) { 95int } else { 0int })
        + (if spec_crit_reminder(lo) { 95int } else { 0int })
        + (if spec_crit_preference(lo) { 90int } else { 0int })
        + (if spec_crit_goal(lo) { 85int } else { 0int })
        + (if spec_crit_important(lo) { 85int } else { 0int })
        + (if spec_crit_technical(lo) { 80int } else { 0int })
        + (if spec_crit_names(lo) { 80int } else { 0int })
        + (if spec_crit_context(lo) { 70int } else { 0int })
}

/// How many criteria matched.
pub open spec fn spec_matched_count(lo: Seq<char>) -> int {
    (if spec_crit_learning(lo) { 1int } else { 0int })
        + (if spec_crit_reminder(lo) { 1int } else { 0int })
        + (if spec_crit_preference(lo) { 1int } else { 0int })
        + (if spec_crit_goal(lo) { 1int } else { 0int })
        + (if spec_crit_important(lo) { 1int } else { 0int })
        + (if spec_crit_technical(lo) { 1int } else { 0int })
        + (if spec_crit_names(lo) { 1int } else { 0int })
        + (if spec_crit_context(lo) { 1int } else { 0int })
}

/// The additive context boost, in hundredths. `content` is the original
/// text, whose length in characters the last boost looks at.
pub open spec fn spec_boost(content: Seq<char>, lo: Seq<char>) -> int {
    (if spec_contains(lo, "user"@) || spec_contains(lo, "my"@) { 10int } else { 0int })
        + (if spec_contains(lo, "!"@) || spec_contains(lo, "important"@) { 15int } else { 0int })
        + (if content.len() > 100 { 10int } else { 0int })
}

/// The numerator of the final score. With `k` criteria matched, the score
/// is the matched weights averaged, plus the boost, clamped to one:
/// `min(sum + boost * k, 100 * k) / (100 * k)`. Content matching nothing
/// scores exactly zero, boosts or not.
pub open spec fn spec_wama_num(content: Seq<char>) -> int {
    let lo = lower_of(content);
    let k = spec_matched_count(lo);
    if k == 0 {
        0
    } else {
        let raw = spec_matched_sum(lo) + spec_boost(content, lo) * k;
        if raw > 100 * k {
            100 * k
        } else {
            raw
        }
    }
}

/// The denominator of the final score.
pub open spec fn spec_wama_den(content: Seq<char>) -> int {
    let k = spec_matched_count(lower_of(content));
    if k == 0 {
        100
    } else {
        100 * k
    }
}

/// The decision band of a score `num / den`.
pub open spec fn spec_band(num: int, den: int) -> SaveDecision {
    if num * 10 >= den * 9 {
        SaveDecision::ImmediateCascade
    } else if num * 10 >= den * 7 {
        SaveDecision::PrioritySave
    } else if num * 2 >= den {
        SaveDecision::BatchQueue
    } else if num * 10 >= den * 3 {
        SaveDecision::Consider
    } else {
        SaveDecision::LetFade
    }
}

pub open spec fn spec_wama_decision(content: Seq<char>) -> SaveDecision {
    spec_band(spec_wama_num(content), spec_wama_den(content))
}

fn crit_has_upper_or_quote(lo: &Vec<char>) -> (b: bool)
    ensures
        b == spec_crit_names(lo@),
{
    let n = lo.len();
    let mut i: usize = 0;
    while i < n
        invariant
            i <= n,
            n == lo@.len(),
            forall|k: int| 0 <= k < i ==> !('A' <= #[trigger] lo@[k] && lo@[k] <= 'Z'),
        decreases n - i,
    {
        let c = lo[i];
        if 'A' <= c && c <= 'Z' {
            return true;
        }
        i = i + 1;
    }
    let q1 = str_chars("'");
    let q2 = str_chars("\"");
    contains_pat(lo, &q1) || contains_pat(lo, &q2)
}

fn has(lo: &Vec<char>, pat: &str) -> (b: bool)
    ensures
        b == spec_contains(lo@, pat@),
{
    let p = str_chars(pat);
    contains_pat(lo, &p)
}

/// Score content for memory admission: weighted criteria matched against
/// the lower-cased text, averaged over the matched criteria only, boosted,
/// clamped to one, and mapped to a decision band. The score is returned as
/// an exact fraction.
#[verifier::rlimit(100)]
fn matched_sum_count(lo: &Vec<char>) -> (r: (u64, u64))
    ensures
        r.0 == spec_matched_sum(lo@),
        r.1 == spec_matched_count(lo@),
        r.1 <= 8,
        r.0 <= 95 * r.1,
        (r.1 == 0) ==> (r.0 == 0),
{
    let m1 = has(lo, "learning") || has(lo, "studying") || has(lo, "practicing") || has(
        lo,
        "trying to",
    );
    let m2 = has(lo, "remind me") || has(lo, "don't forget") || has(lo, "remember to") || has(
        lo,
        "todo",
    ) || has(lo, "deadline") || has(lo, "by ") || has(lo, "before ") || has(lo, "need to");
    let m3 = has(lo, "prefer") || has(lo, "like") || has(lo, "use ") || has(lo, "love");
    let m4 = has(lo, "goal") || has(lo, "plan") || has(lo, "want to") || has(lo, "need to");
    let m5 = has(lo, "important") || has(lo, "key") || has(lo, "critical") || has(lo, "vital");
    let m6 = has(lo, "command") || has(lo, "code") || has(lo, "setup") || has(lo, "config")
        || has(lo, "install");
    let m7 = crit_has_upper_or_quote(lo);
    let m8 = lo.len() > 50 && (has(lo, "because") || has(lo, "since") || has(lo, "however"));

    let mut sum: u64 = 0;
    let mut count: u64 = 0;
    if m1 { sum = sum + 95; count = count + 1; }
    if m2 { sum = sum + 95; count = count + 1; }
    if m3 { sum = sum + 90; count = count + 1; }
    if m4 { sum = sum + 85; count = count + 1; }
    if m5 { sum = sum + 85; count = count + 1; }
    if m6 { sum = sum + 80; count = count + 1; }
    if m7 { sum = sum + 80; count = count + 1; }
    if m8 { sum = sum + 70; count = count + 1; }
    (sum, count)
}

fn boost_of(content: &str, lo: &Vec<char>) -> (b: u64)
    ensures
        b == spec_boost(content@, lo@),
        b <= 35,
{
    let mut boost: u64 = 0;
    if has(lo, "user") || has(lo, "my") {
        boost = boost + 10;
    }
    if has(lo, "!") || has(lo, "important") {
        boost = boost + 15;
    }
    if char_len_over(content, 100) {
        boost = boost + 10;
    }
    boost
}

fn band(num: u64, den: u64) -> (d: SaveDecision)
    requires
        0 < den <= 1000,
        num <= den,
    ensures
        d == spec_band(num as int, den as int),
{
    if num * 10 >= den * 9 {
        SaveDecision::ImmediateCascade
    } else if num * 10 >= den * 7 {
        SaveDecision::PrioritySave
    } else if num * 2 >= den {
        SaveDecision::BatchQueue
    } else if num * 10 >= den * 3 {
        SaveDecision::Consider
    } else {
        SaveDecision::LetFade
    }
}

pub fn evaluate_with_wama(content: &str) -> (r: (SaveDecision, WamaScore))
    ensures
        r.1.den > 0,
        r.1.num <= r.1.den,
        r.1.num == spec_wama_num(content@),
        r.1.den == spec_wama_den(content@),
        r.0 == spec_wama_decision(content@),
        spec_matched_count(lower_of(content@)) == 0 ==> r.0 == SaveDecision::LetFade && r.1.num
            == 0,
{
    let lowered = lowercase(content);
    let lo = str_chars(lowered.as_str());
    let (sum, count) = matched_sum_count(&lo);
    if count == 0 {
        (SaveDecision::LetFade, WamaScore { num: 0, den: 100 })
    } else {
        let boost = boost_of(content, &lo);
        proof {
            assert(boost * count <= 280) by (nonlinear_arith)
                requires
                    boost <= 35,
                    count <= 8,
            ;
        }
        let den: u64 = 100 * count;
        let mut num: u64 = sum + boost * count;
        if num > den {
            num = den;
        }
        let decision = band(num, den);
        (decision, WamaScore { num, den })
    }
}

/// Whether the string has more than `limit` characters.
fn char_len_over(s: &str, limit: usize) -> (b: bool)
    ensures
        b == (s@.len() > limit),
{
    s.unicode_len() > limit
}

/// Whether content scored by the admission filter should be persisted at
/// all: everything but the weakest band goes on to the embedding and
/// storage path.
pub fn should_store(content: &str) -> (b: bool)
    ensures
        b == (spec_wama_decision(content@) != SaveDecision::LetFade),
{
    let (decision, _score) = evaluate_with_wama(content);
    match decision {
        SaveDecision::LetFade => false,
        _ => true,
    }
}

/// The model of the search request sent to the vector store: the query
/// vector, a result limit, and a filter that must match the owner.
pub open spec fn spec_search_payload(vec_texts: Seq<Seq<char>>, limit: nat, user: Seq<char>) -> JsonModel {
    JsonModel::Obj {
        fields: seq![
            ("vector"@, JsonModel::Arr { items: Seq::new(vec_texts.len(), |i: int| JsonModel::Num { text: vec_texts[i] }) }),
            ("limit"@, JsonModel::Num { text: spec_dec(limit) }),
            ("with_payload"@, JsonModel::Bool { b: true }),
            ("with_vectors"@, JsonModel::Bool { b: false }),
            ("filter"@, JsonModel::Obj {
                fields: seq![
                    ("must"@, JsonModel::Arr {
                        items: seq![
                            JsonModel::Obj {
                                fields: seq![
                                    ("key"@, JsonModel::Str { text: "user_id"@ }),
                                    ("match"@, JsonModel::Obj {
                                        fields: seq![("value"@, JsonModel::Str { text: user })],
                                    }),
                                ],
                            },
                        ],
                    }),
                ],
            }),
        ],
    }
}

/// Build the search request for the vector store. The query vector is given
/// as the decimal texts of its components; the filter pins the owner, so
/// one user's search can never surface another user's memories.
pub fn build_search_payload(query_embedding: &Vec<String>, limit: u64, user_id: &str) -> (r: JsonValue)
    ensures
        r.model() == spec_search_payload(
            Seq::new(query_embedding@.len(), |i: int| query_embedding@[i]@),
            limit as nat,
            user_id@,
        ),
{
    let ghost vec_texts = Seq::new(query_embedding@.len(), |i: int| query_embedding@[i]@);
    let n = query_embedding.len();
    let mut items: Vec<JsonValue> = Vec::new();
    let mut i: usize = 0;
    while i < n
        invariant
            i <= n,
            n == query_embedding@.len(),
            items@.len() == i,
            forall|k: int| 0 <= k < i ==> items@[k] == JsonValue::Num(query_embedding@[k]),
        decreases n - i,
    {
        items.push(JsonValue::Num(query_embedding[i].clone()));
        i = i + 1;
    }
    proof {
        crate::json::lemma_models_of_len(items@);
        assert forall|k: int| 0 <= k < n implies #[trigger] crate::json::models_of(items@)[k]
            == (JsonModel::Num { text: query_embedding@[k]@ }) by {
            crate::json::lemma_models_of_index(items@, k);
        }
        assert(crate::json::models_of(items@) =~= Seq::new(
            vec_texts.len(),
            |i: int| JsonModel::Num { text: vec_texts[i] },
        ));
    }

    let ghost items_view = items@;
    let limit_num = JsonValue::Num(string_from_chars(&dec_chars(limit as u128)));

    let mut match_fields: Vec<(String, JsonValue)> = Vec::new();
    match_fields.push((lit("value"), JsonValue::Str(lit(user_id))));
    let ghost g_match = match_fields@;
    proof {
        assert(g_match =~= seq![g_match[0]] + Seq::<(String, JsonValue)>::empty());
        crate::json::lemma_field_models_cons(g_match[0], Seq::<(String, JsonValue)>::empty());
        assert(crate::json::field_models_of(g_match) =~= seq![
            ("value"@, JsonModel::Str { text: user_id@ }),
        ]);
    }

    let mut filter_entry: Vec<(String, JsonValue)> = Vec::new();
    filter_entry.push((lit("key"), JsonValue::Str(lit("user_id"))));
    filter_entry.push((lit("match"), JsonValue::Obj(match_fields)));
    let ghost g_entry = filter_entry@;
    proof {
        crate::json::lemma_field_models_of_len(g_entry);
        crate::json::lemma_field_models_of_index(g_entry, 0);
        crate::json::lemma_field_models_of_index(g_entry, 1);
        assert(crate::json::field_models_of(g_entry) =~= seq![
            ("key"@, JsonModel::Str { text: "user_id"@ }),
            ("match"@, JsonModel::Obj { fields: crate::json::field_models_of(g_match) }),
        ]);
    }

    let mut must_items: Vec<JsonValue> = Vec::new();
    must_items.push(JsonValue::Obj(filter_entry));
    let ghost g_must = must_items@;
    proof {
        assert(g_must =~= seq![g_must[0]] + Seq::<JsonValue>::empty());
        crate::json::lemma_models_cons(g_must[0], Seq::<JsonValue>::empty());
        assert(crate::json::models_of(g_must) =~= seq![
            JsonModel::Obj { fields: crate::json::field_models_of(g_entry) },
        ]);
    }

    let mut filter_fields: Vec<(String, JsonValue)> = Vec::new();
    filter_fields.push((lit("must"), JsonValue::Arr(must_items)));
    let ghost g_filter = filter_fields@;
    proof {
        assert(g_filter =~= seq![g_filter[0]] + Seq::<(String, JsonValue)>::empty());
        crate::json::lemma_field_models_cons(g_filter[0], Seq::<(String, JsonValue)>::empty());
        assert(crate::json::field_models_of(g_filter) =~= seq![
            ("must"@, JsonModel::Arr { items: crate::json::models_of(g_must) }),
        ]);
    }

    let mut fields: Vec<(String, JsonValue)> = Vec::new();
    fields.push((lit("vector"), JsonValue::Arr(items)));
    fields.push((lit("limit"), limit_num));
    fields.push((lit("with_payload"), JsonValue::Bool(true)));
    fields.push((lit("with_vectors"), JsonValue::Bool(false)));
    fields.push((lit("filter"), JsonValue::Obj(filter_fields)));
    let ghost g_fields = fields@;

    let r = JsonValue::Obj(fields);
    proof {
        crate::json::lemma_field_models_of_len(g_fields);
        crate::json::lemma_field_models_of_index(g_fields, 0);
        crate::json::lemma_field_models_of_index(g_fields, 1);
        crate::json::lemma_field_models_of_index(g_fields, 2);
        crate::json::lemma_field_models_of_index(g_fields, 3);
        crate::json::lemma_field_models_of_index(g_fields, 4);
        assert(r.model() =~= JsonModel::Obj { fields: crate::json::field_models_of(g_fields) });
        assert(crate::json::field_models_of(g_fields) =~= spec_search_payload(
            vec_texts,
            limit as nat,
            user_id@,
        )->Obj_fields);
    }
    r
}

/// A `String` copy of a literal.
fn lit(s: &str) -> (r: String)
    ensures
        r@ == s@,
{
    string_from_chars(&str_chars(s))
}

/// The model of one stored memory item's wire request: one point under
/// `points`, carrying the id, the vector, and the payload with the
/// content, its kind, the importance, the creation time, the admission
/// decision with its score, and the owner.
pub open spec fn spec_upsert_payload(
    id: Seq<char>,
    vec_texts: Seq<Seq<char>>,
    content: Seq<char>,
    node_type: NodeType,
    importance_text: Seq<char>,
    timestamp: Seq<char>,
    decision: SaveDecision,
    score_text: Seq<char>,
    user: Seq<char>,
) -> JsonModel {
    JsonModel::Obj {
        fields: seq![
            (
                "points"@,
                JsonModel::Arr {
                    items: seq![
                        JsonModel::Obj {
                            fields: seq![
                                ("id"@, JsonModel::Str { text: id }),
                                (
                                    "vector"@,
                                    JsonModel::Arr {
                                        items: Seq::new(
                                            vec_texts.len(),
                                            |i: int| JsonModel::Num { text: vec_texts[i] },
                                        ),
                                    },
                                ),
                                (
                                    "payload"@,
                                    JsonModel::Obj {
                                        fields: seq![
                                            ("content"@, JsonModel::Str { text: content }),
                                            (
                                                "node_type"@,
                                                JsonModel::Str { text: spec_node_tag(node_type) },
                                            ),
                                            (
                                                "importance"@,
                                                JsonModel::Num { text: importance_text },
                                            ),
                                            ("timestamp"@, JsonModel::Str { text: timestamp }),
                                            (
                                                "wama_decision"@,
                                                JsonModel::Str { text: spec_decision_tag(decision) },
                                            ),
                                            ("wama_score"@, JsonModel::Num { text: score_text }),
                                            ("user_id"@, JsonModel::Str { text: user }),
                                        ],
                                    },
                                ),
                            ],
                        },
                    ],
                },
            ),
        ],
    }
}

/// Build the wire request that persists one memory item. The embedding
/// vector and the two numeric fields come as decimal texts; the caller
/// runs the admission filter first and supplies its outcome.
pub fn build_upsert_payload(
    id: &str,
    vector: &Vec<String>,
    content: &str,
    node_type: NodeType,
    importance_text: &str,
    timestamp: &str,
    decision: SaveDecision,
    score_text: &str,
    user_id: &str,
) -> (r: JsonValue)
    ensures
        r.model() == spec_upsert_payload(
            id@,
            Seq::new(vector@.len(), |i: int| vector@[i]@),
            content@,
            node_type,
            importance_text@,
            timestamp@,
            decision,
            score_text@,
            user_id@,
        ),
{
    let ghost vec_texts = Seq::new(vector@.len(), |i: int| vector@[i]@);
    let n = vector.len();
    let mut nums: Vec<JsonValue> = Vec::new();
    let mut i: usize = 0;
    while i < n
        invariant
            i <= n,
            n == vector@.len(),
            nums@.len() == i,
            forall|k: int| 0 <= k < i ==> (#[trigger] nums@[k]) == JsonValue::Num(vector@[k]),
        decreases n - i,
    {
        nums.push(JsonValue::Num(vector[i].clone()));
        i = i + 1;
    }
    proof {
        crate::json::lemma_models_of_len(nums@);
        assert forall|k: int| 0 <= k < n implies #[trigger] crate::json::models_of(nums@)[k]
            == (JsonModel::Num { text: vector@[k]@ }) by {
            crate::json::lemma_models_of_index(nums@, k);
        }
        assert(crate::json::models_of(nums@) =~= Seq::new(
            vec_texts.len(),
            |i: int| JsonModel::Num { text: vec_texts[i] },
        ));
    }

    let mut payload_fields: Vec<(String, JsonValue)> = Vec::new();
    payload_fields.push((lit("content"), JsonValue::Str(lit(content))));
    payload_fields.push((lit("node_type"), JsonValue::Str(lit(node_type.tag()))));
    payload_fields.push((lit("importance"), JsonValue::Num(lit(importance_text))));
    payload_fields.push((lit("timestamp"), JsonValue::Str(lit(timestamp))));
    payload_fields.push((lit("wama_decision"), JsonValue::Str(lit(decision.tag()))));
    payload_fields.push((lit("wama_score"), JsonValue::Num(lit(score_text))));
    payload_fields.push((lit("user_id"), JsonValue::Str(lit(user_id))));
    let ghost g_payload = payload_fields@;
    proof {
        crate::json::lemma_field_models_of_len(g_payload);
        crate::json::lemma_field_models_of_index(g_payload, 0);
        crate::json::lemma_field_models_of_index(g_payload, 1);
        crate::json::lemma_field_models_of_index(g_payload, 2);
        crate::json::lemma_field_models_of_index(g_payload, 3);
        crate::json::lemma_field_models_of_index(g_payload, 4);
        crate::json::lemma_field_models_of_index(g_payload, 5);
        crate::json::lemma_field_models_of_index(g_payload, 6);
        assert(crate::json::field_models_of(g_payload) =~= seq![
            ("content"@, JsonModel::Str { text: content@ }),
            ("node_type"@, JsonModel::Str { text: spec_node_tag(node_type) }),
            ("importance"@, JsonModel::Num { text: importance_text@ }),
            ("timestamp"@, JsonModel::Str { text: timestamp@ }),
            ("wama_decision"@, JsonModel::Str { text: spec_decision_tag(decision) }),
            ("wama_score"@, JsonModel::Num { text: score_text@ }),
            ("user_id"@, JsonModel::Str { text: user_id@ }),
        ]);
    }

    let mut point_fields: Vec<(String, JsonValue)> = Vec::new();
    point_fields.push((lit("id"), JsonValue::Str(lit(id))));
    point_fields.push((lit("vector"), JsonValue::Arr(nums)));
    point_fields.push((lit("payload"), JsonValue::Obj(payload_fields)));
    let ghost g_point = point_fields@;
    proof {
        crate::json::lemma_field_models_of_len(g_point);
        crate::json::lemma_field_models_of_index(g_point, 0);
        crate::json::lemma_field_models_of_index(g_point, 1);
        crate::json::lemma_field_models_of_index(g_point, 2);
    }

    let mut points: Vec<JsonValue> = Vec::new();
    points.push(JsonValue::Obj(point_fields));
    let ghost g_points = points@;
    proof {
        assert(g_points =~= seq![g_points[0]] + Seq::<JsonValue>::empty());
        crate::json::lemma_models_cons(g_points[0], Seq::<JsonValue>::empty());
    }

    let mut fields: Vec<(String, JsonValue)> = Vec::new();
    fields.push((lit("points"), JsonValue::Arr(points)));
    let ghost g_fields = fields@;
    let r = JsonValue::Obj(fields);
    proof {
        assert(g_fields =~= seq![g_fields[0]] + Seq::<(String, JsonValue)>::empty());
        crate::json::lemma_field_models_cons(g_fields[0], Seq::<(String, JsonValue)>::empty());
        let target = spec_upsert_payload(
            id@,
            vec_texts,
            content@,
            node_type,
            importance_text@,
            timestamp@,
            decision,
            score_text@,
            user_id@,
        );
        let tpoint = target->Obj_fields[0].1->Arr_items[0];
        assert(g_point[1].1.model() =~~= tpoint->Obj_fields[1].1);
        assert(g_point[2].1.model() =~~= tpoint->Obj_fields[2].1);
        assert(crate::json::field_models_of(g_point) =~~= tpoint->Obj_fields);
        assert(g_points[0].model() =~~= tpoint);
        assert(crate::json::models_of(g_points) =~~= target->Obj_fields[0].1->Arr_items);
        assert(crate::json::field_models_of(g_fields) =~~= target->Obj_fields);
        assert(r.model() == target);
    }
    r
}

} // verus!
