use vstd::prelude::*;
use crate::json::{JsonValue, JsonModel, string_from_chars, str_chars, field_models_of, lemma_field_models_of_len, lemma_field_models_of_index};
use crate::text::spec_dec;

verus! {

broadcast use vstd::seq::group_seq_axioms, vstd::std_specs::vec::group_vec_axioms, vstd::string::group_string_axioms;

/// One progress step a research agent reports while it plans, searches,
/// analyzes and synthesizes.
#[derive(Debug, Clone)]
pub struct ResearchStep {
    pub step_type: String,
    pub description: String,
    pub details: Option<String>,
}

/// The request one research agent sends to the search provider: an
/// advanced-depth search with an answer, five hits.
pub open spec fn spec_research_search_payload(query: Seq<char>, key: Seq<char>) -> JsonModel {
    JsonModel::Obj {
        fields: seq![
            ("api_key"@, JsonModel::Str { text: key }),
            ("query"@, JsonModel::Str { text: query }),
            ("search_depth"@, JsonModel::Str { text: "advanced"@ }),
            ("include_answer"@, JsonModel::Bool { b: true }),
            ("max_results"@, JsonModel::Num { text: spec_dec(5) }),
        ],
    }
}

/// Build the research agent's search request.
pub fn research_search_payload(query: &str, key: &str) -> (r: JsonValue)
    ensures
        r.model() == spec_research_search_payload(query@, key@),
{
    let mut fields: Vec<(String, JsonValue)> = Vec::new();
    fields.push((lit("api_key"), JsonValue::Str(lit(key))));
    fields.push((lit("query"), JsonValue::Str(lit(query))));
    fields.push((lit("search_depth"), JsonValue::Str(lit("advanced"))));
    fields.push((lit("include_answer"), JsonValue::Bool(true)));
    fields.push((lit("max_results"), JsonValue::Num(string_from_chars(&crate::text::dec_chars(
        5,
    )))));
    let ghost fview = fields@;
    let r = JsonValue::Obj(fields);
    proof {
        lemma_field_models_of_len(fview);
        lemma_field_models_of_index(fview, 0);
        lemma_field_models_of_index(fview, 1);
        lemma_field_models_of_index(fview, 2);
        lemma_field_models_of_index(fview, 3);
        lemma_field_models_of_index(fview, 4);
        assert(field_models_of(fview) =~= spec_research_search_payload(
            query@,
            key@,
        )->Obj_fields);
    }
    r
}

/// The context line one search hit contributes to the research notes.
pub open spec fn spec_source_line(title: Seq<char>, url: Seq<char>, content: Seq<char>) -> Seq<char> {
    "Source: "@ + title + "\nURL: "@ + url + "\nContent: "@ + content + "\n\n"@
}

pub fn source_context_line(title: &str, url: &str, content: &str) -> (r: String)
    ensures
        r@ == spec_source_line(title@, url@, content@),
{
    let mut out: Vec<char> = str_chars("Source: ");
    let mut t = str_chars(title);
    out.append(&mut t);
    let mut m1 = str_chars("\nURL: ");
    out.append(&mut m1);
    let mut u = str_chars(url);
    out.append(&mut u);
    let mut m2 = str_chars("\nContent: ");
    out.append(&mut m2);
    let mut c = str_chars(content);
    out.append(&mut c);
    let mut m3 = str_chars("\n\n");
    out.append(&mut m3);
    proof {
        assert(out@ =~= spec_source_line(title@, url@, content@));
    }
    string_from_chars(&out)
}

/// The heading one research branch contributes to the fan-in: its data,
/// or the failure captured inline so sibling branches stand.
pub open spec fn spec_sub_report(sub_topic: Seq<char>, outcome: Result<Seq<char>, Seq<char>>) -> Seq<char> {
    match outcome {
        Ok(context) => "# Research Data on "@ + sub_topic + "\n\n"@ + context,
        Err(e) => "# Research Data on "@ + sub_topic + "\n\nFAILED: "@ + e,
    }
}

/// Write one branch's report; a failed branch is captured inline and
/// never poisons its siblings.
pub fn sub_report(sub_topic: &str, outcome: &Result<String, String>) -> (r: String)
    ensures
        r@ == spec_sub_report(
            sub_topic@,
            match outcome {
                Ok(c) => Ok(c@),
                Err(e) => Err(e@),
            },
        ),
{
    let mut out: Vec<char> = str_chars("# Research Data on ");
    let mut t = str_chars(sub_topic);
    out.append(&mut t);
    match outcome {
        Ok(context) => {
            let mut m = str_chars("\n\n");
            out.append(&mut m);
            let mut c = str_chars(context.as_str());
            out.append(&mut c);
            proof {
                assert(out@ =~= "# Research Data on "@ + sub_topic@ + "\n\n"@
                    + outcome->Ok_0@);
            }
        }
        Err(e) => {
            let mut m = str_chars("\n\nFAILED: ");
            out.append(&mut m);
            let mut c = str_chars(e.as_str());
            out.append(&mut c);
            proof {
                assert(out@ =~= "# Research Data on "@ + sub_topic@ + "\n\nFAILED: "@
                    + outcome->Err_0@);
            }
        }
    }
    string_from_chars(&out)
}

/// The first `n` branch reports joined by a rule.
pub open spec fn spec_joined_reports(reports: Seq<Seq<char>>, n: int) -> Seq<char>
    decreases n,
{
    if n <= 0 {
        Seq::<char>::empty()
    } else if n == 1 {
        reports[0]
    } else {
        spec_joined_reports(reports, n - 1) + "\n\n---\n\n"@ + reports[n - 1]
    }
}

/// Join the branch reports for the synthesis step.
pub fn compose_reports(reports: &Vec<String>) -> (r: String)
    ensures
        r@ == spec_joined_reports(
            Seq::new(reports@.len(), |i: int| reports@[i]@),
            reports@.len() as int,
        ),
{
    let ghost views = Seq::new(reports@.len(), |i: int| reports@[i]@);
    let n = reports.len();
    let mut out: Vec<char> = Vec::new();
    let mut i: usize = 0;
    proof {
        assert(out@ =~= spec_joined_reports(views, 0));
    }
    while i < n
        invariant
            i <= n,
            n == reports@.len(),
            views == Seq::new(reports@.len(), |k: int| reports@[k]@),
            out@ == spec_joined_reports(views, i as int),
        decreases n - i,
    {
        let ghost before = out@;
        if i > 0 {
            let mut sep = str_chars("\n\n---\n\n");
            out.append(&mut sep);
        }
        let mut piece = str_chars(reports[i].as_str());
        out.append(&mut piece);
        proof {
            if i == 0 {
                assert(out@ =~= spec_joined_reports(views, 1));
            } else {
                assert(out@ =~= spec_joined_reports(views, i as int) + "\n\n---\n\n"@
                    + views[i as int]);
                assert(out@ =~= spec_joined_reports(views, i as int + 1));
            }
        }
        i = i + 1;
    }
    string_from_chars(&out)
}

/// The synthesizer's system prompt.
pub fn synthesis_system_prompt() -> (r: String)
    ensures
        r@ == "You are a Lead Research Synthesizer.\nYour goal is to combine multiple research contexts into one cohesive, comprehensive master report.\n1. Read all the provided research data.\n2. Identify key themes, facts, and insights.\n3. Synthesize them into a single, well-structured markdown document.\n4. Ensure the flow is logical and the tone is professional.\nAlways use the <think> tag to explain your synthesis process."@,
{
    string_from_chars(&str_chars(
        "You are a Lead Research Synthesizer.\nYour goal is to combine multiple research contexts into one cohesive, comprehensive master report.\n1. Read all the provided research data.\n2. Identify key themes, facts, and insights.\n3. Synthesize them into a single, well-structured markdown document.\n4. Ensure the flow is logical and the tone is professional.\nAlways use the <think> tag to explain your synthesis process.",
    ))
}

/// The task handed to the synthesizer: the topic and the joined reports.
pub fn synthesis_input(topic: &str, joined_reports: &str) -> (r: String)
    ensures
        r@ == "Here is the raw research data for the topic '"@ + topic@ + "':\n\n"@
            + joined_reports@,
{
    let mut out: Vec<char> = str_chars("Here is the raw research data for the topic '");
    let mut t = str_chars(topic);
    out.append(&mut t);
    let mut m = str_chars("':\n\n");
    out.append(&mut m);
    let mut j = str_chars(joined_reports);
    out.append(&mut j);
    proof {
        assert(out@ =~= "Here is the raw research data for the topic '"@ + topic@ + "':\n\n"@
            + joined_reports@);
    }
    string_from_chars(&out)
}

fn lit(s: &str) -> (r: String)
    ensures
        r@ == s@,
{
    string_from_chars(&str_chars(s))
}

} // verus!
