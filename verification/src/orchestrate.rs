use vstd::prelude::*;
use crate::json::{JsonValue, string_from_chars, str_chars};
use crate::text::{spec_lower_seq, lower_vec, spec_dec, dec_chars};

verus! {

broadcast use vstd::seq::group_seq_axioms, vstd::std_specs::vec::group_vec_axioms, vstd::string::group_string_axioms;

/// A request to run a task through a chain of agents.
#[derive(Debug)]
pub struct OrchestrateAgentRequest {
    pub chain_id: String,
    pub task: String,
    pub api_key: String,
    pub context: Option<Vec<(String, JsonValue)>>,
}

/// One agent's run inside a chain.
#[derive(Debug, Clone)]
pub struct AgentExecution {
    pub agent_id: String,
    pub agent_name: String,
    pub success: bool,
    pub content: String,
    pub error: Option<String>,
    pub timestamp: u64,
}

/// The outcome of a whole chain run.
#[derive(Debug)]
pub struct OrchestrateAgentResponse {
    pub chain_id: String,
    pub chain_name: String,
    pub executions: Vec<AgentExecution>,
    pub total_duration_ms: u64,
}

/// A request to register a new agent chain.
#[derive(Debug, Clone)]
pub struct CreateChainRequest {
    pub name: String,
    pub description: Option<String>,
    pub agent_ids: Vec<String>,
}

/// The registered chains.
#[derive(Debug)]
pub struct ListChainsResponse {
    pub chains: Vec<AgentChainInfo>,
}

#[derive(Debug, Clone)]
pub struct AgentChainInfo {
    pub id: String,
    pub name: String,
    pub description: String,
    pub agent_count: usize,
    pub created_at: u64,
}

/// A request to run a multi-agent debate.
#[derive(Debug, Clone)]
pub struct DebateRequest {
    pub topic: String,
    pub api_key: String,
    pub turns: Option<usize>,
    pub provider: Option<String>,
}

/// One speaker's contribution to a debate.
#[derive(Debug, Clone)]
pub struct DebateTurn {
    pub speaker: String,
    pub content: String,
    pub timestamp: u64,
}

/// A finished debate: its transcript and consensus.
#[derive(Debug)]
pub struct DebateResponse {
    pub topic: String,
    pub transcript: Vec<DebateTurn>,
    pub final_consensus: String,
}

/// The slug of a chain name: lower case, spaces as dashes.
pub open spec fn spec_chain_slug(name: Seq<char>) -> Seq<char> {
    Seq::new(
        name.len(),
        |i: int| if spec_lower_seq(name)[i] == ' ' {
            '-'
        } else {
            spec_lower_seq(name)[i]
        },
    )
}

/// The identifier minted for a newly created chain: the slugged name and
/// the creation time.
pub fn make_chain_id(name: &str, timestamp: u64) -> (r: String)
    ensures
        r@ == "chain-"@ + spec_chain_slug(name@) + seq!['-'] + spec_dec(timestamp as nat)
            + "-v1"@,
{
    let lowered = lower_vec(&str_chars(name));
    let n = lowered.len();
    let mut slug: Vec<char> = Vec::new();
    let mut i: usize = 0;
    while i < n
        invariant
            i <= n,
            n == lowered@.len(),
            lowered@ == spec_lower_seq(name@),
            slug@.len() == i,
            forall|k: int| 0 <= k < i ==> slug@[k] == (if spec_lower_seq(name@)[k] == ' ' {
                '-'
            } else {
                spec_lower_seq(name@)[k]
            }),
        decreases n - i,
    {
        if lowered[i] == ' ' {
            slug.push('-');
        } else {
            slug.push(lowered[i]);
        }
        i = i + 1;
    }
    let mut out: Vec<char> = str_chars("chain-");
    proof {
        assert(slug@ =~= spec_chain_slug(name@));
    }
    let mut s = slug;
    out.append(&mut s);
    out.push('-');
    let mut digits = dec_chars(timestamp as u128);
    out.append(&mut digits);
    let mut tail = str_chars("-v1");
    out.append(&mut tail);
    proof {
        assert(out@ =~= "chain-"@ + spec_chain_slug(name@) + seq!['-'] + spec_dec(
            timestamp as nat,
        ) + "-v1"@);
    }
    string_from_chars(&out)
}

/// The system prompt of the proposing debater.
pub fn architect_system_prompt() -> (r: String)
    ensures
        r@ == "You are The Architect.\nYour goal is to design robust, scalable, and innovative solutions.\nWhen presented with a topic, propose a high-level technical design.\nWhen critiqued, refine your design to address the concerns while maintaining the core vision.\nBe concise but specific."@,
{
    string_from_chars(&str_chars(
        "You are The Architect.\nYour goal is to design robust, scalable, and innovative solutions.\nWhen presented with a topic, propose a high-level technical design.\nWhen critiqued, refine your design to address the concerns while maintaining the core vision.\nBe concise but specific.",
    ))
}

/// The system prompt of the reviewing debater.
pub fn critic_system_prompt() -> (r: String)
    ensures
        r@ == "You are The Critic.\nYour goal is to find flaws, security risks, and performance bottlenecks.\nReview the Architect's proposals with extreme scrutiny.\nPoint out edge cases, race conditions, and scalability issues.\nBe constructive but ruthless."@,
{
    string_from_chars(&str_chars(
        "You are The Critic.\nYour goal is to find flaws, security risks, and performance bottlenecks.\nReview the Architect's proposals with extreme scrutiny.\nPoint out edge cases, race conditions, and scalability issues.\nBe constructive but ruthless.",
    ))
}

/// The speaker of debate step `s`: replies alternate, the proposer first,
/// and the step after the last round is the proposer's final word.
pub open spec fn spec_debate_speaker(step_index: int, turns: int) -> Seq<char> {
    if step_index >= 2 * turns {
        "Architect (Final)"@
    } else if step_index % 2 == 0 {
        "Architect"@
    } else {
        "Critic"@
    }
}

/// The prompt put to the speaker of debate step `s`: the topic opens the
/// debate, then each side is shown the other's last reply, and the final
/// step asks for the polished solution.
pub open spec fn spec_debate_prompt(
    step_index: int,
    turns: int,
    topic: Seq<char>,
    last_reply: Seq<char>,
) -> Seq<char> {
    if step_index >= 2 * turns {
        "Considering the Critic's feedback:\n"@ + last_reply
            + "\n\nProvide the FINAL, polished solution."@
    } else if step_index == 0 {
        "Please propose a solution for: "@ + topic
    } else if step_index % 2 == 1 {
        "The Architect proposed:\n"@ + last_reply + "\n\nCritique this design."@
    } else {
        "The Critic raised these points:\n"@ + last_reply + "\n\nRefine your design."@
    }
}

/// Decide one debate step: who speaks next and what they are asked. The
/// embedding application performs the completion call and feeds the
/// cleaned reply back as the next step's `last_reply`.
pub fn debate_next(step_index: usize, turns: usize, topic: &str, last_reply: &str) -> (r: (
    String,
    String,
))
    ensures
        r.0@ == spec_debate_speaker(step_index as int, turns as int),
        r.1@ == spec_debate_prompt(step_index as int, turns as int, topic@, last_reply@),
{
    if step_index / 2 >= turns {
        let speaker = string_from_chars(&str_chars("Architect (Final)"));
        let mut p: Vec<char> = str_chars("Considering the Critic's feedback:\n");
        let mut mid = str_chars(last_reply);
        p.append(&mut mid);
        let mut tail = str_chars("\n\nProvide the FINAL, polished solution.");
        p.append(&mut tail);
        proof {
            assert(p@ =~= "Considering the Critic's feedback:\n"@ + last_reply@
                + "\n\nProvide the FINAL, polished solution."@);
        }
        (speaker, string_from_chars(&p))
    } else if step_index == 0 {
        let speaker = string_from_chars(&str_chars("Architect"));
        let mut p: Vec<char> = str_chars("Please propose a solution for: ");
        let mut mid = str_chars(topic);
        p.append(&mut mid);
        proof {
            assert(p@ =~= "Please propose a solution for: "@ + topic@);
        }
        (speaker, string_from_chars(&p))
    } else if step_index % 2 == 1 {
        let speaker = string_from_chars(&str_chars("Critic"));
        let mut p: Vec<char> = str_chars("The Architect proposed:\n");
        let mut mid = str_chars(last_reply);
        p.append(&mut mid);
        let mut tail = str_chars("\n\nCritique this design.");
        p.append(&mut tail);
        proof {
            assert(p@ =~= "The Architect proposed:\n"@ + last_reply@
                + "\n\nCritique this design."@);
        }
        (speaker, string_from_chars(&p))
    } else {
        let speaker = string_from_chars(&str_chars("Architect"));
        let mut p: Vec<char> = str_chars("The Critic raised these points:\n");
        let mut mid = str_chars(last_reply);
        p.append(&mut mid);
        let mut tail = str_chars("\n\nRefine your design.");
        p.append(&mut tail);
        proof {
            assert(p@ =~= "The Critic raised these points:\n"@ + last_reply@
                + "\n\nRefine your design."@);
        }
        (speaker, string_from_chars(&p))
    }
}

} // verus!
