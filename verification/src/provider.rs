use vstd::prelude::*;
use crate::repo_index::FileInfo;

verus! {

broadcast use vstd::seq::group_seq_axioms, vstd::std_specs::vec::group_vec_axioms, vstd::string::group_string_axioms;

/// The providers of the repository-exploration chat service.
#[derive(Debug, Clone, Copy, PartialEq, Eq, Structural)]
pub enum AIProvider {
    Grok,
    Minimax,
}

impl AIProvider {
    /// The model requested from this provider.
    pub fn model_name(&self) -> (r: &'static str)
        ensures
            self is Grok ==> r@ == "grok-beta"@,
            self is Minimax ==> r@ == "abab6.5s-chat"@,
    {
        match self {
            AIProvider::Grok => "grok-beta",
            AIProvider::Minimax => "abab6.5s-chat",
        }
    }

    /// The environment variable that carries this provider's key.
    pub fn api_key_env_var(&self) -> (r: &'static str)
        ensures
            self is Grok ==> r@ == "XAI_API_KEY"@,
            self is Minimax ==> r@ == "MINIMAX_API_KEY"@,
    {
        match self {
            AIProvider::Grok => "XAI_API_KEY",
            AIProvider::Minimax => "MINIMAX_API_KEY",
        }
    }
}

/// The repository context handed to a question.
#[derive(Debug, Clone)]
pub struct ChatContext {
    pub repo_files: Vec<String>,
    pub file_contents: Vec<(String, String)>,
}

/// How many of the first `n` files are text files.
pub open spec fn spec_text_count(files: Seq<FileInfo>, n: int) -> int
    decreases n,
{
    if n <= 0 {
        0
    } else {
        spec_text_count(files, n - 1) + (if files[n - 1].is_text {
            1int
        } else {
            0int
        })
    }
}

/// Addition that stops at the score counter's ceiling.
pub open spec fn spec_add_score(a: int, b: int) -> int {
    if a + b > 0xffff_ffff_ffff_ffff {
        0xffff_ffff_ffff_ffff
    } else {
        a + b
    }
}

/// Ten points when the word under assembly is long enough and occurs in
/// the lower-cased path.
pub open spec fn spec_word_bonus(p: Seq<char>, w: Seq<char>) -> int {
    if w.len() > 3 && crate::text::spec_contains(p, w) {
        10
    } else {
        0
    }
}

/// The keyword score accumulated from position `i` of the lower-cased
/// question on, with the word under assembly and the score so far: ten
/// points for each whitespace-separated word of more than three
/// characters that occurs in the lower-cased path.
pub open spec fn spec_word_score_from(
    q: Seq<char>,
    p: Seq<char>,
    i: int,
    w: Seq<char>,
    acc: int,
) -> int
    decreases q.len() - i,
{
    if i < 0 || i >= q.len() {
        spec_add_score(acc, spec_word_bonus(p, w))
    } else if q[i] == ' ' || q[i] == '\t' || q[i] == '\n' || q[i] == '\r' {
        spec_word_score_from(q, p, i + 1, Seq::<char>::empty(), spec_add_score(acc, spec_word_bonus(p, w)))
    } else {
        spec_word_score_from(q, p, i + 1, w.push(q[i]), acc)
    }
}

/// The extension and size preferences of the file ranking.
pub open spec fn spec_file_bonus(f: FileInfo) -> int {
    (match f.extension {
        Some(e) => if e@ == "rs"@ || e@ == "py"@ || e@ == "js"@ || e@ == "ts"@ {
            5int
        } else if e@ == "md"@ || e@ == "txt"@ {
            2int
        } else {
            0int
        },
        None => 0int,
    }) + (if f.size < 10000 {
        3int
    } else if f.size < 50000 {
        1int
    } else {
        0int
    })
}

/// The relevance score of one file for a lower-cased question: keyword
/// hits in the lower-cased path, then the extension and size preferences.
pub open spec fn spec_file_score(qlow: Seq<char>, f: FileInfo) -> int {
    let base = spec_word_score_from(
        qlow,
        crate::text::spec_lower_seq(f.relative_path@),
        0,
        Seq::<char>::empty(),
        0,
    );
    let ext = match f.extension {
        Some(e) => if e@ == "rs"@ || e@ == "py"@ || e@ == "js"@ || e@ == "ts"@ {
            5int
        } else if e@ == "md"@ || e@ == "txt"@ {
            2int
        } else {
            0int
        },
        None => 0int,
    };
    let size = if f.size < 10000 {
        3int
    } else if f.size < 50000 {
        1int
    } else {
        0int
    };
    spec_add_score(spec_add_score(base, ext), size)
}

/// Pick up to `max_files` file paths worth showing for a question: the
/// text files, scored by keyword hits in their paths, preferred
/// extensions and small sizes, best first; ties keep their input order.
pub fn select_relevant_files(question: &str, all_files: &Vec<FileInfo>, max_files: usize) -> (r:
    Vec<String>)
    ensures
        r@.len() == (if max_files as int <= spec_text_count(all_files@, all_files@.len() as int) {
            max_files as int
        } else {
            spec_text_count(all_files@, all_files@.len() as int)
        }),
        exists|idxs: Seq<int>|
            {
                &&& #[trigger] idxs.len() == r@.len()
                &&& (forall|k: int| 0 <= k < idxs.len() ==> 0 <= #[trigger] idxs[k]
                    < all_files@.len() && all_files@[idxs[k]].is_text && r@[k]@
                    == all_files@[idxs[k]].relative_path@)
                &&& (forall|k1: int, k2: int| 0 <= k1 < k2 < idxs.len() ==> spec_file_score(
                    crate::text::spec_lower_seq(question@),
                    all_files@[#[trigger] idxs[k1]],
                ) >= spec_file_score(crate::text::spec_lower_seq(question@), all_files@[#[trigger] idxs[k2]]))
            },
{
    let lowered = crate::text::lower_vec(&crate::json::str_chars(question));
    let ghost qlow = crate::text::spec_lower_seq(question@);
    let n = all_files.len();
    let mut scored: Vec<(u64, usize)> = Vec::new();
    let mut i: usize = 0;
    while i < n
        invariant
            i <= n,
            n == all_files@.len(),
            lowered@ == qlow,
            scored@.len() == spec_text_count(all_files@, i as int),
            forall|k: int| 0 <= k < scored@.len() ==> (#[trigger] scored@[k]).1 < i
                && all_files@[scored@[k].1 as int].is_text && scored@[k].0 as int
                == spec_file_score(qlow, all_files@[scored@[k].1 as int]),
            forall|k1: int, k2: int| 0 <= k1 < k2 < scored@.len() ==> (#[trigger] scored@[k1]).0
                >= (#[trigger] scored@[k2]).0,
        decreases n - i,
    {
        if all_files[i].is_text {
            let score = file_score(&lowered, &all_files[i]);
            let mut pos: usize = scored.len();
            while pos > 0 && scored[pos - 1].0 < score
                invariant
                    pos <= scored@.len(),
                    forall|k: int| pos <= k < scored@.len() ==> (#[trigger] scored@[k]).0 < score,
                    forall|k1: int, k2: int| 0 <= k1 < k2 < scored@.len()
                        ==> (#[trigger] scored@[k1]).0 >= (#[trigger] scored@[k2]).0,
                    forall|k: int| 0 <= k < scored@.len() ==> (#[trigger] scored@[k]).1 < i
                        && all_files@[scored@[k].1 as int].is_text && scored@[k].0 as int
                        == spec_file_score(qlow, all_files@[scored@[k].1 as int]),
                decreases pos,
            {
                pos = pos - 1;
            }
            scored.insert(pos, (score, i));
        }
        i = i + 1;
    }
    let take: usize = if max_files <= scored.len() {
        max_files
    } else {
        scored.len()
    };
    let mut r: Vec<String> = Vec::new();
    let mut k: usize = 0;
    while k < take
        invariant
            k <= take,
            take <= scored@.len(),
            n == all_files@.len(),
            lowered@ == qlow,
            forall|j: int| 0 <= j < scored@.len() ==> (#[trigger] scored@[j]).1 < n
                && all_files@[scored@[j].1 as int].is_text && scored@[j].0 as int
                == spec_file_score(qlow, all_files@[scored@[j].1 as int]),
            forall|j1: int, j2: int| 0 <= j1 < j2 < scored@.len() ==> (#[trigger] scored@[j1]).0
                >= (#[trigger] scored@[j2]).0,
            r@.len() == k,
            forall|j: int| 0 <= j < k ==> (#[trigger] r@[j])@
                == all_files@[scored@[j].1 as int].relative_path@,
        decreases take - k,
    {
        let idx = scored[k].1;
        r.push(crate::json::string_from_chars(&crate::json::str_chars(
            all_files[idx].relative_path.as_str(),
        )));
        k = k + 1;
    }
    proof {
        let witness = Seq::new(r@.len() as nat, |j: int| scored@[j].1 as int);
        assert(witness.len() == r@.len());
        assert(forall|j: int| 0 <= j < witness.len() ==> 0 <= #[trigger] witness[j]
            < all_files@.len() && all_files@[witness[j]].is_text && r@[j]@
            == all_files@[witness[j]].relative_path@);
        assert(forall|k1: int, k2: int| 0 <= k1 < k2 < witness.len() ==> spec_file_score(
            qlow,
            all_files@[#[trigger] witness[k1]],
        ) >= spec_file_score(qlow, all_files@[#[trigger] witness[k2]]));
    }
    r
}

/// The relevance score of one file for a lower-cased question.
fn file_score(question_lower: &Vec<char>, f: &FileInfo) -> (score: u64)
    ensures
        score as int == spec_file_score(question_lower@, *f),
{
    let path_lower = crate::text::lower_vec(&crate::json::str_chars(f.relative_path.as_str()));
    let mut score: u64 = 0;
    let n = question_lower.len();
    let mut i: usize = 0;
    let mut word: Vec<char> = Vec::new();
    proof {
        assert(word@ =~= Seq::<char>::empty());
    }
    while i < n
        invariant
            i <= n,
            n == question_lower@.len(),
            path_lower@ == crate::text::spec_lower_seq(f.relative_path@),
            spec_word_score_from(
                question_lower@,
                path_lower@,
                0,
                Seq::<char>::empty(),
                0,
            ) == spec_word_score_from(
                question_lower@,
                path_lower@,
                i as int,
                word@,
                score as int,
            ),
        decreases n - i,
    {
        let c = question_lower[i];
        let at_break = c == ' ' || c == '\t' || c == '\n' || c == '\r';
        if at_break {
            if word.len() > 3 && crate::text::contains_pat(&path_lower, &word) {
                score = add_score(score, 10);
            }
            word = Vec::new();
            proof {
                assert(word@ =~= Seq::<char>::empty());
            }
        } else {
            word.push(c);
        }
        i = i + 1;
    }
    if word.len() > 3 && crate::text::contains_pat(&path_lower, &word) {
        score = add_score(score, 10);
    }
    match &f.extension {
        Some(ext) => {
            if crate::json::str_eq(ext.as_str(), "rs") || crate::json::str_eq(ext.as_str(), "py")
                || crate::json::str_eq(ext.as_str(), "js") || crate::json::str_eq(
                ext.as_str(),
                "ts",
            ) {
                score = add_score(score, 5);
            } else if crate::json::str_eq(ext.as_str(), "md") || crate::json::str_eq(
                ext.as_str(),
                "txt",
            ) {
                score = add_score(score, 2);
            }
        }
        None => {
        }
    }
    if f.size < 10000 {
        score = add_score(score, 3);
    } else if f.size < 50000 {
        score = add_score(score, 1);
    }
    score
}

fn add_score(a: u64, b: u64) -> (r: u64)
    ensures
        r as int == spec_add_score(a as int, b as int),
{
    if b > 0xffff_ffff_ffff_ffff - a {
        0xffff_ffff_ffff_ffff
    } else {
        a + b
    }
}

/// The system message framing a repository question: the relevant file
/// contents when there are any, else the file list, and the answering
/// instructions.
pub fn build_context_message(context: &ChatContext) -> (r: String) {
    let mut out: Vec<char> = crate::json::str_chars(
        "You are an AI assistant helping analyze a code repository. Answer questions about the code based on the following context.\n\n",
    );
    if context.file_contents.len() > 0 {
        let mut head = crate::json::str_chars("Here are the relevant files:\n\n");
        out.append(&mut head);
        let n = context.file_contents.len();
        let mut i: usize = 0;
        while i < n
            invariant
                i <= n,
                n == context.file_contents@.len(),
            decreases n - i,
        {
            let mut open = crate::json::str_chars("=== File: ");
            out.append(&mut open);
            let mut path = crate::json::str_chars(context.file_contents[i].0.as_str());
            out.append(&mut path);
            let mut close = crate::json::str_chars(" ===\n");
            out.append(&mut close);
            let mut body = crate::json::str_chars(context.file_contents[i].1.as_str());
            out.append(&mut body);
            let mut gap = crate::json::str_chars("\n\n");
            out.append(&mut gap);
            i = i + 1;
        }
    } else if context.repo_files.len() > 0 {
        let mut head = crate::json::str_chars("Repository file structure:\n");
        out.append(&mut head);
        let n = context.repo_files.len();
        let mut i: usize = 0;
        while i < n
            invariant
                i <= n,
                n == context.repo_files@.len(),
            decreases n - i,
        {
            let mut dash = crate::json::str_chars("- ");
            out.append(&mut dash);
            let mut path = crate::json::str_chars(context.repo_files[i].as_str());
            out.append(&mut path);
            let mut nl = crate::json::str_chars("\n");
            out.append(&mut nl);
            i = i + 1;
        }
    }
    let mut tail = crate::json::str_chars(
        "\nProvide accurate, helpful answers based on this code. If you're not sure about something, say so. Include file paths and line references when relevant.",
    );
    out.append(&mut tail);
    crate::json::string_from_chars(&out)
}

} // verus!
