use vstd::prelude::*;
use crate::json::str_chars;
use crate::text::{spec_contains, spec_find, contains_pat, find_from};
use crate::tkg::{lower_of, lowercase};
use vstd::string::StrSliceExecFns;

verus! {

broadcast use vstd::seq::group_seq_axioms, vstd::std_specs::vec::group_vec_axioms, vstd::string::group_string_axioms;

/// Knowledge-base content search: the per-file relevance score and the
/// snippet window, the pure heart of the search tool. The embedding
/// application walks the files, reads them, and ranks with these.

pub open spec fn spec_know_ws(c: char) -> bool {
    c == ' ' || c == '\t' || c == '\n' || c == '\r'
}

/// The whitespace-separated words of a text, from position `i` on, with
/// the word under assembly.
pub open spec fn spec_tokens_from(s: Seq<char>, i: int, w: Seq<char>) -> Seq<Seq<char>>
    decreases s.len() - i,
{
    if i < 0 || i >= s.len() {
        if w.len() > 0 {
            seq![w]
        } else {
            Seq::<Seq<char>>::empty()
        }
    } else if spec_know_ws(s[i]) {
        if w.len() > 0 {
            seq![w] + spec_tokens_from(s, i + 1, Seq::<char>::empty())
        } else {
            spec_tokens_from(s, i + 1, Seq::<char>::empty())
        }
    } else {
        spec_tokens_from(s, i + 1, w.push(s[i]))
    }
}

/// The whitespace-separated words of a text.
pub open spec fn spec_tokens(s: Seq<char>) -> Seq<Seq<char>> {
    spec_tokens_from(s, 0, Seq::<char>::empty())
}

/// Addition that stops at the score counter's ceiling.
pub open spec fn spec_sat_score(a: int, b: int) -> int {
    if a + b > 0xffff_ffff_ffff_ffff {
        0xffff_ffff_ffff_ffff
    } else {
        a + b
    }
}

/// The token contributions from token `i` on: one point and one matched
/// count for a token in the content, two points for one in the file name.
pub open spec fn spec_token_score_from(
    cl: Seq<char>,
    fl: Seq<char>,
    toks: Seq<Seq<char>>,
    i: int,
    score: int,
    matched: int,
) -> (int, int)
    decreases toks.len() - i,
{
    if i < 0 || i >= toks.len() {
        (score, matched)
    } else {
        let s1 = if spec_contains(cl, toks[i]) {
            spec_sat_score(score, 1)
        } else {
            score
        };
        let m1 = if spec_contains(cl, toks[i]) {
            spec_sat_score(matched, 1)
        } else {
            matched
        };
        let s2 = if spec_contains(fl, toks[i]) {
            spec_sat_score(s1, 2)
        } else {
            s1
        };
        spec_token_score_from(cl, fl, toks, i + 1, s2, m1)
    }
}

/// The relevance of one file for a query: ten points for the exact
/// phrase in the content, twenty in the file name, then the per-token
/// contributions; beside it, how many query tokens the content holds.
/// All matching is on the lower-cased texts.
pub open spec fn spec_score_file(q: Seq<char>, fname: Seq<char>, content: Seq<char>) -> (int, int) {
    let ql = lower_of(q);
    let cl = lower_of(content);
    let fl = lower_of(fname);
    let p1 = if spec_contains(cl, ql) {
        spec_sat_score(0, 10)
    } else {
        0
    };
    let p2 = if spec_contains(fl, ql) {
        spec_sat_score(p1, 20)
    } else {
        p1
    };
    spec_token_score_from(cl, fl, spec_tokens(ql), 0, p2, 0)
}

/// The anchor of the snippet: where the exact phrase occurs in the
/// lower-cased content, else where the first query token that occurs at
/// all does, else the start.
pub open spec fn spec_first_token_pos(cl: Seq<char>, toks: Seq<Seq<char>>, i: int) -> int
    decreases toks.len() - i,
{
    if i < 0 || i >= toks.len() {
        0
    } else if spec_find(cl, toks[i], 0) >= 0 {
        spec_find(cl, toks[i], 0)
    } else {
        spec_first_token_pos(cl, toks, i + 1)
    }
}

pub open spec fn spec_snippet_anchor(q: Seq<char>, content: Seq<char>) -> int {
    let ql = lower_of(q);
    let cl = lower_of(content);
    if spec_find(cl, ql, 0) >= 0 {
        spec_find(cl, ql, 0)
    } else {
        spec_first_token_pos(cl, spec_tokens(ql), 0)
    }
}

/// The snippet window around the anchor: up to fifty characters before
/// it and one hundred and fifty after, clamped to the content.
pub open spec fn spec_snippet_range(q: Seq<char>, content: Seq<char>) -> (int, int) {
    let pos = spec_snippet_anchor(q, content);
    let end = if pos + 150 <= content.len() {
        pos + 150
    } else {
        content.len() as int
    };
    let start0 = if pos >= 50 {
        pos - 50
    } else {
        0
    };
    let start = if start0 <= end {
        start0
    } else {
        end
    };
    (start, end)
}

/// The views of an executable token list.
pub open spec fn token_views(toks: Seq<Vec<char>>) -> Seq<Seq<char>> {
    Seq::new(toks.len(), |i: int| toks[i]@)
}

/// Split a text into its whitespace-separated words.
fn tokens_of(s: &Vec<char>) -> (r: Vec<Vec<char>>)
    ensures
        token_views(r@) == spec_tokens(s@),
{
    let n = s.len();
    let mut r: Vec<Vec<char>> = Vec::new();
    let mut w: Vec<char> = Vec::new();
    let mut i: usize = 0;
    proof {
        assert(w@ =~= Seq::<char>::empty());
    }
    while i < n
        invariant
            i <= n,
            n == s@.len(),
            spec_tokens(s@) =~= token_views(r@) + spec_tokens_from(s@, i as int, w@),
        decreases n - i,
    {
        let ghost r_view = token_views(r@);
        let ghost w_view = w@;
        let c = s[i];
        if c == ' ' || c == '\t' || c == '\n' || c == '\r' {
            proof {
                assert(spec_know_ws(s@[i as int]));
            }
            if w.len() > 0 {
                r.push(w);
                proof {
                    assert(token_views(r@) =~= r_view.push(w_view));
                    assert(spec_tokens_from(s@, i as int, w_view) == seq![w_view]
                        + spec_tokens_from(s@, i as int + 1, Seq::<char>::empty()));
                    assert(r_view + spec_tokens_from(s@, i as int, w_view) =~= token_views(r@)
                        + spec_tokens_from(s@, i as int + 1, Seq::<char>::empty()));
                }
                w = Vec::new();
                proof {
                    assert(w@ =~= Seq::<char>::empty());
                }
            } else {
                proof {
                    assert(spec_tokens_from(s@, i as int, w_view) == spec_tokens_from(
                        s@,
                        i as int + 1,
                        Seq::<char>::empty(),
                    ));
                    assert(w@ =~= Seq::<char>::empty());
                }
            }
        } else {
            w.push(c);
            proof {
                assert(w@ =~= w_view.push(s@[i as int]));
                assert(spec_tokens_from(s@, i as int, w_view) == spec_tokens_from(
                    s@,
                    i as int + 1,
                    w_view.push(s@[i as int]),
                ));
            }
        }
        i = i + 1;
    }
    if w.len() > 0 {
        let ghost r_view = token_views(r@);
        r.push(w);
        proof {
            assert(token_views(r@) =~= r_view.push(r@[r@.len() - 1]@));
        }
    }
    proof {
        assert(token_views(r@) =~= spec_tokens(s@));
    }
    r
}

fn sat_score(a: u64, b: u64) -> (r: u64)
    ensures
        r as int == spec_sat_score(a as int, b as int),
{
    if b > 0xffff_ffff_ffff_ffff - a {
        0xffff_ffff_ffff_ffff
    } else {
        a + b
    }
}

/// Score one knowledge-base file for a query: the relevance points and
/// the number of query tokens found in the content.
pub fn score_file(query: &str, filename: &str, content: &str) -> (r: (u64, u64))
    ensures
        r.0 as int == spec_score_file(query@, filename@, content@).0,
        r.1 as int == spec_score_file(query@, filename@, content@).1,
{
    let ql = str_chars(lowercase(query).as_str());
    let cl = str_chars(lowercase(content).as_str());
    let fl = str_chars(lowercase(filename).as_str());
    let toks = tokens_of(&ql);
    let mut score: u64 = 0;
    if contains_pat(&cl, &ql) {
        score = sat_score(score, 10);
    }
    if contains_pat(&fl, &ql) {
        score = sat_score(score, 20);
    }
    let mut matched: u64 = 0;
    proof {
        assert(spec_score_file(query@, filename@, content@) == spec_token_score_from(
            cl@,
            fl@,
            token_views(toks@),
            0,
            score as int,
            0,
        ));
    }
    let n = toks.len();
    let mut i: usize = 0;
    while i < n
        invariant
            i <= n,
            n == toks@.len(),
            cl@ == lower_of(content@),
            fl@ == lower_of(filename@),
            token_views(toks@) == spec_tokens(lower_of(query@)),
            spec_score_file(query@, filename@, content@) == spec_token_score_from(
                cl@,
                fl@,
                token_views(toks@),
                i as int,
                score as int,
                matched as int,
            ),
        decreases n - i,
    {
        let t = &toks[i];
        proof {
            assert(token_views(toks@)[i as int] == toks@[i as int]@);
        }
        if contains_pat(&cl, t) {
            score = sat_score(score, 1);
            matched = sat_score(matched, 1);
        }
        if contains_pat(&fl, t) {
            score = sat_score(score, 2);
        }
        i = i + 1;
    }
    (score, matched)
}

/// The snippet window of one file for a query: a range of the content,
/// fifty characters before the anchor and one hundred and fifty after.
pub fn snippet_range(query: &str, content: &str) -> (r: (usize, usize))
    ensures
        r.0 as int == spec_snippet_range(query@, content@).0,
        r.1 as int == spec_snippet_range(query@, content@).1,
        r.0 <= r.1 <= content@.len(),
{
    let ql = str_chars(lowercase(query).as_str());
    let cl = str_chars(lowercase(content).as_str());
    let toks = tokens_of(&ql);
    let pos: usize = match find_from(&cl, &ql, 0) {
        Some(p) => p,
        None => {
            let n = toks.len();
            let mut i: usize = 0;
            let mut found: usize = 0;
            let mut done: bool = false;
            while !done && i < n
                invariant
                    i <= n,
                    n == toks@.len(),
                    cl@ == lower_of(content@),
                    token_views(toks@) == spec_tokens(lower_of(query@)),
                    !done ==> found == 0 && spec_first_token_pos(cl@, token_views(toks@), 0)
                        == spec_first_token_pos(cl@, token_views(toks@), i as int),
                    done ==> found as int == spec_first_token_pos(cl@, token_views(toks@), 0),
                decreases n - i, (if done { 0int } else { 1int }),
            {
                proof {
                    assert(token_views(toks@)[i as int] == toks@[i as int]@);
                }
                match find_from(&cl, &toks[i], 0) {
                    Some(p) => {
                        found = p;
                        done = true;
                    }
                    None => {
                        i = i + 1;
                    }
                }
            }
            found
        }
    };
    let len = content.unicode_len();
    let end: usize = if pos < len && len - pos >= 150 {
        pos + 150
    } else {
        len
    };
    let start0: usize = if pos >= 50 {
        pos - 50
    } else {
        0
    };
    let start: usize = if start0 <= end {
        start0
    } else {
        end
    };
    (start, end)
}

} // verus!
