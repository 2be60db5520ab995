use vstd::prelude::*;
use crate::json::{spec_is_ws, spec_skip_ws, skip_ws};

verus! {

broadcast use vstd::seq::group_seq_axioms, vstd::std_specs::vec::group_vec_axioms, vstd::string::group_string_axioms;

/// ASCII lower case of one character; everything else is kept.
pub open spec fn spec_lower(c: char) -> char {
    if 'A' <= c && c <= 'Z' {
        ((c as u32 + 32) as u8) as char
    } else {
        c
    }
}

/// ASCII lower case of a sequence.
pub open spec fn spec_lower_seq(s: Seq<char>) -> Seq<char> {
    Seq::new(s.len(), |i: int| spec_lower(s[i]))
}

/// ASCII lower case of one character.
pub fn lower_char(c: char) -> (r: char)
    ensures
        r == spec_lower(c),
{
    match c {
        'A' => 'a', 'B' => 'b', 'C' => 'c', 'D' => 'd', 'E' => 'e', 'F' => 'f', 'G' => 'g',
        'H' => 'h', 'I' => 'i', 'J' => 'j', 'K' => 'k', 'L' => 'l', 'M' => 'm', 'N' => 'n',
        'O' => 'o', 'P' => 'p', 'Q' => 'q', 'R' => 'r', 'S' => 's', 'T' => 't', 'U' => 'u',
        'V' => 'v', 'W' => 'w', 'X' => 'x', 'Y' => 'y', 'Z' => 'z',
        _ => c,
    }
}

/// ASCII lower case of a character vector.
pub fn lower_vec(s: &Vec<char>) -> (r: Vec<char>)
    ensures
        r@ == spec_lower_seq(s@),
{
    let n = s.len();
    let mut r: Vec<char> = Vec::new();
    let mut i: usize = 0;
    while i < n
        invariant
            i <= n,
            n == s@.len(),
            r@.len() == i,
            forall|k: int| 0 <= k < i ==> r@[k] == spec_lower(s@[k]),
        decreases n - i,
    {
        r.push(lower_char(s[i]));
        i = i + 1;
    }
    proof {
        assert(r@ =~= spec_lower_seq(s@));
    }
    r
}

/// The pattern occurs in `s` at position `i`.
pub open spec fn spec_matches_at(s: Seq<char>, i: int, pat: Seq<char>) -> bool {
    0 <= i && i + pat.len() <= s.len() && forall|k: int|
        0 <= k < pat.len() ==> s[i + k] == pat[k]
}

/// The first position at or after `from` where the pattern occurs, or -1.
pub open spec fn spec_find(s: Seq<char>, pat: Seq<char>, from: int) -> int
    decreases s.len() - from,
{
    if from < 0 || from + pat.len() > s.len() {
        -1
    } else if spec_matches_at(s, from, pat) {
        from
    } else {
        spec_find(s, pat, from + 1)
    }
}

/// The pattern occurs somewhere in `s`.
pub open spec fn spec_contains(s: Seq<char>, pat: Seq<char>) -> bool {
    spec_find(s, pat, 0) >= 0
}

/// Whether the pattern occurs in `s` at position `i`.
pub fn matches_at(s: &Vec<char>, i: usize, pat: &Vec<char>) -> (b: bool)
    requires
        i <= s@.len(),
    ensures
        b == spec_matches_at(s@, i as int, pat@),
{
    let n = s.len();
    if n - i < pat.len() {
        return false;
    }
    let m = pat.len();
    let mut k: usize = 0;
    while k < m
        invariant
            k <= m,
            m == pat@.len(),
            n == s@.len(),
            i + m <= n,
            forall|q: int| 0 <= q < k ==> s@[i + q] == pat@[q],
        decreases m - k,
    {
        if s[i + k] != pat[k] {
            return false;
        }
        k = k + 1;
    }
    true
}

/// The first position at or after `from` where the pattern occurs, or -1
/// (returned as `None`).
pub fn find_from(s: &Vec<char>, pat: &Vec<char>, from: usize) -> (r: Option<usize>)
    requires
        from <= s@.len(),
    ensures
        match r {
            Some(p) => p as int == spec_find(s@, pat@, from as int) && from <= p
                && p + pat@.len() <= s@.len(),
            None => spec_find(s@, pat@, from as int) == -1,
        },
{
    let n = s.len();
    let m = pat.len();
    if m > n || from > n - m {
        return None;
    }
    let mut i: usize = from;
    while i <= n - m
        invariant
            from <= i,
            n == s@.len(),
            m == pat@.len(),
            m <= n,
            i <= n - m + 1,
            spec_find(s@, pat@, from as int) == spec_find(s@, pat@, i as int),
        decreases n - i,
    {
        if matches_at(s, i, pat) {
            return Some(i);
        }
        i = i + 1;
    }
    None
}

/// Whether the pattern occurs anywhere in `s`.
pub fn contains_pat(s: &Vec<char>, pat: &Vec<char>) -> (b: bool)
    ensures
        b == spec_contains(s@, pat@),
{
    match find_from(s, pat, 0) {
        Some(_) => true,
        None => false,
    }
}

/// The position after the last non-whitespace character before `i`.
pub open spec fn spec_rskip_ws(s: Seq<char>, i: int) -> int
    decreases i,
{
    if 0 < i && i <= s.len() && spec_is_ws(s[i - 1]) {
        spec_rskip_ws(s, i - 1)
    } else {
        i
    }
}

/// The subrange of `s` from `lo` to `hi` with surrounding whitespace removed.
pub open spec fn spec_trim_range(s: Seq<char>, lo: int, hi: int) -> Seq<char> {
    let a = spec_skip_ws(s, lo);
    if a >= hi {
        Seq::<char>::empty()
    } else {
        s.subrange(a, spec_rskip_ws(s, hi))
    }
}

/// Copy `s[lo..hi]` with surrounding whitespace removed.
pub fn trim_range(s: &Vec<char>, lo: usize, hi: usize) -> (r: Vec<char>)
    requires
        lo <= hi <= s@.len(),
    ensures
        r@ == spec_trim_range(s@, lo as int, hi as int),
{
    let a: usize = skip_ws(s, lo);
    if a >= hi {
        let empty: Vec<char> = Vec::new();
        empty
    } else {
        let mut b: usize = hi;
        while b > 0 && is_ws_char(s[b - 1])
            invariant
                0 <= b <= hi <= s@.len(),
                spec_rskip_ws(s@, hi as int) == spec_rskip_ws(s@, b as int),
            decreases b,
        {
            b = b - 1;
        }
        proof {
            lemma_skip_ws_at(s@, lo as int);
            lemma_rskip_lb(s@, a as int, hi as int);
        }
        let mut r: Vec<char> = Vec::new();
        let mut k: usize = a;
        proof {
            assert(r@ =~= s@.subrange(a as int, a as int));
        }
        while k < b
            invariant
                a <= k <= b <= s@.len(),
                r@ == s@.subrange(a as int, k as int),
            decreases b - k,
        {
            r.push(s[k]);
            assert(r@ =~= s@.subrange(a as int, (k + 1) as int));
            k = k + 1;
        }
        r
    }
}

proof fn lemma_skip_ws_at(s: Seq<char>, i: int)
    requires
        0 <= i <= s.len(),
    ensures
        i <= spec_skip_ws(s, i) <= s.len(),
        spec_skip_ws(s, i) < s.len() ==> !spec_is_ws(s[spec_skip_ws(s, i)]),
    decreases s.len() - i,
{
    if i < s.len() && spec_is_ws(s[i]) {
        lemma_skip_ws_at(s, i + 1);
    }
}

proof fn lemma_rskip_lb(s: Seq<char>, a: int, hi: int)
    requires
        0 <= a < hi <= s.len(),
        !spec_is_ws(s[a]),
    ensures
        a < spec_rskip_ws(s, hi) <= hi,
    decreases hi,
{
    if spec_is_ws(s[hi - 1]) {
        lemma_rskip_lb(s, a, hi - 1);
    }
}

fn is_ws_char(c: char) -> (b: bool)
    ensures
        b == spec_is_ws(c),
{
    c == ' ' || c == '\t' || c == '\n' || c == '\r'
}

/// Copy the subrange `s[lo..hi]`.
pub fn copy_range(s: &Vec<char>, lo: usize, hi: usize) -> (r: Vec<char>)
    requires
        lo <= hi <= s@.len(),
    ensures
        r@ == s@.subrange(lo as int, hi as int),
{
    let mut r: Vec<char> = Vec::new();
    let mut k: usize = lo;
    proof {
        assert(r@ =~= s@.subrange(lo as int, lo as int));
    }
    while k < hi
        invariant
            lo <= k <= hi <= s@.len(),
            r@ == s@.subrange(lo as int, k as int),
        decreases hi - k,
    {
        r.push(s[k]);
        assert(r@ =~= s@.subrange(lo as int, (k + 1) as int));
        k = k + 1;
    }
    r
}

/// The decimal digits of `n`, most significant first.
pub open spec fn spec_dec(n: nat) -> Seq<char>
    decreases n,
{
    let d = spec_digit_char((n % 10) as int);
    if n < 10 {
        seq![d]
    } else {
        spec_dec(n / 10) + seq![d]
    }
}

pub open spec fn spec_digit_char(d: int) -> char {
    if d == 0 { '0' } else if d == 1 { '1' } else if d == 2 { '2' } else if d == 3 { '3' }
    else if d == 4 { '4' } else if d == 5 { '5' } else if d == 6 { '6' } else if d == 7 { '7' }
    else if d == 8 { '8' } else { '9' }
}

fn digit_char(d: u128) -> (c: char)
    requires
        d < 10,
    ensures
        c == spec_digit_char(d as int),
{
    match d {
        0 => '0', 1 => '1', 2 => '2', 3 => '3', 4 => '4', 5 => '5', 6 => '6', 7 => '7',
        8 => '8', _ => '9',
    }
}

/// The decimal digits of `n`.
pub fn dec_chars(n: u128) -> (r: Vec<char>)
    ensures
        r@ == spec_dec(n as nat),
    decreases n,
{
    let d = digit_char(n % 10);
    if n < 10 {
        let mut r: Vec<char> = Vec::new();
        r.push(d);
        proof {
            assert(r@ =~= seq![d]);
        }
        r
    } else {
        let mut r = dec_chars(n / 10);
        r.push(d);
        proof {
            assert(r@ =~= spec_dec((n / 10) as nat) + seq![d]);
        }
        r
    }
}

/// The synthetic identifier given to the `n`-th extracted tool call.
pub open spec fn spec_call_id(n: nat) -> Seq<char> {
    seq!['c', 'a', 'l', 'l', '_'] + spec_dec(n)
}

/// Build the synthetic identifier of the `n`-th extracted tool call.
pub fn make_call_id(n: u128) -> (r: String)
    ensures
        r@ == spec_call_id(n as nat),
{
    let mut cs: Vec<char> = Vec::new();
    cs.push('c');
    cs.push('a');
    cs.push('l');
    cs.push('l');
    cs.push('_');
    let ghost prefix = cs@;
    let mut digits = dec_chars(n);
    cs.append(&mut digits);
    proof {
        assert(prefix =~= seq!['c', 'a', 'l', 'l', '_']);
        assert(cs@ =~= spec_call_id(n as nat));
    }
    crate::json::string_from_chars(&cs)
}

} // verus!
