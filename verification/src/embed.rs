use vstd::prelude::*;
use crate::json::str_chars;
use crate::text::{spec_dec, dec_chars};

verus! {

broadcast use vstd::seq::group_seq_axioms, vstd::std_specs::vec::group_vec_axioms, vstd::string::group_string_axioms;

/// What the embedding command reports back.
#[derive(Debug, Clone)]
pub struct EmbedResult {
    pub success: bool,
    pub chunks_processed: usize,
    pub collection: String,
    pub error: Option<String>,
}

/// A request to embed a file's chunks.
#[derive(Debug, Clone)]
pub struct EmbedRequest {
    pub chunks: Vec<String>,
    pub filename: String,
    pub collection_name: Option<String>,
    pub chunk_size: Option<usize>,
    pub chunk_overlap: Option<usize>,
}

/// One step of the point-id hash: exclusive-or the character in, then
/// multiply by the FNV prime, kept to 64 bits.
pub open spec fn spec_fnv_step(h: u64, c: char) -> u64 {
    ((((h ^ ((c as u32) as u64)) as int) * 0x100000001b3) % 0x1_0000_0000_0000_0000) as u64
}

/// The hash of the first `n` characters, from the FNV offset basis.
pub open spec fn spec_fnv(s: Seq<char>, n: int) -> u64
    decreases n,
{
    if n <= 0 {
        0xcbf29ce484222325u64
    } else {
        spec_fnv_step(spec_fnv(s, n - 1), s[n - 1])
    }
}

/// The stable point id of a chunk: the hash of `filename`, a colon and
/// the chunk index written in decimal.
pub open spec fn spec_point_id(filename: Seq<char>, chunk_index: int) -> u64 {
    spec_fnv(
        filename + seq![':'] + spec_dec(chunk_index as nat),
        (filename.len() + 1 + spec_dec(chunk_index as nat).len()) as int,
    )
}

fn fnv_hash(s: &Vec<char>) -> (h: u64)
    ensures
        h == spec_fnv(s@, s@.len() as int),
{
    let n = s.len();
    let mut h: u64 = 0xcbf29ce484222325;
    let mut i: usize = 0;
    while i < n
        invariant
            i <= n,
            n == s@.len(),
            h == spec_fnv(s@, i as int),
        decreases n - i,
    {
        let c: u64 = (s[i] as u32) as u64;
        let x: u64 = h ^ c;
        let wide: u128 = (x as u128) * 0x100000001b3u128;
        proof {
            assert(wide as int == (x as int) * 0x100000001b3);
            assert(c == (s@[i as int] as u32) as u64);
        }
        let hm: u128 = wide % 0x1_0000_0000_0000_0000u128;
        h = hm as u64;
        proof {
            assert(h as int == (wide as int) % 0x1_0000_0000_0000_0000);
            assert(h == spec_fnv_step(spec_fnv(s@, i as int), s@[i as int]));
        }
        i = i + 1;
    }
    h
}

/// A deterministic identifier for one chunk of one file, used as the
/// stored point's id.
pub fn generate_point_id(filename: &str, chunk_index: usize) -> (r: u64)
    ensures
        r == spec_point_id(filename@, chunk_index as int),
{
    let mut cs = str_chars(filename);
    cs.push(':');
    let mut digits = dec_chars(chunk_index as u128);
    cs.append(&mut digits);
    proof {
        assert(cs@ =~= filename@ + seq![':'] + spec_dec(chunk_index as nat));
    }
    fnv_hash(&cs)
}

} // verus!
