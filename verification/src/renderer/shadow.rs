//! Shader code handed to Vulkan as 32-bit words.

use vstd::prelude::*;

verus! {

/// The little-endian 32-bit word that starts at byte `4 * k`.
pub open spec fn word_at(code: Seq<u8>, k: int) -> int {
    code[4 * k] + 256 * code[4 * k + 1] + 65536 * code[4 * k + 2] + 16777216 * code[4 * k + 3]
}

/// SPIR-V bytes as the words a shader module is created from: one word per
/// whole four bytes, read little-endian (as a little-endian host reads them);
/// trailing bytes that do not fill a word are dropped.
pub fn spirv_words(code: &[u8]) -> (r: Vec<u32>)
    ensures
        r@.len() == code@.len() / 4,
        forall|k: int| 0 <= k < r@.len() ==> r@[k] == word_at(code@, k),
{
    let len = code.len();
    let n = len / 4;
    let mut words: Vec<u32> = Vec::new();
    let mut k: usize = 0;
    while k < n
        invariant
            len == code@.len(),
            n == code@.len() / 4,
            k <= n,
            words@.len() == k,
            forall|j: int| 0 <= j < k ==> words@[j] == word_at(code@, j),
        decreases n - k,
    {
        assert(4 * k + 3 < code@.len()) by (nonlinear_arith)
            requires
                k < n,
                n == code@.len() / 4,
        ;
        let b = 4 * k;
        let w: u32 = code[b] as u32 + 256 * (code[b + 1] as u32) + 65536 * (code[b + 2] as u32)
            + 16777216 * (code[b + 3] as u32);
        words.push(w);
        k += 1;
    }
    words
}

} // verus!
