//! SHA-256 digests and hex rendering, used for stable directory names:
//! the worktree base keyed by repository path and the per-project store
//! names keyed by project path.

use vstd::prelude::*;
use vstd::utf8::encode_utf8;

verus! {

/// The 32-byte SHA-256 digest of a byte sequence.  The algorithm itself is
/// outside this crate; the name only fixes that equal inputs give equal
/// digests.
pub uninterp spec fn sha256_of(bytes: Seq<u8>) -> Seq<u8>;

/// Relies on sha2::Sha256::digest: a 32-byte digest that is a function of
/// the input bytes alone.
#[verifier::external_body]
pub fn sha256(data: &[u8]) -> (r: Vec<u8>)
    ensures
        r@ == sha256_of(data@),
        r@.len() == 32,
{
    let digest = <sha2::Sha256 as sha2::Digest>::digest(data);
    digest.to_vec()
}

/// The lowercase hex digit for one value below 16.
pub open spec fn hex_digit(d: u8) -> char {
    if d < 10 {
        ((48 + d) as u8) as char
    } else {
        ((87 + d) as u8) as char
    }
}

/// The lowercase hex rendering of a byte sequence: two digits per byte,
/// high nibble first.
pub open spec fn hex_of(bytes: Seq<u8>) -> Seq<char> {
    Seq::new(
        bytes.len() * 2,
        |i: int|
            if i % 2 == 0 {
                hex_digit(bytes[i / 2] / 16)
            } else {
                hex_digit(bytes[i / 2] % 16)
            },
    )
}

/// Relies on hex::encode: two lowercase digits for each byte, high nibble
/// first.
#[verifier::external_body]
pub fn hex_encode(data: &[u8]) -> (r: String)
    ensures
        r@ == hex_of(data@),
{
    hex::encode(data)
}

/// Hex rendering of a byte-prefix is a character-prefix of the rendering.
pub proof fn lemma_hex_of_prefix(bytes: Seq<u8>, k: int)
    requires
        0 <= k <= bytes.len(),
    ensures
        hex_of(bytes.take(k)) == hex_of(bytes).take(2 * k),
{
    assert(hex_of(bytes.take(k)) =~= hex_of(bytes).take(2 * k));
}

/// Copies the first `k` bytes of `data`.
pub fn take_bytes(data: &Vec<u8>, k: usize) -> (r: Vec<u8>)
    requires
        k <= data@.len(),
    ensures
        r@ == data@.take(k as int),
{
    let mut r: Vec<u8> = Vec::new();
    let mut i: usize = 0;
    while i < k
        invariant
            i <= k <= data@.len(),
            r@ == data@.take(i as int),
        decreases k - i,
    {
        r.push(data[i]);
        i += 1;
        proof {
            assert(r@ =~= data@.take(i as int));
        }
    }
    r
}

/// The stable hash for a project path: the first 12 lowercase hex digits
/// of the SHA-256 of the path's bytes.
pub fn generate_project_hash(project_path: &str) -> (r: String)
    ensures
        r@ == hex_of(sha256_of(encode_utf8(project_path@)).take(6)),
        r@.len() == 12,
{
    let digest = sha256(project_path.as_bytes());
    let prefix = take_bytes(&digest, 6);
    hex_encode(prefix.as_slice())
}

/// The stable directory key for a repository path: the first 16 lowercase
/// hex digits of the SHA-256 of the path's bytes.
pub fn repo_hash_prefix(repo_path: &str) -> (r: String)
    ensures
        r@ == hex_of(sha256_of(encode_utf8(repo_path@))).take(16),
        r@.len() == 16,
{
    let digest = sha256(repo_path.as_bytes());
    let prefix = take_bytes(&digest, 8);
    let r = hex_encode(prefix.as_slice());
    proof {
        lemma_hex_of_prefix(sha256_of(encode_utf8(repo_path@)), 8);
    }
    r
}

} // verus!
