//! Content fingerprints: a cryptographic hash of a document's extracted
//! text, rendered as lowercase hex, used to detect content changes.

use vstd::prelude::*;
use vstd::utf8::encode_utf8;
use vstd::string::StringSliceAdditionalSpecFns;
use vstd::string::StringExecFns;
use sha2::Digest;

verus! {

/// The SHA-256 digest of a byte sequence. The digest is a function of the
/// input bytes alone; its definition is left to the `sha2` crate.
pub uninterp spec fn sha256_of(data: Seq<u8>) -> Seq<u8>;

/// Relies on sha2::Sha256: the digest depends on the input bytes alone,
/// is stable across runs, and is always 32 bytes long.
#[verifier::external_body]
fn sha256_digest(data: &[u8]) -> (r: Vec<u8>)
    ensures
        r@ == sha256_of(data@),
        r@.len() == 32,
{
    sha2::Sha256::digest(data).to_vec()
}

/// The sixteen lowercase hex digits, by value.
pub open spec fn spec_hex_digit(n: int) -> char {
    seq!['0', '1', '2', '3', '4', '5', '6', '7', '8', '9', 'a', 'b', 'c', 'd', 'e', 'f'][n]
}

/// Lowercase hex rendering of a byte sequence, two digits per byte,
/// high nibble first.
pub open spec fn spec_hex_of(bytes: Seq<u8>) -> Seq<char>
    decreases bytes.len(),
{
    if bytes.len() == 0 {
        Seq::empty()
    } else {
        seq![
            spec_hex_digit((bytes.first() >> 4) as int),
            spec_hex_digit((bytes.first() & 0x0f) as int),
        ] + spec_hex_of(bytes.drop_first())
    }
}

/// The fingerprint of a text: lowercase hex of the SHA-256 digest of its
/// UTF-8 bytes.
pub open spec fn spec_fingerprint(text: Seq<char>) -> Seq<char> {
    spec_hex_of(sha256_of(encode_utf8(text)))
}

proof fn lemma_hex_len(bytes: Seq<u8>)
    ensures
        spec_hex_of(bytes).len() == 2 * bytes.len(),
    decreases bytes.len(),
{
    if bytes.len() > 0 {
        lemma_hex_len(bytes.drop_first());
    }
}

/// One lowercase hex digit as a string slice.
fn hex_digit(nibble: u8) -> (r: &'static str)
    requires
        nibble < 16,
    ensures
        r@ =~= seq![spec_hex_digit(nibble as int)],
{
    proof {
        reveal_strlit("0");
        reveal_strlit("1");
        reveal_strlit("2");
        reveal_strlit("3");
        reveal_strlit("4");
        reveal_strlit("5");
        reveal_strlit("6");
        reveal_strlit("7");
        reveal_strlit("8");
        reveal_strlit("9");
        reveal_strlit("a");
        reveal_strlit("b");
        reveal_strlit("c");
        reveal_strlit("d");
        reveal_strlit("e");
        reveal_strlit("f");
    }
    match nibble {
        0 => "0",
        1 => "1",
        2 => "2",
        3 => "3",
        4 => "4",
        5 => "5",
        6 => "6",
        7 => "7",
        8 => "8",
        9 => "9",
        10 => "a",
        11 => "b",
        12 => "c",
        13 => "d",
        14 => "e",
        _ => "f",
    }
}

/// Lowercase hex rendering of a byte slice.
pub fn to_hex(data: &[u8]) -> (r: String)
    ensures
        r@ == spec_hex_of(data@),
        r@.len() == 2 * data@.len(),
{
    let mut r = String::new();
    let n = data.len();
    assert(data@.skip(0) == data@);
    let mut i: usize = 0;
    while i < n
        invariant
            n == data@.len(),
            i <= n,
            spec_hex_of(data@) =~= r@ + spec_hex_of(data@.skip(i as int)),
            r@.len() == 2 * i,
        decreases n - i,
    {
        let b = data[i];
        assert(b >> 4 < 16 && b & 0x0f < 16) by (bit_vector);
        r.append(hex_digit(b >> 4));
        r.append(hex_digit(b & 0x0f));
        proof {
            assert(data@.skip(i as int).first() == data@[i as int]);
            assert(data@.skip(i as int).drop_first() =~= data@.skip(i + 1));
        }
        i = i + 1;
    }
    proof {
        assert(data@.skip(n as int) =~= Seq::<u8>::empty());
        lemma_hex_len(data@);
    }
    r
}

/// The content fingerprint used for change detection: lowercase hex of the
/// SHA-256 digest of the text, 64 characters long.
pub fn calculate_hash(content: &str) -> (r: String)
    ensures
        r@ == spec_fingerprint(content@),
        r@.len() == 64,
{
    let digest = sha256_digest(content.as_bytes());
    to_hex(digest.as_slice())
}

} // verus!
