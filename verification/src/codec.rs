//! The byte representation of embeddings in the content store.
//!
//! An embedding is a fixed-dimension vector of 32-bit elements (the bit
//! patterns of IEEE-754 single-precision values, which the store never
//! interprets numerically). Each element is laid out as four bytes,
//! little-endian, so a stored embedding is always a whole number of
//! four-byte groups.

use vstd::prelude::*;
use vstd::bytes::{spec_u32_to_le_bytes, spec_u32_from_le_bytes, u32_to_le_bytes, u32_from_le_bytes,
    lemma_auto_spec_u32_to_from_le_bytes};
use vstd::slice::slice_subrange;
use vstd::string::StringExecFns;
use crate::error::Error;

verus! {

/// The serialized form of an embedding: four little-endian bytes per element.
pub open spec fn spec_embedding_bytes(units: Seq<u32>) -> Seq<u8>
    decreases units.len(),
{
    if units.len() == 0 {
        Seq::empty()
    } else {
        spec_u32_to_le_bytes(units.first()) + spec_embedding_bytes(units.drop_first())
    }
}

/// The elements read back from a serialized embedding, four bytes at a time.
pub open spec fn spec_embedding_units(bytes: Seq<u8>) -> Seq<u32>
    decreases bytes.len(),
{
    if bytes.len() < 4 {
        Seq::empty()
    } else {
        seq![spec_u32_from_le_bytes(bytes.take(4))] + spec_embedding_units(bytes.skip(4))
    }
}

pub proof fn lemma_embedding_bytes_len(units: Seq<u32>)
    ensures
        spec_embedding_bytes(units).len() == 4 * units.len(),
    decreases units.len(),
{
    lemma_auto_spec_u32_to_from_le_bytes();
    if units.len() > 0 {
        lemma_embedding_bytes_len(units.drop_first());
    }
}

/// Serialization loses nothing: reading the bytes back yields the elements.
pub proof fn lemma_embedding_round_trip(units: Seq<u32>)
    ensures
        spec_embedding_units(spec_embedding_bytes(units)) == units,
    decreases units.len(),
{
    lemma_auto_spec_u32_to_from_le_bytes();
    if units.len() == 0 {
        assert(spec_embedding_units(spec_embedding_bytes(units)) =~= units);
    } else {
        let bytes = spec_embedding_bytes(units);
        lemma_embedding_bytes_len(units.drop_first());
        assert(bytes.take(4) =~= spec_u32_to_le_bytes(units.first()));
        assert(bytes.skip(4) =~= spec_embedding_bytes(units.drop_first()));
        lemma_embedding_round_trip(units.drop_first());
        assert(spec_embedding_units(bytes) =~= units);
    }
}

/// And conversely: any byte string that is a whole number of four-byte
/// groups is exactly the serialization of the elements read from it.
pub proof fn lemma_units_round_trip(bytes: Seq<u8>)
    requires
        bytes.len() % 4 == 0,
    ensures
        spec_embedding_bytes(spec_embedding_units(bytes)) == bytes,
        spec_embedding_units(bytes).len() * 4 == bytes.len(),
    decreases bytes.len(),
{
    lemma_auto_spec_u32_to_from_le_bytes();
    if bytes.len() == 0 {
        assert(spec_embedding_bytes(spec_embedding_units(bytes)) =~= bytes);
    } else {
        assert(bytes.len() >= 4);
        let units = spec_embedding_units(bytes);
        assert(units.first() == spec_u32_from_le_bytes(bytes.take(4)));
        assert(units.drop_first() =~= spec_embedding_units(bytes.skip(4)));
        lemma_units_round_trip(bytes.skip(4));
        assert(spec_u32_to_le_bytes(spec_u32_from_le_bytes(bytes.take(4))) == bytes.take(4));
        assert(spec_embedding_bytes(units) =~= bytes.take(4) + bytes.skip(4));
        assert(bytes.take(4) + bytes.skip(4) =~= bytes);
    }
}

/// Serializes an embedding into its stored byte form.
pub fn serialize_embedding(units: &Vec<u32>) -> (r: Vec<u8>)
    ensures
        r@ == spec_embedding_bytes(units@),
        r@.len() == 4 * units@.len(),
{
    let mut r: Vec<u8> = Vec::new();
    let n = units.len();
    assert(units@.skip(0) == units@);
    let mut i: usize = 0;
    while i < n
        invariant
            n == units@.len(),
            i <= n,
            spec_embedding_bytes(units@) =~= r@ + spec_embedding_bytes(units@.skip(i as int)),
            r@.len() == 4 * i,
        decreases n - i,
    {
        let mut group = u32_to_le_bytes(units[i]);
        proof {
            lemma_auto_spec_u32_to_from_le_bytes();
            assert(units@.skip(i as int).first() == units@[i as int]);
            assert(units@.skip(i as int).drop_first() =~= units@.skip(i + 1));
        }
        r.append(&mut group);
        i = i + 1;
    }
    proof {
        assert(units@.skip(n as int) =~= Seq::<u32>::empty());
        lemma_embedding_bytes_len(units@);
    }
    r
}

/// Reads an embedding back from its stored byte form.
///
/// A byte string whose length is not a whole number of four-byte groups
/// cannot have been written by [`serialize_embedding`]; it indicates a
/// corrupted store and is rejected, never partially decoded.
pub fn deserialize_embedding(bytes: &[u8]) -> (r: Result<Vec<u32>, Error>)
    ensures
        bytes@.len() % 4 == 0 <==> r is Ok,
        (r matches Ok(units) ==> {
            &&& units@ == spec_embedding_units(bytes@)
            &&& spec_embedding_bytes(units@) == bytes@
            &&& 4 * units@.len() == bytes@.len()
        }),
        (r matches Err(e) ==> (e matches Error::Corruption(m)
            && m@ == "Invalid embedding data in database: not a multiple of 4 bytes."@)),
{
    let n = bytes.len();
    if n % 4 != 0 {
        return Err(Error::Corruption(String::from_str(
            "Invalid embedding data in database: not a multiple of 4 bytes.",
        )));
    }
    let mut units: Vec<u32> = Vec::new();
    assert(bytes@.skip(0) == bytes@);
    let mut i: usize = 0;
    while i < n
        invariant
            n == bytes@.len(),
            n % 4 == 0,
            i <= n,
            i % 4 == 0,
            spec_embedding_units(bytes@) =~= units@ + spec_embedding_units(bytes@.skip(i as int)),
            units@.len() * 4 == i,
        decreases n - i,
    {
        assert(n - i >= 4) by {
            assert(i % 4 == 0 && n % 4 == 0 && i < n);
        }
        let group = slice_subrange(bytes, i, i + 4);
        let x = u32_from_le_bytes(group);
        proof {
            let rest = bytes@.skip(i as int);
            assert(rest.take(4) =~= group@);
            assert(rest.skip(4) =~= bytes@.skip(i + 4));
        }
        units.push(x);
        i = i + 4;
    }
    proof {
        assert(bytes@.skip(n as int) =~= Seq::<u8>::empty());
        assert(units@ =~= spec_embedding_units(bytes@));
        lemma_units_round_trip(bytes@);
    }
    Ok(units)
}

} // verus!
