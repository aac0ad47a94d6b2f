//! Persisting embedded chunks: the whole batch of one ingestion run is
//! written atomically, or not at all.
//!
//! The unverified shell requests one embedding per chunk from the
//! provider, passing each response through unchanged: `None` where the
//! request failed, otherwise the vector's raw 32-bit elements. Whether
//! the batch commits is decided here, and a rejected batch leaves the
//! store exactly as it was, so that no document is ever visible with a
//! partial chunk set.

use vstd::prelude::*;
use vstd::string::StringExecFns;
use vstd::pervasive::unreached;
use crate::store::{ContentStore, Chunk};
use crate::chunking::TextChunk;
use crate::codec::{serialize_embedding, spec_embedding_bytes};
use crate::error::Error;

verus! {

/// When an indexing batch is acceptable: one embedding per chunk, every
/// request answered, no empty vector (an answer without a usable vector
/// is a provider-protocol error), one dimension across the batch and
/// across the store, and every chunk owned by a known document.
pub open spec fn batch_ok(
    store: ContentStore,
    chunks: Seq<TextChunk>,
    embeddings: Seq<Option<Vec<u32>>>,
) -> bool {
    &&& embeddings.len() == chunks.len()
    &&& (forall|i: int| 0 <= i < embeddings.len() ==> (#[trigger] embeddings[i]) is Some)
    &&& (forall|i: int|
        0 <= i < embeddings.len() ==> ((#[trigger] embeddings[i])->Some_0)@.len() >= 1)
    &&& (forall|i: int, j: int|
        0 <= i < embeddings.len() && 0 <= j < embeddings.len()
            ==> ((#[trigger] embeddings[i])->Some_0)@.len() == ((
            #[trigger] embeddings[j])->Some_0)@.len())
    &&& (store.chunks@.len() > 0 ==> (forall|i: int|
        0 <= i < embeddings.len() ==> 4 * ((#[trigger] embeddings[i])->Some_0)@.len()
            == store.chunks@[0].embedding@.len()))
    &&& (forall|i: int|
        0 <= i < chunks.len() ==> store.owns_document((#[trigger] chunks[i]).document_id))
}

/// Commits one ingestion run's chunks and their embeddings to the store,
/// all of them or none.
///
/// On success the batch is appended in order, serialized four bytes per
/// element; on any failure, a missing or empty or mis-sized vector or an
/// unknown owning document, the store is returned exactly unchanged and
/// the failure surfaces to the caller.
pub fn index_chunks(
    store: &mut ContentStore,
    chunks: &Vec<TextChunk>,
    embeddings: &Vec<Option<Vec<u32>>>,
) -> (r: Result<(), Error>)
    requires
        old(store).wf(),
        old(store).next_chunk_id + chunks@.len() <= i64::MAX,
    ensures
        final(store).wf(),
        r is Ok <==> batch_ok(*old(store), chunks@, embeddings@),
        r is Err ==> *final(store) == *old(store),
        r matches Err(e) ==> (e is Provider || e is Processing),
        r matches Err(e) && e is Processing ==> exists|i: int|
            0 <= i < chunks@.len() && !old(store).owns_document(
                (#[trigger] chunks@[i]).document_id,
            ),
        r is Ok ==> {
            &&& final(store).documents == old(store).documents
            &&& final(store).next_document_id == old(store).next_document_id
            &&& final(store).chunks@.len() == old(store).chunks@.len() + chunks@.len()
            &&& (forall|j: int|
                0 <= j < old(store).chunks@.len() ==> final(store).chunks@[j] == old(
                    store,
                ).chunks@[j])
            &&& (forall|j: int|
                0 <= j < chunks@.len() ==> {
                    let c = (#[trigger] final(store).chunks@[old(store).chunks@.len() + j]);
                    &&& c.id == old(store).next_chunk_id + j
                    &&& c.document_id == chunks@[j].document_id
                    &&& c.chunk_text@ == chunks@[j].chunk_text@
                    &&& c.embedding@ == spec_embedding_bytes((embeddings@[j]->Some_0)@)
                })
            &&& final(store).next_chunk_id == old(store).next_chunk_id + chunks@.len()
        },
{
    let n = chunks.len();
    if embeddings.len() != n {
        return Err(Error::Provider(String::from_str(
            "Embedding batch does not match the chunk batch.",
        )));
    }
    // Validate the whole batch before touching the store: this is what
    // makes a failed batch invisible.
    let mut dim: usize = 0;
    let mut i: usize = 0;
    while i < n
        invariant
            old(store).wf(),
            n == chunks@.len() == embeddings@.len(),
            i <= n,
            forall|j: int| 0 <= j < i ==> (#[trigger] embeddings@[j]) is Some,
            forall|j: int|
                0 <= j < i ==> ((#[trigger] embeddings@[j])->Some_0)@.len() >= 1,
            i > 0 ==> dim == (embeddings@[0]->Some_0)@.len(),
            forall|j: int| 0 <= j < i ==> ((#[trigger] embeddings@[j])->Some_0)@.len() == dim,
            store.chunks@.len() > 0 ==> (forall|j: int|
                0 <= j < i ==> 4 * ((#[trigger] embeddings@[j])->Some_0)@.len()
                    == store.chunks@[0].embedding@.len()),
            forall|j: int|
                0 <= j < i ==> store.owns_document((#[trigger] chunks@[j]).document_id),
            *store == *old(store),
        decreases n - i,
    {
        match &embeddings[i] {
            None => {
                return Err(Error::Provider(String::from_str(
                    "Embedding request failed; aborting the batch.",
                )));
            },
            Some(units) => {
                if units.len() == 0 {
                    return Err(Error::Provider(String::from_str(
                        "API response did not contain any embedding data.",
                    )));
                }
                if i == 0 {
                    dim = units.len();
                } else if units.len() != dim {
                    return Err(Error::Provider(String::from_str(
                        "Embedding dimension changed within the batch.",
                    )));
                }
                if store.chunk_count() > 0 {
                    let stored_dim = store.chunks[0].embedding.len();
                    if units.len() > usize::MAX / 4 || 4 * units.len() != stored_dim {
                        return Err(Error::Provider(String::from_str(
                            "Embedding dimension does not match the store.",
                        )));
                    }
                }
                if !store.has_document_id(chunks[i].document_id) {
                    return Err(Error::Processing(String::from_str(
                        "Chunk does not belong to any known document.",
                    )));
                }
            },
        }
        i = i + 1;
    }
    proof {
        assert(batch_ok(*old(store), chunks@, embeddings@));
    }
    // The batch is good; append it.
    let ghost olds = *old(store);
    let ghost base = olds.chunks@.len() as int;
    let ghost dim_bytes: int = if olds.chunks@.len() > 0 {
        olds.chunks@[0].embedding@.len() as int
    } else if chunks@.len() > 0 {
        4 * ((embeddings@[0]->Some_0)@.len() as int)
    } else {
        0int
    };
    let mut j: usize = 0;
    while j < n
        invariant
            n == chunks@.len() == embeddings@.len(),
            j <= n,
            batch_ok(olds, chunks@, embeddings@),
            olds.wf(),
            olds.next_chunk_id + n <= i64::MAX,
            base == olds.chunks@.len(),
            dim_bytes == (if base > 0 {
                olds.chunks@[0].embedding@.len() as int
            } else if chunks@.len() > 0 {
                4 * ((embeddings@[0]->Some_0)@.len() as int)
            } else {
                0int
            }),
            store.documents == olds.documents,
            store.next_document_id == olds.next_document_id,
            store.next_chunk_id == olds.next_chunk_id + j,
            store.chunks@.len() == base + j,
            forall|m: int| 0 <= m < base ==> store.chunks@[m] == olds.chunks@[m],
            forall|m: int|
                0 <= m < j ==> {
                    let c = (#[trigger] store.chunks@[base + m]);
                    &&& c.id == olds.next_chunk_id + m
                    &&& c.document_id == chunks@[m].document_id
                    &&& c.chunk_text@ == chunks@[m].chunk_text@
                    &&& c.embedding@ == spec_embedding_bytes((embeddings@[m]->Some_0)@)
                },
            forall|m: int|
                0 <= m < store.chunks@.len() ==> (#[trigger] store.chunks@[m]).embedding@.len()
                    % 4 == 0,
            chunks@.len() > 0 ==> (forall|m: int|
                0 <= m < store.chunks@.len() ==> (#[trigger] store.chunks@[m]).embedding@.len()
                    == dim_bytes),
        decreases n - j,
    {
        let units = match &embeddings[j] {
            Some(u) => u,
            None => {
                proof {
                    assert(embeddings@[j as int] is Some);
                }
                unreached()
            },
        };
        let bytes = serialize_embedding(units);
        let id = store.next_chunk_id;
        store.chunks.push(
            Chunk {
                id,
                document_id: chunks[j].document_id,
                chunk_text: chunks[j].chunk_text.clone(),
                embedding: bytes,
            },
        );
        store.next_chunk_id = id + 1;
        proof {
            assert((embeddings@[j as int]->Some_0)@.len() == (embeddings@[0]->Some_0)@.len());
            if base > 0 {
                assert(4 * ((embeddings@[j as int]->Some_0)@.len() as int)
                    == olds.chunks@[0].embedding@.len());
            }
            assert(store.chunks@.last().embedding@.len() == dim_bytes);
            assert forall|m: int|
                0 <= m < store.chunks@.len() implies (
                #[trigger] store.chunks@[m]).embedding@.len() == dim_bytes by {
                if m + 1 < store.chunks@.len() {
                } else {
                    assert(store.chunks@[m] == store.chunks@.last());
                }
            }
        }
        j = j + 1;
    }
    proof {
        assert forall|a: int, b: int|
            0 <= a < b < store.chunks@.len() implies store.chunks@[a].id
            != store.chunks@[b].id by {
            if b < base {
                assert(olds.chunks@[a].id != olds.chunks@[b].id);
            } else if a < base {
                let mb = b - base;
                assert(store.chunks@[base + mb].id == olds.next_chunk_id + mb);
                assert(store.chunks@[a] == olds.chunks@[a]);
                assert(olds.chunks@[a].id < olds.next_chunk_id);
            } else {
                let ma = a - base;
                let mb = b - base;
                assert(store.chunks@[base + ma].id == olds.next_chunk_id + ma);
                assert(store.chunks@[base + mb].id == olds.next_chunk_id + mb);
            }
        }
        assert forall|m: int|
            0 <= m < store.chunks@.len() implies store.owns_document(
            (#[trigger] store.chunks@[m]).document_id,
        ) by {
            if m < base {
                assert(olds.owns_document(olds.chunks@[m].document_id));
                let w = choose|w: int|
                    0 <= w < olds.documents@.len() && olds.documents@[w].id
                        == olds.chunks@[m].document_id;
                assert(store.documents@[w].id == store.chunks@[m].document_id);
            } else {
                let mm = m - base;
                assert(store.chunks@[base + mm].document_id == chunks@[mm].document_id);
                assert(olds.owns_document(chunks@[mm].document_id));
                let w = choose|w: int|
                    0 <= w < olds.documents@.len() && olds.documents@[w].id
                        == chunks@[mm].document_id;
                assert(store.documents@[w].id == store.chunks@[m].document_id);
            }
        }
        assert forall|a: int, b: int|
            0 <= a < store.chunks@.len() && 0 <= b < store.chunks@.len() implies store.chunks@[
            a
        ].embedding@.len() == store.chunks@[b].embedding@.len() by {
            if chunks@.len() == 0 {
                assert(store.chunks@ =~= olds.chunks@);
                assert(olds.chunks@[a].embedding@.len() == olds.chunks@[b].embedding@.len());
            }
        }
        assert forall|m: int|
            0 <= m < store.chunks@.len() implies (#[trigger] store.chunks@[m]).id
            < store.next_chunk_id by {
            if m < base {
                assert(store.chunks@[m] == olds.chunks@[m]);
                assert(olds.chunks@[m].id < olds.next_chunk_id);
            } else {
                let mm = m - base;
                assert(store.chunks@[base + mm].id == olds.next_chunk_id + mm);
            }
        }
        assert(store.wf());
    }
    Ok(())
}

} // verus!
