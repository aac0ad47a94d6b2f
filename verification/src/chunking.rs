//! Deterministic splitting of a document's text into bounded-size,
//! trimmed, non-empty segments: the units of embedding and retrieval.
//!
//! The boundary heuristic itself is delegated to the `text-splitter`
//! crate; what matters here, and is stated, is that the split is a pure
//! function of the text and the size limit, that no segment exceeds the
//! limit, and that no segment is empty or ragged with whitespace.

use vstd::prelude::*;
use crate::ingestion::SourceDocument;
use crate::textutil::is_whitespace_char;

verus! {

/// The size limit for one chunk, in characters: a tuning parameter
/// trading retrieval granularity against embedding calls and storage.
pub const MAX_CHUNK_SIZE: usize = 1000;

/// The segments that splitting a text under a size limit yields. The
/// sequence depends on the text and the limit alone; its definition is
/// left to the `text-splitter` crate.
pub uninterp spec fn split_of(text: Seq<char>, max: int) -> Seq<Seq<char>>;

/// Relies on text_splitter::TextSplitter with its default character
/// sizer and trimming: chunks are yielded in text order, each at most
/// `max` characters, never empty (empty chunks are skipped), and trimmed
/// of leading and trailing whitespace; an empty text yields no chunks.
#[verifier::external_body]
fn split_text(text: &str, max: usize) -> (r: Vec<String>)
    requires
        1 <= max,
    ensures
        r.deep_view() == split_of(text@, max as int),
        forall|i: int| 0 <= i < r@.len() ==> 1 <= (#[trigger] r@[i])@.len() <= max,
        forall|i: int|
            0 <= i < r@.len() ==> !is_whitespace_char((#[trigger] r@[i])@.first()) && !is_whitespace_char(
                r@[i]@.last(),
            ),
        text@.len() == 0 ==> r@.len() == 0,
{
    let splitter = text_splitter::TextSplitter::new(max);
    splitter.chunks(text).map(|c| c.to_string()).collect()
}

/// One retrievable unit cut from a source document, before embedding.
pub struct TextChunk {
    pub document_id: i64,
    pub chunk_text: String,
}

/// The (owner id, text) pairs a chunk sequence carries.
pub open spec fn chunk_pairs(chunks: Seq<TextChunk>) -> Seq<(i64, Seq<char>)> {
    chunks.map_values(|c: TextChunk| (c.document_id, c.chunk_text@))
}

/// The chunk pairs that a batch of documents splits into, in order:
/// each document's segments, tagged with its id, concatenated.
pub open spec fn spec_chunk_documents(docs: Seq<SourceDocument>, max: int) -> Seq<(i64, Seq<char>)>
    decreases docs.len(),
{
    if docs.len() == 0 {
        Seq::empty()
    } else {
        split_of(docs.first().content@, max).map_values(
            |t: Seq<char>| (docs.first().id, t),
        ) + spec_chunk_documents(docs.drop_first(), max)
    }
}

/// Splits a batch of source documents into a flat, ordered sequence of
/// text chunks, each tagged with its owning document's id.
pub fn chunk_documents(documents: &Vec<SourceDocument>) -> (r: Vec<TextChunk>)
    ensures
        chunk_pairs(r@) == spec_chunk_documents(documents@, MAX_CHUNK_SIZE as int),
        forall|i: int|
            0 <= i < r@.len() ==> 1 <= (#[trigger] r@[i]).chunk_text@.len() <= MAX_CHUNK_SIZE,
        forall|i: int|
            0 <= i < r@.len() ==> !is_whitespace_char(
                (#[trigger] r@[i]).chunk_text@.first(),
            ) && !is_whitespace_char(r@[i].chunk_text@.last()),
        forall|i: int|
            0 <= i < r@.len() ==> exists|k: int|
                0 <= k < documents@.len() && documents@[k].id == (
                #[trigger] r@[i]).document_id,
{
    let ghost max = MAX_CHUNK_SIZE as int;
    let mut all_chunks: Vec<TextChunk> = Vec::new();
    let n = documents.len();
    proof {
        assert(documents@.skip(0) == documents@);
        assert(chunk_pairs(all_chunks@) =~= Seq::<(i64, Seq<char>)>::empty());
    }
    let mut k: usize = 0;
    while k < n
        invariant
            n == documents@.len(),
            k <= n,
            spec_chunk_documents(documents@, max) =~= chunk_pairs(all_chunks@)
                + spec_chunk_documents(documents@.skip(k as int), max),
            max == MAX_CHUNK_SIZE as int,
            forall|i: int|
                0 <= i < all_chunks@.len() ==> 1 <= (#[trigger] all_chunks@[i]).chunk_text@.len()
                    <= MAX_CHUNK_SIZE,
            forall|i: int|
                0 <= i < all_chunks@.len() ==> !is_whitespace_char(
                    (#[trigger] all_chunks@[i]).chunk_text@.first(),
                ) && !is_whitespace_char(all_chunks@[i].chunk_text@.last()),
            forall|i: int|
                0 <= i < all_chunks@.len() ==> exists|d: int|
                    0 <= d < documents@.len() && documents@[d].id == (
                    #[trigger] all_chunks@[i]).document_id,
        decreases n - k,
    {
        let doc_id = documents[k].id;
        let split = split_text(documents[k].content.as_str(), MAX_CHUNK_SIZE);
        let ghost rest = documents@.skip(k as int);
        let ghost segs = split_of(documents@[k as int].content@, max);
        proof {
            assert(rest.first() == documents@[k as int]);
            assert(rest.drop_first() =~= documents@.skip(k + 1));
            assert(split.deep_view() == segs);
            assert(forall|j: int|
                0 <= j < split@.len() ==> (#[trigger] split@[j])@ == split.deep_view()[j]);
        }
        let ghost before = all_chunks@;
        proof {
            assert(forall|i: int|
                0 <= i < before.len() ==> exists|d: int|
                    0 <= d < documents@.len() && documents@[d].id == (
                    #[trigger] before[i]).document_id);
            assert(forall|i: int|
                0 <= i < before.len() ==> 1 <= (#[trigger] before[i]).chunk_text@.len()
                    <= MAX_CHUNK_SIZE);
            assert(forall|i: int|
                0 <= i < before.len() ==> !is_whitespace_char(
                    (#[trigger] before[i]).chunk_text@.first(),
                ) && !is_whitespace_char(before[i].chunk_text@.last()));
        }
        let m = split.len();
        let mut j: usize = 0;
        while j < m
            invariant
                m == split@.len(),
                j <= m,
                doc_id == documents@[k as int].id,
                0 <= k < documents@.len(),
                segs == split_of(documents@[k as int].content@, max),
                split.deep_view() == segs,
                forall|i: int|
                    0 <= i < split@.len() ==> 1 <= (#[trigger] split@[i])@.len()
                        <= MAX_CHUNK_SIZE,
                forall|i: int|
                    0 <= i < split@.len() ==> !is_whitespace_char(
                        (#[trigger] split@[i])@.first(),
                    ) && !is_whitespace_char(split@[i]@.last()),
                all_chunks@.len() == before.len() + j,
                forall|i: int| 0 <= i < before.len() ==> all_chunks@[i] == before[i],
                forall|i: int|
                    before.len() <= i < all_chunks@.len()
                        ==> (#[trigger] all_chunks@[i]).document_id == doc_id
                        && all_chunks@[i].chunk_text@ == segs[i - before.len()],
            decreases m - j,
        {
            let text = split[j].clone();
            all_chunks.push(TextChunk { document_id: doc_id, chunk_text: text });
            j = j + 1;
        }
        proof {
            assert(forall|jj: int|
                0 <= jj < split@.len() ==> (#[trigger] split@[jj])@ == segs[jj]);
            assert forall|i: int|
                0 <= i < all_chunks@.len() implies 1 <= (
                #[trigger] all_chunks@[i]).chunk_text@.len() <= MAX_CHUNK_SIZE && !is_whitespace_char(
                all_chunks@[i].chunk_text@.first(),
            ) && !is_whitespace_char(all_chunks@[i].chunk_text@.last()) by {
                if i >= before.len() {
                    let jx = i - before.len();
                    assert(split@[jx]@ == segs[jx]);
                    assert(all_chunks@[i].chunk_text@ == segs[jx]);
                } else {
                    assert(all_chunks@[i] == before[i]);
                }
            }
            assert(chunk_pairs(all_chunks@) =~= chunk_pairs(before) + segs.map_values(
                (|t: Seq<char>| (documents@[k as int].id, t)),
            ));
            assert(spec_chunk_documents(rest, max) == segs.map_values(
                (|t: Seq<char>| (documents@[k as int].id, t)),
            ) + spec_chunk_documents(documents@.skip(k + 1), max));
            assert(spec_chunk_documents(documents@, max) =~= chunk_pairs(all_chunks@)
                + spec_chunk_documents(documents@.skip(k + 1), max));
            assert forall|i: int|
                0 <= i < all_chunks@.len() implies exists|d: int|
                0 <= d < documents@.len() && documents@[d].id == (
                #[trigger] all_chunks@[i]).document_id by {
                if i < before.len() {
                    assert(all_chunks@[i] == before[i]);
                    assert(exists|d: int|
                        0 <= d < documents@.len() && documents@[d].id
                            == before[i].document_id);
                } else {
                    assert(documents@[k as int].id == all_chunks@[i].document_id);
                }
            }
        }
        k = k + 1;
    }
    proof {
        assert(documents@.skip(n as int) =~= Seq::<SourceDocument>::empty());
        assert(chunk_pairs(all_chunks@) + spec_chunk_documents(documents@.skip(n as int), max)
            =~= chunk_pairs(all_chunks@));
    }
    all_chunks
}

/// Chunking is deterministic: any two chunk sequences carrying the pairs
/// of the same document batch are the same sequence, chunk for chunk.
pub proof fn lemma_chunking_deterministic(
    a: Seq<TextChunk>,
    b: Seq<TextChunk>,
    docs: Seq<SourceDocument>,
)
    requires
        chunk_pairs(a) == spec_chunk_documents(docs, MAX_CHUNK_SIZE as int),
        chunk_pairs(b) == spec_chunk_documents(docs, MAX_CHUNK_SIZE as int),
    ensures
        a.len() == b.len(),
        forall|i: int|
            0 <= i < a.len() ==> (#[trigger] a[i]).document_id == b[i].document_id
                && a[i].chunk_text@ == b[i].chunk_text@,
{
    assert(chunk_pairs(a).len() == a.len());
    assert(chunk_pairs(b).len() == b.len());
    assert forall|i: int|
        0 <= i < a.len() implies (#[trigger] a[i]).document_id == b[i].document_id
        && a[i].chunk_text@ == b[i].chunk_text@ by {
        assert(chunk_pairs(a)[i] == chunk_pairs(b)[i]);
        assert(chunk_pairs(a)[i] == (a[i].document_id, a[i].chunk_text@));
        assert(chunk_pairs(b)[i] == (b[i].document_id, b[i].chunk_text@));
    }
}

} // verus!
