//! The content store: the persistent record of known documents and the
//! chunks derived from them.
//!
//! The store is held here as plain verified data; loading it from and
//! mirroring it back to durable storage is left to the unverified shell.

use vstd::prelude::*;
use crate::textutil::str_eq;

verus! {

/// A known document: a unique source path and the fingerprint of the
/// content last ingested from it.
pub struct Document {
    pub id: i64,
    pub path: String,
    pub content_hash: String,
}

/// One stored retrievable unit: a bounded text segment of a document
/// together with the serialized embedding of that text.
pub struct Chunk {
    pub id: i64,
    pub document_id: i64,
    pub chunk_text: String,
    pub embedding: Vec<u8>,
}

/// The two logical tables, plus the id counters a fresh row draws from.
pub struct ContentStore {
    pub documents: Vec<Document>,
    pub chunks: Vec<Chunk>,
    pub next_document_id: i64,
    pub next_chunk_id: i64,
}

impl ContentStore {
    /// Consistency of the whole store: ids and paths are unique, the id
    /// counters are ahead of every row, every chunk belongs to a known
    /// document, and every stored embedding has the same byte length, a
    /// whole number of four-byte elements.
    pub open spec fn wf(self) -> bool {
        &&& (forall|i: int, j: int|
            0 <= i < j < self.documents@.len() ==> self.documents@[i].id != self.documents@[j].id)
        &&& (forall|i: int, j: int|
            0 <= i < j < self.documents@.len() ==> self.documents@[i].path@
                != self.documents@[j].path@)
        &&& (forall|i: int|
            0 <= i < self.documents@.len() ==> self.documents@[i].id < self.next_document_id)
        &&& (forall|i: int, j: int|
            0 <= i < j < self.chunks@.len() ==> self.chunks@[i].id != self.chunks@[j].id)
        &&& (forall|i: int| 0 <= i < self.chunks@.len() ==> self.chunks@[i].id < self.next_chunk_id)
        &&& (forall|i: int|
            0 <= i < self.chunks@.len() ==> self.owns_document(self.chunks@[i].document_id))
        &&& (forall|i: int, j: int|
            0 <= i < self.chunks@.len() && 0 <= j < self.chunks@.len()
                ==> self.chunks@[i].embedding@.len() == self.chunks@[j].embedding@.len())
        &&& (forall|i: int|
            0 <= i < self.chunks@.len() ==> self.chunks@[i].embedding@.len() % 4 == 0)
    }

    /// Some document row carries this id.
    pub open spec fn owns_document(self, doc_id: i64) -> bool {
        exists|j: int| 0 <= j < self.documents@.len() && self.documents@[j].id == doc_id
    }

    /// Some document row carries this source path.
    pub open spec fn has_path(self, path: Seq<char>) -> bool {
        exists|i: int| 0 <= i < self.documents@.len() && self.documents@[i].path@ == path
    }

    /// The chunks currently owned by one document, in store order.
    pub open spec fn chunks_of(self, doc_id: i64) -> Seq<Chunk> {
        spec_chunks_of(self.chunks@, doc_id)
    }

    /// An empty store; id counters start at one, as a fresh database would.
    pub fn new() -> (s: ContentStore)
        ensures
            s.wf(),
            s.documents@.len() == 0,
            s.chunks@.len() == 0,
            s.next_document_id == 1,
            s.next_chunk_id == 1,
    {
        ContentStore {
            documents: Vec::new(),
            chunks: Vec::new(),
            next_document_id: 1,
            next_chunk_id: 1,
        }
    }

    /// Looks a source path up among the known documents.
    pub fn find_document(&self, path: &str) -> (r: Option<usize>)
        ensures
            (r matches Some(i) ==> i < self.documents@.len() && self.documents@[i as int].path@
                == path@),
            r is None ==> !self.has_path(path@),
    {
        let n = self.documents.len();
        let mut i: usize = 0;
        while i < n
            invariant
                n == self.documents@.len(),
                i <= n,
                forall|j: int| 0 <= j < i ==> self.documents@[j].path@ != path@,
            decreases n - i,
        {
            if str_eq(self.documents[i].path.as_str(), path) {
                return Some(i);
            }
            i = i + 1;
        }
        None
    }

    /// Whether some document row carries this id.
    pub fn has_document_id(&self, doc_id: i64) -> (r: bool)
        ensures
            r == self.owns_document(doc_id),
    {
        let n = self.documents.len();
        let mut i: usize = 0;
        while i < n
            invariant
                n == self.documents@.len(),
                i <= n,
                forall|j: int| 0 <= j < i ==> self.documents@[j].id != doc_id,
            decreases n - i,
        {
            if self.documents[i].id == doc_id {
                return true;
            }
            i = i + 1;
        }
        false
    }

    /// How many chunks the store holds in all.
    pub fn chunk_count(&self) -> (r: usize)
        ensures
            r == self.chunks@.len(),
    {
        self.chunks.len()
    }

    /// Removes every chunk owned by one document and nothing else.
    pub fn remove_chunks_of(&mut self, doc_id: i64)
        ensures
            final(self).chunks@ == spec_drop_doc(old(self).chunks@, doc_id),
            final(self).documents == old(self).documents,
            final(self).next_document_id == old(self).next_document_id,
            final(self).next_chunk_id == old(self).next_chunk_id,
            old(self).wf() ==> final(self).wf(),
    {
        let ghost orig = old(self).chunks@;
        let ghost n = orig.len() as int;
        proof {
            assert(orig.take(0) =~= Seq::<Chunk>::empty());
            assert(orig.skip(0) =~= orig);
            assert(spec_drop_doc(orig.take(0), doc_id) + orig =~= orig);
        }
        let mut i: usize = 0;
        let ghost mut k: int = 0;
        while i < self.chunks.len()
            invariant
                self.documents == old(self).documents,
                self.next_document_id == old(self).next_document_id,
                self.next_chunk_id == old(self).next_chunk_id,
                0 <= k <= n,
                n == orig.len(),
                self.chunks@ == spec_drop_doc(orig.take(k), doc_id) + orig.skip(k),
                i == spec_drop_doc(orig.take(k), doc_id).len(),
            decreases n - k,
        {
            proof {
                lemma_drop_doc_push(orig.take(k), orig[k], doc_id);
                assert(orig.take(k + 1) =~= orig.take(k).push(orig[k]));
                assert(orig.skip(k)[0] == orig[k]);
                assert(self.chunks@[i as int] == orig[k]);
            }
            let keep = self.chunks[i].document_id != doc_id;
            if keep {
                i = i + 1;
            } else {
                self.chunks.remove(i);
            }
            proof {
                assert(orig.skip(k).drop_first() =~= orig.skip(k + 1));
                assert(self.chunks@ =~= spec_drop_doc(orig.take(k + 1), doc_id) + orig.skip(
                    k + 1,
                ));
                k = k + 1;
            }
        }
        proof {
            assert(orig.take(k) =~= orig);
            assert(orig.skip(k) =~= Seq::<Chunk>::empty());
            assert(final(self).chunks@ =~= spec_drop_doc(orig, doc_id));
            if old(self).wf() {
                lemma_drop_doc_subset(orig, doc_id);
                lemma_drop_doc_distinct(orig, doc_id);
                let newc = final(self).chunks@;
                assert forall|i: int|
                    0 <= i < newc.len() implies final(self).owns_document(newc[i].document_id)
                    && newc[i].id < final(self).next_chunk_id && newc[i].embedding@.len() % 4
                    == 0 by {
                    assert(orig.contains(newc[i]));
                    let j = choose|j: int| 0 <= j < orig.len() && orig[j] == newc[i];
                    assert(old(self).owns_document(orig[j].document_id));
                }
                assert forall|i: int, j: int|
                    0 <= i < newc.len() && 0 <= j < newc.len() implies newc[i].embedding@.len()
                    == newc[j].embedding@.len() by {
                    assert(orig.contains(newc[i]));
                    assert(orig.contains(newc[j]));
                    let a = choose|a: int| 0 <= a < orig.len() && orig[a] == newc[i];
                    let b = choose|b: int| 0 <= b < orig.len() && orig[b] == newc[j];
                    assert(orig[a].embedding@.len() == orig[b].embedding@.len());
                }
                assert(final(self).wf());
            }
        }
    }
}

/// The chunks of a sequence owned by the given document, in order.
pub open spec fn spec_chunks_of(s: Seq<Chunk>, doc_id: i64) -> Seq<Chunk>
    decreases s.len(),
{
    if s.len() == 0 {
        Seq::empty()
    } else if s.first().document_id == doc_id {
        seq![s.first()] + spec_chunks_of(s.drop_first(), doc_id)
    } else {
        spec_chunks_of(s.drop_first(), doc_id)
    }
}

/// The chunks of a sequence not owned by the given document, in order.
pub open spec fn spec_drop_doc(s: Seq<Chunk>, doc_id: i64) -> Seq<Chunk>
    decreases s.len(),
{
    if s.len() == 0 {
        Seq::empty()
    } else if s.first().document_id == doc_id {
        spec_drop_doc(s.drop_first(), doc_id)
    } else {
        seq![s.first()] + spec_drop_doc(s.drop_first(), doc_id)
    }
}

pub proof fn lemma_drop_doc_push(s: Seq<Chunk>, c: Chunk, doc_id: i64)
    ensures
        spec_drop_doc(s.push(c), doc_id) == if c.document_id == doc_id {
            spec_drop_doc(s, doc_id)
        } else {
            spec_drop_doc(s, doc_id).push(c)
        },
    decreases s.len(),
{
    if s.len() == 0 {
        assert(s.push(c).first() == c);
        assert(s.push(c).drop_first() =~= Seq::<Chunk>::empty());
        assert(spec_drop_doc(Seq::<Chunk>::empty(), doc_id) == Seq::<Chunk>::empty());
        assert(spec_chunks_of(Seq::<Chunk>::empty(), doc_id) == Seq::<Chunk>::empty());
        if c.document_id != doc_id {
            assert(spec_drop_doc(s.push(c), doc_id) =~= spec_drop_doc(s, doc_id).push(c));
        }
    } else {
        assert(s.push(c).drop_first() =~= s.drop_first().push(c));
        assert(s.push(c).first() == s.first());
        lemma_drop_doc_push(s.drop_first(), c, doc_id);
        if c.document_id != doc_id {
            if s.first().document_id != doc_id {
                assert(seq![s.first()] + spec_drop_doc(s.drop_first(), doc_id).push(c)
                    =~= (seq![s.first()] + spec_drop_doc(s.drop_first(), doc_id)).push(c));
            }
        }
    }
}


/// Dropping one document's chunks leaves every other document's chunk
/// sequence exactly as it was.
pub proof fn lemma_drop_doc_keeps_others(s: Seq<Chunk>, keep_id: i64, drop_id: i64)
    requires
        keep_id != drop_id,
    ensures
        spec_chunks_of(spec_drop_doc(s, drop_id), keep_id) == spec_chunks_of(s, keep_id),
    decreases s.len(),
{
    if s.len() > 0 {
        lemma_drop_doc_keeps_others(s.drop_first(), keep_id, drop_id);
        if s.first().document_id != drop_id {
            let rest = spec_drop_doc(s.drop_first(), drop_id);
            assert((seq![s.first()] + rest).first() == s.first());
            assert((seq![s.first()] + rest).drop_first() =~= rest);
        }
    }
}

/// A document no chunk names owns nothing.
pub proof fn lemma_chunks_of_absent(s: Seq<Chunk>, doc_id: i64)
    requires
        forall|c: int| 0 <= c < s.len() ==> (#[trigger] s[c]).document_id != doc_id,
    ensures
        spec_chunks_of(s, doc_id).len() == 0,
    decreases s.len(),
{
    if s.len() > 0 {
        assert(forall|c: int|
            0 <= c < s.drop_first().len() ==> (#[trigger] s.drop_first()[c]).document_id
                != doc_id);
        lemma_chunks_of_absent(s.drop_first(), doc_id);
    }
}

/// Every element of the kept sequence is an element of the original.
pub proof fn lemma_drop_doc_subset(s: Seq<Chunk>, doc_id: i64)
    ensures
        forall|k: int|
            0 <= k < spec_drop_doc(s, doc_id).len() ==> s.contains(
                #[trigger] spec_drop_doc(s, doc_id)[k],
            ),
    decreases s.len(),
{
    if s.len() > 0 {
        lemma_drop_doc_subset(s.drop_first(), doc_id);
        let f = spec_drop_doc(s, doc_id);
        let f0 = spec_drop_doc(s.drop_first(), doc_id);
        assert forall|k: int| 0 <= k < f.len() implies s.contains(f[k]) by {
            if s.first().document_id != doc_id && k == 0 {
                assert(s[0] == f[0]);
            } else {
                let k0: int = if s.first().document_id != doc_id {
                    k - 1
                } else {
                    k
                };
                assert(f[k] == f0[k0]);
                assert(s.drop_first().contains(f0[k0]));
                let j = choose|j: int|
                    0 <= j < s.drop_first().len() && s.drop_first()[j] == f0[k0];
                assert(s[j + 1] == f[k]);
            }
        }
    }
}

/// Dropping a document's chunks keeps the remaining ids pairwise distinct.
pub proof fn lemma_drop_doc_distinct(s: Seq<Chunk>, doc_id: i64)
    requires
        forall|i: int, j: int| 0 <= i < j < s.len() ==> s[i].id != s[j].id,
    ensures
        forall|i: int, j: int|
            0 <= i < j < spec_drop_doc(s, doc_id).len() ==> spec_drop_doc(s, doc_id)[i].id
                != spec_drop_doc(s, doc_id)[j].id,
    decreases s.len(),
{
    if s.len() > 0 {
        assert(forall|i: int, j: int|
            0 <= i < j < s.drop_first().len() ==> s.drop_first()[i].id != s.drop_first()[j].id);
        lemma_drop_doc_distinct(s.drop_first(), doc_id);
        lemma_drop_doc_subset(s.drop_first(), doc_id);
        let f = spec_drop_doc(s, doc_id);
        let f0 = spec_drop_doc(s.drop_first(), doc_id);
        assert forall|i: int, j: int| 0 <= i < j < f.len() implies f[i].id != f[j].id by {
            if s.first().document_id != doc_id {
                assert(f =~= seq![s.first()] + f0);
                if i == 0 {
                    assert(f[j] == f0[j - 1]);
                    assert(s.drop_first().contains(f0[j - 1]));
                    let m = choose|m: int|
                        0 <= m < s.drop_first().len() && s.drop_first()[m] == f0[j - 1];
                    assert(s[0].id != s[m + 1].id);
                } else {
                    assert(f[i] == f0[i - 1] && f[j] == f0[j - 1]);
                }
            } else {
                assert(f[i] == f0[i] && f[j] == f0[j]);
            }
        }
    }
}

} // verus!
