//! Incremental, idempotent document discovery: each source text is
//! fingerprinted and classified as new, unchanged, or modified relative
//! to the content store, and the store is updated accordingly.
//!
//! The unverified shell walks the source directory and extracts plain
//! text from each file; everything from there on is decided here.

use vstd::prelude::*;
use vstd::pervasive::VecAdditionalExecFns;
use vstd::string::StringExecFns;
use crate::store::{ContentStore, Document, Chunk, spec_drop_doc, spec_chunks_of, lemma_drop_doc_keeps_others};
use crate::hashing::{calculate_hash, spec_fingerprint};
use crate::textutil::str_eq;

verus! {

/// A document that needs (re)chunking and (re)indexing, paired with its
/// extracted text.
pub struct SourceDocument {
    pub id: i64,
    pub path: String,
    pub content: String,
}

/// What ingesting one file does to the store, case by case: a new path
/// appends a document row; an unchanged fingerprint is a no-op; a changed
/// fingerprint rewrites that row's hash and drops the row's whole chunk
/// set. Nothing else is touched.
pub open spec fn ingest_effect(
    pre: ContentStore,
    post: ContentStore,
    path: Seq<char>,
    content: Seq<char>,
    r: Option<SourceDocument>,
) -> bool {
    &&& post.next_chunk_id == pre.next_chunk_id
    &&& post.next_document_id <= pre.next_document_id + 1
    &&& (r matches Some(d) ==> d.path@ == path && d.content@ == content)
    &&& (!pre.has_path(path) ==> {
        &&& post.documents@.len() == pre.documents@.len() + 1
        &&& (forall|j: int|
            0 <= j < pre.documents@.len() ==> post.documents@[j] == pre.documents@[j])
        &&& post.documents@.last().id == pre.next_document_id
        &&& post.documents@.last().path@ == path
        &&& post.documents@.last().content_hash@ == spec_fingerprint(content)
        &&& post.chunks@ == pre.chunks@
        &&& post.next_document_id == pre.next_document_id + 1
        &&& (r matches Some(d) && d.id == pre.next_document_id)
    })
    &&& (forall|i: int|
        (0 <= i < pre.documents@.len() && (#[trigger] pre.documents@[i]).path@ == path)
            ==> if pre.documents@[i].content_hash@ == spec_fingerprint(content) {
            &&& post == pre
            &&& r is None
        } else {
            &&& post.documents@.len() == pre.documents@.len()
            &&& (forall|j: int|
                0 <= j < pre.documents@.len() && j != i ==> post.documents@[j]
                    == pre.documents@[j])
            &&& post.documents@[i].id == pre.documents@[i].id
            &&& post.documents@[i].path == pre.documents@[i].path
            &&& post.documents@[i].content_hash@ == spec_fingerprint(content)
            &&& post.chunks@ == spec_drop_doc(pre.chunks@, pre.documents@[i].id)
            &&& post.next_document_id == pre.next_document_id
            &&& (r matches Some(d) && d.id == pre.documents@[i].id)
        })
}

/// Ingests one extracted text: creates the document row if the path is
/// new, leaves the store untouched if the fingerprint is unchanged, and
/// otherwise updates the fingerprint and drops the document's entire
/// chunk set. Returns the document for reprocessing, or `None` when
/// nothing changed.
///
/// All writes are immediate: a run that stops after this step leaves a
/// document with zero chunks, which the query path treats as "no matches
/// from this document".
pub fn ingest_document(store: &mut ContentStore, path: &str, content: &str) -> (r: Option<
    SourceDocument,
>)
    requires
        old(store).wf(),
        old(store).next_document_id < i64::MAX,
    ensures
        final(store).wf(),
        ingest_effect(*old(store), *final(store), path@, content@, r),
{
    let hash = calculate_hash(content);
    match store.find_document(path) {
        None => {
            let id = store.next_document_id;
            store.documents.push(
                Document { id, path: path.to_owned(), content_hash: hash },
            );
            store.next_document_id = id + 1;
            proof {
                assert(store.chunks@ == old(store).chunks@);
                assert forall|i: int, j: int|
                    0 <= i < j < store.documents@.len() implies store.documents@[i].path@
                    != store.documents@[j].path@ by {
                    if j == store.documents@.len() - 1 {
                        assert(!old(store).has_path(path@));
                        assert(store.documents@[i] == old(store).documents@[i]);
                    }
                }
                assert forall|i: int|
                    0 <= i < store.chunks@.len() implies store.owns_document(
                    store.chunks@[i].document_id,
                ) by {
                    assert(old(store).owns_document(old(store).chunks@[i].document_id));
                    let j = choose|j: int|
                        0 <= j < old(store).documents@.len() && old(store).documents@[j].id
                            == old(store).chunks@[i].document_id;
                    assert(store.documents@[j].id == store.chunks@[i].document_id);
                }
                assert(store.wf());
            }
            Some(SourceDocument { id, path: path.to_owned(), content: content.to_owned() })
        },
        Some(i) => {
            proof {
                assert(old(store).has_path(path@));
            }
            if str_eq(store.documents[i].content_hash.as_str(), hash.as_str()) {
                return None;
            }
            let id = store.documents[i].id;
            let kept_path = store.documents[i].path.clone();
            store.documents.set(
                i,
                Document { id, path: kept_path, content_hash: hash },
            );
            proof {
                assert(store.chunks@ == old(store).chunks@);
                assert forall|a: int, b: int|
                    0 <= a < b < store.documents@.len() implies store.documents@[a].path@
                    != store.documents@[b].path@ && store.documents@[a].id
                    != store.documents@[b].id by {
                    assert(old(store).documents@[a].path@ != old(store).documents@[b].path@);
                    assert(old(store).documents@[a].id != old(store).documents@[b].id);
                }
                assert forall|c: int|
                    0 <= c < store.chunks@.len() implies store.owns_document(
                    store.chunks@[c].document_id,
                ) by {
                    assert(old(store).owns_document(old(store).chunks@[c].document_id));
                    let j = choose|j: int|
                        0 <= j < old(store).documents@.len() && old(store).documents@[j].id
                            == old(store).chunks@[c].document_id;
                    assert(store.documents@[j].id == store.chunks@[c].document_id);
                }
                assert(store.wf());
            }
            store.remove_chunks_of(id);
            Some(
                SourceDocument { id, path: path.to_owned(), content: content.to_owned() },
            )
        },
    }
}

/// No source path occurs twice in the file list.
pub open spec fn distinct_paths(files: Seq<(String, String)>) -> bool {
    forall|i: int, j: int| 0 <= i < j < files.len() ==> files[i].0@ != files[j].0@
}

/// Some listed file carries this path.
pub open spec fn listed(files: Seq<(String, String)>, path: Seq<char>) -> bool {
    exists|m: int| 0 <= m < files.len() && files[m].0@ == path
}

/// The store records this path with the fingerprint of this content.
pub open spec fn recorded(store: ContentStore, path: Seq<char>, content: Seq<char>) -> bool {
    exists|i: int|
        0 <= i < store.documents@.len() && store.documents@[i].path@ == path
            && store.documents@[i].content_hash@ == spec_fingerprint(content)
}

/// Every listed file is recorded with its current fingerprint.
pub open spec fn up_to_date(store: ContentStore, files: Seq<(String, String)>) -> bool {
    forall|k: int|
        0 <= k < files.len() ==> recorded(store, (#[trigger] files[k]).0@, files[k].1@)
}

/// The (path, content) views of a file list, in order.
pub open spec fn file_views(files: Seq<(String, String)>) -> Seq<(Seq<char>, Seq<char>)> {
    files.map_values(|f: (String, String)| (f.0@, f.1@))
}

/// The (path, content) views of an ingestion run's output, in order.
pub open spec fn out_views(out: Seq<SourceDocument>) -> Seq<(Seq<char>, Seq<char>)> {
    out.map_values(|d: SourceDocument| (d.path@, d.content@))
}

/// Whether a (path, content) pair still needs (re)processing against a
/// store: its fingerprint is not recorded there.
pub open spec fn needs_work_pred(store: ContentStore) -> spec_fn((Seq<char>, Seq<char>)) -> bool {
    |p: (Seq<char>, Seq<char>)| !recorded(store, p.0, p.1)
}

/// Filtering one pushed element either keeps it at the end or not.
proof fn lemma_filter_push<A>(s: Seq<A>, x: A, pred: spec_fn(A) -> bool)
    ensures
        s.push(x).filter(pred) == if pred(x) {
            s.filter(pred).push(x)
        } else {
            s.filter(pred)
        },
{
    reveal(Seq::filter);
    assert(s.push(x).drop_last() =~= s);
    assert(s.push(x).last() == x);
}

/// The state of a batch run after its first `k` files: how the store `cur`
/// and the output so far relate to the starting store `old0`.
pub open spec fn batch_state(
    old0: ContentStore,
    cur: ContentStore,
    fs: Seq<(String, String)>,
    k: int,
    out: Seq<SourceDocument>,
) -> bool {
    &&& cur.next_chunk_id == old0.next_chunk_id
    &&& cur.next_document_id <= old0.next_document_id + k
    &&& cur.documents@.len() >= old0.documents@.len()
    &&& (forall|d: int|
        0 <= d < old0.documents@.len() ==> (#[trigger] cur.documents@[d]).id
            == old0.documents@[d].id && cur.documents@[d].path == old0.documents@[d].path)
    &&& (forall|d: int|
        0 <= d < old0.documents@.len() && !listed(fs.take(k), old0.documents@[d].path@)
            ==> (#[trigger] cur.documents@[d]) == old0.documents@[d] && cur.chunks_of(
            old0.documents@[d].id,
        ) == old0.chunks_of(old0.documents@[d].id))
    &&& (forall|i: int|
        old0.documents@.len() <= i < cur.documents@.len() ==> listed(
            fs.take(k),
            (#[trigger] cur.documents@[i]).path@,
        ))
    &&& (up_to_date(old0, fs) ==> cur == old0 && out.len() == 0)
    &&& (distinct_paths(fs) ==> (forall|m: int|
        0 <= m < k ==> recorded(cur, (#[trigger] fs[m]).0@, fs[m].1@)))
    &&& (forall|j: int|
        0 <= j < out.len() ==> exists|m: int|
            0 <= m < k && fs[m].0@ == (#[trigger] out[j]).path@ && fs[m].1@ == out[j].content@)
    &&& (distinct_paths(fs) ==> (forall|m: int|
        0 <= m < k ==> (recorded(old0, (#[trigger] fs[m]).0@, fs[m].1@) <==> !(exists|j: int|
            0 <= j < out.len() && out[j].path@ == fs[m].0@))))
    &&& (distinct_paths(fs) ==> out_views(out) == file_views(fs.take(k)).filter(
        needs_work_pred(old0),
    ))
    &&& (forall|j: int|
        0 <= j < out.len() ==> cur.chunks_of((#[trigger] out[j]).id).len() == 0)
    &&& (distinct_paths(fs) ==> (forall|d: int, m: int|
        0 <= d < old0.documents@.len() && 0 <= m < fs.len() && (#[trigger] fs[m]).0@ == (
        #[trigger] old0.documents@[d]).path@ && old0.documents@[d].content_hash@
            == spec_fingerprint(fs[m].1@) ==> cur.documents@[d] == old0.documents@[d]
            && cur.chunks_of(old0.documents@[d].id) == old0.chunks_of(old0.documents@[d].id)))
    &&& (distinct_paths(fs) ==> (forall|j: int|
        0 <= j < out.len() ==> exists|i: int|
            0 <= i < cur.documents@.len() && (#[trigger] cur.documents@[i]).id == (
            #[trigger] out[j]).id && cur.documents@[i].path@ == out[j].path@
                && cur.documents@[i].content_hash@ == spec_fingerprint(out[j].content@)))
}

/// One ingestion step preserves the chunk-level and id-level clauses of
/// the batch relation: returned documents stay chunkless, rows of
/// unchanged listed files keep their chunks, and every output entry
/// names a live row.
#[verifier::rlimit(100)]
proof fn lemma_batch_step_extras(
    old0: ContentStore,
    pre: ContentStore,
    post: ContentStore,
    fs: Seq<(String, String)>,
    kk: int,
    outpre: Seq<SourceDocument>,
    outpost: Seq<SourceDocument>,
    r: Option<SourceDocument>,
)
    requires
        0 <= kk < fs.len(),
        old0.wf(),
        pre.wf(),
        post.wf(),
        batch_state(old0, pre, fs, kk, outpre),
        ingest_effect(pre, post, fs[kk].0@, fs[kk].1@, r),
        outpost == if r is Some {
            outpre.push(r->Some_0)
        } else {
            outpre
        },
    ensures
        forall|j: int|
            0 <= j < outpost.len() ==> post.chunks_of((#[trigger] outpost[j]).id).len() == 0,
        distinct_paths(fs) ==> (forall|d: int, m: int|
            0 <= d < old0.documents@.len() && 0 <= m < fs.len() && (#[trigger] fs[m]).0@ == (
            #[trigger] old0.documents@[d]).path@ && old0.documents@[d].content_hash@
                == spec_fingerprint(fs[m].1@) ==> post.documents@[d] == old0.documents@[d]
                && post.chunks_of(old0.documents@[d].id) == old0.chunks_of(
                old0.documents@[d].id,
            )),
        distinct_paths(fs) ==> (forall|j: int|
            0 <= j < outpost.len() ==> exists|i: int|
                0 <= i < post.documents@.len() && (#[trigger] post.documents@[i]).id == (
                #[trigger] outpost[j]).id && post.documents@[i].path@ == outpost[j].path@
                    && post.documents@[i].content_hash@ == spec_fingerprint(
                    outpost[j].content@,
                )),
{
    let fk = fs[kk];
    let was_some = (r is Some);
    if !pre.has_path(fk.0@) {
        // A fresh row is appended; no chunk is touched.
        assert(post.chunks@ == pre.chunks@);
        assert forall|j: int|
            0 <= j < outpost.len() implies post.chunks_of(
            (#[trigger] outpost[j]).id,
        ).len() == 0 by {
            if j < outpre.len() {
                assert(outpost[j] == outpre[j]);
                assert(pre.chunks_of(outpre[j].id).len() == 0);
            } else {
                let d = r->Some_0;
                assert(d.id == pre.next_document_id);
                assert forall|c: int|
                    0 <= c < pre.chunks@.len() implies (#[trigger] pre.chunks@[c]).document_id
                    != d.id by {
                    assert(pre.owns_document(pre.chunks@[c].document_id));
                    let w = choose|w: int|
                        0 <= w < pre.documents@.len() && pre.documents@[w].id
                            == pre.chunks@[c].document_id;
                    assert(pre.documents@[w].id < pre.next_document_id);
                }
                crate::store::lemma_chunks_of_absent(pre.chunks@, d.id);
            }
        }
        if distinct_paths(fs) {
            assert forall|d: int, m: int|
                0 <= d < old0.documents@.len() && 0 <= m < fs.len() && (#[trigger] fs[m]).0@
                    == (#[trigger] old0.documents@[d]).path@
                    && old0.documents@[d].content_hash@ == spec_fingerprint(
                    fs[m].1@,
                ) implies post.documents@[d] == old0.documents@[d] && post.chunks_of(
                old0.documents@[d].id,
            ) == old0.chunks_of(old0.documents@[d].id) by {
                assert(pre.documents@[d] == old0.documents@[d]);
                assert(pre.chunks_of(old0.documents@[d].id) == old0.chunks_of(
                    old0.documents@[d].id,
                ));
                assert(post.documents@[d] == pre.documents@[d]);
            }
            assert forall|j: int| 0 <= j < outpost.len() implies exists|i: int|
                0 <= i < post.documents@.len() && (#[trigger] post.documents@[i]).id == (
                #[trigger] outpost[j]).id && post.documents@[i].path@ == outpost[j].path@
                && post.documents@[i].content_hash@ == spec_fingerprint(
                outpost[j].content@,
            ) by {
                if j < outpre.len() {
                    assert(outpost[j] == outpre[j]);
                    let iw = choose|iw: int|
                        0 <= iw < pre.documents@.len() && (#[trigger] pre.documents@[iw]).id
                            == outpre[j].id && pre.documents@[iw].path@ == outpre[j].path@
                            && pre.documents@[iw].content_hash@ == spec_fingerprint(
                            outpre[j].content@,
                        );
                    assert(post.documents@[iw] == pre.documents@[iw]);
                } else {
                    let d = r->Some_0;
                    let last = post.documents@.len() - 1;
                    assert(post.documents@[last].id == d.id);
                    assert(post.documents@[last].path@ == d.path@);
                    assert(post.documents@[last].content_hash@ == spec_fingerprint(
                        d.content@,
                    ));
                }
            }
        }
    } else {
        let i = choose|i: int|
            0 <= i < pre.documents@.len() && (#[trigger] pre.documents@[i]).path@ == fk.0@;
        if pre.documents@[i].content_hash@ == spec_fingerprint(fk.1@) {
            // A no-op step: everything carries over unchanged.
            assert(post == pre && !was_some);
            assert(outpost == outpre);
            assert forall|j: int|
                0 <= j < outpost.len() implies post.chunks_of(
                (#[trigger] outpost[j]).id,
            ).len() == 0 by {
                assert(pre.chunks_of(outpre[j].id).len() == 0);
            }
        } else {
            // The changed document's chunk set is dropped; other
            // documents keep theirs.
            let cid = pre.documents@[i].id;
            assert(post.chunks@ == spec_drop_doc(pre.chunks@, cid));
            assert(was_some);
            let d = r->Some_0;
            assert(d.id == cid);
            assert forall|j: int|
                0 <= j < outpost.len() implies post.chunks_of(
                (#[trigger] outpost[j]).id,
            ).len() == 0 by {
                if j < outpre.len() {
                    assert(outpost[j] == outpre[j]);
                    assert(pre.chunks_of(outpre[j].id).len() == 0);
                    if outpre[j].id == cid {
                        lemma_drop_doc_owns_nothing(pre.chunks@, cid);
                    } else {
                        lemma_drop_doc_keeps_others(pre.chunks@, outpre[j].id, cid);
                    }
                } else {
                    lemma_drop_doc_owns_nothing(pre.chunks@, cid);
                }
            }
            if distinct_paths(fs) {
                assert forall|d2: int, m: int|
                    0 <= d2 < old0.documents@.len() && 0 <= m < fs.len() && (#[trigger] fs[m]).0@
                        == (#[trigger] old0.documents@[d2]).path@
                        && old0.documents@[d2].content_hash@ == spec_fingerprint(
                        fs[m].1@,
                    ) implies post.documents@[d2] == old0.documents@[d2] && post.chunks_of(
                    old0.documents@[d2].id,
                ) == old0.chunks_of(old0.documents@[d2].id) by {
                    assert(pre.documents@[d2] == old0.documents@[d2]);
                    assert(pre.chunks_of(old0.documents@[d2].id) == old0.chunks_of(
                        old0.documents@[d2].id,
                    ));
                    if old0.documents@[d2].path@ == fk.0@ {
                        // This row's listed file is this very step's file,
                        // whose fingerprint would then match: contradiction.
                        if m != kk {
                            if m < kk {
                                assert(fs[m].0@ != fs[kk].0@);
                            } else {
                                assert(fs[kk].0@ != fs[m].0@);
                            }
                        }
                        assert(m == kk);
                        if d2 != i {
                            if d2 < i {
                                assert(pre.documents@[d2].path@ != pre.documents@[i].path@);
                            } else {
                                assert(pre.documents@[i].path@ != pre.documents@[d2].path@);
                            }
                        }
                        assert(d2 == i);
                        assert(false);
                    } else {
                        if d2 != i {
                        } else {
                            assert(pre.documents@[i].path@ == fk.0@);
                            assert(false);
                        }
                        assert(post.documents@[d2] == pre.documents@[d2]);
                        if pre.documents@[d2].id == cid {
                            if d2 < i {
                                assert(pre.documents@[d2].id != pre.documents@[i].id);
                            } else {
                                assert(pre.documents@[i].id != pre.documents@[d2].id);
                            }
                            assert(false);
                        }
                        lemma_drop_doc_keeps_others(pre.chunks@, pre.documents@[d2].id, cid);
                    }
                }
                assert forall|j: int| 0 <= j < outpost.len() implies exists|iw: int|
                    0 <= iw < post.documents@.len() && (#[trigger] post.documents@[iw]).id == (
                    #[trigger] outpost[j]).id && post.documents@[iw].path@ == outpost[j].path@
                    && post.documents@[iw].content_hash@ == spec_fingerprint(
                    outpost[j].content@,
                ) by {
                    if j < outpre.len() {
                        assert(outpost[j] == outpre[j]);
                        let iw = choose|iw: int|
                            0 <= iw < pre.documents@.len() && (#[trigger] pre.documents@[iw]).id
                                == outpre[j].id && pre.documents@[iw].path@ == outpre[j].path@
                                && pre.documents@[iw].content_hash@ == spec_fingerprint(
                                outpre[j].content@,
                            );
                        let m = choose|m: int|
                            0 <= m < kk && (#[trigger] fs[m]).0@ == outpre[j].path@ && fs[m].1@
                                == outpre[j].content@;
                        if m < kk {
                            assert(fs[m].0@ != fs[kk].0@);
                        }
                        assert(pre.documents@[iw].path@ != fk.0@);
                        if iw != i {
                        } else {
                            assert(pre.documents@[i].path@ == fk.0@);
                            assert(false);
                        }
                        assert(post.documents@[iw] == pre.documents@[iw]);
                    } else {
                        assert(post.documents@[i].id == cid);
                        assert(post.documents@[i].path == pre.documents@[i].path);
                        assert(post.documents@[i].path@ == fk.0@);
                        assert(post.documents@[i].content_hash@ == spec_fingerprint(fk.1@));
                        assert(d.path@ == fk.0@ && d.content@ == fk.1@);
                    }
                }
            }
        }
    }
}

/// One ingestion step preserves the batch relation.
#[verifier::rlimit(100)]
proof fn lemma_batch_step(
    old0: ContentStore,
    pre: ContentStore,
    post: ContentStore,
    fs: Seq<(String, String)>,
    kk: int,
    outpre: Seq<SourceDocument>,
    outpost: Seq<SourceDocument>,
    r: Option<SourceDocument>,
)
    requires
        0 <= kk < fs.len(),
        old0.wf(),
        pre.wf(),
        post.wf(),
        batch_state(old0, pre, fs, kk, outpre),
        ingest_effect(pre, post, fs[kk].0@, fs[kk].1@, r),
        outpost == if r is Some {
            outpre.push(r->Some_0)
        } else {
            outpre
        },
    ensures
        batch_state(old0, post, fs, kk + 1, outpost),
{
    let fk = fs[kk];
    let was_some = (r is Some);
    assert(fs.take(kk + 1) =~= fs.take(kk).push(fk));
    assert(fs.take(kk + 1)[kk] == fk);
    assert(listed(fs.take(kk + 1), fk.0@));
    assert forall|p: Seq<char>| #[trigger] listed(fs.take(kk), p) implies listed(
        fs.take(kk + 1),
        p,
    ) by {
        let m = choose|m: int| 0 <= m < kk && (#[trigger] fs.take(kk)[m]).0@ == p;
        assert(fs.take(kk + 1)[m].0@ == p);
    }
    // The step, reduced to the facts the batch relation needs.
    assert({
        &&& (forall|d: int|
            0 <= d < pre.documents@.len() ==> (#[trigger] post.documents@[d]).id
                == pre.documents@[d].id && post.documents@[d].path == pre.documents@[d].path)
        &&& (forall|d: int|
            0 <= d < pre.documents@.len() && (#[trigger] pre.documents@[d]).path@ != fk.0@
                ==> post.documents@[d] == pre.documents@[d] && post.chunks_of(
                pre.documents@[d].id,
            ) == pre.chunks_of(pre.documents@[d].id))
        &&& post.documents@.len() >= pre.documents@.len()
        &&& (forall|i: int|
            pre.documents@.len() <= i < post.documents@.len()
                ==> (#[trigger] post.documents@[i]).path@ == fk.0@)
        &&& recorded(post, fk.0@, fk.1@)
        &&& (was_some <==> !recorded(pre, fk.0@, fk.1@))
        &&& (recorded(pre, fk.0@, fk.1@) ==> post == pre && !was_some)
    }) by {
        if !pre.has_path(fk.0@) {
            assert(post.documents@[post.documents@.len() - 1].path@ == fk.0@);
            assert(recorded(post, fk.0@, fk.1@));
            if recorded(pre, fk.0@, fk.1@) {
                let i = choose|i: int|
                    0 <= i < pre.documents@.len() && pre.documents@[i].path@ == fk.0@
                        && pre.documents@[i].content_hash@ == spec_fingerprint(fk.1@);
                assert(pre.has_path(fk.0@));
            }
            assert forall|d: int|
                0 <= d < pre.documents@.len() && (#[trigger] pre.documents@[d]).path@
                    != fk.0@ implies post.documents@[d] == pre.documents@[d] && post.chunks_of(
                pre.documents@[d].id,
            ) == pre.chunks_of(pre.documents@[d].id) by {
                assert(post.chunks@ == pre.chunks@);
            }
        } else {
            let i = choose|i: int|
                0 <= i < pre.documents@.len() && (#[trigger] pre.documents@[i]).path@ == fk.0@;
            if pre.documents@[i].content_hash@ == spec_fingerprint(fk.1@) {
                assert(post == pre && !was_some);
                assert(recorded(pre, fk.0@, fk.1@));
            } else {
                assert(post.documents@[i].content_hash@ == spec_fingerprint(fk.1@));
                assert(post.documents@[i].path@ == fk.0@);
                assert(recorded(post, fk.0@, fk.1@));
                if recorded(pre, fk.0@, fk.1@) {
                    let j = choose|j: int|
                        0 <= j < pre.documents@.len() && pre.documents@[j].path@ == fk.0@
                            && pre.documents@[j].content_hash@ == spec_fingerprint(fk.1@);
                    assert(j == i);
                }
                assert(!recorded(pre, fk.0@, fk.1@));
                assert forall|d: int|
                    0 <= d < pre.documents@.len() && (#[trigger] pre.documents@[d]).path@
                        != fk.0@ implies post.documents@[d] == pre.documents@[d]
                    && post.chunks_of(pre.documents@[d].id) == pre.chunks_of(
                    pre.documents@[d].id,
                ) by {
                    assert(d != i);
                    assert(pre.documents@[d].id != pre.documents@[i].id);
                    lemma_drop_doc_keeps_others(
                        pre.chunks@,
                        pre.documents@[d].id,
                        pre.documents@[i].id,
                    );
                }
            }
        }
    }
    assert forall|d: int|
        0 <= d < old0.documents@.len() && !listed(
            fs.take(kk + 1),
            old0.documents@[d].path@,
        ) implies (#[trigger] post.documents@[d]) == old0.documents@[d] && post.chunks_of(
        old0.documents@[d].id,
    ) == old0.chunks_of(old0.documents@[d].id) by {
        assert(!listed(fs.take(kk), old0.documents@[d].path@));
        assert(pre.documents@[d] == old0.documents@[d]);
        assert(pre.documents@[d].path@ != fk.0@);
    }
    assert forall|i: int|
        old0.documents@.len() <= i < post.documents@.len() implies listed(
        fs.take(kk + 1),
        (#[trigger] post.documents@[i]).path@,
    ) by {
        if i < pre.documents@.len() {
            assert(listed(fs.take(kk), pre.documents@[i].path@));
            assert(post.documents@[i].path == pre.documents@[i].path);
        } else {
            assert(post.documents@[i].path@ == fk.0@);
        }
    }
    if up_to_date(old0, fs) {
        assert(recorded(old0, (fs[kk]).0@, fs[kk].1@));
        assert(pre == old0);
        assert(post == pre && !was_some);
    }
    if distinct_paths(fs) {
        assert forall|m: int| 0 <= m < kk implies (#[trigger] fs[m]).0@ != fk.0@ by {}
        assert forall|m: int| 0 <= m < kk + 1 implies recorded(
            post,
            (#[trigger] fs[m]).0@,
            fs[m].1@,
        ) by {
            if m < kk {
                assert(recorded(pre, fs[m].0@, fs[m].1@));
                let i = choose|i: int|
                    0 <= i < pre.documents@.len() && pre.documents@[i].path@ == fs[m].0@
                        && pre.documents@[i].content_hash@ == spec_fingerprint(fs[m].1@);
                assert(pre.documents@[i].path@ != fk.0@);
                assert(post.documents@[i] == pre.documents@[i]);
            }
        }
        assert(recorded(pre, fk.0@, fk.1@) <==> recorded(old0, fk.0@, fk.1@)) by {
            if recorded(old0, fk.0@, fk.1@) {
                let d = choose|d: int|
                    0 <= d < old0.documents@.len() && old0.documents@[d].path@ == fk.0@
                        && old0.documents@[d].content_hash@ == spec_fingerprint(fk.1@);
                if listed(fs.take(kk), old0.documents@[d].path@) {
                    let m = choose|m: int|
                        0 <= m < kk && (#[trigger] fs.take(kk)[m]).0@
                            == old0.documents@[d].path@;
                    assert(fs[m].0@ == fk.0@);
                }
                assert(pre.documents@[d] == old0.documents@[d]);
                assert(recorded(pre, fk.0@, fk.1@));
            }
            if recorded(pre, fk.0@, fk.1@) {
                let i = choose|i: int|
                    0 <= i < pre.documents@.len() && pre.documents@[i].path@ == fk.0@
                        && pre.documents@[i].content_hash@ == spec_fingerprint(fk.1@);
                if i < old0.documents@.len() {
                    assert(old0.documents@[i].path@ == pre.documents@[i].path@);
                    if listed(fs.take(kk), old0.documents@[i].path@) {
                        let m = choose|m: int|
                            0 <= m < kk && (#[trigger] fs.take(kk)[m]).0@
                                == old0.documents@[i].path@;
                        assert(fs[m].0@ == fk.0@);
                    }
                    assert(pre.documents@[i] == old0.documents@[i]);
                    assert(recorded(old0, fk.0@, fk.1@));
                } else {
                    assert(listed(fs.take(kk), pre.documents@[i].path@));
                    let m = choose|m: int|
                        0 <= m < kk && (#[trigger] fs.take(kk)[m]).0@ == pre.documents@[i].path@;
                    assert(fs[m].0@ == fk.0@);
                    assert(false);
                }
            }
        }
        assert forall|j: int| 0 <= j < outpre.len() implies (#[trigger] outpre[j]).path@
            != fk.0@ by {
            let m = choose|m: int|
                0 <= m < kk && (#[trigger] fs[m]).0@ == outpre[j].path@ && fs[m].1@
                    == outpre[j].content@;
        }
        assert forall|m: int| 0 <= m < kk + 1 implies (recorded(
            old0,
            (#[trigger] fs[m]).0@,
            fs[m].1@,
        ) <==> !(exists|j: int| 0 <= j < outpost.len() && outpost[j].path@ == fs[m].0@)) by {
            if m < kk {
                if exists|j: int| 0 <= j < outpost.len() && outpost[j].path@ == fs[m].0@ {
                    let j = choose|j: int|
                        0 <= j < outpost.len() && (#[trigger] outpost[j]).path@ == fs[m].0@;
                    assert(j < outpre.len());
                    assert(outpre[j] == outpost[j]);
                    assert(exists|j2: int|
                        0 <= j2 < outpre.len() && (#[trigger] outpre[j2]).path@ == fs[m].0@);
                }
                if exists|j: int| 0 <= j < outpre.len() && outpre[j].path@ == fs[m].0@ {
                    let j = choose|j: int|
                        0 <= j < outpre.len() && (#[trigger] outpre[j]).path@ == fs[m].0@;
                    assert(outpost[j].path@ == fs[m].0@);
                }
            } else {
                if was_some {
                    assert(outpost[outpost.len() - 1].path@ == fk.0@);
                    assert(!recorded(old0, fk.0@, fk.1@));
                } else {
                    assert(recorded(pre, fk.0@, fk.1@));
                    assert(recorded(old0, fk.0@, fk.1@));
                    if exists|j: int| 0 <= j < outpost.len() && outpost[j].path@ == fk.0@ {
                        let j = choose|j: int|
                            0 <= j < outpost.len() && (#[trigger] outpost[j]).path@ == fk.0@;
                        assert(outpre[j].path@ != fk.0@);
                        assert(false);
                    }
                }
            }
        }
        // The output so far is exactly the prefix's files that needed
        // work, in file order.
        let pred = needs_work_pred(old0);
        assert(file_views(fs.take(kk + 1)) =~= file_views(fs.take(kk)).push((fk.0@, fk.1@)));
        lemma_filter_push(file_views(fs.take(kk)), (fk.0@, fk.1@), pred);
        assert(pred((fk.0@, fk.1@)) == !recorded(old0, fk.0@, fk.1@));
        if was_some {
            assert(!recorded(old0, fk.0@, fk.1@));
            assert(out_views(outpost) =~= out_views(outpre).push((fk.0@, fk.1@)));
            assert(out_views(outpost) =~= file_views(fs.take(kk + 1)).filter(pred));
        } else {
            assert(recorded(old0, fk.0@, fk.1@));
            assert(out_views(outpost) =~= out_views(outpre));
            assert(out_views(outpost) =~= file_views(fs.take(kk + 1)).filter(pred));
        }
    }
    assert forall|j: int| #![trigger outpost[j]] 0 <= j < outpost.len() implies exists|m: int|
        0 <= m < kk + 1 && (#[trigger] fs[m]).0@ == outpost[j].path@ && fs[m].1@
            == outpost[j].content@ by {
        if j < outpre.len() {
            let m = choose|m: int|
                0 <= m < kk && (#[trigger] fs[m]).0@ == outpre[j].path@ && fs[m].1@
                    == outpre[j].content@;
            assert(fs[m].0@ == outpost[j].path@ && fs[m].1@ == outpost[j].content@);
        } else {
            assert(outpost[j] == r->Some_0);
            assert(fs[kk].0@ == outpost[j].path@ && fs[kk].1@ == outpost[j].content@);
        }
    }
    lemma_batch_step_extras(old0, pre, post, fs, kk, outpre, outpost, r);
}

/// What a whole ingestion run does: every listed file ends up recorded;
/// a run over an already-recorded batch changes nothing and returns
/// nothing; document rows keep their ids and paths by position; rows of
/// unlisted paths are untouched, chunks included, and so are rows whose
/// listed file is unchanged; every returned document is left with zero
/// chunks, its id naming the row that now carries its fingerprint; and
/// the output is exactly the listed files that needed work, in
/// discovery order. At most one fresh id is drawn per listed file.
pub open spec fn batch_effect(
    pre: ContentStore,
    post: ContentStore,
    files: Seq<(String, String)>,
    out: Seq<SourceDocument>,
) -> bool {
    &&& post.next_chunk_id == pre.next_chunk_id
    &&& (up_to_date(pre, files) ==> post == pre && out.len() == 0)
    &&& (distinct_paths(files) ==> up_to_date(post, files))
    &&& post.documents@.len() >= pre.documents@.len()
    &&& (forall|d: int|
        0 <= d < pre.documents@.len() ==> (#[trigger] post.documents@[d]).id
            == pre.documents@[d].id && post.documents@[d].path == pre.documents@[d].path)
    &&& (forall|d: int|
        0 <= d < pre.documents@.len() && !listed(files, pre.documents@[d].path@)
            ==> (#[trigger] post.documents@[d]) == pre.documents@[d] && post.chunks_of(
            pre.documents@[d].id,
        ) == pre.chunks_of(pre.documents@[d].id))
    &&& (forall|j: int|
        0 <= j < out.len() ==> exists|k: int|
            0 <= k < files.len() && files[k].0@ == (#[trigger] out[j]).path@ && files[k].1@
                == out[j].content@)
    &&& (distinct_paths(files) ==> (forall|m: int|
        0 <= m < files.len() ==> (recorded(pre, (#[trigger] files[m]).0@, files[m].1@)
            <==> !(exists|j: int| 0 <= j < out.len() && out[j].path@ == files[m].0@))))
    &&& (distinct_paths(files) ==> out_views(out) == file_views(files).filter(
        needs_work_pred(pre),
    ))
    &&& post.next_document_id <= pre.next_document_id + files.len()
    &&& (forall|j: int|
        0 <= j < out.len() ==> post.chunks_of((#[trigger] out[j]).id).len() == 0)
    &&& (distinct_paths(files) ==> (forall|d: int, m: int|
        0 <= d < pre.documents@.len() && 0 <= m < files.len() && (#[trigger] files[m]).0@ == (
        #[trigger] pre.documents@[d]).path@ && pre.documents@[d].content_hash@
            == spec_fingerprint(files[m].1@) ==> post.documents@[d] == pre.documents@[d]
            && post.chunks_of(pre.documents@[d].id) == pre.chunks_of(pre.documents@[d].id)))
    &&& (distinct_paths(files) ==> (forall|j: int|
        0 <= j < out.len() ==> exists|i: int|
            0 <= i < post.documents@.len() && (#[trigger] post.documents@[i]).id == (
            #[trigger] out[j]).id && post.documents@[i].path@ == out[j].path@
                && post.documents@[i].content_hash@ == spec_fingerprint(out[j].content@)))
}

/// Ingests a whole batch of extracted texts, in order, and returns the
/// documents that need (re)chunking and (re)indexing, in discovery order.
///
/// Ingestion is incremental and idempotent: a file whose fingerprint is
/// already recorded is skipped, and a run over an already-recorded batch
/// changes nothing and returns nothing (see
/// [`lemma_ingestion_idempotent`]). Documents whose paths are not listed
/// are never touched, nor are their chunks.
pub fn ingest_documents(store: &mut ContentStore, files: &Vec<(String, String)>) -> (r: Vec<
    SourceDocument,
>)
    requires
        old(store).wf(),
        old(store).next_document_id + files@.len() < i64::MAX,
    ensures
        final(store).wf(),
        batch_effect(*old(store), *final(store), files@, r@),
{
    let mut out: Vec<SourceDocument> = Vec::new();
    let n = files.len();
    proof {
        reveal(Seq::filter);
        assert(files@.take(0) =~= Seq::<(String, String)>::empty());
        assert(file_views(files@.take(0)).filter(needs_work_pred(*old(store))) =~= Seq::<(
            Seq<char>,
            Seq<char>,
        )>::empty());
        assert(out_views(Seq::<SourceDocument>::empty()) =~= Seq::<(
            Seq<char>,
            Seq<char>,
        )>::empty());
    }
    let mut k: usize = 0;
    while k < n
        invariant
            old(store).wf(),
            old(store).next_document_id + n < i64::MAX,
            n == files@.len(),
            k <= n,
            store.wf(),
            batch_state(*old(store), *store, files@, k as int, out@),
        decreases n - k,
    {
        let ghost pre = *store;
        let ghost outpre = out@;
        let path = &files[k].0;
        let content = &files[k].1;
        let res = ingest_document(store, path.as_str(), content.as_str());
        let ghost resg = res;
        match res {
            Some(d) => out.push(d),
            None => {},
        }
        proof {
            lemma_batch_step(
                *old(store),
                pre,
                *store,
                files@,
                k as int,
                outpre,
                out@,
                resg,
            );
        }
        k = k + 1;
    }
    proof {
        assert(files@.take(n as int) =~= files@);
        assert(batch_effect(*old(store), *store, files@, out@));
    }
    out
}

/// Idempotence of ingestion: whatever store a run over a batch of
/// distinct paths produced, a second run over the same unchanged batch
/// produces zero new documents and chunks; it leaves the store exactly
/// as the first run left it and returns nothing to reprocess.
pub proof fn lemma_ingestion_idempotent(
    s0: ContentStore,
    s1: ContentStore,
    s2: ContentStore,
    files: Seq<(String, String)>,
    out1: Seq<SourceDocument>,
    out2: Seq<SourceDocument>,
)
    requires
        distinct_paths(files),
        batch_effect(s0, s1, files, out1),
        batch_effect(s1, s2, files, out2),
    ensures
        s2 == s1,
        out2.len() == 0,
{
    assert(up_to_date(s1, files));
}

/// Change detection is local: re-ingesting one file whose content
/// changed updates only that document's fingerprint, replaces only that
/// document's chunk set, and leaves every other document and its chunks
/// exactly as they were.
pub proof fn lemma_change_detection_localized(
    pre: ContentStore,
    post: ContentStore,
    path: Seq<char>,
    content: Seq<char>,
    r: Option<SourceDocument>,
    i: int,
)
    requires
        pre.wf(),
        ingest_effect(pre, post, path, content, r),
        0 <= i < pre.documents@.len(),
        pre.documents@[i].path@ == path,
        pre.documents@[i].content_hash@ != spec_fingerprint(content),
    ensures
        post.documents@.len() == pre.documents@.len(),
        post.documents@[i].id == pre.documents@[i].id,
        post.documents@[i].path == pre.documents@[i].path,
        post.documents@[i].content_hash@ == spec_fingerprint(content),
        forall|j: int|
            0 <= j < pre.documents@.len() && j != i ==> (#[trigger] post.documents@[j])
                == pre.documents@[j],
        post.chunks_of(pre.documents@[i].id).len() == 0,
        forall|j: int|
            0 <= j < pre.documents@.len() && j != i ==> post.chunks_of(
                (#[trigger] pre.documents@[j]).id,
            ) == pre.chunks_of(pre.documents@[j].id),
        r matches Some(d) && d.id == pre.documents@[i].id,
{
    assert(post.chunks@ == spec_drop_doc(pre.chunks@, pre.documents@[i].id));
    lemma_drop_doc_owns_nothing(pre.chunks@, pre.documents@[i].id);
    assert forall|j: int|
        0 <= j < pre.documents@.len() && j != i implies post.chunks_of(
        (#[trigger] pre.documents@[j]).id,
    ) == pre.chunks_of(pre.documents@[j].id) by {
        assert(pre.documents@[j].id != pre.documents@[i].id);
        lemma_drop_doc_keeps_others(pre.chunks@, pre.documents@[j].id, pre.documents@[i].id);
    }
}

/// Nothing owned by the dropped document survives the drop.
proof fn lemma_drop_doc_owns_nothing(s: Seq<Chunk>, doc_id: i64)
    ensures
        spec_chunks_of(spec_drop_doc(s, doc_id), doc_id).len() == 0,
    decreases s.len(),
{
    if s.len() > 0 {
        lemma_drop_doc_owns_nothing(s.drop_first(), doc_id);
        if s.first().document_id != doc_id {
            let rest = spec_drop_doc(s.drop_first(), doc_id);
            assert((seq![s.first()] + rest).first() == s.first());
            assert((seq![s.first()] + rest).drop_first() =~= rest);
        }
    }
}

} // verus!
