//! End-to-end tests of the ingestion, chunking, and indexing pipeline
//! against an in-memory content store.

use knowledge_engine::chunking::{chunk_documents, MAX_CHUNK_SIZE};
use knowledge_engine::codec::{deserialize_embedding, serialize_embedding};
use knowledge_engine::error::Error;
use knowledge_engine::hashing::calculate_hash;
use knowledge_engine::indexing::index_chunks;
use knowledge_engine::ingestion::{ingest_document, ingest_documents};
use knowledge_engine::store::ContentStore;

fn two_files() -> Vec<(String, String)> {
    vec![
        ("docs/alpha.txt".to_string(), "The first document speaks of storage.".to_string()),
        ("docs/beta.txt".to_string(), "The second document speaks of retrieval.".to_string()),
    ]
}

#[test]
fn calculate_hash_matches_known_digests() {
    assert_eq!(
        calculate_hash(""),
        "e3b0c44298fc1c149afbf4c8996fb92427ae41e4649b934ca495991b7852b855"
    );
    assert_eq!(
        calculate_hash("abc"),
        "ba7816bf8f01cfea414140de5dae2223b00361a396177a9cb410ff61f20015ad"
    );
}

#[test]
fn ingest_creates_documents_with_fresh_ids() {
    let mut store = ContentStore::new();
    let out = ingest_documents(&mut store, &two_files());
    assert_eq!(out.len(), 2);
    assert_eq!(store.documents.len(), 2);
    assert_eq!(store.documents[0].id, 1);
    assert_eq!(store.documents[1].id, 2);
    assert_eq!(store.documents[0].path, "docs/alpha.txt");
    assert_eq!(store.documents[0].content_hash.len(), 64);
    assert_eq!(out[0].id, 1);
    assert_eq!(out[0].content, "The first document speaks of storage.");
}

#[test]
fn ingest_twice_is_a_no_op() {
    let mut store = ContentStore::new();
    let files = two_files();
    let first = ingest_documents(&mut store, &files);
    assert_eq!(first.len(), 2);
    let docs_before: Vec<(i64, String, String)> = store
        .documents
        .iter()
        .map(|d| (d.id, d.path.clone(), d.content_hash.clone()))
        .collect();
    let chunks_before = store.chunks.len();
    let second = ingest_documents(&mut store, &files);
    assert_eq!(second.len(), 0);
    assert_eq!(store.chunks.len(), chunks_before);
    let docs_after: Vec<(i64, String, String)> = store
        .documents
        .iter()
        .map(|d| (d.id, d.path.clone(), d.content_hash.clone()))
        .collect();
    assert_eq!(docs_before, docs_after);
}

#[test]
fn changed_file_replaces_only_its_own_chunks() {
    let mut store = ContentStore::new();
    let files = two_files();
    let out = ingest_documents(&mut store, &files);
    let chunks = chunk_documents(&out);
    let embeddings: Vec<Option<Vec<u32>>> = chunks.iter().map(|_| Some(vec![7, 8])).collect();
    index_chunks(&mut store, &chunks, &embeddings).unwrap();
    assert_eq!(store.chunks.len(), 2);
    let hash_beta_before = store.documents[1].content_hash.clone();

    let changed = vec![
        ("docs/alpha.txt".to_string(), "The first document was rewritten.".to_string()),
        ("docs/beta.txt".to_string(), "The second document speaks of retrieval.".to_string()),
    ];
    let again = ingest_documents(&mut store, &changed);
    assert_eq!(again.len(), 1);
    assert_eq!(again[0].path, "docs/alpha.txt");
    assert_eq!(again[0].id, 1);
    // Only the changed document's fingerprint moved.
    assert_eq!(store.documents[1].content_hash, hash_beta_before);
    assert_ne!(store.documents[0].content_hash, calculate_hash("The first document speaks of storage."));
    assert_eq!(store.documents[0].content_hash, calculate_hash("The first document was rewritten."));
    // Its whole chunk set is gone; the other document's chunks survive.
    assert_eq!(store.chunks.len(), 1);
    assert_eq!(store.chunks[0].document_id, 2);
    // A returned document is left with zero chunks until re-indexed, and
    // its id names the row now carrying the new fingerprint.
    assert!(store.chunks.iter().all(|c| c.document_id != again[0].id));
    let row = store
        .documents
        .iter()
        .find(|d| d.id == again[0].id)
        .expect("the returned id names a document row");
    assert_eq!(row.path, again[0].path);
    assert_eq!(row.content_hash, calculate_hash(&again[0].content));
}

#[test]
fn unchanged_single_document_is_skipped() {
    let mut store = ContentStore::new();
    let r1 = ingest_document(&mut store, "note.md", "hello world");
    assert!(r1.is_some());
    let r2 = ingest_document(&mut store, "note.md", "hello world");
    assert!(r2.is_none());
    assert_eq!(store.documents.len(), 1);
}

#[test]
fn chunking_is_deterministic_and_bounded() {
    let mut store = ContentStore::new();
    let long_paragraphs = format!("{}\n\n{}", "alpha ".repeat(120).trim(), "beta ".repeat(120).trim());
    let files = vec![("big.txt".to_string(), long_paragraphs)];
    let out = ingest_documents(&mut store, &files);
    let a = chunk_documents(&out);
    let b = chunk_documents(&out);
    assert_eq!(a.len(), b.len());
    assert!(a.len() >= 1);
    for (x, y) in a.iter().zip(b.iter()) {
        assert_eq!(x.document_id, y.document_id);
        assert_eq!(x.chunk_text, y.chunk_text);
    }
    for c in &a {
        assert!(!c.chunk_text.is_empty());
        assert!(c.chunk_text.chars().count() <= MAX_CHUNK_SIZE);
        assert_eq!(c.chunk_text, c.chunk_text.trim());
    }
}

#[test]
fn chunking_trims_whitespace() {
    let mut store = ContentStore::new();
    let files = vec![("pad.txt".to_string(), "   hello world   ".to_string())];
    let out = ingest_documents(&mut store, &files);
    let chunks = chunk_documents(&out);
    assert_eq!(chunks.len(), 1);
    assert_eq!(chunks[0].chunk_text, "hello world");
    assert_eq!(chunks[0].document_id, out[0].id);
}

#[test]
fn embedding_bytes_round_trip() {
    let units: Vec<u32> = vec![0, 1, 0x3f80_0000, 0xffff_ffff];
    let bytes = serialize_embedding(&units);
    assert_eq!(bytes.len(), 16);
    assert_eq!(&bytes[0..4], &[0, 0, 0, 0]);
    assert_eq!(&bytes[8..12], &[0, 0, 0x80, 0x3f]);
    let back = deserialize_embedding(&bytes).unwrap();
    assert_eq!(back, units);
}

#[test]
fn deserialize_rejects_ragged_lengths() {
    let err = deserialize_embedding(&[1, 2, 3, 4, 5]).unwrap_err();
    match err {
        Error::Corruption(m) => {
            assert_eq!(m, "Invalid embedding data in database: not a multiple of 4 bytes.")
        }
        other => panic!("unexpected error: {:?}", other),
    }
}

#[test]
fn indexing_commits_a_good_batch() {
    let mut store = ContentStore::new();
    let files = two_files();
    let out = ingest_documents(&mut store, &files);
    let chunks = chunk_documents(&out);
    let embeddings: Vec<Option<Vec<u32>>> =
        chunks.iter().map(|_| Some(vec![1, 2, 3])).collect();
    index_chunks(&mut store, &chunks, &embeddings).unwrap();
    assert_eq!(store.chunks.len(), chunks.len());
    assert_eq!(store.chunks[0].id, 1);
    assert_eq!(store.chunks[0].embedding.len(), 12);
    assert_eq!(store.chunks[0].chunk_text, chunks[0].chunk_text);
}

#[test]
fn failed_embedding_rolls_back_the_whole_batch() {
    let mut store = ContentStore::new();
    let files = vec![(
        "long.txt".to_string(),
        format!(
            "{}\n\n{}\n\n{}\n\n{}\n\n{}",
            "one ".repeat(150).trim(),
            "two ".repeat(150).trim(),
            "three ".repeat(120).trim(),
            "four ".repeat(120).trim(),
            "five ".repeat(120).trim()
        ),
    )];
    let out = ingest_documents(&mut store, &files);
    let chunks = chunk_documents(&out);
    assert!(chunks.len() >= 5, "expected at least five chunks, got {}", chunks.len());
    let mut embeddings: Vec<Option<Vec<u32>>> =
        chunks.iter().map(|_| Some(vec![9, 9])).collect();
    embeddings[2] = None;
    let err = index_chunks(&mut store, &chunks, &embeddings).unwrap_err();
    assert!(matches!(err, Error::Provider(_)));
    assert_eq!(store.chunk_count(), 0);
}

#[test]
fn empty_embedding_vector_is_a_provider_error() {
    let mut store = ContentStore::new();
    let out = ingest_documents(
        &mut store,
        &vec![("a.txt".to_string(), "some text".to_string())],
    );
    let chunks = chunk_documents(&out);
    let embeddings: Vec<Option<Vec<u32>>> = vec![Some(vec![])];
    let err = index_chunks(&mut store, &chunks, &embeddings).unwrap_err();
    match err {
        Error::Provider(m) => assert_eq!(m, "API response did not contain any embedding data."),
        other => panic!("unexpected error: {:?}", other),
    }
    assert_eq!(store.chunk_count(), 0);
}

#[test]
fn unknown_document_is_a_processing_error() {
    let mut store = ContentStore::new();
    let chunks = vec![knowledge_engine::chunking::TextChunk {
        document_id: 42,
        chunk_text: "orphan".to_string(),
    }];
    let embeddings: Vec<Option<Vec<u32>>> = vec![Some(vec![1])];
    let err = index_chunks(&mut store, &chunks, &embeddings).unwrap_err();
    assert!(matches!(err, Error::Processing(_)));
    assert_eq!(store.chunk_count(), 0);
}

#[test]
fn mismatched_dimension_is_rejected() {
    let mut store = ContentStore::new();
    let out = ingest_documents(
        &mut store,
        &vec![("a.txt".to_string(), "alpha".to_string())],
    );
    let chunks = chunk_documents(&out);
    let embeddings: Vec<Option<Vec<u32>>> = vec![Some(vec![1, 2])];
    index_chunks(&mut store, &chunks, &embeddings).unwrap();
    assert_eq!(store.chunks[0].embedding.len(), 8);

    let out2 = ingest_documents(
        &mut store,
        &vec![("b.txt".to_string(), "beta".to_string())],
    );
    let chunks2 = chunk_documents(&out2);
    let embeddings2: Vec<Option<Vec<u32>>> = vec![Some(vec![1, 2, 3])];
    let err = index_chunks(&mut store, &chunks2, &embeddings2).unwrap_err();
    assert!(matches!(err, Error::Provider(_)));
    assert_eq!(store.chunks.len(), 1);
}
