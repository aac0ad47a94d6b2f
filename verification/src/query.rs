//! The query engine's decision core: exact top-K ranking of scored
//! chunks and assembly of the synthesis prompt, or the fixed
//! no-information answer when the store holds nothing to rank.
//!
//! Similarity scores arrive as order-preserving integer keys computed by
//! the caller from the cosine similarities; everything from there on,
//! which chunks are selected, in what order, and what is asked of the
//! generative provider, is decided and proved here.

use vstd::prelude::*;
use vstd::seq_lib::group_to_multiset_ensures;
use vstd::string::StringExecFns;
use crate::error::Error;

verus! {

/// How many of the most relevant chunks ground an answer.
pub const SIMILARITY_TOP_K: usize = 5;

/// A stored chunk's text with its similarity to the current question,
/// as an order-preserving integer key: a greater key means more similar.
pub struct RelevantChunk {
    pub text: String,
    pub similarity: u64,
}

/// `b` is the first index carrying the greatest similarity.
pub open spec fn is_first_best(s: Seq<RelevantChunk>, b: int) -> bool {
    &&& 0 <= b < s.len()
    &&& (forall|i: int| 0 <= i < s.len() ==> (#[trigger] s[i]).similarity <= s[b].similarity)
    &&& (forall|i: int| 0 <= i < b ==> (#[trigger] s[i]).similarity < s[b].similarity)
}

/// The scored chunks in descending similarity order, ties kept in
/// encounter order: repeatedly pull out the first best chunk.
pub open spec fn spec_rank(s: Seq<RelevantChunk>) -> Seq<RelevantChunk>
    decreases s.len(),
{
    if s.len() == 0 {
        s
    } else {
        let b = choose|b: int| is_first_best(s, b);
        if is_first_best(s, b) {
            seq![s[b]] + spec_rank(s.remove(b))
        } else {
            s
        }
    }
}

proof fn lemma_first_best_exists(s: Seq<RelevantChunk>)
    requires
        s.len() > 0,
    ensures
        exists|b: int| is_first_best(s, b),
    decreases s.len(),
{
    if s.len() == 1 {
        assert(is_first_best(s, 0));
    } else {
        lemma_first_best_exists(s.drop_last());
        let b0 = choose|b: int| is_first_best(s.drop_last(), b);
        if s.last().similarity > s[b0].similarity {
            assert forall|i: int| 0 <= i < s.len() - 1 implies (#[trigger] s[i]).similarity
                < s[s.len() - 1].similarity by {
                assert(s.drop_last()[i] == s[i]);
            }
            assert(is_first_best(s, s.len() - 1));
        } else {
            assert forall|i: int| 0 <= i < s.len() implies (#[trigger] s[i]).similarity
                <= s[b0].similarity by {
                if i < s.len() - 1 {
                    assert(s.drop_last()[i] == s[i]);
                }
            }
            assert forall|i: int| 0 <= i < b0 implies (#[trigger] s[i]).similarity
                < s[b0].similarity by {
                assert(s.drop_last()[i] == s[i]);
            }
            assert(is_first_best(s, b0));
        }
    }
}

proof fn lemma_first_best_unique(s: Seq<RelevantChunk>, a: int, b: int)
    requires
        is_first_best(s, a),
        is_first_best(s, b),
    ensures
        a == b,
{
    if a < b {
        assert(s[a].similarity < s[b].similarity);
        assert(s[a].similarity >= s[b].similarity);
    }
    if b < a {
        assert(s[b].similarity < s[a].similarity);
        assert(s[b].similarity >= s[a].similarity);
    }
}

/// Unfolds one selection step of the ranking at its (unique) first best.
proof fn lemma_rank_step(s: Seq<RelevantChunk>, b: int)
    requires
        is_first_best(s, b),
    ensures
        spec_rank(s) == seq![s[b]] + spec_rank(s.remove(b)),
{
    let c = choose|c: int| is_first_best(s, c);
    lemma_first_best_unique(s, b, c);
}

pub proof fn lemma_rank_len(s: Seq<RelevantChunk>)
    ensures
        spec_rank(s).len() == s.len(),
    decreases s.len(),
{
    if s.len() > 0 {
        lemma_first_best_exists(s);
        let b = choose|b: int| is_first_best(s, b);
        lemma_rank_step(s, b);
        lemma_rank_len(s.remove(b));
    }
}

/// Ranking permutes the scored chunks: nothing is lost or invented.
pub proof fn lemma_rank_permutes(s: Seq<RelevantChunk>)
    ensures
        spec_rank(s).to_multiset() == s.to_multiset(),
    decreases s.len(),
{
    broadcast use group_to_multiset_ensures;

    if s.len() > 0 {
        lemma_first_best_exists(s);
        let b = choose|b: int| is_first_best(s, b);
        lemma_rank_step(s, b);
        lemma_rank_permutes(s.remove(b));
        assert(seq![s[b]] + spec_rank(s.remove(b)) =~= spec_rank(s.remove(b)).insert(
            0,
            s[b],
        ));
        assert((seq![s[b]] + spec_rank(s.remove(b))).to_multiset() =~= spec_rank(
            s.remove(b),
        ).to_multiset().insert(s[b])) by {
            let t = spec_rank(s.remove(b));
            assert(seq![s[b]] + t =~= t.insert(0, s[b]));
            assert(t.insert(0, s[b]).remove(0) =~= t);
            assert(t.insert(0, s[b]).remove(0).to_multiset() =~= t.insert(0, s[b]).to_multiset()
                .remove(s[b]));
        }
        assert(s.remove(b).to_multiset().insert(s[b]) =~= s.to_multiset());
    }
}

/// The ranking is sorted: similarity never increases along it.
pub proof fn lemma_rank_sorted(s: Seq<RelevantChunk>)
    ensures
        forall|i: int, j: int|
            0 <= i < j < spec_rank(s).len() ==> (#[trigger] spec_rank(s)[i]).similarity >= (
            #[trigger] spec_rank(s)[j]).similarity,
    decreases s.len(),
{
    broadcast use group_to_multiset_ensures;

    if s.len() > 0 {
        lemma_first_best_exists(s);
        let b = choose|b: int| is_first_best(s, b);
        lemma_rank_step(s, b);
        let rest = s.remove(b);
        lemma_rank_sorted(rest);
        lemma_rank_permutes(rest);
        lemma_rank_len(rest);
        let r = spec_rank(s);
        assert forall|i: int, j: int|
            0 <= i < j < r.len() implies (#[trigger] r[i]).similarity >= (
            #[trigger] r[j]).similarity by {
            if i == 0 {
                let x = spec_rank(rest)[j - 1];
                assert(r[j] == x);
                assert(spec_rank(rest).contains(x));
                assert(spec_rank(rest).to_multiset().count(x) > 0);
                assert(rest.to_multiset().count(x) > 0);
                assert(rest.contains(x));
                let m = choose|m: int| 0 <= m < rest.len() && rest[m] == x;
                if m < b {
                    assert(s[m] == x);
                } else {
                    assert(s[m + 1] == x);
                }
            } else {
                assert(r[i] == spec_rank(rest)[i - 1]);
                assert(r[j] == spec_rank(rest)[j - 1]);
            }
        }
    }
}

/// The first index carrying the greatest similarity.
fn find_first_best(s: &Vec<RelevantChunk>) -> (b: usize)
    requires
        s@.len() > 0,
    ensures
        is_first_best(s@, b as int),
{
    let mut best: usize = 0;
    let n = s.len();
    let mut i: usize = 1;
    while i < n
        invariant
            n == s@.len(),
            best < i <= n,
            forall|j: int| 0 <= j < i ==> (#[trigger] s@[j]).similarity <= s@[best as int].similarity,
            forall|j: int| 0 <= j < best ==> (#[trigger] s@[j]).similarity < s@[
                best as int
            ].similarity,
        decreases n - i,
    {
        if s[i].similarity > s[best].similarity {
            best = i;
        }
        i = i + 1;
    }
    best
}

/// Selects the `k` most similar chunks, most similar first, ties kept in
/// encounter order: exactly the first `min(k, n)` entries of the full
/// stable descending ranking.
pub fn rank_chunks(scored: Vec<RelevantChunk>, k: usize) -> (r: Vec<RelevantChunk>)
    ensures
        r@ == spec_rank(scored@).take(if k <= scored@.len() {
            k as int
        } else {
            scored@.len() as int
        }),
        r@.len() == (if k <= scored@.len() {
            k as int
        } else {
            scored@.len() as int
        }),
        forall|i: int, j: int|
            0 <= i < j < r@.len() ==> (#[trigger] r@[i]).similarity >= (
            #[trigger] r@[j]).similarity,
{
    let ghost orig = scored@;
    let mut rest = scored;
    let mut out: Vec<RelevantChunk> = Vec::new();
    proof {
        assert(spec_rank(orig) =~= out@ + spec_rank(rest@));
    }
    while out.len() < k && rest.len() > 0
        invariant
            out@.len() + rest@.len() == orig.len(),
            out@.len() <= k,
            spec_rank(orig) == out@ + spec_rank(rest@),
        decreases k - out@.len(),
    {
        let b = find_first_best(&rest);
        proof {
            lemma_rank_step(rest@, b as int);
        }
        let c = rest.remove(b);
        out.push(c);
        proof {
            assert(spec_rank(orig) =~= out@ + spec_rank(rest@));
        }
    }
    proof {
        lemma_rank_len(orig);
        lemma_rank_len(rest@);
        let lim: int = if k <= orig.len() {
            k as int
        } else {
            orig.len() as int
        };
        if out@.len() == k {
            assert(out@ =~= spec_rank(orig).take(lim));
        } else {
            assert(rest@.len() == 0);
            assert(spec_rank(rest@) =~= Seq::<RelevantChunk>::empty());
            assert(out@ =~= spec_rank(orig));
            assert(out@ =~= spec_rank(orig).take(lim));
        }
        lemma_rank_sorted(orig);
        assert forall|i: int, j: int|
            0 <= i < j < out@.len() implies (#[trigger] out@[i]).similarity >= (
            #[trigger] out@[j]).similarity by {
            assert(out@[i] == spec_rank(orig)[i]);
            assert(out@[j] == spec_rank(orig)[j]);
        }
    }
    out
}

/// Decides whether a stored embedding can be scored against the
/// question's: a width mismatch is a fatal configuration error. A
/// question vector with no components scores everything as degenerate,
/// so any stored width passes it.
pub fn check_dimension(question_dim: usize, chunk_dim: usize) -> (r: Result<(), Error>)
    ensures
        r is Ok <==> (question_dim == 0 || chunk_dim == question_dim),
        r matches Err(e) ==> (e matches Error::Config(m) && m@
            == "Stored embedding dimension does not match the provider's."@),
{
    if question_dim != 0 && chunk_dim != question_dim {
        Err(Error::Config(String::from_str(
            "Stored embedding dimension does not match the provider's.",
        )))
    } else {
        Ok(())
    }
}

/// The texts a chunk sequence carries, in order.
pub open spec fn chunk_texts(s: Seq<RelevantChunk>) -> Seq<Seq<char>> {
    s.map_values(|c: RelevantChunk| c.text@)
}

/// The context block: the selected texts, delimited by a separator line.
pub open spec fn spec_context_block(texts: Seq<Seq<char>>) -> Seq<char>
    decreases texts.len(),
{
    if texts.len() == 0 {
        Seq::empty()
    } else if texts.len() == 1 {
        texts[0]
    } else {
        texts[0] + "\n---\n"@ + spec_context_block(texts.drop_first())
    }
}

/// The prompt handed to the generative provider: the context block and
/// the question, under instructions to answer from the context alone.
pub open spec fn spec_synthesis_prompt(question: Seq<char>, texts: Seq<Seq<char>>) -> Seq<char> {
    "CONTEXT:\n            ---\n            "@ + spec_context_block(texts)
        + "\n            ---\n            QUESTION: "@ + question
        + "\n            \n            ANSWER:"@
}

/// Joins the selected chunk texts into one delimited context block.
fn join_chunk_texts(chunks: &Vec<RelevantChunk>) -> (r: String)
    ensures
        r@ == spec_context_block(chunk_texts(chunks@)),
{
    let ghost texts = chunk_texts(chunks@);
    let mut r = String::new();
    let n = chunks.len();
    let mut i: usize = 0;
    while i < n
        invariant
            n == chunks@.len(),
            i <= n,
            texts == chunk_texts(chunks@),
            i == 0 ==> r@ == Seq::<char>::empty(),
            1 <= i < n ==> spec_context_block(texts) == r@ + "\n---\n"@ + spec_context_block(
                texts.skip(i as int),
            ),
            i >= 1 && i == n ==> spec_context_block(texts) == r@,
        decreases n - i,
    {
        if i > 0 {
            r.append("\n---\n");
        }
        r.append(chunks[i].text.as_str());
        proof {
            assert(texts[i as int] == chunks@[i as int].text@);
            if i == 0 {
                if n == 1 {
                    assert(spec_context_block(texts) == texts[0]);
                    assert(r@ == texts[0]);
                } else {
                    assert(texts.drop_first() =~= texts.skip(1));
                    assert(spec_context_block(texts) == texts[0] + "\n---\n"@
                        + spec_context_block(texts.skip(1)));
                    assert(spec_context_block(texts) =~= r@ + "\n---\n"@ + spec_context_block(
                        texts.skip(1),
                    ));
                }
            } else {
                let rest = texts.skip(i as int);
                assert(rest[0] == texts[i as int]);
                if i + 1 == n {
                    assert(rest.len() == 1);
                    assert(spec_context_block(rest) == rest[0]);
                    assert(spec_context_block(texts) =~= r@);
                } else {
                    assert(rest.drop_first() =~= texts.skip(i + 1));
                    assert(spec_context_block(rest) == rest[0] + "\n---\n"@
                        + spec_context_block(texts.skip(i + 1)));
                    assert(spec_context_block(texts) =~= r@ + "\n---\n"@ + spec_context_block(
                        texts.skip(i + 1),
                    ));
                }
            }
        }
        i = i + 1;
    }
    proof {
        if n == 0 {
            assert(spec_context_block(texts) == Seq::<char>::empty());
            assert(r@ =~= spec_context_block(texts));
        }
    }
    r
}

/// Builds the synthesis prompt for the generative provider from the
/// question and the selected chunks.
pub fn build_synthesis_prompt(question: &str, chunks: &Vec<RelevantChunk>) -> (r: String)
    ensures
        r@ == spec_synthesis_prompt(question@, chunk_texts(chunks@)),
{
    let mut r = String::from_str("CONTEXT:\n            ---\n            ");
    let block = join_chunk_texts(chunks);
    r.append(block.as_str());
    r.append("\n            ---\n            QUESTION: ");
    r.append(question);
    r.append("\n            \n            ANSWER:");
    r
}

/// What the query engine decides to do once the chunks are scored:
/// either answer at once that nothing relevant is stored, without any
/// provider call, or ask the generative provider with these prompts.
pub enum AnswerPlan {
    NoInformation { answer: String },
    Synthesize { system_prompt: String, user_prompt: String },
}

/// Decides the answer for a scored store: a store with nothing to rank
/// gets the fixed no-information answer and no provider call; otherwise
/// the top chunks are selected and the synthesis prompts are built.
pub fn prepare_answer(question: &str, scored: Vec<RelevantChunk>) -> (r: AnswerPlan)
    ensures
        scored@.len() == 0 ==> (r matches AnswerPlan::NoInformation { answer } && answer@
            == "I could not find any relevant information in the knowledge base to answer your question."@),
        scored@.len() > 0 ==> (r matches AnswerPlan::Synthesize { system_prompt, user_prompt }
            && system_prompt@
            == "You are a helpful AI assistant. Answer the user's question based *only* on the context provided. If the context does not contain the answer, state that you cannot answer from the given information."@
            && user_prompt@ == spec_synthesis_prompt(
            question@,
            chunk_texts(
                spec_rank(scored@).take(
                    if SIMILARITY_TOP_K <= scored@.len() {
                        SIMILARITY_TOP_K as int
                    } else {
                        scored@.len() as int
                    },
                ),
            ),
        )),
{
    if scored.len() == 0 {
        AnswerPlan::NoInformation {
            answer: String::from_str(
                "I could not find any relevant information in the knowledge base to answer your question.",
            ),
        }
    } else {
        let top = rank_chunks(scored, SIMILARITY_TOP_K);
        let user_prompt = build_synthesis_prompt(question, &top);
        AnswerPlan::Synthesize {
            system_prompt: String::from_str(
                "You are a helpful AI assistant. Answer the user's question based *only* on the context provided. If the context does not contain the answer, state that you cannot answer from the given information.",
            ),
            user_prompt,
        }
    }
}

} // verus!
