//! Tests of the query engine's ranking, prompt assembly, and the fixed
//! no-information path, and of the provider response decisions.

use knowledge_engine::config::Config;
use knowledge_engine::error::Error;
use knowledge_engine::provider::{completion_messages, first_choice, first_embedding, is_exit_command};
use knowledge_engine::query::{
    build_synthesis_prompt, check_dimension, prepare_answer, rank_chunks, AnswerPlan,
    RelevantChunk, SIMILARITY_TOP_K,
};

fn chunk(text: &str, similarity: u64) -> RelevantChunk {
    RelevantChunk { text: text.to_string(), similarity }
}

#[test]
fn ranking_returns_top_k_sorted_descending() {
    let scored = vec![
        chunk("low", 10),
        chunk("high", 90),
        chunk("mid", 50),
        chunk("tiny", 1),
        chunk("peak", 99),
    ];
    let top = rank_chunks(scored, 3);
    assert_eq!(top.len(), 3);
    assert_eq!(top[0].text, "peak");
    assert_eq!(top[1].text, "high");
    assert_eq!(top[2].text, "mid");
    for w in top.windows(2) {
        assert!(w[0].similarity >= w[1].similarity);
    }
}

#[test]
fn ranking_returns_all_when_fewer_than_k() {
    let scored = vec![chunk("a", 3), chunk("b", 7)];
    let top = rank_chunks(scored, SIMILARITY_TOP_K);
    assert_eq!(top.len(), 2);
    assert_eq!(top[0].text, "b");
    assert_eq!(top[1].text, "a");
}

#[test]
fn ranking_breaks_ties_by_encounter_order() {
    let scored = vec![chunk("first", 5), chunk("second", 5), chunk("third", 5)];
    let top = rank_chunks(scored, 2);
    assert_eq!(top.len(), 2);
    assert_eq!(top[0].text, "first");
    assert_eq!(top[1].text, "second");
}

#[test]
fn synthesis_prompt_lays_out_context_and_question() {
    let chunks = vec![chunk("Alpha facts.", 9), chunk("Beta facts.", 8)];
    let prompt = build_synthesis_prompt("What is alpha?", &chunks);
    let expected = format!(
        "CONTEXT:\n            ---\n            {}\n            ---\n            QUESTION: {}\n            \n            ANSWER:",
        "Alpha facts.\n---\nBeta facts.", "What is alpha?"
    );
    assert_eq!(prompt, expected);
}

#[test]
fn empty_store_gets_the_fixed_answer_and_no_synthesis() {
    let plan = prepare_answer("anything?", Vec::new());
    match plan {
        AnswerPlan::NoInformation { answer } => assert_eq!(
            answer,
            "I could not find any relevant information in the knowledge base to answer your question."
        ),
        AnswerPlan::Synthesize { .. } => panic!("an empty store must not reach the provider"),
    }
}

#[test]
fn nonempty_store_gets_a_synthesis_plan_over_the_top_chunks() {
    let scored = vec![
        chunk("one", 1),
        chunk("six", 6),
        chunk("four", 4),
        chunk("five", 5),
        chunk("three", 3),
        chunk("two", 2),
    ];
    let plan = prepare_answer("pick", scored);
    match plan {
        AnswerPlan::Synthesize { system_prompt, user_prompt } => {
            assert_eq!(
                system_prompt,
                "You are a helpful AI assistant. Answer the user's question based *only* on the context provided. If the context does not contain the answer, state that you cannot answer from the given information."
            );
            let expected_context = "six\n---\nfive\n---\nfour\n---\nthree\n---\ntwo";
            let expected = format!(
                "CONTEXT:\n            ---\n            {}\n            ---\n            QUESTION: pick\n            \n            ANSWER:",
                expected_context
            );
            assert_eq!(user_prompt, expected);
        }
        AnswerPlan::NoInformation { .. } => panic!("chunks were available"),
    }
}

#[test]
fn first_choice_takes_the_first_and_rejects_none() {
    let ok = first_choice(vec!["answer one".to_string(), "answer two".to_string()]).unwrap();
    assert_eq!(ok, "answer one");
    let err = first_choice(Vec::new()).unwrap_err();
    match err {
        Error::Provider(m) => assert_eq!(m, "API response did not contain any choices."),
        other => panic!("unexpected error: {:?}", other),
    }
}

#[test]
fn first_embedding_takes_the_first_and_rejects_none() {
    let ok = first_embedding(vec![vec![1, 2, 3], vec![4]]).unwrap();
    assert_eq!(ok, vec![1, 2, 3]);
    let err = first_embedding(Vec::new()).unwrap_err();
    match err {
        Error::Provider(m) => assert_eq!(m, "API response did not contain any embedding data."),
        other => panic!("unexpected error: {:?}", other),
    }
}

#[test]
fn completion_messages_carry_both_roles() {
    let ms = completion_messages("be brief", "what time is it?");
    assert_eq!(ms.len(), 2);
    assert_eq!(ms[0].role, "system");
    assert_eq!(ms[0].content, "be brief");
    assert_eq!(ms[1].role, "user");
    assert_eq!(ms[1].content, "what time is it?");
}

#[test]
fn dimension_check_rejects_mismatches_only() {
    assert!(check_dimension(3, 3).is_ok());
    assert!(check_dimension(0, 7).is_ok());
    match check_dimension(3, 4) {
        Err(Error::Config(m)) => {
            assert_eq!(m, "Stored embedding dimension does not match the provider's.")
        }
        _ => panic!("a width mismatch must be a configuration error"),
    }
}

#[test]
fn exit_command_is_case_insensitive_and_trimmed() {
    assert!(is_exit_command("exit"));
    assert!(is_exit_command("  EXIT  "));
    assert!(is_exit_command("Exit"));
    assert!(!is_exit_command("exits"));
    assert!(!is_exit_command("quit"));
    assert!(!is_exit_command(""));
}

#[test]
fn config_requires_both_settings() {
    let ok = Config::from_settings(Some("sqlite:db".to_string()), Some("sk".to_string()))
        .unwrap();
    assert_eq!(ok.database_url, "sqlite:db");
    assert_eq!(ok.openai_api_key, "sk");
    match Config::from_settings(None, Some("sk".to_string())) {
        Err(Error::Config(m)) => assert_eq!(m, "DATABASE_URL must be set"),
        _ => panic!("a missing database URL must be a configuration error"),
    }
    match Config::from_settings(Some("sqlite:db".to_string()), None) {
        Err(Error::Config(m)) => assert_eq!(m, "OPENAI_API_KEY must be set"),
        _ => panic!("a missing API key must be a configuration error"),
    }
}
