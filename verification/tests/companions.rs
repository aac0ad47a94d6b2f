//! Tests of the companion tools' text work: transcript formatting,
//! profile selection, project-context assembly, diagram prompts, scene
//! and sentiment prompts, JSON extraction, and storyboard assembly.

use knowledge_engine::architect::{
    build_prompt as diagram_prompt, combine_sources, diagram_from_response, diagram_request,
    extract_diagram_block, is_ignored_dir, DiagramType,
};
use knowledge_engine::distiller::{
    distill_prompts, format_conversation_for_prompt, select_profile, Conversation,
    ConversationTurn, ToneProfile, ToneProfileConfig,
};
use knowledge_engine::error::Error;
use knowledge_engine::jsonx::extract_first_json_object;
use knowledge_engine::risk::build_system_prompt as risk_system_prompt;
use knowledge_engine::scenes::{build_user_prompt as scene_prompt, scenes_or_error, Scene};
use knowledge_engine::sentiment::{
    analysis_payload, build_prompt as sentiment_prompt, AnalysisResult, SentimentConfig,
    SentimentLabel,
};
use knowledge_engine::storyboard::{
    assemble_storyboard_html, build_user_prompt as visual_prompt, frame_from_prompt,
    StoryboardFrame, VisualPrompt,
};

fn sample_conversation() -> Conversation {
    Conversation {
        conversation: vec![
            ConversationTurn { speaker: "Ana".to_string(), text: "Shall we begin?".to_string() },
            ConversationTurn { speaker: "Ben".to_string(), text: "Yes, please.".to_string() },
        ],
    }
}

#[test]
fn transcript_is_formatted_line_by_line() {
    let formatted = format_conversation_for_prompt(&sample_conversation());
    assert_eq!(
        formatted,
        "CONVERSATION TRANSCRIPT:\n---\nAna: Shall we begin?\nBen: Yes, please.\n---\nEND OF TRANSCRIPT"
    );
}

#[test]
fn empty_transcript_still_has_header_and_footer() {
    let formatted = format_conversation_for_prompt(&Conversation { conversation: vec![] });
    assert_eq!(formatted, "CONVERSATION TRANSCRIPT:\n---\n---\nEND OF TRANSCRIPT");
}

#[test]
fn profile_selection_finds_the_first_match() {
    let config = ToneProfileConfig {
        profiles: vec![
            ToneProfile {
                name: "brief".to_string(),
                description: "short".to_string(),
                system_prompt: "Be brief.".to_string(),
            },
            ToneProfile {
                name: "formal".to_string(),
                description: "stiff".to_string(),
                system_prompt: "Be formal.".to_string(),
            },
        ],
    };
    assert_eq!(select_profile(&config, "formal"), Some(1));
    assert_eq!(select_profile(&config, "casual"), None);
    let (system, user) = distill_prompts(&sample_conversation(), &config.profiles[0]);
    assert_eq!(system, "Be brief.");
    assert!(user.starts_with("CONVERSATION TRANSCRIPT:"));
}

#[test]
fn ignored_dirs_are_exactly_target_and_git() {
    assert!(is_ignored_dir("target"));
    assert!(is_ignored_dir(".git"));
    assert!(!is_ignored_dir("src"));
    assert!(!is_ignored_dir("targets"));
}

#[test]
fn combined_context_banners_each_file() {
    let files = vec![
        ("src/main.rs".to_string(), "fn main() {}".to_string()),
        ("src/lib.rs".to_string(), "pub fn f() {}".to_string()),
    ];
    let combined = combine_sources(&files);
    let expected = format!(
        "\n\n======================================\n// FILE: {}\n======================================\n\n{}\n\n======================================\n// FILE: {}\n======================================\n\n{}",
        "src/main.rs", "fn main() {}", "src/lib.rs", "pub fn f() {}"
    );
    assert_eq!(combined, expected);
}

#[test]
fn diagram_prompt_varies_with_the_kind() {
    let component = diagram_prompt("CODE", &DiagramType::Component, &None);
    assert!(component.contains("component diagram"));
    assert!(component.contains("START OF CODEBASE CONTEXT\n---\nCODE\n---\nEND OF CODEBASE CONTEXT"));
    let sequence = diagram_prompt("CODE", &DiagramType::Sequence, &Some("main".to_string()));
    assert!(sequence.contains("starting from the public function `main`."));
    let unnamed = diagram_prompt("CODE", &DiagramType::Sequence, &None);
    assert!(unnamed.contains("`[unspecified function]`"));
}

#[test]
fn empty_context_is_rejected_before_any_call() {
    let err = diagram_request("", &DiagramType::Component, &None).unwrap_err();
    match err {
        Error::Config(m) => assert_eq!(m, "Project context is empty. No files to analyze."),
        other => panic!("unexpected error: {:?}", other),
    }
    assert!(diagram_request("code", &DiagramType::Component, &None).is_ok());
}

#[test]
fn scene_prompt_embeds_the_narrative() {
    let p = scene_prompt("A dark alley. Rain.");
    assert!(p.starts_with("Analyze the following narrative text."));
    assert!(p.contains("\"\"\"\n        A dark alley. Rain.\n        \"\"\""));
    assert!(p.contains("\"scenes\""));
}

#[test]
fn empty_scene_lists_are_rejected() {
    let err = scenes_or_error(Vec::new()).unwrap_err();
    match err {
        Error::Processing(m) => assert_eq!(m, "Scene detection returned no scenes."),
        other => panic!("unexpected error: {:?}", other),
    }
    let kept = scenes_or_error(vec![Scene {
        description: "An alley".to_string(),
        original_text: "A dark alley. Rain.".to_string(),
    }])
    .unwrap();
    assert_eq!(kept.len(), 1);
}

#[test]
fn risk_prompt_fixes_the_verdict_schema() {
    let p = risk_system_prompt();
    assert!(p.starts_with("You are an expert credit risk analyst"));
    assert!(p.contains("\"riskScore\": \"A number from 1 (lowest risk) to 10 (highest risk).\""));
    assert!(p.contains("'APPROVE', 'DENY', 'MANUAL_REVIEW'"));
    assert_eq!(p, risk_system_prompt());
}

#[test]
fn sentiment_prompt_lists_every_label() {
    let config = SentimentConfig {
        labels: vec![
            SentimentLabel {
                name: "positive".to_string(),
                description: "good vibes".to_string(),
            },
            SentimentLabel {
                name: "negative".to_string(),
                description: "bad vibes".to_string(),
            },
        ],
    };
    let p = sentiment_prompt(&config, "I love this.");
    assert!(p.contains("- \"positive\": good vibes\n- \"negative\": bad vibes"));
    assert!(p.contains("\"\"\"\n            I love this.\n            \"\"\""));
    assert!(p.starts_with("You are an expert sentiment analysis engine."));
    let result = AnalysisResult {
        chain_of_thought: "Warm words throughout.".to_string(),
        sentiment: "positive".to_string(),
    };
    assert_eq!(result.sentiment, "positive");
}

#[test]
fn json_extraction_finds_the_first_balanced_object() {
    let wrapped = "Here you go:\n```json\n{\"sentiment\": \"positive\", \"nested\": {\"k\": 1}}\n```\nthanks";
    assert_eq!(
        extract_first_json_object(wrapped).unwrap(),
        "{\"sentiment\": \"positive\", \"nested\": {\"k\": 1}}"
    );
    let braces_in_strings = "{\"text\": \"a } inside\", \"n\": 2} trailing {\"x\": 3}";
    assert_eq!(
        extract_first_json_object(braces_in_strings).unwrap(),
        "{\"text\": \"a } inside\", \"n\": 2}"
    );
    assert_eq!(extract_first_json_object("no object here"), None);
    assert_eq!(extract_first_json_object("open { never closes"), None);
    assert_eq!(
        extract_first_json_object("{\"esc\": \"quote \\\" and } brace\"}").unwrap(),
        "{\"esc\": \"quote \\\" and } brace\"}"
    );
}

#[test]
fn diagram_extraction_reads_the_fenced_block() {
    let fenced = "Here it is:\n```mermaid\ngraph TD\n  A --> B\n```";
    assert_eq!(
        extract_diagram_block(fenced).unwrap(),
        "graph TD\n  A --> B"
    );
    let plain = "```\nsequenceDiagram\n```";
    assert_eq!(extract_diagram_block(plain).unwrap(), "sequenceDiagram");
    match diagram_from_response("no fences at all") {
        Err(Error::Provider(m)) => {
            assert_eq!(m, "AI response did not contain a valid diagram code block.")
        }
        _ => panic!("a response without a code block must be rejected"),
    }
    assert_eq!(
        diagram_from_response("```mermaid\ngraph TD\n```").unwrap(),
        "graph TD"
    );
}

#[test]
fn analysis_payload_extracts_strict_json() {
    let ok = analysis_payload("```json\n{\"sentiment\": \"positive\"}\n```").unwrap();
    assert_eq!(ok, "{\"sentiment\": \"positive\"}");
    match analysis_payload("nothing structured") {
        Err(Error::Processing(m)) => assert_eq!(m, "The response holds no JSON object."),
        _ => panic!("free text must be rejected"),
    }
}

#[test]
fn visual_prompt_requests_film_noir_style() {
    let p = visual_prompt("A dark alley.");
    assert!(p.starts_with("Based on the following scene description,"));
    assert!(p.contains("'cinematic film noir' artistic style"));
    assert!(p.contains("\"\"\"\n        A dark alley.\n        \"\"\""));
    assert!(p.ends_with("Generated Visual Prompt:"));
}

#[test]
fn storyboard_embeds_images_as_data_urls() {
    let prompt = VisualPrompt {
        scene_description: "An alley".to_string(),
        original_text: "  A dark alley. Rain.  ".to_string(),
        image_prompt: "Noir alley, rain".to_string(),
    };
    let frame = frame_from_prompt(&prompt, vec![1, 2, 3]);
    let html = assemble_storyboard_html(&vec![frame]);
    assert!(html.starts_with("\n<!DOCTYPE html>"));
    assert!(html.contains("data:image/png;base64,AQID"));
    assert!(html.contains("alt=\"An alley\""));
    assert!(html.contains("title=\"Visual Prompt: Noir alley, rain\""));
    // The original narrative is trimmed before display.
    assert!(html.contains("<p>A dark alley. Rain.</p>"));
    assert!(html.ends_with("\n    </div>\n</body>\n</html>\n"));
}

#[test]
fn storyboard_of_no_frames_is_just_the_shell() {
    let html = assemble_storyboard_html(&Vec::new());
    assert!(html.contains("<h1>AI Generated Storyboard</h1>"));
    assert!(!html.contains("class=\"frame\""));
}

#[test]
fn frames_keep_their_prompt_fields() {
    let prompt = VisualPrompt {
        scene_description: "d".to_string(),
        original_text: "o".to_string(),
        image_prompt: "p".to_string(),
    };
    let frame: StoryboardFrame = frame_from_prompt(&prompt, vec![0xff]);
    assert_eq!(frame.scene_description, "d");
    assert_eq!(frame.original_text, "o");
    assert_eq!(frame.image_prompt, "p");
    assert_eq!(frame.image_data, vec![0xff]);
}
