//! Sentiment analysis over a configurable label set: the label
//! catalogue, the chain-of-thought prompt built from it, and the shape
//! of the structured verdict the model must return.
//!
//! Loading the label file, the provider call, and JSON decoding stay in
//! the unverified shell; the prompt text is assembled and proved here.

use vstd::prelude::*;
use vstd::string::StringExecFns;
use crate::error::Error;
use crate::jsonx::{extract_first_json_object, spec_extract_object};

verus! {

/// One sentiment category on offer.
#[derive(Debug)]
pub struct SentimentLabel {
    pub name: String,
    pub description: String,
}

/// The whole label catalogue.
#[derive(Debug)]
pub struct SentimentConfig {
    pub labels: Vec<SentimentLabel>,
}

/// The structured verdict the model is instructed to return: its
/// reasoning, then the single chosen label.
#[derive(Debug)]
pub struct AnalysisResult {
    pub chain_of_thought: String,
    pub sentiment: String,
}

/// One catalogue line per label: a dash, the quoted name, the
/// description.
pub open spec fn spec_label_lines(labels: Seq<SentimentLabel>) -> Seq<char>
    decreases labels.len(),
{
    if labels.len() == 0 {
        Seq::empty()
    } else if labels.len() == 1 {
        "- \""@ + labels[0].name@ + "\": "@ + labels[0].description@
    } else {
        "- \""@ + labels[0].name@ + "\": "@ + labels[0].description@ + "\n"@
            + spec_label_lines(labels.drop_first())
    }
}

/// The full analysis prompt: the label catalogue, the required
/// reasoning steps, and the text under analysis.
pub open spec fn spec_analysis_prompt(labels: Seq<SentimentLabel>, text: Seq<char>) -> Seq<
    char,
> {
    "You are an expert sentiment analysis engine. Your task is to analyze the provided text and classify it according to one of the following predefined sentiment labels. You must provide your reasoning process and then the final classification in a specific JSON format.\n\n            Sentiment Labels:\n            "@
        + spec_label_lines(labels)
        + "\n\n            Follow these steps precisely:\n            1.  **Chain of Thought**: First, write a step-by-step reasoning process explaining your analysis. Consider the explicit words, the context, and the likely intent of the author. This reasoning must be detailed.\n            2.  **Sentiment Classification**: After your reasoning, choose the single best sentiment label from the provided list that accurately describes the text.\n\n            Your final output must be a single, valid JSON object with two keys: \"chainOfThought\" and \"sentiment\". Do not include any other text or explanations outside of the JSON object.\n\n            Text to Analyze:\n            \"\"\"\n            "@
        + text + "\n            \"\"\""@
}

/// Builds the chain-of-thought analysis prompt for a text.
pub fn build_prompt(config: &SentimentConfig, text_to_analyze: &str) -> (r: String)
    ensures
        r@ == spec_analysis_prompt(config.labels@, text_to_analyze@),
{
    let labels = &config.labels;
    let mut lines = String::new();
    let n = labels.len();
    let mut i: usize = 0;
    while i < n
        invariant
            n == labels@.len(),
            i <= n,
            i == 0 ==> lines@ == Seq::<char>::empty(),
            1 <= i < n ==> spec_label_lines(labels@) == lines@ + "\n"@ + spec_label_lines(
                labels@.skip(i as int),
            ),
            i >= 1 && i == n ==> spec_label_lines(labels@) == lines@,
        decreases n - i,
    {
        if i > 0 {
            lines.append("\n");
        }
        lines.append("- \"");
        lines.append(labels[i].name.as_str());
        lines.append("\": ");
        lines.append(labels[i].description.as_str());
        proof {
            let rest = labels@.skip(i as int);
            assert(rest.first() == labels@[i as int]);
            if i == 0 {
                if n == 1 {
                    assert(lines@ =~= spec_label_lines(labels@));
                } else {
                    assert(rest.drop_first() =~= labels@.skip(1));
                    assert(spec_label_lines(labels@) =~= lines@ + "\n"@ + spec_label_lines(
                        labels@.skip(1),
                    ));
                }
            } else {
                if i + 1 == n {
                    assert(rest.len() == 1);
                    assert(spec_label_lines(rest) == "- \""@ + rest[0].name@ + "\": "@
                        + rest[0].description@);
                    assert(spec_label_lines(labels@) =~= lines@);
                } else {
                    assert(rest.drop_first() =~= labels@.skip(i + 1));
                    assert(spec_label_lines(labels@) =~= lines@ + "\n"@ + spec_label_lines(
                        labels@.skip(i + 1),
                    ));
                }
            }
        }
        i = i + 1;
    }
    proof {
        if n == 0 {
            assert(lines@ =~= spec_label_lines(labels@));
        }
    }
    let mut r = String::from_str(
        "You are an expert sentiment analysis engine. Your task is to analyze the provided text and classify it according to one of the following predefined sentiment labels. You must provide your reasoning process and then the final classification in a specific JSON format.\n\n            Sentiment Labels:\n            ",
    );
    r.append(lines.as_str());
    r.append(
        "\n\n            Follow these steps precisely:\n            1.  **Chain of Thought**: First, write a step-by-step reasoning process explaining your analysis. Consider the explicit words, the context, and the likely intent of the author. This reasoning must be detailed.\n            2.  **Sentiment Classification**: After your reasoning, choose the single best sentiment label from the provided list that accurately describes the text.\n\n            Your final output must be a single, valid JSON object with two keys: \"chainOfThought\" and \"sentiment\". Do not include any other text or explanations outside of the JSON object.\n\n            Text to Analyze:\n            \"\"\"\n            ",
    );
    r.append(text_to_analyze);
    r.append("\n            \"\"\"");
    r
}

/// The JSON payload of an analysis response: the first balanced object
/// in the model's output, or a processing error when there is none.
/// Structured decoding of the payload is the caller's next step.
pub fn analysis_payload(response: &str) -> (r: Result<String, Error>)
    ensures
        r is Ok <==> spec_extract_object(response@) is Some,
        r matches Ok(p) ==> Some(p@) == spec_extract_object(response@),
        r matches Err(e) ==> (e matches Error::Processing(m) && m@
            == "The response holds no JSON object."@),
{
    match extract_first_json_object(response) {
        Some(p) => Ok(p),
        None => Err(Error::Processing(String::from_str(
            "The response holds no JSON object.",
        ))),
    }
}

} // verus!
