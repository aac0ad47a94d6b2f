//! Scene detection: phrasing the request that decomposes a narrative
//! into visually coherent scenes, and judging the decoded response.
//!
//! The provider call and the JSON decoding of its reply stay in the
//! unverified shell; the prompt text and the emptiness check are here.

use vstd::prelude::*;
use vstd::string::StringExecFns;
use crate::error::Error;

verus! {

/// One scene the model identified: a one-sentence description and the
/// exact segment of the narrative it covers.
#[derive(Debug)]
pub struct Scene {
    pub description: String,
    pub original_text: String,
}

/// The prompt that asks the model to decompose a narrative into scenes
/// returned as one strict JSON object.
pub open spec fn spec_scene_prompt(narrative_text: Seq<char>) -> Seq<char> {
    "Analyze the following narrative text. Decompose it into a sequence of scenes.\n\n        Your final output must be a single, valid JSON object. The root object should have a single key, \"scenes\", which contains an array of scene objects. Each scene object must strictly adhere to the following schema:\n        ```json\n        {\n  \"scenes\": [\n    {\n      \"description\": \"A concise, one-sentence description of the key visual elements and action in this specific scene.\",\n      \"originalText\": \"The exact, unmodified segment of the original text that corresponds to this scene.\"\n    }\n  ]\n}\n        ```\n\n        Ensure that the `originalText` fields, when concatenated, perfectly reconstruct the original narrative without any modifications, additions, or omissions. Do not include any text or explanations outside of the JSON object.\n\n        Narrative Text to Analyze:\n        \"\"\"\n        "@
        + narrative_text + "\n        \"\"\"\n        "@
}

/// Builds the scene-detection prompt around the narrative text.
pub fn build_user_prompt(narrative_text: &str) -> (r: String)
    ensures
        r@ == spec_scene_prompt(narrative_text@),
{
    let mut r = String::from_str(
        "Analyze the following narrative text. Decompose it into a sequence of scenes.\n\n        Your final output must be a single, valid JSON object. The root object should have a single key, \"scenes\", which contains an array of scene objects. Each scene object must strictly adhere to the following schema:\n        ```json\n        {\n  \"scenes\": [\n    {\n      \"description\": \"A concise, one-sentence description of the key visual elements and action in this specific scene.\",\n      \"originalText\": \"The exact, unmodified segment of the original text that corresponds to this scene.\"\n    }\n  ]\n}\n        ```\n\n        Ensure that the `originalText` fields, when concatenated, perfectly reconstruct the original narrative without any modifications, additions, or omissions. Do not include any text or explanations outside of the JSON object.\n\n        Narrative Text to Analyze:\n        \"\"\"\n        ",
    );
    r.append(narrative_text);
    r.append("\n        \"\"\"\n        ");
    r
}

/// Accepts a decoded scene list only when it holds at least one scene;
/// a detection that found nothing is a processing failure.
pub fn scenes_or_error(scenes: Vec<Scene>) -> (r: Result<Vec<Scene>, Error>)
    ensures
        r is Ok <==> scenes@.len() > 0,
        r matches Ok(s) ==> s == scenes,
        r matches Err(e) ==> (e matches Error::Processing(m) && m@
            == "Scene detection returned no scenes."@),
{
    if scenes.len() == 0 {
        Err(Error::Processing(String::from_str("Scene detection returned no scenes.")))
    } else {
        Ok(scenes)
    }
}

} // verus!
