//! The storyboard pipeline's text work: enriching a scene description
//! into an image prompt request, pairing generated images with their
//! scenes, and assembling the finished frames into one HTML document.
//!
//! Image generation and file writing stay in the unverified shell; the
//! prompt and the whole HTML text are assembled and proved here.

use vstd::prelude::*;
use vstd::string::StringExecFns;
use base64::Engine;
use crate::textutil::{trim, trim_of};

verus! {

/// A scene enriched with the detailed prompt an image model will paint.
#[derive(Debug)]
pub struct VisualPrompt {
    pub scene_description: String,
    pub original_text: String,
    pub image_prompt: String,
}

/// A fully processed frame: the scene, its prompt, and the raw bytes of
/// the generated image.
#[derive(Debug)]
pub struct StoryboardFrame {
    pub original_text: String,
    pub scene_description: String,
    pub image_prompt: String,
    pub image_data: Vec<u8>,
}

/// The prompt that asks for a rich visual prompt from a plain scene
/// description.
pub open spec fn spec_visual_prompt_request(scene_description: Seq<char>) -> Seq<char> {
    "Based on the following scene description, generate a detailed visual prompt for an image generation model.\n\n        The prompt should be a single, descriptive paragraph. Emphasize a 'cinematic film noir' artistic style. Include details about lighting (e.g., 'dramatic chiaroscuro lighting'), color (e.g., 'monochromatic with a single splash of color'), and camera angle (e.g., 'low-angle shot').\n\n        Scene Description:\n        \"\"\"\n        "@
        + scene_description + "\n        \"\"\"\n\n        Generated Visual Prompt:"@
}

/// Builds the visual-prompt request around one scene description.
pub fn build_user_prompt(scene_description: &str) -> (r: String)
    ensures
        r@ == spec_visual_prompt_request(scene_description@),
{
    let mut r = String::from_str(
        "Based on the following scene description, generate a detailed visual prompt for an image generation model.\n\n        The prompt should be a single, descriptive paragraph. Emphasize a 'cinematic film noir' artistic style. Include details about lighting (e.g., 'dramatic chiaroscuro lighting'), color (e.g., 'monochromatic with a single splash of color'), and camera angle (e.g., 'low-angle shot').\n\n        Scene Description:\n        \"\"\"\n        ",
    );
    r.append(scene_description);
    r.append("\n        \"\"\"\n\n        Generated Visual Prompt:");
    r
}

/// Pairs a visual prompt with the image generated for it.
pub fn frame_from_prompt(prompt: &VisualPrompt, image_data: Vec<u8>) -> (r: StoryboardFrame)
    ensures
        r.original_text@ == prompt.original_text@,
        r.scene_description@ == prompt.scene_description@,
        r.image_prompt@ == prompt.image_prompt@,
        r.image_data == image_data,
{
    StoryboardFrame {
        original_text: prompt.original_text.clone(),
        scene_description: prompt.scene_description.clone(),
        image_prompt: prompt.image_prompt.clone(),
        image_data,
    }
}

/// The base64 rendering of a byte string under the standard alphabet
/// with padding. The text depends on the bytes alone; its definition is
/// left to the `base64` crate.
pub uninterp spec fn base64_of(data: Seq<u8>) -> Seq<char>;

/// Relies on base64's STANDARD engine: the encoding is a function of
/// the input bytes alone, four characters for every started group of
/// three bytes.
#[verifier::external_body]
fn base64_encode(data: &Vec<u8>) -> (r: String)
    ensures
        r@ == base64_of(data@),
        r@.len() == 4 * ((data@.len() + 2) / 3),
{
    base64::engine::general_purpose::STANDARD.encode(data)
}

/// One frame's block of the storyboard page: the image inlined as a
/// base64 data URL, the description as caption and alt text, the
/// original narrative below.
pub open spec fn spec_frame_html(frame: StoryboardFrame) -> Seq<char> {
    "\n            <div class=\"frame\">\n                <div class=\"image-container\">\n                    <img src=\"data:image/png;base64,"@
        + base64_of(frame.image_data@) + "\" alt=\""@ + frame.scene_description@
        + "\" title=\"Visual Prompt: "@ + frame.image_prompt@
        + "\">\n                </div>\n                <div class=\"text-container\">\n                    <h4>"@
        + frame.scene_description@ + "</h4>\n                    <p>"@ + trim_of(
        frame.original_text@,
    ) + "</p>\n                </div>\n            </div>\n            "@
}

/// The frame blocks of a whole storyboard, in order.
pub open spec fn spec_frames_html(frames: Seq<StoryboardFrame>) -> Seq<char>
    decreases frames.len(),
{
    if frames.len() == 0 {
        Seq::empty()
    } else {
        spec_frame_html(frames[0]) + spec_frames_html(frames.drop_first())
    }
}

/// The complete storyboard page: header, every frame's block, footer.
pub open spec fn spec_storyboard_html(frames: Seq<StoryboardFrame>) -> Seq<char> {
    "\n<!DOCTYPE html>\n<html lang=\"en\">\n<head>\n    <meta charset=\"UTF-8\">\n    <meta name=\"viewport\" content=\"width=device-width, initial-scale=1.0\">\n    <title>AI Generated Storyboard</title>\n    <style>\n        body { font-family: -apple-system, BlinkMacSystemFont, \"Segoe UI\", Roboto, Helvetica, Arial, sans-serif; line-height: 1.6; background-color: #f4f4f9; color: #333; margin: 0; padding: 2rem; }\n        .container { max-width: 900px; margin: auto; background: #fff; padding: 2rem; box-shadow: 0 4px 12px rgba(0,0,0,0.1); border-radius: 8px; }\n        h1 { text-align: center; color: #1a1a1a; }\n        .frame { display: flex; flex-wrap: wrap; gap: 2rem; margin-bottom: 3rem; padding-bottom: 2rem; border-bottom: 1px solid #e0e0e0; align-items: center; }\n        .frame:last-child { border-bottom: none; }\n        .image-container { flex: 1; min-width: 300px; }\n        .text-container { flex: 1.5; min-width: 300px; }\n        img { max-width: 100%; height: auto; border-radius: 6px; box-shadow: 0 2px 8px rgba(0,0,0,0.1); }\n        h4 { margin-top: 0; margin-bottom: 0.5rem; color: #555; font-weight: bold; }\n        p { font-size: 1.1rem; color: #444; font-style: italic; }\n    </style>\n</head>\n<body>\n    <div class=\"container\">\n        <h1>AI Generated Storyboard</h1>\n"@
        + spec_frames_html(frames) + "\n    </div>\n</body>\n</html>\n"@
}

/// Assembles the finished frames into the storyboard page; writing it
/// to disk is the caller's business.
pub fn assemble_storyboard_html(frames: &Vec<StoryboardFrame>) -> (r: String)
    ensures
        r@ == spec_storyboard_html(frames@),
{
    let mut body = String::new();
    let n = frames.len();
    proof {
        assert(frames@.skip(0) == frames@);
    }
    let mut i: usize = 0;
    while i < n
        invariant
            n == frames@.len(),
            i <= n,
            spec_frames_html(frames@) =~= body@ + spec_frames_html(frames@.skip(i as int)),
        decreases n - i,
    {
        let frame = &frames[i];
        let image_base64 = base64_encode(&frame.image_data);
        body.append(
            "\n            <div class=\"frame\">\n                <div class=\"image-container\">\n                    <img src=\"data:image/png;base64,",
        );
        body.append(image_base64.as_str());
        body.append("\" alt=\"");
        body.append(frame.scene_description.as_str());
        body.append("\" title=\"Visual Prompt: ");
        body.append(frame.image_prompt.as_str());
        body.append(
            "\">\n                </div>\n                <div class=\"text-container\">\n                    <h4>",
        );
        body.append(frame.scene_description.as_str());
        body.append("</h4>\n                    <p>");
        body.append(trim(frame.original_text.as_str()));
        body.append("</p>\n                </div>\n            </div>\n            ");
        proof {
            let rest = frames@.skip(i as int);
            assert(rest.first() == frames@[i as int]);
            assert(rest.drop_first() =~= frames@.skip(i + 1));
            assert(spec_frames_html(frames@) =~= body@ + spec_frames_html(frames@.skip(i + 1)));
        }
        i = i + 1;
    }
    proof {
        assert(frames@.skip(n as int) =~= Seq::<StoryboardFrame>::empty());
    }
    let mut r = String::from_str(
        "\n<!DOCTYPE html>\n<html lang=\"en\">\n<head>\n    <meta charset=\"UTF-8\">\n    <meta name=\"viewport\" content=\"width=device-width, initial-scale=1.0\">\n    <title>AI Generated Storyboard</title>\n    <style>\n        body { font-family: -apple-system, BlinkMacSystemFont, \"Segoe UI\", Roboto, Helvetica, Arial, sans-serif; line-height: 1.6; background-color: #f4f4f9; color: #333; margin: 0; padding: 2rem; }\n        .container { max-width: 900px; margin: auto; background: #fff; padding: 2rem; box-shadow: 0 4px 12px rgba(0,0,0,0.1); border-radius: 8px; }\n        h1 { text-align: center; color: #1a1a1a; }\n        .frame { display: flex; flex-wrap: wrap; gap: 2rem; margin-bottom: 3rem; padding-bottom: 2rem; border-bottom: 1px solid #e0e0e0; align-items: center; }\n        .frame:last-child { border-bottom: none; }\n        .image-container { flex: 1; min-width: 300px; }\n        .text-container { flex: 1.5; min-width: 300px; }\n        img { max-width: 100%; height: auto; border-radius: 6px; box-shadow: 0 2px 8px rgba(0,0,0,0.1); }\n        h4 { margin-top: 0; margin-bottom: 0.5rem; color: #555; font-weight: bold; }\n        p { font-size: 1.1rem; color: #444; font-style: italic; }\n    </style>\n</head>\n<body>\n    <div class=\"container\">\n        <h1>AI Generated Storyboard</h1>\n",
    );
    r.append(body.as_str());
    r.append("\n    </div>\n</body>\n</html>\n");
    r
}

} // verus!
