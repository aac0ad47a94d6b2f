//! Architectural-diagram requests: aggregating a project's sources into
//! one analysis context and phrasing the prompt for the diagram kind.
//!
//! Directory walking and file reading stay in the unverified shell,
//! which hands over each file's relative path and content; everything
//! textual is assembled and proved here.

use vstd::prelude::*;
use vstd::string::StringExecFns;
use vstd::string::StrSliceExecFns;
use crate::textutil::str_eq;
use crate::error::Error;

verus! {

/// The kinds of diagram on offer.
#[derive(Clone, Debug, PartialEq, Eq)]
pub enum DiagramType {
    Component,
    Sequence,
}

/// Whether a directory is skipped during the project scan.
pub fn is_ignored_dir(name: &str) -> (r: bool)
    ensures
        r == (name@ == "target"@ || name@ == ".git"@),
{
    str_eq(name, "target") || str_eq(name, ".git")
}

/// One file's contribution to the combined context: a banner naming the
/// file, then its content.
pub open spec fn spec_file_section(path: Seq<char>, content: Seq<char>) -> Seq<char> {
    "\n\n======================================\n// FILE: "@ + path
        + "\n======================================\n\n"@ + content
}

/// The combined context of a whole scan, file sections in scan order.
pub open spec fn spec_combined_context(files: Seq<(String, String)>) -> Seq<char>
    decreases files.len(),
{
    if files.len() == 0 {
        Seq::empty()
    } else {
        spec_file_section(files[0].0@, files[0].1@) + spec_combined_context(files.drop_first())
    }
}

/// Consolidates the scanned files, each under a banner with its path,
/// into the single context string the model analyzes.
pub fn combine_sources(files: &Vec<(String, String)>) -> (r: String)
    ensures
        r@ == spec_combined_context(files@),
{
    let mut r = String::new();
    let n = files.len();
    proof {
        assert(files@.skip(0) == files@);
    }
    let mut i: usize = 0;
    while i < n
        invariant
            n == files@.len(),
            i <= n,
            spec_combined_context(files@) =~= r@ + spec_combined_context(files@.skip(i as int)),
        decreases n - i,
    {
        r.append("\n\n======================================\n// FILE: ");
        r.append(files[i].0.as_str());
        r.append("\n======================================\n\n");
        r.append(files[i].1.as_str());
        proof {
            let rest = files@.skip(i as int);
            assert(rest.first() == files@[i as int]);
            assert(rest.drop_first() =~= files@.skip(i + 1));
            assert(spec_combined_context(files@) =~= r@ + spec_combined_context(
                files@.skip(i + 1),
            ));
        }
        i = i + 1;
    }
    proof {
        assert(files@.skip(n as int) =~= Seq::<(String, String)>::empty());
    }
    r
}

/// The per-kind instruction sentence of the prompt.
pub open spec fn spec_diagram_instructions(t: DiagramType, entry: Option<Seq<char>>) -> Seq<
    char,
> {
    match t {
        DiagramType::Component => "Generate a high-level component diagram showing the main modules, structs, and their primary relationships. Focus on the most significant architectural interactions, not every single function call. The output must be a Mermaid `graph TD`."@,
        DiagramType::Sequence => "Generate a sequence diagram illustrating the flow of calls starting from the public function `"@
            + (match entry {
            Some(f) => f,
            None => "[unspecified function]"@,
        })
            + "`. Trace the interactions between different modules and structs. The output must be a Mermaid `sequenceDiagram`."@,
    }
}

/// The full prompt that requests a diagram over a codebase context.
pub open spec fn spec_diagram_prompt(
    context: Seq<char>,
    t: DiagramType,
    entry: Option<Seq<char>>,
) -> Seq<char> {
    "You are an expert software architect with deep knowledge of Rust. Your task is to analyze the entire provided codebase and generate a diagram.\n\nInstructions:\n1. Analyze the entire codebase provided below.\n2. "@
        + spec_diagram_instructions(t, entry)
        + "\n3. Your final output must ONLY be the Mermaid syntax, enclosed in a ```mermaid code block. Do not include any other text, explanations, or introductory sentences.\n\nSTART OF CODEBASE CONTEXT\n---\n"@
        + context + "\n---\nEND OF CODEBASE CONTEXT"@
}

/// Builds the diagram prompt for the requested kind.
pub fn build_prompt(project_context: &str, diagram_type: &DiagramType, entry_function: &Option<
    String,
>) -> (r: String)
    ensures
        r@ == spec_diagram_prompt(
            project_context@,
            *diagram_type,
            match entry_function {
                Some(f) => Some(f@),
                None => None,
            },
        ),
{
    let mut r = String::from_str(
        "You are an expert software architect with deep knowledge of Rust. Your task is to analyze the entire provided codebase and generate a diagram.\n\nInstructions:\n1. Analyze the entire codebase provided below.\n2. ",
    );
    match diagram_type {
        DiagramType::Component => {
            r.append(
                "Generate a high-level component diagram showing the main modules, structs, and their primary relationships. Focus on the most significant architectural interactions, not every single function call. The output must be a Mermaid `graph TD`.",
            );
        },
        DiagramType::Sequence => {
            r.append(
                "Generate a sequence diagram illustrating the flow of calls starting from the public function `",
            );
            match entry_function {
                Some(f) => r.append(f.as_str()),
                None => r.append("[unspecified function]"),
            }
            r.append(
                "`. Trace the interactions between different modules and structs. The output must be a Mermaid `sequenceDiagram`.",
            );
        },
    }
    r.append(
        "\n3. Your final output must ONLY be the Mermaid syntax, enclosed in a ```mermaid code block. Do not include any other text, explanations, or introductory sentences.\n\nSTART OF CODEBASE CONTEXT\n---\n",
    );
    r.append(project_context);
    r.append("\n---\nEND OF CODEBASE CONTEXT");
    r
}

/// Phrases a diagram request, rejecting an empty context before any
/// provider call is made.
pub fn diagram_request(project_context: &str, diagram_type: &DiagramType, entry_function: &Option<
    String,
>) -> (r: Result<String, Error>)
    ensures
        r is Ok <==> project_context@.len() > 0,
        r matches Ok(p) ==> p@ == spec_diagram_prompt(
            project_context@,
            *diagram_type,
            match entry_function {
                Some(f) => Some(f@),
                None => None,
            },
        ),
        r matches Err(e) ==> (e matches Error::Config(m) && m@
            == "Project context is empty. No files to analyze."@),
{
    if project_context.is_empty() {
        Err(Error::Config(String::from_str("Project context is empty. No files to analyze.")))
    } else {
        Ok(build_prompt(project_context, diagram_type, entry_function))
    }
}

/// A code fence opens at `i`: three backticks in a row.
pub open spec fn fence_at(s: Seq<char>, i: int) -> bool {
    &&& 0 <= i
    &&& i + 3 <= s.len()
    &&& s[i] == '`'
    &&& s[i + 1] == '`'
    &&& s[i + 2] == '`'
}

/// The first fence at or after `i`, if any.
pub open spec fn spec_first_fence(s: Seq<char>, i: int) -> Option<int>
    decreases s.len() - i,
{
    if i < 0 || i + 3 > s.len() {
        None
    } else if fence_at(s, i) {
        Some(i)
    } else {
        spec_first_fence(s, i + 1)
    }
}

/// The last fence at or after `i`; `acc` carries the latest one seen.
pub open spec fn spec_last_fence(s: Seq<char>, i: int, acc: Option<int>) -> Option<int>
    decreases s.len() - i,
{
    if i < 0 || i + 3 > s.len() {
        acc
    } else {
        spec_last_fence(s, i + 1, if fence_at(s, i) {
            Some(i)
        } else {
            acc
        })
    }
}

/// How many characters of language tag follow an opening fence.
pub open spec fn spec_tag_len(s: Seq<char>, start: int) -> int {
    if start + 7 <= s.len() && s.subrange(start, start + 7) == "mermaid"@ {
        7
    } else if start + 8 <= s.len() && s.subrange(start, start + 8) == "plantuml"@ {
        8
    } else {
        0
    }
}

/// The diagram syntax of a model response: what stands, trimmed,
/// between the first code fence (with its optional language tag) and
/// the last fence after it.
pub open spec fn spec_diagram_block(s: Seq<char>) -> Option<Seq<char>> {
    match spec_first_fence(s, 0) {
        None => None,
        Some(a) => {
            let start = a + 3 + spec_tag_len(s, a + 3);
            match spec_last_fence(s, start, None) {
                None => None,
                Some(b) => Some(crate::textutil::trim_of(s.subrange(start, b))),
            }
        },
    }
}

/// Reads three characters ahead for a code fence.
fn fence_here(s: &str, i: usize, n: usize) -> (r: bool)
    requires
        n == s@.len(),
        i + 3 <= n,
    ensures
        r == fence_at(s@, i as int),
{
    s.get_char(i) == '`' && s.get_char(i + 1) == '`' && s.get_char(i + 2) == '`'
}

/// Extracts the diagram syntax from a model response, or nothing when
/// the response holds no complete code block.
pub fn extract_diagram_block(s: &str) -> (r: Option<String>)
    ensures
        (r matches Some(t) ==> spec_diagram_block(s@) == Some(t@)),
        r is None ==> spec_diagram_block(s@) is None,
{
    let n = s.unicode_len();
    let mut a: usize = 0;
    while n >= 3 && a <= n - 3 && !fence_here(s, a, n)
        invariant
            n == s@.len(),
            a <= n,
            spec_first_fence(s@, 0) == spec_first_fence(s@, a as int),
        decreases n - a,
    {
        a = a + 1;
    }
    if n < 3 || a > n - 3 {
        proof {
            assert(spec_first_fence(s@, a as int) is None);
        }
        return None;
    }
    proof {
        assert(spec_first_fence(s@, 0) == Some(a as int));
    }
    let after = a + 3;
    let tag: usize = if n >= 7 && after <= n - 7 && str_eq(s.substring_char(after, after + 7), "mermaid") {
        proof {
            reveal_strlit("mermaid");
            reveal_strlit("plantuml");
        }
        7
    } else if n >= 8 && after <= n - 8 && str_eq(s.substring_char(after, after + 8), "plantuml") {
        proof {
            reveal_strlit("mermaid");
            reveal_strlit("plantuml");
        }
        8
    } else {
        proof {
            reveal_strlit("mermaid");
            reveal_strlit("plantuml");
        }
        0
    };
    let start = after + tag;
    proof {
        assert(tag as int == spec_tag_len(s@, after as int));
    }
    let mut i: usize = start;
    let mut last: usize = 0;
    let mut found = false;
    while n >= 3 && i <= n - 3
        invariant
            n == s@.len(),
            start <= n,
            start <= i,
            found ==> start <= last && last + 3 <= n,
            spec_last_fence(s@, start as int, None) == spec_last_fence(
                s@,
                i as int,
                if found {
                    Some(last as int)
                } else {
                    None
                },
            ),
        decreases n - i,
    {
        if fence_here(s, i, n) {
            last = i;
            found = true;
        }
        i = i + 1;
    }
    if !found {
        proof {
            assert(spec_last_fence(s@, start as int, None) is None);
        }
        return None;
    }
    proof {
        assert(spec_last_fence(s@, start as int, None) == Some(last as int));
    }
    let block = s.substring_char(start, last);
    Some(crate::textutil::trim(block).to_owned())
}

/// The diagram of a response, or the provider error when the response
/// holds no complete code block.
pub fn diagram_from_response(response: &str) -> (r: Result<String, Error>)
    ensures
        r is Ok <==> spec_diagram_block(response@) is Some,
        r matches Ok(d) ==> Some(d@) == spec_diagram_block(response@),
        r matches Err(e) ==> (e matches Error::Provider(m) && m@
            == "AI response did not contain a valid diagram code block."@),
{
    match extract_diagram_block(response) {
        Some(d) => Ok(d),
        None => Err(Error::Provider(String::from_str(
            "AI response did not contain a valid diagram code block.",
        ))),
    }
}

} // verus!
